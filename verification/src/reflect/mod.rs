pub mod semantics;
pub mod names;
pub mod tables;
pub mod meta;
pub mod checks;
pub mod stage;
pub mod presets;
pub mod cross;
