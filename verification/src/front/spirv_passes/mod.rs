pub mod module;
pub mod builder;
pub mod sets;
pub mod lookup;
pub mod lower_loop_sample_lod;
pub mod harden_normalize;
pub mod split_io_arrays;
pub mod link_input_outputs;
