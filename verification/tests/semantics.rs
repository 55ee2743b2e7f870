use librashader_reflect::reflect::presets::{is_blank, preset_semantics, ShaderPassConfig, TextureConfig};
use librashader_reflect::reflect::semantics::{
    semantic_from_name, variable_from_name, BindingStage, SemanticMap, TextureSemanticMap, TextureSemantics,
    UniformSemantic, UniformType, VariableSemanticMap, VariableSemantics,
};

fn texture(semantics: TextureSemantics, index: usize) -> Option<SemanticMap<TextureSemantics>> {
    Some(SemanticMap { semantics, index })
}

#[test]
fn texture_names_resolve_with_their_index() {
    assert_eq!(semantic_from_name("Original", false), texture(TextureSemantics::Original, 0));
    assert_eq!(semantic_from_name("Source", false), texture(TextureSemantics::Source, 0));
    assert_eq!(semantic_from_name("OriginalHistory3", false), texture(TextureSemantics::OriginalHistory, 3));
    assert_eq!(semantic_from_name("PassOutput0", false), texture(TextureSemantics::PassOutput, 0));
    assert_eq!(semantic_from_name("PassFeedback12", false), texture(TextureSemantics::PassFeedback, 12));
    assert_eq!(semantic_from_name("User7", false), texture(TextureSemantics::User, 7));
    assert_eq!(semantic_from_name("OriginalHistorySize2", true), texture(TextureSemantics::OriginalHistory, 2));
    assert_eq!(semantic_from_name("SourceSize", true), texture(TextureSemantics::Source, 0));
    assert_eq!(semantic_from_name("PassOutputSize4", true), texture(TextureSemantics::PassOutput, 4));
}

#[test]
fn malformed_texture_names_resolve_to_nothing() {
    assert_eq!(semantic_from_name("Originalx", false), None);
    assert_eq!(semantic_from_name("PassOutput", false), None);
    assert_eq!(semantic_from_name("PassOutputx", false), None);
    assert_eq!(semantic_from_name("Nothing", false), None);
    assert_eq!(semantic_from_name("SourceSize", false), None);
    assert_eq!(semantic_from_name("Source", true), None);
}

#[test]
fn texture_semantic_names() {
    for (s, name, size) in [
        (TextureSemantics::Original, "Original", "OriginalSize"),
        (TextureSemantics::Source, "Source", "SourceSize"),
        (TextureSemantics::OriginalHistory, "OriginalHistory", "OriginalHistorySize"),
        (TextureSemantics::PassOutput, "PassOutput", "PassOutputSize"),
        (TextureSemantics::PassFeedback, "PassFeedback", "PassFeedbackSize"),
        (TextureSemantics::User, "User", "UserSize"),
    ] {
        assert_eq!(s.texture_name(), name);
        assert_eq!(s.size_uniform_name(), size);
        let arrayed = !matches!(s, TextureSemantics::Original | TextureSemantics::Source);
        assert_eq!(s.is_array(), arrayed);
        assert_eq!(s.semantics(5), SemanticMap { semantics: s, index: 5 });
        // The law: a name with its index reads back as the semantic.
        let written = if arrayed { format!("{}9", name) } else { name.to_string() };
        let index = if arrayed { 9 } else { 0 };
        assert_eq!(semantic_from_name(&written, false), texture(s, index));
    }
}

#[test]
fn variable_names_resolve() {
    assert_eq!(variable_from_name("MVP").map(|m| m.semantics), Some(VariableSemantics::MVP));
    assert_eq!(variable_from_name("OutputSize").map(|m| m.semantics), Some(VariableSemantics::Output));
    assert_eq!(variable_from_name("FinalViewportSize").map(|m| m.semantics), Some(VariableSemantics::FinalViewport));
    assert_eq!(variable_from_name("FrameCount").map(|m| m.semantics), Some(VariableSemantics::FrameCount));
    assert_eq!(variable_from_name("FrameDirection").map(|m| m.semantics), Some(VariableSemantics::FrameDirection));
    assert_eq!(variable_from_name("Frame"), None);
    assert_eq!(VariableSemantics::FrameCount.binding_type(), UniformType::Unsigned);
    assert_eq!(VariableSemantics::FrameDirection.binding_type(), UniformType::Signed);
    assert_eq!(VariableSemantics::MVP.binding_type(), UniformType::MVP);
}

#[test]
fn binding_stage_bits() {
    let mut stage = BindingStage::vertex();
    assert!(!stage.contains(BindingStage::fragment()));
    stage.insert(BindingStage::fragment());
    assert!(stage.contains(BindingStage::vertex()) && stage.contains(BindingStage::fragment()));
    stage.clear();
    assert_eq!(stage, BindingStage::none());
    assert_eq!(BindingStage::vertex().union(BindingStage::fragment()), stage_both());
}

fn stage_both() -> BindingStage {
    let mut s = BindingStage::none();
    s.insert(BindingStage::vertex());
    s.insert(BindingStage::fragment());
    s
}

#[test]
fn blank_aliases() {
    assert!(is_blank(""));
    assert!(is_blank(" \t\n"));
    assert!(!is_blank(" a "));
}

#[test]
fn preset_semantics_name_passes_and_luts() {
    let passes = vec![
        ShaderPassConfig { id: 0, name: "a.slang".to_string(), alias: Some("First".to_string()) },
        ShaderPassConfig { id: 1, name: "b.slang".to_string(), alias: Some("  ".to_string()) },
        ShaderPassConfig { id: 2, name: "c.slang".to_string(), alias: None },
    ];
    let textures = vec![
        TextureConfig { name: "Lut".to_string(), path: "lut.png".to_string() },
        TextureConfig { name: "Mask".to_string(), path: "mask.png".to_string() },
    ];
    let params = vec!["gamma".to_string()];
    let s = preset_semantics(&params, &passes, &textures);

    assert_eq!(s.texture_semantics.get_texture_semantic("First"), texture(TextureSemantics::PassOutput, 0));
    assert_eq!(s.texture_semantics.get_texture_semantic("FirstFeedback"), texture(TextureSemantics::PassFeedback, 0));
    assert_eq!(s.uniform_semantics.get_texture_semantic("FirstSize"), texture(TextureSemantics::PassOutput, 0));
    assert_eq!(s.uniform_semantics.get_texture_semantic("FirstFeedbackSize"), texture(TextureSemantics::PassFeedback, 0));
    assert_eq!(s.texture_semantics.get_texture_semantic("Lut"), texture(TextureSemantics::User, 0));
    assert_eq!(s.texture_semantics.get_texture_semantic("Mask"), texture(TextureSemantics::User, 1));
    assert_eq!(s.uniform_semantics.get_texture_semantic("MaskSize"), texture(TextureSemantics::User, 1));
    // Blank and missing aliases add nothing.
    assert_eq!(s.texture_semantics.len(), 4);
    assert_eq!(
        s.uniform_semantics.get("gamma"),
        Some(&UniformSemantic::Variable(SemanticMap { semantics: VariableSemantics::FloatParameter, index: () }))
    );
    assert_eq!(s.uniform_semantics.get_variable_semantic("gamma").map(|m| m.semantics), Some(VariableSemantics::FloatParameter));
    assert_eq!(s.uniform_semantics.get_variable_semantic("FrameCount").map(|m| m.semantics), Some(VariableSemantics::FrameCount));
    assert_eq!(s.uniform_semantics.get_variable_semantic("FirstSize"), None);
    // Without an entry, names are read as the built-in semantics.
    assert_eq!(s.texture_semantics.get_texture_semantic("PassOutput1"), texture(TextureSemantics::PassOutput, 1));
}
