use reindeer::shader::{shader_key, ShaderError};
use reindeer::{ShaderLib, ShaderProgram, ShaderStage};

fn lib_with(entries: &[(&str, &str)]) -> ShaderLib {
    let mut lib = ShaderLib::new();
    for (k, v) in entries {
        lib.insert(k.to_string(), v.to_string());
    }
    lib
}

#[test]
fn keys_name_the_stage_files() {
    assert_eq!(shader_key("phong_light_object", ShaderStage::Vertex), "phong_light_object.vert.glsl");
    assert_eq!(shader_key("uniform_color", ShaderStage::Fragment), "uniform_color.frag.glsl");
    assert_eq!(shader_key("", ShaderStage::Vertex), ".vert.glsl");
}

#[test]
fn lookup_is_by_exact_key() {
    let lib = lib_with(&[("a.vert.glsl", "void main() {}"), ("a.frag.glsl", "frag")]);
    assert_eq!(lib.get("a.vert.glsl"), Some("void main() {}".to_string()));
    assert_eq!(lib.get("a.frag.glsl"), Some("frag".to_string()));
    assert_eq!(lib.get("a.vert"), None);
    assert_eq!(lib.get("A.vert.glsl"), None);
    assert_eq!(ShaderLib::new().get("a.vert.glsl"), None);
}

#[test]
fn later_entry_replaces_earlier() {
    let lib = lib_with(&[("k", "old"), ("other", "x"), ("k", "new")]);
    assert_eq!(lib.get("k"), Some("new".to_string()));
    assert_eq!(lib.get("other"), Some("x".to_string()));
}

#[test]
fn program_sources_finds_both_stages() {
    let lib = lib_with(&[("p.vert.glsl", "V"), ("p.frag.glsl", "F")]);
    let s = lib.program_sources("p").unwrap();
    assert_eq!(s.vertex, "V");
    assert_eq!(s.fragment, "F");
    assert_eq!(lib.source("p", ShaderStage::Vertex).unwrap(), "V");
}

#[test]
fn missing_source_names_the_key() {
    let lib = lib_with(&[("p.vert.glsl", "V")]);
    match lib.program_sources("p") {
        Err(ShaderError::MissingSource(k)) => assert_eq!(k, "p.frag.glsl"),
        Ok(_) => panic!("fragment source is missing"),
    }
    let lib = lib_with(&[("p.frag.glsl", "F")]);
    match lib.program_sources("p") {
        Err(ShaderError::MissingSource(k)) => assert_eq!(k, "p.vert.glsl"),
        Ok(_) => panic!("vertex source is missing"),
    }
    match ShaderLib::new().program_sources("q") {
        Err(ShaderError::MissingSource(k)) => assert_eq!(k, "q.frag.glsl"),
        Ok(_) => panic!("no sources at all"),
    }
}

#[test]
fn new_program_knows_no_uniforms() {
    let p = ShaderProgram::new(7);
    assert_eq!(p.id, 7);
    assert!(p.uniforms.is_empty());
}
