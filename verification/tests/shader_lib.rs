use geng::shader_lib::{Expansion, IncludeError, PreprocessError, ShaderLib, ShaderType};

fn lib_with(files: &[(&str, &str)]) -> ShaderLib {
    let mut lib = ShaderLib::new(false, None, "// prelude");
    for (name, source) in files {
        lib.add(name, source);
    }
    lib
}

fn text(e: Expansion) -> String {
    match e {
        Expansion::Text(t) => t,
        Expansion::NotFound(n) => panic!("not found: {n}"),
        Expansion::Malformed(e) => panic!("malformed: {e:?}"),
        Expansion::TooDeep => panic!("too deep"),
    }
}

#[test]
fn plain_lines_get_newlines() {
    let lib = lib_with(&[]);
    assert_eq!(lib.preprocess("a\nb").unwrap(), "a\nb\n");
    assert_eq!(lib.preprocess("a\nb\n").unwrap(), "a\nb\n");
    assert_eq!(lib.preprocess("a\r\nb\r\n").unwrap(), "a\nb\n");
    assert_eq!(lib.preprocess("").unwrap(), "");
    assert_eq!(lib.preprocess("\n\n").unwrap(), "\n\n");
}

#[test]
fn include_splices_file() {
    let lib = lib_with(&[("common", "float x;\n#include <inner>"), ("inner", "float y;")]);
    assert_eq!(
        lib.preprocess("void main() {}\n#include <common>\nend").unwrap(),
        "void main() {}\nfloat x;\nfloat y;\nend\n"
    );
}

#[test]
fn include_with_spaces_and_brackets() {
    let lib = lib_with(&[("a", "A")]);
    assert_eq!(lib.preprocess("  #include <a>").unwrap(), "  #include <a>\n");
    assert_eq!(lib.preprocess("#include    <<a>>   ").unwrap(), "A\n");
    assert_eq!(lib.preprocess("#include\t<a>").unwrap(), "A\n");
}

#[test]
fn missing_include_is_an_error() {
    let lib = lib_with(&[("a", "A")]);
    match lib.preprocess("x\n#include <b>\n#include <a>") {
        Err(PreprocessError::NotFound(name)) => assert_eq!(name, "b"),
        other => panic!("unexpected {other:?}"),
    }
}

#[test]
fn malformed_includes() {
    let lib = lib_with(&[("a", "A")]);
    assert!(matches!(
        lib.expand_includes("#include", 10),
        Expansion::Malformed(IncludeError::MissingPath)
    ));
    assert!(matches!(
        lib.expand_includes("#include <a> <a>", 10),
        Expansion::Malformed(IncludeError::UnexpectedToken)
    ));
    assert!(matches!(
        lib.expand_includes("#include \"a\"", 10),
        Expansion::Malformed(IncludeError::NotBracketed)
    ));
    assert!(matches!(
        lib.expand_includes("#include<a>", 10),
        Expansion::Malformed(IncludeError::MissingPath)
    ));
}

#[test]
fn cyclic_includes_run_out_of_depth() {
    let lib = lib_with(&[("a", "#include <b>"), ("b", "#include <a>")]);
    assert!(matches!(lib.expand_includes("#include <a>", 50), Expansion::TooDeep));
    let lib = lib_with(&[("a", "#include <b>"), ("b", "B")]);
    assert!(matches!(lib.expand_includes("#include <a>", 1), Expansion::TooDeep));
    assert_eq!(text(lib.expand_includes("#include <a>", 2)), "B\n");
}

#[test]
fn add_replaces_a_file() {
    let mut lib = lib_with(&[("a", "old")]);
    lib.add("a", "new");
    assert_eq!(lib.preprocess("#include <a>").unwrap(), "new\n");
}

#[test]
fn process_puts_prefix_define_and_prelude_first() {
    let lib = ShaderLib::new(true, Some("#version 100".to_string()), "P");
    assert_eq!(
        lib.process(ShaderType::Vertex, "body").unwrap(),
        "#version 100\n#define VERTEX_SHADER\n#define GENG_ANTIALIAS\nP\nbody\n"
    );
    let lib = ShaderLib::new(false, None, "P");
    assert_eq!(
        lib.process(ShaderType::Fragment, "#include <prelude>").unwrap(),
        "#define FRAGMENT_SHADER\nP\nP\n"
    );
}

#[test]
fn readding_a_file_leaves_the_others() {
    let mut lib = lib_with(&[("other", "c1\n#include <name>")]);
    lib.add("name", "s1");
    lib.add("name", "s2a\ns2b");
    assert_eq!(lib.preprocess("#include <name>").unwrap(), lib.preprocess("s2a\ns2b").unwrap());
    assert_eq!(lib.preprocess("#include <name>").unwrap(), "s2a\ns2b\n");
    assert_eq!(
        lib.preprocess("#include <other>").unwrap(),
        lib.preprocess("c1\n#include <name>").unwrap()
    );
    assert_eq!(lib.preprocess("#include <other>").unwrap(), "c1\ns2a\ns2b\n");
}
