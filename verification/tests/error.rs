use slide_linker::error::CompileError;

#[test]
fn read_error_names_path_and_cause() {
    let e = CompileError::ImageRead {
        path: "slides/slide-001.png".to_string(),
        cause: "No such file or directory".to_string(),
    };
    assert_eq!(e.message(), "Failed to read image slides/slide-001.png: No such file or directory");
}

#[test]
fn decode_error_names_path_and_cause() {
    let e = CompileError::ImageDecode { path: "slides/a.png".to_string(), cause: "bad header".to_string() };
    assert_eq!(e.message(), "Failed to decode image slides/a.png: bad header");
}

#[test]
fn assembly_error_names_the_stage() {
    let e = CompileError::DocumentAssembly { cause: "out of memory".to_string() };
    assert_eq!(e.message(), "Failed to assemble document: out of memory");
}

#[test]
fn write_error_names_the_stage() {
    let e = CompileError::OutputWrite { cause: "disk full".to_string() };
    assert_eq!(e.message(), "Failed to write output: disk full");
}
