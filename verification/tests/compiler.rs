use ledger_workflow::compiler::{
    compile_note_script, compile_tx_script, create_library, validate_library_path, ArtifactKind,
};
use ledger_workflow::errors::CompileError;

const COUNTER_CODE: &str = "export.increment_count\n  push.1 add\nend\n";

#[test]
fn library_paths_are_validated() {
    assert!(validate_library_path("external_contract::counter_contract"));
    assert!(validate_library_path("a::b::c"));
    assert!(!validate_library_path(""));
    assert!(!validate_library_path("no_separator"));
    assert!(!validate_library_path("::leading"));
    assert!(!validate_library_path("trailing::"));
    assert!(!validate_library_path("a:::b"));
    assert!(!validate_library_path("a:b"));
    assert!(!validate_library_path("bad char::x"));
}

#[test]
fn create_library_accepts_counter_path() {
    let lib = create_library(
        COUNTER_CODE.to_string(),
        "external_contract::counter_contract",
    )
    .unwrap();
    assert_eq!(lib.path, "external_contract::counter_contract");
}

#[test]
fn create_library_digest_is_deterministic() {
    let a = create_library(COUNTER_CODE.to_string(), "external_contract::counter_contract")
        .unwrap();
    let b = create_library(COUNTER_CODE.to_string(), "external_contract::counter_contract")
        .unwrap();
    assert_eq!(a.digest, b.digest);
    let c = create_library(COUNTER_CODE.to_string(), "external_contract::other").unwrap();
    assert_ne!(a.digest, c.digest);
}

#[test]
fn create_library_rejects_bad_path() {
    let r = create_library(COUNTER_CODE.to_string(), "not a path");
    assert_eq!(r.unwrap_err(), CompileError::InvalidLibraryPath);
}

#[test]
fn create_library_rejects_empty_source() {
    let r = create_library(String::new(), "external_contract::counter_contract");
    assert_eq!(r.unwrap_err(), CompileError::EmptySource);
}

#[test]
fn scripts_carry_their_execution_context() {
    let lib = create_library(COUNTER_CODE.to_string(), "external_contract::counter_contract")
        .unwrap();
    let libs = vec![lib];
    let note_script = compile_note_script("begin call.increment end", &libs).unwrap();
    assert_eq!(note_script.kind, ArtifactKind::NoteScript);
    let tx_script = compile_tx_script("begin call.increment end", &libs).unwrap();
    assert_eq!(tx_script.kind, ArtifactKind::TransactionScript);
    assert_eq!(note_script.digest, tx_script.digest);
}

#[test]
fn empty_script_source_is_rejected() {
    let libs = vec![];
    assert_eq!(
        compile_note_script("", &libs).unwrap_err(),
        CompileError::EmptySource
    );
    assert_eq!(
        compile_tx_script("", &libs).unwrap_err(),
        CompileError::EmptySource
    );
}

#[test]
fn script_digest_depends_on_linked_libraries() {
    let lib_a = create_library(COUNTER_CODE.to_string(), "external_contract::counter_contract")
        .unwrap();
    let lib_b = create_library(COUNTER_CODE.to_string(), "external_contract::other").unwrap();
    let with_a = compile_note_script("begin call.increment end", &vec![lib_a]).unwrap();
    let with_b = compile_note_script("begin call.increment end", &vec![lib_b]).unwrap();
    assert_ne!(with_a.digest, with_b.digest);
}
