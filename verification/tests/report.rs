use ledger_workflow::errors::{
    CompileError, ComponentLayoutError, ErrorReport, FlattenResult, NotFoundError, ResyncError,
    SubmissionError, WorkflowError,
};

fn chained_error() -> ResyncError {
    ResyncError {
        message: "parent error".to_string(),
        causes: vec!["source error".to_string()],
    }
}

#[test]
fn as_report() {
    let error = chained_error();
    assert_eq!("parent error\ncaused by: source error", error.as_report());
}

#[test]
fn as_report_context() {
    let error = chained_error();
    assert_eq!(
        "final error: \ncaused by: parent error\ncaused by: source error",
        error.as_report_context("final error")
    );
}

#[test]
fn as_report_single_message() {
    let error = ResyncError {
        message: "remote unreachable".to_string(),
        causes: vec![],
    };
    assert_eq!("remote unreachable", error.as_report());
}

#[test]
fn as_report_on_workflow_error() {
    let error = WorkflowError::Resync(chained_error());
    assert_eq!(
        "resynchronization failed\ncaused by: parent error\ncaused by: source error",
        error.as_report()
    );
}

#[test]
fn workflow_error_messages() {
    let layout = WorkflowError::ComponentLayout(ComponentLayoutError::TooManySlots { total: 300 });
    assert_eq!("storage layout exceeds the slot limit", layout.as_report());
    let compile = WorkflowError::Compile(CompileError::EmptySource);
    assert_eq!("empty program source", compile.as_report());
    let submission = WorkflowError::Submission(SubmissionError::AccountNotFound);
    assert_eq!("account not found in session", submission.as_report());
    let missing = WorkflowError::NotFound(NotFoundError::Note);
    assert_eq!("note not found", missing.as_report());
}

#[test]
fn flatten_result_ok() {
    let nested: Result<Result<u32, SubmissionError>, WorkflowError> = Ok(Ok(5));
    assert_eq!(Ok(5), nested.flatten_result());
}

#[test]
fn flatten_result_inner_error() {
    let nested: Result<Result<u32, SubmissionError>, WorkflowError> =
        Ok(Err(SubmissionError::RemoteRejected));
    assert_eq!(
        Err(WorkflowError::Submission(SubmissionError::RemoteRejected)),
        nested.flatten_result()
    );
}

#[test]
fn flatten_result_outer_error() {
    let nested: Result<Result<u32, SubmissionError>, WorkflowError> =
        Err(WorkflowError::NotFound(NotFoundError::Account));
    assert_eq!(
        Err(WorkflowError::NotFound(NotFoundError::Account)),
        nested.flatten_result()
    );
}
