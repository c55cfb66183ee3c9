//! The error taxonomy of the workflow core, and error reporting.
//!
//! Every failure the core can surface is one of a closed set of kinds:
//! an invalid storage layout, a bad program source or library path, a
//! local or remote submission failure, a resynchronization failure, or a
//! missing account or note.  Resynchronization failures abort a running
//! wait immediately; none of the kinds is retried inside the core.

use vstd::prelude::*;
use vstd::string::StringExecFns;

verus! {

/// An invalid storage layout for the requested account kind.
#[derive(Clone, Debug, PartialEq, Eq)]
pub enum ComponentLayoutError {
    /// The component at this position does not support the account kind.
    UnsupportedComponent { index: usize },
    /// The components together declare more storage slots than an account
    /// may hold.
    TooManySlots { total: usize },
    /// A declared storage word holds an unreduced field element.
    InvalidSlotValue { index: usize },
}

/// A failure of the module compiler model.
#[derive(Clone, Debug, PartialEq, Eq)]
pub enum CompileError {
    /// The program source is empty.
    EmptySource,
    /// The library path is not a well-formed `namespace::name` path.
    InvalidLibraryPath,
    /// The supplied artifact is not valid for the note execution context.
    WrongExecutionContext,
}

/// A failure while assembling or forwarding a transaction.
#[derive(Clone, Debug, PartialEq, Eq)]
pub enum SubmissionError {
    /// The transaction names an account the session does not know.
    AccountNotFound,
    /// A custom-script intent carries an artifact that is not a
    /// transaction script.
    WrongArtifactKind,
    /// A note-producing or note-consuming intent carries no notes.
    EmptyNoteSet,
    /// The remote authority rejected the forwarded transaction.
    RemoteRejected,
}

/// A missing entity reported by the remote authority.
#[derive(Clone, Debug, PartialEq, Eq)]
pub enum NotFoundError {
    /// A queried account id is unknown to the remote authority.
    Account,
    /// A queried note id is unknown to the remote authority.
    Note,
}

/// A failure while resynchronizing local state from the remote authority.
/// It carries its own message and the messages of its underlying causes,
/// outermost first.
#[derive(Debug, PartialEq, Eq)]
pub struct ResyncError {
    /// The error's own message.
    pub message: String,
    /// The messages of the causes, outermost first.
    pub causes: Vec<String>,
}

impl ResyncError {
    /// The mathematical content of the error: its message and the
    /// messages of its causes.
    pub open spec fn model(&self) -> (Seq<char>, Seq<Seq<char>>) {
        (self.message@, self.causes.deep_view())
    }
}

impl Clone for ResyncError {
    /// A copy of the error: same message, same causes.
    fn clone(&self) -> (r: Self)
        ensures
            r.model() == self.model(),
    {
        let mut causes: Vec<String> = Vec::new();
        let mut i: usize = 0;
        while i < self.causes.len()
            invariant
                i <= self.causes.len(),
                causes.deep_view() =~= self.causes.deep_view().take(i as int),
            decreases self.causes.len() - i,
        {
            causes.push(self.causes[i].clone());
            proof {
                let dv = self.causes.deep_view();
                assert(causes.deep_view() =~= dv.take(i as int).push(dv[i as int]));
                assert(dv.take(i as int).push(dv[i as int]) =~= dv.take(i + 1));
            }
            i = i + 1;
        }
        proof {
            assert(self.causes.deep_view().take(self.causes@.len() as int) =~= self
                .causes
                .deep_view());
        }
        let r = ResyncError { message: self.message.clone(), causes };
        proof {
            assert(r.model() == self.model());
        }
        r
    }
}

/// Any failure the workflow core surfaces to its caller.
#[derive(Clone, Debug, PartialEq, Eq)]
pub enum WorkflowError {
    /// An invalid storage layout for an account kind.
    ComponentLayout(ComponentLayoutError),
    /// A bad program source or library path.
    Compile(CompileError),
    /// A local execution or remote rejection during submission.
    Submission(SubmissionError),
    /// A remote failure during resynchronization.
    Resync(ResyncError),
    /// A queried account or note is absent.
    NotFound(NotFoundError),
}

impl ComponentLayoutError {
    /// The message of this error.
    pub open spec fn spec_message(&self) -> Seq<char> {
        match self {
            ComponentLayoutError::UnsupportedComponent { .. } => {
                "component does not support the account kind"@
            },
            ComponentLayoutError::TooManySlots { .. } => "storage layout exceeds the slot limit"@,
            ComponentLayoutError::InvalidSlotValue { .. } => {
                "storage word holds an unreduced element"@
            },
        }
    }

    /// Renders the message of this error.
    pub fn message(&self) -> (r: String)
        ensures
            r@ == self.spec_message(),
    {
        match self {
            ComponentLayoutError::UnsupportedComponent { .. } => {
                String::from_str("component does not support the account kind")
            },
            ComponentLayoutError::TooManySlots { .. } => {
                String::from_str("storage layout exceeds the slot limit")
            },
            ComponentLayoutError::InvalidSlotValue { .. } => {
                String::from_str("storage word holds an unreduced element")
            },
        }
    }
}

impl CompileError {
    /// The message of this error.
    pub open spec fn spec_message(&self) -> Seq<char> {
        match self {
            CompileError::EmptySource => "empty program source"@,
            CompileError::InvalidLibraryPath => "invalid library path"@,
            CompileError::WrongExecutionContext => "artifact is not a note script"@,
        }
    }

    /// Renders the message of this error.
    pub fn message(&self) -> (r: String)
        ensures
            r@ == self.spec_message(),
    {
        match self {
            CompileError::EmptySource => String::from_str("empty program source"),
            CompileError::InvalidLibraryPath => String::from_str("invalid library path"),
            CompileError::WrongExecutionContext => {
                String::from_str("artifact is not a note script")
            },
        }
    }
}

impl SubmissionError {
    /// The message of this error.
    pub open spec fn spec_message(&self) -> Seq<char> {
        match self {
            SubmissionError::AccountNotFound => "account not found in session"@,
            SubmissionError::WrongArtifactKind => "artifact is not a transaction script"@,
            SubmissionError::EmptyNoteSet => "intent carries no notes"@,
            SubmissionError::RemoteRejected => "remote authority rejected the transaction"@,
        }
    }

    /// Renders the message of this error.
    pub fn message(&self) -> (r: String)
        ensures
            r@ == self.spec_message(),
    {
        match self {
            SubmissionError::AccountNotFound => String::from_str("account not found in session"),
            SubmissionError::WrongArtifactKind => {
                String::from_str("artifact is not a transaction script")
            },
            SubmissionError::EmptyNoteSet => String::from_str("intent carries no notes"),
            SubmissionError::RemoteRejected => {
                String::from_str("remote authority rejected the transaction")
            },
        }
    }
}

impl NotFoundError {
    /// The message of this error.
    pub open spec fn spec_message(&self) -> Seq<char> {
        match self {
            NotFoundError::Account => "account not found"@,
            NotFoundError::Note => "note not found"@,
        }
    }

    /// Renders the message of this error.
    pub fn message(&self) -> (r: String)
        ensures
            r@ == self.spec_message(),
    {
        match self {
            NotFoundError::Account => String::from_str("account not found"),
            NotFoundError::Note => String::from_str("note not found"),
        }
    }
}

impl From<ComponentLayoutError> for WorkflowError {
    /// Wraps a layout failure as a workflow failure.
    fn from(e: ComponentLayoutError) -> (r: Self) {
        WorkflowError::ComponentLayout(e)
    }
}

impl vstd::std_specs::convert::FromSpecImpl<ComponentLayoutError> for WorkflowError {
    open spec fn obeys_from_spec() -> bool {
        true
    }

    open spec fn from_spec(v: ComponentLayoutError) -> Self {
        WorkflowError::ComponentLayout(v)
    }
}

impl From<CompileError> for WorkflowError {
    /// Wraps a compile failure as a workflow failure.
    fn from(e: CompileError) -> (r: Self) {
        WorkflowError::Compile(e)
    }
}

impl vstd::std_specs::convert::FromSpecImpl<CompileError> for WorkflowError {
    open spec fn obeys_from_spec() -> bool {
        true
    }

    open spec fn from_spec(v: CompileError) -> Self {
        WorkflowError::Compile(v)
    }
}

impl From<SubmissionError> for WorkflowError {
    /// Wraps a submission failure as a workflow failure.
    fn from(e: SubmissionError) -> (r: Self) {
        WorkflowError::Submission(e)
    }
}

impl vstd::std_specs::convert::FromSpecImpl<SubmissionError> for WorkflowError {
    open spec fn obeys_from_spec() -> bool {
        true
    }

    open spec fn from_spec(v: SubmissionError) -> Self {
        WorkflowError::Submission(v)
    }
}

impl From<ResyncError> for WorkflowError {
    /// Wraps a resynchronization failure as a workflow failure.
    fn from(e: ResyncError) -> (r: Self) {
        WorkflowError::Resync(e)
    }
}

impl vstd::std_specs::convert::FromSpecImpl<ResyncError> for WorkflowError {
    open spec fn obeys_from_spec() -> bool {
        true
    }

    open spec fn from_spec(v: ResyncError) -> Self {
        WorkflowError::Resync(v)
    }
}

/// The rendering of a message chain: the first message, then each further
/// message on its own line introduced by `caused by:`.
pub open spec fn render_report(msgs: Seq<Seq<char>>) -> Seq<char>
    decreases msgs.len(),
{
    if msgs.len() == 0 {
        Seq::empty()
    } else if msgs.len() == 1 {
        msgs[0]
    } else {
        render_report(msgs.drop_last()) + "\ncaused by: "@ + msgs.last()
    }
}

/// Renders a chain of messages into one report string.
pub fn render_report_string(msgs: &Vec<String>) -> (r: String)
    ensures
        r@ == render_report(msgs.deep_view()),
{
    let mut r = String::new();
    let mut i: usize = 0;
    while i < msgs.len()
        invariant
            i <= msgs.len(),
            r@ == render_report(msgs.deep_view().take(i as int)),
        decreases msgs.len() - i,
    {
        if i > 0 {
            r.append("\ncaused by: ");
        }
        r.append(msgs[i].as_str());
        proof {
            let dv = msgs.deep_view();
            assert(dv.take(i + 1).drop_last() =~= dv.take(i as int));
            assert(dv.take(i + 1).last() == msgs@[i as int]@);
        }
        i = i + 1;
    }
    proof {
        assert(msgs.deep_view().take(msgs@.len() as int) =~= msgs.deep_view());
    }
    r
}

/// An error that can render itself, together with its chain of causes,
/// as one report string.
pub trait ErrorReport {
    /// The message chain of this error: its own message first, then the
    /// messages of its causes, outermost first.
    spec fn spec_messages(&self) -> Seq<Seq<char>>;

    /// The message chain of this error, as strings.
    fn messages(&self) -> (v: Vec<String>)
        ensures
            v.deep_view() == self.spec_messages(),
            v@.len() >= 1,
    ;

    /// Returns a string representation of the error and its source chain.
    fn as_report(&self) -> (r: String)
        ensures
            r@ == render_report(self.spec_messages()),
    {
        let v = self.messages();
        render_report_string(&v)
    }

    /// Creates a new root in the error chain and returns a string
    /// representation of the error and its source chain.
    fn as_report_context(&self, context: &str) -> (r: String)
        ensures
            r@ == context@ + ": \ncaused by: "@ + render_report(self.spec_messages()),
    {
        let mut r = String::from_str(context);
        r.append(": \ncaused by: ");
        let body = self.as_report();
        r.append(body.as_str());
        r
    }
}

impl ErrorReport for ResyncError {
    open spec fn spec_messages(&self) -> Seq<Seq<char>> {
        seq![self.message@] + self.causes.deep_view()
    }

    fn messages(&self) -> (v: Vec<String>) {
        let mut v: Vec<String> = Vec::new();
        v.push(self.message.clone());
        let mut i: usize = 0;
        while i < self.causes.len()
            invariant
                i <= self.causes.len(),
                v.deep_view() =~= seq![self.message@] + self.causes.deep_view().take(i as int),
            decreases self.causes.len() - i,
        {
            v.push(self.causes[i].clone());
            proof {
                let dv = self.causes.deep_view();
                assert(v.deep_view() =~= (seq![self.message@] + dv.take(i as int)).push(
                    dv[i as int],
                ));
                assert((seq![self.message@] + dv.take(i as int)).push(dv[i as int]) =~= seq![
                    self.message@,
                ] + dv.take(i + 1));
            }
            i = i + 1;
        }
        proof {
            assert(self.causes.deep_view().take(self.causes@.len() as int) =~= self
                .causes
                .deep_view());
        }
        v
    }
}

impl ErrorReport for WorkflowError {
    open spec fn spec_messages(&self) -> Seq<Seq<char>> {
        match self {
            WorkflowError::ComponentLayout(e) => seq![e.spec_message()],
            WorkflowError::Compile(e) => seq![e.spec_message()],
            WorkflowError::Submission(e) => seq![e.spec_message()],
            WorkflowError::Resync(e) => seq!["resynchronization failed"@] + e.spec_messages(),
            WorkflowError::NotFound(e) => seq![e.spec_message()],
        }
    }

    fn messages(&self) -> (v: Vec<String>) {
        match self {
            WorkflowError::ComponentLayout(e) => {
                let mut v: Vec<String> = Vec::new();
                v.push(e.message());
                assert(v.deep_view() =~= self.spec_messages());
                v
            },
            WorkflowError::Compile(e) => {
                let mut v: Vec<String> = Vec::new();
                v.push(e.message());
                assert(v.deep_view() =~= self.spec_messages());
                v
            },
            WorkflowError::Submission(e) => {
                let mut v: Vec<String> = Vec::new();
                v.push(e.message());
                assert(v.deep_view() =~= self.spec_messages());
                v
            },
            WorkflowError::Resync(e) => {
                let mut v: Vec<String> = Vec::new();
                v.push(String::from_str("resynchronization failed"));
                let inner = e.messages();
                let mut i: usize = 0;
                while i < inner.len()
                    invariant
                        i <= inner.len(),
                        inner.deep_view() == e.spec_messages(),
                        v.deep_view() =~= seq!["resynchronization failed"@] + inner
                            .deep_view()
                            .take(i as int),
                    decreases inner.len() - i,
                {
                    v.push(inner[i].clone());
                    proof {
                        let dv = inner.deep_view();
                        assert(v.deep_view() =~= (seq!["resynchronization failed"@] + dv.take(
                            i as int,
                        )).push(dv[i as int]));
                        assert((seq!["resynchronization failed"@] + dv.take(i as int)).push(
                            dv[i as int],
                        ) =~= seq!["resynchronization failed"@] + dv.take(i + 1));
                    }
                    i = i + 1;
                }
                proof {
                    assert(inner.deep_view().take(inner@.len() as int) =~= inner.deep_view());
                    assert(v.deep_view() =~= self.spec_messages());
                }
                v
            },
            WorkflowError::NotFound(e) => {
                let mut v: Vec<String> = Vec::new();
                v.push(e.message());
                assert(v.deep_view() =~= self.spec_messages());
                v
            },
        }
    }
}

/// A nested result flattened to a single result, converting the inner
/// error into the outer error kind.
pub trait FlattenResult<V, OuterError, InnerError> {
    /// The flattening of this nested result.
    spec fn spec_flatten(self) -> Result<V, OuterError>;

    /// Whether the conversion of the inner error has a specification the
    /// flattening can be pinned to.
    spec fn flatten_obeys() -> bool;

    /// Flattens the nested result.
    fn flatten_result(self) -> (r: Result<V, OuterError>)
        ensures
            Self::flatten_obeys() ==> r == self.spec_flatten(),
    ;
}

impl<V, OuterError, InnerError> FlattenResult<V, OuterError, InnerError> for Result<
    Result<V, InnerError>,
    OuterError,
> where OuterError: From<InnerError> {
    open spec fn spec_flatten(self) -> Result<V, OuterError> {
        match self {
            Ok(Ok(value)) => Ok(value),
            Ok(Err(inner)) => Err(
                <OuterError as vstd::std_specs::convert::FromSpec<InnerError>>::from_spec(inner),
            ),
            Err(outer) => Err(outer),
        }
    }

    open spec fn flatten_obeys() -> bool {
        <OuterError as vstd::std_specs::convert::FromSpec<InnerError>>::obeys_from_spec()
    }

    fn flatten_result(self) -> (r: Result<V, OuterError>) {
        match self {
            Ok(Ok(value)) => Ok(value),
            Ok(Err(inner)) => Err(OuterError::from(inner)),
            Err(outer) => Err(outer),
        }
    }
}

} // verus!
