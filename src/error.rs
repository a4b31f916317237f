use vstd::prelude::*;

verus! {

/// The kinds of failure that the boundary reports.
#[derive(Clone, Copy, Debug, PartialEq, Eq, Structural)]
pub enum ErrorKind {
    /// A routine of that name is already registered.
    DuplicateName,
    /// A declared type is not in the supported set.
    UnsupportedType,
    /// No routine of that name is registered.
    UnknownRoutine,
    /// The number of arguments differs from the declared arity.
    ArityMismatch,
    /// An argument cannot be read as its declared type.
    TypeMismatch,
    /// The native implementation terminated abnormally.
    NativeFailure,
}

/// The name under which the host reports a kind.
pub open spec fn kind_name(k: ErrorKind) -> Seq<char> {
    match k {
        ErrorKind::DuplicateName => "DuplicateNameError"@,
        ErrorKind::UnsupportedType => "UnsupportedTypeError"@,
        ErrorKind::UnknownRoutine => "UnknownRoutineError"@,
        ErrorKind::ArityMismatch => "ArityMismatchError"@,
        ErrorKind::TypeMismatch => "TypeMismatchError"@,
        ErrorKind::NativeFailure => "NativeFailure"@,
    }
}

impl ErrorKind {
    /// The name under which the host reports this kind.
    pub fn name(&self) -> (r: &'static str)
        ensures
            r@ == kind_name(*self),
    {
        match self {
            ErrorKind::DuplicateName => "DuplicateNameError",
            ErrorKind::UnsupportedType => "UnsupportedTypeError",
            ErrorKind::UnknownRoutine => "UnknownRoutineError",
            ErrorKind::ArityMismatch => "ArityMismatchError",
            ErrorKind::TypeMismatch => "TypeMismatchError",
            ErrorKind::NativeFailure => "NativeFailure",
        }
    }
}

/// A structured failure: its kind and a message for whoever issued the call.
#[derive(Clone, Debug, PartialEq, Eq)]
pub struct Failure {
    pub kind: ErrorKind,
    pub message: String,
}

/// Builds a failure whose message is `prefix` followed by `detail`.
pub fn failure(kind: ErrorKind, prefix: &str, detail: &str) -> (r: Failure)
    ensures
        r.kind == kind,
        r.message@ == prefix@ + detail@,
{
    let mut message = String::from_str(prefix);
    message.append(detail);
    Failure { kind, message }
}

/// What the host receives from one invocation: the encoded result (`None` for
/// SQL NULL) or a failure.
#[derive(Clone, Debug, PartialEq, Eq)]
pub enum InvocationResult {
    Success(Option<String>),
    Error(Failure),
}

} // verus!
