use vstd::prelude::*;

use crate::codec::{decode_spec, decode_value, encode_spec, encode_value, raw_view};
use crate::error::{failure, ErrorKind, Failure, InvocationResult};
use crate::registry::{position_of, Registry, RoutineView};
use crate::types::{fits, TypeTag, Value, ValueModel};

verus! {

/// The views of the raw host buffers of one call.
pub open spec fn raw_args_view(raw: Seq<Option<String>>) -> Seq<Option<Seq<char>>> {
    raw.map_values(|o: Option<String>| raw_view(o))
}

/// The views of decoded argument values.
pub open spec fn values_view(vs: Seq<Value>) -> Seq<ValueModel> {
    vs.map_values(|v: Value| v@)
}

/// Whether every buffer decodes as the type declared at its position.
pub open spec fn all_decode(tags: Seq<TypeTag>, raw: Seq<Option<Seq<char>>>) -> bool {
    forall|j: int| 0 <= j < raw.len() ==> (#[trigger] decode_spec(tags[j], raw[j])).is_some()
}

/// The decoded arguments, where every buffer decodes.
pub open spec fn decoded(tags: Seq<TypeTag>, raw: Seq<Option<Seq<char>>>) -> Seq<ValueModel> {
    Seq::new(raw.len(), |j: int| decode_spec(tags[j], raw[j]).unwrap())
}

/// What a call resolves to before the native implementation runs: the routine's
/// position and the decoded arguments, or the failure that stops the call.
pub open spec fn prepare_spec(rs: Seq<RoutineView>, name: Seq<char>, raw: Seq<Option<Seq<char>>>) -> Result<
    (int, Seq<ValueModel>),
    ErrorKind,
> {
    match position_of(rs, name) {
        None => Err(ErrorKind::UnknownRoutine),
        Some(i) => if raw.len() != rs[i].arg_types.len() {
            Err(ErrorKind::ArityMismatch)
        } else if !all_decode(rs[i].arg_types, raw) {
            Err(ErrorKind::TypeMismatch)
        } else {
            Ok((i, decoded(rs[i].arg_types, raw)))
        },
    }
}

/// The view of what a native implementation hands back: a value, or the message
/// of a fault.
pub open spec fn outcome_view(out: Result<Value, String>) -> Result<ValueModel, Seq<char>> {
    match out {
        Ok(v) => Ok(v@),
        Err(m) => Err(m@),
    }
}

/// What the host receives once the native implementation has run: its value,
/// encoded, when it fits the declared return type; otherwise a native failure.
pub open spec fn complete_spec(return_type: TypeTag, out: Result<ValueModel, Seq<char>>) -> Result<
    Option<Seq<char>>,
    ErrorKind,
> {
    match out {
        Ok(v) => if fits(v, return_type) {
            Ok(encode_spec(v))
        } else {
            Err(ErrorKind::NativeFailure)
        },
        Err(_) => Err(ErrorKind::NativeFailure),
    }
}

/// The outcome of invoking `name` on `raw` when the native implementation hands
/// back `out`.
pub open spec fn invoke_spec(
    rs: Seq<RoutineView>,
    name: Seq<char>,
    raw: Seq<Option<Seq<char>>>,
    out: Result<ValueModel, Seq<char>>,
) -> Result<Option<Seq<char>>, ErrorKind> {
    match prepare_spec(rs, name, raw) {
        Err(k) => Err(k),
        Ok((i, _)) => complete_spec(rs[i].return_type, out),
    }
}

/// The view of an invocation result: the encoded value or the failure's kind.
pub open spec fn result_view(r: InvocationResult) -> Result<Option<Seq<char>>, ErrorKind> {
    match r {
        InvocationResult::Success(v) => Ok(raw_view(v)),
        InvocationResult::Error(f) => Err(f.kind),
    }
}

/// A call that passed lookup and decoding, ready for its native implementation.
#[derive(Clone, Debug)]
pub struct PreparedCall {
    pub handle: usize,
    pub args: Vec<Value>,
    pub return_type: TypeTag,
}

/// Decodes every buffer as its declared type; `None` as soon as one cannot be.
fn decode_all(tags: &Vec<TypeTag>, raw: &Vec<Option<String>>) -> (r: Option<Vec<Value>>)
    requires
        tags@.len() == raw@.len(),
    ensures
        r.is_some() == all_decode(tags@, raw_args_view(raw@)),
        r.is_some() ==> values_view(r.unwrap()@) == decoded(tags@, raw_args_view(raw@)),
{
    let ghost rv = raw_args_view(raw@);
    let mut out: Vec<Value> = Vec::new();
    let mut j: usize = 0;
    while j < raw.len()
        invariant
            j <= raw@.len(),
            tags@.len() == raw@.len(),
            rv == raw_args_view(raw@),
            out@.len() == j,
            forall|k: int| 0 <= k < j ==> (#[trigger] decode_spec(tags@[k], rv[k])) == Some(out@[k]@),
        decreases raw@.len() - j,
    {
        match decode_value(tags[j], &raw[j]) {
            Some(v) => out.push(v),
            None => {
                assert(decode_spec(tags@[j as int], rv[j as int]).is_none());
                return None;
            },
        }
        j = j + 1;
    }
    assert(values_view(out@) =~= decoded(tags@, rv));
    Some(out)
}

/// Checks a value handed back by a native implementation against the declared
/// return type and encodes it; a fault, or a value of another type, becomes a
/// native failure.
pub fn complete(return_type: TypeTag, outcome: Result<Value, String>) -> (r: InvocationResult)
    ensures
        result_view(r) == complete_spec(return_type, outcome_view(outcome)),
        outcome.is_err() ==> r == InvocationResult::Error(
            Failure { kind: ErrorKind::NativeFailure, message: outcome.unwrap_err() },
        ),
{
    match outcome {
        Ok(v) => if v.fits_type(return_type) {
            InvocationResult::Success(encode_value(&v))
        } else {
            InvocationResult::Error(
                failure(ErrorKind::NativeFailure, "result does not match the declared return type", ""),
            )
        },
        Err(message) => InvocationResult::Error(Failure { kind: ErrorKind::NativeFailure, message }),
    }
}

impl Registry {
    /// Looks up `name` and decodes `raw` per the routine's declared argument types.
    pub fn prepare(&self, name: &str, raw: &Vec<Option<String>>) -> (r: Result<PreparedCall, Failure>)
        requires
            self.wf(),
        ensures
            match prepare_spec(self@, name@, raw_args_view(raw@)) {
                Ok((i, args)) => r.is_ok() && r.unwrap().handle == self@[i].handle
                    && r.unwrap().return_type == self@[i].return_type
                    && values_view(r.unwrap().args@) == args,
                Err(k) => r.is_err() && r.unwrap_err().kind == k,
            },
    {
        let i = match self.find(name) {
            Some(i) => i,
            None => {
                return Err(failure(ErrorKind::UnknownRoutine, "no routine named ", name));
            },
        };
        let d = self.routine(i);
        if raw.len() != d.arg_types.len() {
            return Err(failure(ErrorKind::ArityMismatch, "wrong number of arguments for ", name));
        }
        match decode_all(&d.arg_types, raw) {
            Some(args) => Ok(PreparedCall { handle: d.handle, args, return_type: d.return_type }),
            None => Err(
                failure(ErrorKind::TypeMismatch, "an argument does not decode as its declared type in ", name),
            ),
        }
    }

    /// Invokes the routine named `name` on the host buffers `raw`. `run` executes
    /// the native implementation identified by a handle on the decoded arguments,
    /// and hands back its value or the message of a fault it caught. Every failure
    /// comes back as a result; the registry is only read.
    pub fn invoke<F>(&self, name: &str, raw: &Vec<Option<String>>, run: F) -> (r: InvocationResult) where
        F: FnOnce(usize, Vec<Value>) -> Result<Value, String>,
        requires
            self.wf(),
            forall|h: usize, a: Vec<Value>| run.requires((h, a)),
        ensures
            match prepare_spec(self@, name@, raw_args_view(raw@)) {
                Err(k) => result_view(r) == Err::<Option<Seq<char>>, ErrorKind>(k),
                Ok((i, args)) => exists|a: Vec<Value>, out: Result<Value, String>|
                    values_view(a@) == args && #[trigger] run.ensures((self@[i].handle, a), out)
                        && result_view(r) == invoke_spec(
                        self@,
                        name@,
                        raw_args_view(raw@),
                        outcome_view(out),
                    ),
            },
    {
        match self.prepare(name, raw) {
            Err(f) => InvocationResult::Error(f),
            Ok(call) => {
                let ghost a = call.args;
                let out = run(call.handle, call.args);
                let r = complete(call.return_type, out);
                assert(run.ensures((call.handle, a), out));
                r
            },
        }
    }
}

} // verus!
