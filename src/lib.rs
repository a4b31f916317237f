//! A boundary layer between a host database engine and native routines:
//! routines are registered under unique names with declared argument and return
//! types, and invoked by name on host-encoded arguments. Decoding, arity and
//! lookup failures, and faults of the native implementation, all come back to
//! the host as structured results.
use vstd::prelude::*;

pub mod codec;
pub mod error;
pub mod invoke;
pub mod laws;
pub mod registry;
pub mod types;

use crate::error::{ErrorKind, InvocationResult};
use crate::invoke::{invoke_spec, outcome_view, raw_args_view, result_view};
use crate::registry::{position_of, Registry, RoutineView};
use crate::types::{TypeTag, Value, ValueModel, TEXT_OID};

verus! {

/// The handle of the module's built-in greeting routine.
pub const HELLO_HANDLE: usize = 0;

/// The greeting that the module's one built-in routine returns.
pub fn hello_pgxsocket() -> (r: &'static str)
    ensures
        r@ == "Hello, pgxsocket"@,
{
    "Hello, pgxsocket"
}

/// The routines that the module registers when the host loads it.
pub open spec fn module_routines() -> Seq<RoutineView> {
    seq![
        RoutineView {
            name: "hello_pgxsocket"@,
            arg_types: Seq::empty(),
            return_type: TypeTag::Text,
            handle: HELLO_HANDLE,
        },
    ]
}

/// Registers the module's routines: `hello_pgxsocket`, with no arguments and a
/// text result.
pub fn module_registry() -> (r: Registry)
    ensures
        r.wf(),
        r@ == module_routines(),
{
    let mut reg = Registry::new();
    proof {
        reveal_strlit("hello_pgxsocket");
    }
    let registered = reg.register(String::from_str("hello_pgxsocket"), Vec::new(), TEXT_OID, HELLO_HANDLE);
    proof {
        assert(registered.is_ok());
        assert(crate::registry::tags_of(Seq::<u32>::empty()) =~= Seq::<TypeTag>::empty());
        assert(reg@ =~= module_routines());
    }
    reg
}

/// What the module's native implementations hand back for a handle.
pub open spec fn builtin_outcome(handle: usize) -> Result<ValueModel, Seq<char>> {
    if handle == HELLO_HANDLE {
        Ok(ValueModel::Text("Hello, pgxsocket"@))
    } else {
        Err("no native implementation for this handle"@)
    }
}

/// Runs the module's native implementation identified by `handle`.
pub fn run_builtin(handle: usize, args: Vec<Value>) -> (r: Result<Value, String>)
    ensures
        outcome_view(r) == builtin_outcome(handle),
{
    if handle == HELLO_HANDLE {
        Ok(Value::Text(String::from_str(hello_pgxsocket())))
    } else {
        Err(String::from_str("no native implementation for this handle"))
    }
}

/// Invokes one of the module's own routines by name on host buffers.
pub fn invoke_builtin(registry: &Registry, name: &str, raw: &Vec<Option<String>>) -> (r: InvocationResult)
    requires
        registry.wf(),
    ensures
        result_view(r) == match position_of(registry@, name@) {
            Some(i) => invoke_spec(
                registry@,
                name@,
                raw_args_view(raw@),
                builtin_outcome(registry@[i].handle),
            ),
            None => Err(ErrorKind::UnknownRoutine),
        },
{
    let run = |h: usize, a: Vec<Value>| -> (o: Result<Value, String>)
        ensures
            outcome_view(o) == builtin_outcome(h),
        { run_builtin(h, a) };
    registry.invoke(name, raw, run)
}

} // verus!
