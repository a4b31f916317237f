use vstd::prelude::*;

use crate::codec::encode_spec;
use crate::error::ErrorKind;
use crate::invoke::{all_decode, invoke_spec, prepare_spec};
use crate::registry::{
    all_supported, has_name, load_spec, names_unique, position_of, register_spec, tags_of,
    DeclarationView, RoutineView,
};
use crate::types::{fits, tag_of_oid, ValueModel};

verus! {

/// With unique names, the routine at position `i` is the one found under its name.
pub proof fn lemma_position_of_registered(rs: Seq<RoutineView>, i: int)
    requires
        names_unique(rs),
        0 <= i < rs.len(),
    ensures
        position_of(rs, rs[i].name) == Some(i),
{
    assert(has_name(rs, rs[i].name));
    let p = choose|k: int| 0 <= k < rs.len() && #[trigger] rs[k].name == rs[i].name;
    assert(rs[p].name == rs[i].name);
}

/// Every registered routine, called with arguments that decode as its declared
/// argument types, succeeds whenever its native implementation returns a value of
/// the declared return type: the host receives that value, encoded.
pub proof fn lemma_registered_routine_succeeds(
    rs: Seq<RoutineView>,
    i: int,
    raw: Seq<Option<Seq<char>>>,
    v: ValueModel,
)
    requires
        names_unique(rs),
        0 <= i < rs.len(),
        raw.len() == rs[i].arg_types.len(),
        all_decode(rs[i].arg_types, raw),
        fits(v, rs[i].return_type),
    ensures
        invoke_spec(rs, rs[i].name, raw, Ok(v)) == Ok::<Option<Seq<char>>, ErrorKind>(encode_spec(v)),
{
    lemma_position_of_registered(rs, i);
}

/// Registering a second routine under a name already taken fails with
/// `DuplicateName`, and the routine found under that name is still the first.
pub proof fn lemma_duplicate_name_refused(
    rs: Seq<RoutineView>,
    name: Seq<char>,
    arg_oids: Seq<u32>,
    return_oid: u32,
    handle: usize,
    other_oids: Seq<u32>,
    other_return_oid: u32,
    other_handle: usize,
)
    requires
        names_unique(rs),
        register_spec(rs, name, arg_oids, return_oid, handle).is_ok(),
    ensures
        ({
            let first = register_spec(rs, name, arg_oids, return_oid, handle).unwrap();
            &&& register_spec(first, name, other_oids, other_return_oid, other_handle) == Err::<
                Seq<RoutineView>,
                ErrorKind,
            >(ErrorKind::DuplicateName)
            &&& position_of(first, name) == Some(rs.len() as int)
            &&& first[rs.len() as int].arg_types == tags_of(arg_oids)
            &&& first[rs.len() as int].return_type == tag_of_oid(return_oid).unwrap()
            &&& first[rs.len() as int].handle == handle
        }),
{
    let first = register_spec(rs, name, arg_oids, return_oid, handle).unwrap();
    assert(first[rs.len() as int].name == name);
    assert(has_name(first, name));
    assert(names_unique(first)) by {
        assert forall|a: int, b: int|
            0 <= a < first.len() && 0 <= b < first.len() && #[trigger] first[a].name
                == #[trigger] first[b].name implies a == b by {
            if a < rs.len() && b == rs.len() {
                assert(rs[a].name == name);
            }
            if b < rs.len() && a == rs.len() {
                assert(rs[b].name == name);
            }
        }
    }
    lemma_position_of_registered(first, rs.len() as int);
}

/// Invoking a name that is not registered fails with `UnknownRoutine`, whatever
/// the arguments.
pub proof fn lemma_unknown_routine(
    rs: Seq<RoutineView>,
    name: Seq<char>,
    raw: Seq<Option<Seq<char>>>,
    out: Result<ValueModel, Seq<char>>,
)
    requires
        !has_name(rs, name),
    ensures
        invoke_spec(rs, name, raw, out) == Err::<Option<Seq<char>>, ErrorKind>(
            ErrorKind::UnknownRoutine,
        ),
{
}

/// Invoking a registered routine with a number of arguments other than its
/// declared arity fails with `ArityMismatch`, whatever the native implementation
/// would do.
pub proof fn lemma_arity_mismatch(
    rs: Seq<RoutineView>,
    i: int,
    raw: Seq<Option<Seq<char>>>,
    out: Result<ValueModel, Seq<char>>,
)
    requires
        names_unique(rs),
        0 <= i < rs.len(),
        raw.len() != rs[i].arg_types.len(),
    ensures
        invoke_spec(rs, rs[i].name, raw, out) == Err::<Option<Seq<char>>, ErrorKind>(
            ErrorKind::ArityMismatch,
        ),
{
    lemma_position_of_registered(rs, i);
}

/// A fault inside a native implementation comes back as a `NativeFailure`
/// result. Invocation only reads the registry, so afterwards every registered
/// routine still succeeds on arguments that decode as its declared types when its
/// native implementation returns a value of the declared return type.
pub proof fn lemma_fault_contained(
    rs: Seq<RoutineView>,
    name: Seq<char>,
    raw: Seq<Option<Seq<char>>>,
    fault: Seq<char>,
    j: int,
    later_raw: Seq<Option<Seq<char>>>,
    later_value: ValueModel,
)
    requires
        names_unique(rs),
        prepare_spec(rs, name, raw).is_ok(),
        0 <= j < rs.len(),
        later_raw.len() == rs[j].arg_types.len(),
        all_decode(rs[j].arg_types, later_raw),
        fits(later_value, rs[j].return_type),
    ensures
        invoke_spec(rs, name, raw, Err(fault)) == Err::<Option<Seq<char>>, ErrorKind>(
            ErrorKind::NativeFailure,
        ),
        invoke_spec(rs, rs[j].name, later_raw, Ok(later_value)) == Ok::<
            Option<Seq<char>>,
            ErrorKind,
        >(encode_spec(later_value)),
{
    lemma_registered_routine_succeeds(rs, j, later_raw, later_value);
}

/// No two declarations share a name.
pub open spec fn names_distinct(ds: Seq<DeclarationView>) -> bool {
    forall|a: int, b: int|
        0 <= a < ds.len() && 0 <= b < ds.len() && #[trigger] ds[a].name == #[trigger] ds[b].name
            ==> a == b
}

/// Every declaration names only supported types.
pub open spec fn all_declarations_supported(ds: Seq<DeclarationView>) -> bool {
    forall|k: int| 0 <= k < ds.len() ==> all_supported(#[trigger] ds[k].arg_oids, ds[k].return_oid)
}

/// The routine that a valid declaration registers.
pub open spec fn declared_routine(d: DeclarationView) -> RoutineView {
    RoutineView {
        name: d.name,
        arg_types: tags_of(d.arg_oids),
        return_type: tag_of_oid(d.return_oid).unwrap(),
        handle: d.handle,
    }
}

/// Declarations with distinct names and supported types all load, each as the
/// routine it declares, in order.
pub proof fn lemma_valid_declarations_load(ds: Seq<DeclarationView>)
    requires
        names_distinct(ds),
        all_declarations_supported(ds),
    ensures
        load_spec(ds) == Ok::<Seq<RoutineView>, ErrorKind>(
            ds.map_values(|d: DeclarationView| declared_routine(d)),
        ),
    decreases ds.len(),
{
    if ds.len() > 0 {
        let p = ds.drop_last();
        assert forall|a: int, b: int|
            0 <= a < p.len() && 0 <= b < p.len() && #[trigger] p[a].name == #[trigger] p[b].name
                implies a == b by {
            assert(ds[a].name == ds[b].name);
        }
        assert forall|k: int| 0 <= k < p.len() implies all_supported(
            #[trigger] p[k].arg_oids,
            p[k].return_oid,
        ) by {
            assert(all_supported(ds[k].arg_oids, ds[k].return_oid));
        }
        lemma_valid_declarations_load(p);
        let rs = p.map_values(|d: DeclarationView| declared_routine(d));
        let last = ds.last();
        assert(!has_name(rs, last.name)) by {
            if has_name(rs, last.name) {
                let i = choose|i: int| 0 <= i < rs.len() && #[trigger] rs[i].name == last.name;
                assert(ds[i].name == ds[ds.len() - 1].name);
            }
        }
        assert(all_supported(ds[ds.len() - 1].arg_oids, ds[ds.len() - 1].return_oid));
        assert(rs.push(declared_routine(last)) =~= ds.map_values(
            |d: DeclarationView| declared_routine(d),
        ));
        assert(load_spec(ds) == register_spec(rs, last.name, last.arg_oids, last.return_oid, last.handle));
    } else {
        assert(ds.map_values(|d: DeclarationView| declared_routine(d)) =~= Seq::<RoutineView>::empty());
    }
}

/// Once declarations with distinct names and supported types are loaded, invoking
/// any of them with arguments that decode as its declared argument types succeeds
/// whenever its native implementation returns a value of the declared return
/// type: the host receives that value, encoded.
pub proof fn lemma_valid_registrations_succeed(
    ds: Seq<DeclarationView>,
    k: int,
    raw: Seq<Option<Seq<char>>>,
    v: ValueModel,
)
    requires
        names_distinct(ds),
        all_declarations_supported(ds),
        0 <= k < ds.len(),
        raw.len() == ds[k].arg_oids.len(),
        all_decode(tags_of(ds[k].arg_oids), raw),
        fits(v, tag_of_oid(ds[k].return_oid).unwrap()),
    ensures
        load_spec(ds).is_ok(),
        invoke_spec(load_spec(ds).unwrap(), ds[k].name, raw, Ok(v)) == Ok::<
            Option<Seq<char>>,
            ErrorKind,
        >(encode_spec(v)),
{
    lemma_valid_declarations_load(ds);
    let rs = ds.map_values(|d: DeclarationView| declared_routine(d));
    assert forall|a: int, b: int|
        0 <= a < rs.len() && 0 <= b < rs.len() && #[trigger] rs[a].name == #[trigger] rs[b].name
            implies a == b by {
        assert(ds[a].name == ds[b].name);
    }
    assert(rs[k] == declared_routine(ds[k]));
    lemma_registered_routine_succeeds(rs, k, raw, v);
}

} // verus!
