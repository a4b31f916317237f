use vstd::prelude::*;

use crate::codec::same_text;
use crate::error::{failure, ErrorKind, Failure};
use crate::types::{tag_of_oid, type_tag_of_oid, TypeTag};

verus! {

/// Static metadata of one registered routine.
#[derive(Clone, Debug)]
pub struct RoutineDescriptor {
    pub name: String,
    pub arg_types: Vec<TypeTag>,
    pub return_type: TypeTag,
    /// Identifies the native implementation to whoever runs it.
    pub handle: usize,
}

/// The mathematical content of a `RoutineDescriptor`.
pub struct RoutineView {
    pub name: Seq<char>,
    pub arg_types: Seq<TypeTag>,
    pub return_type: TypeTag,
    pub handle: usize,
}

impl View for RoutineDescriptor {
    type V = RoutineView;

    open spec fn view(&self) -> RoutineView {
        RoutineView {
            name: self.name@,
            arg_types: self.arg_types@,
            return_type: self.return_type,
            handle: self.handle,
        }
    }
}

pub open spec fn has_name(rs: Seq<RoutineView>, name: Seq<char>) -> bool {
    exists|i: int| 0 <= i < rs.len() && #[trigger] rs[i].name == name
}

pub open spec fn names_unique(rs: Seq<RoutineView>) -> bool {
    forall|i: int, j: int|
        0 <= i < rs.len() && 0 <= j < rs.len() && #[trigger] rs[i].name == #[trigger] rs[j].name
            ==> i == j
}

/// The position of the routine named `name`, if one is registered.
pub open spec fn position_of(rs: Seq<RoutineView>, name: Seq<char>) -> Option<int> {
    if has_name(rs, name) {
        Some(choose|i: int| 0 <= i < rs.len() && #[trigger] rs[i].name == name)
    } else {
        None
    }
}

/// Whether every declared type identifier is in the supported set.
pub open spec fn all_supported(arg_oids: Seq<u32>, return_oid: u32) -> bool {
    &&& forall|i: int| 0 <= i < arg_oids.len() ==> (#[trigger] tag_of_oid(arg_oids[i])).is_some()
    &&& tag_of_oid(return_oid).is_some()
}

/// The tags of supported type identifiers.
pub open spec fn tags_of(arg_oids: Seq<u32>) -> Seq<TypeTag> {
    arg_oids.map_values(|o: u32| tag_of_oid(o).unwrap())
}

/// The routines after registering one more: a duplicate name is refused first,
/// then an unsupported type; otherwise the routine is added at the end.
pub open spec fn register_spec(
    rs: Seq<RoutineView>,
    name: Seq<char>,
    arg_oids: Seq<u32>,
    return_oid: u32,
    handle: usize,
) -> Result<Seq<RoutineView>, ErrorKind> {
    if has_name(rs, name) {
        Err(ErrorKind::DuplicateName)
    } else if !all_supported(arg_oids, return_oid) {
        Err(ErrorKind::UnsupportedType)
    } else {
        Ok(
            rs.push(
                RoutineView {
                    name,
                    arg_types: tags_of(arg_oids),
                    return_type: tag_of_oid(return_oid).unwrap(),
                    handle,
                },
            ),
        )
    }
}

/// The module-wide mapping from routine name to descriptor.
#[derive(Debug)]
pub struct Registry {
    routines: Vec<RoutineDescriptor>,
}

impl View for Registry {
    type V = Seq<RoutineView>;

    closed spec fn view(&self) -> Seq<RoutineView> {
        self.routines@.map_values(|d: RoutineDescriptor| d@)
    }
}

impl Registry {
    /// No name is registered twice.
    pub open spec fn wf(&self) -> bool {
        names_unique(self@)
    }

    /// An empty registry.
    pub fn new() -> (r: Registry)
        ensures
            r.wf(),
            r@ == Seq::<RoutineView>::empty(),
    {
        let r = Registry { routines: Vec::new() };
        assert(r@ =~= Seq::<RoutineView>::empty());
        r
    }

    /// The number of registered routines.
    pub fn len(&self) -> (r: usize)
        ensures
            r == self@.len(),
    {
        self.routines.len()
    }

    /// The position of the routine named `name`.
    pub fn find(&self, name: &str) -> (r: Option<usize>)
        requires
            self.wf(),
        ensures
            r.is_some() == has_name(self@, name@),
            r.is_some() ==> position_of(self@, name@) == Some(r.unwrap() as int),
            r.is_some() ==> r.unwrap() < self@.len(),
    {
        let mut i: usize = 0;
        while i < self.routines.len()
            invariant
                i <= self.routines@.len(),
                self@.len() == self.routines@.len(),
                self.wf(),
                forall|j: int| 0 <= j < i ==> #[trigger] self@[j].name != name@,
            decreases self.routines@.len() - i,
        {
            if same_text(self.routines[i].name.as_str(), name) {
                assert(self@[i as int].name == name@);
                assert(has_name(self@, name@));
                let ghost p = choose|k: int| 0 <= k < self@.len() && #[trigger] self@[k].name == name@;
                assert(0 <= p < self@.len() && self@[p].name == name@);
                assert(self@[p].name == self@[i as int].name);
                assert(p == i as int);
                return Some(i);
            }
            i = i + 1;
        }
        None
    }

    /// The descriptor of the routine named `name`, if one is registered.
    pub fn lookup(&self, name: &str) -> (r: Option<&RoutineDescriptor>)
        requires
            self.wf(),
        ensures
            r.is_some() == has_name(self@, name@),
            r.is_some() ==> r.unwrap()@ == self@[position_of(self@, name@).unwrap()],
    {
        match self.find(name) {
            Some(i) => Some(&self.routines[i]),
            None => None,
        }
    }

    /// The descriptor at position `i`.
    pub fn routine(&self, i: usize) -> (r: &RoutineDescriptor)
        requires
            i < self@.len(),
        ensures
            r@ == self@[i as int],
    {
        &self.routines[i]
    }

    /// The names of all registered routines, in order of registration.
    pub fn routine_names(&self) -> (r: Vec<String>)
        ensures
            r@.len() == self@.len(),
            forall|i: int| 0 <= i < r@.len() ==> #[trigger] r@[i]@ == self@[i].name,
    {
        let mut out: Vec<String> = Vec::new();
        let mut i: usize = 0;
        while i < self.routines.len()
            invariant
                i <= self.routines@.len(),
                self@.len() == self.routines@.len(),
                out@.len() == i,
                forall|j: int| 0 <= j < i ==> #[trigger] out@[j]@ == self@[j].name,
            decreases self.routines@.len() - i,
        {
            out.push(self.routines[i].name.clone());
            i = i + 1;
        }
        out
    }

    /// Registers a routine under `name` with the given argument and return type
    /// identifiers. On failure the registry is left as it was.
    pub fn register(
        &mut self,
        name: String,
        arg_oids: Vec<u32>,
        return_oid: u32,
        handle: usize,
    ) -> (r: Result<(), Failure>)
        requires
            old(self).wf(),
            name@.len() > 0,
        ensures
            final(self).wf(),
            match register_spec(old(self)@, name@, arg_oids@, return_oid, handle) {
                Ok(rs) => r.is_ok() && final(self)@ == rs,
                Err(k) => r.is_err() && r.unwrap_err().kind == k && final(self)@ == old(self)@,
            },
    {
        if self.find(name.as_str()).is_some() {
            return Err(failure(ErrorKind::DuplicateName, "routine already registered: ", name.as_str()));
        }
        let mut tags: Vec<TypeTag> = Vec::new();
        let mut i: usize = 0;
        while i < arg_oids.len()
            invariant
                i <= arg_oids@.len(),
                tags@.len() == i,
                self@ == old(self)@,
                self.wf(),
                !has_name(self@, name@),
                forall|j: int| 0 <= j < i ==> tag_of_oid(#[trigger] arg_oids@[j]) == Some(tags@[j]),
            decreases arg_oids@.len() - i,
        {
            match type_tag_of_oid(arg_oids[i]) {
                Some(t) => tags.push(t),
                None => {
                    return Err(failure(ErrorKind::UnsupportedType, "unsupported argument type in ", name.as_str()));
                },
            }
            i = i + 1;
        }
        let return_type = match type_tag_of_oid(return_oid) {
            Some(t) => t,
            None => {
                return Err(failure(ErrorKind::UnsupportedType, "unsupported return type in ", name.as_str()));
            },
        };
        assert(tags@ =~= tags_of(arg_oids@));
        let ghost before = self@;
        self.routines.push(RoutineDescriptor { name, arg_types: tags, return_type, handle });
        assert(self@ =~= register_spec(before, name@, arg_oids@, return_oid, handle).unwrap());
        assert(names_unique(self@)) by {
            assert forall|a: int, b: int|
                0 <= a < self@.len() && 0 <= b < self@.len() && #[trigger] self@[a].name
                    == #[trigger] self@[b].name implies a == b by {
                if a < before.len() && b == before.len() {
                    assert(before[a].name == name@);
                }
                if b < before.len() && a == before.len() {
                    assert(before[b].name == name@);
                }
            }
        }
        Ok(())
    }
}

/// One routine that the module declares at load time.
#[derive(Clone, Debug)]
pub struct Declaration {
    pub name: String,
    pub arg_oids: Vec<u32>,
    pub return_oid: u32,
    pub handle: usize,
}

/// The mathematical content of a `Declaration`.
pub struct DeclarationView {
    pub name: Seq<char>,
    pub arg_oids: Seq<u32>,
    pub return_oid: u32,
    pub handle: usize,
}

impl View for Declaration {
    type V = DeclarationView;

    open spec fn view(&self) -> DeclarationView {
        DeclarationView {
            name: self.name@,
            arg_oids: self.arg_oids@,
            return_oid: self.return_oid,
            handle: self.handle,
        }
    }
}

/// The views of a sequence of declarations.
pub open spec fn declarations_view(ds: Seq<Declaration>) -> Seq<DeclarationView> {
    ds.map_values(|d: Declaration| d@)
}

/// The routines after registering every declaration in order, or the first
/// failure.
pub open spec fn load_spec(ds: Seq<DeclarationView>) -> Result<Seq<RoutineView>, ErrorKind>
    decreases ds.len(),
{
    if ds.len() == 0 {
        Ok(Seq::empty())
    } else {
        match load_spec(ds.drop_last()) {
            Err(k) => Err(k),
            Ok(rs) => {
                let d = ds.last();
                register_spec(rs, d.name, d.arg_oids, d.return_oid, d.handle)
            },
        }
    }
}

/// Once a prefix of the declarations fails to load, so do all of them, with the
/// same failure.
proof fn lemma_load_prefix_err(ds: Seq<DeclarationView>, n: int)
    requires
        0 <= n <= ds.len(),
        load_spec(ds.subrange(0, n)).is_err(),
    ensures
        load_spec(ds) == load_spec(ds.subrange(0, n)),
    decreases ds.len(),
{
    if n < ds.len() {
        assert(ds.drop_last().subrange(0, n) =~= ds.subrange(0, n));
        lemma_load_prefix_err(ds.drop_last(), n);
    } else {
        assert(ds.subrange(0, n) =~= ds);
    }
}

impl Registry {
    /// Registers every declaration, in order, into a fresh registry. Loading is
    /// all or nothing: the first failure is returned and no registry is built.
    pub fn load(decls: &Vec<Declaration>) -> (r: Result<Registry, Failure>)
        requires
            forall|k: int| 0 <= k < decls@.len() ==> (#[trigger] decls@[k]).name@.len() > 0,
        ensures
            match load_spec(declarations_view(decls@)) {
                Ok(rs) => r.is_ok() && r.unwrap().wf() && r.unwrap()@ == rs,
                Err(k) => r.is_err() && r.unwrap_err().kind == k,
            },
    {
        let ghost ds = declarations_view(decls@);
        let mut reg = Registry::new();
        let mut i: usize = 0;
        assert(ds.subrange(0, 0) =~= Seq::<DeclarationView>::empty());
        while i < decls.len()
            invariant
                i <= decls@.len(),
                ds == declarations_view(decls@),
                forall|k: int| 0 <= k < decls@.len() ==> (#[trigger] decls@[k]).name@.len() > 0,
                reg.wf(),
                load_spec(ds.subrange(0, i as int)) == Ok::<Seq<RoutineView>, ErrorKind>(reg@),
            decreases decls@.len() - i,
        {
            let d = &decls[i];
            assert(ds.subrange(0, i + 1).drop_last() =~= ds.subrange(0, i as int));
            assert(ds.subrange(0, i + 1).last() == d@);
            match reg.register(d.name.clone(), d.arg_oids.clone(), d.return_oid, d.handle) {
                Ok(()) => {},
                Err(f) => {
                    proof {
                        lemma_load_prefix_err(ds, i + 1);
                    }
                    return Err(f);
                },
            }
            i = i + 1;
        }
        assert(ds.subrange(0, i as int) =~= ds);
        Ok(reg)
    }
}

} // verus!
