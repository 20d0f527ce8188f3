use super::ast::MonoId;
use crate::sema::ty::{DefId, TypeId};
use crate::utils::{concat3, decimal, decimal_text, SymbolId};
use std::collections::HashMap;
use vstd::prelude::*;

verus! {

broadcast use vstd::std_specs::hash::group_hash_axioms;

// The ids of monomorphized items: each generic definition gets one id for
// each list of type arguments it is instantiated with.

/// A definition together with its type arguments.
pub open spec fn instance_key(def: DefId, args: Seq<TypeId>) -> (DefId, Seq<TypeId>) {
    (def, args)
}

/// The instances made so far and the next free id.
pub struct MonoCache {
    entries: Vec<(DefId, Vec<TypeId>, MonoId)>,
    next_mono_id: u32,
}

impl MonoCache {
    /// The instances, in the order they were made.
    pub closed spec fn instances(&self) -> Seq<((DefId, Seq<TypeId>), MonoId)> {
        self.entries@.map_values(|e: (DefId, Vec<TypeId>, MonoId)| ((e.0, e.1@), e.2))
    }

    /// The next id handed out.
    pub closed spec fn next(&self) -> u32 {
        self.next_mono_id
    }

    /// No instance is recorded twice, no id is given to two instances, and
    /// every recorded id was handed out before the next one.
    pub open spec fn wf(&self) -> bool {
        &&& forall|i: int, j: int|
            0 <= i < self.instances().len() && 0 <= j < self.instances().len() && i != j
                ==> #[trigger] self.instances()[i].0 != #[trigger] self.instances()[j].0
        &&& forall|i: int, j: int|
            0 <= i < self.instances().len() && 0 <= j < self.instances().len() && i != j
                ==> #[trigger] self.instances()[i].1 != #[trigger] self.instances()[j].1
        &&& forall|i: int|
            0 <= i < self.instances().len() ==> (#[trigger] self.instances()[i]).1.0 < self.next()
    }

    /// The id recorded for `key`, if any.
    pub open spec fn lookup(&self, key: (DefId, Seq<TypeId>)) -> Option<MonoId> {
        if exists|i: int| 0 <= i < self.instances().len() && #[trigger] self.instances()[i].0 == key {
            Some(self.instances()[choose|i: int| 0 <= i < self.instances().len() && #[trigger] self.instances()[i].0 == key].1)
        } else {
            None
        }
    }

    /// No instances yet; ids start at 1.
    pub fn new() -> (c: Self)
        ensures
            c.wf(),
            c.instances() == Seq::<((DefId, Seq<TypeId>), MonoId)>::empty(),
            c.next() == 1,
    {
        let c = MonoCache { entries: Vec::new(), next_mono_id: 1 };
        assert(c.instances() =~= Seq::<((DefId, Seq<TypeId>), MonoId)>::empty());
        c
    }

    /// Hand out the next id.
    pub fn new_mono_id(&mut self) -> (id: MonoId)
        requires
            old(self).wf(),
            old(self).next() < u32::MAX,
        ensures
            final(self).wf(),
            id.0 == old(self).next(),
            final(self).next() == old(self).next() + 1,
            final(self).instances() == old(self).instances(),
    {
        let id = self.next_mono_id;
        self.next_mono_id = self.next_mono_id + 1;
        assert(self.instances() == old(self).instances());
        MonoId(id)
    }

    /// The id of the instance of `def` with the type arguments `args`: the
    /// recorded one, or a new id that is recorded. The flag says whether
    /// the instance is new (and its body still has to be built).
    pub fn instance(&mut self, def: DefId, args: &Vec<TypeId>) -> (r: (MonoId, bool))
        requires
            old(self).wf(),
            old(self).next() < u32::MAX,
        ensures
            final(self).wf(),
            match old(self).lookup((def, args@)) {
                Some(id) => r == (id, false) && *final(self) == *old(self),
                None => {
                    &&& r == (MonoId(old(self).next()), true)
                    &&& final(self).next() == old(self).next() + 1
                    &&& final(self).instances() == old(self).instances().push(((def, args@), r.0))
                },
            },
    {
        let mut i: usize = 0;
        while i < self.entries.len()
            invariant
                0 <= i <= self.entries@.len(),
                self.wf(),
                forall|j: int| 0 <= j < i ==> #[trigger] self.instances()[j].0 != (def, args@),
            decreases self.entries.len() - i,
        {
            let e = &self.entries[i];
            if e.0 == def && same_args(&e.1, args) {
                proof {
                    assert(self.instances()[i as int].0 == (def, args@));
                    let c = choose|j: int| 0 <= j < self.instances().len() && #[trigger] self.instances()[j].0 == (def, args@);
                    if c != i {
                        assert(self.instances()[c].0 == self.instances()[i as int].0);
                    }
                }
                return (e.2, false);
            }
            proof {
                assert(self.instances()[i as int].0 == ((e.0, e.1@)));
            }
            i = i + 1;
        }
        let ghost before = self.instances();
        let id = self.new_mono_id();
        let mut copy: Vec<TypeId> = Vec::new();
        let mut k: usize = 0;
        while k < args.len()
            invariant
                0 <= k <= args@.len(),
                copy@ == args@.take(k as int),
            decreases args.len() - k,
        {
            copy.push(args[k]);
            k = k + 1;
            proof {
                assert(copy@ =~= args@.take(k as int));
            }
        }
        proof {
            assert(copy@ =~= args@);
        }
        self.entries.push((def, copy, id));
        proof {
            assert(self.instances() =~= before.push(((def, args@), id)));
            assert(!(exists|j: int| 0 <= j < before.len() && #[trigger] before[j].0 == (def, args@)));
        }
        (id, true)
    }
}

/// The two lists of type arguments are equal.
fn same_args(a: &Vec<TypeId>, b: &Vec<TypeId>) -> (r: bool)
    ensures
        r == (a@ == b@),
{
    if a.len() != b.len() {
        return false;
    }
    let mut i: usize = 0;
    while i < a.len()
        invariant
            a@.len() == b@.len(),
            0 <= i <= a@.len(),
            forall|j: int| 0 <= j < i ==> a@[j] == b@[j],
        decreases a.len() - i,
    {
        if a[i] != b[i] {
            return false;
        }
        i = i + 1;
    }
    assert(a@ =~= b@);
    true
}

/// Monomorphization gives one id per instance: asking again for an
/// instance that was made gives back its id and changes nothing, and two
/// different instances never share an id.
pub proof fn law_one_id_per_instance(c: MonoCache, k1: (DefId, Seq<TypeId>), k2: (DefId, Seq<TypeId>))
    requires
        c.wf(),
        c.lookup(k1) is Some,
        c.lookup(k2) is Some,
    ensures
        c.lookup(k1) == c.lookup(k2) <==> k1 == k2,
{
    let i = choose|i: int| 0 <= i < c.instances().len() && #[trigger] c.instances()[i].0 == k1;
    let j = choose|j: int| 0 <= j < c.instances().len() && #[trigger] c.instances()[j].0 == k2;
    assert(c.instances()[i].0 == k1);
    assert(c.instances()[j].0 == k2);
    if c.lookup(k1) == c.lookup(k2) && k1 != k2 {
        assert(c.instances()[i].1 == c.instances()[j].1);
        assert(i != j);
    }
    if k1 == k2 {
        assert(i == j || c.instances()[i].0 == c.instances()[j].0);
    }
}

/// The name of an instance: the definition's name followed by `_` and the
/// number of each type argument.
pub open spec fn mangled(name: Seq<char>, args: Seq<TypeId>) -> Seq<char>
    decreases args.len(),
{
    if args.len() == 0 {
        name
    } else {
        mangled(name, args.drop_last()) + "_"@ + decimal(args.last().0 as nat)
    }
}

/// The name of the instance of the definition named `name` with the type
/// arguments `args`.
pub fn mangled_name(name: &str, args: &Vec<TypeId>) -> (s: String)
    ensures
        s@ == mangled(name@, args@),
{
    let mut s = concat3(name, "", "");
    proof {
        reveal_strlit("");
        assert(s@ =~= name@);
        assert(args@.take(0) =~= Seq::<TypeId>::empty());
    }
    let mut i: usize = 0;
    while i < args.len()
        invariant
            0 <= i <= args@.len(),
            s@ == mangled(name@, args@.take(i as int)),
        decreases args.len() - i,
    {
        let d = decimal_text(args[i].0 as usize);
        s = concat3(s.as_str(), "_", d.as_str());
        proof {
            assert(args@.take(i + 1).drop_last() =~= args@.take(i as int));
            assert(args@.take(i + 1).last() == args@[i as int]);
        }
        i = i + 1;
    }
    proof {
        assert(args@.take(args@.len() as int) =~= args@);
    }
    s
}

/// The generic parameters of an instance: those of the `impl` block the
/// function is declared in, then the function's own.
pub open spec fn instance_params(impl_params: Seq<SymbolId>, fn_params: Seq<SymbolId>) -> Seq<SymbolId> {
    impl_params + fn_params
}

/// Each of the first parameters bound to the type argument at its place,
/// as far as there are arguments; a name given twice takes its later one.
pub open spec fn instance_bindings(params: Seq<SymbolId>, args: Seq<TypeId>, n: nat) -> Map<u32, TypeId>
    decreases n,
{
    if n == 0 {
        Map::empty()
    } else if n - 1 < args.len() {
        instance_bindings(params, args, (n - 1) as nat).insert(params[n - 1].0, args[n - 1])
    } else {
        instance_bindings(params, args, (n - 1) as nat)
    }
}

/// The bindings of an instance's generic parameters to its type arguments.
pub fn bind_instance_params(
    impl_params: &Vec<SymbolId>,
    fn_params: &Vec<SymbolId>,
    args: &Vec<TypeId>,
) -> (m: HashMap<u32, TypeId>)
    requires
        impl_params@.len() + fn_params@.len() <= usize::MAX,
    ensures
        ({
            let ps = instance_params(impl_params@, fn_params@);
            m@ == instance_bindings(ps, args@, ps.len())
        }),
{
    let ghost ps = instance_params(impl_params@, fn_params@);
    let mut m: HashMap<u32, TypeId> = HashMap::new();
    let mut i: usize = 0;
    let total = impl_params.len() + fn_params.len();
    while i < total
        invariant
            total == ps.len(),
            ps == instance_params(impl_params@, fn_params@),
            0 <= i <= total,
            m@ == instance_bindings(ps, args@, i as nat),
        decreases total - i,
    {
        let name = if i < impl_params.len() {
            impl_params[i]
        } else {
            fn_params[i - impl_params.len()]
        };
        proof {
            assert(ps[i as int] == name);
        }
        if i < args.len() {
            m.insert(name.0, args[i]);
        }
        i = i + 1;
    }
    m
}

} // verus!
