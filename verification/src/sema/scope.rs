use super::ty::{DefId, TypeId};
use crate::parser::ast::NodeId;
use crate::utils::{Span, SymbolId};
use std::collections::HashMap;
use vstd::prelude::*;

verus! {

broadcast use vstd::std_specs::hash::group_hash_axioms;

/// Globally unique id of a scope.
#[derive(Debug, Clone, Copy, PartialEq, Eq, Hash, Structural)]
pub struct ScopeId(pub usize);

/// What a symbol names.
#[derive(Debug, Clone, Copy, PartialEq, Eq, Structural)]
pub enum SymbolKind {
    Var,
    Const,
    Static,
    Function,
    Struct,
    Enum,
    Union,
    Adt,
    Trait,
    Module,
    TypeAlias,
    TypeParam,
}

/// What is known of a symbol.
#[derive(Debug, Clone, Copy, PartialEq, Eq, Structural)]
pub struct SymbolInfo {
    pub kind: SymbolKind,
    pub node_id: NodeId,
    pub type_id: TypeId,
    pub def_id: Option<DefId>,
    pub span: Span,
    pub is_pub: bool,
}

/// One level of scope. Symbols are keyed by the number of their
/// [`SymbolId`].
#[derive(Debug)]
pub struct Scope {
    pub id: ScopeId,
    /// The enclosing scope, if any.
    pub parent: Option<ScopeId>,
    pub symbols: HashMap<u32, SymbolInfo>,
}

impl Scope {
    pub fn new(id: ScopeId, parent: Option<ScopeId>) -> (s: Self)
        ensures
            s.id == id,
            s.parent == parent,
            s.symbols@ == Map::<u32, SymbolInfo>::empty(),
    {
        Scope { id, parent, symbols: HashMap::new() }
    }
}

/// The abstract content of one scope.
pub struct ScopeView {
    pub parent: Option<ScopeId>,
    pub symbols: Map<u32, SymbolInfo>,
}

/// Resolving `name` in the scopes `scopes` from the scope `from`: the
/// innermost definition on the chain of enclosing scopes.
pub open spec fn lookup_in_scopes(scopes: Seq<ScopeView>, from: Option<ScopeId>, name: u32) -> Option<SymbolInfo>
    decreases
        match from {
            Some(s) => s.0 + 1,
            None => 0,
        },
{
    match from {
        None => None,
        Some(s) => if s.0 < scopes.len() {
            let sc = scopes[s.0 as int];
            if sc.symbols.contains_key(name) {
                Some(sc.symbols[name])
            } else {
                match sc.parent {
                    Some(p) => if p.0 < s.0 {
                        lookup_in_scopes(scopes, Some(p), name)
                    } else {
                        None
                    },
                    None => None,
                }
            }
        } else {
            None
        },
    }
}

/// The scopes after defining `name` as `info` in scope `c`.
pub open spec fn defined_in(scopes: Seq<ScopeView>, c: ScopeId, name: u32, info: SymbolInfo) -> Seq<ScopeView> {
    scopes.update(
        c.0 as int,
        ScopeView { parent: scopes[c.0 as int].parent, symbols: scopes[c.0 as int].symbols.insert(name, info) },
    )
}

/// The scopes after entering a new scope from `current`.
pub open spec fn entered(scopes: Seq<ScopeView>, current: Option<ScopeId>) -> Seq<ScopeView> {
    scopes.push(ScopeView { parent: current, symbols: Map::empty() })
}

/// A name defined in the current scope resolves to what it was defined
/// as, from that scope and locally in it, and a second definition of it
/// there is refused with that first definition.
pub proof fn law_define_then_resolve(scopes: Seq<ScopeView>, c: ScopeId, name: u32, info: SymbolInfo)
    requires
        c.0 < scopes.len(),
    ensures
        lookup_in_scopes(defined_in(scopes, c, name, info), Some(c), name) == Some(info),
        defined_in(scopes, c, name, info)[c.0 as int].symbols.contains_key(name),
        defined_in(scopes, c, name, info)[c.0 as int].symbols[name] == info,
{
}

/// Entering a new scope hides nothing: every name resolves in it as it did
/// in the scope it was entered from. Leaving it again makes that scope
/// current once more.
pub proof fn law_enter_scope(scopes: Seq<ScopeView>, current: Option<ScopeId>, name: u32)
    requires
        scopes.len() <= usize::MAX,
        current matches Some(c) ==> c.0 < scopes.len(),
    ensures
        lookup_in_scopes(entered(scopes, current), Some(ScopeId(scopes.len() as usize)), name)
            == lookup_in_scopes(scopes, current, name),
        entered(scopes, current)[scopes.len() as int].parent == current,
{
    let s1 = entered(scopes, current);
    let n = scopes.len();
    assert(s1[n as int].symbols == Map::<u32, SymbolInfo>::empty());
    match current {
        Some(c) => {
            lemma_lookup_extended(scopes, ScopeView { parent: current, symbols: Map::empty() }, c, name);
        },
        None => {},
    }
}

/// The scopes after the definitions `ds`, in order, in scope `c`: each one
/// is made where its name is not yet defined there and refused, with
/// nothing changed, where it is.
pub open spec fn defines_in(scopes: Seq<ScopeView>, c: ScopeId, ds: Seq<(u32, SymbolInfo)>) -> Seq<ScopeView>
    decreases ds.len(),
{
    if ds.len() == 0 {
        scopes
    } else {
        let prev = defines_in(scopes, c, ds.drop_last());
        let (name, info) = ds.last();
        if prev[c.0 as int].symbols.contains_key(name) {
            prev
        } else {
            defined_in(prev, c, name, info)
        }
    }
}

/// Entering a scope, defining names in it and leaving it again hides those
/// names: the scope entered from is current once more, and every name
/// resolves from it as it did before the scope was entered.
pub proof fn law_exit_scope_hides_definitions(
    scopes: Seq<ScopeView>,
    c: ScopeId,
    ds: Seq<(u32, SymbolInfo)>,
    name: u32,
)
    requires
        c.0 < scopes.len(),
        scopes.len() <= usize::MAX,
    ensures
        ({
            let child = ScopeId(scopes.len() as usize);
            let after = defines_in(entered(scopes, Some(c)), child, ds);
            &&& after[child.0 as int].parent == Some(c)
            &&& lookup_in_scopes(after, Some(c), name) == lookup_in_scopes(scopes, Some(c), name)
        }),
{
    let child = ScopeId(scopes.len() as usize);
    lemma_defines_in_child(scopes, c, ds);
    let after = defines_in(entered(scopes, Some(c)), child, ds);
    assert(after =~= scopes.push(after[child.0 as int]));
    lemma_lookup_extended(scopes, after[child.0 as int], c, name);
}

/// Definitions in a freshly entered scope change only that scope, and not
/// its parent.
proof fn lemma_defines_in_child(scopes: Seq<ScopeView>, c: ScopeId, ds: Seq<(u32, SymbolInfo)>)
    requires
        scopes.len() <= usize::MAX,
    ensures
        ({
            let child = ScopeId(scopes.len() as usize);
            let after = defines_in(entered(scopes, Some(c)), child, ds);
            &&& after.len() == scopes.len() + 1
            &&& forall|i: int| 0 <= i < scopes.len() ==> after[i] == scopes[i]
            &&& after[scopes.len() as int].parent == Some(c)
        }),
    decreases ds.len(),
{
    let child = ScopeId(scopes.len() as usize);
    assert(child.0 == scopes.len());
    if ds.len() > 0 {
        lemma_defines_in_child(scopes, c, ds.drop_last());
        let prev = defines_in(entered(scopes, Some(c)), child, ds.drop_last());
        let (name, info) = ds.last();
        if !prev[child.0 as int].symbols.contains_key(name) {
            let after = defined_in(prev, child, name, info);
            assert forall|i: int| 0 <= i < scopes.len() implies after[i] == scopes[i] by {
                assert(after[i] == prev[i]);
            }
        }
    } else {
        let s1 = entered(scopes, Some(c));
        assert forall|i: int| 0 <= i < scopes.len() implies s1[i] == scopes[i] by {}
    }
}

/// Adding a scope at the end changes no lookup from the scopes before it.
proof fn lemma_lookup_extended(scopes: Seq<ScopeView>, extra: ScopeView, from: ScopeId, name: u32)
    requires
        from.0 < scopes.len(),
    ensures
        lookup_in_scopes(scopes.push(extra), Some(from), name) == lookup_in_scopes(scopes, Some(from), name),
    decreases from.0,
{
    let s1 = scopes.push(extra);
    assert(s1[from.0 as int] == scopes[from.0 as int]);
    match scopes[from.0 as int].parent {
        Some(p) => if p.0 < from.0 {
            lemma_lookup_extended(scopes, extra, p, name);
        },
        None => {},
    }
}

/// The symbol table: an arena of scopes that are never removed, and the
/// scope that is current.
pub struct SymbolTable {
    scopes: Vec<Scope>,
    current_scope: Option<ScopeId>,
}

impl SymbolTable {
    /// The scopes, in the order they were created.
    pub closed spec fn scopes(&self) -> Seq<ScopeView> {
        self.scopes@.map_values(|s: Scope| ScopeView { parent: s.parent, symbols: s.symbols@ })
    }

    /// The current scope.
    pub closed spec fn current(&self) -> Option<ScopeId> {
        self.current_scope
    }

    /// The table's invariant: each scope's id is its index, every parent
    /// was created before its child, and the current scope exists.
    pub closed spec fn wf(&self) -> bool {
        &&& forall|i: int| 0 <= i < self.scopes@.len() ==> (#[trigger] self.scopes@[i]).id.0 == i
        &&& forall|i: int|
            0 <= i < self.scopes@.len() ==> match (#[trigger] self.scopes@[i]).parent {
                Some(p) => p.0 < i,
                None => true,
            }
        &&& match self.current_scope {
            Some(c) => c.0 < self.scopes@.len(),
            None => true,
        }
    }

    /// `id` names a scope of this table.
    pub open spec fn has_scope(&self, id: ScopeId) -> bool {
        id.0 < self.scopes().len()
    }

    /// Resolving `name` from the scope `from`: the innermost definition on
    /// the chain of enclosing scopes.
    pub open spec fn lookup_from(&self, from: Option<ScopeId>, name: u32) -> Option<SymbolInfo> {
        lookup_in_scopes(self.scopes(), from, name)
    }

    /// The scope that holds the innermost definition of `name` visible
    /// from `from`.
    pub open spec fn defining_scope(&self, from: Option<ScopeId>, name: u32) -> Option<ScopeId>
        decreases
            match from {
                Some(s) => s.0 + 1,
                None => 0,
            },
    {
        match from {
            None => None,
            Some(s) => if s.0 < self.scopes().len() {
                let sc = self.scopes()[s.0 as int];
                if sc.symbols.contains_key(name) {
                    Some(s)
                } else {
                    match sc.parent {
                        Some(p) => if p.0 < s.0 {
                            self.defining_scope(Some(p), name)
                        } else {
                            None
                        },
                        None => None,
                    }
                }
            } else {
                None
            },
        }
    }

    proof fn lemma_wf_parent(&self, i: int)
        requires
            self.wf(),
            0 <= i < self.scopes().len(),
        ensures
            self.scopes()[i].parent matches Some(p) ==> p.0 < i,
    {
        assert(self.scopes@[i].id.0 == i);
    }

    /// The current scope of a well-formed table is one of its scopes.
    pub proof fn lemma_current_valid(&self)
        requires
            self.wf(),
        ensures
            self.current() matches Some(c) ==> self.has_scope(c),
    {
    }

    /// A fresh table: one root scope, which is current.
    pub fn new() -> (t: Self)
        ensures
            t.wf(),
            t.scopes().len() == 1,
            t.scopes()[0].parent is None,
            t.scopes()[0].symbols == Map::<u32, SymbolInfo>::empty(),
            t.current() == Some(ScopeId(0)),
    {
        let mut table = SymbolTable { scopes: Vec::new(), current_scope: None };
        let root_id = table.create_scope(None);
        assert(table.scopes().len() == table.scopes@.len());
        table.current_scope = Some(root_id);
        table
    }

    /// Add a new scope with the given parent without changing the current
    /// scope.
    fn create_scope(&mut self, parent: Option<ScopeId>) -> (id: ScopeId)
        requires
            old(self).wf(),
            parent matches Some(p) ==> old(self).has_scope(p),
        ensures
            final(self).wf(),
            id.0 == old(self).scopes().len(),
            final(self).scopes() == old(self).scopes().push(
                ScopeView { parent, symbols: Map::empty() },
            ),
            final(self).current() == old(self).current(),
    {
        let id = ScopeId(self.scopes.len());
        self.scopes.push(Scope::new(id, parent));
        proof {
            assert(self.scopes() =~= old(self).scopes().push(
                ScopeView { parent, symbols: Map::empty() },
            ));
        }
        id
    }

    /// Open a new block scope inside the current one and make it current.
    pub fn enter_scope(&mut self) -> (id: ScopeId)
        requires
            old(self).wf(),
        ensures
            final(self).wf(),
            id.0 == old(self).scopes().len(),
            final(self).scopes() == entered(old(self).scopes(), old(self).current()),
            final(self).current() == Some(id),
    {
        let new_id = self.create_scope(self.current_scope);
        assert(self.scopes().len() == self.scopes@.len());
        self.current_scope = Some(new_id);
        new_id
    }

    /// Leave the current scope for its parent.
    pub fn exit_scope(&mut self)
        requires
            old(self).wf(),
            old(self).current() is Some,
        ensures
            final(self).wf(),
            final(self).scopes() == old(self).scopes(),
            final(self).current() == old(self).scopes()[old(self).current().unwrap().0 as int].parent,
    {
        if let Some(current) = self.current_scope {
            proof {
                self.lemma_wf_parent(current.0 as int);
            }
            self.current_scope = self.scopes[current.0].parent;
        }
    }

    /// Make `scope_id` the current scope. Any id is taken; the table keeps
    /// its invariant exactly when the id names one of its scopes (lookups
    /// from an id that names none would fail).
    pub fn set_current_scope(&mut self, scope_id: ScopeId)
        requires
            old(self).wf(),
        ensures
            final(self).wf() <==> old(self).has_scope(scope_id),
            final(self).scopes() == old(self).scopes(),
            final(self).current() == Some(scope_id),
    {
        self.current_scope = Some(scope_id);
    }

    /// The current scope.
    pub fn current_scope_id(&self) -> (r: Option<ScopeId>)
        ensures
            r == self.current(),
    {
        self.current_scope
    }

    /// Define `name` in the current scope. A name already defined in this
    /// very scope is left as it was, and its earlier definition is handed
    /// back.
    pub fn define(&mut self, name: SymbolId, info: SymbolInfo) -> (r: Result<(), SymbolInfo>)
        requires
            old(self).wf(),
            old(self).current() is Some,
        ensures
            final(self).wf(),
            final(self).current() == old(self).current(),
            ({
                let c = old(self).current().unwrap().0 as int;
                let syms = old(self).scopes()[c].symbols;
                match r {
                    Ok(()) => !syms.contains_key(name.0) && final(self).scopes() == defined_in(
                        old(self).scopes(),
                        old(self).current().unwrap(),
                        name.0,
                        info,
                    ),
                    Err(prev) => syms.contains_key(name.0) && prev == syms[name.0] && *final(self) == *old(self),
                }
            }),
    {
        let current_id = match self.current_scope {
            Some(c) => c,
            None => {
                return Ok(());
            },
        };
        let ghost c = current_id.0 as int;
        if let Some(existing) = self.scopes[current_id.0].symbols.get(&name.0) {
            return Err(*existing);
        }
        let mut scope = self.scopes.remove(current_id.0);
        let ghost before = scope.symbols@;
        scope.symbols.insert(name.0, info);
        self.scopes.insert(current_id.0, scope);
        proof {
            assert(self.scopes@ =~= old(self).scopes@.update(c, self.scopes@[c]));
            assert(self.scopes() =~= old(self).scopes().update(
                c,
                ScopeView { parent: old(self).scopes()[c].parent, symbols: before.insert(name.0, info) },
            ));
        }
        Ok(())
    }

    /// Resolve `name` from the current scope outwards.
    pub fn resolve(&self, name: SymbolId) -> (r: Option<&SymbolInfo>)
        requires
            self.wf(),
        ensures
            match r {
                Some(i) => self.lookup_from(self.current(), name.0) == Some(*i),
                None => self.lookup_from(self.current(), name.0) is None,
            },
    {
        let mut curr = self.current_scope;
        loop
            invariant
                self.wf(),
                curr matches Some(s) ==> self.has_scope(s),
                self.lookup_from(curr, name.0) == self.lookup_from(self.current(), name.0),
            decreases
                match curr {
                    Some(s) => s.0 + 1,
                    None => 0,
                },
        {
            let id = match curr {
                Some(id) => id,
                None => {
                    return None;
                },
            };
            proof {
                self.lemma_wf_parent(id.0 as int);
            }
            let scope = &self.scopes[id.0];
            if let Some(info) = scope.symbols.get(&name.0) {
                return Some(info);
            }
            curr = scope.parent;
        }
    }

    /// Look `name` up in the current scope only.
    pub fn resolve_local(&self, name: SymbolId) -> (r: Option<&SymbolInfo>)
        requires
            self.wf(),
        ensures
            match r {
                Some(i) => self.current() matches Some(c) && self.scopes()[c.0 as int].symbols.contains_key(name.0)
                    && *i == self.scopes()[c.0 as int].symbols[name.0],
                None => self.current() matches Some(c) ==> !self.scopes()[c.0 as int].symbols.contains_key(name.0),
            },
    {
        let current_id = self.current_scope?;
        self.scopes[current_id.0].symbols.get(&name.0)
    }

    /// Look `name` up in the scope `scope_id` only, without climbing to its
    /// parents.
    pub fn resolve_in(&self, scope_id: ScopeId, name: SymbolId) -> (r: Option<&SymbolInfo>)
        requires
            self.wf(),
            self.has_scope(scope_id),
        ensures
            match r {
                Some(i) => self.scopes()[scope_id.0 as int].symbols.contains_key(name.0)
                    && *i == self.scopes()[scope_id.0 as int].symbols[name.0],
                None => !self.scopes()[scope_id.0 as int].symbols.contains_key(name.0),
            },
    {
        self.scopes[scope_id.0].symbols.get(&name.0)
    }

    /// Change the type of the innermost definition of `name` visible from
    /// the current scope; nothing changes if there is none.
    pub fn update_type(&mut self, name: SymbolId, ty: TypeId)
        requires
            old(self).wf(),
        ensures
            final(self).wf(),
            final(self).current() == old(self).current(),
            match old(self).defining_scope(old(self).current(), name.0) {
                None => final(self).scopes() == old(self).scopes(),
                Some(s) => {
                    let sc = old(self).scopes()[s.0 as int];
                    final(self).scopes() == old(self).scopes().update(
                        s.0 as int,
                        ScopeView {
                            parent: sc.parent,
                            symbols: sc.symbols.insert(
                                name.0,
                                SymbolInfo { type_id: ty, ..sc.symbols[name.0] },
                            ),
                        },
                    )
                },
            },
    {
        let mut curr = self.current_scope;
        loop
            invariant
                self.wf(),
                self == old(self),
                curr matches Some(s) ==> self.has_scope(s),
                self.defining_scope(curr, name.0) == self.defining_scope(self.current(), name.0),
            decreases
                match curr {
                    Some(s) => s.0 + 1,
                    None => 0,
                },
        {
            let id = match curr {
                Some(id) => id,
                None => {
                    return;
                },
            };
            proof {
                self.lemma_wf_parent(id.0 as int);
            }
            if let Some(info) = self.scopes[id.0].symbols.get(&name.0) {
                let updated = SymbolInfo { type_id: ty, ..*info };
                let mut scope = self.scopes.remove(id.0);
                let ghost before = scope.symbols@;
                scope.symbols.insert(name.0, updated);
                self.scopes.insert(id.0, scope);
                proof {
                    let c = id.0 as int;
                    assert(self.scopes@ =~= old(self).scopes@.update(c, self.scopes@[c]));
                    assert(self.scopes() =~= old(self).scopes().update(
                        c,
                        ScopeView { parent: old(self).scopes()[c].parent, symbols: before.insert(name.0, updated) },
                    ));
                }
                return;
            }
            curr = self.scopes[id.0].parent;
        }
    }
}

} // verus!
