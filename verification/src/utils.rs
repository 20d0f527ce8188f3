use crate::parser::escape::{chars_of, string_of};
use vstd::prelude::*;

verus! {

/// A byte range in the source text, `start..end`.
#[derive(Debug, Clone, Copy, PartialEq, Eq, Hash, Default, PartialOrd, Ord, Structural)]
pub struct Span {
    pub start: usize,
    pub end: usize,
}

impl Span {
    pub fn new(start: usize, end: usize) -> (s: Span)
        ensures
            s.start == start,
            s.end == end,
    {
        Span { start, end }
    }

    /// The span that runs from the start of `self` to the end of `other`.
    pub fn to(self, other: Span) -> (s: Span)
        ensures
            s.start == self.start,
            s.end == other.end,
    {
        Span { start: self.start, end: other.end }
    }
}

/// Handle of an interned string.
#[derive(Debug, Clone, Copy, PartialEq, Eq, Hash, Structural)]
pub struct SymbolId(pub u32);

/// Handle of a loaded source file.
#[derive(Debug, Clone, Copy, PartialEq, Eq, Hash, Structural)]
pub struct FileId(pub u32);

/// No string is stored twice and every index fits in a `u32`.
pub open spec fn strings_wf(v: Seq<Seq<char>>) -> bool {
    &&& v.len() <= u32::MAX
    &&& forall|i: int, j: int|
        0 <= i < v.len() && 0 <= j < v.len() && i != j ==> #[trigger] v[i] != #[trigger] v[j]
}

/// The index under which `s` is stored in `v`, if it is.
pub open spec fn index_in(v: Seq<Seq<char>>, s: Seq<char>) -> Option<u32> {
    if exists|i: int| 0 <= i < v.len() && #[trigger] v[i] == s {
        Some((choose|i: int| 0 <= i < v.len() && #[trigger] v[i] == s) as u32)
    } else {
        None
    }
}

/// The strings after interning `s` into `v`, and the index `s` gets.
pub open spec fn interned_str(v: Seq<Seq<char>>, s: Seq<char>) -> (Seq<Seq<char>>, u32) {
    match index_in(v, s) {
        Some(i) => (v, i),
        None => (v.push(s), v.len() as u32),
    }
}

/// Interning then resolving gives the string back; interning the same
/// string again gives the same symbol and stores nothing; a second string
/// interned afterwards gets the same symbol exactly when it is the same
/// string. The interner keeps its invariant and only grows.
pub proof fn law_intern_resolve(v: Seq<Seq<char>>, a: Seq<char>, b: Seq<char>)
    requires
        strings_wf(v),
        v.len() < u32::MAX,
    ensures
        ({
            let (v1, id) = interned_str(v, a);
            &&& strings_wf(v1)
            &&& v.is_prefix_of(v1)
            &&& id < v1.len()
            &&& v1[id as int] == a
            &&& interned_str(v1, a) == (v1, id)
            &&& (interned_str(v1, b).1 == id <==> b == a)
        }),
{
    let (v1, id) = interned_str(v, a);
    lemma_interned_str(v, a);
    lemma_interned_str(v1, a);
    lemma_interned_str(v1, b);
    let (v2, id2) = interned_str(v1, b);
    if id2 == id {
        assert(v2[id as int] == v1[id as int]);
    }
    match index_in(v1, a) {
        Some(j) => {
            if j != id {
                assert(v1[j as int] == v1[id as int]);
            }
        },
        None => {
            assert(v1[id as int] == a);
        },
    }
}

/// What interning does to any list of strings: the result extends it and
/// holds the string at the index; a list without repeats that has room
/// keeps its invariant.
proof fn lemma_interned_str(v: Seq<Seq<char>>, s: Seq<char>)
    requires
        v.len() <= u32::MAX,
    ensures
        ({
            let (v1, id) = interned_str(v, s);
            &&& v.is_prefix_of(v1)
            &&& id < v1.len()
            &&& v1[id as int] == s
            &&& (strings_wf(v) && v.len() < u32::MAX) ==> strings_wf(v1)
        }),
{
    let (v1, id) = interned_str(v, s);
    match index_in(v, s) {
        Some(found) => {},
        None => {
            assert(v1[v.len() as int] == s);
            if strings_wf(v) && v.len() < u32::MAX {
                assert forall|i: int, j: int|
                    0 <= i < v1.len() && 0 <= j < v1.len() && i != j implies #[trigger] v1[i]
                        != #[trigger] v1[j] by {
                    if i < v.len() && j < v.len() {
                        assert(v1[i] == v[i] && v1[j] == v[j]);
                    } else if i < v.len() {
                        assert(v1[i] == v[i]);
                    } else {
                        assert(v1[j] == v[j]);
                    }
                }
            }
        },
    }
}

/// Stores each distinct string once and hands out a [`SymbolId`] for it.
pub struct Interner {
    strings: Vec<String>,
}

impl View for Interner {
    type V = Seq<Seq<char>>;

    closed spec fn view(&self) -> Seq<Seq<char>> {
        self.strings@.map_values(|s: String| s@)
    }
}

impl Interner {
    /// No string is stored twice and every index fits in a `u32`.
    pub open spec fn wf(&self) -> bool {
        strings_wf(self@)
    }

    /// The index under which `s` is stored, if it is.
    pub open spec fn index_of(&self, s: Seq<char>) -> Option<u32> {
        index_in(self@, s)
    }

    pub fn new() -> (r: Self)
        ensures
            r.wf(),
            r@ == Seq::<Seq<char>>::empty(),
    {
        let r = Interner { strings: Vec::new() };
        assert(r@ =~= Seq::<Seq<char>>::empty());
        r
    }

    /// The symbol of `s`, storing `s` first if it is new.
    pub fn intern(&mut self, s: &str) -> (id: SymbolId)
        requires
            old(self).wf(),
            old(self)@.len() < u32::MAX,
        ensures
            final(self).wf(),
            id.0 < final(self)@.len(),
            final(self)@[id.0 as int] == s@,
            (final(self)@, id.0) == interned_str(old(self)@, s@),
            match old(self).index_of(s@) {
                Some(i) => id.0 == i && final(self)@ == old(self)@,
                None => id.0 == old(self)@.len() && final(self)@ == old(self)@.push(s@),
            },
    {
        let owned = s.to_owned();
        let n = self.strings.len();
        let mut i: usize = 0;
        while i < n
            invariant
                n == self.strings.len(),
                0 <= i <= n,
                self.wf(),
                owned@ == s@,
                forall|j: int| 0 <= j < i ==> #[trigger] self@[j] != s@,
            decreases n - i,
        {
            if self.strings[i] == owned {
                proof {
                    assert(self@[i as int] == s@);
                    let c = choose|j: int| 0 <= j < self@.len() && #[trigger] self@[j] == s@;
                    if c != i {
                        assert(self@[c] != self@[i as int]);
                    }
                }
                return SymbolId(i as u32);
            }
            i = i + 1;
        }
        let ghost old_view = self@;
        self.strings.push(owned);
        assert(self@ =~= old_view.push(s@));
        SymbolId(n as u32)
    }

    /// The string stored for `sym`, if there is one.
    pub fn resolve(&self, sym: SymbolId) -> (r: Option<&str>)
        ensures
            match r {
                Some(t) => sym.0 < self@.len() && t@ == self@[sym.0 as int],
                None => sym.0 >= self@.len(),
            },
    {
        let i = sym.0 as usize;
        if i < self.strings.len() {
            Some(self.strings[i].as_str())
        } else {
            None
        }
    }
}

/// A map from strings to strings, kept as a list of distinct keys with
/// their values.
#[derive(Debug, Clone)]
pub struct StringMap {
    entries: Vec<(String, String)>,
}

impl StringMap {
    /// The keys, in insertion order.
    pub closed spec fn keys(&self) -> Seq<Seq<char>> {
        self.entries@.map_values(|e: (String, String)| e.0@)
    }

    /// The values, in the order of their keys.
    pub closed spec fn values(&self) -> Seq<Seq<char>> {
        self.entries@.map_values(|e: (String, String)| e.1@)
    }

    /// No key occurs twice.
    pub open spec fn wf(&self) -> bool {
        &&& self.keys().len() == self.values().len()
        &&& forall|i: int, j: int|
            0 <= i < self.keys().len() && 0 <= j < self.keys().len() && i != j
                ==> #[trigger] self.keys()[i] != #[trigger] self.keys()[j]
    }

    /// The map as a mathematical map.
    pub open spec fn to_map(&self) -> Map<Seq<char>, Seq<char>> {
        Map::new(
            |k: Seq<char>| self.keys().contains(k),
            |k: Seq<char>| self.values()[self.keys().index_of(k)],
        )
    }

    pub fn new() -> (m: Self)
        ensures
            m.wf(),
            m.to_map() == Map::<Seq<char>, Seq<char>>::empty(),
    {
        let m = StringMap { entries: Vec::new() };
        assert(m.to_map() =~= Map::<Seq<char>, Seq<char>>::empty());
        m
    }

    proof fn lemma_index_of(&self, i: int)
        requires
            self.wf(),
            0 <= i < self.keys().len(),
        ensures
            self.keys().contains(self.keys()[i]),
            self.keys().index_of(self.keys()[i]) == i,
    {
        let k = self.keys()[i];
        assert(self.keys()[i] == k);
        let j = self.keys().index_of(k);
        if j != i {
            assert(self.keys()[j] == k);
        }
    }

    /// Position of `key`, if present.
    fn find(&self, key: &str) -> (r: Option<usize>)
        requires
            self.wf(),
        ensures
            match r {
                Some(i) => i < self.keys().len() && self.keys()[i as int] == key@,
                None => !self.keys().contains(key@),
            },
    {
        let owned = key.to_owned();
        let mut i: usize = 0;
        while i < self.entries.len()
            invariant
                self.wf(),
                owned@ == key@,
                0 <= i <= self.entries.len(),
                self.keys().len() == self.entries@.len(),
                forall|j: int| 0 <= j < i ==> self.keys()[j] != key@,
            decreases self.entries.len() - i,
        {
            if self.entries[i].0 == owned {
                assert(self.keys()[i as int] == self.entries@[i as int].0@);
                return Some(i);
            }
            assert(self.keys()[i as int] == self.entries@[i as int].0@);
            i = i + 1;
        }
        None
    }

    /// The value stored under `key`, if any.
    pub fn get(&self, key: &str) -> (r: Option<&String>)
        requires
            self.wf(),
        ensures
            match r {
                Some(v) => self.to_map().contains_key(key@) && v@ == self.to_map()[key@],
                None => !self.to_map().contains_key(key@),
            },
    {
        match self.find(key) {
            Some(i) => {
                proof {
                    self.lemma_index_of(i as int);
                }
                assert(self.values()[i as int] == self.entries@[i as int].1@);
                Some(&self.entries[i].1)
            },
            None => None,
        }
    }

    /// `key` is present.
    pub fn contains_key(&self, key: &str) -> (r: bool)
        requires
            self.wf(),
        ensures
            r == self.to_map().contains_key(key@),
    {
        self.find(key).is_some()
    }

    /// Store `value` under `key`, replacing any earlier value.
    pub fn insert(&mut self, key: String, value: String)
        requires
            old(self).wf(),
        ensures
            final(self).wf(),
            final(self).to_map() == old(self).to_map().insert(key@, value@),
    {
        match self.find(key.as_str()) {
            Some(i) => {
                let ghost old_keys = self.keys();
                let ghost old_vals = self.values();
                let _ = self.entries.remove(i);
                self.entries.insert(i, (key, value));
                proof {
                    assert(self.keys() =~= old_keys);
                    assert(self.values() =~= old_vals.update(i as int, value@));
                    assert forall|k: Seq<char>| self.keys().contains(k) implies
                        self.values()[self.keys().index_of(k)] == old(self).to_map().insert(key@, value@)[k] by {
                        let j = self.keys().index_of(k);
                        self.lemma_index_of(j);
                        if k != key@ {
                            old(self).lemma_index_of(j);
                        }
                    }
                    assert(self.to_map() =~= old(self).to_map().insert(key@, value@));
                }
            },
            None => {
                let ghost old_keys = self.keys();
                let ghost old_vals = self.values();
                let ghost kv = key@;
                let ghost vv = value@;
                self.entries.push((key, value));
                proof {
                    assert(self.keys() =~= old_keys.push(kv));
                    assert(self.values() =~= old_vals.push(vv));
                    let n = old_keys.len() as int;
                    self.lemma_index_of(n);
                    assert forall|k: Seq<char>| self.keys().contains(k) implies
                        self.values()[self.keys().index_of(k)] == old(self).to_map().insert(kv, vv)[k] by {
                        let j = self.keys().index_of(k);
                        self.lemma_index_of(j);
                        if k != kv {
                            assert(j < n);
                            old(self).lemma_index_of(j);
                        }
                    }
                    assert forall|k: Seq<char>| self.keys().contains(k) <==> (old_keys.contains(k) || k == kv) by {
                        if old_keys.contains(k) {
                            let j = old_keys.index_of(k);
                            assert(self.keys()[j] == k);
                        }
                        if k == kv {
                            assert(self.keys()[n] == k);
                        }
                        if self.keys().contains(k) && k != kv {
                            let j = self.keys().index_of(k);
                            assert(old_keys[j] == k);
                        }
                    }
                    assert(self.to_map() =~= old(self).to_map().insert(kv, vv));
                }
            },
        }
    }

    /// A copy with the same keys and values in the same order.
    pub fn duplicate(&self) -> (r: Self)
        ensures
            r.keys() == self.keys(),
            r.values() == self.values(),
            r.to_map() == self.to_map(),
    {
        let mut entries: Vec<(String, String)> = Vec::new();
        let mut i: usize = 0;
        while i < self.entries.len()
            invariant
                0 <= i <= self.entries.len(),
                entries@.len() == i,
                forall|j: int|
                    0 <= j < i ==> (#[trigger] entries@[j]).0@ == self.entries@[j].0@
                        && entries@[j].1@ == self.entries@[j].1@,
            decreases self.entries.len() - i,
        {
            let k = self.entries[i].0.clone();
            let v = self.entries[i].1.clone();
            entries.push((k, v));
            i = i + 1;
        }
        let r = StringMap { entries };
        assert(r.keys() =~= self.keys());
        assert(r.values() =~= self.values());
        assert(r.to_map() =~= self.to_map());
        r
    }

    /// Number of keys.
    pub fn len(&self) -> (r: usize)
        requires
            self.wf(),
        ensures
            r == self.to_map().dom().len(),
    {
        proof {
            self.lemma_dom_len();
        }
        self.entries.len()
    }

    proof fn lemma_dom_len(&self)
        requires
            self.wf(),
        ensures
            self.to_map().dom().len() == self.keys().len(),
            self.keys().len() == self.entries@.len(),
    {
        self.keys().unique_seq_to_set();
        assert(self.to_map().dom() =~= self.keys().to_set());
    }
}

/// The text of a symbol, or `<unknown>` for one that was never interned.
pub open spec fn symbol_text(names: Seq<Seq<char>>, sym: SymbolId) -> Seq<char> {
    if sym.0 < names.len() {
        names[sym.0 as int]
    } else {
        "<unknown>"@
    }
}

/// `a` spells `lit`.
pub fn text_eq(a: &str, lit: &str) -> (b: bool)
    ensures
        b == (a@ == lit@),
{
    let x = a.to_owned();
    let y = lit.to_owned();
    x == y
}

/// The characters of `a`, `b` and `c` in a row.
pub fn concat3(a: &str, b: &str, c: &str) -> (s: String)
    ensures
        s@ == a@ + b@ + c@,
{
    let mut v = chars_of(a);
    let mut w = chars_of(b);
    let mut x = chars_of(c);
    v.append(&mut w);
    v.append(&mut x);
    string_of(&v)
}

/// The digit character for `d`, which is below ten.
pub open spec fn digit_char(d: nat) -> char {
    if d == 0 { '0' } else if d == 1 { '1' } else if d == 2 { '2' } else if d == 3 { '3' }
    else if d == 4 { '4' } else if d == 5 { '5' } else if d == 6 { '6' } else if d == 7 { '7' }
    else if d == 8 { '8' } else { '9' }
}

/// The decimal digits of `n`, most significant first, without leading
/// zeros (`0` is the one digit `0`).
pub open spec fn decimal(n: nat) -> Seq<char>
    decreases n,
{
    if n < 10 {
        seq![digit_char(n)]
    } else {
        decimal(n / 10).push(digit_char(n % 10))
    }
}

/// `n` written in decimal, as `{}` formats it.
pub fn decimal_text(n: usize) -> (s: String)
    ensures
        s@ == decimal(n as nat),
    decreases n,
{
    let mut s = if n < 10 {
        String::new()
    } else {
        decimal_text(n / 10)
    };
    let d = n % 10;
    let c = if d == 0 { '0' } else if d == 1 { '1' } else if d == 2 { '2' } else if d == 3 { '3' }
        else if d == 4 { '4' } else if d == 5 { '5' } else if d == 6 { '6' } else if d == 7 { '7' }
        else if d == 8 { '8' } else { '9' };
    crate::parser::escape::push_char(&mut s, c);
    proof {
        if n < 10 {
            assert(s@ =~= seq![digit_char(n as nat)]);
        }
    }
    s
}

} // verus!
