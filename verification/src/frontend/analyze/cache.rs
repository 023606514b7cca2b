//! The instantiations of generic functions, keyed by mangled name and kept
//! in name order so that they are emitted deterministically.
use vstd::prelude::*;

use crate::frontend::typed_ast::TypedFunction;

verus! {

/// Character-wise lexicographic order of names (the order of `String`'s `<`).
pub open spec fn name_lt(a: Seq<char>, b: Seq<char>) -> bool
    decreases a.len(),
{
    if a.len() == 0 {
        b.len() > 0
    } else if b.len() == 0 {
        false
    } else if a[0] != b[0] {
        (a[0] as int) < (b[0] as int)
    } else {
        name_lt(a.drop_first(), b.drop_first())
    }
}

/// No name comes before itself.
pub proof fn lemma_name_lt_irreflexive(a: Seq<char>)
    ensures
        !name_lt(a, a),
    decreases a.len(),
{
    if a.len() > 0 {
        lemma_name_lt_irreflexive(a.drop_first());
    }
}

/// Of two different names, one comes first.
pub proof fn lemma_name_lt_total(a: Seq<char>, b: Seq<char>)
    ensures
        a != b ==> name_lt(a, b) || name_lt(b, a),
        !(name_lt(a, b) && name_lt(b, a)),
    decreases a.len(),
{
    if a.len() > 0 && b.len() > 0 {
        lemma_name_lt_total(a.drop_first(), b.drop_first());
        if a[0] == b[0] && a != b {
            assert(a =~= seq![a[0]] + a.drop_first());
            assert(b =~= seq![b[0]] + b.drop_first());
        }
    } else if a.len() == 0 && b.len() == 0 {
        assert(a =~= b);
    }
}

/// The order is transitive.
pub proof fn lemma_name_lt_transitive(a: Seq<char>, b: Seq<char>, c: Seq<char>)
    requires
        name_lt(a, b),
        name_lt(b, c),
    ensures
        name_lt(a, c),
    decreases a.len(),
{
    if a.len() > 0 && b.len() > 0 && c.len() > 0 && a[0] == b[0] && b[0] == c[0] {
        lemma_name_lt_transitive(a.drop_first(), b.drop_first(), c.drop_first());
    }
}

proof fn lemma_name_lt_skip(a: Seq<char>, b: Seq<char>, i: int)
    requires
        0 <= i <= a.len(),
        i <= b.len(),
        a.subrange(0, i) == b.subrange(0, i),
    ensures
        name_lt(a, b) == name_lt(a.subrange(i, a.len() as int), b.subrange(i, b.len() as int)),
    decreases i,
{
    if i > 0 {
        assert(a[0] == a.subrange(0, i)[0]);
        assert(b[0] == b.subrange(0, i)[0]);
        assert(a.drop_first().subrange(0, i - 1) =~= a.subrange(0, i).drop_first());
        assert(b.drop_first().subrange(0, i - 1) =~= b.subrange(0, i).drop_first());
        lemma_name_lt_skip(a.drop_first(), b.drop_first(), i - 1);
        assert(a.drop_first().subrange(i - 1, a.len() - 1) =~= a.subrange(i, a.len() as int));
        assert(b.drop_first().subrange(i - 1, b.len() - 1) =~= b.subrange(i, b.len() as int));
    } else {
        assert(a.subrange(0, a.len() as int) =~= a);
        assert(b.subrange(0, b.len() as int) =~= b);
    }
}

/// `a < b` in the order of names.
pub fn str_lt(a: &str, b: &str) -> (r: bool)
    ensures
        r == name_lt(a@, b@),
{
    let n = a.unicode_len();
    let m = b.unicode_len();
    let mut i: usize = 0;
    while i < n && i < m
        invariant
            n == a@.len(),
            m == b@.len(),
            0 <= i <= n,
            i <= m,
            a@.subrange(0, i as int) == b@.subrange(0, i as int),
        decreases n - i,
    {
        let x = a.get_char(i);
        let y = b.get_char(i);
        if x != y {
            proof {
                lemma_name_lt_skip(a@, b@, i as int);
                let sa = a@.subrange(i as int, n as int);
                let sb = b@.subrange(i as int, m as int);
                assert(sa[0] == x);
                assert(sb[0] == y);
            }
            return (x as u32) < (y as u32);
        }
        proof {
            assert(a@.subrange(0, i + 1) =~= a@.subrange(0, i as int).push(x));
            assert(b@.subrange(0, i + 1) =~= b@.subrange(0, i as int).push(y));
        }
        i = i + 1;
    }
    proof {
        lemma_name_lt_skip(a@, b@, i as int);
    }
    i == n && i < m
}

/// Instantiated generic functions by mangled name, strictly ordered by name.
pub struct GenericCache {
    entries: Vec<(String, TypedFunction)>,
}

impl GenericCache {
    /// How many functions are cached.
    pub closed spec fn size(&self) -> nat {
        self.entries.len() as nat
    }

    /// Names are strictly increasing, so none occurs twice, and each function
    /// is cached under its own name.
    pub closed spec fn wf(&self) -> bool {
        &&& forall|i: int, j: int| 0 <= i < j < self.entries.len() ==> name_lt(#[trigger] self.entries@[i].0@, #[trigger] self.entries@[j].0@)
        &&& forall|i: int| 0 <= i < self.entries.len() ==> (#[trigger] self.entries@[i]).1.name@ == self.entries@[i].0@
    }

    /// Some function is cached under `name`.
    pub closed spec fn has(&self, name: Seq<char>) -> bool {
        exists|i: int| 0 <= i < self.entries.len() && #[trigger] self.entries@[i].0@ == name
    }

    /// `f` is cached under `name`.
    pub closed spec fn holds(&self, name: Seq<char>, f: TypedFunction) -> bool {
        exists|i: int| 0 <= i < self.entries.len() && #[trigger] self.entries@[i].0@ == name && self.entries@[i].1 == f
    }

    /// The cached names, in the order the functions are emitted.
    pub closed spec fn names(&self) -> Seq<Seq<char>> {
        Seq::new(self.entries.len() as nat, |i: int| self.entries@[i].0@)
    }

    /// Names come out strictly increasing.
    pub proof fn lemma_names_sorted(&self)
        requires
            self.wf(),
        ensures
            forall|i: int, j: int| 0 <= i < j < self.names().len() ==> name_lt(#[trigger] self.names()[i], #[trigger] self.names()[j]),
            self.names().len() == self.size(),
    {
    }

    /// A cached function is cached under its name.
    pub proof fn lemma_holds_has(&self, name: Seq<char>, f: TypedFunction)
        requires
            self.holds(name, f),
        ensures
            self.has(name),
    {
        let i = choose|i: int| 0 <= i < self.entries.len() && #[trigger] self.entries@[i].0@ == name && self.entries@[i].1 == f;
        assert(self.entries@[i].0@ == name);
    }

    /// At most one function is cached under a name.
    pub proof fn lemma_holds_unique(&self, name: Seq<char>, f: TypedFunction, g: TypedFunction)
        requires
            self.wf(),
            self.holds(name, f),
            self.holds(name, g),
        ensures
            f == g,
    {
        let i = choose|i: int| 0 <= i < self.entries.len() && #[trigger] self.entries@[i].0@ == name && self.entries@[i].1 == f;
        let j = choose|j: int| 0 <= j < self.entries.len() && #[trigger] self.entries@[j].0@ == name && self.entries@[j].1 == g;
        if i < j {
            assert(name_lt(self.entries@[i].0@, self.entries@[j].0@));
            lemma_name_lt_irreflexive(name);
        } else if j < i {
            assert(name_lt(self.entries@[j].0@, self.entries@[i].0@));
            lemma_name_lt_irreflexive(name);
        }
    }

    pub fn new() -> (c: Self)
        ensures
            c.wf(),
            c.size() == 0,
            forall|n: Seq<char>| !c.has(n),
    {
        GenericCache { entries: Vec::new() }
    }

    /// The function cached under `name`, if any.
    pub fn get(&self, name: &str) -> (r: Option<&TypedFunction>)
        ensures
            match r {
                Some(f) => self.holds(name@, *f),
                None => !self.has(name@),
            },
    {
        let mut i: usize = 0;
        while i < self.entries.len()
            invariant
                0 <= i <= self.entries.len(),
                forall|j: int| 0 <= j < i ==> self.entries@[j].0@ != name@,
            decreases self.entries.len() - i,
        {
            if crate::frontend::typed_ast::str_eq(self.entries[i].0.as_str(), name) {
                proof {
                    assert(self.entries@[i as int].0@ == name@);
                }
                return Some(&self.entries[i].1);
            }
            i = i + 1;
        }
        None
    }

    /// Cache `f` under `name`, replacing an earlier entry of that name.
    pub fn insert(&mut self, name: String, f: TypedFunction)
        requires
            old(self).wf(),
            f.name@ == name@,
        ensures
            final(self).wf(),
            final(self).holds(name@, f),
            forall|n: Seq<char>| n != name@ ==> (#[trigger] final(self).has(n) == old(self).has(n)),
            forall|n: Seq<char>, g: TypedFunction| n != name@ ==> (#[trigger] final(self).holds(n, g) == old(self).holds(n, g)),
    {
        let ghost old_entries = self.entries@;
        let ghost key = name@;
        let mut i: usize = 0;
        while i < self.entries.len() && str_lt(self.entries[i].0.as_str(), name.as_str())
            invariant
                0 <= i <= self.entries.len(),
                self.entries@ == old_entries,
                self.wf(),
                forall|j: int| 0 <= j < i ==> name_lt(#[trigger] self.entries@[j].0@, name@),
            decreases self.entries.len() - i,
        {
            i = i + 1;
        }
        if i < self.entries.len() && crate::frontend::typed_ast::str_eq(self.entries[i].0.as_str(), name.as_str()) {
            let ghost entry = (name, f);
            self.entries.set(i, (name, f));
            proof {
                assert forall|a: int| 0 <= a < self.entries.len() implies (#[trigger] self.entries@[a]).1.name@ == self.entries@[a].0@ by {
                    if a != i {
                        assert(self.entries@[a] == old_entries[a]);
                    }
                }
                assert forall|a: int, b: int| 0 <= a < b < self.entries.len() implies name_lt(
                    #[trigger] self.entries@[a].0@,
                    #[trigger] self.entries@[b].0@,
                ) by {
                    assert(self.entries@[a].0@ == old_entries[a].0@);
                    assert(self.entries@[b].0@ == old_entries[b].0@);
                }
                assert(self.entries@[i as int].0@ == key);
                assert forall|n: Seq<char>, g: TypedFunction| n != key implies (#[trigger] self.holds(n, g) == (GenericCache { entries: self.entries }).holds(n, g)
                    && self.holds(n, g) == holds_in(old_entries, n, g)) by {
                    if holds_in(old_entries, n, g) {
                        let k = choose|k: int| 0 <= k < old_entries.len() && #[trigger] old_entries[k].0@ == n && old_entries[k].1 == g;
                        assert(self.entries@[k] == old_entries[k]);
                    }
                    if self.holds(n, g) {
                        let k = choose|k: int| 0 <= k < self.entries.len() && #[trigger] self.entries@[k].0@ == n && self.entries@[k].1 == g;
                        assert(self.entries@[k] == old_entries[k]);
                    }
                }
                assert forall|n: Seq<char>| n != key implies (#[trigger] self.has(n) == has_in(old_entries, n)) by {
                    if has_in(old_entries, n) {
                        let k = choose|k: int| 0 <= k < old_entries.len() && #[trigger] old_entries[k].0@ == n;
                        assert(self.entries@[k] == old_entries[k]);
                    }
                    if self.has(n) {
                        let k = choose|k: int| 0 <= k < self.entries.len() && #[trigger] self.entries@[k].0@ == n;
                        assert(self.entries@[k] == old_entries[k]);
                    }
                }
            }
        } else {
            proof {
                if i < self.entries.len() {
                    lemma_name_lt_total(self.entries@[i as int].0@, name@);
                }
                assert forall|j: int| i <= j < self.entries.len() implies name_lt(name@, #[trigger] self.entries@[j].0@) by {
                    if j > i {
                        lemma_name_lt_transitive(name@, self.entries@[i as int].0@, self.entries@[j].0@);
                    }
                }
            }
            self.entries.insert(i, (name, f));
            proof {
                assert forall|a: int| 0 <= a < self.entries.len() implies (#[trigger] self.entries@[a]).1.name@ == self.entries@[a].0@ by {
                    if a < i {
                        assert(self.entries@[a] == old_entries[a]);
                    } else if a > i {
                        assert(self.entries@[a] == old_entries[a - 1]);
                    }
                }
                assert forall|a: int, b: int| 0 <= a < b < self.entries.len() implies name_lt(
                    #[trigger] self.entries@[a].0@,
                    #[trigger] self.entries@[b].0@,
                ) by {
                    if a < i && b > i {
                        assert(self.entries@[b].0@ == old_entries[b - 1].0@);
                        lemma_name_lt_transitive(self.entries@[a].0@, key, self.entries@[b].0@);
                    } else if b > i {
                        assert(self.entries@[b].0@ == old_entries[b - 1].0@);
                    }
                }
                assert(self.entries@[i as int].0@ == key);
                assert forall|n: Seq<char>, g: TypedFunction| n != key implies (#[trigger] self.holds(n, g) == holds_in(old_entries, n, g)) by {
                    if holds_in(old_entries, n, g) {
                        let k = choose|k: int| 0 <= k < old_entries.len() && #[trigger] old_entries[k].0@ == n && old_entries[k].1 == g;
                        let nk = if k >= i { k + 1 } else { k };
                        assert(self.entries@[nk] == old_entries[k]);
                    }
                    if self.holds(n, g) {
                        let k = choose|k: int| 0 <= k < self.entries.len() && #[trigger] self.entries@[k].0@ == n && self.entries@[k].1 == g;
                        let ok = if k > i { k - 1 } else { k };
                        assert(self.entries@[k] == old_entries[ok]);
                    }
                }
                assert forall|n: Seq<char>| n != key implies (#[trigger] self.has(n) == has_in(old_entries, n)) by {
                    if has_in(old_entries, n) {
                        let k = choose|k: int| 0 <= k < old_entries.len() && #[trigger] old_entries[k].0@ == n;
                        let nk = if k >= i { k + 1 } else { k };
                        assert(self.entries@[nk] == old_entries[k]);
                    }
                    if self.has(n) {
                        let k = choose|k: int| 0 <= k < self.entries.len() && #[trigger] self.entries@[k].0@ == n;
                        let ok = if k > i { k - 1 } else { k };
                        assert(self.entries@[k] == old_entries[ok]);
                    }
                }
            }
        }
    }

    /// The cached functions, in name order.
    pub fn into_functions(self) -> (r: Vec<TypedFunction>)
        requires
            self.wf(),
        ensures
            r.len() == self.size(),
            forall|i: int| 0 <= i < r.len() ==> self.holds(self.names()[i], #[trigger] r@[i]),
            forall|i: int, j: int| 0 <= i < j < r.len() ==> name_lt(#[trigger] r@[i].name@, #[trigger] r@[j].name@),
    {
        let ghost entries = self.entries@;
        let mut out: Vec<TypedFunction> = Vec::new();
        let mut rest = self.entries;
        proof {
            assert(rest@ =~= entries.subrange(0, entries.len() as int));
        }
        while rest.len() > 0
            invariant
                rest@ =~= entries.subrange(out.len() as int, entries.len() as int),
                out.len() <= entries.len(),
                forall|i: int| 0 <= i < out.len() ==> #[trigger] out@[i] == entries[i].1,
            decreases rest.len(),
        {
            let (_, f) = rest.remove(0);
            out.push(f);
        }
        proof {
            assert forall|i: int| 0 <= i < out.len() implies self.holds(self.names()[i], #[trigger] out@[i]) by {
                assert(self.entries@[i] == entries[i]);
            }
            assert forall|i: int, j: int| 0 <= i < j < out.len() implies name_lt(#[trigger] out@[i].name@, #[trigger] out@[j].name@) by {
                assert(self.entries@[i] == entries[i]);
                assert(self.entries@[j] == entries[j]);
            }
        }
        out
    }
}

pub open spec fn has_in(entries: Seq<(String, TypedFunction)>, name: Seq<char>) -> bool {
    exists|i: int| 0 <= i < entries.len() && #[trigger] entries[i].0@ == name
}

pub open spec fn holds_in(entries: Seq<(String, TypedFunction)>, name: Seq<char>, f: TypedFunction) -> bool {
    exists|i: int| 0 <= i < entries.len() && #[trigger] entries[i].0@ == name && entries[i].1 == f
}

} // verus!
