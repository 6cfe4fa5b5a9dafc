//! The result-wrapper registry: an append-only map from canonical wrapper
//! name to the `(ok, err)` pair it wraps.
//!
//! Wrapper types are discovered while methods are rendered; the registry
//! deduplicates them so that however many methods request the same pair,
//! exactly one wrapper definition is emitted, and under a name that
//! depends on the pair alone — never on discovery order.

use vstd::prelude::*;
use crate::fmt::{spec_result_name, spec_unique_name};
use crate::model::{c_ty_ok, lemma_c_ty_ok_refs, TypeDescriptor, TypeModel};

verus! {

/// One registered wrapper: its canonical name and the sides it carries.
/// An absent side is the void half of the union.
pub struct ResultEntry {
    pub name: String,
    pub ok: Option<TypeDescriptor>,
    pub err: Option<TypeDescriptor>,
}

/// The display name one side of a pair contributes: `void` when absent.
pub open spec fn spec_side_name(m: TypeModel, side: Option<TypeDescriptor>) -> Seq<char> {
    match side {
        Some(t) => spec_unique_name(m, t),
        None => "void"@,
    }
}

/// The canonical wrapper name of an `(ok, err)` pair: a pure function of
/// the pair's display names, independent of any registry state.
pub open spec fn spec_canonical_name(
    m: TypeModel,
    ok: Option<TypeDescriptor>,
    err: Option<TypeDescriptor>,
) -> Seq<char> {
    spec_result_name(spec_side_name(m, ok), spec_side_name(m, err))
}

/// The registry. It only ever grows, and no two entries share a name.
pub struct ResultTypeRegistry {
    pub entries: Vec<ResultEntry>,
}

impl ResultTypeRegistry {
    /// No two entries share a canonical name.
    pub open spec fn wf(&self) -> bool {
        forall|i: int, j: int| 0 <= i < j < self.entries@.len() ==> self.entries@[i].name@
            != self.entries@[j].name@
    }

    pub open spec fn entries_seq(&self) -> Seq<ResultEntry> {
        self.entries@
    }

    pub open spec fn has_name(&self, n: Seq<char>) -> bool {
        exists|i: int| 0 <= i < self.entries@.len() && self.entries@[i].name@ == n
    }

    /// The set of wrapper names registered so far.
    pub open spec fn name_set(&self) -> Set<Seq<char>> {
        self.entries@.map_values(|e: ResultEntry| e.name@).to_set()
    }

    /// Every entry files a renderable pair under its canonical name.
    pub open spec fn entries_ok(&self, m: TypeModel) -> bool {
        forall|i: int| 0 <= i < self.entries@.len() ==> {
            let e = #[trigger] self.entries@[i];
            &&& (e.ok matches Some(t) ==> c_ty_ok(t, m.types@.len() as int))
            &&& (e.err matches Some(t) ==> c_ty_ok(t, m.types@.len() as int))
            &&& e.name@ == spec_canonical_name(m, e.ok, e.err)
        }
    }

    pub fn new() -> (r: ResultTypeRegistry)
        ensures
            r.wf(),
            r.entries_seq() == Seq::<ResultEntry>::empty(),
    {
        ResultTypeRegistry { entries: Vec::new() }
    }

    /// The registered wrappers, in discovery order, for final rendering.
    pub fn entries(&self) -> (r: &Vec<ResultEntry>)
        ensures
            r@ == self.entries_seq(),
    {
        &self.entries
    }

    /// Register the wrapper for `(ok, err)` and return its canonical
    /// name. Idempotent: a pair whose name is already present leaves the
    /// registry unchanged; otherwise exactly one entry is appended. In
    /// either case the name set afterwards is the old set plus this name,
    /// so any discovery order yields the same registered set.
    pub fn get_or_create(
        &mut self,
        m: &TypeModel,
        ok: Option<&TypeDescriptor>,
        err: Option<&TypeDescriptor>,
    ) -> (name: String)
        requires
            old(self).wf(),
            old(self).entries_ok(*m),
            ok matches Some(t) ==> c_ty_ok(*t, m.types@.len() as int),
            err matches Some(t) ==> c_ty_ok(*t, m.types@.len() as int),
        ensures
            final(self).wf(),
            final(self).entries_ok(*m),
            name@ == spec_canonical_name(
                *m,
                match ok {
                    Some(t) => Some(*t),
                    None => None,
                },
                match err {
                    Some(t) => Some(*t),
                    None => None,
                },
            ),
            final(self).has_name(name@),
            final(self).name_set() == old(self).name_set().insert(name@),
            old(self).has_name(name@) ==> final(self).entries_seq() == old(self).entries_seq(),
            !old(self).has_name(name@) ==> {
                &&& final(self).entries_seq().len() == old(self).entries_seq().len() + 1
                &&& final(self).entries_seq().subrange(0, old(self).entries_seq().len() as int)
                    == old(self).entries_seq()
                &&& final(self).entries_seq().last().name@ == name@
                &&& final(self).entries_seq().last().ok == (match ok {
                    Some(t) => Some(*t),
                    None => None,
                })
                &&& final(self).entries_seq().last().err == (match err {
                    Some(t) => Some(*t),
                    None => None,
                })
            },
    {
        let ok_name: String = match ok {
            Some(t) => {
                proof {
                    lemma_c_ty_ok_refs(*t, m.types@.len() as int);
                }
                crate::fmt::fmt_type_name_uniquely(m, t)
            },
            None => "void".to_owned(),
        };
        let err_name: String = match err {
            Some(t) => {
                proof {
                    lemma_c_ty_ok_refs(*t, m.types@.len() as int);
                }
                crate::fmt::fmt_type_name_uniquely(m, t)
            },
            None => "void".to_owned(),
        };
        let name = crate::fmt::fmt_result_name(ok_name.as_str(), err_name.as_str());
        let mut i: usize = 0;
        while i < self.entries.len()
            invariant
                i <= self.entries@.len(),
                forall|k: int| 0 <= k < i ==> (#[trigger] self.entries@[k]).name@ != name@,
                *self == *old(self),
                old(self).wf(),
                old(self).entries_ok(*m),
                name@ == spec_canonical_name(
                    *m,
                    match ok {
                        Some(t) => Some(*t),
                        None => None,
                    },
                    match err {
                        Some(t) => Some(*t),
                        None => None,
                    },
                ),
            decreases self.entries@.len() - i,
        {
            if self.entries[i].name.eq(&name) {
                proof {
                    assert(self.has_name(name@));
                    let ms = self.entries@.map_values(|e: ResultEntry| e.name@);
                    assert(ms[i as int] == name@);
                    assert(ms.contains(name@));
                    assert(self.name_set().contains(name@));
                    assert(self.name_set() =~= old(self).name_set().insert(name@));
                }
                return name;
            }
            i += 1;
        }
        let entry = ResultEntry {
            name: name.clone(),
            ok: match ok {
                Some(t) => Some(t.dup()),
                None => None,
            },
            err: match err {
                Some(t) => Some(t.dup()),
                None => None,
            },
        };
        self.entries.push(entry);
        proof {
            let n = old(self).entries_seq().len() as int;
            assert(self.entries@.subrange(0, n) =~= old(self).entries_seq());
            assert(self.entries@[n].name@ == name@);
            assert(self.has_name(name@));
            let ms_old = old(self).entries@.map_values(|e: ResultEntry| e.name@);
            let ms_new = self.entries@.map_values(|e: ResultEntry| e.name@);
            assert(ms_new =~= ms_old.push(name@));
            assert forall|x: Seq<char>| self.name_set().contains(x) implies old(
                self,
            ).name_set().insert(name@).contains(x) by {
                let k = choose|k: int| 0 <= k < ms_new.len() && ms_new[k] == x;
                if k < n {
                    assert(ms_old[k] == x);
                    assert(ms_old.contains(x));
                } else {
                    assert(x == name@);
                }
            }
            assert forall|x: Seq<char>| old(self).name_set().insert(name@).contains(x) implies
                self.name_set().contains(x) by {
                if x == name@ {
                    assert(ms_new[n] == x);
                    assert(ms_new.contains(x));
                } else {
                    let k = choose|k: int| 0 <= k < ms_old.len() && ms_old[k] == x;
                    assert(ms_new[k] == x);
                    assert(ms_new.contains(x));
                }
            }
            assert(self.name_set() =~= old(self).name_set().insert(name@));
        }
        name
    }
}

/// A well-formed registry holds at most one definition per canonical
/// name: if a name is present, exactly one entry carries it.
pub proof fn lemma_one_definition_per_name(reg: ResultTypeRegistry, n: Seq<char>)
    requires
        reg.wf(),
        reg.has_name(n),
    ensures
        exists|i: int| 0 <= i < reg.entries_seq().len() && reg.entries_seq()[i].name@ == n,
        forall|i: int, j: int|
            (0 <= i < reg.entries_seq().len() && 0 <= j < reg.entries_seq().len()
                && reg.entries_seq()[i].name@ == n && reg.entries_seq()[j].name@ == n) ==> i == j,
{
}

/// Registries that registered the same set of wrapper names — however
/// many methods requested each pair, and in whatever order the pairs
/// were discovered — define exactly the same wrappers: each name of the
/// common set appears in both, exactly once in each.
pub proof fn lemma_registry_order_independent(
    r1: ResultTypeRegistry,
    r2: ResultTypeRegistry,
    n: Seq<char>,
)
    requires
        r1.wf(),
        r2.wf(),
        r1.name_set() == r2.name_set(),
        r1.name_set().contains(n),
    ensures
        r1.has_name(n),
        r2.has_name(n),
        forall|i: int, j: int|
            (0 <= i < r1.entries_seq().len() && 0 <= j < r1.entries_seq().len()
                && r1.entries_seq()[i].name@ == n && r1.entries_seq()[j].name@ == n) ==> i == j,
        forall|i: int, j: int|
            (0 <= i < r2.entries_seq().len() && 0 <= j < r2.entries_seq().len()
                && r2.entries_seq()[i].name@ == n && r2.entries_seq()[j].name@ == n) ==> i == j,
{
    let s1 = r1.entries_seq().map_values(|e: ResultEntry| e.name@);
    let s2 = r2.entries_seq().map_values(|e: ResultEntry| e.name@);
    assert(s1.to_set().contains(n));
    assert(s2.to_set().contains(n));
    assert(s1.contains(n));
    assert(s2.contains(n));
    assert(r1.has_name(n)) by {
        let i = choose|i: int| 0 <= i < s1.len() && s1[i] == n;
        assert(r1.entries_seq()[i].name@ == n);
    }
    assert(r2.has_name(n)) by {
        let i = choose|i: int| 0 <= i < s2.len() && s2[i] == n;
        assert(r2.entries_seq()[i].name@ == n);
    }
}

} // verus!
