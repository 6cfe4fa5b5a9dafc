//! The three collaborators every render pass writes into: per-file
//! headers with their dependency edges, the path-to-text output map, and
//! the error collector. The core never touches the file system; callers
//! take the finished map and decide where it goes.

use vstd::prelude::*;

verus! {

/// One header under construction: its path, the headers it depends on
/// (recorded for inclusion by the writer, first reference first, no
/// duplicates), an optional primary declaration dependency, and the body
/// text. Include-guard and inclusion syntax belong to the unverified
/// writer; the core only decides structure and body.
pub struct Header {
    pub path: String,
    pub deps: Vec<String>,
    pub decl_dep: Option<String>,
    pub body: String,
}

impl Header {
    /// The recorded dependency paths, in first-reference order.
    pub open spec fn dep_seq(&self) -> Seq<Seq<char>> {
        self.deps@.map_values(|d: String| d@)
    }

    pub fn new(path: String) -> (r: Header)
        ensures
            r.path@ == path@,
            r.deps@.len() == 0,
            r.decl_dep is None,
            r.body@ == Seq::<char>::empty(),
    {
        Header { path, deps: Vec::new(), decl_dep: None, body: String::new() }
    }

    /// Record a dependency edge, keeping the list duplicate-free: a path
    /// already recorded is not recorded again.
    pub fn add_dep(&mut self, p: String)
        ensures
            final(self).dep_seq() == spec_add_dep(old(self).dep_seq(), p@),
            final(self).path == old(self).path,
            final(self).decl_dep == old(self).decl_dep,
            final(self).body == old(self).body,
    {
        let mut i: usize = 0;
        while i < self.deps.len()
            invariant
                i <= self.deps@.len(),
                forall|k: int| 0 <= k < i ==> (#[trigger] self.deps@[k])@ != p@,
                *self == *old(self),
            decreases self.deps@.len() - i,
        {
            if self.deps[i].eq(&p) {
                proof {
                    let ds = self.deps@.map_values(|d: String| d@);
                    assert(ds[i as int] == p@);
                    assert(ds.contains(p@));
                }
                return ;
            }
            i += 1;
        }
        proof {
            let ds_old = old(self).deps@.map_values(|d: String| d@);
            assert forall|k: int| 0 <= k < ds_old.len() implies ds_old[k] != p@ by {
                assert(old(self).deps@[k]@ != p@);
            }
            assert(!ds_old.contains(p@));
        }
        self.deps.push(p);
        proof {
            assert(self.deps@.map_values(|d: String| d@) =~= old(self).deps@.map_values(
                |d: String| d@,
            ).push(p@));
        }
    }

    /// Drop a dependency edge: a header never depends on itself, so the
    /// self edges a single-pass walk records are pruned afterwards.
    pub fn remove_dep(&mut self, p: &str)
        ensures
            final(self).dep_seq() == old(self).dep_seq().filter(|d: Seq<char>| d != p@),
            final(self).path == old(self).path,
            final(self).decl_dep == old(self).decl_dep,
            final(self).body == old(self).body,
    {
        let pw = p.to_owned();
        let mut kept: Vec<String> = Vec::new();
        let mut i: usize = 0;
        while i < self.deps.len()
            invariant
                i <= self.deps@.len(),
                *self == *old(self),
                pw@ == p@,
                kept@.map_values(|d: String| d@) == old(self).deps@.subrange(
                    0,
                    i as int,
                ).map_values(|d: String| d@).filter(|d: Seq<char>| d != p@),
            decreases self.deps@.len() - i,
        {
            let ghost prefix = old(self).deps@.subrange(0, i as int).map_values(|d: String| d@);
            let keep = !self.deps[i].eq(&pw);
            if keep {
                let ghost kv = kept@;
                kept.push(self.deps[i].clone());
                proof {
                    assert(kept@.map_values(|d: String| d@) =~= kv.map_values(|d: String| d@).push(
                        old(self).deps@[i as int]@,
                    ));
                }
            }
            proof {
                let next = old(self).deps@.subrange(0, i as int + 1).map_values(|d: String| d@);
                assert(next =~= prefix.push(old(self).deps@[i as int]@));
                lemma_filter_push(prefix, |d: Seq<char>| d != p@, old(self).deps@[i as int]@);
            }
            i += 1;
        }
        proof {
            assert(old(self).deps@.subrange(0, old(self).deps@.len() as int) =~= old(self).deps@);
        }
        self.deps = kept;
    }

    /// Append text to the body.
    pub fn emit(&mut self, s: &str)
        ensures
            final(self).body@ == old(self).body@ + s@,
            final(self).path == old(self).path,
            final(self).deps == old(self).deps,
            final(self).decl_dep == old(self).decl_dep,
    {
        self.body.append(s);
    }
}

/// One dependency edge folded in: recorded only if not yet present.
pub open spec fn spec_add_dep(l: Seq<Seq<char>>, p: Seq<char>) -> Seq<Seq<char>> {
    if l.contains(p) {
        l
    } else {
        l.push(p)
    }
}

/// A list of dependency edges folded in, left to right.
pub open spec fn spec_add_deps(l: Seq<Seq<char>>, ps: Seq<Seq<char>>) -> Seq<Seq<char>>
    decreases ps.len(),
{
    if ps.len() == 0 {
        l
    } else {
        spec_add_deps(spec_add_dep(l, ps[0]), ps.drop_first())
    }
}

/// Folding two edge lists one after the other folds their
/// concatenation.
pub proof fn lemma_add_deps_concat(l: Seq<Seq<char>>, a: Seq<Seq<char>>, b: Seq<Seq<char>>)
    ensures
        spec_add_deps(spec_add_deps(l, a), b) == spec_add_deps(l, a + b),
    decreases a.len(),
{
    if a.len() == 0 {
        assert(a + b =~= b);
    } else {
        lemma_add_deps_concat(spec_add_dep(l, a[0]), a.drop_first(), b);
        assert(a.drop_first() + b =~= (a + b).drop_first());
        assert((a + b)[0] == a[0]);
    }
}

/// Folding a single edge is one insertion.
pub proof fn lemma_add_deps_singleton(l: Seq<Seq<char>>, p: Seq<char>)
    ensures
        spec_add_deps(l, seq![p]) == spec_add_dep(l, p),
{
    assert(seq![p][0] == p);
    assert(seq![p].drop_first() =~= Seq::<Seq<char>>::empty());
    assert(spec_add_deps(spec_add_dep(l, p), seq![p].drop_first()) == spec_add_dep(l, p));
}

/// One dependency edge as a line of the finished file. The writer that
/// owns target syntax turns these markers into real inclusion
/// directives; the core only fixes the set and order of edges.
pub open spec fn spec_dep_line(p: Seq<char>) -> Seq<char> {
    "/* uses "@ + p + " */\n"@
}

pub open spec fn spec_dep_lines(deps: Seq<Seq<char>>) -> Seq<char>
    decreases deps.len(),
{
    if deps.len() == 0 {
        Seq::empty()
    } else {
        spec_dep_lines(deps.drop_last()) + spec_dep_line(deps.last())
    }
}

/// The finished text of a header: the primary-declaration edge, the
/// dependency edges, then the body.
pub open spec fn spec_header_render(
    decl_dep: Option<Seq<char>>,
    deps: Seq<Seq<char>>,
    body: Seq<char>,
) -> Seq<char> {
    (match decl_dep {
        Some(p) => "/* completes "@ + p + " */\n"@,
        None => Seq::<char>::empty(),
    }) + spec_dep_lines(deps) + body
}

impl Header {
    /// Render the finished file text.
    pub fn render(&self) -> (r: String)
        ensures
            r@ == spec_header_render(
                match self.decl_dep {
                    Some(ref p) => Some(p@),
                    None => None,
                },
                self.dep_seq(),
                self.body@,
            ),
    {
        let mut s = String::new();
        match &self.decl_dep {
            Some(p) => {
                s.append("/* completes ");
                s.append(p.as_str());
                s.append(" */\n");
            },
            None => {},
        }
        let ghost head = s@;
        let mut i: usize = 0;
        while i < self.deps.len()
            invariant
                i <= self.deps@.len(),
                s@ == head + spec_dep_lines(self.dep_seq().take(i as int)),
            decreases self.deps@.len() - i,
        {
            s.append("/* uses ");
            s.append(self.deps[i].as_str());
            s.append(" */\n");
            proof {
                assert(self.dep_seq().take(i as int + 1).drop_last() =~= self.dep_seq().take(
                    i as int,
                ));
                assert(self.dep_seq().take(i as int + 1).last() == self.dep_seq()[i as int]);
            }
            i += 1;
        }
        proof {
            assert(self.dep_seq().take(self.dep_seq().len() as int) =~= self.dep_seq());
        }
        s.append(self.body.as_str());
        proof {
            assert(s@ =~= spec_header_render(
                match self.decl_dep {
                    Some(ref p) => Some(p@),
                    None => None,
                },
                self.dep_seq(),
                self.body@,
            ));
        }
        s
    }
}

/// Filtering distributes over appending one element.
pub proof fn lemma_filter_push<A>(s: Seq<A>, pred: spec_fn(A) -> bool, x: A)
    ensures
        s.push(x).filter(pred) == if pred(x) {
            s.filter(pred).push(x)
        } else {
            s.filter(pred)
        },
{
    assert(s.push(x).drop_last() =~= s);
    reveal(Seq::filter);
}

/// The finished output: a map from file path to file text. The core
/// hands this whole map to the caller; nothing here touches a file
/// system.
pub struct FileMap {
    pub files: Vec<(String, String)>,
}

/// The entries as a path-to-text map, later entries winning.
pub open spec fn files_as_map(s: Seq<(String, String)>) -> Map<Seq<char>, Seq<char>>
    decreases s.len(),
{
    if s.len() == 0 {
        Map::empty()
    } else {
        files_as_map(s.drop_last()).insert(s.last().0@, s.last().1@)
    }
}

impl FileMap {
    /// Paths never repeat.
    pub open spec fn wf(&self) -> bool {
        forall|i: int, j: int| 0 <= i < j < self.files@.len() ==> self.files@[i].0@
            != self.files@[j].0@
    }

    pub open spec fn as_map(&self) -> Map<Seq<char>, Seq<char>> {
        files_as_map(self.files@)
    }

    pub open spec fn has_path(&self, p: Seq<char>) -> bool {
        exists|i: int| 0 <= i < self.files@.len() && self.files@[i].0@ == p
    }

    pub fn new() -> (r: FileMap)
        ensures
            r.wf(),
            r.files@.len() == 0,
            r.as_map() == Map::<Seq<char>, Seq<char>>::empty(),
    {
        FileMap { files: Vec::new() }
    }

    /// Add one finished file, replacing any earlier text under the same
    /// path.
    pub fn add_file(&mut self, path: String, content: String)
        requires
            old(self).wf(),
        ensures
            final(self).wf(),
            final(self).as_map() == old(self).as_map().insert(path@, content@),
            final(self).has_path(path@),
    {
        let mut i: usize = 0;
        while i < self.files.len()
            invariant
                i <= self.files@.len(),
                forall|k: int| 0 <= k < i ==> (#[trigger] self.files@[k]).0@ != path@,
                *self == *old(self),
                old(self).wf(),
            decreases self.files@.len() - i,
        {
            if self.files[i].0.eq(&path) {
                let ghost pre = self.files@;
                self.files.set(i, (path, content));
                proof {
                    lemma_files_update(pre, i as int, self.files@[i as int]);
                    assert(self.has_path(self.files@[i as int].0@));
                }
                return ;
            }
            i += 1;
        }
        let ghost pre = self.files@;
        self.files.push((path, content));
        proof {
            assert(self.files@.drop_last() =~= pre);
            assert(self.has_path(self.files@.last().0@));
        }
    }

    /// Read one finished file back.
    pub fn get_file(&self, path: &str) -> (r: Option<&String>)
        requires
            self.wf(),
        ensures
            match r {
                Some(c) => self.as_map().contains_key(path@) && self.as_map()[path@] == c@,
                None => !self.as_map().contains_key(path@),
            },
    {
        let pw = path.to_owned();
        let mut i: usize = 0;
        while i < self.files.len()
            invariant
                self.wf(),
                i <= self.files@.len(),
                pw@ == path@,
                forall|k: int| 0 <= k < i ==> (#[trigger] self.files@[k]).0@ != path@,
            decreases self.files@.len() - i,
        {
            if self.files[i].0.eq(&pw) {
                proof {
                    lemma_files_lookup(self.files@, i as int);
                }
                return Some(&self.files[i].1);
            }
            i += 1;
        }
        proof {
            lemma_files_absent(self.files@, path@);
        }
        None
    }
}

/// Updating the entry that holds a key acts as a map insert of that key.
proof fn lemma_files_update(s: Seq<(String, String)>, i: int, e: (String, String))
    requires
        0 <= i < s.len(),
        forall|a: int, b: int| 0 <= a < b < s.len() ==> s[a].0@ != s[b].0@,
        s[i].0@ == e.0@,
    ensures
        files_as_map(s.update(i, e)) == files_as_map(s).insert(e.0@, e.1@),
    decreases s.len(),
{
    if i == s.len() - 1 {
        assert(s.update(i, e).drop_last() =~= s.drop_last());
        assert(s.update(i, e).last() == e);
    } else {
        assert(s.update(i, e).drop_last() =~= s.drop_last().update(i, e));
        lemma_files_update(s.drop_last(), i, e);
        assert(s.update(i, e).last() == s.last());
        assert(files_as_map(s.update(i, e)) =~= files_as_map(s).insert(e.0@, e.1@)) by {
            assert(files_as_map(s.update(i, e)) == files_as_map(s.drop_last().update(i, e)).insert(
                s.last().0@,
                s.last().1@,
            ));
            assert(s.last().0@ != e.0@);
        }
    }
}

/// With unique paths, the entry holding a key gives the map's value.
proof fn lemma_files_lookup(s: Seq<(String, String)>, i: int)
    requires
        0 <= i < s.len(),
        forall|a: int, b: int| 0 <= a < b < s.len() ==> s[a].0@ != s[b].0@,
    ensures
        files_as_map(s).contains_key(s[i].0@),
        files_as_map(s)[s[i].0@] == s[i].1@,
    decreases s.len(),
{
    if i == s.len() - 1 {
    } else {
        lemma_files_lookup(s.drop_last(), i);
        assert(s.drop_last()[i] == s[i]);
        assert(s.last().0@ != s[i].0@);
    }
}

/// A key no entry holds is not in the map.
proof fn lemma_files_absent(s: Seq<(String, String)>, p: Seq<char>)
    requires
        forall|k: int| 0 <= k < s.len() ==> (#[trigger] s[k]).0@ != p,
    ensures
        !files_as_map(s).contains_key(p),
    decreases s.len(),
{
    if s.len() > 0 {
        lemma_files_absent(s.drop_last(), p);
    }
}

/// The error collector: non-fatal findings, each tagged with the type
/// and method that were being rendered when it was recorded. A run that
/// collected at least one entry still produces its whole output, but the
/// caller must report overall failure.
pub struct ErrorStore {
    pub ctx_ty: String,
    pub ctx_method: String,
    pub errors: Vec<(String, String, String)>,
}

impl ErrorStore {
    pub fn new() -> (r: ErrorStore)
        ensures
            r.errors@.len() == 0,
            r.ctx_ty@ == Seq::<char>::empty(),
            r.ctx_method@ == Seq::<char>::empty(),
    {
        ErrorStore { ctx_ty: String::new(), ctx_method: String::new(), errors: Vec::new() }
    }

    /// Enter a type's rendering: the method context starts clear.
    pub fn set_context_ty(&mut self, t: String)
        ensures
            final(self).ctx_ty@ == t@,
            final(self).ctx_method@ == Seq::<char>::empty(),
            final(self).errors == old(self).errors,
    {
        self.ctx_ty = t;
        self.ctx_method = String::new();
    }

    /// Enter a method's rendering within the current type.
    pub fn set_context_method(&mut self, t: String, m: String)
        ensures
            final(self).ctx_ty@ == t@,
            final(self).ctx_method@ == m@,
            final(self).errors == old(self).errors,
    {
        self.ctx_ty = t;
        self.ctx_method = m;
    }

    /// Record one non-fatal finding under the active context.
    pub fn push_error(&mut self, msg: String)
        ensures
            final(self).errors@ == old(self).errors@.push(
                (old(self).ctx_ty, old(self).ctx_method, msg),
            ),
            final(self).ctx_ty == old(self).ctx_ty,
            final(self).ctx_method == old(self).ctx_method,
    {
        let t = self.ctx_ty.clone();
        let m = self.ctx_method.clone();
        self.errors.push((t, m, msg));
    }

    /// Whether the run must be reported as failed.
    pub fn is_empty(&self) -> (r: bool)
        ensures
            r == (self.errors@.len() == 0),
    {
        self.errors.len() == 0
    }
}

} // verus!
