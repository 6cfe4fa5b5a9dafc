//! Attribute handling for the producer side: which marker attributes a
//! declared item carries, which are consumed here, which pass through,
//! and which combinations are a fatal structural error that aborts the
//! whole generation run.

use vstd::prelude::*;

verus! {

/// One attribute as a path of segments, already split by the front
/// end.
pub struct AttrTag {
    pub segments: Vec<String>,
}

/// The marker attributes extracted from one item.
pub struct AttributeInfo {
    pub repr: bool,
    pub opaque: bool,
    pub is_out: bool,
}

pub open spec fn seg_views(a: AttrTag) -> Seq<Seq<char>> {
    a.segments@.map_values(|s: String| s@)
}

pub open spec fn spec_is_repr(a: AttrTag) -> bool {
    seg_views(a).len() >= 1 && seg_views(a)[0] == "repr"@
}

pub open spec fn spec_is_diplomat(a: AttrTag) -> bool {
    seg_views(a).len() >= 1 && seg_views(a)[0] == "diplomat"@
}

/// The fatal finding one attribute causes, if any: an unsupported
/// marker name, or a marker path that is not exactly two segments.
pub open spec fn spec_attr_err(a: AttrTag) -> Option<Seq<char>> {
    if !spec_is_diplomat(a) {
        None
    } else if seg_views(a).len() != 2 {
        Some("marker attributes have a single-segment path name"@)
    } else {
        let sub = seg_views(a)[1];
        if sub == "opaque"@ || sub == "out"@ || sub == "rust_link"@ || sub == "attr"@ || sub
            == "skip_if_ast"@ || sub == "abi_rename"@ || sub == "enum_convert"@ || sub
            == "transparent_convert"@ {
            None
        } else {
            Some("only the opaque, out, linking and conversion markers are supported"@)
        }
    }
}

pub open spec fn spec_first_err(attrs: Seq<AttrTag>) -> Option<Seq<char>>
    decreases attrs.len(),
{
    if attrs.len() == 0 {
        None
    } else {
        match spec_attr_err(attrs[0]) {
            Some(e) => Some(e),
            None => spec_first_err(attrs.drop_first()),
        }
    }
}

/// Whether one attribute stays on the item: the extracted markers and
/// the markers other passes read are consumed; everything else passes
/// through.
pub open spec fn spec_attr_retained(a: AttrTag) -> bool {
    if !spec_is_diplomat(a) {
        true
    } else {
        let sub = seg_views(a)[1];
        sub == "enum_convert"@ || sub == "transparent_convert"@
    }
}

/// The attributes that stay on the item, in order.
pub open spec fn spec_retained_of(attrs: Seq<AttrTag>) -> Seq<AttrTag> {
    attrs.filter(|a: AttrTag| spec_attr_retained(a))
}

pub proof fn lemma_retained_push(s: Seq<AttrTag>, x: AttrTag)
    ensures
        spec_retained_of(s.push(x)) == if spec_attr_retained(x) {
            spec_retained_of(s).push(x)
        } else {
            spec_retained_of(s)
        },
{
    reveal(Seq::filter);
    assert(s.push(x).drop_last() =~= s);
}

pub open spec fn spec_has_marker(attrs: Seq<AttrTag>, sub: Seq<char>) -> bool {
    exists|i: int|
        0 <= i < attrs.len() && spec_is_diplomat(#[trigger] attrs[i]) && seg_views(attrs[i]).len()
            == 2 && seg_views(attrs[i])[1] == sub
}

pub open spec fn spec_has_repr(attrs: Seq<AttrTag>) -> bool {
    exists|i: int| 0 <= i < attrs.len() && spec_is_repr(#[trigger] attrs[i])
}

impl AttributeInfo {
    /// Read the marker attributes off one item: `repr` is detected and
    /// kept, the opaque and out markers are extracted and consumed, the
    /// markers other passes read are consumed or kept as those passes
    /// need them, and an unsupported marker is a fatal structural error
    /// that aborts the run.
    pub fn extract(attrs: &Vec<AttrTag>) -> (r: Result<(AttributeInfo, Vec<AttrTag>), String>)
        ensures
            match r {
                Result::Err(e) => spec_first_err(attrs@) == Some(e@),
                Result::Ok((info, kept)) => {
                    &&& spec_first_err(attrs@) is None
                    &&& info.repr == spec_has_repr(attrs@)
                    &&& info.opaque == spec_has_marker(attrs@, "opaque"@)
                    &&& info.is_out == spec_has_marker(attrs@, "out"@)
                    &&& kept@.map_values(|a: AttrTag| seg_views(a)) == spec_retained_of(
                        attrs@,
                    ).map_values(|a: AttrTag| seg_views(a))
                },
            },
    {
        let mut repr = false;
        let mut opaque = false;
        let mut is_out = false;
        let mut kept: Vec<AttrTag> = Vec::new();
        let mut i: usize = 0;
        while i < attrs.len()
            invariant
                i <= attrs@.len(),
                spec_first_err(attrs@.take(i as int)) is None,
                repr == spec_has_repr(attrs@.take(i as int)),
                opaque == spec_has_marker(attrs@.take(i as int), "opaque"@),
                is_out == spec_has_marker(attrs@.take(i as int), "out"@),
                kept@.map_values(|a: AttrTag| seg_views(a)) == spec_retained_of(
                    attrs@.take(i as int),
                ).map_values(|a: AttrTag| seg_views(a)),
            decreases attrs@.len() - i,
        {
            let a = &attrs[i];
            let ghost pre = attrs@.take(i as int);
            let is_repr: bool = a.segments.len() >= 1 && str_eq_lit(&a.segments[0], "repr");
            let is_dip: bool = a.segments.len() >= 1 && str_eq_lit(&a.segments[0], "diplomat");
            proof {
                reveal_strlit("repr");
                reveal_strlit("diplomat");
                reveal_strlit("opaque");
                reveal_strlit("out");
                reveal_strlit("rust_link");
                reveal_strlit("attr");
                reveal_strlit("skip_if_ast");
                reveal_strlit("abi_rename");
                reveal_strlit("enum_convert");
                reveal_strlit("transparent_convert");
                assert("repr"@.len() == 4);
                assert("diplomat"@.len() == 8);
                assert("repr"@ != "diplomat"@);
                assert("opaque"@.len() == 6);
                assert("out"@.len() == 3);
                assert("rust_link"@.len() == 9);
                assert("attr"@.len() == 4);
                assert("skip_if_ast"@.len() == 11);
                assert("abi_rename"@.len() == 10);
                assert("enum_convert"@.len() == 12);
                assert("transparent_convert"@.len() == 19);
                if a.segments@.len() >= 1 {
                    assert(seg_views(attrs@[i as int])[0] == a.segments@[0]@);
                }
                if a.segments@.len() >= 2 {
                    assert(seg_views(attrs@[i as int])[1] == a.segments@[1]@);
                }
                assert(seg_views(attrs@[i as int]).len() == a.segments@.len());
                assert(is_repr == spec_is_repr(attrs@[i as int]));
                assert(is_dip == spec_is_diplomat(attrs@[i as int]));
            }
            let mut keep_it = true;
            if is_repr {
                repr = true;
            } else if is_dip {
                if a.segments.len() != 2 {
                    proof {
                        assert(spec_attr_err(attrs@[i as int])
                            == Some("marker attributes have a single-segment path name"@));
                        lemma_first_err_at(attrs@, i as int);
                    }
                    return Result::Err(
                        "marker attributes have a single-segment path name".to_owned(),
                    );
                }
                let sub = &a.segments[1];
                if str_eq_lit(sub, "opaque") {
                    opaque = true;
                    keep_it = false;
                } else if str_eq_lit(sub, "out") {
                    is_out = true;
                    keep_it = false;
                } else if str_eq_lit(sub, "rust_link") || str_eq_lit(sub, "attr") || str_eq_lit(
                    sub,
                    "skip_if_ast",
                ) || str_eq_lit(sub, "abi_rename") {
                    keep_it = false;
                } else if str_eq_lit(sub, "enum_convert") || str_eq_lit(
                    sub,
                    "transparent_convert",
                ) {
                    keep_it = true;
                } else {
                    proof {
                        assert(spec_attr_err(attrs@[i as int]) == Some(
                            "only the opaque, out, linking and conversion markers are supported"@,
                        ));
                        lemma_first_err_at(attrs@, i as int);
                    }
                    return Result::Err(
                        "only the opaque, out, linking and conversion markers are supported".to_owned(),
                    );
                }
            }
            proof {
                assert(keep_it == spec_attr_retained(attrs@[i as int]));
                assert(spec_attr_err(attrs@[i as int]) is None);
            }
            if keep_it {
                let mut segs: Vec<String> = Vec::new();
                let mut k: usize = 0;
                while k < a.segments.len()
                    invariant
                        k <= a.segments@.len(),
                        segs@.len() == k,
                        forall|k2: int| 0 <= k2 < k ==> (#[trigger] segs@[k2])@
                            == a.segments@[k2]@,
                    decreases a.segments@.len() - k,
                {
                    segs.push(a.segments[k].clone());
                    k += 1;
                }
                let ghost kept_pre = kept@;
                kept.push(AttrTag { segments: segs });
                proof {
                    assert(seg_views(kept@.last()) =~= seg_views(attrs@[i as int]));
                    assert(kept@.map_values(|x: AttrTag| seg_views(x)) =~= kept_pre.map_values(
                        |x: AttrTag| seg_views(x),
                    ).push(seg_views(attrs@[i as int])));
                }
            }
            proof {
                let nxt = attrs@.take(i as int + 1);
                assert(nxt =~= pre.push(attrs@[i as int]));
                lemma_first_err_push(pre, attrs@[i as int]);
                lemma_retained_push(pre, attrs@[i as int]);
                lemma_marker_push(pre, attrs@[i as int], "opaque"@);
                lemma_marker_push(pre, attrs@[i as int], "out"@);
                lemma_repr_push(pre, attrs@[i as int]);
                assert(kept@.map_values(|x: AttrTag| seg_views(x)) =~= spec_retained_of(
                    nxt,
                ).map_values(|x: AttrTag| seg_views(x)));
            }
            i += 1;
        }
        proof {
            assert(attrs@.take(attrs@.len() as int) =~= attrs@);
        }
        Result::Ok((AttributeInfo { repr, opaque, is_out }, kept))
    }
}

/// Whether a string equals a literal.
pub fn str_eq_lit(s: &String, lit: &str) -> (r: bool)
    ensures
        r == (s@ == lit@),
{
    s.eq(&lit.to_owned())
}

proof fn lemma_first_err_at(s: Seq<AttrTag>, i: int)
    requires
        0 <= i < s.len(),
        spec_first_err(s.take(i)) is None,
        spec_attr_err(s[i]) is Some,
    ensures
        spec_first_err(s) == spec_attr_err(s[i]),
    decreases i,
{
    if i == 0 {
        assert(spec_first_err(s) == spec_attr_err(s[0]));
    } else {
        assert(s.take(i)[0] == s[0]);
        assert(spec_attr_err(s[0]) is None);
        assert(s.take(i).drop_first() =~= s.drop_first().take(i - 1));
        lemma_first_err_at(s.drop_first(), i - 1);
        assert(s.drop_first()[i - 1] == s[i]);
        assert(spec_first_err(s) == spec_first_err(s.drop_first()));
    }
}

proof fn lemma_first_err_push(s: Seq<AttrTag>, x: AttrTag)
    requires
        spec_first_err(s) is None,
    ensures
        spec_first_err(s.push(x)) == spec_attr_err(x),
    decreases s.len(),
{
    if s.len() == 0 {
        assert(s.push(x).len() == 1);
        assert(s.push(x)[0] == x);
        assert(s.push(x).drop_first() =~= Seq::<AttrTag>::empty());
        match spec_attr_err(x) {
            Some(e) => {
                assert(spec_first_err(s.push(x)) == Some(e));
            },
            None => {
                assert(spec_first_err(s.push(x)) == spec_first_err(s.push(x).drop_first()));
                assert(spec_first_err(Seq::<AttrTag>::empty()) is None);
            },
        }
    } else {
        assert(s.push(x)[0] == s[0]);
        assert(spec_attr_err(s[0]) is None);
        assert(s.push(x).drop_first() =~= s.drop_first().push(x));
        assert(spec_first_err(s.drop_first()) is None);
        lemma_first_err_push(s.drop_first(), x);
        assert(spec_first_err(s.push(x)) == spec_first_err(s.drop_first().push(x)));
    }
}

proof fn lemma_marker_push(s: Seq<AttrTag>, x: AttrTag, sub: Seq<char>)
    ensures
        spec_has_marker(s.push(x), sub) == (spec_has_marker(s, sub) || (spec_is_diplomat(x)
            && seg_views(x).len() == 2 && seg_views(x)[1] == sub)),
{
    if spec_has_marker(s.push(x), sub) {
        let i = choose|i: int|
            0 <= i < s.push(x).len() && spec_is_diplomat(#[trigger] s.push(x)[i]) && seg_views(
                s.push(x)[i],
            ).len() == 2 && seg_views(s.push(x)[i])[1] == sub;
        if i < s.len() {
            assert(s[i] == s.push(x)[i]);
            assert(spec_has_marker(s, sub));
        } else {
            assert(s.push(x)[i] == x);
        }
    }
    if spec_has_marker(s, sub) {
        let i = choose|i: int|
            0 <= i < s.len() && spec_is_diplomat(#[trigger] s[i]) && seg_views(s[i]).len() == 2
                && seg_views(s[i])[1] == sub;
        assert(s.push(x)[i] == s[i]);
        assert(spec_has_marker(s.push(x), sub));
    }
    if spec_is_diplomat(x) && seg_views(x).len() == 2 && seg_views(x)[1] == sub {
        assert(s.push(x)[s.len() as int] == x);
        assert(spec_has_marker(s.push(x), sub));
    }
}

proof fn lemma_repr_push(s: Seq<AttrTag>, x: AttrTag)
    ensures
        spec_has_repr(s.push(x)) == (spec_has_repr(s) || spec_is_repr(x)),
{
    if spec_has_repr(s.push(x)) {
        let i = choose|i: int| 0 <= i < s.push(x).len() && spec_is_repr(#[trigger] s.push(x)[i]);
        if i < s.len() {
            assert(s[i] == s.push(x)[i]);
            assert(spec_has_repr(s));
        } else {
            assert(s.push(x)[i] == x);
        }
    }
    if spec_has_repr(s) {
        let i = choose|i: int| 0 <= i < s.len() && spec_is_repr(#[trigger] s[i]);
        assert(s.push(x)[i] == s[i]);
        assert(spec_has_repr(s.push(x)));
    }
    if spec_is_repr(x) {
        assert(s.push(x)[s.len() as int] == x);
        assert(spec_has_repr(s.push(x)));
    }
}

/// Where a marker was found while the host items are decorated.
#[derive(Clone, Copy, PartialEq, Eq, Structural, Debug)]
pub enum HostItemKind {
    StructItem,
    EnumItem,
    EnumVariantItem,
    MethodItem,
}

/// What the producer side adds to one host item so it is safe to hand
/// across the boundary.
#[derive(Clone, Copy, PartialEq, Eq, Structural, Debug)]
pub struct Decoration {
    /// Pin the layout: added to every non-opaque struct without an
    /// explicit layout attribute, and to every enum.
    pub add_repr_c: bool,
    /// Make plain data freely copyable: nothing stops the foreign side
    /// from copying a by-value struct, so it must be; out-only structs
    /// are exempt.
    pub add_value_derives: bool,
}

/// The decoration a host item gets, or the fatal finding it causes:
/// the opaque marker is only legal on structs.
pub open spec fn spec_decoration(kind: HostItemKind, info: AttributeInfo) -> Result<
    Decoration,
    Seq<char>,
> {
    match kind {
        HostItemKind::StructItem => if info.opaque {
            Ok(Decoration { add_repr_c: false, add_value_derives: false })
        } else {
            Ok(
                Decoration {
                    add_repr_c: !info.repr,
                    add_value_derives: !info.is_out,
                },
            )
        },
        HostItemKind::EnumItem => if info.opaque {
            Err("the opaque marker is not allowed on enums"@)
        } else {
            Ok(Decoration { add_repr_c: true, add_value_derives: true })
        },
        HostItemKind::EnumVariantItem => if info.opaque {
            Err("the opaque marker is not allowed on enum variants"@)
        } else {
            Ok(Decoration { add_repr_c: false, add_value_derives: false })
        },
        HostItemKind::MethodItem => if info.opaque {
            Err("the opaque marker is not allowed on methods"@)
        } else {
            Ok(Decoration { add_repr_c: false, add_value_derives: false })
        },
    }
}

/// Decide how one host item is decorated: opaque structs pass through
/// untouched, other structs get a pinned layout and — unless marked
/// out-only — value derives, enums always get both, and an opaque
/// marker anywhere else aborts the run.
pub fn decide_decoration(kind: HostItemKind, info: &AttributeInfo) -> (r: Result<
    Decoration,
    String,
>)
    ensures
        match r {
            Result::Ok(d) => spec_decoration(kind, *info) == Ok::<Decoration, Seq<char>>(d),
            Result::Err(e) => spec_decoration(kind, *info) == Err::<Decoration, Seq<char>>(e@),
        },
{
    match kind {
        HostItemKind::StructItem => {
            if info.opaque {
                Result::Ok(Decoration { add_repr_c: false, add_value_derives: false })
            } else {
                Result::Ok(
                    Decoration {
                        add_repr_c: !info.repr,
                        add_value_derives: !info.is_out,
                    },
                )
            }
        },
        HostItemKind::EnumItem => {
            if info.opaque {
                Result::Err("the opaque marker is not allowed on enums".to_owned())
            } else {
                Result::Ok(Decoration { add_repr_c: true, add_value_derives: true })
            }
        },
        HostItemKind::EnumVariantItem => {
            if info.opaque {
                Result::Err("the opaque marker is not allowed on enum variants".to_owned())
            } else {
                Result::Ok(Decoration { add_repr_c: false, add_value_derives: false })
            }
        },
        HostItemKind::MethodItem => {
            if info.opaque {
                Result::Err("the opaque marker is not allowed on methods".to_owned())
            } else {
                Result::Ok(Decoration { add_repr_c: false, add_value_derives: false })
            }
        },
    }
}

} // verus!
