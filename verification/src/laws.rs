//! The guarantees the transformer gives, stated and proved over the
//! specification-level parser and emitters.

use vstd::prelude::*;

use crate::class::{
    is_virtual, snake_of, spec_build_extend, spec_build_fns, spec_build_impl, spec_build_struct,
    spec_build_trait, spec_class_output, spec_delegation, spec_self_impl, spec_trait_deps,
    spec_trait_name,
};
use crate::classinfo::{ClassInfoV, FnDeclV, NamedFnsV, unique_names};
use crate::parse::{
    MembersV, ParseError, spec_empty_members, spec_find_from, spec_lookup_fns, spec_merge_entry,
    spec_parse_class, spec_parse_extend, spec_parse_field, spec_parse_fn_decl, spec_parse_fns,
    spec_parse_members, spec_scan_group, spec_vis,
};
use crate::token::{Delim, Tok, Vis, is_kw};

verus! {

/// Membership in a selected method block: a method stands in the selection
/// for `virtual_part` exactly when it is declared and classified so.
pub proof fn lemma_build_fns_membership(fns: Seq<FnDeclV>, virtual_part: bool, f: FnDeclV)
    ensures
        spec_build_fns(fns, virtual_part).contains(f) <==> (fns.contains(f) && is_virtual(f)
            == virtual_part),
    decreases fns.len(),
{
    if fns.len() == 0 {
        assert(!fns.contains(f));
    } else {
        let pre = fns.drop_last();
        lemma_build_fns_membership(pre, virtual_part, f);
        let tail: Seq<FnDeclV> = if is_virtual(fns.last()) == virtual_part {
            seq![fns.last()]
        } else {
            Seq::empty()
        };
        let sel = spec_build_fns(pre, virtual_part) + tail;
        assert(spec_build_fns(fns, virtual_part) == sel);
        if sel.contains(f) {
            let i = choose|i: int| 0 <= i < sel.len() && sel[i] == f;
            if i < spec_build_fns(pre, virtual_part).len() {
                assert(spec_build_fns(pre, virtual_part).contains(f));
                assert(pre.contains(f));
                let j = choose|j: int| 0 <= j < pre.len() && pre[j] == f;
                assert(fns[j] == f);
                assert(fns.contains(f));
            } else {
                assert(f == fns.last());
                assert(fns.contains(f));
            }
        }
        if fns.contains(f) && is_virtual(f) == virtual_part {
            let i = choose|i: int| 0 <= i < fns.len() && fns[i] == f;
            if i < fns.len() - 1 {
                assert(pre[i] == f);
                assert(pre.contains(f));
                let k = choose|k: int|
                    0 <= k < spec_build_fns(pre, virtual_part).len() && spec_build_fns(
                        pre,
                        virtual_part,
                    )[k] == f;
                assert(sel[k] == f);
                assert(sel.contains(f));
            } else {
                assert(f == fns.last());
                assert(sel[sel.len() - 1] == f);
                assert(sel.contains(f));
            }
        }
    }
}

/// For every chain of length N the delegation emitter produces exactly N
/// implementation blocks, one per ancestor, nearest to furthest: the block
/// at position k implements the interface of the k-th ancestor, reaches its
/// record through the composition path of the first k + 1 case-normalized
/// ancestor names, and its super accessor returns the nearest ancestor's
/// embedding whichever ancestor it serves.
pub proof fn lemma_delegations_one_per_ancestor(ci: ClassInfoV)
    ensures
        spec_build_extend(ci).len() == ci.extend.len(),
        forall|k: int| 0 <= k < ci.extend.len() ==> (#[trigger] spec_build_extend(ci)[k])
            == spec_delegation(ci, k),
        forall|k: int| 0 <= k < ci.extend.len() ==> (#[trigger] spec_delegation(ci, k)).trait_name
            == spec_trait_name(ci.extend[k]),
        forall|k: int| 0 <= k < ci.extend.len() ==> (#[trigger] spec_delegation(ci, k)).target
            == ci.extend[k],
        forall|k: int| 0 <= k < ci.extend.len() ==> (#[trigger] spec_delegation(ci, k)).path.len()
            == k + 1,
        forall|k: int, j: int|
            0 <= k < ci.extend.len() && 0 <= j <= k ==> (#[trigger] spec_delegation(
                ci,
                k,
            ).path[j]) == snake_of(ci.extend[j]),
        forall|k: int| 0 <= k < ci.extend.len() ==> (#[trigger] spec_delegation(ci, k)).super_field
            == snake_of(ci.extend[0]),
{
}

/// A public method marked non-overridable appears in the inherent-method
/// block and not in the interface.
pub proof fn lemma_final_public_is_inherent(ci: ClassInfoV, f: FnDeclV)
    requires
        ci.fn_decls.contains(f),
        f.is_final,
        f.vis == Vis::Public,
    ensures
        spec_build_impl(ci).methods.contains(f),
        !spec_build_trait(ci).methods.contains(f),
{
    lemma_build_fns_membership(ci.fn_decls, false, f);
    lemma_build_fns_membership(ci.fn_decls, true, f);
}

/// A public, non-static method not marked non-overridable appears in the
/// interface and not in the inherent-method block.
pub proof fn lemma_public_virtual_is_interface(ci: ClassInfoV, f: FnDeclV)
    requires
        ci.fn_decls.contains(f),
        f.vis == Vis::Public,
        !f.is_static(),
        !f.is_final,
    ensures
        spec_build_trait(ci).methods.contains(f),
        !spec_build_impl(ci).methods.contains(f),
{
    lemma_build_fns_membership(ci.fn_decls, false, f);
    lemma_build_fns_membership(ci.fn_decls, true, f);
}

/// A static method appears in the inherent-method block and not in the
/// interface, whatever its declared accessibility.
pub proof fn lemma_static_is_inherent(ci: ClassInfoV, f: FnDeclV)
    requires
        ci.fn_decls.contains(f),
        f.is_static(),
    ensures
        spec_build_impl(ci).methods.contains(f),
        !spec_build_trait(ci).methods.contains(f),
{
    lemma_build_fns_membership(ci.fn_decls, false, f);
    lemma_build_fns_membership(ci.fn_decls, true, f);
}

/// Where the first match for `name` sits, fully characterized: either there
/// is none from `i` on, or the result is the first position with that name.
pub proof fn lemma_find_from_valid(m: Seq<NamedFnsV>, name: Seq<char>, i: int)
    requires
        0 <= i,
    ensures
        spec_find_from(m, name, i) == -1 || spec_find_from(m, name, i) >= 0,
        spec_find_from(m, name, i) == -1 ==> forall|j: int|
            i <= j < m.len() ==> (#[trigger] m[j]).name != name,
        spec_find_from(m, name, i) >= 0 ==> i <= spec_find_from(m, name, i) < m.len()
            && m[spec_find_from(m, name, i)].name == name && forall|j: int|
            i <= j < spec_find_from(m, name, i) ==> (#[trigger] m[j]).name != name,
    decreases m.len() - i,
{
    if i >= m.len() {
    } else if m[i].name == name {
    } else {
        lemma_find_from_valid(m, name, i + 1);
    }
}

/// The first match is at `w` when `w` matches and nothing before it does.
pub proof fn lemma_find_from_first(m: Seq<NamedFnsV>, name: Seq<char>, i: int, w: int)
    requires
        0 <= i <= w < m.len(),
        m[w].name == name,
        forall|j: int| i <= j < w ==> (#[trigger] m[j]).name != name,
    ensures
        spec_find_from(m, name, i) == w,
    decreases w - i,
{
    if i < w {
        lemma_find_from_first(m, name, i + 1, w);
    }
}

/// Recording overrides under one name leaves every other name's recorded
/// overrides unchanged.
pub proof fn lemma_lookup_after_merge_other(
    m: Seq<NamedFnsV>,
    a: Seq<char>,
    fns: Seq<FnDeclV>,
    b: Seq<char>,
)
    requires
        a != b,
    ensures
        spec_lookup_fns(spec_merge_entry(m, a, fns), b) == spec_lookup_fns(m, b),
{
    let merged = spec_merge_entry(m, a, fns);
    let ka = spec_find_from(m, a, 0);
    let kb = spec_find_from(m, b, 0);
    lemma_find_from_valid(m, a, 0);
    lemma_find_from_valid(m, b, 0);
    if ka < 0 {
        // a new entry named `a` is appended; every search for `b` is as before
        assert(merged[m.len() as int].name == a);
        assert(forall|j: int| 0 <= j < m.len() ==> merged[j] == #[trigger] m[j]);
        if kb < 0 {
            lemma_find_from_valid(merged, b, 0);
            if spec_find_from(merged, b, 0) >= 0 {
                let w = spec_find_from(merged, b, 0);
                assert(merged[w].name == b);
                if w < m.len() {
                    assert(m[w].name == b);
                } else {
                    assert(w == m.len());
                }
                assert(false);
            }
        } else {
            assert(merged[kb].name == b);
            lemma_find_from_first(merged, b, 0, kb);
        }
    } else {
        // the entry at `ka` is replaced, its name `a` kept
        assert(m[ka].name == a);
        assert(merged[ka].name == a);
        assert(forall|j: int| 0 <= j < m.len() && j != ka ==> merged[j] == #[trigger] m[j]);
        if kb < 0 {
            lemma_find_from_valid(merged, b, 0);
            if spec_find_from(merged, b, 0) >= 0 {
                let w = spec_find_from(merged, b, 0);
                assert(merged[w].name == b);
                assert(w != ka);
                assert(m[w].name == b);
                assert(false);
            }
        } else {
            assert(m[kb].name == b);
            assert(kb != ka);
            assert(merged[kb].name == b);
            lemma_find_from_first(merged, b, 0, kb);
            assert(merged[kb].fns == m[kb].fns);
        }
    }
}

/// Recording overrides under a name appends them to whatever that name had
/// recorded before (merge, not replace).
pub proof fn lemma_lookup_after_merge_same(m: Seq<NamedFnsV>, a: Seq<char>, fns: Seq<FnDeclV>)
    ensures
        spec_lookup_fns(spec_merge_entry(m, a, fns), a) == spec_lookup_fns(m, a) + fns,
{
    let merged = spec_merge_entry(m, a, fns);
    let ka = spec_find_from(m, a, 0);
    lemma_find_from_valid(m, a, 0);
    if ka < 0 {
        assert(merged[m.len() as int].name == a);
        assert forall|j: int| 0 <= j < m.len() implies (#[trigger] merged[j]).name != a by {
            assert(merged[j] == m[j]);
        }
        lemma_find_from_first(merged, a, 0, m.len() as int);
        assert(spec_lookup_fns(merged, a) == fns);
        assert(spec_lookup_fns(m, a) + fns =~= fns);
    } else {
        assert(merged[ka].name == a);
        assert forall|j: int| 0 <= j < ka implies (#[trigger] merged[j]).name != a by {
            assert(merged[j] == m[j]);
        }
        lemma_find_from_first(merged, a, 0, ka);
    }
}

/// Overriding for ancestor `a` changes nothing but `a`'s delegation
/// implementation: the record, the inherent block and the interface are
/// untouched, and so is the delegation of every ancestor not named `a`;
/// the delegation of an ancestor named `a` carries the previously recorded
/// overrides with the new ones appended.
pub proof fn lemma_override_is_local(ci: ClassInfoV, a: Seq<char>, fns: Seq<FnDeclV>, k: int)
    requires
        0 <= k < ci.extend.len(),
    ensures
        ({
            let c2 = ClassInfoV {
                overrides: spec_merge_entry(ci.overrides, a, fns),
                ..ci
            };
            &&& spec_build_struct(c2) == spec_build_struct(ci)
            &&& spec_build_impl(c2) == spec_build_impl(ci)
            &&& spec_build_trait(c2) == spec_build_trait(ci)
            &&& ci.extend[k] != a ==> spec_build_extend(c2)[k] == spec_build_extend(ci)[k]
            &&& ci.extend[k] == a ==> spec_build_extend(c2)[k].overrides == spec_build_extend(
                ci,
            )[k].overrides + fns
        }),
{
    let c2 = ClassInfoV { overrides: spec_merge_entry(ci.overrides, a, fns), ..ci };
    if ci.extend[k] != a {
        lemma_lookup_after_merge_other(ci.overrides, a, fns, ci.extend[k]);
        assert(spec_delegation(c2, k).path =~= spec_delegation(ci, k).path);
        assert(spec_delegation(c2, k) =~= spec_delegation(ci, k));
    } else {
        lemma_lookup_after_merge_same(ci.overrides, a, fns);
    }
}

/// A class with no extends clause produces zero delegation implementations,
/// and its interface depends on nothing but its auxiliary capabilities; its
/// self-implementation stands regardless, with both accessors returning the
/// record itself.
pub proof fn lemma_no_chain_no_delegation(ci: ClassInfoV)
    requires
        ci.extend.len() == 0,
    ensures
        spec_build_extend(ci).len() == 0,
        spec_build_trait(ci).deps == ci.impls.map_values(|nf: NamedFnsV| nf.name),
        spec_class_output(ci).self_impl == spec_self_impl(ci),
{
    assert(spec_trait_deps(ci.extend, ci.impls) =~= ci.impls.map_values(
        |nf: NamedFnsV| nf.name,
    ));
}

/// Recording methods under a name keeps the keys unique: a known name is
/// appended to, an unknown one gets a single new entry.
pub proof fn lemma_merge_keeps_unique(m: Seq<NamedFnsV>, a: Seq<char>, fns: Seq<FnDeclV>)
    requires
        unique_names(m),
    ensures
        unique_names(spec_merge_entry(m, a, fns)),
{
    let merged = spec_merge_entry(m, a, fns);
    let ka = spec_find_from(m, a, 0);
    lemma_find_from_valid(m, a, 0);
    if ka < 0 {
        assert forall|i: int, j: int| 0 <= i < j < merged.len() implies merged[i].name
            != merged[j].name by {
            assert(merged[i] == m[i]);
            if j < m.len() {
                assert(merged[j] == m[j]);
            } else {
                assert(merged[j].name == a);
                assert(m[i].name != a);
            }
        }
    } else {
        assert forall|i: int, j: int| 0 <= i < j < merged.len() implies merged[i].name
            != merged[j].name by {
            assert(merged[i].name == m[i].name);
            assert(merged[j].name == m[j].name);
        }
    }
}

/// Member parsing keeps the keys of both maps unique.
pub proof fn lemma_members_wf(s: Seq<Tok>, i: int, acc: MembersV)
    requires
        0 <= i,
        unique_names(acc.overrides),
        unique_names(acc.impls),
    ensures
        spec_parse_members(s, i, acc) matches Ok(m) ==> unique_names(m.overrides)
            && unique_names(m.impls),
    decreases s.len() - i,
{
    if i >= s.len() {
    } else if is_kw(s[i], "override"@) || is_kw(s[i], "impl"@) {
        if i + 1 < s.len() {
            match s[i + 1] {
                Tok::Ident(n) => {
                    match spec_scan_group(s, i + 2, Delim::Brace, ParseError::ExpectedBody) {
                        Ok((inner, j)) => {
                            match spec_parse_fns(inner, 0, Seq::empty()) {
                                Ok(fns) => {
                                    if i < j <= s.len() {
                                        if is_kw(s[i], "override"@) {
                                            lemma_merge_keeps_unique(acc.overrides, n@, fns);
                                            lemma_members_wf(
                                                s,
                                                j,
                                                MembersV {
                                                    fields: acc.fields,
                                                    fn_decls: acc.fn_decls,
                                                    overrides: spec_merge_entry(
                                                        acc.overrides,
                                                        n@,
                                                        fns,
                                                    ),
                                                    impls: acc.impls,
                                                },
                                            );
                                        } else {
                                            lemma_merge_keeps_unique(acc.impls, n@, fns);
                                            lemma_members_wf(
                                                s,
                                                j,
                                                MembersV {
                                                    fields: acc.fields,
                                                    fn_decls: acc.fn_decls,
                                                    overrides: acc.overrides,
                                                    impls: spec_merge_entry(acc.impls, n@, fns),
                                                },
                                            );
                                        }
                                    }
                                },
                                Err(_) => {},
                            }
                        },
                        Err(_) => {},
                    }
                },
                _ => {},
            }
        }
    } else if is_kw(s[i], "let"@) || (is_kw(s[i], "pub"@) && i + 1 < s.len() && is_kw(
        s[i + 1],
        "let"@,
    )) {
        match spec_parse_field(s, i) {
            Ok((f, j)) => {
                if i < j <= s.len() {
                    lemma_members_wf(
                        s,
                        j,
                        MembersV {
                            fields: acc.fields.push(f),
                            fn_decls: acc.fn_decls,
                            overrides: acc.overrides,
                            impls: acc.impls,
                        },
                    );
                }
            },
            Err(_) => {},
        }
    } else {
        match spec_parse_fn_decl(s, i) {
            Ok((f, j)) => {
                if i < j <= s.len() {
                    lemma_members_wf(
                        s,
                        j,
                        MembersV {
                            fields: acc.fields,
                            fn_decls: acc.fn_decls.push(f),
                            overrides: acc.overrides,
                            impls: acc.impls,
                        },
                    );
                }
            },
            Err(_) => {},
        }
    }
}

/// Every declaration the parser accepts is well formed: its override and
/// auxiliary-capability keys are unique, repeated blocks having been merged.
pub proof fn lemma_parse_establishes_wf(s: Seq<Tok>)
    ensures
        spec_parse_class(s) matches Ok(ci) ==> ci.wf(),
{
    let (vis, i0) = spec_vis(s, 0);
    if i0 < s.len() {
        match s[i0] {
            Tok::Ident(_) => {
                let i1 = i0 + 1;
                let ext: Result<(Seq<Seq<char>>, int), ParseError> = if i1 < s.len() && s[i1]
                    matches Tok::Ident(_) {
                    if is_kw(s[i1], "extends"@) {
                        spec_parse_extend(s, i1 + 1)
                    } else {
                        Err(ParseError::ExpectedExtends)
                    }
                } else {
                    Ok((Seq::empty(), i1))
                };
                match ext {
                    Ok((_, i2)) => {
                        match spec_scan_group(s, i2, Delim::Brace, ParseError::ExpectedBody) {
                            Ok((inner, _)) => {
                                lemma_members_wf(inner, 0, spec_empty_members());
                            },
                            Err(_) => {},
                        }
                    },
                    Err(_) => {},
                }
            },
            _ => {},
        }
    }
}

/// An ancestor chain, when present, has at least one link.
pub proof fn lemma_chain_nonempty(e: &crate::classinfo::Extend)
    ensures
        e.chain().len() >= 1,
{
}

} // verus!
