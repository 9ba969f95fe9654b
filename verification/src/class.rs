//! The emitters: from a parsed [`ClassInfo`] to the delegation-based
//! emulation of inheritance described by [`crate::output`].

use vstd::prelude::*;

use convert_case::{Case, Casing};

use crate::classinfo::{
    ClassInfo, ClassInfoV, Extend, FnDecl, FnDeclV, NamedFns, NamedFnsV, clone_fields, clone_fns,
    fns_view, named_view, opt_chain,
};
use crate::output::{
    AuxImpl, AuxImplV, ClassOutput, ClassOutputV, DelegationImpl, DelegationImplV, InherentImpl,
    InherentImplV, Record, RecordV, SelfImpl, SelfImplV, SuperField, SuperFieldV, TraitDef,
    TraitDefV, aux_view, delegs_view, strs_view,
};
use crate::parse::{ParseError, lookup_fns, spec_lookup_fns, spec_parse_class};
use crate::token::{Tok, Vis};

verus! {

/// What convert_case's snake-case conversion returns for a given character
/// sequence: the lower-cased, underscore-delimited form of a name.
pub uninterp spec fn snake_of(s: Seq<char>) -> Seq<char>;

/// Relies on convert_case's `Casing::to_case` with `Case::Snake`: a pure
/// conversion whose result depends on the input characters alone.
#[verifier::external_body]
fn to_snake_case(s: &String) -> (r: String)
    ensures
        r@ == snake_of(s@),
{
    s.as_str().to_case(Case::Snake)
}

/// The interface name derived from a class or ancestor name.
pub open spec fn spec_trait_name(n: Seq<char>) -> Seq<char> {
    n + "Trait"@
}

fn trait_name_of(n: &String) -> (r: String)
    ensures
        r@ == spec_trait_name(n@),
{
    let mut r = n.clone();
    r.append("Trait");
    r
}

/// The record-accessor name derived from a class or ancestor name.
pub open spec fn spec_accessor_name(n: Seq<char>) -> Seq<char> {
    "get_"@ + snake_of(n) + "_struct"@
}

fn accessor_name_of(n: &String) -> (r: String)
    ensures
        r@ == spec_accessor_name(n@),
{
    let sn = to_snake_case(n);
    let mut r = String::from_str("get_");
    r.append(sn.as_str());
    r.append("_struct");
    r
}

/// Copies a list of names.
fn clone_strings(v: &Vec<String>) -> (r: Vec<String>)
    ensures
        r@ == v@,
{
    let mut r: Vec<String> = Vec::new();
    let mut i: usize = 0;
    while i < v.len()
        invariant
            i <= v.len(),
            r@.len() == i as int,
            forall|k: int| 0 <= k < i as int ==> #[trigger] r@[k] == v@[k],
        decreases v.len() - i,
    {
        r.push(v[i].clone());
        i = i + 1;
    }
    proof {
        assert(r@ =~= v@);
    }
    r
}

/// Which methods belong to the interface: public, not static, not marked
/// non-overridable. Every other method is bound statically and belongs to
/// the inherent block.
pub open spec fn is_virtual(f: FnDeclV) -> bool {
    f.vis == Vis::Public && !f.is_static() && !f.is_final
}

fn is_virtual_fn(f: &FnDecl) -> (r: bool)
    ensures
        r == is_virtual(f@),
{
    f.vis == Vis::Public && !f.is_static() && !f.is_final
}

/// The methods, in declaration order, that go to the interface
/// (`virtual_part` true) or to the inherent block (`virtual_part` false).
/// The two selections partition the declared methods.
pub open spec fn spec_build_fns(fns: Seq<FnDeclV>, virtual_part: bool) -> Seq<FnDeclV>
    decreases fns.len(),
{
    if fns.len() == 0 {
        Seq::empty()
    } else {
        spec_build_fns(fns.drop_last(), virtual_part) + if is_virtual(fns.last()) == virtual_part {
            seq![fns.last()]
        } else {
            Seq::empty()
        }
    }
}

/// Selects the methods for one of the two blocks, verbatim and in order.
pub fn build_fns(fns: &Vec<FnDecl>, virtual_part: bool) -> (r: Vec<FnDecl>)
    ensures
        fns_view(r@) == spec_build_fns(fns_view(fns@), virtual_part),
{
    let ghost t = fns_view(fns@);
    let mut r: Vec<FnDecl> = Vec::new();
    let mut i: usize = 0;
    while i < fns.len()
        invariant
            i <= fns.len(),
            t == fns_view(fns@),
            fns_view(r@) == spec_build_fns(t.take(i as int), virtual_part),
        decreases fns.len() - i,
    {
        let ghost r0 = r@;
        if is_virtual_fn(&fns[i]) == virtual_part {
            r.push(fns[i].clone());
        }
        proof {
            assert(t.take(i + 1).drop_last() =~= t.take(i as int));
            assert(t.take(i + 1).last() == t[i as int]);
            assert(t[i as int] == fns@[i as int]@);
            if is_virtual(t[i as int]) == virtual_part {
                assert(fns_view(r@) =~= fns_view(r0).push(fns@[i as int]@));
                assert(fns_view(r@) =~= spec_build_fns(t.take(i as int), virtual_part) + seq![
                    t[i as int],
                ]);
            } else {
                assert(fns_view(r@) =~= spec_build_fns(t.take(i as int), virtual_part)
                    + Seq::empty());
            }
        }
        i = i + 1;
    }
    proof {
        assert(t.take(fns@.len() as int) =~= t);
    }
    r
}

/// The resolved ancestor chain: the ordered list of ancestor names, nearest
/// first; empty when the class extends nothing.
pub fn resolve_chain(extend: &Option<Extend>) -> (r: Vec<String>)
    ensures
        strs_view(r@) == opt_chain(*extend),
{
    match extend {
        Some(e) => chain_names(e),
        None => {
            let r: Vec<String> = Vec::new();
            proof {
                assert(strs_view(r@) =~= opt_chain(*extend));
            }
            r
        },
    }
}

fn chain_names(e: &Extend) -> (r: Vec<String>)
    ensures
        strs_view(r@) == e.chain(),
    decreases *e,
{
    let mut r: Vec<String> = Vec::new();
    r.push(e.name.clone());
    match &e.extend {
        Some(rest) => {
            let mut tail = chain_names(rest);
            let ghost tail0 = tail@;
            r.append(&mut tail);
            proof {
                assert forall|k: int| 0 <= k < r@.len() implies strs_view(r@)[k] == e.chain()[k] by {
                    assert(strs_view(r@)[k] == r@[k]@);
                    if k > 0 {
                        assert(r@[k] == tail0[k - 1]);
                        assert(strs_view(tail0)[k - 1] == tail0[k - 1]@);
                    }
                }
                assert(strs_view(r@) =~= e.chain());
            }
        },
        None => {
            proof {
                assert(strs_view(r@) =~= e.chain());
            }
        },
    }
    r
}

/// The data record: one accessible embedding of the nearest ancestor when a
/// chain exists, then every declared field in declaration order; nothing
/// else is synthesized and nothing is deduplicated.
pub open spec fn spec_build_struct(ci: ClassInfoV) -> RecordV {
    RecordV {
        vis: ci.vis,
        name: ci.name,
        super_field: if ci.extend.len() > 0 {
            Some(SuperFieldV { name: snake_of(ci.extend[0]), class_name: ci.extend[0] })
        } else {
            None
        },
        fields: ci.fields,
    }
}

/// Emits the concrete data record.
pub fn build_struct(info: &ClassInfo) -> (r: Record)
    ensures
        r@ == spec_build_struct(info@),
{
    let super_field = match &info.extend {
        Some(e) => {
            proof {
                assert(e.chain()[0] == e.name@);
                assert(e.chain().len() > 0);
            }
            Some(SuperField { name: to_snake_case(&e.name), class_name: e.name.clone() })
        },
        None => None,
    };
    Record {
        vis: info.vis,
        name: info.name.clone(),
        super_field,
        fields: clone_fields(&info.fields),
    }
}

/// The inherent-method block: every private, static or non-overridable
/// method, verbatim; public overridable methods are left to the interface.
pub open spec fn spec_build_impl(ci: ClassInfoV) -> InherentImplV {
    InherentImplV { class_name: ci.name, methods: spec_build_fns(ci.fn_decls, false) }
}

/// Emits the inherent-method block.
pub fn build_impl(info: &ClassInfo) -> (r: InherentImpl)
    ensures
        r@ == spec_build_impl(info@),
{
    InherentImpl { class_name: info.name.clone(), methods: build_fns(&info.fn_decls, false) }
}

/// The interface dependency list: each ancestor's interface in chain order,
/// nearest first, then each auxiliary capability in first-occurrence order.
pub open spec fn spec_trait_deps(chain: Seq<Seq<char>>, impls: Seq<NamedFnsV>) -> Seq<Seq<char>> {
    chain.map_values(|n: Seq<char>| spec_trait_name(n)) + impls.map_values(
        |nf: NamedFnsV| nf.name,
    )
}

/// Emits the interface dependency list.
pub fn build_trait_dependencies(extend: &Option<Extend>, impls: &Vec<NamedFns>) -> (r: Vec<
    String,
>)
    ensures
        strs_view(r@) == spec_trait_deps(opt_chain(*extend), named_view(impls@)),
{
    let chain = resolve_chain(extend);
    let mut r: Vec<String> = Vec::new();
    let mut k: usize = 0;
    while k < chain.len()
        invariant
            k <= chain.len(),
            strs_view(chain@) == opt_chain(*extend),
            r@.len() == k as int,
            forall|j: int| 0 <= j < k as int ==> #[trigger] r@[j]@ == spec_trait_name(
                opt_chain(*extend)[j],
            ),
        decreases chain.len() - k,
    {
        proof {
            assert(strs_view(chain@)[k as int] == chain@[k as int]@);
        }
        r.push(trait_name_of(&chain[k]));
        k = k + 1;
    }
    let mut m: usize = 0;
    let ghost n_chain = chain@.len() as int;
    while m < impls.len()
        invariant
            m <= impls.len(),
            strs_view(chain@) == opt_chain(*extend),
            n_chain == chain@.len() as int,
            r@.len() == n_chain + m as int,
            forall|j: int| 0 <= j < n_chain ==> #[trigger] r@[j]@ == spec_trait_name(
                opt_chain(*extend)[j],
            ),
            forall|j: int| 0 <= j < m as int ==> #[trigger] r@[n_chain + j]@ == impls@[j]@.name,
        decreases impls.len() - m,
    {
        r.push(impls[m].name.clone());
        m = m + 1;
    }
    proof {
        let target = spec_trait_deps(opt_chain(*extend), named_view(impls@));
        assert forall|j: int| 0 <= j < r@.len() implies strs_view(r@)[j] == target[j] by {
            assert(strs_view(r@)[j] == r@[j]@);
            if j >= n_chain {
                assert(r@[n_chain + (j - n_chain)]@ == impls@[j - n_chain]@.name);
                assert(named_view(impls@)[j - n_chain] == impls@[j - n_chain]@);
            }
        }
        assert(strs_view(r@) =~= target);
    }
    r
}

/// The capability interface: its two mandatory accessors are implied by
/// `trait_name` and `accessor_name`; its methods are every public
/// overridable method, carrying its default body.
pub open spec fn spec_build_trait(ci: ClassInfoV) -> TraitDefV {
    TraitDefV {
        vis: ci.vis,
        class_name: ci.name,
        trait_name: spec_trait_name(ci.name),
        accessor_name: spec_accessor_name(ci.name),
        deps: spec_trait_deps(ci.extend, ci.impls),
        methods: spec_build_fns(ci.fn_decls, true),
    }
}

/// Emits the capability interface.
pub fn build_trait(info: &ClassInfo) -> (r: TraitDef)
    ensures
        r@ == spec_build_trait(info@),
{
    TraitDef {
        vis: info.vis,
        class_name: info.name.clone(),
        trait_name: trait_name_of(&info.name),
        accessor_name: accessor_name_of(&info.name),
        deps: build_trait_dependencies(&info.extend, &info.impls),
        methods: build_fns(&info.fn_decls, true),
    }
}

/// The self-implementation of the interface: both accessors return the
/// record itself.
pub open spec fn spec_self_impl(ci: ClassInfoV) -> SelfImplV {
    SelfImplV {
        trait_name: spec_trait_name(ci.name),
        class_name: ci.name,
        accessor_name: spec_accessor_name(ci.name),
    }
}

/// The delegation implementation for the ancestor at position `k` of the
/// chain: its record accessor follows the composition path of the first
/// `k + 1` case-normalized ancestor names; its super accessor returns the
/// nearest ancestor's embedding; its overridden methods are those recorded
/// for that ancestor's name, or none.
pub open spec fn spec_delegation(ci: ClassInfoV, k: int) -> DelegationImplV {
    DelegationImplV {
        trait_name: spec_trait_name(ci.extend[k]),
        class_name: ci.name,
        accessor_name: spec_accessor_name(ci.extend[k]),
        target: ci.extend[k],
        path: Seq::new((k + 1) as nat, |j: int| snake_of(ci.extend[j])),
        super_field: snake_of(ci.extend[0]),
        overrides: spec_lookup_fns(ci.overrides, ci.extend[k]),
    }
}

/// One delegation implementation per ancestor in the chain, nearest to
/// furthest, and none for a class without a chain.
pub open spec fn spec_build_extend(ci: ClassInfoV) -> Seq<DelegationImplV> {
    Seq::new(ci.extend.len(), |k: int| spec_delegation(ci, k))
}

/// Emits the delegation implementations.
pub fn build_extend(info: &ClassInfo) -> (r: Vec<DelegationImpl>)
    ensures
        delegs_view(r@) == spec_build_extend(info@),
{
    let chain = resolve_chain(&info.extend);
    let mut out: Vec<DelegationImpl> = Vec::new();
    if chain.len() == 0 {
        proof {
            assert(delegs_view(out@) =~= spec_build_extend(info@));
        }
        return out;
    }
    proof {
        assert(strs_view(chain@)[0] == chain@[0]@);
    }
    let super_field = to_snake_case(&chain[0]);
    let mut path: Vec<String> = Vec::new();
    let mut k: usize = 0;
    while k < chain.len()
        invariant
            k <= chain.len(),
            strs_view(chain@) == info@.extend,
            chain@.len() > 0,
            super_field@ == snake_of(info@.extend[0]),
            path@.len() == k as int,
            forall|j: int| 0 <= j < k as int ==> #[trigger] path@[j]@ == snake_of(
                info@.extend[j],
            ),
            out@.len() == k as int,
            forall|t: int| 0 <= t < k as int ==> #[trigger] out@[t]@ == spec_delegation(
                info@,
                t,
            ),
        decreases chain.len() - k,
    {
        proof {
            assert(strs_view(chain@)[k as int] == chain@[k as int]@);
        }
        path.push(to_snake_case(&chain[k]));
        let deleg = DelegationImpl {
            trait_name: trait_name_of(&chain[k]),
            class_name: info.name.clone(),
            accessor_name: accessor_name_of(&chain[k]),
            target: chain[k].clone(),
            path: clone_strings(&path),
            super_field: super_field.clone(),
            overrides: lookup_fns(&info.overrides, &chain[k]),
        };
        proof {
            assert forall|j: int| 0 <= j < k + 1 implies strs_view(path@)[j] == snake_of(
                info@.extend[j],
            ) by {
                assert(strs_view(path@)[j] == path@[j]@);
            }
            assert(deleg@.path =~= spec_delegation(info@, k as int).path);
            assert(deleg@ =~= spec_delegation(info@, k as int));
        }
        out.push(deleg);
        k = k + 1;
    }
    proof {
        assert forall|t: int| 0 <= t < out@.len() implies delegs_view(out@)[t]
            == spec_build_extend(info@)[t] by {
            assert(delegs_view(out@)[t] == out@[t]@);
        }
        assert(delegs_view(out@) =~= spec_build_extend(info@));
    }
    out
}

/// One direct implementation per auxiliary capability, in first-occurrence
/// order, each using exactly the given method bodies.
pub open spec fn spec_build_impls(ci: ClassInfoV) -> Seq<AuxImplV> {
    ci.impls.map_values(
        |nf: NamedFnsV| AuxImplV { trait_name: nf.name, class_name: ci.name, methods: nf.fns },
    )
}

/// Emits the auxiliary-capability implementations.
pub fn build_impls(info: &ClassInfo) -> (r: Vec<AuxImpl>)
    ensures
        aux_view(r@) == spec_build_impls(info@),
{
    let mut r: Vec<AuxImpl> = Vec::new();
    let mut k: usize = 0;
    while k < info.impls.len()
        invariant
            k <= info.impls.len(),
            r@.len() == k as int,
            forall|j: int| 0 <= j < k as int ==> #[trigger] r@[j]@ == spec_build_impls(info@)[j],
        decreases info.impls.len() - k,
    {
        let a = AuxImpl {
            trait_name: info.impls[k].name.clone(),
            class_name: info.name.clone(),
            methods: clone_fns(&info.impls[k].fns),
        };
        proof {
            assert(named_view(info.impls@)[k as int] == info.impls@[k as int]@);
            assert(a@ =~= spec_build_impls(info@)[k as int]);
        }
        r.push(a);
        k = k + 1;
    }
    proof {
        assert forall|j: int| 0 <= j < r@.len() implies aux_view(r@)[j] == spec_build_impls(
            info@,
        )[j] by {
            assert(aux_view(r@)[j] == r@[j]@);
        }
        assert(aux_view(r@) =~= spec_build_impls(info@));
    }
    r
}

/// The complete emission for one class: record, inherent block, interface
/// with self-implementation, delegation chain, auxiliary implementations.
pub open spec fn spec_class_output(ci: ClassInfoV) -> ClassOutputV {
    ClassOutputV {
        record: spec_build_struct(ci),
        inherent: spec_build_impl(ci),
        trait_def: spec_build_trait(ci),
        self_impl: spec_self_impl(ci),
        delegations: spec_build_extend(ci),
        aux_impls: spec_build_impls(ci),
    }
}

/// Emits every artifact for one parsed class declaration.
pub fn build_output(info: &ClassInfo) -> (r: ClassOutput)
    ensures
        r@ == spec_class_output(info@),
{
    ClassOutput {
        record: build_struct(info),
        inherent: build_impl(info),
        trait_def: build_trait(info),
        self_impl: SelfImpl {
            trait_name: trait_name_of(&info.name),
            class_name: info.name.clone(),
            accessor_name: accessor_name_of(&info.name),
        },
        delegations: build_extend(info),
        aux_impls: build_impls(info),
    }
}

/// The whole transformation: parses one class declaration and emits its
/// complete delegation-based emulation, or reports the parse failure; a
/// pure function of the token stream.
pub fn class_impl(toks: &Vec<Tok>) -> (r: Result<ClassOutput, ParseError>)
    ensures
        spec_parse_class(toks@) matches Ok(ci) ==> r matches Ok(o) && o@ == spec_class_output(ci),
        spec_parse_class(toks@) matches Err(e) ==> r matches Err(e2) && e2 == e,
{
    match ClassInfo::parse(toks) {
        Ok(info) => Ok(build_output(&info)),
        Err(e) => Err(e),
    }
}

} // verus!
