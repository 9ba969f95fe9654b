//! The typed declaration tree built from one class declaration.

use vstd::prelude::*;

use crate::token::{Tok, Vis, clone_toks};

verus! {

/// A field declared on a class: accessibility, name, and the verbatim tokens
/// of its type reference.
#[derive(Debug, PartialEq, Eq)]
pub struct ClassField {
    pub vis: Vis,
    pub name: String,
    pub ty: Vec<Tok>,
}

/// Mathematical model of a [`ClassField`].
#[verifier::ext_equal]
pub ghost struct ClassFieldV {
    pub vis: Vis,
    pub name: Seq<char>,
    pub ty: Seq<Tok>,
}

impl View for ClassField {
    type V = ClassFieldV;

    open spec fn view(&self) -> ClassFieldV {
        ClassFieldV { vis: self.vis, name: self.name@, ty: self.ty@ }
    }
}

impl Clone for ClassField {
    fn clone(&self) -> (r: ClassField)
        ensures
            r@ == self@,
    {
        ClassField { vis: self.vis, name: self.name.clone(), ty: clone_toks(&self.ty) }
    }
}

/// One entry of a method's parameter list: a self-receiver (`self`, `&self`,
/// `&mut self`, `mut self`) or a typed parameter, kept as verbatim tokens.
#[derive(Debug, PartialEq, Eq)]
pub enum Param {
    Receiver(Vec<Tok>),
    Typed(Vec<Tok>),
}

/// Mathematical model of a [`Param`].
#[verifier::ext_equal]
pub ghost enum ParamV {
    Receiver(Seq<Tok>),
    Typed(Seq<Tok>),
}

impl View for Param {
    type V = ParamV;

    open spec fn view(&self) -> ParamV {
        match self {
            Param::Receiver(t) => ParamV::Receiver(t@),
            Param::Typed(t) => ParamV::Typed(t@),
        }
    }
}

impl Clone for Param {
    fn clone(&self) -> (r: Param)
        ensures
            r@ == self@,
    {
        match self {
            Param::Receiver(t) => Param::Receiver(clone_toks(t)),
            Param::Typed(t) => Param::Typed(clone_toks(t)),
        }
    }
}

/// The model of a parameter list.
pub open spec fn params_view(v: Seq<Param>) -> Seq<ParamV> {
    v.map_values(|p: Param| p@)
}

/// A method declaration: accessibility, the non-overridable marker, name,
/// parameter list, return type (empty tokens mean unit), and verbatim body.
#[derive(Debug, PartialEq, Eq)]
pub struct FnDecl {
    pub vis: Vis,
    pub is_final: bool,
    pub name: String,
    pub params: Vec<Param>,
    pub ret: Vec<Tok>,
    pub body: Vec<Tok>,
}

/// Mathematical model of a [`FnDecl`].
#[verifier::ext_equal]
pub ghost struct FnDeclV {
    pub vis: Vis,
    pub is_final: bool,
    pub name: Seq<char>,
    pub params: Seq<ParamV>,
    pub ret: Seq<Tok>,
    pub body: Seq<Tok>,
}

impl View for FnDecl {
    type V = FnDeclV;

    open spec fn view(&self) -> FnDeclV {
        FnDeclV {
            vis: self.vis,
            is_final: self.is_final,
            name: self.name@,
            params: params_view(self.params@),
            ret: self.ret@,
            body: self.body@,
        }
    }
}

impl FnDeclV {
    /// A method is static when its parameter list does not begin with a
    /// self-receiver.
    pub open spec fn is_static(self) -> bool {
        self.params.len() == 0 || !(self.params[0] matches ParamV::Receiver(_))
    }
}

impl FnDecl {
    /// Whether the method is static (has no self-receiver).
    pub fn is_static(&self) -> (r: bool)
        ensures
            r == self@.is_static(),
    {
        if self.params.len() == 0 {
            true
        } else {
            match &self.params[0] {
                Param::Receiver(_) => false,
                Param::Typed(_) => true,
            }
        }
    }
}

/// Copies a parameter list.
pub fn clone_params(v: &Vec<Param>) -> (r: Vec<Param>)
    ensures
        params_view(r@) == params_view(v@),
{
    let mut r: Vec<Param> = Vec::new();
    let mut i: usize = 0;
    while i < v.len()
        invariant
            i <= v.len(),
            r@.len() == i as int,
            forall|k: int| 0 <= k < i as int ==> #[trigger] r@[k]@ == v@[k]@,
        decreases v.len() - i,
    {
        r.push(v[i].clone());
        i = i + 1;
    }
    proof {
        assert forall|k: int| 0 <= k < v@.len() implies params_view(r@)[k] == params_view(v@)[k] by {
            assert(r@[k]@ == v@[k]@);
        }
        assert(params_view(r@) =~= params_view(v@));
    }
    r
}

impl Clone for FnDecl {
    fn clone(&self) -> (r: FnDecl)
        ensures
            r@ == self@,
    {
        FnDecl {
            vis: self.vis,
            is_final: self.is_final,
            name: self.name.clone(),
            params: clone_params(&self.params),
            ret: clone_toks(&self.ret),
            body: clone_toks(&self.body),
        }
    }
}

/// The model of a method list.
pub open spec fn fns_view(v: Seq<FnDecl>) -> Seq<FnDeclV> {
    v.map_values(|f: FnDecl| f@)
}

/// Copies a method list.
pub fn clone_fns(v: &Vec<FnDecl>) -> (r: Vec<FnDecl>)
    ensures
        fns_view(r@) == fns_view(v@),
{
    let mut r: Vec<FnDecl> = Vec::new();
    let mut i: usize = 0;
    while i < v.len()
        invariant
            i <= v.len(),
            r@.len() == i as int,
            forall|k: int| 0 <= k < i as int ==> #[trigger] r@[k]@ == v@[k]@,
        decreases v.len() - i,
    {
        r.push(v[i].clone());
        i = i + 1;
    }
    proof {
        assert forall|k: int| 0 <= k < v@.len() implies fns_view(r@)[k] == fns_view(v@)[k] by {
            assert(r@[k]@ == v@[k]@);
        }
        assert(fns_view(r@) =~= fns_view(v@));
    }
    r
}

/// One link of the ancestor chain: the ancestor's name, then optionally the
/// next, more distant link. A chain is strictly linear and, being built by
/// descent with no back-references, finite and acyclic.
#[derive(Debug, PartialEq, Eq)]
pub struct Extend {
    pub name: String,
    pub extend: Option<Box<Extend>>,
}

impl Extend {
    /// The model of a chain: the ordered sequence of ancestor names, nearest
    /// first; it always has at least one entry.
    pub open spec fn chain(&self) -> Seq<Seq<char>>
        decreases self,
    {
        match &self.extend {
            Some(rest) => seq![self.name@] + (**rest).chain(),
            None => seq![self.name@],
        }
    }
}

impl View for Extend {
    type V = Seq<Seq<char>>;

    open spec fn view(&self) -> Seq<Seq<char>> {
        self.chain()
    }
}

/// The chain of an optional `extends` clause: empty when there is none.
pub open spec fn opt_chain(e: Option<Extend>) -> Seq<Seq<char>> {
    match e {
        Some(x) => x.chain(),
        None => Seq::empty(),
    }
}

/// A named group of method declarations: one override target or one adopted
/// auxiliary capability, with its methods in declaration order.
#[derive(Debug, PartialEq, Eq)]
pub struct NamedFns {
    pub name: String,
    pub fns: Vec<FnDecl>,
}

/// Mathematical model of a [`NamedFns`].
#[verifier::ext_equal]
pub ghost struct NamedFnsV {
    pub name: Seq<char>,
    pub fns: Seq<FnDeclV>,
}

impl View for NamedFns {
    type V = NamedFnsV;

    open spec fn view(&self) -> NamedFnsV {
        NamedFnsV { name: self.name@, fns: fns_view(self.fns@) }
    }
}

/// The model of an override or auxiliary-capability map, in first-occurrence
/// order.
pub open spec fn named_view(v: Seq<NamedFns>) -> Seq<NamedFnsV> {
    v.map_values(|nf: NamedFns| nf@)
}

/// The model of a field list.
pub open spec fn fields_view(v: Seq<ClassField>) -> Seq<ClassFieldV> {
    v.map_values(|f: ClassField| f@)
}

/// Copies a field list.
pub fn clone_fields(v: &Vec<ClassField>) -> (r: Vec<ClassField>)
    ensures
        fields_view(r@) == fields_view(v@),
{
    let mut r: Vec<ClassField> = Vec::new();
    let mut i: usize = 0;
    while i < v.len()
        invariant
            i <= v.len(),
            r@.len() == i as int,
            forall|k: int| 0 <= k < i as int ==> #[trigger] r@[k]@ == v@[k]@,
        decreases v.len() - i,
    {
        r.push(v[i].clone());
        i = i + 1;
    }
    proof {
        assert forall|k: int| 0 <= k < v@.len() implies fields_view(r@)[k] == fields_view(v@)[k] by {
            assert(r@[k]@ == v@[k]@);
        }
        assert(fields_view(r@) =~= fields_view(v@));
    }
    r
}

/// Everything one class declaration states: accessibility, name, optional
/// ancestor chain, fields, methods, per-ancestor overrides and auxiliary
/// capability implementations. Built once by the parser, read by the emitters.
#[derive(Debug, PartialEq, Eq)]
pub struct ClassInfo {
    pub vis: Vis,
    pub name: String,
    pub extend: Option<Extend>,
    pub fields: Vec<ClassField>,
    pub fn_decls: Vec<FnDecl>,
    pub overrides: Vec<NamedFns>,
    pub impls: Vec<NamedFns>,
}

/// Mathematical model of a [`ClassInfo`]. The chain is the sequence of
/// ancestor names nearest-first; empty means the class extends nothing.
#[verifier::ext_equal]
pub ghost struct ClassInfoV {
    pub vis: Vis,
    pub name: Seq<char>,
    pub extend: Seq<Seq<char>>,
    pub fields: Seq<ClassFieldV>,
    pub fn_decls: Seq<FnDeclV>,
    pub overrides: Seq<NamedFnsV>,
    pub impls: Seq<NamedFnsV>,
}

impl View for ClassInfo {
    type V = ClassInfoV;

    open spec fn view(&self) -> ClassInfoV {
        ClassInfoV {
            vis: self.vis,
            name: self.name@,
            extend: opt_chain(self.extend),
            fields: fields_view(self.fields@),
            fn_decls: fns_view(self.fn_decls@),
            overrides: named_view(self.overrides@),
            impls: named_view(self.impls@),
        }
    }
}

/// No two entries of an override or auxiliary-capability map share a name.
pub open spec fn unique_names(m: Seq<NamedFnsV>) -> bool {
    forall|i: int, j: int| 0 <= i < j < m.len() ==> m[i].name != m[j].name
}

impl ClassInfoV {
    /// Well-formedness: the override map has one entry per ancestor name and
    /// the auxiliary map one per capability name; repeated source blocks are
    /// merged into them, never duplicated.
    pub open spec fn wf(self) -> bool {
        unique_names(self.overrides) && unique_names(self.impls)
    }
}

} // verus!
