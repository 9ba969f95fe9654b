//! The artifacts emitted for one class declaration: a data record, an
//! inherent-method block, a capability interface with its
//! self-implementation, one delegation implementation per ancestor, and one
//! direct implementation per auxiliary capability.

use vstd::prelude::*;

use crate::classinfo::{ClassField, ClassFieldV, FnDecl, FnDeclV, fields_view, fns_view};
use crate::token::Vis;

verus! {

/// The embedded-ancestor field of a record: named after the nearest ancestor
/// (case-normalized), of that ancestor's record type, accessible.
#[derive(Debug, PartialEq, Eq)]
pub struct SuperField {
    pub name: String,
    pub class_name: String,
}

/// Mathematical model of a [`SuperField`].
#[verifier::ext_equal]
pub ghost struct SuperFieldV {
    pub name: Seq<char>,
    pub class_name: Seq<char>,
}

impl View for SuperField {
    type V = SuperFieldV;

    open spec fn view(&self) -> SuperFieldV {
        SuperFieldV { name: self.name@, class_name: self.class_name@ }
    }
}

/// The concrete data record: the optional ancestor embedding, then the
/// declared fields in declaration order, nothing synthesized beyond that.
#[derive(Debug, PartialEq, Eq)]
pub struct Record {
    pub vis: Vis,
    pub name: String,
    pub super_field: Option<SuperField>,
    pub fields: Vec<ClassField>,
}

/// Mathematical model of a [`Record`].
#[verifier::ext_equal]
pub ghost struct RecordV {
    pub vis: Vis,
    pub name: Seq<char>,
    pub super_field: Option<SuperFieldV>,
    pub fields: Seq<ClassFieldV>,
}

impl View for Record {
    type V = RecordV;

    open spec fn view(&self) -> RecordV {
        RecordV {
            vis: self.vis,
            name: self.name@,
            super_field: match &self.super_field {
                Some(sf) => Some(sf@),
                None => None,
            },
            fields: fields_view(self.fields@),
        }
    }
}

/// The inherent-method block attached to the record: every method bound
/// statically, verbatim.
#[derive(Debug, PartialEq, Eq)]
pub struct InherentImpl {
    pub class_name: String,
    pub methods: Vec<FnDecl>,
}

/// Mathematical model of an [`InherentImpl`].
#[verifier::ext_equal]
pub ghost struct InherentImplV {
    pub class_name: Seq<char>,
    pub methods: Seq<FnDeclV>,
}

impl View for InherentImpl {
    type V = InherentImplV;

    open spec fn view(&self) -> InherentImplV {
        InherentImplV { class_name: self.class_name@, methods: fns_view(self.methods@) }
    }
}

/// The class's public capability interface. Besides the listed methods (each
/// carrying its default body) it declares two accessors: the record accessor
/// `accessor_name`, returning the class's own record by reference, and the
/// super accessor, returning the nearest ancestor's interface view.
#[derive(Debug, PartialEq, Eq)]
pub struct TraitDef {
    pub vis: Vis,
    pub class_name: String,
    pub trait_name: String,
    pub accessor_name: String,
    pub deps: Vec<String>,
    pub methods: Vec<FnDecl>,
}

/// Mathematical model of a [`TraitDef`].
#[verifier::ext_equal]
pub ghost struct TraitDefV {
    pub vis: Vis,
    pub class_name: Seq<char>,
    pub trait_name: Seq<char>,
    pub accessor_name: Seq<char>,
    pub deps: Seq<Seq<char>>,
    pub methods: Seq<FnDeclV>,
}

impl View for TraitDef {
    type V = TraitDefV;

    open spec fn view(&self) -> TraitDefV {
        TraitDefV {
            vis: self.vis,
            class_name: self.class_name@,
            trait_name: self.trait_name@,
            accessor_name: self.accessor_name@,
            deps: strs_view(self.deps@),
            methods: fns_view(self.methods@),
        }
    }
}

/// The self-implementation of the class's interface for its own record: the
/// record accessor returns the record itself, and the super accessor also
/// returns the record itself — a class with no ancestor is its own terminal
/// interface view.
#[derive(Debug, PartialEq, Eq)]
pub struct SelfImpl {
    pub trait_name: String,
    pub class_name: String,
    pub accessor_name: String,
}

/// Mathematical model of a [`SelfImpl`].
#[verifier::ext_equal]
pub ghost struct SelfImplV {
    pub trait_name: Seq<char>,
    pub class_name: Seq<char>,
    pub accessor_name: Seq<char>,
}

impl View for SelfImpl {
    type V = SelfImplV;

    open spec fn view(&self) -> SelfImplV {
        SelfImplV {
            trait_name: self.trait_name@,
            class_name: self.class_name@,
            accessor_name: self.accessor_name@,
        }
    }
}

/// One delegation implementation: the ancestor's interface implemented for
/// the current record. Its record accessor returns a reference reached by
/// following `path` (one case-normalized field segment per chain step from
/// the record down to that ancestor); its super accessor returns
/// `super_field`, always the nearest ancestor's embedding, whichever
/// ancestor's interface is being satisfied; `overrides` are emitted in place
/// of delegation, verbatim.
#[derive(Debug, PartialEq, Eq)]
pub struct DelegationImpl {
    pub trait_name: String,
    pub class_name: String,
    pub accessor_name: String,
    pub target: String,
    pub path: Vec<String>,
    pub super_field: String,
    pub overrides: Vec<FnDecl>,
}

/// Mathematical model of a [`DelegationImpl`].
#[verifier::ext_equal]
pub ghost struct DelegationImplV {
    pub trait_name: Seq<char>,
    pub class_name: Seq<char>,
    pub accessor_name: Seq<char>,
    pub target: Seq<char>,
    pub path: Seq<Seq<char>>,
    pub super_field: Seq<char>,
    pub overrides: Seq<FnDeclV>,
}

impl View for DelegationImpl {
    type V = DelegationImplV;

    open spec fn view(&self) -> DelegationImplV {
        DelegationImplV {
            trait_name: self.trait_name@,
            class_name: self.class_name@,
            accessor_name: self.accessor_name@,
            target: self.target@,
            path: strs_view(self.path@),
            super_field: self.super_field@,
            overrides: fns_view(self.overrides@),
        }
    }
}

/// One direct implementation of an auxiliary capability: exactly the given
/// method bodies, no accessors, no delegation.
#[derive(Debug, PartialEq, Eq)]
pub struct AuxImpl {
    pub trait_name: String,
    pub class_name: String,
    pub methods: Vec<FnDecl>,
}

/// Mathematical model of an [`AuxImpl`].
#[verifier::ext_equal]
pub ghost struct AuxImplV {
    pub trait_name: Seq<char>,
    pub class_name: Seq<char>,
    pub methods: Seq<FnDeclV>,
}

impl View for AuxImpl {
    type V = AuxImplV;

    open spec fn view(&self) -> AuxImplV {
        AuxImplV {
            trait_name: self.trait_name@,
            class_name: self.class_name@,
            methods: fns_view(self.methods@),
        }
    }
}

/// The complete emission for one class declaration.
#[derive(Debug, PartialEq, Eq)]
pub struct ClassOutput {
    pub record: Record,
    pub inherent: InherentImpl,
    pub trait_def: TraitDef,
    pub self_impl: SelfImpl,
    pub delegations: Vec<DelegationImpl>,
    pub aux_impls: Vec<AuxImpl>,
}

/// Mathematical model of a [`ClassOutput`].
#[verifier::ext_equal]
pub ghost struct ClassOutputV {
    pub record: RecordV,
    pub inherent: InherentImplV,
    pub trait_def: TraitDefV,
    pub self_impl: SelfImplV,
    pub delegations: Seq<DelegationImplV>,
    pub aux_impls: Seq<AuxImplV>,
}

impl View for ClassOutput {
    type V = ClassOutputV;

    open spec fn view(&self) -> ClassOutputV {
        ClassOutputV {
            record: self.record@,
            inherent: self.inherent@,
            trait_def: self.trait_def@,
            self_impl: self.self_impl@,
            delegations: delegs_view(self.delegations@),
            aux_impls: aux_view(self.aux_impls@),
        }
    }
}

/// The model of a list of names.
pub open spec fn strs_view(v: Seq<String>) -> Seq<Seq<char>> {
    v.map_values(|s: String| s@)
}

/// The model of a list of delegation implementations.
pub open spec fn delegs_view(v: Seq<DelegationImpl>) -> Seq<DelegationImplV> {
    v.map_values(|d: DelegationImpl| d@)
}

/// The model of a list of auxiliary implementations.
pub open spec fn aux_view(v: Seq<AuxImpl>) -> Seq<AuxImplV> {
    v.map_values(|a: AuxImpl| a@)
}

} // verus!
