//! The flat token stream a class declaration arrives as.

use vstd::prelude::*;

verus! {

/// The three delimiter shapes that may appear in a declaration.
#[derive(Clone, Copy, PartialEq, Eq, Structural, Debug)]
pub enum Delim {
    Paren,
    Brace,
    Bracket,
}

/// Accessibility of a class, field or method.
#[derive(Clone, Copy, PartialEq, Eq, Structural, Debug)]
pub enum Vis {
    Public,
    Private,
}

/// One token of a class declaration. Keywords (`pub`, `let`, `fn`, `final`,
/// `extends`, `override`, `impl`, `self`, `mut`) arrive as `Ident` tokens with
/// that spelling; delimiters arrive as `Open`/`Close` pairs, so an unbalanced
/// stream is representable and is rejected by the parser.
#[derive(Debug, PartialEq, Eq)]
pub enum Tok {
    Ident(String),
    Lit(String),
    Punct(char),
    Open(Delim),
    Close(Delim),
}

impl Clone for Tok {
    fn clone(&self) -> (r: Tok)
        ensures
            r == *self,
    {
        match self {
            Tok::Ident(s) => Tok::Ident(s.clone()),
            Tok::Lit(s) => Tok::Lit(s.clone()),
            Tok::Punct(c) => Tok::Punct(*c),
            Tok::Open(d) => Tok::Open(*d),
            Tok::Close(d) => Tok::Close(*d),
        }
    }
}

/// True when the token is an identifier spelled `kw`.
pub open spec fn is_kw(t: Tok, kw: Seq<char>) -> bool {
    t matches Tok::Ident(s) && s@ == kw
}

/// True when the token is the punctuation character `c`.
pub open spec fn is_punct(t: Tok, c: char) -> bool {
    t matches Tok::Punct(p) && p == c
}

/// Relies on `str`'s `PartialEq`: two string slices are equal exactly when
/// their character sequences are.
#[verifier::external_body]
pub(crate) fn str_eq(a: &str, b: &str) -> (r: bool)
    ensures
        r == (a@ == b@),
{
    a == b
}

/// Executable twin of [`is_kw`].
pub fn tok_is_kw(t: &Tok, kw: &str) -> (r: bool)
    ensures
        r == is_kw(*t, kw@),
{
    match t {
        Tok::Ident(s) => str_eq(s.as_str(), kw),
        _ => false,
    }
}

/// Executable twin of [`is_punct`].
pub fn tok_is_punct(t: &Tok, c: char) -> (r: bool)
    ensures
        r == is_punct(*t, c),
{
    match t {
        Tok::Punct(p) => *p == c,
        _ => false,
    }
}

/// Copies a run of tokens.
pub fn clone_toks(v: &Vec<Tok>) -> (r: Vec<Tok>)
    ensures
        r@ == v@,
{
    let mut r: Vec<Tok> = Vec::new();
    let mut i: usize = 0;
    while i < v.len()
        invariant
            i <= v.len(),
            r@ == v@.take(i as int),
        decreases v.len() - i,
    {
        r.push(v[i].clone());
        proof {
            assert(v@.take(i + 1 as int) =~= v@.take(i as int).push(v@[i as int]));
        }
        i = i + 1;
    }
    proof {
        assert(v@.take(v.len() as int) =~= v@);
    }
    r
}

} // verus!
