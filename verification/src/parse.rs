//! The grammar parser: from the token stream of one class declaration to a
//! [`ClassInfo`] tree, or a hard parse failure.
//!
//! Each executable parsing function mirrors a specification function over the
//! stream's view; its contract states that the two agree exactly, on accepted
//! and on rejected streams alike. The grammar:
//!
//! ```text
//! ClassDecl     := Access? Name ("extends" Chain)? "{" Member* "}"
//! Chain         := Name ("<" Chain)?
//! Member        := Field | Method | OverrideBlock | ImplBlock
//! Field         := Access? "let" Name ":" Type ";"
//! Method        := Access? "final"? "fn" Name "(" Params ")" ("->" Type)? Body
//! OverrideBlock := "override" Name "{" Method* "}"
//! ImplBlock     := "impl" Name "{" Method* "}"
//! ```
//!
//! Type, parameter and body tokens are taken verbatim; their own syntax is
//! left to the host type system, except that delimiters must balance.

use vstd::prelude::*;

use crate::classinfo::{
    ClassField, ClassFieldV, ClassInfo, ClassInfoV, Extend, FnDecl, FnDeclV, NamedFns, NamedFnsV,
    Param, ParamV, fields_view, fns_view, named_view, params_view,
};
use crate::token::{Delim, Tok, Vis, is_kw, is_punct, str_eq, tok_is_kw, tok_is_punct};

verus! {

/// Why a declaration was rejected. Parse failures are fatal: no partial
/// tree is ever produced.
#[derive(Clone, Copy, PartialEq, Eq, Structural, Debug)]
pub enum ParseError {
    /// A name was required and something else was found.
    ExpectedIdent,
    /// An identifier follows the class name but is not `extends`.
    ExpectedExtends,
    /// A brace-delimited body was required.
    ExpectedBody,
    /// A field is missing its `:` before the type.
    ExpectedColon,
    /// A field's type ran to the end of the stream without `;`.
    ExpectedSemi,
    /// The `fn` keyword was required.
    ExpectedFn,
    /// The `let` keyword was required.
    ExpectedLet,
    /// A type annotation is empty.
    EmptyType,
    /// A parameter list is malformed.
    MalformedParam,
    /// Delimiters do not balance.
    UnbalancedDelimiters,
    /// Tokens remain after the class body.
    TrailingTokens,
}

/// The model of an executable parse result, for stating that it matches the
/// specification parser's.
pub open spec fn vr<X: View>(r: Result<(X, usize), ParseError>) -> Result<(X::V, int), ParseError> {
    match r {
        Ok((x, j)) => Ok((x@, j as int)),
        Err(e) => Err(e),
    }
}

/// An optional leading accessibility modifier; absent means private.
pub open spec fn spec_vis(s: Seq<Tok>, i: int) -> (Vis, int) {
    if i < s.len() && is_kw(s[i], "pub"@) {
        (Vis::Public, i + 1)
    } else {
        (Vis::Private, i)
    }
}

fn parse_vis(toks: &Vec<Tok>, i: usize) -> (r: (Vis, usize))
    requires
        i <= toks@.len(),
    ensures
        (r.0, r.1 as int) == spec_vis(toks@, i as int),
        r.1 <= toks@.len(),
{
    if i < toks.len() && tok_is_kw(&toks[i], "pub") {
        (Vis::Public, i + 1)
    } else {
        (Vis::Private, i)
    }
}

/// The ancestor chain after `extends`: `Name ("<" Name)*`, nearest first.
pub open spec fn spec_parse_extend(s: Seq<Tok>, i: int) -> Result<(Seq<Seq<char>>, int), ParseError>
    decreases s.len() - i,
{
    if i >= s.len() {
        Err(ParseError::ExpectedIdent)
    } else {
        match s[i] {
            Tok::Ident(n) => {
                if i + 1 < s.len() && is_punct(s[i + 1], '<') {
                    match spec_parse_extend(s, i + 2) {
                        Ok((rest, j)) => Ok((seq![n@] + rest, j)),
                        Err(e) => Err(e),
                    }
                } else {
                    Ok((seq![n@], i + 1))
                }
            },
            _ => Err(ParseError::ExpectedIdent),
        }
    }
}

pub(crate) fn parse_extend(toks: &Vec<Tok>, i: usize) -> (r: Result<(Extend, usize), ParseError>)
    requires
        i <= toks@.len(),
    ensures
        vr(r) == spec_parse_extend(toks@, i as int),
        r matches Ok(p) ==> p.1 <= toks@.len(),
    decreases toks@.len() - i,
{
    if i >= toks.len() {
        return Err(ParseError::ExpectedIdent);
    }
    match &toks[i] {
        Tok::Ident(n) => {
            if i + 1 < toks.len() && tok_is_punct(&toks[i + 1], '<') {
                match parse_extend(toks, i + 2) {
                    Ok((rest, j)) => Ok((
                        Extend { name: n.clone(), extend: Some(Box::new(rest)) },
                        j,
                    )),
                    Err(e) => Err(e),
                }
            } else {
                Ok((Extend { name: n.clone(), extend: None }, i + 1))
            }
        },
        _ => Err(ParseError::ExpectedIdent),
    }
}

/// The interior of a delimited group: tokens up to the closer matching the
/// opener already consumed. `stack` holds the delimiters still open,
/// outermost first; the scan fails on a mismatched closer or if the stream
/// ends first.
pub open spec fn spec_scan_close(s: Seq<Tok>, i: int, stack: Seq<Delim>) -> Result<
    (Seq<Tok>, int),
    ParseError,
>
    decreases s.len() - i,
{
    if stack.len() == 0 {
        Err(ParseError::UnbalancedDelimiters)
    } else if i >= s.len() {
        Err(ParseError::UnbalancedDelimiters)
    } else {
        match s[i] {
            Tok::Open(d) => match spec_scan_close(s, i + 1, stack.push(d)) {
                Ok((rest, j)) => Ok((seq![s[i]] + rest, j)),
                Err(e) => Err(e),
            },
            Tok::Close(d) => {
                if d == stack.last() {
                    if stack.len() == 1 {
                        Ok((Seq::empty(), i + 1))
                    } else {
                        match spec_scan_close(s, i + 1, stack.drop_last()) {
                            Ok((rest, j)) => Ok((seq![s[i]] + rest, j)),
                            Err(e) => Err(e),
                        }
                    }
                } else {
                    Err(ParseError::UnbalancedDelimiters)
                }
            },
            _ => match spec_scan_close(s, i + 1, stack) {
                Ok((rest, j)) => Ok((seq![s[i]] + rest, j)),
                Err(e) => Err(e),
            },
        }
    }
}

fn scan_close(toks: &Vec<Tok>, i: usize, stack: Vec<Delim>) -> (r: Result<
    (Vec<Tok>, usize),
    ParseError,
>)
    requires
        i <= toks@.len(),
    ensures
        vr(r) == spec_scan_close(toks@, i as int, stack@),
        r matches Ok(p) ==> p.1 <= toks@.len(),
    decreases toks@.len() - i,
{
    if stack.len() == 0 {
        return Err(ParseError::UnbalancedDelimiters);
    }
    if i >= toks.len() {
        return Err(ParseError::UnbalancedDelimiters);
    }
    match &toks[i] {
        Tok::Open(d) => {
            let d = *d;
            let mut stack2 = stack;
            stack2.push(d);
            match scan_close(toks, i + 1, stack2) {
                Ok((mut rest, j)) => {
                    let ghost rest0 = rest@;
                    rest.insert(0, toks[i].clone());
                    proof {
                        assert(rest@ =~= seq![toks@[i as int]] + rest0);
                    }
                    Ok((rest, j))
                },
                Err(e) => Err(e),
            }
        },
        Tok::Close(d) => {
            let d = *d;
            if d == stack[stack.len() - 1] {
                if stack.len() == 1 {
                    Ok((Vec::new(), i + 1))
                } else {
                    let mut stack2 = stack;
                    let ghost stack0 = stack2@;
                    stack2.pop();
                    proof {
                        assert(stack2@ =~= stack0.drop_last());
                    }
                    match scan_close(toks, i + 1, stack2) {
                        Ok((mut rest, j)) => {
                            let ghost rest0 = rest@;
                            rest.insert(0, toks[i].clone());
                            proof {
                                assert(rest@ =~= seq![toks@[i as int]] + rest0);
                            }
                            Ok((rest, j))
                        },
                        Err(e) => Err(e),
                    }
                }
            } else {
                Err(ParseError::UnbalancedDelimiters)
            }
        },
        _ => {
            match scan_close(toks, i + 1, stack) {
                Ok((mut rest, j)) => {
                    let ghost rest0 = rest@;
                    rest.insert(0, toks[i].clone());
                    proof {
                        assert(rest@ =~= seq![toks@[i as int]] + rest0);
                    }
                    Ok((rest, j))
                },
                Err(e) => Err(e),
            }
        },
    }
}

/// A whole delimited group: expects `Open(d)` at `i`, yields the interior and
/// the position after the matching closer; `err` is reported when the opener
/// itself is missing.
pub open spec fn spec_scan_group(s: Seq<Tok>, i: int, d: Delim, err: ParseError) -> Result<
    (Seq<Tok>, int),
    ParseError,
> {
    if i < s.len() && s[i] == Tok::Open(d) {
        spec_scan_close(s, i + 1, seq![d])
    } else {
        Err(err)
    }
}

fn scan_group(toks: &Vec<Tok>, i: usize, d: Delim, err: ParseError) -> (r: Result<
    (Vec<Tok>, usize),
    ParseError,
>)
    requires
        i <= toks@.len(),
    ensures
        vr(r) == spec_scan_group(toks@, i as int, d, err),
        r matches Ok(p) ==> p.1 <= toks@.len(),
{
    let opener_here = if i < toks.len() {
        match &toks[i] {
            Tok::Open(d2) => *d2 == d,
            _ => false,
        }
    } else {
        false
    };
    if opener_here {
        let mut stack: Vec<Delim> = Vec::new();
        stack.push(d);
        proof {
            assert(stack@ =~= seq![d]);
        }
        scan_close(toks, i + 1, stack)
    } else {
        Err(err)
    }
}

/// A field's type: tokens up to the `;` that ends the field, delimiters
/// balanced; the `;` is consumed but not kept.
pub open spec fn spec_scan_semi(s: Seq<Tok>, i: int, stack: Seq<Delim>) -> Result<
    (Seq<Tok>, int),
    ParseError,
>
    decreases s.len() - i,
{
    if i >= s.len() {
        Err(ParseError::ExpectedSemi)
    } else {
        match s[i] {
            Tok::Punct(c) => {
                if c == ';' && stack.len() == 0 {
                    Ok((Seq::empty(), i + 1))
                } else {
                    match spec_scan_semi(s, i + 1, stack) {
                        Ok((rest, j)) => Ok((seq![s[i]] + rest, j)),
                        Err(e) => Err(e),
                    }
                }
            },
            Tok::Open(d) => match spec_scan_semi(s, i + 1, stack.push(d)) {
                Ok((rest, j)) => Ok((seq![s[i]] + rest, j)),
                Err(e) => Err(e),
            },
            Tok::Close(d) => {
                if stack.len() > 0 && d == stack.last() {
                    match spec_scan_semi(s, i + 1, stack.drop_last()) {
                        Ok((rest, j)) => Ok((seq![s[i]] + rest, j)),
                        Err(e) => Err(e),
                    }
                } else {
                    Err(ParseError::UnbalancedDelimiters)
                }
            },
            _ => match spec_scan_semi(s, i + 1, stack) {
                Ok((rest, j)) => Ok((seq![s[i]] + rest, j)),
                Err(e) => Err(e),
            },
        }
    }
}

fn scan_semi(toks: &Vec<Tok>, i: usize, stack: Vec<Delim>) -> (r: Result<
    (Vec<Tok>, usize),
    ParseError,
>)
    requires
        i <= toks@.len(),
    ensures
        vr(r) == spec_scan_semi(toks@, i as int, stack@),
        r matches Ok(p) ==> p.1 <= toks@.len(),
    decreases toks@.len() - i,
{
    if i >= toks.len() {
        return Err(ParseError::ExpectedSemi);
    }
    let step = match &toks[i] {
        Tok::Punct(c) => {
            if *c == ';' && stack.len() == 0 {
                return Ok((Vec::new(), i + 1));
            }
            None
        },
        Tok::Open(d) => Some(Some(*d)),
        Tok::Close(d) => {
            if stack.len() > 0 && *d == stack[stack.len() - 1] {
                Some(None)
            } else {
                return Err(ParseError::UnbalancedDelimiters);
            }
        },
        _ => None,
    };
    let mut stack2 = stack;
    match step {
        Some(Some(d)) => stack2.push(d),
        Some(None) => {
            stack2.pop();
        },
        None => (),
    }
    match scan_semi(toks, i + 1, stack2) {
        Ok((mut rest, j)) => {
            let ghost rest0 = rest@;
            rest.insert(0, toks[i].clone());
            proof {
                assert(rest@ =~= seq![toks@[i as int]] + rest0);
            }
            Ok((rest, j))
        },
        Err(e) => Err(e),
    }
}

/// A return type: tokens up to, and not including, the `{` that opens the
/// method body.
pub open spec fn spec_scan_until_brace(s: Seq<Tok>, i: int) -> Result<(Seq<Tok>, int), ParseError>
    decreases s.len() - i,
{
    if i >= s.len() {
        Err(ParseError::ExpectedBody)
    } else if s[i] == Tok::Open(Delim::Brace) {
        Ok((Seq::empty(), i))
    } else {
        match spec_scan_until_brace(s, i + 1) {
            Ok((rest, j)) => Ok((seq![s[i]] + rest, j)),
            Err(e) => Err(e),
        }
    }
}

fn scan_until_brace(toks: &Vec<Tok>, i: usize) -> (r: Result<(Vec<Tok>, usize), ParseError>)
    requires
        i <= toks@.len(),
    ensures
        vr(r) == spec_scan_until_brace(toks@, i as int),
        r matches Ok(p) ==> p.1 <= toks@.len(),
    decreases toks@.len() - i,
{
    if i >= toks.len() {
        return Err(ParseError::ExpectedBody);
    }
    let at_brace = match &toks[i] {
        Tok::Open(d) => *d == Delim::Brace,
        _ => false,
    };
    if at_brace {
        Ok((Vec::new(), i))
    } else {
        match scan_until_brace(toks, i + 1) {
            Ok((mut rest, j)) => {
                let ghost rest0 = rest@;
                rest.insert(0, toks[i].clone());
                proof {
                    assert(rest@ =~= seq![toks@[i as int]] + rest0);
                }
                Ok((rest, j))
            },
            Err(e) => Err(e),
        }
    }
}

/// A parameter chunk: tokens up to a top-level `,` (consumed, not kept) or to
/// the end of the list, delimiters balanced.
pub open spec fn spec_scan_comma(s: Seq<Tok>, i: int, stack: Seq<Delim>) -> Result<
    (Seq<Tok>, int),
    ParseError,
>
    decreases s.len() - i,
{
    if i >= s.len() {
        if stack.len() == 0 {
            Ok((Seq::empty(), i))
        } else {
            Err(ParseError::UnbalancedDelimiters)
        }
    } else {
        match s[i] {
            Tok::Punct(c) => {
                if c == ',' && stack.len() == 0 {
                    Ok((Seq::empty(), i + 1))
                } else {
                    match spec_scan_comma(s, i + 1, stack) {
                        Ok((rest, j)) => Ok((seq![s[i]] + rest, j)),
                        Err(e) => Err(e),
                    }
                }
            },
            Tok::Open(d) => match spec_scan_comma(s, i + 1, stack.push(d)) {
                Ok((rest, j)) => Ok((seq![s[i]] + rest, j)),
                Err(e) => Err(e),
            },
            Tok::Close(d) => {
                if stack.len() > 0 && d == stack.last() {
                    match spec_scan_comma(s, i + 1, stack.drop_last()) {
                        Ok((rest, j)) => Ok((seq![s[i]] + rest, j)),
                        Err(e) => Err(e),
                    }
                } else {
                    Err(ParseError::UnbalancedDelimiters)
                }
            },
            _ => match spec_scan_comma(s, i + 1, stack) {
                Ok((rest, j)) => Ok((seq![s[i]] + rest, j)),
                Err(e) => Err(e),
            },
        }
    }
}

fn scan_comma(toks: &Vec<Tok>, i: usize, stack: Vec<Delim>) -> (r: Result<
    (Vec<Tok>, usize),
    ParseError,
>)
    requires
        i <= toks@.len(),
    ensures
        vr(r) == spec_scan_comma(toks@, i as int, stack@),
        r matches Ok(p) ==> p.1 <= toks@.len(),
    decreases toks@.len() - i,
{
    if i >= toks.len() {
        if stack.len() == 0 {
            return Ok((Vec::new(), i));
        } else {
            return Err(ParseError::UnbalancedDelimiters);
        }
    }
    let step = match &toks[i] {
        Tok::Punct(c) => {
            if *c == ',' && stack.len() == 0 {
                return Ok((Vec::new(), i + 1));
            }
            None
        },
        Tok::Open(d) => Some(Some(*d)),
        Tok::Close(d) => {
            if stack.len() > 0 && *d == stack[stack.len() - 1] {
                Some(None)
            } else {
                return Err(ParseError::UnbalancedDelimiters);
            }
        },
        _ => None,
    };
    let mut stack2 = stack;
    let ghost stack0 = stack2@;
    match step {
        Some(Some(d)) => stack2.push(d),
        Some(None) => {
            stack2.pop();
            proof {
                assert(stack2@ =~= stack0.drop_last());
            }
        },
        None => (),
    }
    match scan_comma(toks, i + 1, stack2) {
        Ok((mut rest, j)) => {
            let ghost rest0 = rest@;
            rest.insert(0, toks[i].clone());
            proof {
                assert(rest@ =~= seq![toks@[i as int]] + rest0);
            }
            Ok((rest, j))
        },
        Err(e) => Err(e),
    }
}

/// True when a parameter chunk is a self-receiver: `self`, `&self`,
/// `mut self` or `&mut self`.
pub open spec fn spec_is_receiver_chunk(c: Seq<Tok>) -> bool {
    ||| (c.len() == 1 && is_kw(c[0], "self"@))
    ||| (c.len() == 2 && is_punct(c[0], '&') && is_kw(c[1], "self"@))
    ||| (c.len() == 2 && is_kw(c[0], "mut"@) && is_kw(c[1], "self"@))
    ||| (c.len() == 3 && is_punct(c[0], '&') && is_kw(c[1], "mut"@) && is_kw(c[2], "self"@))
}

fn is_receiver_chunk(c: &Vec<Tok>) -> (r: bool)
    ensures
        r == spec_is_receiver_chunk(c@),
{
    if c.len() == 1 {
        tok_is_kw(&c[0], "self")
    } else if c.len() == 2 {
        (tok_is_punct(&c[0], '&') && tok_is_kw(&c[1], "self")) || (tok_is_kw(&c[0], "mut")
            && tok_is_kw(&c[1], "self"))
    } else if c.len() == 3 {
        tok_is_punct(&c[0], '&') && tok_is_kw(&c[1], "mut") && tok_is_kw(&c[2], "self")
    } else {
        false
    }
}

/// The parameter list inside the parentheses of a method declaration:
/// comma-separated chunks, each classified as receiver or typed, a trailing
/// comma allowed, an empty chunk rejected.
pub open spec fn spec_parse_params(s: Seq<Tok>, i: int) -> Result<Seq<ParamV>, ParseError>
    decreases s.len() - i,
{
    if i >= s.len() {
        Ok(Seq::empty())
    } else {
        match spec_scan_comma(s, i, Seq::empty()) {
            Ok((chunk, j)) => {
                if chunk.len() == 0 {
                    Err(ParseError::MalformedParam)
                } else if j <= i || j > s.len() {
                    // never reached: the chunk scan advances; needed for termination
                    Err(ParseError::MalformedParam)
                } else {
                    let p = if spec_is_receiver_chunk(chunk) {
                        ParamV::Receiver(chunk)
                    } else {
                        ParamV::Typed(chunk)
                    };
                    match spec_parse_params(s, j) {
                        Ok(rest) => Ok(seq![p] + rest),
                        Err(e) => Err(e),
                    }
                }
            },
            Err(e) => Err(e),
        }
    }
}

pub(crate) fn parse_params(toks: &Vec<Tok>, i: usize) -> (r: Result<Vec<Param>, ParseError>)
    requires
        i <= toks@.len(),
    ensures
        spec_parse_params(toks@, i as int) matches Ok(ps) ==> r matches Ok(v) && params_view(v@)
            == ps,
        spec_parse_params(toks@, i as int) matches Err(e) ==> r matches Err(e2) && e2 == e,
    decreases toks@.len() - i,
{
    if i >= toks.len() {
        return Ok(Vec::new());
    }
    match scan_comma(toks, i, Vec::new()) {
        Ok((chunk, j)) => {
            if chunk.len() == 0 {
                Err(ParseError::MalformedParam)
            } else if j <= i || j > toks.len() {
                // never reached: the chunk scan advances; needed for termination
                Err(ParseError::MalformedParam)
            } else {
                let p = if is_receiver_chunk(&chunk) {
                    Param::Receiver(chunk)
                } else {
                    Param::Typed(chunk)
                };
                match parse_params(toks, j) {
                    Ok(mut rest) => {
                        let ghost rest0 = rest@;
                        rest.insert(0, p);
                        proof {
                            assert(params_view(rest@) =~= seq![rest@[0]@] + params_view(rest0));
                        }
                        Ok(rest)
                    },
                    Err(e) => Err(e),
                }
            }
        },
        Err(e) => Err(e),
    }
}

/// One method declaration: `Access? "final"? "fn" Name "(" Params ")"
/// ("->" Type)? Body`.
pub open spec fn spec_parse_fn_decl(s: Seq<Tok>, i: int) -> Result<(FnDeclV, int), ParseError> {
    let (vis, i1) = spec_vis(s, i);
    let isf = i1 < s.len() && is_kw(s[i1], "final"@);
    let i2 = if isf {
        i1 + 1
    } else {
        i1
    };
    if !(i2 < s.len() && is_kw(s[i2], "fn"@)) {
        Err(ParseError::ExpectedFn)
    } else if i2 + 1 >= s.len() {
        Err(ParseError::ExpectedIdent)
    } else {
        match s[i2 + 1] {
            Tok::Ident(n) => match spec_scan_group(s, i2 + 2, Delim::Paren, ParseError::MalformedParam) {
                Ok((ptoks, i3)) => match spec_parse_params(ptoks, 0) {
                    Ok(params) => {
                        if i3 + 1 < s.len() && is_punct(s[i3], '-') && is_punct(s[i3 + 1], '>') {
                            match spec_scan_until_brace(s, i3 + 2) {
                                Ok((ty, i4)) => {
                                    if ty.len() == 0 {
                                        Err(ParseError::EmptyType)
                                    } else {
                                        match spec_scan_group(
                                            s,
                                            i4,
                                            Delim::Brace,
                                            ParseError::ExpectedBody,
                                        ) {
                                            Ok((body, i5)) => Ok((
                                                FnDeclV {
                                                    vis,
                                                    is_final: isf,
                                                    name: n@,
                                                    params,
                                                    ret: ty,
                                                    body,
                                                },
                                                i5,
                                            )),
                                            Err(e) => Err(e),
                                        }
                                    }
                                },
                                Err(e) => Err(e),
                            }
                        } else {
                            match spec_scan_group(s, i3, Delim::Brace, ParseError::ExpectedBody) {
                                Ok((body, i5)) => Ok((
                                    FnDeclV {
                                        vis,
                                        is_final: isf,
                                        name: n@,
                                        params,
                                        ret: Seq::empty(),
                                        body,
                                    },
                                    i5,
                                )),
                                Err(e) => Err(e),
                            }
                        }
                    },
                    Err(e) => Err(e),
                },
                Err(e) => Err(e),
            },
            _ => Err(ParseError::ExpectedIdent),
        }
    }
}

pub(crate) fn parse_fn_decl(toks: &Vec<Tok>, i: usize) -> (r: Result<(FnDecl, usize), ParseError>)
    requires
        i <= toks@.len(),
    ensures
        vr(r) == spec_parse_fn_decl(toks@, i as int),
        r matches Ok(p) ==> p.1 <= toks@.len(),
{
    let (vis, i1) = parse_vis(toks, i);
    let isf = i1 < toks.len() && tok_is_kw(&toks[i1], "final");
    let i2 = if isf {
        i1 + 1
    } else {
        i1
    };
    if !(i2 < toks.len() && tok_is_kw(&toks[i2], "fn")) {
        return Err(ParseError::ExpectedFn);
    }
    if i2 + 1 >= toks.len() {
        return Err(ParseError::ExpectedIdent);
    }
    let name = match &toks[i2 + 1] {
        Tok::Ident(n) => n.clone(),
        _ => {
            return Err(ParseError::ExpectedIdent);
        },
    };
    match scan_group(toks, i2 + 2, Delim::Paren, ParseError::MalformedParam) {
        Ok((ptoks, i3)) => match parse_params(&ptoks, 0) {
            Ok(params) => {
                if i3 < toks.len() && i3 + 1 < toks.len() && tok_is_punct(&toks[i3], '-')
                    && tok_is_punct(&toks[i3 + 1], '>') {
                    match scan_until_brace(toks, i3 + 2) {
                        Ok((ty, i4)) => {
                            if ty.len() == 0 {
                                Err(ParseError::EmptyType)
                            } else {
                                match scan_group(toks, i4, Delim::Brace, ParseError::ExpectedBody) {
                                    Ok((body, i5)) => Ok((
                                        FnDecl { vis, is_final: isf, name, params, ret: ty, body },
                                        i5,
                                    )),
                                    Err(e) => Err(e),
                                }
                            }
                        },
                        Err(e) => Err(e),
                    }
                } else {
                    match scan_group(toks, i3, Delim::Brace, ParseError::ExpectedBody) {
                        Ok((body, i5)) => Ok((
                            FnDecl { vis, is_final: isf, name, params, ret: Vec::new(), body },
                            i5,
                        )),
                        Err(e) => Err(e),
                    }
                }
            },
            Err(e) => Err(e),
        },
        Err(e) => Err(e),
    }
}

/// One field: `Access? "let" Name ":" Type ";"`.
pub open spec fn spec_parse_field(s: Seq<Tok>, i: int) -> Result<(ClassFieldV, int), ParseError> {
    let (vis, i1) = spec_vis(s, i);
    if !(i1 < s.len() && is_kw(s[i1], "let"@)) {
        Err(ParseError::ExpectedLet)
    } else if i1 + 1 >= s.len() {
        Err(ParseError::ExpectedIdent)
    } else {
        match s[i1 + 1] {
            Tok::Ident(n) => {
                if !(i1 + 2 < s.len() && is_punct(s[i1 + 2], ':')) {
                    Err(ParseError::ExpectedColon)
                } else {
                    match spec_scan_semi(s, i1 + 3, Seq::empty()) {
                        Ok((ty, j)) => {
                            if ty.len() == 0 {
                                Err(ParseError::EmptyType)
                            } else {
                                Ok((ClassFieldV { vis, name: n@, ty }, j))
                            }
                        },
                        Err(e) => Err(e),
                    }
                }
            },
            _ => Err(ParseError::ExpectedIdent),
        }
    }
}

pub(crate) fn parse_field(toks: &Vec<Tok>, i: usize) -> (r: Result<(ClassField, usize), ParseError>)
    requires
        i <= toks@.len(),
    ensures
        vr(r) == spec_parse_field(toks@, i as int),
        r matches Ok(p) ==> p.1 <= toks@.len(),
{
    let (vis, i1) = parse_vis(toks, i);
    if !(i1 < toks.len() && tok_is_kw(&toks[i1], "let")) {
        return Err(ParseError::ExpectedLet);
    }
    if i1 + 1 >= toks.len() {
        return Err(ParseError::ExpectedIdent);
    }
    let name = match &toks[i1 + 1] {
        Tok::Ident(n) => n.clone(),
        _ => {
            return Err(ParseError::ExpectedIdent);
        },
    };
    if !(i1 + 2 < toks.len() && tok_is_punct(&toks[i1 + 2], ':')) {
        return Err(ParseError::ExpectedColon);
    }
    match scan_semi(toks, i1 + 3, Vec::new()) {
        Ok((ty, j)) => {
            if ty.len() == 0 {
                Err(ParseError::EmptyType)
            } else {
                Ok((ClassField { vis, name, ty }, j))
            }
        },
        Err(e) => Err(e),
    }
}

/// The methods of an `override` or `impl` block, parsed to the end of the
/// block's interior.
pub open spec fn spec_parse_fns(s: Seq<Tok>, i: int, acc: Seq<FnDeclV>) -> Result<
    Seq<FnDeclV>,
    ParseError,
>
    decreases s.len() - i,
{
    if i >= s.len() {
        Ok(acc)
    } else {
        match spec_parse_fn_decl(s, i) {
            Ok((f, j)) => {
                if j <= i || j > s.len() {
                    // never reached: a declaration consumes tokens; needed for termination
                    Err(ParseError::TrailingTokens)
                } else {
                    spec_parse_fns(s, j, acc.push(f))
                }
            },
            Err(e) => Err(e),
        }
    }
}

pub(crate) fn parse_fns(toks: &Vec<Tok>, i: usize, acc: Vec<FnDecl>) -> (r: Result<
    Vec<FnDecl>,
    ParseError,
>)
    requires
        i <= toks@.len(),
    ensures
        spec_parse_fns(toks@, i as int, fns_view(acc@)) matches Ok(fs) ==> r matches Ok(v)
            && fns_view(v@) == fs,
        spec_parse_fns(toks@, i as int, fns_view(acc@)) matches Err(e) ==> r matches Err(e2) && e2
            == e,
    decreases toks@.len() - i,
{
    if i >= toks.len() {
        return Ok(acc);
    }
    match parse_fn_decl(toks, i) {
        Ok((f, j)) => {
            if j <= i || j > toks.len() {
                // never reached: a declaration consumes tokens; needed for termination
                Err(ParseError::TrailingTokens)
            } else {
                let mut acc = acc;
                let ghost acc0 = acc@;
                acc.push(f);
                proof {
                    assert(fns_view(acc@) =~= fns_view(acc0).push(acc@.last()@));
                }
                parse_fns(toks, j, acc)
            }
        },
        Err(e) => Err(e),
    }
}

/// The index of the first entry named `name`, from position `i` on; `-1`
/// when there is none.
pub open spec fn spec_find_from(m: Seq<NamedFnsV>, name: Seq<char>, i: int) -> int
    decreases m.len() - i,
{
    if i < 0 || i >= m.len() {
        -1
    } else if m[i].name == name {
        i
    } else {
        spec_find_from(m, name, i + 1)
    }
}

/// The methods recorded under `name`; empty when the name has no entry.
pub open spec fn spec_lookup_fns(m: Seq<NamedFnsV>, name: Seq<char>) -> Seq<FnDeclV> {
    let k = spec_find_from(m, name, 0);
    if k < 0 {
        Seq::empty()
    } else {
        m[k].fns
    }
}

/// Recording methods under `name`: appended to the existing entry when the
/// name occurred before (merge, not replace), else added as a new entry at
/// the end.
pub open spec fn spec_merge_entry(m: Seq<NamedFnsV>, name: Seq<char>, fns: Seq<FnDeclV>) -> Seq<
    NamedFnsV,
> {
    let k = spec_find_from(m, name, 0);
    if k < 0 {
        m.push(NamedFnsV { name, fns })
    } else {
        m.update(k, NamedFnsV { name: m[k].name, fns: m[k].fns + fns })
    }
}

fn find_from(m: &Vec<NamedFns>, name: &String, i: usize) -> (r: Option<usize>)
    requires
        i <= m@.len(),
    ensures
        r matches Some(k) ==> (k as int) < m@.len() && spec_find_from(named_view(m@), name@, i as int)
            == k as int,
        r matches None ==> spec_find_from(named_view(m@), name@, i as int) == -1,
    decreases m@.len() - i,
{
    if i >= m.len() {
        return None;
    }
    proof {
        assert(named_view(m@)[i as int] == m@[i as int]@);
    }
    if str_eq(m[i].name.as_str(), name.as_str()) {
        Some(i)
    } else {
        find_from(m, name, i + 1)
    }
}

pub(crate) fn lookup_fns(m: &Vec<NamedFns>, name: &String) -> (r: Vec<FnDecl>)
    ensures
        fns_view(r@) == spec_lookup_fns(named_view(m@), name@),
{
    match find_from(m, name, 0) {
        Some(k) => {
            proof {
                assert(named_view(m@)[k as int] == m@[k as int]@);
            }
            crate::classinfo::clone_fns(&m[k].fns)
        },
        None => Vec::new(),
    }
}

fn merge_entry(m: Vec<NamedFns>, name: String, fns: Vec<FnDecl>) -> (r: Vec<NamedFns>)
    ensures
        named_view(r@) == spec_merge_entry(named_view(m@), name@, fns_view(fns@)),
{
    let ghost m0 = m@;
    let ghost fns0 = fns@;
    let mut m = m;
    let mut fns = fns;
    match find_from(&m, &name, 0) {
        Some(k) => {
            let mut entry = m.remove(k);
            let ghost entry0 = entry.fns@;
            entry.fns.append(&mut fns);
            proof {
                assert(named_view(m0)[k as int] == m0[k as int]@);
                assert(fns_view(entry.fns@) =~= fns_view(entry0) + fns_view(fns0));
            }
            m.insert(k, entry);
            proof {
                let target = spec_merge_entry(named_view(m0), name@, fns_view(fns0));
                assert(m@ =~= m0.update(k as int, m@[k as int]));
                assert forall|j: int| 0 <= j < m@.len() implies named_view(m@)[j] == target[j] by {
                    assert(named_view(m@)[j] == m@[j]@);
                    if j == k as int {
                        assert(m@[j]@.name == named_view(m0)[j].name);
                        assert(m@[j]@.fns =~= named_view(m0)[j].fns + fns_view(fns0));
                    } else {
                        assert(m@[j] == m0[j]);
                        assert(named_view(m0)[j] == m0[j]@);
                    }
                }
                assert(named_view(m@) =~= target);
            }
            m
        },
        None => {
            m.push(NamedFns { name, fns });
            proof {
                assert(named_view(m@) =~= named_view(m0).push(m@.last()@));
            }
            m
        },
    }
}

/// What the members of a class body accumulate to: fields and methods in
/// declaration order, override and auxiliary-capability entries in
/// first-occurrence order.
#[verifier::ext_equal]
pub ghost struct MembersV {
    pub fields: Seq<ClassFieldV>,
    pub fn_decls: Seq<FnDeclV>,
    pub overrides: Seq<NamedFnsV>,
    pub impls: Seq<NamedFnsV>,
}

pub struct Members {
    pub fields: Vec<ClassField>,
    pub fn_decls: Vec<FnDecl>,
    pub overrides: Vec<NamedFns>,
    pub impls: Vec<NamedFns>,
}

impl View for Members {
    type V = MembersV;

    open spec fn view(&self) -> MembersV {
        MembersV {
            fields: fields_view(self.fields@),
            fn_decls: fns_view(self.fn_decls@),
            overrides: named_view(self.overrides@),
            impls: named_view(self.impls@),
        }
    }
}

/// Nothing accumulated yet.
pub open spec fn spec_empty_members() -> MembersV {
    MembersV {
        fields: Seq::empty(),
        fn_decls: Seq::empty(),
        overrides: Seq::empty(),
        impls: Seq::empty(),
    }
}

/// The members of a class body, dispatched line by line: an `override` block,
/// an `impl` block, a field (`let`, or `pub` directly followed by `let`), or
/// else a method declaration. A line matching no pattern fails the parse.
pub open spec fn spec_parse_members(s: Seq<Tok>, i: int, acc: MembersV) -> Result<
    MembersV,
    ParseError,
>
    decreases s.len() - i,
{
    if i >= s.len() {
        Ok(acc)
    } else if is_kw(s[i], "override"@) || is_kw(s[i], "impl"@) {
        if i + 1 >= s.len() {
            Err(ParseError::ExpectedIdent)
        } else {
            match s[i + 1] {
                Tok::Ident(n) => match spec_scan_group(
                    s,
                    i + 2,
                    Delim::Brace,
                    ParseError::ExpectedBody,
                ) {
                    Ok((inner, j)) => match spec_parse_fns(inner, 0, Seq::empty()) {
                        Ok(fns) => {
                            if j <= i || j > s.len() {
                                // never reached: the block consumes tokens; needed for termination
                                Err(ParseError::TrailingTokens)
                            } else {
                                let acc2 = if is_kw(s[i], "override"@) {
                                    MembersV {
                                        fields: acc.fields,
                                        fn_decls: acc.fn_decls,
                                        overrides: spec_merge_entry(acc.overrides, n@, fns),
                                        impls: acc.impls,
                                    }
                                } else {
                                    MembersV {
                                        fields: acc.fields,
                                        fn_decls: acc.fn_decls,
                                        overrides: acc.overrides,
                                        impls: spec_merge_entry(acc.impls, n@, fns),
                                    }
                                };
                                spec_parse_members(s, j, acc2)
                            }
                        },
                        Err(e) => Err(e),
                    },
                    Err(e) => Err(e),
                },
                _ => Err(ParseError::ExpectedIdent),
            }
        }
    } else if is_kw(s[i], "let"@) || (is_kw(s[i], "pub"@) && i + 1 < s.len() && is_kw(
        s[i + 1],
        "let"@,
    )) {
        match spec_parse_field(s, i) {
            Ok((f, j)) => {
                if j <= i || j > s.len() {
                    // never reached: a field consumes tokens; needed for termination
                    Err(ParseError::TrailingTokens)
                } else {
                    spec_parse_members(
                        s,
                        j,
                        MembersV {
                            fields: acc.fields.push(f),
                            fn_decls: acc.fn_decls,
                            overrides: acc.overrides,
                            impls: acc.impls,
                        },
                    )
                }
            },
            Err(e) => Err(e),
        }
    } else {
        match spec_parse_fn_decl(s, i) {
            Ok((f, j)) => {
                if j <= i || j > s.len() {
                    // never reached: a declaration consumes tokens; needed for termination
                    Err(ParseError::TrailingTokens)
                } else {
                    spec_parse_members(
                        s,
                        j,
                        MembersV {
                            fields: acc.fields,
                            fn_decls: acc.fn_decls.push(f),
                            overrides: acc.overrides,
                            impls: acc.impls,
                        },
                    )
                }
            },
            Err(e) => Err(e),
        }
    }
}

fn parse_members(toks: &Vec<Tok>, i: usize, acc: Members) -> (r: Result<Members, ParseError>)
    requires
        i <= toks@.len(),
    ensures
        spec_parse_members(toks@, i as int, acc@) matches Ok(mv) ==> r matches Ok(m) && m@ == mv,
        spec_parse_members(toks@, i as int, acc@) matches Err(e) ==> r matches Err(e2) && e2 == e,
    decreases toks@.len() - i,
{
    if i >= toks.len() {
        return Ok(acc);
    }
    let is_override = tok_is_kw(&toks[i], "override");
    let is_impl = tok_is_kw(&toks[i], "impl");
    if is_override || is_impl {
        if i + 1 >= toks.len() {
            return Err(ParseError::ExpectedIdent);
        }
        let n = match &toks[i + 1] {
            Tok::Ident(n) => n.clone(),
            _ => {
                return Err(ParseError::ExpectedIdent);
            },
        };
        let empty_fns: Vec<FnDecl> = Vec::new();
        proof {
            assert(fns_view(empty_fns@) =~= Seq::<FnDeclV>::empty());
        }
        match scan_group(toks, i + 2, Delim::Brace, ParseError::ExpectedBody) {
            Ok((inner, j)) => match parse_fns(&inner, 0, empty_fns) {
                Ok(fns) => {
                    if j <= i || j > toks.len() {
                        // never reached: the block consumes tokens; needed for termination
                        Err(ParseError::TrailingTokens)
                    } else {
                        let Members { fields, fn_decls, overrides, impls } = acc;
                        let acc2 = if is_override {
                            Members {
                                fields,
                                fn_decls,
                                overrides: merge_entry(overrides, n, fns),
                                impls,
                            }
                        } else {
                            Members {
                                fields,
                                fn_decls,
                                overrides,
                                impls: merge_entry(impls, n, fns),
                            }
                        };
                        parse_members(toks, j, acc2)
                    }
                },
                Err(e) => Err(e),
            },
            Err(e) => Err(e),
        }
    } else if tok_is_kw(&toks[i], "let") || (tok_is_kw(&toks[i], "pub") && i + 1 < toks.len()
        && tok_is_kw(&toks[i + 1], "let")) {
        match parse_field(toks, i) {
            Ok((f, j)) => {
                if j <= i || j > toks.len() {
                    // never reached: a field consumes tokens; needed for termination
                    Err(ParseError::TrailingTokens)
                } else {
                    let mut acc = acc;
                    let ghost fields0 = acc.fields@;
                    acc.fields.push(f);
                    proof {
                        assert(fields_view(acc.fields@) =~= fields_view(fields0).push(
                            acc.fields@.last()@,
                        ));
                    }
                    parse_members(toks, j, acc)
                }
            },
            Err(e) => Err(e),
        }
    } else {
        match parse_fn_decl(toks, i) {
            Ok((f, j)) => {
                if j <= i || j > toks.len() {
                    // never reached: a declaration consumes tokens; needed for termination
                    Err(ParseError::TrailingTokens)
                } else {
                    let mut acc = acc;
                    let ghost fns0 = acc.fn_decls@;
                    acc.fn_decls.push(f);
                    proof {
                        assert(fns_view(acc.fn_decls@) =~= fns_view(fns0).push(
                            acc.fn_decls@.last()@,
                        ));
                    }
                    parse_members(toks, j, acc)
                }
            },
            Err(e) => Err(e),
        }
    }
}

/// One whole class declaration: `Access? Name ("extends" Chain)? "{" Member*
/// "}"`, the stream fully consumed. An identifier after the class name that
/// is not `extends` is rejected as such, a recoverable diagnostic rather
/// than an abort.
pub open spec fn spec_parse_class(s: Seq<Tok>) -> Result<ClassInfoV, ParseError> {
    let (vis, i0) = spec_vis(s, 0);
    if i0 >= s.len() {
        Err(ParseError::ExpectedIdent)
    } else {
        match s[i0] {
            Tok::Ident(n) => {
                let i1 = i0 + 1;
                let ext: Result<(Seq<Seq<char>>, int), ParseError> = if i1 < s.len() && s[i1]
                    matches Tok::Ident(_) {
                    if is_kw(s[i1], "extends"@) {
                        spec_parse_extend(s, i1 + 1)
                    } else {
                        Err(ParseError::ExpectedExtends)
                    }
                } else {
                    Ok((Seq::empty(), i1))
                };
                match ext {
                    Ok((chain, i2)) => match spec_scan_group(
                        s,
                        i2,
                        Delim::Brace,
                        ParseError::ExpectedBody,
                    ) {
                        Ok((inner, i3)) => {
                            if i3 != s.len() {
                                Err(ParseError::TrailingTokens)
                            } else {
                                match spec_parse_members(inner, 0, spec_empty_members()) {
                                    Ok(m) => Ok(
                                        ClassInfoV {
                                            vis,
                                            name: n@,
                                            extend: chain,
                                            fields: m.fields,
                                            fn_decls: m.fn_decls,
                                            overrides: m.overrides,
                                            impls: m.impls,
                                        },
                                    ),
                                    Err(e) => Err(e),
                                }
                            }
                        },
                        Err(e) => Err(e),
                    },
                    Err(e) => Err(e),
                }
            },
            _ => Err(ParseError::ExpectedIdent),
        }
    }
}

impl ClassInfo {
    /// Parses the token stream of one class declaration into its tree, or
    /// reports exactly the failure the specification grammar assigns to it.
    pub fn parse(toks: &Vec<Tok>) -> (r: Result<ClassInfo, ParseError>)
        ensures
            spec_parse_class(toks@) matches Ok(ci) ==> r matches Ok(c) && c@ == ci,
            spec_parse_class(toks@) matches Err(e) ==> r matches Err(e2) && e2 == e,
    {
        let (vis, i0) = parse_vis(toks, 0);
        if i0 >= toks.len() {
            return Err(ParseError::ExpectedIdent);
        }
        let name = match &toks[i0] {
            Tok::Ident(n) => n.clone(),
            _ => {
                return Err(ParseError::ExpectedIdent);
            },
        };
        let i1 = i0 + 1;
        let has_ident = i1 < toks.len() && (match &toks[i1] {
            Tok::Ident(_) => true,
            _ => false,
        });
        let (extend, i2) = if has_ident {
            if tok_is_kw(&toks[i1], "extends") {
                match parse_extend(toks, i1 + 1) {
                    Ok((e, j)) => (Some(e), j),
                    Err(e) => {
                        return Err(e);
                    },
                }
            } else {
                return Err(ParseError::ExpectedExtends);
            }
        } else {
            (None, i1)
        };
        match scan_group(toks, i2, Delim::Brace, ParseError::ExpectedBody) {
            Ok((inner, i3)) => {
                if i3 != toks.len() {
                    return Err(ParseError::TrailingTokens);
                }
                let empty = Members {
                    fields: Vec::new(),
                    fn_decls: Vec::new(),
                    overrides: Vec::new(),
                    impls: Vec::new(),
                };
                proof {
                    assert(empty@ =~~= spec_empty_members());
                }
                match parse_members(&inner, 0, empty) {
                    Ok(m) => Ok(
                        ClassInfo {
                            vis,
                            name,
                            extend,
                            fields: m.fields,
                            fn_decls: m.fn_decls,
                            overrides: m.overrides,
                            impls: m.impls,
                        },
                    ),
                    Err(e) => Err(e),
                }
            },
            Err(e) => Err(e),
        }
    }
}

} // verus!
