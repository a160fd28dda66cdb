//! The parser: mutually recursive descent over the token stream, one
//! procedure per grammar level, with speculative backtracking for curried
//! application.
//!
//! The cursor is an index into the token vector; a snapshot is the integer
//! itself, so a failed speculative parse leaves the remaining tokens exactly
//! as they were. Every procedure is proved against a mathematical mirror
//! (`sp_*`): a total specification-level parser over the token-stream view
//! that pins down the returned tree, the new cursor, and the error (message
//! and span) on every input.

use crate::ast::{
    defs_view, kd_left, kd_right, lemma_defs_view_push, lemma_tms_view, lemma_tms_view_push,
    lemma_tps_view, lemma_tps_view_push, opt_kd_view, opt_tp_view, tm_left, tm_right, tms_view,
    tp_left, tp_right, tps_view, DefS, ErrS, FernError, KdS, Pos, RawDef, RawKd, RawKind,
    RawTerm, RawTm, RawTp, RawType, Span, TmS, TpS, AST,
};
use crate::lex::{cols_ok, tok_text, view_toks, wf_toks, TokS, TokTp, Token, TokenS};
use vstd::prelude::*;
use vstd::string::StringExecFns;

verus! {

/// What parsing an optional kind annotation yields.
pub type KindAnnotRes = Result<(Option<RawKind>, usize), FernError>;

/// What parsing an optional type annotation yields.
pub type TypeAnnotRes = Result<(Option<RawType>, usize), FernError>;

/// The result holds this value and new cursor.
pub open spec fn res_ok<A>(r: Result<(A, int), ErrS>, x: A, j: int) -> bool {
    r == Ok::<(A, int), ErrS>((x, j))
}

/// The result holds this error.
pub open spec fn res_err<A>(r: Result<(A, int), ErrS>, e: ErrS) -> bool {
    r == Err::<(A, int), ErrS>(e)
}

/// The error value of specification branches that no in-range cursor can
/// reach.
pub open spec fn oob_err() -> ErrS {
    ErrS { msg: Seq::empty(), lb: Pos { line: 0, col: 0 }, rb: Pos { line: 0, col: 0 } }
}

/// Message of a required-token mismatch.
pub open spec fn mismatch_msg(expected: TokS, found: TokS) -> Seq<char> {
    "expected "@ + tok_text(expected) + " here but got "@ + tok_text(found)
}

/// Message of a token that cannot start the named grammar category.
pub open spec fn unexpected_msg(found: TokS, category: Seq<char>) -> Seq<char> {
    "unexpected token "@ + tok_text(found) + " when parsing a "@ + category
}

/// The program parse yields exactly these definitions.
pub open spec fn prog_ok(s: Seq<TokenS>, ds: Seq<DefS>) -> bool {
    sp_parse(s) == Ok::<Seq<DefS>, ErrS>(ds)
}

/// The program parse fails with exactly this error.
pub open spec fn prog_err(s: Seq<TokenS>, e: ErrS) -> bool {
    sp_parse(s) == Err::<Seq<DefS>, ErrS>(e)
}

/// The bare-type parse yields exactly this type.
pub open spec fn tp_prog_ok(s: Seq<TokenS>, t: TpS) -> bool {
    sp_parse_type(s) == Ok::<TpS, ErrS>(t)
}

/// The bare-type parse fails with exactly this error.
pub open spec fn tp_prog_err(s: Seq<TokenS>, e: ErrS) -> bool {
    sp_parse_type(s) == Err::<TpS, ErrS>(e)
}

/// Consume one required token or fail with a mismatch whose left bound is the
/// caller's anchor and whose right bound is the offending token's position.
pub open spec fn sp_drop(s: Seq<TokenS>, i: int, expected: TokS, lb: Pos) -> Result<int, ErrS> {
    if !(0 <= i < s.len()) {
        Err(oob_err())
    } else if s[i].tok == expected {
        Ok(i + 1)
    } else {
        Err(ErrS { msg: mismatch_msg(expected, s[i].tok), lb, rb: s[i].pos })
    }
}

/// Consume one identifier token or fail at its position.
pub open spec fn sp_var(s: Seq<TokenS>, i: int) -> Result<(Seq<char>, int), ErrS> {
    if !(0 <= i < s.len()) {
        Err(oob_err())
    } else {
        match s[i].tok {
            TokS::Var(w) => Ok((w, i + 1)),
            _ => Err(
                ErrS { msg: "expected an identifier here"@, lb: s[i].pos, rb: s[i].pos },
            ),
        }
    }
}

/// Kind atom: `*`, or a parenthesised kind.
pub open spec fn sp_kind2(s: Seq<TokenS>, i: int) -> Result<(KdS, int), ErrS>
    decreases s.len() - i, 0int,
{
    if !(0 <= i < s.len()) {
        Err(oob_err())
    } else {
        match s[i].tok {
            TokS::Star => Ok(
                (
                    KdS::Star {
                        lb: s[i].pos,
                        rb: Pos { line: s[i].pos.line, col: (s[i].pos.col + 1) as u64 },
                    },
                    i + 1,
                ),
            ),
            TokS::ParenL => match sp_kind1(s, i + 1) {
                Err(e) => Err(e),
                Ok((k, j)) => match sp_drop(s, j, TokS::ParenR, s[i].pos) {
                    Err(e) => Err(e),
                    Ok(j2) => Ok((k, j2)),
                },
            },
            _ => Err(
                ErrS {
                    msg: "unexpected "@ + tok_text(s[i].tok) + " when parsing a kind"@,
                    lb: s[i].pos,
                    rb: s[i].pos,
                },
            ),
        }
    }
}

/// Kind: a kind atom, optionally followed by `->` and a kind —
/// right-associative by direct recursion on the right.
pub open spec fn sp_kind1(s: Seq<TokenS>, i: int) -> Result<(KdS, int), ErrS>
    decreases s.len() - i, 1int,
{
    match sp_kind2(s, i) {
        Err(e) => Err(e),
        Ok((k, j)) => if !(i < j && j < s.len()) {
            Err(oob_err())
        } else if s[j].tok is Arr {
            match sp_kind1(s, j + 1) {
                Err(e) => Err(e),
                Ok((k2, j2)) => Ok(
                    (KdS::Arr { dom: Box::new(k), cod: Box::new(k2), lb: kd_left(k), rb: kd_right(k2) }, j2),
                ),
            }
        } else {
            Ok((k, j))
        },
    }
}

/// Optional `[: KIND]` binder annotation: consume nothing when no colon is
/// present.
pub open spec fn sp_kind_annot(s: Seq<TokenS>, i: int) -> Result<(Option<KdS>, int), ErrS> {
    if !(0 <= i < s.len()) {
        Err(oob_err())
    } else if s[i].tok is Colon {
        match sp_kind1(s, i + 1) {
            Err(e) => Err(e),
            Ok((k, j)) => Ok((Some(k), j)),
        }
    } else {
        Ok((None, i))
    }
}

/// Type atom: an identifier, or a parenthesised type.
pub open spec fn sp_type5(s: Seq<TokenS>, i: int) -> Result<(TpS, int), ErrS>
    decreases s.len() - i, 0int,
{
    if !(0 <= i < s.len()) {
        Err(oob_err())
    } else {
        match s[i].tok {
            TokS::Var(w) => Ok((TpS::Var { var: w, lb: s[i].pos, rb: s[i].pos }, i + 1)),
            TokS::ParenL => match sp_type1(s, i + 1) {
                Err(e) => Err(e),
                Ok((t, j)) => match sp_drop(s, j, TokS::ParenR, s[i].pos) {
                    Err(e) => Err(e),
                    Ok(j2) => Ok((t, j2)),
                },
            },
            _ => Err(
                ErrS {
                    msg: unexpected_msg(s[i].tok, "type"@),
                    lb: s[i].pos,
                    rb: s[i].pos,
                },
            ),
        }
    }
}

/// Greedily parse type-application arguments: keep attempting a type atom;
/// the first failure is swallowed and consumes nothing.
pub open spec fn sp_targs_tp(s: Seq<TokenS>, i: int) -> (Seq<TpS>, int)
    decreases s.len() - i, 1int,
{
    match sp_type5(s, i) {
        Err(_) => (Seq::empty(), i),
        Ok((a, j)) => if !(i < j && j <= s.len()) {
            (Seq::empty(), i)
        } else {
            let r = sp_targs_tp(s, j);
            (seq![a] + r.0, r.1)
        },
    }
}

/// Type application: a mandatory head atom, then zero or more argument
/// atoms; with zero arguments the head stands alone (no application node).
pub open spec fn sp_type4(s: Seq<TokenS>, i: int) -> Result<(TpS, int), ErrS>
    decreases s.len() - i, 2int,
{
    match sp_type5(s, i) {
        Err(e) => Err(e),
        Ok((head, j)) => if !(i < j && j <= s.len()) {
            Err(oob_err())
        } else {
            let r = sp_targs_tp(s, j);
            if r.0.len() == 0 {
                Ok((head, j))
            } else {
                Ok(
                    (
                        TpS::App {
                            head: Box::new(head),
                            args: r.0,
                            lb: tp_left(head),
                            rb: tp_right(r.0.last()),
                        },
                        r.1,
                    ),
                )
            }
        },
    }
}

/// Arrow type: a type application, optionally followed by `->` and a type at
/// the quantifier level — right-associative through the whole arrow chain.
pub open spec fn sp_type3(s: Seq<TokenS>, i: int) -> Result<(TpS, int), ErrS>
    decreases s.len() - i, 3int,
{
    match sp_type4(s, i) {
        Err(e) => Err(e),
        Ok((d, j)) => if !(i < j && j < s.len()) {
            Err(oob_err())
        } else if s[j].tok is Arr {
            match sp_type2(s, j + 1) {
                Err(e) => Err(e),
                Ok((c, k)) => Ok(
                    (
                        TpS::Arr {
                            dom: Box::new(d),
                            cod: Box::new(c),
                            lb: tp_left(d),
                            rb: tp_right(c),
                        },
                        k,
                    ),
                ),
            }
        } else {
            Ok((d, j))
        },
    }
}

/// Universal quantification: `forall IDENT [: KIND] . TYPE`, else fall
/// through to the arrow level.
pub open spec fn sp_type2(s: Seq<TokenS>, i: int) -> Result<(TpS, int), ErrS>
    decreases s.len() - i, 4int,
{
    if !(0 <= i < s.len()) {
        Err(oob_err())
    } else if s[i].tok is All {
        match sp_var(s, i + 1) {
            Err(e) => Err(e),
            Ok((w, j1)) => match sp_kind_annot(s, j1) {
                Err(e) => Err(e),
                Ok((an, j2)) => if !(i < j2 && j2 <= s.len()) {
                    Err(oob_err())
                } else {
                    match sp_drop(s, j2, TokS::Dot, s[i].pos) {
                        Err(e) => Err(e),
                        Ok(j3) => match sp_type2(s, j3) {
                            Err(e) => Err(e),
                            Ok((b, j4)) => Ok(
                                (
                                    TpS::All {
                                        var: w,
                                        annot: an,
                                        body: Box::new(b),
                                        lb: s[i].pos,
                                        rb: tp_right(b),
                                    },
                                    j4,
                                ),
                            ),
                        },
                    }
                },
            },
        }
    } else {
        sp_type3(s, i)
    }
}

/// Type-level abstraction: `λ IDENT [: KIND] . TYPE`, else fall through.
pub open spec fn sp_type1(s: Seq<TokenS>, i: int) -> Result<(TpS, int), ErrS>
    decreases s.len() - i, 5int,
{
    if !(0 <= i < s.len()) {
        Err(oob_err())
    } else if s[i].tok is Lam {
        match sp_var(s, i + 1) {
            Err(e) => Err(e),
            Ok((w, j1)) => match sp_kind_annot(s, j1) {
                Err(e) => Err(e),
                Ok((an, j2)) => if !(i < j2 && j2 <= s.len()) {
                    Err(oob_err())
                } else {
                    match sp_drop(s, j2, TokS::Dot, s[i].pos) {
                        Err(e) => Err(e),
                        Ok(j3) => match sp_type1(s, j3) {
                            Err(e) => Err(e),
                            Ok((b, j4)) => Ok(
                                (
                                    TpS::Lam {
                                        var: w,
                                        annot: an,
                                        body: Box::new(b),
                                        lb: s[i].pos,
                                        rb: tp_right(b),
                                    },
                                    j4,
                                ),
                            ),
                        },
                    }
                },
            },
        }
    } else {
        sp_type2(s, i)
    }
}

/// Optional `[: TYPE]` binder annotation.
pub open spec fn sp_type_annot(s: Seq<TokenS>, i: int) -> Result<(Option<TpS>, int), ErrS> {
    if !(0 <= i < s.len()) {
        Err(oob_err())
    } else if s[i].tok is Colon {
        match sp_type1(s, i + 1) {
            Err(e) => Err(e),
            Ok((t, j)) => Ok((Some(t), j)),
        }
    } else {
        Ok((None, i))
    }
}

/// Term atom: an identifier, or a parenthesised term.
pub open spec fn sp_term3(s: Seq<TokenS>, i: int) -> Result<(TmS, int), ErrS>
    decreases s.len() - i, 0int,
{
    if !(0 <= i < s.len()) {
        Err(oob_err())
    } else {
        match s[i].tok {
            TokS::Var(w) => Ok((TmS::Var { var: w, lb: s[i].pos, rb: s[i].pos }, i + 1)),
            TokS::ParenL => match sp_term1(s, i + 1) {
                Err(e) => Err(e),
                Ok((t, j)) => match sp_drop(s, j, TokS::ParenR, s[i].pos) {
                    Err(e) => Err(e),
                    Ok(j2) => Ok((t, j2)),
                },
            },
            _ => Err(
                ErrS {
                    msg: unexpected_msg(s[i].tok, "term"@),
                    lb: s[i].pos,
                    rb: s[i].pos,
                },
            ),
        }
    }
}

/// Greedily parse term-application arguments; a failed attempt is swallowed
/// and consumes nothing.
pub open spec fn sp_targs_tm(s: Seq<TokenS>, i: int) -> (Seq<TmS>, int)
    decreases s.len() - i, 1int,
{
    match sp_term3(s, i) {
        Err(_) => (Seq::empty(), i),
        Ok((a, j)) => if !(i < j && j <= s.len()) {
            (Seq::empty(), i)
        } else {
            let r = sp_targs_tm(s, j);
            (seq![a] + r.0, r.1)
        },
    }
}

/// Term application: a mandatory head atom, then zero or more argument
/// atoms; with zero arguments the head stands alone.
pub open spec fn sp_term2(s: Seq<TokenS>, i: int) -> Result<(TmS, int), ErrS>
    decreases s.len() - i, 2int,
{
    match sp_term3(s, i) {
        Err(e) => Err(e),
        Ok((head, j)) => if !(i < j && j <= s.len()) {
            Err(oob_err())
        } else {
            let r = sp_targs_tm(s, j);
            if r.0.len() == 0 {
                Ok((head, j))
            } else {
                Ok(
                    (
                        TmS::App {
                            head: Box::new(head),
                            args: r.0,
                            lb: tm_left(head),
                            rb: tm_right(r.0.last()),
                        },
                        r.1,
                    ),
                )
            }
        },
    }
}

/// Term-level abstraction: `λ IDENT [: TYPE] . TERM`, else fall through to
/// application.
pub open spec fn sp_term1(s: Seq<TokenS>, i: int) -> Result<(TmS, int), ErrS>
    decreases s.len() - i, 3int,
{
    if !(0 <= i < s.len()) {
        Err(oob_err())
    } else if s[i].tok is Lam {
        match sp_var(s, i + 1) {
            Err(e) => Err(e),
            Ok((w, j1)) => match sp_type_annot(s, j1) {
                Err(e) => Err(e),
                Ok((an, j2)) => if !(i < j2 && j2 <= s.len()) {
                    Err(oob_err())
                } else {
                    match sp_drop(s, j2, TokS::Dot, s[i].pos) {
                        Err(e) => Err(e),
                        Ok(j3) => match sp_term1(s, j3) {
                            Err(e) => Err(e),
                            Ok((b, j4)) => Ok(
                                (
                                    TmS::Lam {
                                        var: w,
                                        annot: an,
                                        body: Box::new(b),
                                        lb: s[i].pos,
                                        rb: tm_right(b),
                                    },
                                    j4,
                                ),
                            ),
                        },
                    }
                },
            },
        }
    } else {
        sp_term2(s, i)
    }
}

/// Error of a token that cannot start a definition.
pub open spec fn def_err(s: Seq<TokenS>, i: int) -> ErrS {
    ErrS {
        msg: unexpected_msg(s[i].tok, "definition"@),
        lb: s[i].pos,
        rb: s[i].pos,
    }
}

/// One definition: `def IDENT [: TYPE] = TERM` or `type IDENT [: KIND] =
/// TYPE`; the leading keyword selects the branch.
pub open spec fn sp_def(s: Seq<TokenS>, i: int) -> Result<(DefS, int), ErrS> {
    if !(0 <= i < s.len()) {
        Err(oob_err())
    } else {
        match s[i].tok {
            TokS::Var(w) => if w == "def"@ {
                match sp_var(s, i + 1) {
                    Err(e) => Err(e),
                    Ok((v, j1)) => match sp_type_annot(s, j1) {
                        Err(e) => Err(e),
                        Ok((an, j2)) => match sp_drop(s, j2, TokS::Eq, s[i].pos) {
                            Err(e) => Err(e),
                            Ok(j3) => match sp_term1(s, j3) {
                                Err(e) => Err(e),
                                Ok((b, j4)) => Ok(
                                    (
                                        DefS::Tm {
                                            var: v,
                                            annot: an,
                                            body: b,
                                            lb: s[i].pos,
                                            rb: tm_right(b),
                                        },
                                        j4,
                                    ),
                                ),
                            },
                        },
                    },
                }
            } else if w == "type"@ {
                match sp_var(s, i + 1) {
                    Err(e) => Err(e),
                    Ok((v, j1)) => match sp_kind_annot(s, j1) {
                        Err(e) => Err(e),
                        Ok((an, j2)) => match sp_drop(s, j2, TokS::Eq, s[i].pos) {
                            Err(e) => Err(e),
                            Ok(j3) => match sp_type1(s, j3) {
                                Err(e) => Err(e),
                                Ok((b, j4)) => Ok(
                                    (
                                        DefS::Tp {
                                            var: v,
                                            annot: an,
                                            body: b,
                                            lb: s[i].pos,
                                            rb: tp_right(b),
                                        },
                                        j4,
                                    ),
                                ),
                            },
                        },
                    },
                }
            } else {
                Err(def_err(s, i))
            },
            _ => Err(def_err(s, i)),
        }
    }
}

/// Definitions until the front token is end-of-file.
pub open spec fn sp_defs(s: Seq<TokenS>, i: int) -> Result<(Seq<DefS>, int), ErrS>
    decreases s.len() - i, 0int,
{
    if !(0 <= i < s.len()) {
        Err(oob_err())
    } else if s[i].tok is EOF {
        Ok((Seq::empty(), i))
    } else {
        match sp_def(s, i) {
            Err(e) => Err(e),
            Ok((d, j)) => if !(i < j && j <= s.len()) {
                Err(oob_err())
            } else {
                match sp_defs(s, j) {
                    Err(e) => Err(e),
                    Ok((ds, k)) => Ok((seq![d] + ds, k)),
                }
            },
        }
    }
}

/// A full program: definitions, then the mandatory end-of-file token.
pub open spec fn sp_parse(s: Seq<TokenS>) -> Result<Seq<DefS>, ErrS> {
    match sp_defs(s, 0) {
        Err(e) => Err(e),
        Ok((ds, j)) => match sp_drop(s, j, TokS::EOF, Pos { line: 1, col: 0 }) {
            Err(e) => Err(e),
            Ok(_) => Ok(ds),
        },
    }
}

/// A bare type expression, then the mandatory end-of-file token.
pub open spec fn sp_parse_type(s: Seq<TokenS>) -> Result<TpS, ErrS> {
    match sp_type1(s, 0) {
        Err(e) => Err(e),
        Ok((t, j)) => match sp_drop(s, j, TokS::EOF, Pos { line: 1, col: 0 }) {
            Err(e) => Err(e),
            Ok(_) => Ok(t),
        },
    }
}


/// Consume the token at `i` if it is `expected`, else fail: left bound is the
/// caller's anchor, right bound the offending token's position.
fn parse_drop(toks: &Vec<Token>, i: usize, expected: TokTp, lb: Pos) -> (r: Result<usize, FernError>)
    requires
        wf_toks(view_toks(toks@)),
        i < toks.len(),
    ensures
        (match r {
            Ok(j) => {
                &&& sp_drop(view_toks(toks@), i as int, expected@, lb) == Ok::<int, ErrS>(j as int)
                &&& j == i + 1
                &&& (!(expected@ is EOF) ==> j < toks@.len())
            },
            Err(e) => sp_drop(view_toks(toks@), i as int, expected@, lb) == Err::<int, ErrS>(e@),
        }),
{
    let ghost v = view_toks(toks@);
    proof {
        assert(v[i as int] == toks@[i as int]@);
    }
    if toks[i].tok == expected {
        proof {
            if !(expected@ is EOF) {
                assert(v[i as int].tok == expected@);
                assert(i < toks@.len() - 1);
            }
        }
        Ok(i + 1)
    } else {
        let mut m = String::from_str("expected ");
        let tx = expected.text();
        m.append(tx.as_str());
        m.append(" here but got ");
        let tf = toks[i].tok.text();
        m.append(tf.as_str());
        proof {
            assert(m@ == mismatch_msg(expected@, v[i as int].tok));
        }
        Err(FernError { msg: m, lb, rb: toks[i].pos })
    }
}

/// Consume one identifier token, yielding its lexeme.
fn parse_var(toks: &Vec<Token>, i: usize) -> (r: Result<(String, usize), FernError>)
    requires
        wf_toks(view_toks(toks@)),
        i < toks.len(),
    ensures
        (match r {
            Ok((w, j)) => {
                &&& res_ok(sp_var(view_toks(toks@), i as int), w@, j as int)
                &&& j == i + 1
                &&& j < toks@.len()
            },
            Err(e) => res_err(sp_var(view_toks(toks@), i as int), e@),
        }),
{
    let ghost v = view_toks(toks@);
    proof {
        assert(v[i as int] == toks@[i as int]@);
    }
    match &toks[i].tok {
        TokTp::Var(w) => {
            proof {
                assert(!(v[i as int].tok is EOF));
                assert(i < toks@.len() - 1);
            }
            Ok((w.clone(), i + 1))
        },
        _ => Err(
            FernError {
                msg: String::from_str("expected an identifier here"),
                lb: toks[i].pos,
                rb: toks[i].pos,
            },
        ),
    }
}

/*
KIND1 ::=
  | KIND2 -> KIND1
  | KIND2

KIND2 ::=
  | *
  | (KIND1)
*/

/// Kind atom: `*`, or a parenthesised kind.
fn parse_kind2(toks: &Vec<Token>, i: usize) -> (r: Result<(RawKind, usize), FernError>)
    requires
        wf_toks(view_toks(toks@)),
        cols_ok(view_toks(toks@)),
        i < toks.len(),
    ensures
        (match r {
            Ok((k, j)) => {
                &&& res_ok(sp_kind2(view_toks(toks@), i as int), k@, j as int)
                &&& i < j < toks@.len()
            },
            Err(e) => res_err(sp_kind2(view_toks(toks@), i as int), e@),
        }),
    decreases toks@.len() - i, 0int,
{
    let ghost v = view_toks(toks@);
    proof {
        assert(v[i as int] == toks@[i as int]@);
    }
    let pos = toks[i].pos;
    match &toks[i].tok {
        TokTp::Star => {
            proof {
                assert(!(v[i as int].tok is EOF));
                assert(i < toks@.len() - 1);
            }
            let rb = Pos { line: pos.line, col: pos.col + 1 };
            Ok((Box::new(RawKd::Star { lb: pos, rb }), i + 1))
        },
        TokTp::ParenL => {
            proof {
                assert(!(v[i as int].tok is EOF));
                assert(i < toks@.len() - 1);
            }
            let (k, j) = parse_kind1(toks, i + 1)?;
            let j2 = parse_drop(toks, j, TokTp::ParenR, pos)?;
            Ok((k, j2))
        },
        _ => {
            let mut m = String::from_str("unexpected ");
            let tf = toks[i].tok.text();
            m.append(tf.as_str());
            m.append(" when parsing a kind");
            Err(FernError { msg: m, lb: pos, rb: pos })
        },
    }
}

/// Kind: a kind atom, optionally `-> KIND` — right-associative by direct
/// recursion on the right.
fn parse_kind1(toks: &Vec<Token>, i: usize) -> (r: Result<(RawKind, usize), FernError>)
    requires
        wf_toks(view_toks(toks@)),
        cols_ok(view_toks(toks@)),
        i < toks.len(),
    ensures
        (match r {
            Ok((k, j)) => {
                &&& res_ok(sp_kind1(view_toks(toks@), i as int), k@, j as int)
                &&& i < j < toks@.len()
            },
            Err(e) => res_err(sp_kind1(view_toks(toks@), i as int), e@),
        }),
    decreases toks@.len() - i, 1int,
{
    let ghost v = view_toks(toks@);
    let (k, j) = parse_kind2(toks, i)?;
    proof {
        assert(v[j as int] == toks@[j as int]@);
    }
    match &toks[j].tok {
        TokTp::Arr => {
            proof {
                assert(!(v[j as int].tok is EOF));
                assert(j < toks@.len() - 1);
            }
            let (k2, j2) = parse_kind1(toks, j + 1)?;
            let lb = k.left();
            let rb = k2.right();
            proof {
                assert(lb == kd_left(k@));
                assert(rb == kd_right(k2@));
            }
            Ok((Box::new(RawKd::Arr { dom: k, cod: k2, lb, rb }), j2))
        },
        _ => Ok((k, j)),
    }
}

/// Kind entry point: the loosest kind level.
fn parse_kind(toks: &Vec<Token>, i: usize) -> (r: Result<(RawKind, usize), FernError>)
    requires
        wf_toks(view_toks(toks@)),
        cols_ok(view_toks(toks@)),
        i < toks.len(),
    ensures
        (match r {
            Ok((k, j)) => {
                &&& res_ok(sp_kind1(view_toks(toks@), i as int), k@, j as int)
                &&& i < j < toks@.len()
            },
            Err(e) => res_err(sp_kind1(view_toks(toks@), i as int), e@),
        }),
{
    parse_kind1(toks, i)
}

/// Optional binder annotation at the kind level; consumes nothing when absent.
fn parse_kind_annot(toks: &Vec<Token>, i: usize) -> (r: KindAnnotRes)
    requires
        wf_toks(view_toks(toks@)),
        cols_ok(view_toks(toks@)),
        i < toks.len(),
    ensures
        (match r {
            Ok((a, j)) => {
                &&& res_ok(
                    sp_kind_annot(view_toks(toks@), i as int),
                    opt_kd_view(a),
                    j as int,
                )
                &&& i <= j && j < toks@.len()
            },
            Err(e) => res_err(sp_kind_annot(view_toks(toks@), i as int), e@),
        }),
{
    let ghost v = view_toks(toks@);
    proof {
        assert(v[i as int] == toks@[i as int]@);
    }
    match &toks[i].tok {
        TokTp::Colon => {
            proof {
                assert(!(v[i as int].tok is EOF));
                assert(i < toks@.len() - 1);
            }
            let (k, j) = parse_kind(toks, i + 1)?;
            Ok((Some(k), j))
        },
        _ => Ok((None, i)),
    }
}

/*
TYPE1 ::=
  | \u{03bb} VAR [: KIND]. TYPE1
  | TYPE2

TYPE2 ::=
  | forall VAR [: KIND]. TYPE2
  | TYPE3

TYPE3 ::=
  | TYPE4 -> TYPE2
  | TYPE4

TYPE4 ::=
  | TYPE4 TYPE5
  | TYPE5

TYPE5 ::=
  | VAR
  | (TYPE1)
*/

/// Type atom: an identifier, or a parenthesised type.
fn parse_type5(toks: &Vec<Token>, i: usize) -> (r: Result<(RawType, usize), FernError>)
    requires
        wf_toks(view_toks(toks@)),
        cols_ok(view_toks(toks@)),
        i < toks.len(),
    ensures
        (match r {
            Ok((t, j)) => {
                &&& res_ok(sp_type5(view_toks(toks@), i as int), t@, j as int)
                &&& i < j < toks@.len()
            },
            Err(e) => res_err(sp_type5(view_toks(toks@), i as int), e@),
        }),
    decreases toks@.len() - i, 0int,
{
    let ghost v = view_toks(toks@);
    proof {
        assert(v[i as int] == toks@[i as int]@);
    }
    let pos = toks[i].pos;
    match &toks[i].tok {
        TokTp::Var(w) => {
            proof {
                assert(!(v[i as int].tok is EOF));
                assert(i < toks@.len() - 1);
            }
            Ok((Box::new(RawTp::Var { var: w.clone(), lb: pos, rb: pos }), i + 1))
        },
        TokTp::ParenL => {
            proof {
                assert(!(v[i as int].tok is EOF));
                assert(i < toks@.len() - 1);
            }
            let (t, j) = parse_type1(toks, i + 1)?;
            let j2 = parse_drop(toks, j, TokTp::ParenR, pos)?;
            Ok((t, j2))
        },
        _ => {
            let mut m = String::from_str("unexpected token ");
            let tf = toks[i].tok.text();
            m.append(tf.as_str());
            m.append(" when parsing a ");
            m.append("type");
            Err(FernError { msg: m, lb: pos, rb: pos })
        },
    }
}

/// Type application: a mandatory head atom, then as many argument atoms as
/// speculative parsing accepts; a failed attempt restores the cursor.
fn parse_type4(toks: &Vec<Token>, i: usize) -> (r: Result<(RawType, usize), FernError>)
    requires
        wf_toks(view_toks(toks@)),
        cols_ok(view_toks(toks@)),
        i < toks.len(),
    ensures
        (match r {
            Ok((t, j)) => {
                &&& res_ok(sp_type4(view_toks(toks@), i as int), t@, j as int)
                &&& i < j < toks@.len()
            },
            Err(e) => res_err(sp_type4(view_toks(toks@), i as int), e@),
        }),
    decreases toks@.len() - i, 2int,
{
    let ghost v = view_toks(toks@);
    let (head, mut j) = parse_type5(toks, i)?;
    let ghost j0 = j as int;
    let mut args: Vec<RawType> = Vec::new();
    loop
        invariant
            wf_toks(v),
            cols_ok(v),
            v == view_toks(toks@),
            0 <= i < j0 <= j < v.len(),
            sp_targs_tp(v, j0).0 == tps_view(args@) + sp_targs_tp(v, j as int).0,
            sp_targs_tp(v, j0).1 == sp_targs_tp(v, j as int).1,
        ensures
            wf_toks(v),
            cols_ok(v),
            v == view_toks(toks@),
            0 <= i < j0 <= j < v.len(),
            sp_targs_tp(v, j0) == (tps_view(args@), j as int),
        decreases v.len() - j,
    {
        match parse_type5(toks, j) {
            Err(_) => {
                proof {
                    assert(sp_targs_tp(v, j as int) == (Seq::<TpS>::empty(), j as int));
                    assert(tps_view(args@) + Seq::<TpS>::empty() =~= tps_view(args@));
                }
                break ;
            },
            Ok((a, j2)) => {
                let ghost av = a@;
                proof {
                    let r = sp_targs_tp(v, j2 as int);
                    assert(sp_targs_tp(v, j as int) == (seq![av] + r.0, r.1));
                    lemma_tps_view_push(args@, a);
                    assert((tps_view(args@) + (seq![av] + r.0)) =~= (tps_view(args@).push(av)
                        + r.0));
                }
                args.push(a);
                j = j2;
            },
        }
    }
    if args.len() == 0 {
        proof {
            lemma_tps_view(args@);
        }
        Ok((head, j))
    } else {
        proof {
            lemma_tps_view(args@);
        }
        let lb = head.left();
        let rb = args[args.len() - 1].right();
        proof {
            assert(lb == tp_left(head@));
            assert((*args@[args@.len() - 1])@ == tps_view(args@).last());
            assert(rb == tp_right(tps_view(args@).last()));
        }
        Ok((Box::new(RawTp::App { head, args, lb, rb }), j))
    }
}

/// Arrow type: a type application, optionally `-> TYPE2` — right-associative
/// through the whole arrow chain.
fn parse_type3(toks: &Vec<Token>, i: usize) -> (r: Result<(RawType, usize), FernError>)
    requires
        wf_toks(view_toks(toks@)),
        cols_ok(view_toks(toks@)),
        i < toks.len(),
    ensures
        (match r {
            Ok((t, j)) => {
                &&& res_ok(sp_type3(view_toks(toks@), i as int), t@, j as int)
                &&& i < j < toks@.len()
            },
            Err(e) => res_err(sp_type3(view_toks(toks@), i as int), e@),
        }),
    decreases toks@.len() - i, 3int,
{
    let ghost v = view_toks(toks@);
    let (d, j) = parse_type4(toks, i)?;
    proof {
        assert(v[j as int] == toks@[j as int]@);
    }
    match &toks[j].tok {
        TokTp::Arr => {
            proof {
                assert(!(v[j as int].tok is EOF));
                assert(j < toks@.len() - 1);
            }
            let (c, k) = parse_type2(toks, j + 1)?;
            let lb = d.left();
            let rb = c.right();
            proof {
                assert(lb == tp_left(d@));
                assert(rb == tp_right(c@));
            }
            Ok((Box::new(RawTp::Arr { dom: d, cod: c, lb, rb }), k))
        },
        _ => Ok((d, j)),
    }
}

/// Universal quantification: `forall VAR [: KIND] . TYPE2`, else fall
/// through to the arrow level.
fn parse_type2(toks: &Vec<Token>, i: usize) -> (r: Result<(RawType, usize), FernError>)
    requires
        wf_toks(view_toks(toks@)),
        cols_ok(view_toks(toks@)),
        i < toks.len(),
    ensures
        (match r {
            Ok((t, j)) => {
                &&& res_ok(sp_type2(view_toks(toks@), i as int), t@, j as int)
                &&& i < j < toks@.len()
            },
            Err(e) => res_err(sp_type2(view_toks(toks@), i as int), e@),
        }),
    decreases toks@.len() - i, 4int,
{
    let ghost v = view_toks(toks@);
    proof {
        assert(v[i as int] == toks@[i as int]@);
    }
    let pos = toks[i].pos;
    match &toks[i].tok {
        TokTp::All => {
            proof {
                assert(!(v[i as int].tok is EOF));
                assert(i < toks@.len() - 1);
            }
            let (var, _j1) = parse_var(toks, i + 1)?;
            let (annot, j2) = parse_kind_annot(toks, _j1)?;
            let j3 = parse_drop(toks, j2, TokTp::Dot, pos)?;
            let (body, j4) = parse_type2(toks, j3)?;
            let rb = body.right();
            proof {
                assert(rb == tp_right(body@));
            }
            Ok((Box::new(RawTp::All { var, annot, body, lb: pos, rb }), j4))
        },
        _ => parse_type3(toks, i),
    }
}

/// Type-level abstraction: `\u{03bb} VAR [: KIND] . TYPE1`, else fall through.
fn parse_type1(toks: &Vec<Token>, i: usize) -> (r: Result<(RawType, usize), FernError>)
    requires
        wf_toks(view_toks(toks@)),
        cols_ok(view_toks(toks@)),
        i < toks.len(),
    ensures
        (match r {
            Ok((t, j)) => {
                &&& res_ok(sp_type1(view_toks(toks@), i as int), t@, j as int)
                &&& i < j < toks@.len()
            },
            Err(e) => res_err(sp_type1(view_toks(toks@), i as int), e@),
        }),
    decreases toks@.len() - i, 5int,
{
    let ghost v = view_toks(toks@);
    proof {
        assert(v[i as int] == toks@[i as int]@);
    }
    let pos = toks[i].pos;
    match &toks[i].tok {
        TokTp::Lam => {
            proof {
                assert(!(v[i as int].tok is EOF));
                assert(i < toks@.len() - 1);
            }
            let (var, _j1) = parse_var(toks, i + 1)?;
            let (annot, j2) = parse_kind_annot(toks, _j1)?;
            let j3 = parse_drop(toks, j2, TokTp::Dot, pos)?;
            let (body, j4) = parse_type1(toks, j3)?;
            let rb = body.right();
            proof {
                assert(rb == tp_right(body@));
            }
            Ok((Box::new(RawTp::Lam { var, annot, body, lb: pos, rb }), j4))
        },
        _ => parse_type2(toks, i),
    }
}

/// Optional binder annotation at the type level; consumes nothing when
/// absent.
fn parse_type_annot(toks: &Vec<Token>, i: usize) -> (r: TypeAnnotRes)
    requires
        wf_toks(view_toks(toks@)),
        cols_ok(view_toks(toks@)),
        i < toks.len(),
    ensures
        (match r {
            Ok((a, j)) => {
                &&& res_ok(
                    sp_type_annot(view_toks(toks@), i as int),
                    opt_tp_view(a),
                    j as int,
                )
                &&& i <= j && j < toks@.len()
            },
            Err(e) => res_err(sp_type_annot(view_toks(toks@), i as int), e@),
        }),
{
    let ghost v = view_toks(toks@);
    proof {
        assert(v[i as int] == toks@[i as int]@);
    }
    match &toks[i].tok {
        TokTp::Colon => {
            proof {
                assert(!(v[i as int].tok is EOF));
                assert(i < toks@.len() - 1);
            }
            let (t, j) = parse_type1(toks, i + 1)?;
            Ok((Some(t), j))
        },
        _ => Ok((None, i)),
    }
}

/*
TERM1 ::=
  | \u{03bb} VAR [: TYPE]. TERM1
  | TERM2

TERM2 ::=
  | TERM2 TERM3
  | TERM3

TERM3 ::=
  | VAR
  | (TERM1)
*/

/// Term atom: an identifier, or a parenthesised term.
fn parse_term3(toks: &Vec<Token>, i: usize) -> (r: Result<(RawTerm, usize), FernError>)
    requires
        wf_toks(view_toks(toks@)),
        cols_ok(view_toks(toks@)),
        i < toks.len(),
    ensures
        (match r {
            Ok((t, j)) => {
                &&& res_ok(sp_term3(view_toks(toks@), i as int), t@, j as int)
                &&& i < j < toks@.len()
            },
            Err(e) => res_err(sp_term3(view_toks(toks@), i as int), e@),
        }),
    decreases toks@.len() - i, 0int,
{
    let ghost v = view_toks(toks@);
    proof {
        assert(v[i as int] == toks@[i as int]@);
    }
    let pos = toks[i].pos;
    match &toks[i].tok {
        TokTp::Var(w) => {
            proof {
                assert(!(v[i as int].tok is EOF));
                assert(i < toks@.len() - 1);
            }
            Ok((Box::new(RawTm::Var { var: w.clone(), lb: pos, rb: pos }), i + 1))
        },
        TokTp::ParenL => {
            proof {
                assert(!(v[i as int].tok is EOF));
                assert(i < toks@.len() - 1);
            }
            let (t, j) = parse_term1(toks, i + 1)?;
            let j2 = parse_drop(toks, j, TokTp::ParenR, pos)?;
            Ok((t, j2))
        },
        _ => {
            let mut m = String::from_str("unexpected token ");
            let tf = toks[i].tok.text();
            m.append(tf.as_str());
            m.append(" when parsing a ");
            m.append("term");
            Err(FernError { msg: m, lb: pos, rb: pos })
        },
    }
}

/// Term application: a mandatory head atom, then as many argument atoms as
/// speculative parsing accepts; a failed attempt restores the cursor.
fn parse_term2(toks: &Vec<Token>, i: usize) -> (r: Result<(RawTerm, usize), FernError>)
    requires
        wf_toks(view_toks(toks@)),
        cols_ok(view_toks(toks@)),
        i < toks.len(),
    ensures
        (match r {
            Ok((t, j)) => {
                &&& res_ok(sp_term2(view_toks(toks@), i as int), t@, j as int)
                &&& i < j < toks@.len()
            },
            Err(e) => res_err(sp_term2(view_toks(toks@), i as int), e@),
        }),
    decreases toks@.len() - i, 2int,
{
    let ghost v = view_toks(toks@);
    let (head, mut j) = parse_term3(toks, i)?;
    let ghost j0 = j as int;
    let mut args: Vec<RawTerm> = Vec::new();
    loop
        invariant
            wf_toks(v),
            cols_ok(v),
            v == view_toks(toks@),
            0 <= i < j0 <= j < v.len(),
            sp_targs_tm(v, j0).0 == tms_view(args@) + sp_targs_tm(v, j as int).0,
            sp_targs_tm(v, j0).1 == sp_targs_tm(v, j as int).1,
        ensures
            wf_toks(v),
            cols_ok(v),
            v == view_toks(toks@),
            0 <= i < j0 <= j < v.len(),
            sp_targs_tm(v, j0) == (tms_view(args@), j as int),
        decreases v.len() - j,
    {
        match parse_term3(toks, j) {
            Err(_) => {
                proof {
                    assert(sp_targs_tm(v, j as int) == (Seq::<TmS>::empty(), j as int));
                    assert(tms_view(args@) + Seq::<TmS>::empty() =~= tms_view(args@));
                }
                break ;
            },
            Ok((a, j2)) => {
                let ghost av = a@;
                proof {
                    let r = sp_targs_tm(v, j2 as int);
                    assert(sp_targs_tm(v, j as int) == (seq![av] + r.0, r.1));
                    lemma_tms_view_push(args@, a);
                    assert((tms_view(args@) + (seq![av] + r.0)) =~= (tms_view(args@).push(av)
                        + r.0));
                }
                args.push(a);
                j = j2;
            },
        }
    }
    if args.len() == 0 {
        proof {
            lemma_tms_view(args@);
        }
        Ok((head, j))
    } else {
        proof {
            lemma_tms_view(args@);
        }
        let lb = head.left();
        let rb = args[args.len() - 1].right();
        proof {
            assert(lb == tm_left(head@));
            assert((*args@[args@.len() - 1])@ == tms_view(args@).last());
            assert(rb == tm_right(tms_view(args@).last()));
        }
        Ok((Box::new(RawTm::App { head, args, lb, rb }), j))
    }
}

/// Term-level abstraction: `\u{03bb} VAR [: TYPE] . TERM1`, else fall
/// through to application.
fn parse_term1(toks: &Vec<Token>, i: usize) -> (r: Result<(RawTerm, usize), FernError>)
    requires
        wf_toks(view_toks(toks@)),
        cols_ok(view_toks(toks@)),
        i < toks.len(),
    ensures
        (match r {
            Ok((t, j)) => {
                &&& res_ok(sp_term1(view_toks(toks@), i as int), t@, j as int)
                &&& i < j < toks@.len()
            },
            Err(e) => res_err(sp_term1(view_toks(toks@), i as int), e@),
        }),
    decreases toks@.len() - i, 3int,
{
    let ghost v = view_toks(toks@);
    proof {
        assert(v[i as int] == toks@[i as int]@);
    }
    let pos = toks[i].pos;
    match &toks[i].tok {
        TokTp::Lam => {
            proof {
                assert(!(v[i as int].tok is EOF));
                assert(i < toks@.len() - 1);
            }
            let (var, _j1) = parse_var(toks, i + 1)?;
            let (annot, j2) = parse_type_annot(toks, _j1)?;
            let j3 = parse_drop(toks, j2, TokTp::Dot, pos)?;
            let (body, j4) = parse_term1(toks, j3)?;
            let rb = body.right();
            proof {
                assert(rb == tm_right(body@));
            }
            Ok((Box::new(RawTm::Lam { var, annot, body, lb: pos, rb }), j4))
        },
        _ => parse_term2(toks, i),
    }
}

/// Term entry point: the loosest term level.
fn parse_term(toks: &Vec<Token>, i: usize) -> (r: Result<(RawTerm, usize), FernError>)
    requires
        wf_toks(view_toks(toks@)),
        cols_ok(view_toks(toks@)),
        i < toks.len(),
    ensures
        (match r {
            Ok((t, j)) => {
                &&& res_ok(sp_term1(view_toks(toks@), i as int), t@, j as int)
                &&& i < j < toks@.len()
            },
            Err(e) => res_err(sp_term1(view_toks(toks@), i as int), e@),
        }),
{
    parse_term1(toks, i)
}

/*
DEF ::=
  | def VAR [: TYPE] = TERM
  | type VAR [: KIND] = TYPE

DEFS ::=
  | [empty]
  | DEF DEFS
*/

/// The error for a token that cannot start a definition.
fn def_error(toks: &Vec<Token>, i: usize) -> (e: FernError)
    requires
        wf_toks(view_toks(toks@)),
        i < toks.len(),
    ensures
        e@ == def_err(view_toks(toks@), i as int),
{
    let ghost v = view_toks(toks@);
    proof {
        assert(v[i as int] == toks@[i as int]@);
    }
    let mut m = String::from_str("unexpected token ");
    let tf = toks[i].tok.text();
    m.append(tf.as_str());
    m.append(" when parsing a ");
    m.append("definition");
    FernError { msg: m, lb: toks[i].pos, rb: toks[i].pos }
}

/// One definition; the leading keyword (`def` or `type`) selects the branch.
fn parse_def(toks: &Vec<Token>, i: usize) -> (r: Result<(RawDef, usize), FernError>)
    requires
        wf_toks(view_toks(toks@)),
        cols_ok(view_toks(toks@)),
        i < toks.len(),
    ensures
        (match r {
            Ok((d, j)) => {
                &&& res_ok(sp_def(view_toks(toks@), i as int), d@, j as int)
                &&& i < j < toks@.len()
            },
            Err(e) => res_err(sp_def(view_toks(toks@), i as int), e@),
        }),
{
    let ghost v = view_toks(toks@);
    proof {
        assert(v[i as int] == toks@[i as int]@);
    }
    let lb = toks[i].pos;
    match &toks[i].tok {
        TokTp::Var(w) => {
            let kw_def = String::from_str("def");
            let kw_type = String::from_str("type");
            proof {
                assert(!(v[i as int].tok is EOF));
                assert(i < toks@.len() - 1);
            }
            if *w == kw_def {
                let (var, _j1) = parse_var(toks, i + 1)?;
                let (annot, j2) = parse_type_annot(toks, _j1)?;
                let j3 = parse_drop(toks, j2, TokTp::Eq, lb)?;
                let (body, j4) = parse_term(toks, j3)?;
                let rb = body.right();
                proof {
                    assert(rb == tm_right(body@));
                }
                Ok((RawDef::Tm { var, annot, body, lb, rb }, j4))
            } else if *w == kw_type {
                let (var, _j1) = parse_var(toks, i + 1)?;
                let (annot, j2) = parse_kind_annot(toks, _j1)?;
                let j3 = parse_drop(toks, j2, TokTp::Eq, lb)?;
                let (body, j4) = parse_type1(toks, j3)?;
                let rb = body.right();
                proof {
                    assert(rb == tp_right(body@));
                }
                Ok((RawDef::Tp { var, annot, body, lb, rb }, j4))
            } else {
                Err(def_error(toks, i))
            }
        },
        _ => Err(def_error(toks, i)),
    }
}

/// Definitions until the front token is end-of-file.
fn parse_defs(toks: &Vec<Token>, i: usize) -> (r: Result<(AST, usize), FernError>)
    requires
        wf_toks(view_toks(toks@)),
        cols_ok(view_toks(toks@)),
        i < toks.len(),
    ensures
        (match r {
            Ok((ds, j)) => {
                &&& res_ok(sp_defs(view_toks(toks@), i as int), defs_view(ds@), j as int)
                &&& i <= j && j < toks@.len()
                &&& view_toks(toks@)[j as int].tok is EOF
            },
            Err(e) => res_err(sp_defs(view_toks(toks@), i as int), e@),
        }),
{
    let ghost v = view_toks(toks@);
    let mut defs: Vec<RawDef> = Vec::new();
    let mut j = i;
    loop
        invariant
            wf_toks(v),
            cols_ok(v),
            v == view_toks(toks@),
            0 <= i <= j < v.len(),
            (match sp_defs(v, j as int) {
                Ok(rest) => sp_defs(v, i as int) == Ok::<(Seq<DefS>, int), ErrS>(
                    (defs_view(defs@) + rest.0, rest.1),
                ),
                Err(e) => sp_defs(v, i as int) == Err::<(Seq<DefS>, int), ErrS>(e),
            }),
        ensures
            wf_toks(v),
            v == view_toks(toks@),
            0 <= i <= j < v.len(),
            v[j as int].tok is EOF,
            sp_defs(v, i as int) == Ok::<(Seq<DefS>, int), ErrS>((defs_view(defs@), j as int)),
        decreases v.len() - j,
    {
        proof {
            assert(v[j as int] == toks@[j as int]@);
        }
        if toks[j].tok == TokTp::EOF {
            proof {
                assert(sp_defs(v, j as int) == Ok::<(Seq<DefS>, int), ErrS>(
                    (Seq::empty(), j as int),
                ));
                assert(defs_view(defs@) + Seq::<DefS>::empty() =~= defs_view(defs@));
            }
            break ;
        }
        let (d, j2) = parse_def(toks, j)?;
        let ghost dv = d@;
        proof {
            lemma_defs_view_push(defs@, d);
            match sp_defs(v, j2 as int) {
                Ok(rest) => {
                    assert(sp_defs(v, j as int) == Ok::<(Seq<DefS>, int), ErrS>(
                        (seq![dv] + rest.0, rest.1),
                    ));
                    assert((defs_view(defs@) + (seq![dv] + rest.0)) =~= (defs_view(
                        defs@,
                    ).push(dv) + rest.0));
                },
                Err(e) => {
                    assert(sp_defs(v, j as int) == Err::<(Seq<DefS>, int), ErrS>(e));
                },
            }
        }
        defs.push(d);
        j = j2;
    }
    Ok((defs, j))
}

/// Parse a full program: definitions, then the mandatory end-of-file token.
/// The token vector is left unchanged.
pub fn parse(toks: &mut Vec<Token>) -> (r: Result<AST, FernError>)
    requires
        wf_toks(view_toks(old(toks)@)),
        cols_ok(view_toks(old(toks)@)),
    ensures
        final(toks)@ == old(toks)@,
        (match r {
            Ok(ast) => prog_ok(view_toks(old(toks)@), defs_view(ast@)),
            Err(e) => prog_err(view_toks(old(toks)@), e@),
        }),
{
    let (defs, j) = parse_defs(toks, 0)?;
    parse_drop(toks, j, TokTp::EOF, Pos { line: 1, col: 0 })?;
    Ok(defs)
}

/// Parse a bare type expression followed by the mandatory end-of-file token.
/// The token vector is left unchanged.
pub fn parse_type(toks: &mut Vec<Token>) -> (r: Result<RawType, FernError>)
    requires
        wf_toks(view_toks(old(toks)@)),
        cols_ok(view_toks(old(toks)@)),
    ensures
        final(toks)@ == old(toks)@,
        (match r {
            Ok(t) => tp_prog_ok(view_toks(old(toks)@), t@),
            Err(e) => tp_prog_err(view_toks(old(toks)@), e@),
        }),
{
    let (t, j) = parse_type1(toks, 0)?;
    parse_drop(toks, j, TokTp::EOF, Pos { line: 1, col: 0 })?;
    Ok(t)
}
} // verus!
