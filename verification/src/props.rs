//! Grammar-level laws of the parser, proved against the specification-level
//! parser: backtracking restores the cursor exactly, arrows associate to the
//! right, and curried application gathers its arguments into one flat,
//! left-associated node.

use crate::ast::{ErrS, KdS, Pos, TmS, TpS};
use crate::lex::{TokS, TokenS};
use crate::parse::{
    sp_kind1, sp_parse_type, sp_targs_tm, sp_targs_tp, sp_term1, sp_term2, sp_term3, sp_type1,
    sp_type2, sp_type3, sp_type4, sp_type5,
};
use vstd::prelude::*;

verus! {

/// Backtracking non-mutation for term application: when the attempt to parse
/// one more argument fails, the argument loop accepts nothing and returns
/// the cursor it started from, so the remaining token sequence is exactly
/// what it was before the attempt.
pub proof fn lemma_backtrack_term_args(s: Seq<TokenS>, i: int)
    requires
        sp_term3(s, i) is Err,
    ensures
        sp_targs_tm(s, i) == (Seq::<TmS>::empty(), i),
        s.skip(sp_targs_tm(s, i).1) == s.skip(i),
{
}

/// Backtracking non-mutation for type application: a failed attempt to parse
/// one more type argument accepts nothing and leaves the cursor exactly
/// where it was.
pub proof fn lemma_backtrack_type_args(s: Seq<TokenS>, i: int)
    requires
        sp_type5(s, i) is Err,
    ensures
        sp_targs_tp(s, i) == (Seq::<TpS>::empty(), i),
        s.skip(sp_targs_tp(s, i).1) == s.skip(i),
{
}

/// Right-associativity of type arrows: a bare type `A -> B -> C` (three
/// identifiers, any names and positions) parses as `Arr(A, Arr(B, C))`, not
/// `Arr(Arr(A, B), C)`.
pub proof fn lemma_type_arrow_right_assoc(
    a: Seq<char>,
    b: Seq<char>,
    c: Seq<char>,
    p1: Pos,
    p2: Pos,
    p3: Pos,
    p4: Pos,
    p5: Pos,
    p6: Pos,
)
    ensures
        ({
            let s = seq![
                TokenS { tok: TokS::Var(a), pos: p1 },
                TokenS { tok: TokS::Arr, pos: p2 },
                TokenS { tok: TokS::Var(b), pos: p3 },
                TokenS { tok: TokS::Arr, pos: p4 },
                TokenS { tok: TokS::Var(c), pos: p5 },
                TokenS { tok: TokS::EOF, pos: p6 },
            ];
            sp_parse_type(s) == Ok::<TpS, crate::ast::ErrS>(
                TpS::Arr {
                    dom: Box::new(TpS::Var { var: a, lb: p1, rb: p1 }),
                    cod: Box::new(
                        TpS::Arr {
                            dom: Box::new(TpS::Var { var: b, lb: p3, rb: p3 }),
                            cod: Box::new(TpS::Var { var: c, lb: p5, rb: p5 }),
                            lb: p3,
                            rb: p5,
                        },
                    ),
                    lb: p1,
                    rb: p5,
                },
            )
        }),
{
    let s = seq![
        TokenS { tok: TokS::Var(a), pos: p1 },
        TokenS { tok: TokS::Arr, pos: p2 },
        TokenS { tok: TokS::Var(b), pos: p3 },
        TokenS { tok: TokS::Arr, pos: p4 },
        TokenS { tok: TokS::Var(c), pos: p5 },
        TokenS { tok: TokS::EOF, pos: p6 },
    ];
    let va = TpS::Var { var: a, lb: p1, rb: p1 };
    let vb = TpS::Var { var: b, lb: p3, rb: p3 };
    let vc = TpS::Var { var: c, lb: p5, rb: p5 };
    let inner = TpS::Arr { dom: Box::new(vb), cod: Box::new(vc), lb: p3, rb: p5 };
    let outer = TpS::Arr { dom: Box::new(va), cod: Box::new(inner), lb: p1, rb: p5 };
    assert(sp_type5(s, 0) == Ok::<(TpS, int), ErrS>((va, 1)));
    assert(sp_type5(s, 2) == Ok::<(TpS, int), ErrS>((vb, 3)));
    assert(sp_type5(s, 4) == Ok::<(TpS, int), ErrS>((vc, 5)));
    assert(sp_type5(s, 1) is Err);
    assert(sp_type5(s, 3) is Err);
    assert(sp_type5(s, 5) is Err);
    assert(sp_targs_tp(s, 1) == (Seq::<TpS>::empty(), 1int));
    assert(sp_targs_tp(s, 3) == (Seq::<TpS>::empty(), 3int));
    assert(sp_targs_tp(s, 5) == (Seq::<TpS>::empty(), 5int));
    assert(sp_type4(s, 0) == Ok::<(TpS, int), ErrS>((va, 1)));
    assert(sp_type4(s, 2) == Ok::<(TpS, int), ErrS>((vb, 3)));
    assert(sp_type4(s, 4) == Ok::<(TpS, int), ErrS>((vc, 5)));
    assert(sp_type3(s, 4) == Ok::<(TpS, int), ErrS>((vc, 5)));
    assert(sp_type2(s, 4) == Ok::<(TpS, int), ErrS>((vc, 5)));
    assert(sp_type3(s, 2) == Ok::<(TpS, int), ErrS>((inner, 5)));
    assert(sp_type2(s, 2) == Ok::<(TpS, int), ErrS>((inner, 5)));
    assert(sp_type3(s, 0) == Ok::<(TpS, int), ErrS>((outer, 5)));
    assert(sp_type2(s, 0) == Ok::<(TpS, int), ErrS>((outer, 5)));
    assert(sp_type1(s, 0) == Ok::<(TpS, int), ErrS>((outer, 5)));
}

/// Right-associativity of kind arrows: `* -> * -> *` parses as
/// `Arr(Star, Arr(Star, Star))`.
pub proof fn lemma_kind_arrow_right_assoc(p1: Pos, p2: Pos, p3: Pos, p4: Pos, p5: Pos, p6: Pos)
    ensures
        ({
            let s = seq![
                TokenS { tok: TokS::Star, pos: p1 },
                TokenS { tok: TokS::Arr, pos: p2 },
                TokenS { tok: TokS::Star, pos: p3 },
                TokenS { tok: TokS::Arr, pos: p4 },
                TokenS { tok: TokS::Star, pos: p5 },
                TokenS { tok: TokS::EOF, pos: p6 },
            ];
            let s1 = KdS::Star { lb: p1, rb: Pos { line: p1.line, col: (p1.col + 1) as u64 } };
            let s3 = KdS::Star { lb: p3, rb: Pos { line: p3.line, col: (p3.col + 1) as u64 } };
            let s5 = KdS::Star { lb: p5, rb: Pos { line: p5.line, col: (p5.col + 1) as u64 } };
            sp_kind1(s, 0) == Ok::<(KdS, int), crate::ast::ErrS>(
                (
                    KdS::Arr {
                        dom: Box::new(s1),
                        cod: Box::new(
                            KdS::Arr {
                                dom: Box::new(s3),
                                cod: Box::new(s5),
                                lb: p3,
                                rb: Pos { line: p5.line, col: (p5.col + 1) as u64 },
                            },
                        ),
                        lb: p1,
                        rb: Pos { line: p5.line, col: (p5.col + 1) as u64 },
                    },
                    5,
                ),
            )
        }),
{
    reveal_with_fuel(crate::parse::sp_kind1, 4);
    reveal_with_fuel(crate::parse::sp_kind2, 4);
}

/// Left-associativity of application: `f a b c` (four identifiers, any
/// names and positions) parses as one application node with head `f` and the
/// flat argument list `[a, b, c]`, not as nested binary applications.
pub proof fn lemma_application_left_assoc(
    f: Seq<char>,
    a: Seq<char>,
    b: Seq<char>,
    c: Seq<char>,
    p1: Pos,
    p2: Pos,
    p3: Pos,
    p4: Pos,
    p5: Pos,
)
    ensures
        ({
            let s = seq![
                TokenS { tok: TokS::Var(f), pos: p1 },
                TokenS { tok: TokS::Var(a), pos: p2 },
                TokenS { tok: TokS::Var(b), pos: p3 },
                TokenS { tok: TokS::Var(c), pos: p4 },
                TokenS { tok: TokS::EOF, pos: p5 },
            ];
            sp_term1(s, 0) == Ok::<(TmS, int), crate::ast::ErrS>(
                (
                    TmS::App {
                        head: Box::new(TmS::Var { var: f, lb: p1, rb: p1 }),
                        args: seq![
                            TmS::Var { var: a, lb: p2, rb: p2 },
                            TmS::Var { var: b, lb: p3, rb: p3 },
                            TmS::Var { var: c, lb: p4, rb: p4 },
                        ],
                        lb: p1,
                        rb: p4,
                    },
                    4,
                ),
            )
        }),
{
    let s = seq![
        TokenS { tok: TokS::Var(f), pos: p1 },
        TokenS { tok: TokS::Var(a), pos: p2 },
        TokenS { tok: TokS::Var(b), pos: p3 },
        TokenS { tok: TokS::Var(c), pos: p4 },
        TokenS { tok: TokS::EOF, pos: p5 },
    ];
    let vf = TmS::Var { var: f, lb: p1, rb: p1 };
    let v1 = TmS::Var { var: a, lb: p2, rb: p2 };
    let v2 = TmS::Var { var: b, lb: p3, rb: p3 };
    let v3 = TmS::Var { var: c, lb: p4, rb: p4 };
    assert(sp_term3(s, 0) == Ok::<(TmS, int), ErrS>((vf, 1)));
    assert(sp_term3(s, 1) == Ok::<(TmS, int), ErrS>((v1, 2)));
    assert(sp_term3(s, 2) == Ok::<(TmS, int), ErrS>((v2, 3)));
    assert(sp_term3(s, 3) == Ok::<(TmS, int), ErrS>((v3, 4)));
    assert(sp_term3(s, 4) is Err);
    assert(sp_targs_tm(s, 4) == (Seq::<TmS>::empty(), 4int));
    assert(sp_targs_tm(s, 3) == (seq![v3] + Seq::<TmS>::empty(), 4int));
    assert(sp_targs_tm(s, 2) == (seq![v2] + (seq![v3] + Seq::<TmS>::empty()), 4int));
    assert(sp_targs_tm(s, 1) == (seq![v1] + (seq![v2] + (seq![v3] + Seq::<TmS>::empty())),
        4int));
    assert(sp_targs_tm(s, 1).0 =~= seq![v1, v2, v3]);
    assert(sp_term2(s, 0) == Ok::<(TmS, int), ErrS>(
        (TmS::App { head: Box::new(vf), args: seq![v1, v2, v3], lb: p1, rb: p4 }, 4),
    ));
}

} // verus!
