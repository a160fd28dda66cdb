//! Span laws: every node the parser returns is span-well-formed — its left
//! bound is at or before its right bound, every child's span lies within its
//! parent's, and an application node never has zero arguments — provided the
//! token positions are spaced as the lexer produces them.

use crate::ast::{
    def_wf, kd_left, kd_right, kd_wf, pos_le, tm_left, tm_right, tm_wf, tp_left, tp_right, tp_wf,
    DefS, KdS, Pos, TmS, TpS,
};
use crate::lex::{
    cols_ok, lemma_spec_lex_tokens, pos_spaced, spec_lex, succ_pos, wf_toks, TokS, TokenS,
};
use crate::parse::{
    sp_def, sp_defs, sp_kind1, sp_kind2, sp_kind_annot, sp_parse, sp_targs_tm,
    sp_targs_tp, sp_term1, sp_term2, sp_term3, sp_type1, sp_type2, sp_type3, sp_type4, sp_type5,
    sp_type_annot, sp_var,
};
use vstd::prelude::*;

verus! {

/// Spaced positions never go backwards, and a strictly earlier token leaves
/// room for one column.
pub proof fn lemma_spaced_le(s: Seq<TokenS>, k: int, l: int)
    requires
        pos_spaced(s),
        cols_ok(s),
        0 <= k <= l < s.len(),
    ensures
        pos_le(s[k].pos, s[l].pos),
        k < l ==> pos_le(succ_pos(s[k].pos), s[l].pos),
    decreases l - k,
{
    if k < l {
        lemma_spaced_le(s, k + 1, l);
    }
}

/// The requires every span lemma shares: a well-formed, spaced token stream
/// with in-range columns, and an in-range cursor.
pub open spec fn span_pre(s: Seq<TokenS>, i: int) -> bool {
    wf_toks(s) && cols_ok(s) && pos_spaced(s) && 0 <= i < s.len()
}

/// What the span lemmas conclude of a returned node: its own spans are
/// well-formed, it starts at or after the token it was parsed from, and it
/// ends before the token after the last one it consumed.
pub open spec fn node_spanned(s: Seq<TokenS>, i: int, j: int, l: Pos, r: Pos) -> bool {
    &&& 0 <= i < j < s.len()
    &&& pos_le(s[i].pos, l)
    &&& pos_le(r, succ_pos(s[j - 1].pos))
}

pub proof fn lemma_wf_kind2(s: Seq<TokenS>, i: int)
    requires
        span_pre(s, i),
    ensures
        (match sp_kind2(s, i) {
            Ok((k, j)) => kd_wf(k) && node_spanned(s, i, j, kd_left(k), kd_right(k)),
            Err(_) => true,
        }),
    decreases s.len() - i, 0int,
{
    match s[i].tok {
        TokS::Star => {
            assert(i < s.len() - 1);
        },
        TokS::ParenL => {
            assert(i < s.len() - 1);
            lemma_wf_kind1(s, i + 1);
            match sp_kind1(s, i + 1) {
                Ok((k, j)) => {
                    if i + 1 < j && j < s.len() && s[j].tok is ParenR {
                        assert(j < s.len() - 1);
                        lemma_spaced_le(s, j - 1, j);
                    }
                },
                Err(_) => {},
            }
        },
        _ => {},
    }
}

pub proof fn lemma_wf_kind1(s: Seq<TokenS>, i: int)
    requires
        span_pre(s, i),
    ensures
        (match sp_kind1(s, i) {
            Ok((k, j)) => kd_wf(k) && node_spanned(s, i, j, kd_left(k), kd_right(k)),
            Err(_) => true,
        }),
    decreases s.len() - i, 1int,
{
    lemma_wf_kind2(s, i);
    match sp_kind2(s, i) {
        Ok((k, j)) => {
            if i < j && j < s.len() && s[j].tok is Arr {
                assert(j < s.len() - 1);
                lemma_wf_kind1(s, j + 1);
                match sp_kind1(s, j + 1) {
                    Ok((k2, j2)) => {
                        lemma_spaced_le(s, j - 1, j);
                        lemma_spaced_le(s, j, j + 1);
                        lemma_spaced_le(s, i, j - 1);
                    },
                    Err(_) => {},
                }
            }
        },
        Err(_) => {},
    }
}

pub proof fn lemma_wf_kind_annot(s: Seq<TokenS>, i: int)
    requires
        span_pre(s, i),
    ensures
        (match sp_kind_annot(s, i) {
            Ok((an, j)) => match an {
                Some(k) => kd_wf(k) && node_spanned(s, i, j, kd_left(k), kd_right(k)),
                None => j == i,
            },
            Err(_) => true,
        }),
{
    if s[i].tok is Colon {
        assert(i < s.len() - 1);
        lemma_wf_kind1(s, i + 1);
        match sp_kind1(s, i + 1) {
            Ok((k, j)) => {
                lemma_spaced_le(s, i, i + 1);
            },
            Err(_) => {},
        }
    }
}


/// A well-formed node's left bound is at or before its right bound.
pub proof fn lemma_tp_lr(t: TpS)
    requires
        tp_wf(t),
    ensures
        pos_le(tp_left(t), tp_right(t)),
{
}

/// A well-formed term node's left bound is at or before its right bound.
pub proof fn lemma_tm_lr(t: TmS)
    requires
        tm_wf(t),
    ensures
        pos_le(tm_left(t), tm_right(t)),
{
}

pub proof fn lemma_wf_type5(s: Seq<TokenS>, i: int)
    requires
        span_pre(s, i),
    ensures
        (match sp_type5(s, i) {
            Ok((t, j)) => tp_wf(t) && node_spanned(s, i, j, tp_left(t), tp_right(t)),
            Err(_) => true,
        }),
    decreases s.len() - i, 0int,
{
    match s[i].tok {
        TokS::Var(_) => {
            assert(i < s.len() - 1);
        },
        TokS::ParenL => {
            assert(i < s.len() - 1);
            lemma_wf_type1(s, i + 1);
            match sp_type1(s, i + 1) {
                Ok((t, j)) => {
                    if i + 1 < j && j < s.len() && s[j].tok is ParenR {
                        assert(j < s.len() - 1);
                        lemma_spaced_le(s, j - 1, j);
                    }
                },
                Err(_) => {},
            }
        },
        _ => {},
    }
}

/// What the argument-loop span lemmas conclude: every accepted argument is
/// well-formed, starts at or after the loop's start, and ends at or before
/// the last argument's right bound, which the consumed range covers.
pub open spec fn args_spanned_tp(s: Seq<TokenS>, i: int, args: Seq<TpS>, j: int) -> bool {
    &&& i <= j < s.len()
    &&& (args.len() == 0 ==> j == i)
    &&& (args.len() > 0 ==> i < j && pos_le(tp_right(args.last()), succ_pos(s[j - 1].pos))
        && (forall|k: int|
        0 <= k < args.len() ==> tp_wf(#[trigger] args[k]) && pos_le(s[i].pos, tp_left(args[k]))
            && pos_le(tp_right(args[k]), tp_right(args.last()))))
}

pub proof fn lemma_wf_targs_tp(s: Seq<TokenS>, i: int)
    requires
        span_pre(s, i),
    ensures
        args_spanned_tp(s, i, sp_targs_tp(s, i).0, sp_targs_tp(s, i).1),
    decreases s.len() - i, 1int,
{
    lemma_wf_type5(s, i);
    match sp_type5(s, i) {
        Err(_) => {},
        Ok((a, j)) => {
            if i < j && j <= s.len() {
                lemma_wf_targs_tp(s, j);
                let rest = sp_targs_tp(s, j);
                let args = seq![a] + rest.0;
                assert(args[0] == a);
                if rest.0.len() == 0 {
                    assert(args.last() == a);
                } else {
                    assert(args.last() == rest.0.last());
                    lemma_spaced_le(s, j - 1, j);
                    lemma_tp_lr(rest.0[0]);
                    assert(pos_le(tp_right(a), tp_right(args.last()))) by {
                        assert(pos_le(tp_right(a), succ_pos(s[j - 1].pos)));
                        assert(pos_le(succ_pos(s[j - 1].pos), s[j].pos));
                        assert(pos_le(s[j].pos, tp_left(rest.0[0])));
                        assert(pos_le(tp_left(rest.0[0]), tp_right(rest.0[0])));
                        assert(pos_le(tp_right(rest.0[0]), tp_right(rest.0.last())));
                    }
                    assert forall|k: int| 0 <= k < args.len() implies tp_wf(
                        #[trigger] args[k],
                    ) && pos_le(s[i].pos, tp_left(args[k])) && pos_le(
                        tp_right(args[k]),
                        tp_right(args.last()),
                    ) by {
                        if k > 0 {
                            assert(args[k] == rest.0[k - 1]);
                            lemma_spaced_le(s, i, j);
                        }
                    }
                }
            }
        },
    }
}

pub proof fn lemma_wf_type4(s: Seq<TokenS>, i: int)
    requires
        span_pre(s, i),
    ensures
        (match sp_type4(s, i) {
            Ok((t, j)) => tp_wf(t) && node_spanned(s, i, j, tp_left(t), tp_right(t)),
            Err(_) => true,
        }),
    decreases s.len() - i, 2int,
{
    lemma_wf_type5(s, i);
    match sp_type5(s, i) {
        Err(_) => {},
        Ok((head, j)) => {
            if i < j && j <= s.len() {
                lemma_wf_targs_tp(s, j);
                let r = sp_targs_tp(s, j);
                if r.0.len() > 0 {
                    lemma_spaced_le(s, j - 1, j);
                    lemma_tp_lr(r.0[0]);
                    assert(pos_le(tp_right(head), tp_right(r.0.last()))) by {
                        assert(pos_le(tp_right(head), succ_pos(s[j - 1].pos)));
                        assert(pos_le(succ_pos(s[j - 1].pos), s[j].pos));
                        assert(pos_le(s[j].pos, tp_left(r.0[0])));
                        assert(pos_le(tp_left(r.0[0]), tp_right(r.0[0])));
                        assert(pos_le(tp_right(r.0[0]), tp_right(r.0.last())));
                    }
                    assert forall|k: int| 0 <= k < r.0.len() implies pos_le(
                        tp_left(head),
                        tp_left(#[trigger] r.0[k]),
                    ) by {
                        lemma_tp_lr(head);
                        assert(pos_le(s[j].pos, tp_left(r.0[k])));
                    }
                }
            }
        },
    }
}

pub proof fn lemma_wf_type3(s: Seq<TokenS>, i: int)
    requires
        span_pre(s, i),
    ensures
        (match sp_type3(s, i) {
            Ok((t, j)) => tp_wf(t) && node_spanned(s, i, j, tp_left(t), tp_right(t)),
            Err(_) => true,
        }),
    decreases s.len() - i, 3int,
{
    lemma_wf_type4(s, i);
    match sp_type4(s, i) {
        Err(_) => {},
        Ok((d, j)) => {
            if i < j && j < s.len() && s[j].tok is Arr {
                assert(j < s.len() - 1);
                lemma_wf_type2(s, j + 1);
                match sp_type2(s, j + 1) {
                    Ok((c, j2)) => {
                        lemma_spaced_le(s, j - 1, j);
                        lemma_spaced_le(s, j, j + 1);
                        lemma_spaced_le(s, i, j - 1);
                        lemma_tp_lr(c);
                    },
                    Err(_) => {},
                }
            }
        },
    }
}

pub proof fn lemma_wf_type2(s: Seq<TokenS>, i: int)
    requires
        span_pre(s, i),
    ensures
        (match sp_type2(s, i) {
            Ok((t, j)) => tp_wf(t) && node_spanned(s, i, j, tp_left(t), tp_right(t)),
            Err(_) => true,
        }),
    decreases s.len() - i, 4int,
{
    if s[i].tok is All {
        assert(i < s.len() - 1);
        match sp_var(s, i + 1) {
            Err(_) => {},
            Ok((w, j1)) => {
                assert(j1 == i + 2);
                assert(i + 1 < s.len() - 1);
                lemma_wf_kind_annot(s, j1);
                match sp_kind_annot(s, j1) {
                    Err(_) => {},
                    Ok((an, j2)) => {
                        if i < j2 && j2 <= s.len() {
                            if j2 < s.len() && s[j2].tok is Dot {
                                assert(j2 < s.len() - 1);
                                lemma_wf_type2(s, j2 + 1);
                                match sp_type2(s, j2 + 1) {
                                    Err(_) => {},
                                    Ok((b, j4)) => {
                                        lemma_spaced_le(s, i, i + 2);
                                        lemma_spaced_le(s, j2, j2 + 1);
                                        lemma_tp_lr(b);
                                        match an {
                                            Some(k) => {
                                                lemma_spaced_le(s, j2 - 1, j2);
                                            },
                                            None => {},
                                        }
                                    },
                                }
                            }
                        }
                    },
                }
            },
        }
    } else {
        lemma_wf_type3(s, i);
    }
}

pub proof fn lemma_wf_type1(s: Seq<TokenS>, i: int)
    requires
        span_pre(s, i),
    ensures
        (match sp_type1(s, i) {
            Ok((t, j)) => tp_wf(t) && node_spanned(s, i, j, tp_left(t), tp_right(t)),
            Err(_) => true,
        }),
    decreases s.len() - i, 5int,
{
    if s[i].tok is Lam {
        assert(i < s.len() - 1);
        match sp_var(s, i + 1) {
            Err(_) => {},
            Ok((w, j1)) => {
                assert(j1 == i + 2);
                assert(i + 1 < s.len() - 1);
                lemma_wf_kind_annot(s, j1);
                match sp_kind_annot(s, j1) {
                    Err(_) => {},
                    Ok((an, j2)) => {
                        if i < j2 && j2 <= s.len() {
                            if j2 < s.len() && s[j2].tok is Dot {
                                assert(j2 < s.len() - 1);
                                lemma_wf_type1(s, j2 + 1);
                                match sp_type1(s, j2 + 1) {
                                    Err(_) => {},
                                    Ok((b, j4)) => {
                                        lemma_spaced_le(s, i, i + 2);
                                        lemma_spaced_le(s, j2, j2 + 1);
                                        lemma_tp_lr(b);
                                        match an {
                                            Some(k) => {
                                                lemma_spaced_le(s, j2 - 1, j2);
                                            },
                                            None => {},
                                        }
                                    },
                                }
                            }
                        }
                    },
                }
            },
        }
    } else {
        lemma_wf_type2(s, i);
    }
}

pub proof fn lemma_wf_type_annot(s: Seq<TokenS>, i: int)
    requires
        span_pre(s, i),
    ensures
        (match sp_type_annot(s, i) {
            Ok((an, j)) => match an {
                Some(t) => tp_wf(t) && node_spanned(s, i, j, tp_left(t), tp_right(t)),
                None => j == i,
            },
            Err(_) => true,
        }),
{
    if s[i].tok is Colon {
        assert(i < s.len() - 1);
        lemma_wf_type1(s, i + 1);
        match sp_type1(s, i + 1) {
            Ok((t, j)) => {
                lemma_spaced_le(s, i, i + 1);
            },
            Err(_) => {},
        }
    }
}

pub proof fn lemma_wf_term3(s: Seq<TokenS>, i: int)
    requires
        span_pre(s, i),
    ensures
        (match sp_term3(s, i) {
            Ok((t, j)) => tm_wf(t) && node_spanned(s, i, j, tm_left(t), tm_right(t)),
            Err(_) => true,
        }),
    decreases s.len() - i, 0int,
{
    match s[i].tok {
        TokS::Var(_) => {
            assert(i < s.len() - 1);
        },
        TokS::ParenL => {
            assert(i < s.len() - 1);
            lemma_wf_term1(s, i + 1);
            match sp_term1(s, i + 1) {
                Ok((t, j)) => {
                    if i + 1 < j && j < s.len() && s[j].tok is ParenR {
                        assert(j < s.len() - 1);
                        lemma_spaced_le(s, j - 1, j);
                    }
                },
                Err(_) => {},
            }
        },
        _ => {},
    }
}

/// The term-level counterpart of [`args_spanned_tp`].
pub open spec fn args_spanned_tm(s: Seq<TokenS>, i: int, args: Seq<TmS>, j: int) -> bool {
    &&& i <= j < s.len()
    &&& (args.len() == 0 ==> j == i)
    &&& (args.len() > 0 ==> i < j && pos_le(tm_right(args.last()), succ_pos(s[j - 1].pos))
        && (forall|k: int|
        0 <= k < args.len() ==> tm_wf(#[trigger] args[k]) && pos_le(s[i].pos, tm_left(args[k]))
            && pos_le(tm_right(args[k]), tm_right(args.last()))))
}

pub proof fn lemma_wf_targs_tm(s: Seq<TokenS>, i: int)
    requires
        span_pre(s, i),
    ensures
        args_spanned_tm(s, i, sp_targs_tm(s, i).0, sp_targs_tm(s, i).1),
    decreases s.len() - i, 1int,
{
    lemma_wf_term3(s, i);
    match sp_term3(s, i) {
        Err(_) => {},
        Ok((a, j)) => {
            if i < j && j <= s.len() {
                lemma_wf_targs_tm(s, j);
                let rest = sp_targs_tm(s, j);
                let args = seq![a] + rest.0;
                assert(args[0] == a);
                if rest.0.len() == 0 {
                    assert(args.last() == a);
                } else {
                    assert(args.last() == rest.0.last());
                    lemma_spaced_le(s, j - 1, j);
                    lemma_tm_lr(rest.0[0]);
                    assert(pos_le(tm_right(a), tm_right(args.last()))) by {
                        assert(pos_le(tm_right(a), succ_pos(s[j - 1].pos)));
                        assert(pos_le(succ_pos(s[j - 1].pos), s[j].pos));
                        assert(pos_le(s[j].pos, tm_left(rest.0[0])));
                        assert(pos_le(tm_left(rest.0[0]), tm_right(rest.0[0])));
                        assert(pos_le(tm_right(rest.0[0]), tm_right(rest.0.last())));
                    }
                    assert forall|k: int| 0 <= k < args.len() implies tm_wf(
                        #[trigger] args[k],
                    ) && pos_le(s[i].pos, tm_left(args[k])) && pos_le(
                        tm_right(args[k]),
                        tm_right(args.last()),
                    ) by {
                        if k > 0 {
                            assert(args[k] == rest.0[k - 1]);
                            lemma_spaced_le(s, i, j);
                        }
                    }
                }
            }
        },
    }
}

pub proof fn lemma_wf_term2(s: Seq<TokenS>, i: int)
    requires
        span_pre(s, i),
    ensures
        (match sp_term2(s, i) {
            Ok((t, j)) => tm_wf(t) && node_spanned(s, i, j, tm_left(t), tm_right(t)),
            Err(_) => true,
        }),
    decreases s.len() - i, 2int,
{
    lemma_wf_term3(s, i);
    match sp_term3(s, i) {
        Err(_) => {},
        Ok((head, j)) => {
            if i < j && j <= s.len() {
                lemma_wf_targs_tm(s, j);
                let r = sp_targs_tm(s, j);
                if r.0.len() > 0 {
                    lemma_spaced_le(s, j - 1, j);
                    lemma_tm_lr(r.0[0]);
                    assert(pos_le(tm_right(head), tm_right(r.0.last()))) by {
                        assert(pos_le(tm_right(head), succ_pos(s[j - 1].pos)));
                        assert(pos_le(succ_pos(s[j - 1].pos), s[j].pos));
                        assert(pos_le(s[j].pos, tm_left(r.0[0])));
                        assert(pos_le(tm_left(r.0[0]), tm_right(r.0[0])));
                        assert(pos_le(tm_right(r.0[0]), tm_right(r.0.last())));
                    }
                    assert forall|k: int| 0 <= k < r.0.len() implies pos_le(
                        tm_left(head),
                        tm_left(#[trigger] r.0[k]),
                    ) by {
                        lemma_tm_lr(head);
                        assert(pos_le(s[j].pos, tm_left(r.0[k])));
                    }
                }
            }
        },
    }
}

pub proof fn lemma_wf_term1(s: Seq<TokenS>, i: int)
    requires
        span_pre(s, i),
    ensures
        (match sp_term1(s, i) {
            Ok((t, j)) => tm_wf(t) && node_spanned(s, i, j, tm_left(t), tm_right(t)),
            Err(_) => true,
        }),
    decreases s.len() - i, 3int,
{
    if s[i].tok is Lam {
        assert(i < s.len() - 1);
        match sp_var(s, i + 1) {
            Err(_) => {},
            Ok((w, j1)) => {
                assert(j1 == i + 2);
                assert(i + 1 < s.len() - 1);
                lemma_wf_type_annot(s, j1);
                match sp_type_annot(s, j1) {
                    Err(_) => {},
                    Ok((an, j2)) => {
                        if i < j2 && j2 <= s.len() {
                            if j2 < s.len() && s[j2].tok is Dot {
                                assert(j2 < s.len() - 1);
                                lemma_wf_term1(s, j2 + 1);
                                match sp_term1(s, j2 + 1) {
                                    Err(_) => {},
                                    Ok((b, j4)) => {
                                        lemma_spaced_le(s, i, i + 2);
                                        lemma_spaced_le(s, j2, j2 + 1);
                                        lemma_tm_lr(b);
                                        match an {
                                            Some(t) => {
                                                lemma_spaced_le(s, j2 - 1, j2);
                                            },
                                            None => {},
                                        }
                                    },
                                }
                            }
                        }
                    },
                }
            },
        }
    } else {
        lemma_wf_term2(s, i);
    }
}

pub proof fn lemma_wf_def(s: Seq<TokenS>, i: int)
    requires
        span_pre(s, i),
    ensures
        (match sp_def(s, i) {
            Ok((d, j)) => def_wf(d) && 0 <= i < j < s.len(),
            Err(_) => true,
        }),
{
    match s[i].tok {
        TokS::Var(w) => {
            if w == "def"@ {
                match sp_var(s, i + 1) {
                    Err(_) => {},
                    Ok((v, j1)) => {
                        assert(i < s.len() - 1);
                        assert(j1 == i + 2);
                        assert(i + 1 < s.len() - 1);
                        lemma_wf_type_annot(s, j1);
                        match sp_type_annot(s, j1) {
                            Err(_) => {},
                            Ok((an, j2)) => {
                                if i + 1 < j2 + 1 && j2 < s.len() && s[j2].tok is Eq {
                                    assert(j2 < s.len() - 1);
                                    lemma_wf_term1(s, j2 + 1);
                                    match sp_term1(s, j2 + 1) {
                                        Err(_) => {},
                                        Ok((b, j4)) => {
                                            lemma_spaced_le(s, i, i + 2);
                                            lemma_spaced_le(s, j2, j2 + 1);
                                            lemma_tm_lr(b);
                                            match an {
                                                Some(t) => {
                                                    lemma_spaced_le(s, j2 - 1, j2);
                                                },
                                                None => {},
                                            }
                                        },
                                    }
                                }
                            },
                        }
                    },
                }
            } else if w == "type"@ {
                match sp_var(s, i + 1) {
                    Err(_) => {},
                    Ok((v, j1)) => {
                        assert(i < s.len() - 1);
                        assert(j1 == i + 2);
                        assert(i + 1 < s.len() - 1);
                        lemma_wf_kind_annot(s, j1);
                        match sp_kind_annot(s, j1) {
                            Err(_) => {},
                            Ok((an, j2)) => {
                                if i + 1 < j2 + 1 && j2 < s.len() && s[j2].tok is Eq {
                                    assert(j2 < s.len() - 1);
                                    lemma_wf_type1(s, j2 + 1);
                                    match sp_type1(s, j2 + 1) {
                                        Err(_) => {},
                                        Ok((b, j4)) => {
                                            lemma_spaced_le(s, i, i + 2);
                                            lemma_spaced_le(s, j2, j2 + 1);
                                            lemma_tp_lr(b);
                                            match an {
                                                Some(k) => {
                                                    lemma_spaced_le(s, j2 - 1, j2);
                                                },
                                                None => {},
                                            }
                                        },
                                    }
                                }
                            },
                        }
                    },
                }
            }
        },
        _ => {},
    }
}

pub proof fn lemma_wf_defs(s: Seq<TokenS>, i: int)
    requires
        span_pre(s, i),
    ensures
        (match sp_defs(s, i) {
            Ok((ds, j)) => (forall|k: int| 0 <= k < ds.len() ==> def_wf(#[trigger] ds[k])) && i
                <= j < s.len(),
            Err(_) => true,
        }),
    decreases s.len() - i,
{
    if !(s[i].tok is EOF) {
        lemma_wf_def(s, i);
        match sp_def(s, i) {
            Err(_) => {},
            Ok((d, j)) => {
                if i < j && j <= s.len() {
                    if j < s.len() {
                        lemma_wf_defs(s, j);
                    }
                    match sp_defs(s, j) {
                        Err(_) => {},
                        Ok((ds, k)) => {
                            assert forall|m: int| 0 <= m < (seq![d] + ds).len() implies def_wf(
                                #[trigger] (seq![d] + ds)[m],
                            ) by {
                                if m > 0 {
                                    assert((seq![d] + ds)[m] == ds[m - 1]);
                                }
                            }
                        },
                    }
                }
            },
        }
    }
}

/// Round-trip spanning and the application-arity invariant, over a full
/// program: every definition the parser returns is span-well-formed — each
/// node's left bound is at or before its right bound, each child's span lies
/// within its parent's, and no application node has zero arguments.
pub proof fn lemma_parse_spans(s: Seq<TokenS>)
    requires
        wf_toks(s),
        cols_ok(s),
        pos_spaced(s),
    ensures
        (match sp_parse(s) {
            Ok(ds) => forall|k: int| 0 <= k < ds.len() ==> def_wf(#[trigger] ds[k]),
            Err(_) => true,
        }),
{
    lemma_wf_defs(s, 0);
}

/// The bare-type entry point returns only span-well-formed types.
pub proof fn lemma_parse_type_spans(s: Seq<TokenS>)
    requires
        wf_toks(s),
        cols_ok(s),
        pos_spaced(s),
    ensures
        (match crate::parse::sp_parse_type(s) {
            Ok(t) => tp_wf(t),
            Err(_) => true,
        }),
{
    lemma_wf_type1(s, 0);
}

/// Round-trip spanning, end to end: the token stream of any source text (of
/// machine-representable length) is well-formed and spaced, and every
/// definition parsed from it is span-well-formed with no zero-argument
/// application node.
pub proof fn lemma_lex_parse_spans(src: Seq<char>)
    requires
        src.len() < u64::MAX,
    ensures
        ({
            let t = spec_lex(src, 0, Pos { line: 1, col: 0 });
            &&& wf_toks(t)
            &&& cols_ok(t)
            &&& pos_spaced(t)
            &&& (match sp_parse(t) {
                Ok(ds) => forall|k: int| 0 <= k < ds.len() ==> def_wf(#[trigger] ds[k]),
                Err(_) => true,
            })
        }),
{
    lemma_spec_lex_tokens(src, 0, Pos { line: 1, col: 0 });
    let t = spec_lex(src, 0, Pos { line: 1, col: 0 });
    lemma_parse_spans(t);
}

} // verus!
