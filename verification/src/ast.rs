//! Positions, errors, and the raw (unchecked) abstract syntax tree, together
//! with the mathematical model that the lexer's and parser's contracts are
//! stated over: a ghost mirror of every node type and the span
//! well-formedness predicates.

use vstd::prelude::*;

verus! {

/// A source coordinate: 1-indexed line, 0-indexed column.
#[derive(Debug, Copy, Clone, PartialEq, Eq, Structural)]
pub struct Pos {
    pub line: u64,
    pub col: u64,
}

/// Lexicographic order on positions: `(line, col)`.
pub open spec fn pos_le(a: Pos, b: Pos) -> bool {
    a.line < b.line || (a.line == b.line && a.col <= b.col)
}

impl Pos {
    /// Same line, `n` more columns.
    pub fn advance_by_columns(self, n: u64) -> (r: Pos)
        requires
            self.col + n <= u64::MAX,
        ensures
            r == (Pos { line: self.line, col: (self.col + n) as u64 }),
    {
        Pos { line: self.line, col: self.col + n }
    }

    /// Next line, column reset to 0.
    pub fn advance_by_newline(self) -> (r: Pos)
        requires
            self.line + 1 <= u64::MAX,
        ensures
            r == (Pos { line: (self.line + 1) as u64, col: 0 }),
    {
        Pos { line: self.line + 1, col: 0 }
    }
}

/// A diagnostic: a message and the source span it points at.
#[derive(Debug)]
pub struct FernError {
    pub msg: String,
    pub lb: Pos,
    pub rb: Pos,
}

/// Ghost mirror of [`FernError`].
pub struct ErrS {
    pub msg: Seq<char>,
    pub lb: Pos,
    pub rb: Pos,
}

impl View for FernError {
    type V = ErrS;

    open spec fn view(&self) -> ErrS {
        ErrS { msg: self.msg@, lb: self.lb, rb: self.rb }
    }
}

// Raw, unchecked term
#[derive(Debug)]
pub enum RawTm {
    Lam { var: String, annot: Option<RawType>, body: RawTerm, lb: Pos, rb: Pos },
    App { head: RawTerm, args: Vec<RawTerm>, lb: Pos, rb: Pos },
    Var { var: String, lb: Pos, rb: Pos },
}

#[derive(Debug)]
pub enum RawTp {
    Lam { var: String, annot: Option<RawKind>, body: RawType, lb: Pos, rb: Pos },
    All { var: String, annot: Option<RawKind>, body: RawType, lb: Pos, rb: Pos },
    App { head: RawType, args: Vec<RawType>, lb: Pos, rb: Pos },
    Arr { dom: RawType, cod: RawType, lb: Pos, rb: Pos },
    Var { var: String, lb: Pos, rb: Pos },
}

#[derive(Debug)]
pub enum RawKd {
    Star { lb: Pos, rb: Pos },
    Arr { dom: RawKind, cod: RawKind, lb: Pos, rb: Pos },
}

pub type RawTerm = Box<RawTm>;

pub type RawType = Box<RawTp>;

pub type RawKind = Box<RawKd>;

#[derive(Debug)]
pub enum RawDef {
    Tm { var: String, annot: Option<RawType>, body: RawTerm, lb: Pos, rb: Pos },
    Tp { var: String, annot: Option<RawKind>, body: RawType, lb: Pos, rb: Pos },
}

pub type AST = Vec<RawDef>;

/// A term variable together with its checked type, as the elaborator
/// (a downstream collaborator, not part of this crate) produces it.
pub struct TmVar {
    var: String,
    tp: Box<Type>,
}

/// A type variable together with its checked kind.
pub struct TpVar {
    var: String,
    kd: Box<Kind>,
}

// Elaborated, information-rich term
pub enum Tm {
    Lam { var: TmVar, body: Term, rettp: Type },
    App { head: Term, args: Vec<Term>, tp: Type },
    Var { var: TmVar },
}

pub enum Tp {
    Arr { dom: Type, cod: Type },
    All { var: TpVar, body: Type },
    Var { var: TpVar },
}

pub enum Kd {
    Star,
    Arr { dom: Kind, cod: Kind },
}

pub type Term = Box<Tm>;

pub type Type = Box<Tp>;

pub type Kind = Box<Kd>;

/// Ghost mirror of [`RawKd`].
pub enum KdS {
    Star { lb: Pos, rb: Pos },
    Arr { dom: Box<KdS>, cod: Box<KdS>, lb: Pos, rb: Pos },
}

/// Ghost mirror of [`RawTp`].
pub enum TpS {
    Lam { var: Seq<char>, annot: Option<KdS>, body: Box<TpS>, lb: Pos, rb: Pos },
    All { var: Seq<char>, annot: Option<KdS>, body: Box<TpS>, lb: Pos, rb: Pos },
    App { head: Box<TpS>, args: Seq<TpS>, lb: Pos, rb: Pos },
    Arr { dom: Box<TpS>, cod: Box<TpS>, lb: Pos, rb: Pos },
    Var { var: Seq<char>, lb: Pos, rb: Pos },
}

/// Ghost mirror of [`RawTm`].
pub enum TmS {
    Lam { var: Seq<char>, annot: Option<TpS>, body: Box<TmS>, lb: Pos, rb: Pos },
    App { head: Box<TmS>, args: Seq<TmS>, lb: Pos, rb: Pos },
    Var { var: Seq<char>, lb: Pos, rb: Pos },
}

/// Ghost mirror of [`RawDef`].
pub enum DefS {
    Tm { var: Seq<char>, annot: Option<TpS>, body: TmS, lb: Pos, rb: Pos },
    Tp { var: Seq<char>, annot: Option<KdS>, body: TpS, lb: Pos, rb: Pos },
}

/// Elementwise view of a sequence of boxed raw types.
pub open spec fn tps_view(s: Seq<Box<RawTp>>) -> Seq<TpS>
    decreases s,
{
    if s.len() == 0 {
        Seq::empty()
    } else {
        seq![(*s[0])@] + tps_view(s.drop_first())
    }
}

/// Elementwise view of a sequence of boxed raw terms.
pub open spec fn tms_view(s: Seq<Box<RawTm>>) -> Seq<TmS>
    decreases s,
{
    if s.len() == 0 {
        Seq::empty()
    } else {
        seq![(*s[0])@] + tms_view(s.drop_first())
    }
}

impl View for RawKd {
    type V = KdS;

    open spec fn view(&self) -> KdS
        decreases self,
    {
        match self {
            RawKd::Star { lb, rb } => KdS::Star { lb: *lb, rb: *rb },
            RawKd::Arr { dom, cod, lb, rb } => KdS::Arr {
                dom: Box::new((**dom)@),
                cod: Box::new((**cod)@),
                lb: *lb,
                rb: *rb,
            },
        }
    }
}

impl View for RawTp {
    type V = TpS;

    open spec fn view(&self) -> TpS
        decreases self,
    {
        match self {
            RawTp::Lam { var, annot, body, lb, rb } => TpS::Lam {
                var: var@,
                annot: match annot {
                    Some(k) => Some((**k)@),
                    None => None,
                },
                body: Box::new((**body)@),
                lb: *lb,
                rb: *rb,
            },
            RawTp::All { var, annot, body, lb, rb } => TpS::All {
                var: var@,
                annot: match annot {
                    Some(k) => Some((**k)@),
                    None => None,
                },
                body: Box::new((**body)@),
                lb: *lb,
                rb: *rb,
            },
            RawTp::App { head, args, lb, rb } => TpS::App {
                head: Box::new((**head)@),
                args: tps_view(args@),
                lb: *lb,
                rb: *rb,
            },
            RawTp::Arr { dom, cod, lb, rb } => TpS::Arr {
                dom: Box::new((**dom)@),
                cod: Box::new((**cod)@),
                lb: *lb,
                rb: *rb,
            },
            RawTp::Var { var, lb, rb } => TpS::Var { var: var@, lb: *lb, rb: *rb },
        }
    }
}

impl View for RawTm {
    type V = TmS;

    open spec fn view(&self) -> TmS
        decreases self,
    {
        match self {
            RawTm::Lam { var, annot, body, lb, rb } => TmS::Lam {
                var: var@,
                annot: match annot {
                    Some(t) => Some((**t)@),
                    None => None,
                },
                body: Box::new((**body)@),
                lb: *lb,
                rb: *rb,
            },
            RawTm::App { head, args, lb, rb } => TmS::App {
                head: Box::new((**head)@),
                args: tms_view(args@),
                lb: *lb,
                rb: *rb,
            },
            RawTm::Var { var, lb, rb } => TmS::Var { var: var@, lb: *lb, rb: *rb },
        }
    }
}

impl View for RawDef {
    type V = DefS;

    open spec fn view(&self) -> DefS {
        match self {
            RawDef::Tm { var, annot, body, lb, rb } => DefS::Tm {
                var: var@,
                annot: match annot {
                    Some(t) => Some((**t)@),
                    None => None,
                },
                body: (**body)@,
                lb: *lb,
                rb: *rb,
            },
            RawDef::Tp { var, annot, body, lb, rb } => DefS::Tp {
                var: var@,
                annot: match annot {
                    Some(k) => Some((**k)@),
                    None => None,
                },
                body: (**body)@,
                lb: *lb,
                rb: *rb,
            },
        }
    }
}

/// Every syntax node exposes the pair of source coordinates bounding the text
/// that produced it.
pub trait Span {
    spec fn spec_bounds(&self) -> (Pos, Pos);

    fn bounds(&self) -> (r: (Pos, Pos))
        ensures
            r == self.spec_bounds(),
    ;

    fn left(&self) -> (r: Pos)
        ensures
            r == self.spec_bounds().0,
    {
        let b = self.bounds();
        b.0
    }

    fn right(&self) -> (r: Pos)
        ensures
            r == self.spec_bounds().1,
    {
        let b = self.bounds();
        b.1
    }
}

impl Span for RawTm {
    open spec fn spec_bounds(&self) -> (Pos, Pos) {
        match *self {
            RawTm::Lam { lb, rb, .. } => (lb, rb),
            RawTm::App { lb, rb, .. } => (lb, rb),
            RawTm::Var { lb, rb, .. } => (lb, rb),
        }
    }

    fn bounds(&self) -> (r: (Pos, Pos)) {
        match self {
            RawTm::Lam { lb, rb, .. } => (*lb, *rb),
            RawTm::App { lb, rb, .. } => (*lb, *rb),
            RawTm::Var { lb, rb, .. } => (*lb, *rb),
        }
    }
}

impl Span for RawTp {
    open spec fn spec_bounds(&self) -> (Pos, Pos) {
        match *self {
            RawTp::Lam { lb, rb, .. } => (lb, rb),
            RawTp::All { lb, rb, .. } => (lb, rb),
            RawTp::App { lb, rb, .. } => (lb, rb),
            RawTp::Arr { lb, rb, .. } => (lb, rb),
            RawTp::Var { lb, rb, .. } => (lb, rb),
        }
    }

    fn bounds(&self) -> (r: (Pos, Pos)) {
        match self {
            RawTp::Lam { lb, rb, .. } => (*lb, *rb),
            RawTp::All { lb, rb, .. } => (*lb, *rb),
            RawTp::App { lb, rb, .. } => (*lb, *rb),
            RawTp::Arr { lb, rb, .. } => (*lb, *rb),
            RawTp::Var { lb, rb, .. } => (*lb, *rb),
        }
    }
}

impl Span for RawKd {
    open spec fn spec_bounds(&self) -> (Pos, Pos) {
        match *self {
            RawKd::Star { lb, rb } => (lb, rb),
            RawKd::Arr { lb, rb, .. } => (lb, rb),
        }
    }

    fn bounds(&self) -> (r: (Pos, Pos)) {
        match self {
            RawKd::Star { lb, rb } => (*lb, *rb),
            RawKd::Arr { lb, rb, .. } => (*lb, *rb),
        }
    }
}

impl Span for RawDef {
    open spec fn spec_bounds(&self) -> (Pos, Pos) {
        match *self {
            RawDef::Tm { lb, rb, .. } => (lb, rb),
            RawDef::Tp { lb, rb, .. } => (lb, rb),
        }
    }

    fn bounds(&self) -> (r: (Pos, Pos)) {
        match self {
            RawDef::Tm { lb, rb, .. } => (*lb, *rb),
            RawDef::Tp { lb, rb, .. } => (*lb, *rb),
        }
    }
}

/// Left bound of a ghost kind node.
pub open spec fn kd_left(k: KdS) -> Pos {
    match k {
        KdS::Star { lb, .. } => lb,
        KdS::Arr { lb, .. } => lb,
    }
}

/// Right bound of a ghost kind node.
pub open spec fn kd_right(k: KdS) -> Pos {
    match k {
        KdS::Star { rb, .. } => rb,
        KdS::Arr { rb, .. } => rb,
    }
}

/// Left bound of a ghost type node.
pub open spec fn tp_left(t: TpS) -> Pos {
    match t {
        TpS::Lam { lb, .. } => lb,
        TpS::All { lb, .. } => lb,
        TpS::App { lb, .. } => lb,
        TpS::Arr { lb, .. } => lb,
        TpS::Var { lb, .. } => lb,
    }
}

/// Right bound of a ghost type node.
pub open spec fn tp_right(t: TpS) -> Pos {
    match t {
        TpS::Lam { rb, .. } => rb,
        TpS::All { rb, .. } => rb,
        TpS::App { rb, .. } => rb,
        TpS::Arr { rb, .. } => rb,
        TpS::Var { rb, .. } => rb,
    }
}

/// Left bound of a ghost term node.
pub open spec fn tm_left(t: TmS) -> Pos {
    match t {
        TmS::Lam { lb, .. } => lb,
        TmS::App { lb, .. } => lb,
        TmS::Var { lb, .. } => lb,
    }
}

/// Right bound of a ghost term node.
pub open spec fn tm_right(t: TmS) -> Pos {
    match t {
        TmS::Lam { rb, .. } => rb,
        TmS::App { rb, .. } => rb,
        TmS::Var { rb, .. } => rb,
    }
}

/// Left bound of a ghost definition node.
pub open spec fn def_left(d: DefS) -> Pos {
    match d {
        DefS::Tm { lb, .. } => lb,
        DefS::Tp { lb, .. } => lb,
    }
}

/// Right bound of a ghost definition node.
pub open spec fn def_right(d: DefS) -> Pos {
    match d {
        DefS::Tm { rb, .. } => rb,
        DefS::Tp { rb, .. } => rb,
    }
}

/// The span `[l, r]` lies within the span `[lb, rb]`.
pub open spec fn within(l: Pos, r: Pos, lb: Pos, rb: Pos) -> bool {
    pos_le(lb, l) && pos_le(r, rb)
}

/// Span well-formedness of a kind node: left bound at or before right bound,
/// every child's span contained in the parent's, recursively.
pub open spec fn kd_wf(k: KdS) -> bool
    decreases k,
{
    match k {
        KdS::Star { lb, rb } => pos_le(lb, rb),
        KdS::Arr { dom, cod, lb, rb } => pos_le(lb, rb) && kd_wf(*dom) && kd_wf(*cod) && within(
            kd_left(*dom),
            kd_right(*dom),
            lb,
            rb,
        ) && within(kd_left(*cod), kd_right(*cod), lb, rb),
    }
}

/// Span well-formedness of a type node. An `App` node moreover never has zero
/// arguments.
pub open spec fn tp_wf(t: TpS) -> bool
    decreases t,
{
    match t {
        TpS::Lam { var, annot, body, lb, rb } => pos_le(lb, rb) && (match annot {
            Some(k) => kd_wf(k) && within(kd_left(k), kd_right(k), lb, rb),
            None => true,
        }) && tp_wf(*body) && within(tp_left(*body), tp_right(*body), lb, rb),
        TpS::All { var, annot, body, lb, rb } => pos_le(lb, rb) && (match annot {
            Some(k) => kd_wf(k) && within(kd_left(k), kd_right(k), lb, rb),
            None => true,
        }) && tp_wf(*body) && within(tp_left(*body), tp_right(*body), lb, rb),
        TpS::App { head, args, lb, rb } => pos_le(lb, rb) && args.len() >= 1 && tp_wf(*head)
            && within(tp_left(*head), tp_right(*head), lb, rb) && (forall|i: int|
            0 <= i < args.len() ==> #[trigger] tp_wf(args[i]) && within(
                tp_left(args[i]),
                tp_right(args[i]),
                lb,
                rb,
            )),
        TpS::Arr { dom, cod, lb, rb } => pos_le(lb, rb) && tp_wf(*dom) && within(
            tp_left(*dom),
            tp_right(*dom),
            lb,
            rb,
        ) && tp_wf(*cod) && within(tp_left(*cod), tp_right(*cod), lb, rb),
        TpS::Var { var, lb, rb } => pos_le(lb, rb),
    }
}

/// Span well-formedness of a term node. An `App` node moreover never has zero
/// arguments.
pub open spec fn tm_wf(t: TmS) -> bool
    decreases t,
{
    match t {
        TmS::Lam { var, annot, body, lb, rb } => pos_le(lb, rb) && (match annot {
            Some(a) => tp_wf(a) && within(tp_left(a), tp_right(a), lb, rb),
            None => true,
        }) && tm_wf(*body) && within(tm_left(*body), tm_right(*body), lb, rb),
        TmS::App { head, args, lb, rb } => pos_le(lb, rb) && args.len() >= 1 && tm_wf(*head)
            && within(tm_left(*head), tm_right(*head), lb, rb) && (forall|i: int|
            0 <= i < args.len() ==> #[trigger] tm_wf(args[i]) && within(
                tm_left(args[i]),
                tm_right(args[i]),
                lb,
                rb,
            )),
        TmS::Var { var, lb, rb } => pos_le(lb, rb),
    }
}

/// Span well-formedness of a definition node.
pub open spec fn def_wf(d: DefS) -> bool {
    match d {
        DefS::Tm { var, annot, body, lb, rb } => pos_le(lb, rb) && (match annot {
            Some(a) => tp_wf(a) && within(tp_left(a), tp_right(a), lb, rb),
            None => true,
        }) && tm_wf(body) && within(tm_left(body), tm_right(body), lb, rb),
        DefS::Tp { var, annot, body, lb, rb } => pos_le(lb, rb) && (match annot {
            Some(k) => kd_wf(k) && within(kd_left(k), kd_right(k), lb, rb),
            None => true,
        }) && tp_wf(body) && within(tp_left(body), tp_right(body), lb, rb),
    }
}


/// Elementwise view of an optional boxed raw type annotation.
pub open spec fn opt_tp_view(a: Option<Box<RawTp>>) -> Option<TpS> {
    match a {
        Some(t) => Some((*t)@),
        None => None,
    }
}

/// Elementwise view of an optional boxed raw kind annotation.
pub open spec fn opt_kd_view(a: Option<Box<RawKd>>) -> Option<KdS> {
    match a {
        Some(k) => Some((*k)@),
        None => None,
    }
}

/// Elementwise view of a sequence of definitions.
pub open spec fn defs_view(s: Seq<RawDef>) -> Seq<DefS>
    decreases s,
{
    if s.len() == 0 {
        Seq::empty()
    } else {
        seq![s[0]@] + defs_view(s.drop_first())
    }
}

pub proof fn lemma_tps_view(s: Seq<Box<RawTp>>)
    ensures
        tps_view(s).len() == s.len(),
        forall|k: int| 0 <= k < s.len() ==> #[trigger] tps_view(s)[k] == (*s[k])@,
    decreases s.len(),
{
    if s.len() > 0 {
        lemma_tps_view(s.drop_first());
        assert(tps_view(s) == seq![(*s[0])@] + tps_view(s.drop_first()));
        assert forall|k: int| 0 <= k < s.len() implies #[trigger] tps_view(s)[k] == (*s[k])@ by {
            if k > 0 {
                assert(tps_view(s)[k] == tps_view(s.drop_first())[k - 1]);
                assert(s.drop_first()[k - 1] == s[k]);
            }
        }
    }
}

pub proof fn lemma_tms_view(s: Seq<Box<RawTm>>)
    ensures
        tms_view(s).len() == s.len(),
        forall|k: int| 0 <= k < s.len() ==> #[trigger] tms_view(s)[k] == (*s[k])@,
    decreases s.len(),
{
    if s.len() > 0 {
        lemma_tms_view(s.drop_first());
        assert(tms_view(s) == seq![(*s[0])@] + tms_view(s.drop_first()));
        assert forall|k: int| 0 <= k < s.len() implies #[trigger] tms_view(s)[k] == (*s[k])@ by {
            if k > 0 {
                assert(tms_view(s)[k] == tms_view(s.drop_first())[k - 1]);
                assert(s.drop_first()[k - 1] == s[k]);
            }
        }
    }
}

pub proof fn lemma_defs_view(s: Seq<RawDef>)
    ensures
        defs_view(s).len() == s.len(),
        forall|k: int| 0 <= k < s.len() ==> #[trigger] defs_view(s)[k] == s[k]@,
    decreases s.len(),
{
    if s.len() > 0 {
        lemma_defs_view(s.drop_first());
        assert(defs_view(s) == seq![s[0]@] + defs_view(s.drop_first()));
        assert forall|k: int| 0 <= k < s.len() implies #[trigger] defs_view(s)[k] == s[k]@ by {
            if k > 0 {
                assert(defs_view(s)[k] == defs_view(s.drop_first())[k - 1]);
                assert(s.drop_first()[k - 1] == s[k]);
            }
        }
    }
}


pub proof fn lemma_tps_view_push(s: Seq<Box<RawTp>>, x: Box<RawTp>)
    ensures
        tps_view(s.push(x)) == tps_view(s).push((*x)@),
{
    lemma_tps_view(s);
    lemma_tps_view(s.push(x));
    assert forall|k: int| 0 <= k < s.len() + 1 implies tps_view(s.push(x))[k] == tps_view(
        s,
    ).push((*x)@)[k] by {
        assert(tps_view(s.push(x))[k] == (*s.push(x)[k])@);
    }
    assert(tps_view(s.push(x)) =~= tps_view(s).push((*x)@));
}

pub proof fn lemma_tms_view_push(s: Seq<Box<RawTm>>, x: Box<RawTm>)
    ensures
        tms_view(s.push(x)) == tms_view(s).push((*x)@),
{
    lemma_tms_view(s);
    lemma_tms_view(s.push(x));
    assert forall|k: int| 0 <= k < s.len() + 1 implies tms_view(s.push(x))[k] == tms_view(
        s,
    ).push((*x)@)[k] by {
        assert(tms_view(s.push(x))[k] == (*s.push(x)[k])@);
    }
    assert(tms_view(s.push(x)) =~= tms_view(s).push((*x)@));
}

pub proof fn lemma_defs_view_push(s: Seq<RawDef>, x: RawDef)
    ensures
        defs_view(s.push(x)) == defs_view(s).push(x@),
{
    lemma_defs_view(s);
    lemma_defs_view(s.push(x));
    assert forall|k: int| 0 <= k < s.len() + 1 implies defs_view(s.push(x))[k] == defs_view(
        s,
    ).push(x@)[k] by {
        assert(defs_view(s.push(x))[k] == s.push(x)[k]@);
    }
    assert(defs_view(s.push(x)) =~= defs_view(s).push(x@));
}

} // verus!
