//! The lexer: turns the source text into a position-annotated token stream,
//! terminated by exactly one end-of-file token.
//!
//! The contract is stated against [`spec_lex`], a mathematical single-pass
//! description of the token stream: a newline resets the column and bumps the
//! line; other whitespace advances the column; a fixed single-character
//! punctuation set is classified first; everything else is collected as a
//! maximal word and matched against the reserved-word table, identifiers being
//! the fallback.

use crate::ast::{pos_le, FernError, Pos};
use vstd::prelude::*;
use vstd::string::StrSliceExecFns;
use vstd::string::StringExecFns;

verus! {

/// Ghost mirror of [`TokTp`]: the lexeme of an identifier as a character
/// sequence.
pub enum TokS {
    Var(Seq<char>),
    Lam,
    ParenL,
    ParenR,
    Eq,
    Dot,
    Let,
    In,
    Colon,
    Arr,
    All,
    Star,
    Data,
    Match,
    MatchArr,
    Bar,
    Syntax,
    EOF,
}

/// Ghost mirror of [`Token`].
pub struct TokenS {
    pub tok: TokS,
    pub pos: Pos,
}

/// A token kind; identifiers carry their raw lexeme.
#[derive(Debug, Clone)]
pub enum TokTp {
    Var(String),
    Lam,
    ParenL,
    ParenR,
    Eq,
    Dot,
    Let,
    In,
    Colon,
    Arr,
    All,
    Star,
    Data,
    Match,
    MatchArr,
    Bar,
    Syntax,
    EOF,
}

impl View for TokTp {
    type V = TokS;

    open spec fn view(&self) -> TokS {
        match self {
            TokTp::Var(s) => TokS::Var(s@),
            TokTp::Lam => TokS::Lam,
            TokTp::ParenL => TokS::ParenL,
            TokTp::ParenR => TokS::ParenR,
            TokTp::Eq => TokS::Eq,
            TokTp::Dot => TokS::Dot,
            TokTp::Let => TokS::Let,
            TokTp::In => TokS::In,
            TokTp::Colon => TokS::Colon,
            TokTp::Arr => TokS::Arr,
            TokTp::All => TokS::All,
            TokTp::Star => TokS::Star,
            TokTp::Data => TokS::Data,
            TokTp::Match => TokS::Match,
            TokTp::MatchArr => TokS::MatchArr,
            TokTp::Bar => TokS::Bar,
            TokTp::Syntax => TokS::Syntax,
            TokTp::EOF => TokS::EOF,
        }
    }
}

impl PartialEq for TokTp {
    fn eq(&self, other: &TokTp) -> (r: bool) {
        match (self, other) {
            (TokTp::Var(a), TokTp::Var(b)) => *a == *b,
            (TokTp::Lam, TokTp::Lam) => true,
            (TokTp::ParenL, TokTp::ParenL) => true,
            (TokTp::ParenR, TokTp::ParenR) => true,
            (TokTp::Eq, TokTp::Eq) => true,
            (TokTp::Dot, TokTp::Dot) => true,
            (TokTp::Let, TokTp::Let) => true,
            (TokTp::In, TokTp::In) => true,
            (TokTp::Colon, TokTp::Colon) => true,
            (TokTp::Arr, TokTp::Arr) => true,
            (TokTp::All, TokTp::All) => true,
            (TokTp::Star, TokTp::Star) => true,
            (TokTp::Data, TokTp::Data) => true,
            (TokTp::Match, TokTp::Match) => true,
            (TokTp::MatchArr, TokTp::MatchArr) => true,
            (TokTp::Bar, TokTp::Bar) => true,
            (TokTp::Syntax, TokTp::Syntax) => true,
            (TokTp::EOF, TokTp::EOF) => true,
            _ => false,
        }
    }
}

impl vstd::std_specs::cmp::PartialEqSpecImpl for TokTp {
    open spec fn obeys_eq_spec() -> bool {
        true
    }

    open spec fn eq_spec(&self, other: &TokTp) -> bool {
        self@ == other@
    }
}

/// The display text of a token kind, as diagnostics print it.
pub open spec fn tok_text(t: TokS) -> Seq<char> {
    match t {
        TokS::Var(s) => s,
        TokS::Lam => "\u{03bb}"@,
        TokS::ParenL => "("@,
        TokS::ParenR => ")"@,
        TokS::Eq => "="@,
        TokS::Dot => "."@,
        TokS::Let => "let"@,
        TokS::In => "in"@,
        TokS::Colon => ":"@,
        TokS::Arr => "->"@,
        TokS::All => "forall"@,
        TokS::Star => "*"@,
        TokS::Data => "data"@,
        TokS::Match => "match"@,
        TokS::MatchArr => "=>"@,
        TokS::Bar => "|"@,
        TokS::Syntax => "syntax"@,
        TokS::EOF => "EOF"@,
    }
}

impl TokTp {
    /// The display text of the token.
    pub fn text(&self) -> (r: String)
        ensures
            r@ == tok_text(self@),
    {
        match self {
            TokTp::Var(s) => s.clone(),
            TokTp::Lam => String::from_str("\u{03bb}"),
            TokTp::ParenL => String::from_str("("),
            TokTp::ParenR => String::from_str(")"),
            TokTp::Eq => String::from_str("="),
            TokTp::Dot => String::from_str("."),
            TokTp::Let => String::from_str("let"),
            TokTp::In => String::from_str("in"),
            TokTp::Colon => String::from_str(":"),
            TokTp::Arr => String::from_str("->"),
            TokTp::All => String::from_str("forall"),
            TokTp::Star => String::from_str("*"),
            TokTp::Data => String::from_str("data"),
            TokTp::Match => String::from_str("match"),
            TokTp::MatchArr => String::from_str("=>"),
            TokTp::Bar => String::from_str("|"),
            TokTp::Syntax => String::from_str("syntax"),
            TokTp::EOF => String::from_str("EOF"),
        }
    }
}

/// A token: its kind and the position where it starts.
#[derive(Debug, Clone)]
pub struct Token {
    pub tok: TokTp,
    pub pos: Pos,
}

impl View for Token {
    type V = TokenS;

    open spec fn view(&self) -> TokenS {
        TokenS { tok: self.tok@, pos: self.pos }
    }
}

/// Elementwise view of a token vector.
pub open spec fn view_toks(s: Seq<Token>) -> Seq<TokenS> {
    s.map_values(|t: Token| t@)
}

/// A token stream the parser accepts: non-empty, ends with the end-of-file
/// token, and no token before the end is end-of-file.
pub open spec fn wf_toks(s: Seq<TokenS>) -> bool {
    &&& s.len() >= 1
    &&& s[s.len() - 1].tok is EOF
    &&& forall|k: int| 0 <= k < s.len() - 1 ==> !((#[trigger] s[k].tok) is EOF)
}

/// Every token column is below `u64::MAX`, so that a one-column-wide span can
/// be formed without overflow.
pub open spec fn cols_ok(s: Seq<TokenS>) -> bool {
    forall|k: int| 0 <= k < s.len() ==> (#[trigger] s[k].pos).col < u64::MAX
}

/// Whether a character has the Unicode `White_Space` property; a function of
/// the character alone.
pub uninterp spec fn is_space_char(c: char) -> bool;

/// Relies on `char::is_whitespace`: true exactly for characters with the
/// Unicode `White_Space` property, a function of the character alone.
#[verifier::external_body]
fn char_is_whitespace(c: char) -> (r: bool)
    ensures
        r == is_space_char(c),
{
    c.is_whitespace()
}

/// Relies on `String::from_iter` over `char`: collecting characters yields
/// the string of exactly those characters, in order.
#[verifier::external_body]
fn chars_to_string(v: &Vec<char>) -> (r: String)
    ensures
        r@ == v@,
{
    v.iter().collect()
}

/// The single-character punctuation set, classified before word collection.
pub open spec fn spec_punct_tok(c: char) -> Option<TokS> {
    if c == '\u{03bb}' {
        Some(TokS::Lam)
    } else if c == '\\' {
        Some(TokS::Lam)
    } else if c == '(' {
        Some(TokS::ParenL)
    } else if c == ')' {
        Some(TokS::ParenR)
    } else if c == '.' {
        Some(TokS::Dot)
    } else if c == ':' {
        Some(TokS::Colon)
    } else {
        None
    }
}

fn is_punctuation(c: char) -> (r: Option<TokTp>)
    ensures
        match (r, spec_punct_tok(c)) {
            (Some(t), Some(ts)) => t@ == ts,
            (None, None) => true,
            _ => false,
        },
{
    match c {
        '\u{03bb}' => Some(TokTp::Lam),
        '\\' => Some(TokTp::Lam),
        '(' => Some(TokTp::ParenL),
        ')' => Some(TokTp::ParenR),
        '.' => Some(TokTp::Dot),
        ':' => Some(TokTp::Colon),
        _ => None,
    }
}

/// Where the cursor moves when `c` is whitespace: a newline starts the next
/// line at column 0, any other whitespace advances the column by one.
pub open spec fn spec_ws_new_pos(c: char, pos: Pos) -> Option<Pos> {
    if c == '\n' {
        Some(Pos { line: (pos.line + 1) as u64, col: 0 })
    } else if is_space_char(c) {
        Some(Pos { line: pos.line, col: (pos.col + 1) as u64 })
    } else {
        None
    }
}

fn is_whitespace(c: char, pos: Pos) -> (r: Option<Pos>)
    requires
        pos.line < u64::MAX,
        pos.col < u64::MAX,
    ensures
        r == spec_ws_new_pos(c, pos),
{
    if c == '\n' {
        Some(pos.advance_by_newline())
    } else if char_is_whitespace(c) {
        Some(pos.advance_by_columns(1))
    } else {
        None
    }
}

/// A character that ends a word: whitespace or single-character punctuation.
pub open spec fn is_word_break(c: char) -> bool {
    spec_punct_tok(c) is Some || c == '\n' || is_space_char(c)
}

/// The first index at or after `i` holding a word-breaking character (or the
/// end of input).
pub open spec fn word_end(cs: Seq<char>, i: int) -> int
    decreases cs.len() - i,
{
    if i < 0 || i >= cs.len() {
        i
    } else if is_word_break(cs[i]) {
        i
    } else {
        word_end(cs, i + 1)
    }
}

pub proof fn lemma_word_end_bounds(cs: Seq<char>, i: int)
    requires
        0 <= i <= cs.len(),
    ensures
        i <= word_end(cs, i) <= cs.len(),
    decreases cs.len() - i,
{
    if i < cs.len() && !is_word_break(cs[i]) {
        lemma_word_end_bounds(cs, i + 1);
    }
}

/// The reserved-word table: a word is a keyword exactly when it matches one
/// of these strings; otherwise it is an identifier holding the literal word.
pub open spec fn word_tok(w: Seq<char>) -> TokS {
    if w == "syntax"@ {
        TokS::Syntax
    } else if w == "data"@ {
        TokS::Data
    } else if w == "forall"@ {
        TokS::All
    } else if w == "match"@ {
        TokS::Match
    } else if w == "=>"@ {
        TokS::MatchArr
    } else if w == "="@ {
        TokS::Eq
    } else if w == "|"@ {
        TokS::Bar
    } else if w == "*"@ {
        TokS::Star
    } else if w == "->"@ {
        TokS::Arr
    } else {
        TokS::Var(w)
    }
}

/// The token stream of the characters from index `i` on, the cursor standing
/// at `pos`: the mathematical description the lexer is proved against.
pub open spec fn spec_lex(cs: Seq<char>, i: int, pos: Pos) -> Seq<TokenS>
    decreases cs.len() - i,
{
    if i < 0 || i >= cs.len() {
        seq![TokenS { tok: TokS::EOF, pos }]
    } else if cs[i] == '\n' {
        spec_lex(cs, i + 1, Pos { line: (pos.line + 1) as u64, col: 0 })
    } else if is_space_char(cs[i]) {
        spec_lex(cs, i + 1, Pos { line: pos.line, col: (pos.col + 1) as u64 })
    } else if spec_punct_tok(cs[i]) is Some {
        seq![TokenS { tok: spec_punct_tok(cs[i]).unwrap(), pos }] + spec_lex(
            cs,
            i + 1,
            Pos { line: pos.line, col: (pos.col + 1) as u64 },
        )
    } else {
        let j = word_end(cs, i);
        proof {
            lemma_word_end_bounds(cs, i + 1);
        }
        seq![TokenS { tok: word_tok(cs.subrange(i, j)), pos }] + spec_lex(
            cs,
            j,
            Pos { line: pos.line, col: (pos.col + (j - i)) as u64 },
        )
    }
}

/// The characters of a string, in order.
fn string_chars(s: &String) -> (r: Vec<char>)
    ensures
        r@ == s@,
{
    let st = s.as_str();
    let n = st.unicode_len();
    let mut v: Vec<char> = Vec::new();
    let mut i: usize = 0;
    while i < n
        invariant
            i <= n,
            n == st@.len(),
            st@ == s@,
            v@ =~= s@.subrange(0, i as int),
        decreases n - i,
    {
        v.push(st.get_char(i));
        i = i + 1;
    }
    proof {
        assert(v@ =~= s@);
    }
    v
}

/// Whether `w` holds exactly the characters of `s`.
fn word_is(w: &Vec<char>, s: &str) -> (r: bool)
    ensures
        r == (w@ == s@),
{
    let n = s.unicode_len();
    if w.len() != n {
        return false;
    }
    let mut k: usize = 0;
    while k < n
        invariant
            k <= n,
            n == s@.len(),
            w@.len() == n,
            forall|m: int| 0 <= m < k ==> w@[m] == s@[m],
        decreases n - k,
    {
        if w[k] != s.get_char(k) {
            return false;
        }
        k = k + 1;
    }
    proof {
        assert(w@ =~= s@);
    }
    true
}

/// Classify a collected word against the reserved-word table.
fn classify_word(w: &Vec<char>) -> (t: TokTp)
    ensures
        t@ == word_tok(w@),
{
    if word_is(w, "syntax") {
        TokTp::Syntax
    } else if word_is(w, "data") {
        TokTp::Data
    } else if word_is(w, "forall") {
        TokTp::All
    } else if word_is(w, "match") {
        TokTp::Match
    } else if word_is(w, "=>") {
        TokTp::MatchArr
    } else if word_is(w, "=") {
        TokTp::Eq
    } else if word_is(w, "|") {
        TokTp::Bar
    } else if word_is(w, "*") {
        TokTp::Star
    } else if word_is(w, "->") {
        TokTp::Arr
    } else {
        TokTp::Var(chars_to_string(w))
    }
}

/// Lex the characters from `idx` on, the cursor standing at `pos`, appending
/// the tokens (always succeeds).
fn lex_h(cs: &Vec<char>, idx: usize, pos: Pos, toks: &mut Vec<Token>) -> (r: Result<
    (),
    FernError,
>)
    requires
        idx <= cs@.len(),
        pos.line + (cs@.len() - idx) <= u64::MAX,
        pos.col + (cs@.len() - idx) <= u64::MAX,
    ensures
        r is Ok,
        view_toks(final(toks)@) == view_toks(old(toks)@) + spec_lex(cs@, idx as int, pos),
{
    let n = cs.len();
    let mut i = idx;
    let mut p = pos;
    loop
        invariant
            idx <= i <= n,
            n == cs@.len(),
            p.line + (n - i) <= u64::MAX,
            p.col + (n - i) <= u64::MAX,
            view_toks(toks@) + spec_lex(cs@, i as int, p) == view_toks(old(toks)@) + spec_lex(
                cs@,
                idx as int,
                pos,
            ),
        decreases n - i,
    {
        if i == n {
            let tk = Token { tok: TokTp::EOF, pos: p };
            proof {
                assert(view_toks(toks@.push(tk)) =~= view_toks(toks@).push(tk@));
                assert(view_toks(toks@).push(tk@) =~= view_toks(toks@) + spec_lex(
                    cs@,
                    i as int,
                    p,
                ));
            }
            toks.push(tk);
            return Ok(());
        }
        let c = cs[i];
        if c == '\n' {
            p = p.advance_by_newline();
            i = i + 1;
        } else if char_is_whitespace(c) {
            p = p.advance_by_columns(1);
            i = i + 1;
        } else if let Some(t) = is_punctuation(c) {
            let tk = Token { tok: t, pos: p };
            proof {
                assert(view_toks(toks@.push(tk)) =~= view_toks(toks@).push(tk@));
                assert((view_toks(toks@) + spec_lex(cs@, i as int, p)) =~= (view_toks(toks@).push(
                    tk@,
                ) + spec_lex(cs@, i as int + 1, Pos { line: p.line, col: (p.col + 1) as u64 })));
            }
            toks.push(tk);
            p = p.advance_by_columns(1);
            i = i + 1;
        } else {
            let ghost i0 = i as int;
            let mut w: Vec<char> = Vec::new();
            let mut j = i;
            while j < n && !(is_punctuation(cs[j]).is_some() || cs[j] == '\n'
                || char_is_whitespace(cs[j]))
                invariant
                    0 <= i0 <= j <= n,
                    n == cs@.len(),
                    w@ =~= cs@.subrange(i0, j as int),
                    word_end(cs@, i0) == word_end(cs@, j as int),
                decreases n - j,
            {
                w.push(cs[j]);
                j = j + 1;
                proof {
                    assert(cs@.subrange(i0, j as int) =~= cs@.subrange(i0, j - 1).push(
                        cs@[j - 1],
                    ));
                }
            }
            proof {
                assert(word_end(cs@, j as int) == j as int);
                assert(j != i) by {
                    if j == i {
                        assert(!is_word_break(cs@[i0]));
                    }
                }
            }
            let tk = Token { tok: classify_word(&w), pos: p };
            let ghost pnew = Pos { line: p.line, col: (p.col + (j - i0)) as u64 };
            proof {
                assert(view_toks(toks@.push(tk)) =~= view_toks(toks@).push(tk@));
                assert((view_toks(toks@) + spec_lex(cs@, i as int, p)) =~= (view_toks(toks@).push(
                    tk@,
                ) + spec_lex(cs@, j as int, pnew)));
            }
            toks.push(tk);
            p = p.advance_by_columns((j - i) as u64);
            i = j;
        }
    }
}

/// Lex the whole source text. Never fails: any character is consumable as
/// part of a word or as punctuation. The stream it returns is what the
/// parser accepts: it ends in exactly one end-of-file token and every
/// column is in range.
pub fn lex(body: String) -> (r: Result<Vec<Token>, FernError>)
    requires
        body@.len() < u64::MAX,
    ensures
        match r {
            Ok(toks) => {
                &&& view_toks(toks@) == spec_lex(body@, 0, Pos { line: 1, col: 0 })
                &&& wf_toks(view_toks(toks@))
                &&& cols_ok(view_toks(toks@))
                &&& pos_spaced(view_toks(toks@))
            },
            Err(_) => false,
        },
{
    let cs = string_chars(&body);
    let mut toks: Vec<Token> = Vec::new();
    lex_h(&cs, 0, Pos { line: 1, col: 0 }, &mut toks)?;
    proof {
        lemma_spec_lex_tokens(body@, 0, Pos { line: 1, col: 0 });
    }
    Ok(toks)
}

/// The position one column to the right: the earliest place a new token can
/// start after a token of width one.
pub open spec fn succ_pos(p: Pos) -> Pos {
    Pos { line: p.line, col: (p.col + 1) as u64 }
}

/// Consecutive tokens are spaced: each token starts at least one column (or
/// a line break) after the start of the one before it, as the lexer lays
/// them out.
pub open spec fn pos_spaced(s: Seq<TokenS>) -> bool {
    forall|k: int|
        0 <= k < s.len() - 1 ==> pos_le(succ_pos((#[trigger] s[k]).pos), s[k + 1].pos)
}

/// The token stream the lexer describes is well-formed and spaced: exactly
/// one end-of-file token, at the end; every token starts at or after the
/// cursor; consecutive tokens are at least one column (or a line break)
/// apart; and every column stays in range.
pub proof fn lemma_spec_lex_tokens(cs: Seq<char>, i: int, pos: Pos)
    requires
        0 <= i <= cs.len(),
        pos.line + (cs.len() - i) <= u64::MAX,
        pos.col + (cs.len() - i) < u64::MAX,
    ensures
        ({
            let t = spec_lex(cs, i, pos);
            &&& t.len() >= 1
            &&& t[t.len() - 1].tok is EOF
            &&& (forall|k: int| 0 <= k < t.len() - 1 ==> !((#[trigger] t[k].tok) is EOF))
            &&& (forall|k: int| 0 <= k < t.len() ==> pos_le(pos, (#[trigger] t[k]).pos))
            &&& (forall|k: int|
                0 <= k < t.len() ==> (#[trigger] t[k]).pos.col <= pos.col + (cs.len() - i))
            &&& pos_spaced(t)
        }),
    decreases cs.len() - i,
{
    let t = spec_lex(cs, i, pos);
    if i >= cs.len() {
    } else if cs[i] == '\n' {
        lemma_spec_lex_tokens(cs, i + 1, Pos { line: (pos.line + 1) as u64, col: 0 });
    } else if is_space_char(cs[i]) {
        lemma_spec_lex_tokens(cs, i + 1, Pos { line: pos.line, col: (pos.col + 1) as u64 });
    } else if spec_punct_tok(cs[i]) is Some {
        let p2 = Pos { line: pos.line, col: (pos.col + 1) as u64 };
        lemma_spec_lex_tokens(cs, i + 1, p2);
        let rest = spec_lex(cs, i + 1, p2);
        assert(t == seq![
            TokenS { tok: spec_punct_tok(cs[i]).unwrap(), pos },
        ] + rest);
        assert forall|k: int| 0 <= k < t.len() - 1 implies pos_le(
            succ_pos((#[trigger] t[k]).pos),
            t[k + 1].pos,
        ) by {
            if k == 0 {
                assert(t[1] == rest[0]);
                assert(pos_le(p2, rest[0].pos));
            } else {
                assert(t[k] == rest[k - 1]);
                assert(t[k + 1] == rest[k]);
            }
        }
    } else {
        let j = word_end(cs, i);
        lemma_word_end_bounds(cs, i + 1);
        let p2 = Pos { line: pos.line, col: (pos.col + (j - i)) as u64 };
        lemma_spec_lex_tokens(cs, j, p2);
        let rest = spec_lex(cs, j, p2);
        assert(t == seq![TokenS { tok: word_tok(cs.subrange(i, j)), pos }] + rest);
        assert forall|k: int| 0 <= k < t.len() - 1 implies pos_le(
            succ_pos((#[trigger] t[k]).pos),
            t[k + 1].pos,
        ) by {
            if k == 0 {
                assert(t[1] == rest[0]);
                assert(pos_le(p2, rest[0].pos));
            } else {
                assert(t[k] == rest[k - 1]);
                assert(t[k + 1] == rest[k]);
            }
        }
    }
}


} // verus!
