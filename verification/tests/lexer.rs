use fern::ast::Pos;
use fern::lex::{lex, TokTp};

#[test]
fn lex_words_and_positions() {
    let toks = lex(String::from("f a")).unwrap();
    assert_eq!(toks.len(), 3);
    assert_eq!(toks[0].tok, TokTp::Var(String::from("f")));
    assert_eq!(toks[0].pos, Pos { line: 1, col: 0 });
    assert_eq!(toks[1].tok, TokTp::Var(String::from("a")));
    assert_eq!(toks[1].pos, Pos { line: 1, col: 2 });
    assert_eq!(toks[2].tok, TokTp::EOF);
    assert_eq!(toks[2].pos, Pos { line: 1, col: 3 });
}

#[test]
fn lex_newline_resets_column() {
    let toks = lex(String::from("a\nb")).unwrap();
    assert_eq!(toks.len(), 3);
    assert_eq!(toks[0].pos, Pos { line: 1, col: 0 });
    assert_eq!(toks[1].tok, TokTp::Var(String::from("b")));
    assert_eq!(toks[1].pos, Pos { line: 2, col: 0 });
    assert_eq!(toks[2].tok, TokTp::EOF);
    assert_eq!(toks[2].pos, Pos { line: 2, col: 1 });
}

#[test]
fn lex_single_char_punctuation() {
    let toks = lex(String::from("(x).:")).unwrap();
    assert_eq!(toks.len(), 6);
    assert_eq!(toks[0].tok, TokTp::ParenL);
    assert_eq!(toks[1].tok, TokTp::Var(String::from("x")));
    assert_eq!(toks[1].pos, Pos { line: 1, col: 1 });
    assert_eq!(toks[2].tok, TokTp::ParenR);
    assert_eq!(toks[3].tok, TokTp::Dot);
    assert_eq!(toks[4].tok, TokTp::Colon);
    assert_eq!(toks[5].tok, TokTp::EOF);
}

#[test]
fn lex_lambda_glyph_and_backslash() {
    let toks = lex(String::from("\u{03bb}")).unwrap();
    assert_eq!(toks[0].tok, TokTp::Lam);
    let toks = lex(String::from("\\")).unwrap();
    assert_eq!(toks[0].tok, TokTp::Lam);
}

#[test]
fn lex_reserved_words() {
    let toks = lex(String::from("syntax data forall match => = | * ->")).unwrap();
    assert_eq!(toks[0].tok, TokTp::Syntax);
    assert_eq!(toks[1].tok, TokTp::Data);
    assert_eq!(toks[2].tok, TokTp::All);
    assert_eq!(toks[3].tok, TokTp::Match);
    assert_eq!(toks[4].tok, TokTp::MatchArr);
    assert_eq!(toks[5].tok, TokTp::Eq);
    assert_eq!(toks[6].tok, TokTp::Bar);
    assert_eq!(toks[7].tok, TokTp::Star);
    assert_eq!(toks[8].tok, TokTp::Arr);
    assert_eq!(toks[9].tok, TokTp::EOF);
}

#[test]
fn lex_word_swallows_multichar_operators() {
    // Multi-character operators are lexed as words: with no whitespace
    // around it, `->` fuses with its neighbours into one identifier.
    let toks = lex(String::from("a->b")).unwrap();
    assert_eq!(toks.len(), 2);
    assert_eq!(toks[0].tok, TokTp::Var(String::from("a->b")));
    assert_eq!(toks[1].tok, TokTp::EOF);
}

#[test]
fn lex_punctuation_splits_words() {
    let toks = lex(String::from("f.x")).unwrap();
    assert_eq!(toks.len(), 4);
    assert_eq!(toks[0].tok, TokTp::Var(String::from("f")));
    assert_eq!(toks[1].tok, TokTp::Dot);
    assert_eq!(toks[2].tok, TokTp::Var(String::from("x")));
}

#[test]
fn lex_empty_input_is_only_eof() {
    let toks = lex(String::new()).unwrap();
    assert_eq!(toks.len(), 1);
    assert_eq!(toks[0].tok, TokTp::EOF);
    assert_eq!(toks[0].pos, Pos { line: 1, col: 0 });
}

#[test]
fn lex_tab_advances_one_column() {
    let toks = lex(String::from("a\tb")).unwrap();
    assert_eq!(toks[1].tok, TokTp::Var(String::from("b")));
    assert_eq!(toks[1].pos, Pos { line: 1, col: 2 });
}

#[test]
fn lex_never_fails_on_arbitrary_text() {
    assert!(lex(String::from("@#$%^&;{}[]\"'`~0123")).is_ok());
}

#[test]
fn token_text_round_trip() {
    assert_eq!(TokTp::Arr.text(), String::from("->"));
    assert_eq!(TokTp::EOF.text(), String::from("EOF"));
    assert_eq!(TokTp::Lam.text(), String::from("\u{03bb}"));
    assert_eq!(TokTp::Var(String::from("abc")).text(), String::from("abc"));
}

#[test]
fn position_advancing() {
    let p = Pos { line: 2, col: 5 };
    assert_eq!(p.advance_by_columns(3), Pos { line: 2, col: 8 });
    assert_eq!(p.advance_by_newline(), Pos { line: 3, col: 0 });
}

#[test]
fn lex_let_and_in_are_plain_identifiers() {
    // `let` and `in` have token kinds reserved for a future surface syntax,
    // but the reserved-word table does not yet map them: they lex as
    // identifiers.
    let toks = lex(String::from("let in")).unwrap();
    assert_eq!(toks[0].tok, TokTp::Var(String::from("let")));
    assert_eq!(toks[1].tok, TokTp::Var(String::from("in")));
}

#[test]
fn lex_unicode_word_counts_characters() {
    let toks = lex(String::from("\u{3b1}\u{3b2} x")).unwrap();
    assert_eq!(toks[0].tok, TokTp::Var(String::from("\u{3b1}\u{3b2}")));
    assert_eq!(toks[1].tok, TokTp::Var(String::from("x")));
    assert_eq!(toks[1].pos, Pos { line: 1, col: 3 });
}
