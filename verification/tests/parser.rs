use fern::ast::{Pos, RawDef, RawKd, RawTm, RawTp, Span};
use fern::lex::lex;
use fern::parse::{parse, parse_type};

#[test]
fn kind_arrow_scenario() {
    // `* -> *` in kind position parses as Arrow{Star, Star}.
    let mut toks = lex(String::from("type I : * -> * = x")).unwrap();
    let ast = parse(&mut toks).unwrap();
    assert_eq!(ast.len(), 1);
    match &ast[0] {
        RawDef::Tp { var, annot, body, .. } => {
            assert_eq!(var, "I");
            match annot.as_deref() {
                Some(RawKd::Arr { dom, cod, .. }) => {
                    assert!(matches!(&**dom, RawKd::Star { .. }));
                    assert!(matches!(&**cod, RawKd::Star { .. }));
                }
                other => panic!("expected a kind arrow annotation, got {:?}", other),
            }
            assert!(matches!(&**body, RawTp::Var { .. }));
        }
        other => panic!("expected a type definition, got {:?}", other),
    }
}

#[test]
fn lambda_term_scenario() {
    // `λx. x` parses as Lambda{binder x, no annotation, body Variable x}.
    let mut toks = lex(String::from("def i = \u{03bb}x. x")).unwrap();
    let ast = parse(&mut toks).unwrap();
    assert_eq!(ast.len(), 1);
    match &ast[0] {
        RawDef::Tm { var, annot, body, .. } => {
            assert_eq!(var, "i");
            assert!(annot.is_none());
            match &**body {
                RawTm::Lam { var, annot, body, .. } => {
                    assert_eq!(var, "x");
                    assert!(annot.is_none());
                    match &**body {
                        RawTm::Var { var, .. } => assert_eq!(var, "x"),
                        other => panic!("expected a variable body, got {:?}", other),
                    }
                }
                other => panic!("expected a lambda, got {:?}", other),
            }
        }
        other => panic!("expected a term definition, got {:?}", other),
    }
}

#[test]
fn annotated_lambda_scenario() {
    // `λx : A. x` parses with annotation Some(Variable A).
    let mut toks = lex(String::from("def i = \u{03bb}x : A. x")).unwrap();
    let ast = parse(&mut toks).unwrap();
    match &ast[0] {
        RawDef::Tm { body, .. } => match &**body {
            RawTm::Lam { var, annot, .. } => {
                assert_eq!(var, "x");
                match annot.as_deref() {
                    Some(RawTp::Var { var, .. }) => assert_eq!(var, "A"),
                    other => panic!("expected a variable annotation, got {:?}", other),
                }
            }
            other => panic!("expected a lambda, got {:?}", other),
        },
        other => panic!("expected a term definition, got {:?}", other),
    }
}

#[test]
fn application_with_parens_scenario() {
    // `f (g x) y` parses as Application{f, [Application{g, [x]}, y]}.
    let mut toks = lex(String::from("def a = f (g x) y")).unwrap();
    let ast = parse(&mut toks).unwrap();
    match &ast[0] {
        RawDef::Tm { body, .. } => match &**body {
            RawTm::App { head, args, .. } => {
                assert!(matches!(&**head, RawTm::Var { var, .. } if var == "f"));
                assert_eq!(args.len(), 2);
                match &*args[0] {
                    RawTm::App { head, args, .. } => {
                        assert!(matches!(&**head, RawTm::Var { var, .. } if var == "g"));
                        assert_eq!(args.len(), 1);
                        assert!(matches!(&*args[0], RawTm::Var { var, .. } if var == "x"));
                    }
                    other => panic!("expected a nested application, got {:?}", other),
                }
                assert!(matches!(&*args[1], RawTm::Var { var, .. } if var == "y"));
            }
            other => panic!("expected an application, got {:?}", other),
        },
        other => panic!("expected a term definition, got {:?}", other),
    }
}

#[test]
fn forall_arrow_scenario() {
    // `forall a. a -> a` parses as ForAll{a, None, Arrow{a, a}}.
    let mut toks = lex(String::from("forall a. a -> a")).unwrap();
    let tp = parse_type(&mut toks).unwrap();
    match &*tp {
        RawTp::All { var, annot, body, .. } => {
            assert_eq!(var, "a");
            assert!(annot.is_none());
            match &**body {
                RawTp::Arr { dom, cod, .. } => {
                    assert!(matches!(&**dom, RawTp::Var { var, .. } if var == "a"));
                    assert!(matches!(&**cod, RawTp::Var { var, .. } if var == "a"));
                }
                other => panic!("expected an arrow body, got {:?}", other),
            }
        }
        other => panic!("expected a forall, got {:?}", other),
    }
}

#[test]
fn one_definition_program_scenario() {
    // `def id = λx. x` parses as one term definition named `id`.
    let mut toks = lex(String::from("def id = \u{03bb}x. x")).unwrap();
    let ast = parse(&mut toks).unwrap();
    assert_eq!(ast.len(), 1);
    match &ast[0] {
        RawDef::Tm { var, annot, body, .. } => {
            assert_eq!(var, "id");
            assert!(annot.is_none());
            assert!(matches!(&**body, RawTm::Lam { .. }));
        }
        other => panic!("expected a term definition, got {:?}", other),
    }
}

#[test]
fn unterminated_paren_scenario() {
    // `(x` fails with a mismatch: expected close-paren, found end-of-file,
    // anchored at the opening paren and pointing at the end of input.
    let mut toks = lex(String::from("(x")).unwrap();
    let err = parse_type(&mut toks).unwrap_err();
    assert_eq!(err.msg, "expected ) here but got EOF");
    assert_eq!(err.lb, Pos { line: 1, col: 0 });
    assert_eq!(err.rb, Pos { line: 1, col: 2 });
}

#[test]
fn bare_variable_is_not_an_application() {
    // Parsing `f` alone yields a bare Variable, never an Application with
    // zero or one implicit arguments.
    let mut toks = lex(String::from("def d = f")).unwrap();
    let ast = parse(&mut toks).unwrap();
    match &ast[0] {
        RawDef::Tm { body, .. } => {
            assert!(matches!(&**body, RawTm::Var { var, .. } if var == "f"));
        }
        other => panic!("expected a term definition, got {:?}", other),
    }
}

#[test]
fn type_arrows_are_right_associative() {
    // `A -> B -> C` parses as Arrow{A, Arrow{B, C}}.
    let mut toks = lex(String::from("A -> B -> C")).unwrap();
    let tp = parse_type(&mut toks).unwrap();
    match &*tp {
        RawTp::Arr { dom, cod, .. } => {
            assert!(matches!(&**dom, RawTp::Var { var, .. } if var == "A"));
            match &**cod {
                RawTp::Arr { dom, cod, .. } => {
                    assert!(matches!(&**dom, RawTp::Var { var, .. } if var == "B"));
                    assert!(matches!(&**cod, RawTp::Var { var, .. } if var == "C"));
                }
                other => panic!("expected a right-nested arrow, got {:?}", other),
            }
        }
        other => panic!("expected an arrow, got {:?}", other),
    }
}

#[test]
fn kind_arrows_are_right_associative() {
    // `* -> * -> *` in kind position parses as Arrow{Star, Arrow{Star, Star}}.
    let mut toks = lex(String::from("type T : * -> * -> * = a")).unwrap();
    let ast = parse(&mut toks).unwrap();
    match &ast[0] {
        RawDef::Tp { annot, .. } => match annot.as_deref() {
            Some(RawKd::Arr { dom, cod, .. }) => {
                assert!(matches!(&**dom, RawKd::Star { .. }));
                match &**cod {
                    RawKd::Arr { dom, cod, .. } => {
                        assert!(matches!(&**dom, RawKd::Star { .. }));
                        assert!(matches!(&**cod, RawKd::Star { .. }));
                    }
                    other => panic!("expected a right-nested kind arrow, got {:?}", other),
                }
            }
            other => panic!("expected a kind arrow annotation, got {:?}", other),
        },
        other => panic!("expected a type definition, got {:?}", other),
    }
}

#[test]
fn application_is_left_associated_and_flat() {
    // `f a b c` parses as one Application{f, [a, b, c]}.
    let mut toks = lex(String::from("def d = f a b c")).unwrap();
    let ast = parse(&mut toks).unwrap();
    match &ast[0] {
        RawDef::Tm { body, .. } => match &**body {
            RawTm::App { head, args, .. } => {
                assert!(matches!(&**head, RawTm::Var { var, .. } if var == "f"));
                assert_eq!(args.len(), 3);
                assert!(matches!(&*args[0], RawTm::Var { var, .. } if var == "a"));
                assert!(matches!(&*args[1], RawTm::Var { var, .. } if var == "b"));
                assert!(matches!(&*args[2], RawTm::Var { var, .. } if var == "c"));
            }
            other => panic!("expected an application, got {:?}", other),
        },
        other => panic!("expected a term definition, got {:?}", other),
    }
}

#[test]
fn parse_leaves_tokens_unchanged() {
    // The parser backtracks by restoring its cursor; the token vector it
    // was handed is untouched, even though parsing speculated and failed
    // on an extra application argument before the end.
    let mut toks = lex(String::from("def d = f a")).unwrap();
    let before = toks.clone();
    parse(&mut toks).unwrap();
    assert_eq!(toks.len(), before.len());
    for (t, b) in toks.iter().zip(before.iter()) {
        assert_eq!(t.tok, b.tok);
        assert_eq!(t.pos, b.pos);
    }
}

#[test]
fn empty_program_parses_to_no_definitions() {
    let mut toks = lex(String::new()).unwrap();
    let ast = parse(&mut toks).unwrap();
    assert!(ast.is_empty());
}

#[test]
fn definition_spans_cover_the_source() {
    let mut toks = lex(String::from("def id = \u{03bb}x. x")).unwrap();
    let ast = parse(&mut toks).unwrap();
    let d = &ast[0];
    assert_eq!(d.left(), Pos { line: 1, col: 0 });
    assert_eq!(d.right(), Pos { line: 1, col: 13 });
    match d {
        RawDef::Tm { body, .. } => {
            assert_eq!(body.left(), Pos { line: 1, col: 9 });
            assert_eq!(body.right(), Pos { line: 1, col: 13 });
        }
        other => panic!("expected a term definition, got {:?}", other),
    }
}

#[test]
fn unexpected_token_when_parsing_a_definition() {
    let mut toks = lex(String::from("x")).unwrap();
    let err = parse(&mut toks).unwrap_err();
    assert_eq!(err.msg, "unexpected token x when parsing a definition");
    assert_eq!(err.lb, Pos { line: 1, col: 0 });
    assert_eq!(err.rb, Pos { line: 1, col: 0 });
}

#[test]
fn expected_identifier_error() {
    let mut toks = lex(String::from("def = y")).unwrap();
    let err = parse(&mut toks).unwrap_err();
    assert_eq!(err.msg, "expected an identifier here");
    assert_eq!(err.lb, Pos { line: 1, col: 4 });
    assert_eq!(err.rb, Pos { line: 1, col: 4 });
}

#[test]
fn unexpected_token_when_parsing_a_kind() {
    let mut toks = lex(String::from("type T : ( = a")).unwrap();
    let err = parse(&mut toks).unwrap_err();
    assert_eq!(err.msg, "unexpected = when parsing a kind");
    assert_eq!(err.lb, Pos { line: 1, col: 11 });
    assert_eq!(err.rb, Pos { line: 1, col: 11 });
}

#[test]
fn unexpected_token_when_parsing_a_term() {
    let mut toks = lex(String::from("def d = .")).unwrap();
    let err = parse(&mut toks).unwrap_err();
    assert_eq!(err.msg, "unexpected token . when parsing a term");
    assert_eq!(err.lb, Pos { line: 1, col: 8 });
    assert_eq!(err.rb, Pos { line: 1, col: 8 });
}

#[test]
fn unexpected_token_when_parsing_a_type() {
    let mut toks = lex(String::from(")")).unwrap();
    let err = parse_type(&mut toks).unwrap_err();
    assert_eq!(err.msg, "unexpected token ) when parsing a type");
    assert_eq!(err.lb, Pos { line: 1, col: 0 });
    assert_eq!(err.rb, Pos { line: 1, col: 0 });
}

#[test]
fn missing_equals_is_a_mismatch() {
    let mut toks = lex(String::from("def d y")).unwrap();
    let err = parse(&mut toks).unwrap_err();
    assert_eq!(err.msg, "expected = here but got y");
    assert_eq!(err.lb, Pos { line: 1, col: 0 });
    assert_eq!(err.rb, Pos { line: 1, col: 6 });
}

#[test]
fn application_swallows_a_following_definition_keyword() {
    // `def` is lexically an identifier, so the greedy application loop of
    // the first body consumes `def b` as arguments and the next definition
    // never starts: the parse fails at the second `=`.
    let mut toks = lex(String::from("def a = x def b = y")).unwrap();
    let err = parse(&mut toks).unwrap_err();
    assert_eq!(err.msg, "unexpected token = when parsing a definition");
    assert_eq!(err.lb, Pos { line: 1, col: 16 });
    assert_eq!(err.rb, Pos { line: 1, col: 16 });
}

#[test]
fn type_level_lambda_with_kind_annotation() {
    let mut toks = lex(String::from("type F = \u{03bb}a : * . a")).unwrap();
    let ast = parse(&mut toks).unwrap();
    match &ast[0] {
        RawDef::Tp { body, .. } => match &**body {
            RawTp::Lam { var, annot, body, .. } => {
                assert_eq!(var, "a");
                assert!(matches!(annot.as_deref(), Some(RawKd::Star { .. })));
                assert!(matches!(&**body, RawTp::Var { var, .. } if var == "a"));
            }
            other => panic!("expected a type-level lambda, got {:?}", other),
        },
        other => panic!("expected a type definition, got {:?}", other),
    }
}

#[test]
fn type_application_is_flat() {
    let mut toks = lex(String::from("F a b")).unwrap();
    let tp = parse_type(&mut toks).unwrap();
    match &*tp {
        RawTp::App { head, args, .. } => {
            assert!(matches!(&**head, RawTp::Var { var, .. } if var == "F"));
            assert_eq!(args.len(), 2);
        }
        other => panic!("expected a type application, got {:?}", other),
    }
}

#[test]
fn keywords_do_not_parse_as_atoms() {
    // `forall` cannot start an application argument: `F forall` stops the
    // argument loop at the keyword, which the end-of-file check then rejects.
    let mut toks = lex(String::from("F forall")).unwrap();
    let err = parse_type(&mut toks).unwrap_err();
    assert_eq!(err.msg, "expected EOF here but got forall");
}
