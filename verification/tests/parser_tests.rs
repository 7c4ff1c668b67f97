use conlang_parser::parser::{
    Case, EventCond, Expected, Noun, ParseError, PrimaryNoun, Sentence, State, Verb,
};
use conlang_parser::token::{tokenize, Reserved, Token};
use conlang_parser::{
    noun_from_ident, primary_noun_from_ident, test_cond, test_import, test_noun, test_noun_list,
    test_nouns_with_case, test_predicate_decl, test_primary_noun, test_var_decl,
};

#[test]
fn lib_parsing_primary_noun() {
    assert!(test_primary_noun());
}

#[test]
fn parsing_noun() {
    assert!(test_noun());
}

#[test]
fn parsing_noun_list() {
    assert!(test_noun_list());
}

#[test]
fn parsing_nouns_with_case() {
    assert!(test_nouns_with_case());
}

#[test]
fn parsing_var_decl() {
    assert!(test_var_decl());
}

#[test]
fn parsing_import() {
    assert!(test_import());
}

#[test]
fn parsing_cond() {
    // The recorded demonstration input for a condition stops right after its
    // last verb. The grammar omits the trailing case-marked phrase only
    // before `felx`, `mal` or the period, so a condition that simply ends
    // there is incomplete: the parse reports `EndOfFile` rather than
    // succeeding, and the demonstration comes back false.
    assert!(!test_cond());
    let mut state = State::new(
        tokenize(
            "selsurle mol mal kernumesaxm'd pestavilersnelyo es_tydivexy mal kernumesaxm'd snelyo es_tydivexy",
        )
        .unwrap(),
    );
    assert_eq!(state.parse_cond(), Err(ParseError::EndOfFile));
    // With the period closing the last conjunct the same condition parses.
    let mut state = State::new(
        tokenize(
            "selsurle mol mal kernumesaxm'd pestavilersnelyo es_tydivexy mal kernumesaxm'd snelyo es_tydivexy.",
        )
        .unwrap(),
    );
    let cond = state.parse_cond().unwrap();
    assert_eq!(cond.0.len(), 3);
    assert_eq!(cond.0[0].noun, noun_from_ident("selsurle"));
    assert_eq!(cond.0[0].verb, Verb("mol".to_string()));
    assert_eq!(cond.0[0].nouns_with_case, None);
    assert_eq!(
        cond.0[2].noun,
        Noun {
            modifier: vec![primary_noun_from_ident("kernumesaxm")],
            head: primary_noun_from_ident("snelyo"),
        }
    );
    assert_eq!(cond.0[2].verb, Verb("es_tydivexy".to_string()));
    assert_eq!(cond.0[2].nouns_with_case, None);
}

#[test]
fn parsing_predicate_decl() {
    assert!(test_predicate_decl());
}

#[test]
fn noun_list_forms() {
    // One noun, two nouns joined by `ad`, three joined by `adit` and a
    // comma: the three forms of the noun-list production.
    let mut state = State::new(tokenize("nert").unwrap());
    assert_eq!(
        state.parse_noun_list().unwrap(),
        vec![noun_from_ident("nert")]
    );
    assert!(state.is_empty());

    let mut state = State::new(tokenize("nert ad ektir").unwrap());
    assert_eq!(
        state.parse_noun_list().unwrap(),
        vec![noun_from_ident("nert"), noun_from_ident("ektir")]
    );
    assert!(state.is_empty());

    let mut state = State::new(tokenize("nert adit ektir, deln").unwrap());
    assert_eq!(
        state.parse_noun_list().unwrap(),
        vec![
            noun_from_ident("nert"),
            noun_from_ident("ektir"),
            noun_from_ident("deln")
        ]
    );
    assert!(state.is_empty());
}

#[test]
fn noun_list_adit_requires_comma() {
    let mut state = State::new(tokenize("nert adit ektir deln").unwrap());
    assert_eq!(
        state.parse_noun_list(),
        Err(ParseError::UnexpectedToken {
            expected: Expected::Comma,
            actual: Token::NormalIdent {
                ident: "deln".to_string()
            },
        })
    );
}

#[test]
fn noun_modifiers_precede_head() {
    let mut state = State::new(tokenize("jerldir'd kernumesaxm'd xakant").unwrap());
    let noun = state.parse_noun().unwrap();
    assert!(state.is_empty());
    assert_eq!(
        noun,
        Noun {
            modifier: vec![
                primary_noun_from_ident("jerldir"),
                primary_noun_from_ident("kernumesaxm")
            ],
            head: primary_noun_from_ident("xakant"),
        }
    );
}

#[test]
fn string_literal_as_primary_noun() {
    let mut state = State::new(tokenize("<selsurle>").unwrap());
    assert_eq!(
        state.parse_primary_noun().unwrap(),
        PrimaryNoun::StringLiteral {
            literal: "<selsurle>".to_string()
        }
    );
    assert!(state.is_empty());
}

#[test]
fn primary_noun_rejects_reserved() {
    let mut state = State::new(tokenize("es").unwrap());
    assert_eq!(
        state.parse_primary_noun(),
        Err(ParseError::UnexpectedToken {
            expected: Expected::IdentOrStringLiteral,
            actual: Token::Reserved(Reserved::Es),
        })
    );
}

#[test]
fn trailing_case_marker() {
    let mut state = State::new(tokenize("selsurle'd iu'c").unwrap());
    let nwc = state.parse_nouns_with_case().unwrap();
    assert!(state.is_empty());
    assert_eq!(nwc.case, Case::ApostropheC);
    assert_eq!(
        nwc.nouns,
        vec![Noun {
            modifier: vec![primary_noun_from_ident("selsurle")],
            head: primary_noun_from_ident("iu"),
        }]
    );
}

#[test]
fn missing_case_marker_is_reported() {
    let mut state = State::new(tokenize("selsurle'd iu es").unwrap());
    assert_eq!(
        state.parse_nouns_with_case(),
        Err(ParseError::UnexpectedToken {
            expected: Expected::Reserved(Reserved::ApostropheC),
            actual: Token::Reserved(Reserved::Es),
        })
    );
}

#[test]
fn event_cond_parses() {
    let mut state = State::new(tokenize("jerldir'st mol-il io").unwrap());
    let event = state.parse_event_cond().unwrap();
    assert!(state.is_empty());
    assert_eq!(
        event,
        EventCond {
            noun: noun_from_ident("jerldir"),
            verb: Verb("mol".to_string()),
        }
    );
}

#[test]
fn verb_and_module_take_bare_identifiers() {
    let mut state = State::new(tokenize("mol").unwrap());
    assert_eq!(state.parse_verb(), Ok(Verb("mol".to_string())));
    assert!(state.is_empty());

    let mut state = State::new(tokenize("jmk4").unwrap());
    let module = state.parse_module().unwrap();
    assert_eq!(module.0, "jmk4");
    assert!(state.is_empty());

    // Anything but an identifier is rejected in both positions.
    let mut state = State::new(tokenize("es").unwrap());
    assert_eq!(
        state.parse_verb(),
        Err(ParseError::UnexpectedToken {
            expected: Expected::Ident,
            actual: Token::Reserved(Reserved::Es),
        })
    );
    let mut state = State::new(tokenize("<selsurle>").unwrap());
    assert_eq!(
        state.parse_module(),
        Err(ParseError::UnexpectedToken {
            expected: Expected::Ident,
            actual: Token::StringLiteral {
                literal: "<selsurle>".to_string()
            },
        })
    );
}

#[test]
fn var_decl_requires_es() {
    let mut state = State::new(tokenize("selsurle mal iu.").unwrap());
    assert_eq!(
        state.parse_var_decl(),
        Err(ParseError::UnexpectedToken {
            expected: Expected::Reserved(Reserved::Es),
            actual: Token::Reserved(Reserved::Mal),
        })
    );
}

#[test]
fn import_single_ident_leaves_period() {
    let mut state = State::new(tokenize("lus jmk4'd jerldir.").unwrap());
    let import = state.parse_import().unwrap();
    assert_eq!(import.modules.len(), 1);
    assert_eq!(import.modules[0].0, "jmk4");
    assert_eq!(import.idents, vec!["jerldir".to_string()]);
    // The import's own tail consumes the identifier but not the period.
    assert!(!state.is_empty());
    assert_eq!(state.next(), Ok(Token::Reserved(Reserved::PunctuationPeriod)));
}

#[test]
fn import_long_module_path() {
    let mut state = State::new(tokenize("lus jmk4'd snelyo'd jerldir.").unwrap());
    let import = state.parse_import().unwrap();
    assert_eq!(import.modules.len(), 2);
    assert_eq!(import.modules[0].0, "jmk4");
    assert_eq!(import.modules[1].0, "snelyo");
    assert_eq!(import.idents, vec!["jerldir".to_string()]);
}

#[test]
fn import_ad_form_requires_exact_remainder() {
    // `ident "ad" ident` is recognized only as the exact remainder of the
    // tokens; with a trailing period the lookahead rejects the `ad`.
    let mut state = State::new(tokenize("lus jmk4'd jerldir ad deln").unwrap());
    let import = state.parse_import().unwrap();
    assert_eq!(
        import.idents,
        vec!["jerldir".to_string(), "deln".to_string()]
    );
    assert!(state.is_empty());

    let mut state = State::new(tokenize("lus jmk4'd jerldir ad deln.").unwrap());
    assert_eq!(
        state.parse_import(),
        Err(ParseError::UnexpectedToken {
            expected: Expected::ImportContinuation,
            actual: Token::Reserved(Reserved::Ad),
        })
    );
}

#[test]
fn cond_elem_case_phrase_is_optional_only_before_closers() {
    let tokens = tokenize("selsurle mol mal").unwrap();
    let mut state = State::new(tokens);
    let elem = state.parse_cond_elem().unwrap();
    assert_eq!(elem.noun, noun_from_ident("selsurle"));
    assert_eq!(elem.verb, Verb("mol".to_string()));
    assert_eq!(elem.nouns_with_case, None);

    let tokens = tokenize("selsurle mol iu'c").unwrap();
    let mut state = State::new(tokens);
    let elem = state.parse_cond_elem().unwrap();
    assert!(elem.nouns_with_case.is_some());
}

#[test]
fn empty_input_fails_with_end_of_file() {
    // Every production on an empty token sequence reports `EndOfFile` and
    // never panics.
    assert_eq!(State::new(vec![]).next(), Err(ParseError::EndOfFile));
    assert_eq!(State::new(vec![]).peek(), None);
    assert_eq!(
        State::new(vec![]).parse_primary_noun(),
        Err(ParseError::EndOfFile)
    );
    assert_eq!(State::new(vec![]).parse_noun(), Err(ParseError::EndOfFile));
    assert_eq!(
        State::new(vec![]).parse_noun_list(),
        Err(ParseError::EndOfFile)
    );
    assert_eq!(
        State::new(vec![]).parse_nouns_with_case(),
        Err(ParseError::EndOfFile)
    );
    assert_eq!(State::new(vec![]).parse_verb(), Err(ParseError::EndOfFile));
    assert_eq!(
        State::new(vec![]).consume_or_die(Reserved::Es),
        Err(ParseError::EndOfFile)
    );
    assert_eq!(
        State::new(vec![]).parse_var_decl(),
        Err(ParseError::EndOfFile)
    );
    assert_eq!(
        State::new(vec![]).parse_event_cond(),
        Err(ParseError::EndOfFile)
    );
    assert_eq!(
        State::new(vec![]).parse_cond_elem(),
        Err(ParseError::EndOfFile)
    );
    assert_eq!(State::new(vec![]).parse_cond(), Err(ParseError::EndOfFile));
    assert_eq!(
        State::new(vec![]).parse_predicate_decl(),
        Err(ParseError::EndOfFile)
    );
    assert_eq!(
        State::new(vec![]).parse_module(),
        Err(ParseError::EndOfFile)
    );
    assert_eq!(
        State::new(vec![]).parse_import(),
        Err(ParseError::EndOfFile)
    );
}

#[test]
fn var_decl_values_round_through_tokens() {
    let tokens = tokenize("selsurle es iu.").unwrap();
    let mut state = State::new(tokens);
    let sentence = state.parse_var_decl().unwrap();
    assert_eq!(
        sentence,
        Sentence::VarDecl(noun_from_ident("selsurle"), noun_from_ident("iu"))
    );
    // The period is not part of the declaration.
    assert_eq!(
        state.next(),
        Ok(Token::Reserved(Reserved::PunctuationPeriod))
    );
}
