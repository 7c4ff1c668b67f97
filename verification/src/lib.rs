//! A two-stage front end for a small constructed language: a character-level
//! scanner that segments raw text into words, punctuation and string literals,
//! and a recursive-descent parser that turns the token stream into typed
//! syntax nodes. Every stage is specified by a spec-level function over
//! sequences of characters or tokens, and the executable code is proved to
//! agree with it exactly.

use vstd::prelude::*;

pub mod parser;
pub mod token;
pub mod tokenize;

verus! {

use crate::parser::{
    Case, Cond, CondElem, Module, Noun, NounV, NounsWithCase, PrimaryNoun, PrimaryNounV, Sentence,
    State, Verb, nouns_eq,
};
use crate::token::Preposition;

/// A noun with no modifiers whose head is the given identifier.
pub fn noun_from_ident(ident: &str) -> (r: Noun)
    ensures
        r.deep_view() == (NounV { modifier: Seq::<PrimaryNounV>::empty(), head: PrimaryNounV::Ident { ident: ident@ } }),
{
    let r = Noun { modifier: Vec::new(), head: PrimaryNoun::Ident { ident: ident.to_owned() } };
    proof {
        assert(r.deep_view().modifier =~= Seq::<PrimaryNounV>::empty());
    }
    r
}

/// The primary noun that is the given identifier.
pub fn primary_noun_from_ident(ident: &str) -> (r: PrimaryNoun)
    ensures
        r.deep_view() == (PrimaryNounV::Ident { ident: ident@ }),
{
    PrimaryNoun::Ident { ident: ident.to_owned() }
}

/// Tokenize one identifier and parse it as a primary noun: the cursor is
/// fully consumed and the parse yields that identifier.
pub fn test_primary_noun() -> (ok: bool) {
    let tokens = match crate::token::tokenize("xakant") {
        Ok(t) => t,
        Err(_) => {
            return false;
        },
    };
    let mut parser_state = State::new(tokens);
    let noun = match parser_state.parse_primary_noun() {
        Ok(n) => n,
        Err(_) => {
            return false;
        },
    };
    if !parser_state.is_empty() {
        return false;
    }
    noun.deep_eq(&primary_noun_from_ident("xakant"))
}

/// Tokenize and parse a modified noun: the primary noun before `'d` becomes
/// the modifier and the final one the head.
pub fn test_noun() -> (ok: bool) {
    let tokens = match crate::token::tokenize("jerldir'd xakant") {
        Ok(t) => t,
        Err(_) => {
            return false;
        },
    };
    let mut parser_state = State::new(tokens);
    let noun = match parser_state.parse_noun() {
        Ok(n) => n,
        Err(_) => {
            return false;
        },
    };
    if !parser_state.is_empty() {
        return false;
    }
    let expected = Noun {
        modifier: vec![primary_noun_from_ident("jerldir")],
        head: primary_noun_from_ident("xakant"),
    };
    noun.deep_eq(&expected)
}

/// Tokenize and parse a three-noun `adit` list.
pub fn test_noun_list() -> (ok: bool) {
    let tokens = match crate::token::tokenize("jerldir'd xakant adit kernumesaxm, deln") {
        Ok(t) => t,
        Err(_) => {
            return false;
        },
    };
    let mut parser_state = State::new(tokens);
    let noun = match parser_state.parse_noun_list() {
        Ok(n) => n,
        Err(_) => {
            return false;
        },
    };
    if !parser_state.is_empty() {
        return false;
    }
    let expected: Vec<Noun> = vec![
        Noun {
            modifier: vec![primary_noun_from_ident("jerldir")],
            head: primary_noun_from_ident("xakant"),
        },
        noun_from_ident("kernumesaxm"),
        noun_from_ident("deln"),
    ];
    nouns_eq(&noun, &expected)
}

/// Tokenize and parse a preposition-fronted two-noun phrase.
pub fn test_nouns_with_case() -> (ok: bool) {
    let tokens = match crate::token::tokenize("lerj 10 ad 10") {
        Ok(t) => t,
        Err(_) => {
            return false;
        },
    };
    let mut parser_state = State::new(tokens);
    let noun = match parser_state.parse_nouns_with_case() {
        Ok(n) => n,
        Err(_) => {
            return false;
        },
    };
    if !parser_state.is_empty() {
        return false;
    }
    let expected = NounsWithCase {
        case: Case::Preposition(Preposition::Lerj),
        nouns: vec![noun_from_ident("10"), noun_from_ident("10")],
    };
    noun.deep_eq(&expected)
}

/// Tokenize and parse a variable declaration.
pub fn test_var_decl() -> (ok: bool) {
    let tokens = match crate::token::tokenize("selsurle es iu.") {
        Ok(t) => t,
        Err(_) => {
            return false;
        },
    };
    let mut parser_state = State::new(tokens);
    let sentence = match parser_state.parse_var_decl() {
        Ok(s) => s,
        Err(_) => {
            return false;
        },
    };
    let expected = Sentence::VarDecl(noun_from_ident("selsurle"), noun_from_ident("iu"));
    sentence.deep_eq(&expected)
}

/// Tokenize and parse a three-conjunct condition joined by `mal`. The
/// recorded input ends right after its last verb, where the grammar demands
/// either a closing token or a case-marked noun phrase, so the parse stops
/// at the end of the tokens and the demonstration yields false.
pub fn test_cond() -> (ok: bool) {
    let tokens = match crate::token::tokenize(
        "selsurle mol mal kernumesaxm'd pestavilersnelyo es_tydivexy mal kernumesaxm'd snelyo es_tydivexy",
    ) {
        Ok(t) => t,
        Err(_) => {
            return false;
        },
    };
    let mut parser_state = State::new(tokens);
    let cond = match parser_state.parse_cond() {
        Ok(c) => c,
        Err(_) => {
            return false;
        },
    };
    let expected = Cond(
        vec![
            CondElem {
                noun: noun_from_ident("selsurle"),
                verb: Verb("mol".to_owned()),
                nouns_with_case: None,
            },
            CondElem {
                noun: Noun {
                    modifier: vec![primary_noun_from_ident("kernumesaxm")],
                    head: primary_noun_from_ident("pestavilersnelyo"),
                },
                verb: Verb("es_tydivexy".to_owned()),
                nouns_with_case: None,
            },
            CondElem {
                noun: Noun {
                    modifier: vec![primary_noun_from_ident("kernumesaxm")],
                    head: primary_noun_from_ident("snelyo"),
                },
                verb: Verb("es_tydivexy".to_owned()),
                nouns_with_case: None,
            },
        ],
    );
    cond.deep_eq(&expected)
}

/// Tokenize and parse an import with a comma-separated identifier list.
pub fn test_import() -> (ok: bool) {
    let tokens = match crate::token::tokenize("lus jmk4'd jerldir adit kernumesaxm, deln.") {
        Ok(t) => t,
        Err(_) => {
            return false;
        },
    };
    let mut parser_state = State::new(tokens);
    let import = match parser_state.parse_import() {
        Ok(i) => i,
        Err(_) => {
            return false;
        },
    };
    let expected = crate::parser::Import {
        modules: vec![Module("jmk4".to_owned())],
        idents: vec!["jerldir".to_owned(), "kernumesaxm".to_owned(), "deln".to_owned()],
    };
    import.deep_eq(&expected)
}

/// Tokenize and parse a predicate declaration whose condition has two
/// conjuncts, each with a `cecioj`-prepositioned two-noun phrase.
pub fn test_predicate_decl() -> (ok: bool) {
    let tokens = match crate::token::tokenize(
        "nert ad ektir'st es_tydivexy-o : ektir mol cecioj 4 ad 204 mal nert mol cecioj 24 ad 154.",
    ) {
        Ok(t) => t,
        Err(_) => {
            return false;
        },
    };
    let mut parser_state = State::new(tokens);
    let predicate = match parser_state.parse_predicate_decl() {
        Ok(p) => p,
        Err(_) => {
            return false;
        },
    };
    let expected = Sentence::PredicateDecl {
        noun_list: vec![noun_from_ident("nert"), noun_from_ident("ektir")],
        verb: Verb("es_tydivexy".to_owned()),
        cond: Cond(
            vec![
                CondElem {
                    noun: noun_from_ident("ektir"),
                    verb: Verb("mol".to_owned()),
                    nouns_with_case: Some(
                        NounsWithCase {
                            nouns: vec![noun_from_ident("4"), noun_from_ident("204")],
                            case: Case::Preposition(Preposition::Cecioj),
                        },
                    ),
                },
                CondElem {
                    noun: noun_from_ident("nert"),
                    verb: Verb("mol".to_owned()),
                    nouns_with_case: Some(
                        NounsWithCase {
                            nouns: vec![noun_from_ident("24"), noun_from_ident("154")],
                            case: Case::Preposition(Preposition::Cecioj),
                        },
                    ),
                },
            ],
        ),
    };
    predicate.deep_eq(&expected)
}

} // verus!
