use conlang_parser::token::{tokenize, Preposition, Reserved, Token};

#[test]
fn token_parsing_primary_noun() {
    let tokens = tokenize("xakant").unwrap();
    assert_eq!(
        tokens,
        vec![Token::NormalIdent {
            ident: "xakant".to_string()
        }]
    );
}

#[test]
fn keywords_classify_as_reserved() {
    assert_eq!(
        tokenize("el lerj fal cecioj").unwrap(),
        vec![
            Token::Reserved(Reserved::Preposition(Preposition::El)),
            Token::Reserved(Reserved::Preposition(Preposition::Lerj)),
            Token::Reserved(Reserved::Preposition(Preposition::Fal)),
            Token::Reserved(Reserved::Preposition(Preposition::Cecioj)),
        ]
    );
    assert_eq!(
        tokenize("es mal lus io adit ad").unwrap(),
        vec![
            Token::Reserved(Reserved::Es),
            Token::Reserved(Reserved::Mal),
            Token::Reserved(Reserved::Lus),
            Token::Reserved(Reserved::Io),
            Token::Reserved(Reserved::Adit),
            Token::Reserved(Reserved::Ad),
        ]
    );
    assert_eq!(
        tokenize("elx shrlo melx felx mea").unwrap(),
        vec![
            Token::Reserved(Reserved::Elx),
            Token::Reserved(Reserved::Shrlo),
            Token::Reserved(Reserved::Melx),
            Token::Reserved(Reserved::Felx),
            Token::Reserved(Reserved::Mea),
        ]
    );
    assert_eq!(
        tokenize(", . :").unwrap(),
        vec![
            Token::Reserved(Reserved::PunctuationComma),
            Token::Reserved(Reserved::PunctuationPeriod),
            Token::Reserved(Reserved::PunctuationColon),
        ]
    );
}

#[test]
fn markers_classify_as_reserved() {
    assert_eq!(
        tokenize("xakant'd iu'c snelyo'i nert'st sides-il mol-o").unwrap(),
        vec![
            Token::NormalIdent {
                ident: "xakant".to_string()
            },
            Token::Reserved(Reserved::ApostropheD),
            Token::NormalIdent {
                ident: "iu".to_string()
            },
            Token::Reserved(Reserved::ApostropheC),
            Token::NormalIdent {
                ident: "snelyo".to_string()
            },
            Token::Reserved(Reserved::ApostropheI),
            Token::NormalIdent {
                ident: "nert".to_string()
            },
            Token::Reserved(Reserved::ApostropheSt),
            Token::NormalIdent {
                ident: "sides".to_string()
            },
            Token::Reserved(Reserved::HyphenIl),
            Token::NormalIdent {
                ident: "mol".to_string()
            },
            Token::Reserved(Reserved::HyphenO),
        ]
    );
}

#[test]
fn delimited_strings_classify_as_literals() {
    let from = Token::from("<selsurle>");
    assert_eq!(
        from,
        Token::StringLiteral {
            literal: "<selsurle>".to_string()
        }
    );
    // A lone `<` starts a literal but does not end one, so as a bare
    // surface string it is an identifier.
    assert_eq!(
        Token::from("<"),
        Token::NormalIdent {
            ident: "<".to_string()
        }
    );
    assert_eq!(
        Token::from("xakant"),
        Token::NormalIdent {
            ident: "xakant".to_string()
        }
    );
    assert_eq!(Token::from("es"), Token::Reserved(Reserved::Es));
}

#[test]
fn token_deep_eq_follows_payload() {
    let a = Token::from("xakant");
    let b = Token::from("xakant");
    let c = Token::from("jerldir");
    assert!(a.deep_eq(&b));
    assert!(!a.deep_eq(&c));
    assert!(!a.deep_eq(&Token::Reserved(Reserved::Es)));
}
