//! Surface tokens of the language: reserved words and punctuation, string
//! literals, and plain identifiers, together with the total classification
//! of a surface string into a token.

use vstd::prelude::*;

verus! {

use crate::tokenize::{sp_tokenize, LexError};

/// A fronting preposition.
#[derive(Debug, Clone, Copy, Hash, PartialEq, Eq, Structural)]
pub enum Preposition {
    El,
    Lerj,
    Fal,
    Cecioj,
}

/// A reserved word, marker or punctuation token.
#[derive(Debug, Clone, Copy, Hash, PartialEq, Eq, Structural)]
pub enum Reserved {
    Preposition(Preposition),
    ApostropheD,
    ApostropheC,
    ApostropheI,
    ApostropheSt,
    Adit,
    Ad,
    PunctuationComma,
    PunctuationPeriod,
    PunctuationColon,
    Elx,
    Shrlo,
    Melx,
    Felx,
    Mea,
    Mal,
    Es,
    Lus,
    Io,
    HyphenO,
    HyphenIl,
}

/// A token as produced by the lexical stage.
#[derive(Debug, Hash, PartialEq, Eq)]
pub enum Token {
    StringLiteral { literal: String },
    NormalIdent { ident: String },
    Reserved(Reserved),
}

/// The mathematical value of a token: its string payload abstracted to a
/// sequence of characters.
pub enum TokenV {
    StringLiteral { literal: Seq<char> },
    NormalIdent { ident: Seq<char> },
    Reserved(Reserved),
}

impl DeepView for Token {
    type V = TokenV;

    open spec fn deep_view(&self) -> TokenV {
        match self {
            Token::StringLiteral { literal } => TokenV::StringLiteral { literal: literal@ },
            Token::NormalIdent { ident } => TokenV::NormalIdent { ident: ident@ },
            Token::Reserved(r) => TokenV::Reserved(*r),
        }
    }
}

impl Clone for Token {
    /// A clone carries the same characters as the original token.
    fn clone(&self) -> (res: Self)
        ensures
            res.deep_view() == self.deep_view(),
    {
        match self {
            Token::StringLiteral { literal } => Token::StringLiteral { literal: literal.clone() },
            Token::NormalIdent { ident } => Token::NormalIdent { ident: ident.clone() },
            Token::Reserved(r) => Token::Reserved(*r),
        }
    }
}

impl Token {
    /// Whether this token is exactly the given reserved token.
    pub fn is_reserved(&self, res: Reserved) -> (r: bool)
        ensures
            r == (self.deep_view() == TokenV::Reserved(res)),
    {
        match self {
            Token::Reserved(r2) => *r2 == res,
            _ => false,
        }
    }

    /// The identifier this token carries, when it is one.
    pub fn ident_of(&self) -> (r: Option<String>)
        ensures
            match r {
                Some(s) => self.deep_view() == (TokenV::NormalIdent { ident: s@ }),
                None => !(self.deep_view() matches TokenV::NormalIdent { .. }),
            },
    {
        match self {
            Token::NormalIdent { ident } => Some(ident.clone()),
            _ => None,
        }
    }

    /// Whether this token holds the same value as `other`, payload
    /// characters included.
    pub fn deep_eq(&self, other: &Token) -> (r: bool)
        ensures
            r == (self.deep_view() == other.deep_view()),
    {
        match (self, other) {
            (Token::StringLiteral { literal: a }, Token::StringLiteral { literal: b }) => str_eq(
                a.as_str(),
                b.as_str(),
            ),
            (Token::NormalIdent { ident: a }, Token::NormalIdent { ident: b }) => str_eq(
                a.as_str(),
                b.as_str(),
            ),
            (Token::Reserved(a), Token::Reserved(b)) => a == b,
            _ => false,
        }
    }
}

/// The token a surface string classifies as: a reserved word from the fixed
/// keyword table, a string literal when the string is delimited by `<` and
/// `>`, and a plain identifier otherwise. Total: every string maps to some
/// token.
pub open spec fn sp_token_of(w: Seq<char>) -> TokenV {
    if w == "el"@ {
        TokenV::Reserved(Reserved::Preposition(Preposition::El))
    } else if w == "lerj"@ {
        TokenV::Reserved(Reserved::Preposition(Preposition::Lerj))
    } else if w == "fal"@ {
        TokenV::Reserved(Reserved::Preposition(Preposition::Fal))
    } else if w == "cecioj"@ {
        TokenV::Reserved(Reserved::Preposition(Preposition::Cecioj))
    } else if w == "'d"@ {
        TokenV::Reserved(Reserved::ApostropheD)
    } else if w == "'c"@ {
        TokenV::Reserved(Reserved::ApostropheC)
    } else if w == "'i"@ {
        TokenV::Reserved(Reserved::ApostropheI)
    } else if w == "'st"@ {
        TokenV::Reserved(Reserved::ApostropheSt)
    } else if w == "adit"@ {
        TokenV::Reserved(Reserved::Adit)
    } else if w == "ad"@ {
        TokenV::Reserved(Reserved::Ad)
    } else if w == ","@ {
        TokenV::Reserved(Reserved::PunctuationComma)
    } else if w == "."@ {
        TokenV::Reserved(Reserved::PunctuationPeriod)
    } else if w == ":"@ {
        TokenV::Reserved(Reserved::PunctuationColon)
    } else if w == "elx"@ {
        TokenV::Reserved(Reserved::Elx)
    } else if w == "shrlo"@ {
        TokenV::Reserved(Reserved::Shrlo)
    } else if w == "melx"@ {
        TokenV::Reserved(Reserved::Melx)
    } else if w == "felx"@ {
        TokenV::Reserved(Reserved::Felx)
    } else if w == "mea"@ {
        TokenV::Reserved(Reserved::Mea)
    } else if w == "mal"@ {
        TokenV::Reserved(Reserved::Mal)
    } else if w == "es"@ {
        TokenV::Reserved(Reserved::Es)
    } else if w == "lus"@ {
        TokenV::Reserved(Reserved::Lus)
    } else if w == "io"@ {
        TokenV::Reserved(Reserved::Io)
    } else if w == "-o"@ {
        TokenV::Reserved(Reserved::HyphenO)
    } else if w == "-il"@ {
        TokenV::Reserved(Reserved::HyphenIl)
    } else if w.len() > 0 && w[0] == '<' && w[w.len() - 1] == '>' {
        TokenV::StringLiteral { literal: w }
    } else {
        TokenV::NormalIdent { ident: w }
    }
}

/// What tokenizing an input yields at the token level: each surface string
/// of the lexical stage, classified.
pub open spec fn sp_tokens(s: Seq<char>) -> Result<Seq<TokenV>, LexError> {
    match sp_tokenize(s) {
        Ok(ws) => Ok(ws.map_values(|w: Seq<char>| sp_token_of(w))),
        Err(e) => Err(e),
    }
}

/// Whether two strings hold the same characters.
fn str_eq(a: &str, b: &str) -> (r: bool)
    ensures
        r == (a@ == b@),
{
    let n = a.unicode_len();
    if n != b.unicode_len() {
        return false;
    }
    let mut j: usize = 0;
    while j < n
        invariant
            j <= n,
            n == a@.len(),
            n == b@.len(),
            forall|k: int| 0 <= k < j ==> a@[k] == b@[k],
        decreases n - j,
    {
        if a.get_char(j) != b.get_char(j) {
            return false;
        }
        j = j + 1;
    }
    proof {
        assert(a@ =~= b@);
    }
    true
}

impl Token {
    /// Classify one surface string as a token, by exact match against the
    /// keyword table, then by its delimiters, then as an identifier.
    pub fn from(tok: &str) -> (r: Self)
        ensures
            r.deep_view() == sp_token_of(tok@),
    {
        if str_eq(tok, "el") {
            Self::Reserved(Reserved::Preposition(Preposition::El))
        } else if str_eq(tok, "lerj") {
            Self::Reserved(Reserved::Preposition(Preposition::Lerj))
        } else if str_eq(tok, "fal") {
            Self::Reserved(Reserved::Preposition(Preposition::Fal))
        } else if str_eq(tok, "cecioj") {
            Self::Reserved(Reserved::Preposition(Preposition::Cecioj))
        } else if str_eq(tok, "'d") {
            Self::Reserved(Reserved::ApostropheD)
        } else if str_eq(tok, "'c") {
            Self::Reserved(Reserved::ApostropheC)
        } else if str_eq(tok, "'i") {
            Self::Reserved(Reserved::ApostropheI)
        } else if str_eq(tok, "'st") {
            Self::Reserved(Reserved::ApostropheSt)
        } else if str_eq(tok, "adit") {
            Self::Reserved(Reserved::Adit)
        } else if str_eq(tok, "ad") {
            Self::Reserved(Reserved::Ad)
        } else if str_eq(tok, ",") {
            Self::Reserved(Reserved::PunctuationComma)
        } else if str_eq(tok, ".") {
            Self::Reserved(Reserved::PunctuationPeriod)
        } else if str_eq(tok, ":") {
            Self::Reserved(Reserved::PunctuationColon)
        } else if str_eq(tok, "elx") {
            Self::Reserved(Reserved::Elx)
        } else if str_eq(tok, "shrlo") {
            Self::Reserved(Reserved::Shrlo)
        } else if str_eq(tok, "melx") {
            Self::Reserved(Reserved::Melx)
        } else if str_eq(tok, "felx") {
            Self::Reserved(Reserved::Felx)
        } else if str_eq(tok, "mea") {
            Self::Reserved(Reserved::Mea)
        } else if str_eq(tok, "mal") {
            Self::Reserved(Reserved::Mal)
        } else if str_eq(tok, "es") {
            Self::Reserved(Reserved::Es)
        } else if str_eq(tok, "lus") {
            Self::Reserved(Reserved::Lus)
        } else if str_eq(tok, "io") {
            Self::Reserved(Reserved::Io)
        } else if str_eq(tok, "-o") {
            Self::Reserved(Reserved::HyphenO)
        } else if str_eq(tok, "-il") {
            Self::Reserved(Reserved::HyphenIl)
        } else {
            let n = tok.unicode_len();
            if n > 0 && tok.get_char(0) == '<' && tok.get_char(n - 1) == '>' {
                Self::StringLiteral { literal: tok.to_owned() }
            } else {
                Self::NormalIdent { ident: tok.to_owned() }
            }
        }
    }
}

/// Tokenize the input and classify every surface string, or report the
/// first lexical error.
pub fn tokenize(input: &str) -> (r: Result<Vec<Token>, LexError>)
    ensures
        match sp_tokens(input@) {
            Ok(ts) => r matches Ok(v) && v.deep_view() == ts,
            Err(e) => r matches Err(e2) && e2 == e,
        },
{
    let words = match crate::tokenize::tokenize(input) {
        Ok(w) => w,
        Err(e) => {
            return Err(e);
        },
    };
    let ghost ws = words.deep_view();
    let mut tokens: Vec<Token> = Vec::new();
    let mut i: usize = 0;
    while i < words.len()
        invariant
            i <= words.len(),
            ws == words.deep_view(),
            tokens.deep_view() =~= ws.take(i as int).map_values(|w: Seq<char>| sp_token_of(w)),
        decreases words.len() - i,
    {
        let ghost pre = tokens.deep_view();
        tokens.push(Token::from(words[i].as_str()));
        proof {
            assert(tokens.deep_view() =~= pre.push(sp_token_of(ws[i as int])));
            assert(ws.take(i as int + 1).map_values(|w: Seq<char>| sp_token_of(w)) =~= ws.take(
                i as int,
            ).map_values(|w: Seq<char>| sp_token_of(w)).push(sp_token_of(ws[i as int])));
        }
        i = i + 1;
    }
    proof {
        assert(ws.take(words.len() as int) =~= ws);
    }
    Ok(tokens)
}

} // verus!
