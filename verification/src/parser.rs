//! The syntax tree and the recursive-descent parser over a token cursor.

use vstd::prelude::*;

verus! {

use crate::token::{Preposition, Reserved, Token, TokenV};

/// The atomic noun form: an identifier or a string literal.
#[derive(Debug, Clone, PartialEq, Eq, Hash)]
pub enum PrimaryNoun {
    StringLiteral { literal: String },
    Ident { ident: String },
}

/// The mathematical value of a primary noun.
pub enum PrimaryNounV {
    StringLiteral { literal: Seq<char> },
    Ident { ident: Seq<char> },
}

impl DeepView for PrimaryNoun {
    type V = PrimaryNounV;

    open spec fn deep_view(&self) -> PrimaryNounV {
        match self {
            PrimaryNoun::StringLiteral { literal } => PrimaryNounV::StringLiteral { literal: literal@ },
            PrimaryNoun::Ident { ident } => PrimaryNounV::Ident { ident: ident@ },
        }
    }
}

/// A noun: zero or more modifier primary nouns followed by one head.
#[derive(Debug, Clone, PartialEq, Eq, Hash)]
pub struct Noun {
    pub modifier: Vec<PrimaryNoun>,
    pub head: PrimaryNoun,
}

/// The mathematical value of a noun.
#[verifier::ext_equal]
pub struct NounV {
    pub modifier: Seq<PrimaryNounV>,
    pub head: PrimaryNounV,
}

impl DeepView for Noun {
    type V = NounV;

    open spec fn deep_view(&self) -> NounV {
        NounV { modifier: self.modifier.deep_view(), head: self.head.deep_view() }
    }
}

/// A verb: a bare identifier in predicate position.
#[derive(Debug, Clone, PartialEq, Eq, Hash)]
pub struct Verb(pub String);

impl DeepView for Verb {
    type V = Seq<char>;

    open spec fn deep_view(&self) -> Seq<char> {
        self.0@
    }
}

/// One segment of a module path.
#[derive(Debug, Clone, PartialEq, Eq, Hash)]
pub struct Module(pub String);

impl DeepView for Module {
    type V = Seq<char>;

    open spec fn deep_view(&self) -> Seq<char> {
        self.0@
    }
}

/// The grammatical role of a noun phrase: a fronting preposition or the
/// trailing marker.
#[derive(Debug, Clone, Copy, PartialEq, Eq, Hash, Structural)]
pub enum Case {
    Preposition(Preposition),
    ApostropheC,
}

impl DeepView for Case {
    type V = Case;

    open spec fn deep_view(&self) -> Case {
        *self
    }
}

/// A list of nouns together with their case.
#[derive(Debug, Clone, PartialEq, Eq, Hash)]
pub struct NounsWithCase {
    pub nouns: Vec<Noun>,
    pub case: Case,
}

/// The mathematical value of a case-marked noun list.
#[verifier::ext_equal]
pub struct NounsWithCaseV {
    pub nouns: Seq<NounV>,
    pub case: Case,
}

impl DeepView for NounsWithCase {
    type V = NounsWithCaseV;

    open spec fn deep_view(&self) -> NounsWithCaseV {
        NounsWithCaseV { nouns: self.nouns.deep_view(), case: self.case }
    }
}

/// One conjunct of a condition: a noun, a verb, and an optional case-marked
/// noun phrase.
#[derive(Debug, Clone, PartialEq, Eq, Hash)]
pub struct CondElem {
    pub noun: Noun,
    pub verb: Verb,
    pub nouns_with_case: Option<NounsWithCase>,
}

/// The mathematical value of a condition conjunct.
#[verifier::ext_equal]
pub struct CondElemV {
    pub noun: NounV,
    pub verb: Seq<char>,
    pub nouns_with_case: Option<NounsWithCaseV>,
}

impl DeepView for CondElem {
    type V = CondElemV;

    open spec fn deep_view(&self) -> CondElemV {
        CondElemV {
            noun: self.noun.deep_view(),
            verb: self.verb.deep_view(),
            nouns_with_case: self.nouns_with_case.deep_view(),
        }
    }
}

/// A condition: a non-empty conjunction of condition elements.
#[derive(Debug, Clone, PartialEq, Eq, Hash)]
pub struct Cond(pub Vec<CondElem>);

impl DeepView for Cond {
    type V = Seq<CondElemV>;

    open spec fn deep_view(&self) -> Seq<CondElemV> {
        self.0.deep_view()
    }
}

/// A top-level sentence: a variable declaration or a predicate declaration.
#[derive(Debug, Clone, PartialEq, Eq, Hash)]
pub enum Sentence {
    VarDecl(Noun, Noun),
    PredicateDecl { noun_list: Vec<Noun>, verb: Verb, cond: Cond },
}

/// The mathematical value of a sentence.
pub enum SentenceV {
    VarDecl(NounV, NounV),
    PredicateDecl { noun_list: Seq<NounV>, verb: Seq<char>, cond: Seq<CondElemV> },
}

impl DeepView for Sentence {
    type V = SentenceV;

    open spec fn deep_view(&self) -> SentenceV {
        match self {
            Sentence::VarDecl(a, b) => SentenceV::VarDecl(a.deep_view(), b.deep_view()),
            Sentence::PredicateDecl { noun_list, verb, cond } => SentenceV::PredicateDecl {
                noun_list: noun_list.deep_view(),
                verb: verb.deep_view(),
                cond: cond.deep_view(),
            },
        }
    }
}

/// An event condition: a noun and a verb under the event markers.
#[derive(Debug, Clone, PartialEq, Eq, Hash)]
pub struct EventCond {
    pub noun: Noun,
    pub verb: Verb,
}

/// The mathematical value of an event condition.
#[verifier::ext_equal]
pub struct EventCondV {
    pub noun: NounV,
    pub verb: Seq<char>,
}

impl DeepView for EventCond {
    type V = EventCondV;

    open spec fn deep_view(&self) -> EventCondV {
        EventCondV { noun: self.noun.deep_view(), verb: self.verb.deep_view() }
    }
}

/// An import: a non-empty module path and the identifiers brought in.
#[derive(Debug, Clone, PartialEq, Eq, Hash)]
pub struct Import {
    pub modules: Vec<Module>,
    pub idents: Vec<String>,
}

/// The mathematical value of an import.
#[verifier::ext_equal]
pub struct ImportV {
    pub modules: Seq<Seq<char>>,
    pub idents: Seq<Seq<char>>,
}

impl DeepView for Import {
    type V = ImportV;

    open spec fn deep_view(&self) -> ImportV {
        ImportV { modules: self.modules.deep_view(), idents: self.idents.deep_view() }
    }
}

/// What shape of token a failed production was looking for.
#[derive(Debug, Clone, Copy, PartialEq, Eq, Hash, Structural)]
pub enum Expected {
    /// An identifier or a string literal, where a primary noun begins.
    IdentOrStringLiteral,
    /// A bare identifier, in verb or module position.
    Ident,
    /// The comma of a comma-separated noun list.
    Comma,
    /// One concrete reserved token.
    Reserved(Reserved),
    /// A module-path continuation, the end of an import, or an identifier
    /// list: `'d`, `.`, `ad` or `adit`.
    ImportContinuation,
}

/// A parse failure: the tokens ran out, or a token of the wrong shape was
/// found.
#[derive(Debug, Clone, PartialEq, Eq, Hash)]
pub enum ParseError {
    EndOfFile,
    UnexpectedToken { expected: Expected, actual: Token },
}

/// The mathematical value of a parse failure.
pub enum ParseErrorV {
    EndOfFile,
    UnexpectedToken { expected: Expected, actual: TokenV },
}

impl DeepView for ParseError {
    type V = ParseErrorV;

    open spec fn deep_view(&self) -> ParseErrorV {
        match self {
            ParseError::EndOfFile => ParseErrorV::EndOfFile,
            ParseError::UnexpectedToken { expected, actual } => ParseErrorV::UnexpectedToken {
                expected: *expected,
                actual: actual.deep_view(),
            },
        }
    }
}

impl PrimaryNoun {
    /// Whether this primary noun holds the same value as `other`, payload
    /// characters included.
    pub fn deep_eq(&self, other: &PrimaryNoun) -> (r: bool)
        ensures
            r == (self.deep_view() == other.deep_view()),
    {
        match (self, other) {
            (
                PrimaryNoun::StringLiteral { literal: a },
                PrimaryNoun::StringLiteral { literal: b },
            ) => *a == *b,
            (PrimaryNoun::Ident { ident: a }, PrimaryNoun::Ident { ident: b }) => *a == *b,
            _ => false,
        }
    }
}

/// Whether two vectors of primary nouns hold the same values.
fn primary_nouns_eq(a: &Vec<PrimaryNoun>, b: &Vec<PrimaryNoun>) -> (r: bool)
    ensures
        r == (a.deep_view() == b.deep_view()),
{
    if a.len() != b.len() {
        proof {
            assert(a.deep_view().len() == a@.len());
            assert(b.deep_view().len() == b@.len());
        }
        return false;
    }
    let mut i: usize = 0;
    while i < a.len()
        invariant
            i <= a.len(),
            a.len() == b.len(),
            forall|k: int| 0 <= k < i ==> a.deep_view()[k] == b.deep_view()[k],
        decreases a.len() - i,
    {
        if !a[i].deep_eq(&b[i]) {
            proof {
                assert(a.deep_view()[i as int] == a@[i as int].deep_view());
                assert(b.deep_view()[i as int] == b@[i as int].deep_view());
            }
            return false;
        }
        i = i + 1;
    }
    proof {
        assert(a.deep_view() =~= b.deep_view());
    }
    true
}

impl Noun {
    /// Whether this noun holds the same value as `other`, payload characters
    /// included.
    pub fn deep_eq(&self, other: &Noun) -> (r: bool)
        ensures
            r == (self.deep_view() == other.deep_view()),
    {
        let r = primary_nouns_eq(&self.modifier, &other.modifier) && self.head.deep_eq(
            &other.head,
        );
        proof {
            if self.deep_view().modifier == other.deep_view().modifier && self.deep_view().head
                == other.deep_view().head {
                assert(self.deep_view() =~= other.deep_view());
            }
        }
        r
    }
}

/// Whether two vectors of nouns hold the same values.
pub fn nouns_eq(a: &Vec<Noun>, b: &Vec<Noun>) -> (r: bool)
    ensures
        r == (a.deep_view() == b.deep_view()),
{
    if a.len() != b.len() {
        proof {
            assert(a.deep_view().len() == a@.len());
            assert(b.deep_view().len() == b@.len());
        }
        return false;
    }
    let mut i: usize = 0;
    while i < a.len()
        invariant
            i <= a.len(),
            a.len() == b.len(),
            forall|k: int| 0 <= k < i ==> a.deep_view()[k] == b.deep_view()[k],
        decreases a.len() - i,
    {
        if !a[i].deep_eq(&b[i]) {
            proof {
                assert(a.deep_view()[i as int] == a@[i as int].deep_view());
                assert(b.deep_view()[i as int] == b@[i as int].deep_view());
            }
            return false;
        }
        i = i + 1;
    }
    proof {
        assert(a.deep_view() =~= b.deep_view());
    }
    true
}

impl NounsWithCase {
    /// Whether this case-marked noun list holds the same value as `other`.
    pub fn deep_eq(&self, other: &NounsWithCase) -> (r: bool)
        ensures
            r == (self.deep_view() == other.deep_view()),
    {
        let r = nouns_eq(&self.nouns, &other.nouns) && self.case == other.case;
        proof {
            if self.deep_view().nouns == other.deep_view().nouns && self.case == other.case {
                assert(self.deep_view() =~= other.deep_view());
            }
        }
        r
    }
}

impl CondElem {
    /// Whether this condition conjunct holds the same value as `other`.
    pub fn deep_eq(&self, other: &CondElem) -> (r: bool)
        ensures
            r == (self.deep_view() == other.deep_view()),
    {
        let nwc_eq = match (&self.nouns_with_case, &other.nouns_with_case) {
            (None, None) => true,
            (Some(a), Some(b)) => a.deep_eq(b),
            _ => false,
        };
        let r = self.noun.deep_eq(&other.noun) && self.verb.0 == other.verb.0 && nwc_eq;
        proof {
            if self.deep_view().noun == other.deep_view().noun && self.deep_view().verb
                == other.deep_view().verb && self.deep_view().nouns_with_case
                == other.deep_view().nouns_with_case {
                assert(self.deep_view() =~= other.deep_view());
            }
        }
        r
    }
}

impl Cond {
    /// Whether this condition holds the same value as `other`.
    pub fn deep_eq(&self, other: &Cond) -> (r: bool)
        ensures
            r == (self.deep_view() == other.deep_view()),
    {
        if self.0.len() != other.0.len() {
            proof {
                assert(self.deep_view().len() == self.0@.len());
                assert(other.deep_view().len() == other.0@.len());
            }
            return false;
        }
        let mut i: usize = 0;
        while i < self.0.len()
            invariant
                i <= self.0.len(),
                self.0.len() == other.0.len(),
                forall|k: int| 0 <= k < i ==> self.deep_view()[k] == other.deep_view()[k],
            decreases self.0.len() - i,
        {
            if !self.0[i].deep_eq(&other.0[i]) {
                proof {
                    assert(self.deep_view()[i as int] == self.0@[i as int].deep_view());
                    assert(other.deep_view()[i as int] == other.0@[i as int].deep_view());
                }
                return false;
            }
            i = i + 1;
        }
        proof {
            assert(self.deep_view() =~= other.deep_view());
        }
        true
    }
}

impl Sentence {
    /// Whether this sentence holds the same value as `other`.
    pub fn deep_eq(&self, other: &Sentence) -> (r: bool)
        ensures
            r == (self.deep_view() == other.deep_view()),
    {
        match (self, other) {
            (Sentence::VarDecl(a1, a2), Sentence::VarDecl(b1, b2)) => a1.deep_eq(b1) && a2.deep_eq(
                b2,
            ),
            (
                Sentence::PredicateDecl { noun_list: an, verb: av, cond: ac },
                Sentence::PredicateDecl { noun_list: bn, verb: bv, cond: bc },
            ) => {
                let r = nouns_eq(an, bn) && av.0 == bv.0 && ac.deep_eq(bc);
                proof {
                    if an.deep_view() == bn.deep_view() && av.deep_view() == bv.deep_view()
                        && ac.deep_view() == bc.deep_view() {
                        assert(self.deep_view() =~= other.deep_view());
                    }
                }
                r
            },
            _ => false,
        }
    }
}

impl Import {
    /// Whether this import holds the same value as `other`.
    pub fn deep_eq(&self, other: &Import) -> (r: bool)
        ensures
            r == (self.deep_view() == other.deep_view()),
    {
        if self.modules.len() != other.modules.len() || self.idents.len() != other.idents.len() {
            proof {
                assert(self.deep_view().modules.len() == self.modules@.len());
                assert(other.deep_view().modules.len() == other.modules@.len());
                assert(self.deep_view().idents.len() == self.idents@.len());
                assert(other.deep_view().idents.len() == other.idents@.len());
            }
            return false;
        }
        let mut i: usize = 0;
        while i < self.modules.len()
            invariant
                i <= self.modules.len(),
                self.modules.len() == other.modules.len(),
                forall|k: int|
                    0 <= k < i ==> self.modules.deep_view()[k] == other.modules.deep_view()[k],
            decreases self.modules.len() - i,
        {
            if !(self.modules[i].0 == other.modules[i].0) {
                proof {
                    assert(self.modules.deep_view()[i as int] == self.modules@[i as int].deep_view());
                    assert(other.modules.deep_view()[i as int] == other.modules@[i as int].deep_view());
                }
                return false;
            }
            i = i + 1;
        }
        let mut j: usize = 0;
        while j < self.idents.len()
            invariant
                j <= self.idents.len(),
                self.idents.len() == other.idents.len(),
                self.modules.deep_view() == other.modules.deep_view(),
                forall|k: int|
                    0 <= k < j ==> self.idents.deep_view()[k] == other.idents.deep_view()[k],
            decreases self.idents.len() - j,
        {
            if !(self.idents[j] == other.idents[j]) {
                proof {
                    assert(self.idents.deep_view()[j as int] == self.idents@[j as int].deep_view());
                    assert(other.idents.deep_view()[j as int] == other.idents@[j as int].deep_view());
                }
                return false;
            }
            j = j + 1;
        }
        proof {
            assert(self.modules.deep_view() =~= other.modules.deep_view());
            assert(self.idents.deep_view() =~= other.idents.deep_view());
            assert(self.deep_view() =~= other.deep_view());
        }
        true
    }
}

/// Whether an executable parse outcome agrees with a specified one: the same
/// success or failure, with the same value underneath the views.
pub open spec fn pr_matches<T: DeepView>(
    r: Result<T, ParseError>,
    sr: Result<T::V, ParseErrorV>,
) -> bool {
    match sr {
        Ok(sv) => r matches Ok(v) && v.deep_view() == sv,
        Err(se) => r matches Err(e) && e.deep_view() == se,
    }
}

/// Consuming one token: the token under the cursor, or `EndOfFile` when none
/// remain. Every specification function below returns the outcome of its
/// production together with the cursor's final position.
pub open spec fn sp_next(t: Seq<TokenV>, p: int) -> (Result<TokenV, ParseErrorV>, int) {
    if p >= t.len() {
        (Err(ParseErrorV::EndOfFile), p)
    } else {
        (Ok(t[p]), p + 1)
    }
}

/// One primary noun: an identifier or a string literal.
pub open spec fn sp_primary_noun(t: Seq<TokenV>, p: int) -> (
    Result<PrimaryNounV, ParseErrorV>,
    int,
) {
    if p >= t.len() {
        (Err(ParseErrorV::EndOfFile), p)
    } else {
        match t[p] {
            TokenV::NormalIdent { ident } => (Ok(PrimaryNounV::Ident { ident }), p + 1),
            TokenV::StringLiteral { literal } => (
                Ok(PrimaryNounV::StringLiteral { literal }),
                p + 1,
            ),
            TokenV::Reserved(_) => (
                Err(
                    ParseErrorV::UnexpectedToken {
                        expected: Expected::IdentOrStringLiteral,
                        actual: t[p],
                    },
                ),
                p + 1,
            ),
        }
    }
}

/// The continuation of a noun after one primary noun has been read: as long
/// as the next token is the modifier marker, consume it and one more primary
/// noun.
pub open spec fn sp_pns_tail(t: Seq<TokenV>, p: int) -> (
    Result<Seq<PrimaryNounV>, ParseErrorV>,
    int,
)
    decreases t.len() - p,
{
    if p < t.len() && t[p] == TokenV::Reserved(Reserved::ApostropheD) {
        let (r, p1) = sp_primary_noun(t, p + 1);
        match r {
            Err(e) => (Err(e), p1),
            Ok(pn) => {
                let (r2, p2) = sp_pns_tail(t, p + 2);
                match r2 {
                    Err(e) => (Err(e), p2),
                    Ok(rest) => (Ok(seq![pn] + rest), p2),
                }
            },
        }
    } else {
        (Ok(seq![]), p)
    }
}

/// All the primary nouns of one noun, in surface order: one primary noun,
/// then every further one marked by a preceding `'d`.
pub open spec fn sp_noun_pns(t: Seq<TokenV>, p: int) -> (
    Result<Seq<PrimaryNounV>, ParseErrorV>,
    int,
) {
    let (r, p1) = sp_primary_noun(t, p);
    match r {
        Err(e) => (Err(e), p1),
        Ok(pn) => {
            let (r2, p2) = sp_pns_tail(t, p + 1);
            match r2 {
                Err(e) => (Err(e), p2),
                Ok(rest) => (Ok(seq![pn] + rest), p2),
            }
        },
    }
}

/// One noun: the last primary noun read is the head, all before it are the
/// modifiers.
pub open spec fn sp_noun(t: Seq<TokenV>, p: int) -> (Result<NounV, ParseErrorV>, int) {
    let (r, p1) = sp_noun_pns(t, p);
    match r {
        Err(e) => (Err(e), p1),
        Ok(pns) => (Ok(NounV { modifier: pns.drop_last(), head: pns.last() }), p1),
    }
}

/// The noun continuation never moves the cursor backwards, always consumes
/// at least one token for each primary noun read, and on success yields one
/// primary noun for every two tokens consumed.
pub proof fn lemma_sp_pns_tail_advances(t: Seq<TokenV>, p: int)
    ensures
        sp_pns_tail(t, p).1 >= p,
        p <= t.len() ==> sp_pns_tail(t, p).1 <= t.len(),
        sp_pns_tail(t, p).0 matches Ok(rest) ==> sp_pns_tail(t, p).1 == p + 2 * rest.len(),
    decreases t.len() - p,
{
    if p < t.len() && t[p] == TokenV::Reserved(Reserved::ApostropheD) {
        let (r, p1) = sp_primary_noun(t, p + 1);
        match r {
            Err(_) => {},
            Ok(_) => {
                lemma_sp_pns_tail_advances(t, p + 2);
            },
        }
    }
}

/// A noun, when parsed at all, consumes at least one token, and never moves
/// the cursor backwards.
pub proof fn lemma_sp_noun_advances(t: Seq<TokenV>, p: int)
    ensures
        sp_noun(t, p).1 >= p,
        p <= t.len() ==> sp_noun(t, p).1 <= t.len(),
        sp_noun(t, p).0 is Ok ==> sp_noun(t, p).1 > p,
{
    lemma_sp_pns_tail_advances(t, p + 1);
}

/// The further nouns of a comma-separated noun list: as long as the next
/// token is a comma, consume it and one more noun.
pub open spec fn sp_more_nouns(t: Seq<TokenV>, p: int) -> (Result<Seq<NounV>, ParseErrorV>, int)
    decreases t.len() - p,
{
    if p < t.len() && t[p] == TokenV::Reserved(Reserved::PunctuationComma) {
        let (r, p1) = sp_noun(t, p + 1);
        match r {
            Err(e) => (Err(e), p1),
            Ok(n) => {
                proof {
                    lemma_sp_noun_advances(t, p + 1);
                }
                let (r2, p2) = sp_more_nouns(t, p1);
                match r2 {
                    Err(e) => (Err(e), p2),
                    Ok(rest) => (Ok(seq![n] + rest), p2),
                }
            },
        }
    } else {
        (Ok(seq![]), p)
    }
}

/// A noun list: one noun; or, on the lookahead `ad`, exactly two nouns; or,
/// on the lookahead `adit`, three or more comma-separated nouns.
pub open spec fn sp_noun_list(t: Seq<TokenV>, p: int) -> (Result<Seq<NounV>, ParseErrorV>, int) {
    let (r, p1) = sp_noun(t, p);
    match r {
        Err(e) => (Err(e), p1),
        Ok(n1) => {
            if p1 < t.len() && t[p1] == TokenV::Reserved(Reserved::Ad) {
                let (r2, p2) = sp_noun(t, p1 + 1);
                match r2 {
                    Err(e) => (Err(e), p2),
                    Ok(n2) => (Ok(seq![n1, n2]), p2),
                }
            } else if p1 < t.len() && t[p1] == TokenV::Reserved(Reserved::Adit) {
                let (r2, p2) = sp_noun(t, p1 + 1);
                match r2 {
                    Err(e) => (Err(e), p2),
                    Ok(n2) => {
                        if p2 >= t.len() {
                            (Err(ParseErrorV::EndOfFile), p2)
                        } else if t[p2] != TokenV::Reserved(Reserved::PunctuationComma) {
                            (
                                Err(
                                    ParseErrorV::UnexpectedToken {
                                        expected: Expected::Comma,
                                        actual: t[p2],
                                    },
                                ),
                                p2 + 1,
                            )
                        } else {
                            let (r3, p3) = sp_noun(t, p2 + 1);
                            match r3 {
                                Err(e) => (Err(e), p3),
                                Ok(n3) => {
                                    let (r4, p4) = sp_more_nouns(t, p3);
                                    match r4 {
                                        Err(e) => (Err(e), p4),
                                        Ok(rest) => (Ok(seq![n1, n2, n3] + rest), p4),
                                    }
                                },
                            }
                        }
                    },
                }
            } else {
                (Ok(seq![n1]), p1)
            }
        },
    }
}

/// The trailing-marker form of a case-marked noun phrase: a noun list
/// followed by `'c`.
pub open spec fn sp_nwc_trailing(t: Seq<TokenV>, p: int) -> (
    Result<NounsWithCaseV, ParseErrorV>,
    int,
) {
    let (r, p1) = sp_noun_list(t, p);
    match r {
        Err(e) => (Err(e), p1),
        Ok(nouns) => {
            if p1 >= t.len() {
                (Err(ParseErrorV::EndOfFile), p1)
            } else if t[p1] == TokenV::Reserved(Reserved::ApostropheC) {
                (Ok(NounsWithCaseV { nouns, case: Case::ApostropheC }), p1 + 1)
            } else {
                (
                    Err(
                        ParseErrorV::UnexpectedToken {
                            expected: Expected::Reserved(Reserved::ApostropheC),
                            actual: t[p1],
                        },
                    ),
                    p1 + 1,
                )
            }
        },
    }
}

/// A case-marked noun phrase: a fronting preposition followed by a noun
/// list, or a noun list followed by the trailing marker `'c`.
pub open spec fn sp_nouns_with_case(t: Seq<TokenV>, p: int) -> (
    Result<NounsWithCaseV, ParseErrorV>,
    int,
) {
    if p < t.len() {
        match t[p] {
            TokenV::Reserved(Reserved::Preposition(pr)) => {
                let (r, p1) = sp_noun_list(t, p + 1);
                match r {
                    Err(e) => (Err(e), p1),
                    Ok(nouns) => (Ok(NounsWithCaseV { nouns, case: Case::Preposition(pr) }), p1),
                }
            },
            _ => sp_nwc_trailing(t, p),
        }
    } else {
        sp_nwc_trailing(t, p)
    }
}

/// One verb: a bare identifier.
pub open spec fn sp_verb(t: Seq<TokenV>, p: int) -> (Result<Seq<char>, ParseErrorV>, int) {
    if p >= t.len() {
        (Err(ParseErrorV::EndOfFile), p)
    } else {
        match t[p] {
            TokenV::NormalIdent { ident } => (Ok(ident), p + 1),
            _ => (
                Err(ParseErrorV::UnexpectedToken { expected: Expected::Ident, actual: t[p] }),
                p + 1,
            ),
        }
    }
}

/// Consuming one concrete reserved token and nothing else.
pub open spec fn sp_consume(t: Seq<TokenV>, p: int, res: Reserved) -> (
    Result<(), ParseErrorV>,
    int,
) {
    if p >= t.len() {
        (Err(ParseErrorV::EndOfFile), p)
    } else if t[p] == TokenV::Reserved(res) {
        (Ok(()), p + 1)
    } else {
        (
            Err(ParseErrorV::UnexpectedToken { expected: Expected::Reserved(res), actual: t[p] }),
            p + 1,
        )
    }
}

/// A variable declaration: `noun "es" noun`.
pub open spec fn sp_var_decl(t: Seq<TokenV>, p: int) -> (Result<SentenceV, ParseErrorV>, int) {
    let (r1, p1) = sp_noun(t, p);
    match r1 {
        Err(e) => (Err(e), p1),
        Ok(n1) => {
            let (r2, p2) = sp_consume(t, p1, Reserved::Es);
            match r2 {
                Err(e) => (Err(e), p2),
                Ok(_) => {
                    let (r3, p3) = sp_noun(t, p2);
                    match r3 {
                        Err(e) => (Err(e), p3),
                        Ok(n2) => (Ok(SentenceV::VarDecl(n1, n2)), p3),
                    }
                },
            }
        },
    }
}

/// The further nouns of a comma-separated list never move the cursor
/// backwards, nor past the end.
pub proof fn lemma_sp_more_nouns_advances(t: Seq<TokenV>, p: int)
    ensures
        sp_more_nouns(t, p).1 >= p,
        p <= t.len() ==> sp_more_nouns(t, p).1 <= t.len(),
    decreases t.len() - p,
{
    if p < t.len() && t[p] == TokenV::Reserved(Reserved::PunctuationComma) {
        lemma_sp_noun_advances(t, p + 1);
        let (r, p1) = sp_noun(t, p + 1);
        match r {
            Err(_) => {},
            Ok(_) => {
                lemma_sp_more_nouns_advances(t, p1);
            },
        }
    }
}

/// A noun list, when parsed at all, consumes at least one token, and never
/// moves the cursor backwards nor past the end.
pub proof fn lemma_sp_noun_list_advances(t: Seq<TokenV>, p: int)
    ensures
        sp_noun_list(t, p).1 >= p,
        p <= t.len() ==> sp_noun_list(t, p).1 <= t.len(),
        sp_noun_list(t, p).0 is Ok ==> sp_noun_list(t, p).1 > p,
{
    lemma_sp_noun_advances(t, p);
    let (r, p1) = sp_noun(t, p);
    lemma_sp_noun_advances(t, p1 + 1);
    let (r2, p2) = sp_noun(t, p1 + 1);
    lemma_sp_noun_advances(t, p2 + 1);
    let (r3, p3) = sp_noun(t, p2 + 1);
    lemma_sp_more_nouns_advances(t, p3);
}

/// A case-marked noun phrase, when parsed at all, consumes at least one
/// token, and never moves the cursor backwards nor past the end.
pub proof fn lemma_sp_nouns_with_case_advances(t: Seq<TokenV>, p: int)
    ensures
        sp_nouns_with_case(t, p).1 >= p,
        p <= t.len() ==> sp_nouns_with_case(t, p).1 <= t.len(),
        sp_nouns_with_case(t, p).0 is Ok ==> sp_nouns_with_case(t, p).1 > p,
{
    lemma_sp_noun_list_advances(t, p);
    lemma_sp_noun_list_advances(t, p + 1);
}

/// One conjunct of a condition: a noun, a verb, and, unless the lookahead
/// token closes the conjunct (`felx`, `mal` or the period), a mandatory
/// case-marked noun phrase.
pub open spec fn sp_cond_elem(t: Seq<TokenV>, p: int) -> (Result<CondElemV, ParseErrorV>, int) {
    let (r1, p1) = sp_noun(t, p);
    match r1 {
        Err(e) => (Err(e), p1),
        Ok(noun) => {
            let (r2, p2) = sp_verb(t, p1);
            match r2 {
                Err(e) => (Err(e), p2),
                Ok(verb) => {
                    if p2 < t.len() && (t[p2] == TokenV::Reserved(Reserved::Felx) || t[p2]
                        == TokenV::Reserved(Reserved::Mal) || t[p2] == TokenV::Reserved(
                        Reserved::PunctuationPeriod,
                    )) {
                        (Ok(CondElemV { noun, verb, nouns_with_case: None }), p2)
                    } else {
                        let (r3, p3) = sp_nouns_with_case(t, p2);
                        match r3 {
                            Err(e) => (Err(e), p3),
                            Ok(nwc) => (
                                Ok(CondElemV { noun, verb, nouns_with_case: Some(nwc) }),
                                p3,
                            ),
                        }
                    }
                },
            }
        },
    }
}

/// A condition conjunct never moves the cursor backwards, nor past the end.
pub proof fn lemma_sp_cond_elem_advances(t: Seq<TokenV>, p: int)
    ensures
        sp_cond_elem(t, p).1 >= p,
        p <= t.len() ==> sp_cond_elem(t, p).1 <= t.len(),
{
    lemma_sp_noun_advances(t, p);
    let (r1, p1) = sp_noun(t, p);
    lemma_sp_nouns_with_case_advances(t, p1 + 1);
}

/// The continuation of a condition after one conjunct has been read: as
/// long as the next token is `mal`, consume it and one more conjunct.
pub open spec fn sp_cond_tail(t: Seq<TokenV>, p: int) -> (Result<Seq<CondElemV>, ParseErrorV>, int)
    decreases t.len() - p,
{
    if p < t.len() && t[p] == TokenV::Reserved(Reserved::Mal) {
        let (r, p1) = sp_cond_elem(t, p + 1);
        match r {
            Err(e) => (Err(e), p1),
            Ok(e1) => {
                proof {
                    lemma_sp_cond_elem_advances(t, p + 1);
                }
                let (r2, p2) = sp_cond_tail(t, p1);
                match r2 {
                    Err(e) => (Err(e), p2),
                    Ok(rest) => (Ok(seq![e1] + rest), p2),
                }
            },
        }
    } else {
        (Ok(seq![]), p)
    }
}

/// A condition: condition conjuncts joined by `mal`.
pub open spec fn sp_cond(t: Seq<TokenV>, p: int) -> (Result<Seq<CondElemV>, ParseErrorV>, int) {
    let (r, p1) = sp_cond_elem(t, p);
    match r {
        Err(e) => (Err(e), p1),
        Ok(e1) => {
            let (r2, p2) = sp_cond_tail(t, p1);
            match r2 {
                Err(e) => (Err(e), p2),
                Ok(rest) => (Ok(seq![e1] + rest), p2),
            }
        },
    }
}

/// An event condition: `noun "'st" verb "-il" "io"`.
pub open spec fn sp_event_cond(t: Seq<TokenV>, p: int) -> (Result<EventCondV, ParseErrorV>, int) {
    let (r1, p1) = sp_noun(t, p);
    match r1 {
        Err(e) => (Err(e), p1),
        Ok(noun) => {
            let (r2, p2) = sp_consume(t, p1, Reserved::ApostropheSt);
            match r2 {
                Err(e) => (Err(e), p2),
                Ok(_) => {
                    let (r3, p3) = sp_verb(t, p2);
                    match r3 {
                        Err(e) => (Err(e), p3),
                        Ok(verb) => {
                            let (r4, p4) = sp_consume(t, p3, Reserved::HyphenIl);
                            match r4 {
                                Err(e) => (Err(e), p4),
                                Ok(_) => {
                                    let (r5, p5) = sp_consume(t, p4, Reserved::Io);
                                    match r5 {
                                        Err(e) => (Err(e), p5),
                                        Ok(_) => (Ok(EventCondV { noun, verb }), p5),
                                    }
                                },
                            }
                        },
                    }
                },
            }
        },
    }
}

/// A predicate declaration: `noun_list "'st" verb "-o" ":" cond`.
pub open spec fn sp_predicate_decl(t: Seq<TokenV>, p: int) -> (
    Result<SentenceV, ParseErrorV>,
    int,
) {
    let (r1, p1) = sp_noun_list(t, p);
    match r1 {
        Err(e) => (Err(e), p1),
        Ok(noun_list) => {
            let (r2, p2) = sp_consume(t, p1, Reserved::ApostropheSt);
            match r2 {
                Err(e) => (Err(e), p2),
                Ok(_) => {
                    let (r3, p3) = sp_verb(t, p2);
                    match r3 {
                        Err(e) => (Err(e), p3),
                        Ok(verb) => {
                            let (r4, p4) = sp_consume(t, p3, Reserved::HyphenO);
                            match r4 {
                                Err(e) => (Err(e), p4),
                                Ok(_) => {
                                    let (r5, p5) = sp_consume(t, p4, Reserved::PunctuationColon);
                                    match r5 {
                                        Err(e) => (Err(e), p5),
                                        Ok(_) => {
                                            let (r6, p6) = sp_cond(t, p5);
                                            match r6 {
                                                Err(e) => (Err(e), p6),
                                                Ok(cond) => (
                                                    Ok(
                                                        SentenceV::PredicateDecl {
                                                            noun_list,
                                                            verb,
                                                            cond,
                                                        },
                                                    ),
                                                    p6,
                                                ),
                                            }
                                        },
                                    }
                                },
                            }
                        },
                    }
                },
            }
        },
    }
}

/// One module-path segment: a bare identifier.
pub open spec fn sp_module(t: Seq<TokenV>, p: int) -> (Result<Seq<char>, ParseErrorV>, int) {
    if p >= t.len() {
        (Err(ParseErrorV::EndOfFile), p)
    } else {
        match t[p] {
            TokenV::NormalIdent { ident } => (Ok(ident), p + 1),
            _ => (
                Err(ParseErrorV::UnexpectedToken { expected: Expected::Ident, actual: t[p] }),
                p + 1,
            ),
        }
    }
}

/// The trailing `("," ident)*` of an import's comma-separated identifier
/// list: pairs of a comma and an identifier, as long as they keep coming.
/// This tail cannot fail; it stops at the first token pair of another shape.
pub open spec fn sp_import_idents(t: Seq<TokenV>, p: int) -> (Seq<Seq<char>>, int)
    decreases t.len() - p,
{
    if p + 1 < t.len() && t[p] == TokenV::Reserved(Reserved::PunctuationComma) && (t[p
        + 1] matches TokenV::NormalIdent { .. }) {
        match t[p + 1] {
            TokenV::NormalIdent { ident } => {
                let (rest, p2) = sp_import_idents(t, p + 2);
                (seq![ident] + rest, p2)
            },
            _ => (seq![], p),
        }
    } else {
        (seq![], p)
    }
}

/// The tail of an import, after `"lus" module "'d"`: decided by a fixed
/// lookahead over the next tokens. Another `ident "'d"` pair extends the
/// module path; `ident "."` ends the import with one identifier, leaving the
/// period unconsumed; `ident "ad" ident` as the exact remainder ends it with
/// two; `ident "adit" ident ("," ident)+` ends it with three or more.
pub open spec fn sp_import_tail(t: Seq<TokenV>, p: int, path: Seq<Seq<char>>) -> (
    Result<ImportV, ParseErrorV>,
    int,
)
    decreases t.len() - p,
{
    if p >= t.len() {
        (Err(ParseErrorV::EndOfFile), p)
    } else {
        match t[p] {
            TokenV::NormalIdent { ident } => {
                if p + 1 >= t.len() {
                    (Err(ParseErrorV::EndOfFile), p)
                } else if t[p + 1] == TokenV::Reserved(Reserved::ApostropheD) {
                    sp_import_tail(t, p + 2, path.push(ident))
                } else if t[p + 1] == TokenV::Reserved(Reserved::PunctuationPeriod) {
                    (Ok(ImportV { modules: path, idents: seq![ident] }), p + 1)
                } else if t[p + 1] == TokenV::Reserved(Reserved::Ad) && p + 3 == t.len() && (t[p
                    + 2] matches TokenV::NormalIdent { .. }) {
                    match t[p + 2] {
                        TokenV::NormalIdent { ident: ident2 } => (
                            Ok(ImportV { modules: path, idents: seq![ident, ident2] }),
                            p + 3,
                        ),
                        _ => (Err(ParseErrorV::EndOfFile), p),
                    }
                } else if t[p + 1] == TokenV::Reserved(Reserved::Adit) && p + 4 < t.len() && (t[p
                    + 2] matches TokenV::NormalIdent { .. }) && t[p + 3] == TokenV::Reserved(
                    Reserved::PunctuationComma,
                ) && (t[p + 4] matches TokenV::NormalIdent { .. }) {
                    match (t[p + 2], t[p + 4]) {
                        (
                            TokenV::NormalIdent { ident: ident2 },
                            TokenV::NormalIdent { ident: ident3 },
                        ) => {
                            let (more, p5) = sp_import_idents(t, p + 5);
                            (
                                Ok(
                                    ImportV {
                                        modules: path,
                                        idents: seq![ident, ident2, ident3] + more,
                                    },
                                ),
                                p5,
                            )
                        },
                        _ => (Err(ParseErrorV::EndOfFile), p),
                    }
                } else {
                    (
                        Err(
                            ParseErrorV::UnexpectedToken {
                                expected: Expected::ImportContinuation,
                                actual: t[p + 1],
                            },
                        ),
                        p,
                    )
                }
            },
            _ => (
                (
                    Err(ParseErrorV::UnexpectedToken { expected: Expected::Ident, actual: t[p] }),
                    p,
                )
            ),
        }
    }
}

/// An import: `"lus" (module "'d")+` followed by its identifier tail.
pub open spec fn sp_import(t: Seq<TokenV>, p: int) -> (Result<ImportV, ParseErrorV>, int) {
    let (r1, p1) = sp_consume(t, p, Reserved::Lus);
    match r1 {
        Err(e) => (Err(e), p1),
        Ok(_) => {
            let (r2, p2) = sp_module(t, p1);
            match r2 {
                Err(e) => (Err(e), p2),
                Ok(m) => {
                    let (r3, p3) = sp_consume(t, p2, Reserved::ApostropheD);
                    match r3 {
                        Err(e) => (Err(e), p3),
                        Ok(_) => sp_import_tail(t, p3, seq![m]),
                    }
                },
            }
        },
    }
}

/// The shape of a noun continuation: it consumes two tokens for each
/// modifier read, a `'d` marker and then a primary noun, and stops exactly
/// at the first position that does not hold a `'d`.
proof fn lemma_pns_tail_shape(t: Seq<TokenV>, q: int)
    requires
        sp_pns_tail(t, q).0 is Ok,
    ensures
        ({
            let (r, tp) = sp_pns_tail(t, q);
            let rest = r->Ok_0;
            tp == q + 2 * rest.len() && (forall|k: int|
                0 <= k < rest.len() ==> t[q + 2 * k] == TokenV::Reserved(Reserved::ApostropheD)
                    && #[trigger] sp_primary_noun(t, q + 2 * k + 1).0 == Ok::<
                    PrimaryNounV,
                    ParseErrorV,
                >(rest[k])) && (tp >= t.len() || t[tp] != TokenV::Reserved(Reserved::ApostropheD))
        }),
    decreases t.len() - q,
{
    if q < t.len() && t[q] == TokenV::Reserved(Reserved::ApostropheD) {
        let (r, p1) = sp_primary_noun(t, q + 1);
        match r {
            Err(_) => {},
            Ok(pn) => {
                lemma_pns_tail_shape(t, q + 2);
                let (r2, _) = sp_pns_tail(t, q + 2);
                let rest2 = r2->Ok_0;
                let rest = sp_pns_tail(t, q).0->Ok_0;
                assert(rest =~= seq![pn] + rest2);
                assert forall|k: int| 0 <= k < rest.len() implies t[q + 2 * k] == TokenV::Reserved(
                    Reserved::ApostropheD,
                ) && #[trigger] sp_primary_noun(t, q + 2 * k + 1).0 == Ok::<
                    PrimaryNounV,
                    ParseErrorV,
                >(rest[k]) by {
                    if k > 0 {
                        assert(sp_primary_noun(t, (q + 2) + 2 * (k - 1) + 1).0 == Ok::<
                            PrimaryNounV,
                            ParseErrorV,
                        >(rest2[k - 1]));
                    }
                }
            },
        }
    }
}

/// The law of the noun production: for every parsed noun, the modifier
/// count plus one equals the number of primary nouns consumed; the parse
/// consumes one token for each primary noun and one for each `'d` marker;
/// the head is the primary noun read immediately before the final cursor
/// position; and the token at that final position, when one remains, is not
/// another `'d` — the modifier loop is greedy.
pub proof fn lemma_noun_shape(t: Seq<TokenV>, p: int)
    requires
        sp_noun(t, p).0 is Ok,
    ensures
        ({
            let (r, p2) = sp_noun(t, p);
            let n = r->Ok_0;
            p2 == p + 2 * n.modifier.len() + 1 && sp_primary_noun(t, p2 - 1).0 == Ok::<
                PrimaryNounV,
                ParseErrorV,
            >(n.head) && (forall|k: int|
                0 <= k < n.modifier.len() ==> #[trigger] sp_primary_noun(t, p + 2 * k).0 == Ok::<
                    PrimaryNounV,
                    ParseErrorV,
                >(n.modifier[k]) && t[p + 2 * k + 1] == TokenV::Reserved(Reserved::ApostropheD)) && (
            p2 >= t.len() || t[p2] != TokenV::Reserved(Reserved::ApostropheD))
        }),
{
    let (r0, p1) = sp_primary_noun(t, p);
    let pn0 = r0->Ok_0;
    lemma_pns_tail_shape(t, p + 1);
    let (rt, tp) = sp_pns_tail(t, p + 1);
    let rest = rt->Ok_0;
    let pns = sp_noun_pns(t, p).0->Ok_0;
    assert(pns =~= seq![pn0] + rest);
    let n = sp_noun(t, p).0->Ok_0;
    assert(n.modifier =~= pns.drop_last());
    assert forall|k: int| 0 <= k < n.modifier.len() implies #[trigger] sp_primary_noun(
        t,
        p + 2 * k,
    ).0 == Ok::<PrimaryNounV, ParseErrorV>(n.modifier[k]) && t[p + 2 * k + 1] == TokenV::Reserved(
        Reserved::ApostropheD,
    ) by {
        assert(sp_primary_noun(t, (p + 1) + 2 * k + 1).0 == Ok::<PrimaryNounV, ParseErrorV>(
            rest[k],
        ));
        if k > 0 {
            assert(sp_primary_noun(t, (p + 1) + 2 * (k - 1) + 1).0 == Ok::<
                PrimaryNounV,
                ParseErrorV,
            >(rest[k - 1]));
        }
    }
    if n.modifier.len() > 0 {
        assert(sp_primary_noun(t, (p + 1) + 2 * (rest.len() - 1) + 1).0 == Ok::<
            PrimaryNounV,
            ParseErrorV,
        >(rest[rest.len() - 1]));
    }
}

/// The law of the noun-list production, one-noun form: with no `ad` or
/// `adit` after the first noun, the list is exactly that noun.
pub proof fn lemma_noun_list_single(t: Seq<TokenV>, p: int)
    requires
        sp_noun(t, p).0 is Ok,
        ({
            let p1 = sp_noun(t, p).1;
            p1 >= t.len() || (t[p1] != TokenV::Reserved(Reserved::Ad) && t[p1] != TokenV::Reserved(
                Reserved::Adit,
            ))
        }),
    ensures
        sp_noun_list(t, p) == (
            Ok::<Seq<NounV>, ParseErrorV>(seq![sp_noun(t, p).0->Ok_0]),
            sp_noun(t, p).1,
        ),
{
}

/// The law of the noun-list production, two-noun form: `X ad Y` yields
/// exactly `[X, Y]`.
pub proof fn lemma_noun_list_two(t: Seq<TokenV>, p: int)
    requires
        sp_noun(t, p).0 is Ok,
        sp_noun(t, p).1 < t.len(),
        t[sp_noun(t, p).1] == TokenV::Reserved(Reserved::Ad),
        sp_noun(t, sp_noun(t, p).1 + 1).0 is Ok,
    ensures
        sp_noun_list(t, p) == (
            Ok::<Seq<NounV>, ParseErrorV>(
                seq![sp_noun(t, p).0->Ok_0, sp_noun(t, sp_noun(t, p).1 + 1).0->Ok_0],
            ),
            sp_noun(t, sp_noun(t, p).1 + 1).1,
        ),
{
}

/// The law of the noun-list production, comma-separated form:
/// `X adit Y, Z`, with nothing after `Z` continuing the list, yields
/// exactly `[X, Y, Z]`.
pub proof fn lemma_noun_list_three(t: Seq<TokenV>, p: int)
    requires
        sp_noun(t, p).0 is Ok,
        sp_noun(t, p).1 < t.len(),
        t[sp_noun(t, p).1] == TokenV::Reserved(Reserved::Adit),
        sp_noun(t, sp_noun(t, p).1 + 1).0 is Ok,
        sp_noun(t, sp_noun(t, p).1 + 1).1 < t.len(),
        t[sp_noun(t, sp_noun(t, p).1 + 1).1] == TokenV::Reserved(Reserved::PunctuationComma),
        sp_noun(t, sp_noun(t, sp_noun(t, p).1 + 1).1 + 1).0 is Ok,
        ({
            let p3 = sp_noun(t, sp_noun(t, sp_noun(t, p).1 + 1).1 + 1).1;
            p3 >= t.len() || t[p3] != TokenV::Reserved(Reserved::PunctuationComma)
        }),
    ensures
        sp_noun_list(t, p) == (
            Ok::<Seq<NounV>, ParseErrorV>(
                seq![
                    sp_noun(t, p).0->Ok_0,
                    sp_noun(t, sp_noun(t, p).1 + 1).0->Ok_0,
                    sp_noun(t, sp_noun(t, sp_noun(t, p).1 + 1).1 + 1).0->Ok_0,
                ],
            ),
            sp_noun(t, sp_noun(t, sp_noun(t, p).1 + 1).1 + 1).1,
        ),
{
    let p1 = sp_noun(t, p).1;
    let p2 = sp_noun(t, p1 + 1).1;
    let p3 = sp_noun(t, p2 + 1).1;
    let x = sp_noun(t, p).0->Ok_0;
    let y = sp_noun(t, p1 + 1).0->Ok_0;
    let z = sp_noun(t, p2 + 1).0->Ok_0;
    assert(sp_more_nouns(t, p3).0 == Ok::<Seq<NounV>, ParseErrorV>(seq![]));
    assert(seq![x, y, z] + seq![] =~= seq![x, y, z]);
}

/// The law of the empty input: at the end of the tokens, every production
/// fails with `EndOfFile`.
pub proof fn lemma_empty_input_end_of_file(t: Seq<TokenV>, p: int, res: Reserved, path: Seq<Seq<char>>)
    requires
        p == t.len(),
    ensures
        sp_next(t, p).0 == Err::<TokenV, ParseErrorV>(ParseErrorV::EndOfFile),
        sp_primary_noun(t, p).0 == Err::<PrimaryNounV, ParseErrorV>(ParseErrorV::EndOfFile),
        sp_noun(t, p).0 == Err::<NounV, ParseErrorV>(ParseErrorV::EndOfFile),
        sp_noun_list(t, p).0 == Err::<Seq<NounV>, ParseErrorV>(ParseErrorV::EndOfFile),
        sp_nouns_with_case(t, p).0 == Err::<NounsWithCaseV, ParseErrorV>(ParseErrorV::EndOfFile),
        sp_verb(t, p).0 == Err::<Seq<char>, ParseErrorV>(ParseErrorV::EndOfFile),
        sp_consume(t, p, res).0 == Err::<(), ParseErrorV>(ParseErrorV::EndOfFile),
        sp_var_decl(t, p).0 == Err::<SentenceV, ParseErrorV>(ParseErrorV::EndOfFile),
        sp_event_cond(t, p).0 == Err::<EventCondV, ParseErrorV>(ParseErrorV::EndOfFile),
        sp_cond_elem(t, p).0 == Err::<CondElemV, ParseErrorV>(ParseErrorV::EndOfFile),
        sp_cond(t, p).0 == Err::<Seq<CondElemV>, ParseErrorV>(ParseErrorV::EndOfFile),
        sp_predicate_decl(t, p).0 == Err::<SentenceV, ParseErrorV>(ParseErrorV::EndOfFile),
        sp_module(t, p).0 == Err::<Seq<char>, ParseErrorV>(ParseErrorV::EndOfFile),
        sp_import(t, p).0 == Err::<ImportV, ParseErrorV>(ParseErrorV::EndOfFile),
        sp_import_tail(t, p, path).0 == Err::<ImportV, ParseErrorV>(ParseErrorV::EndOfFile),
{
}

/// The cursor-based parser: an owned token sequence and a position that
/// advances monotonically and never rewinds.
pub struct State {
    tokens: Vec<Token>,
    pos: usize,
}

impl State {
    /// The tokens the parser walks, abstracted to their views.
    pub closed spec fn toks(self) -> Seq<TokenV> {
        self.tokens.deep_view()
    }

    /// The cursor's position.
    pub closed spec fn at(self) -> int {
        self.pos as int
    }

    /// The cursor never lies past the end of the tokens.
    pub open spec fn wf(self) -> bool {
        0 <= self.at() <= self.toks().len()
    }

    /// A fresh parser over the given tokens, with the cursor at the start.
    pub fn new(tokens: Vec<Token>) -> (r: State)
        ensures
            r.wf(),
            r.toks() == tokens.deep_view(),
            r.at() == 0,
    {
        State { tokens, pos: 0 }
    }

    /// Whether every token has been consumed.
    pub fn is_empty(&self) -> (r: bool)
        ensures
            r == (self.at() == self.toks().len()),
    {
        self.pos == self.tokens.len()
    }

    /// Consume and return the next token, or fail with `EndOfFile`.
    pub fn next(&mut self) -> (r: Result<Token, ParseError>)
        requires
            old(self).wf(),
        ensures
            final(self).wf(),
            final(self).toks() == old(self).toks(),
            final(self).at() == sp_next(old(self).toks(), old(self).at()).1,
            pr_matches(r, sp_next(old(self).toks(), old(self).at()).0),
    {
        if self.pos < self.tokens.len() {
            let tok = self.tokens[self.pos].clone();
            self.pos = self.pos + 1;
            Ok(tok)
        } else {
            Err(ParseError::EndOfFile)
        }
    }

    /// Return the next token without consuming it, or nothing at the end.
    pub fn peek(&mut self) -> (r: Option<Token>)
        requires
            old(self).wf(),
        ensures
            *final(self) == *old(self),
            match r {
                Some(tok) => old(self).at() < old(self).toks().len() && tok.deep_view() == old(
                    self,
                ).toks()[old(self).at()],
                None => old(self).at() == old(self).toks().len(),
            },
    {
        if self.pos < self.tokens.len() {
            Some(self.tokens[self.pos].clone())
        } else {
            None
        }
    }

    /// Parse one primary noun: an identifier or a string literal.
    pub fn parse_primary_noun(&mut self) -> (r: Result<PrimaryNoun, ParseError>)
        requires
            old(self).wf(),
        ensures
            final(self).wf(),
            final(self).toks() == old(self).toks(),
            final(self).at() == sp_primary_noun(old(self).toks(), old(self).at()).1,
            pr_matches(r, sp_primary_noun(old(self).toks(), old(self).at()).0),
    {
        let next = self.next()?;
        match next {
            Token::NormalIdent { ident } => Ok(PrimaryNoun::Ident { ident }),
            Token::StringLiteral { literal } => Ok(PrimaryNoun::StringLiteral { literal }),
            Token::Reserved(_) => Err(
                ParseError::UnexpectedToken {
                    expected: Expected::IdentOrStringLiteral,
                    actual: next,
                },
            ),
        }
    }

    /// Parse one noun: every `primary_noun "'d"` pair is consumed greedily as
    /// a modifier, and the final unmarked primary noun becomes the head.
    #[verifier::loop_isolation(false)]
    pub fn parse_noun(&mut self) -> (r: Result<Noun, ParseError>)
        requires
            old(self).wf(),
        ensures
            final(self).wf(),
            final(self).toks() == old(self).toks(),
            final(self).at() == sp_noun(old(self).toks(), old(self).at()).1,
            pr_matches(r, sp_noun(old(self).toks(), old(self).at()).0),
    {
        let ghost t = self.toks();
        let ghost p0 = self.at();
        let mut pns: Vec<PrimaryNoun> = Vec::new();
        let first = self.parse_primary_noun()?;
        pns.push(first);
        proof {
            assert(pns.deep_view() =~= seq![sp_primary_noun(t, p0).0->Ok_0]);
        }
        while self.pos < self.tokens.len() && self.tokens[self.pos].is_reserved(Reserved::ApostropheD)
            invariant
                self.wf(),
                self.toks() == t,
                pns.len() >= 1,
                sp_primary_noun(t, p0).0 is Ok,
                ({
                    let (fr, fp) = sp_noun_pns(t, p0);
                    let (tr, tp) = sp_pns_tail(t, self.at());
                    match tr {
                        Ok(rest) => fr == Ok::<Seq<PrimaryNounV>, ParseErrorV>(
                            pns.deep_view() + rest,
                        ) && fp == tp,
                        Err(e) => fr == Err::<Seq<PrimaryNounV>, ParseErrorV>(e) && fp == tp,
                    }
                }),
            decreases self.toks().len() - self.at(),
        {
            let ghost cur = self.at();
            let ghost pre = pns.deep_view();
            self.pos = self.pos + 1;
            let pn = match self.parse_primary_noun() {
                Ok(pn) => pn,
                Err(e) => {
                    return Err(e);
                },
            };
            pns.push(pn);
            proof {
                assert(pns.deep_view() =~= pre.push(sp_primary_noun(t, cur + 1).0->Ok_0));
                let (tr, tp) = sp_pns_tail(t, cur + 2);
                match tr {
                    Ok(rest) => {
                        assert(pre + (seq![sp_primary_noun(t, cur + 1).0->Ok_0] + rest) =~= pns.deep_view() + rest);
                    },
                    Err(_) => {},
                }
            }
        }
        proof {
            assert(sp_pns_tail(t, self.at()).0 == Ok::<Seq<PrimaryNounV>, ParseErrorV>(
                Seq::<PrimaryNounV>::empty(),
            ));
            assert(pns.deep_view() + Seq::<PrimaryNounV>::empty() =~= pns.deep_view());
        }
        let head = match pns.pop() {
            Some(h) => h,
            None => {
                return Err(ParseError::EndOfFile);
            },
        };
        let r = Noun { modifier: pns, head };
        proof {
            let pns_v = sp_noun_pns(t, p0).0->Ok_0;
            assert(r.deep_view() =~= (NounV { modifier: pns_v.drop_last(), head: pns_v.last() }));
        }
        Ok(r)
    }

    /// Parse a noun list, dispatching on the one token after the first noun:
    /// `ad` selects the two-noun form, `adit` the comma-separated form with
    /// at least three nouns, and anything else ends the list at one noun.
    #[verifier::loop_isolation(false)]
    pub fn parse_noun_list(&mut self) -> (r: Result<Vec<Noun>, ParseError>)
        requires
            old(self).wf(),
        ensures
            final(self).wf(),
            final(self).toks() == old(self).toks(),
            final(self).at() == sp_noun_list(old(self).toks(), old(self).at()).1,
            pr_matches(r, sp_noun_list(old(self).toks(), old(self).at()).0),
    {
        let ghost t = self.toks();
        let ghost p0 = self.at();
        let mut nouns: Vec<Noun> = Vec::new();
        let n1 = self.parse_noun()?;
        nouns.push(n1);
        match self.peek() {
            Some(Token::Reserved(Reserved::Ad)) => {
                self.next()?;
                let n2 = self.parse_noun()?;
                nouns.push(n2);
                proof {
                    assert(nouns.deep_view() =~= sp_noun_list(t, p0).0->Ok_0);
                }
                Ok(nouns)
            },
            Some(Token::Reserved(Reserved::Adit)) => {
                self.next()?;
                let n2 = self.parse_noun()?;
                nouns.push(n2);
                let expect_comma = self.next()?;
                if !expect_comma.is_reserved(Reserved::PunctuationComma) {
                    return Err(
                        ParseError::UnexpectedToken {
                            expected: Expected::Comma,
                            actual: expect_comma,
                        },
                    );
                }
                let n3 = self.parse_noun()?;
                nouns.push(n3);
                proof {
                    assert(nouns.deep_view() =~= seq![
                        nouns.deep_view()[0],
                        nouns.deep_view()[1],
                        nouns.deep_view()[2],
                    ]);
                }
                while self.pos < self.tokens.len() && self.tokens[self.pos].is_reserved(
                    Reserved::PunctuationComma,
                )
                    invariant
                        self.wf(),
                        self.toks() == t,
                        ({
                            let (fr, fp) = sp_noun_list(t, p0);
                            let (mr, mp) = sp_more_nouns(t, self.at());
                            match mr {
                                Ok(rest) => fr == Ok::<Seq<NounV>, ParseErrorV>(
                                    nouns.deep_view() + rest,
                                ) && fp == mp,
                                Err(e) => fr == Err::<Seq<NounV>, ParseErrorV>(e) && fp == mp,
                            }
                        }),
                    decreases self.toks().len() - self.at(),
                {
                    let ghost cur = self.at();
                    let ghost pre = nouns.deep_view();
                    proof {
                        lemma_sp_noun_advances(t, cur + 1);
                    }
                    self.pos = self.pos + 1;
                    let n = match self.parse_noun() {
                        Ok(n) => n,
                        Err(e) => {
                            return Err(e);
                        },
                    };
                    nouns.push(n);
                    proof {
                        assert(nouns.deep_view() =~= pre.push(sp_noun(t, cur + 1).0->Ok_0));
                        let (mr2, mp2) = sp_more_nouns(t, self.at());
                        match mr2 {
                            Ok(rest) => {
                                assert(pre + (seq![sp_noun(t, cur + 1).0->Ok_0] + rest)
                                    =~= nouns.deep_view() + rest);
                            },
                            Err(_) => {},
                        }
                    }
                }
                proof {
                    assert(nouns.deep_view() + Seq::<NounV>::empty() =~= nouns.deep_view());
                }
                Ok(nouns)
            },
            _ => {
                proof {
                    assert(nouns.deep_view() =~= seq![nouns.deep_view()[0]]);
                }
                Ok(nouns)
            },
        }
    }

    /// Parse a case-marked noun phrase: a fronting preposition and a noun
    /// list, or a noun list and the trailing marker `'c`.
    pub fn parse_nouns_with_case(&mut self) -> (r: Result<NounsWithCase, ParseError>)
        requires
            old(self).wf(),
        ensures
            final(self).wf(),
            final(self).toks() == old(self).toks(),
            final(self).at() == sp_nouns_with_case(old(self).toks(), old(self).at()).1,
            pr_matches(r, sp_nouns_with_case(old(self).toks(), old(self).at()).0),
    {
        if let Some(Token::Reserved(Reserved::Preposition(p))) = self.peek() {
            self.next()?;
            let nouns = self.parse_noun_list()?;
            Ok(NounsWithCase { nouns, case: Case::Preposition(p) })
        } else {
            let nouns = self.parse_noun_list()?;
            let next = self.next()?;
            if next.is_reserved(Reserved::ApostropheC) {
                Ok(NounsWithCase { nouns, case: Case::ApostropheC })
            } else {
                Err(
                    ParseError::UnexpectedToken {
                        expected: Expected::Reserved(Reserved::ApostropheC),
                        actual: next,
                    },
                )
            }
        }
    }

    /// Parse one verb: a bare identifier.
    pub fn parse_verb(&mut self) -> (r: Result<Verb, ParseError>)
        requires
            old(self).wf(),
        ensures
            final(self).wf(),
            final(self).toks() == old(self).toks(),
            final(self).at() == sp_verb(old(self).toks(), old(self).at()).1,
            pr_matches(r, sp_verb(old(self).toks(), old(self).at()).0),
    {
        let next = self.next()?;
        match next {
            Token::NormalIdent { ident } => Ok(Verb(ident)),
            _ => Err(ParseError::UnexpectedToken { expected: Expected::Ident, actual: next }),
        }
    }

    /// Consume one token and fail unless it is exactly the given reserved
    /// token.
    pub fn consume_or_die(&mut self, reserved: Reserved) -> (r: Result<(), ParseError>)
        requires
            old(self).wf(),
        ensures
            final(self).wf(),
            final(self).toks() == old(self).toks(),
            final(self).at() == sp_consume(old(self).toks(), old(self).at(), reserved).1,
            ({
                let sr = sp_consume(old(self).toks(), old(self).at(), reserved).0;
                match sr {
                    Ok(_) => r is Ok,
                    Err(se) => r matches Err(e) && e.deep_view() == se,
                }
            }),
    {
        let next = self.next()?;
        if next.is_reserved(reserved) {
            Ok(())
        } else {
            Err(
                ParseError::UnexpectedToken { expected: Expected::Reserved(reserved), actual: next },
            )
        }
    }

    /// Parse a variable declaration: `noun "es" noun`.
    pub fn parse_var_decl(&mut self) -> (r: Result<Sentence, ParseError>)
        requires
            old(self).wf(),
        ensures
            final(self).wf(),
            final(self).toks() == old(self).toks(),
            final(self).at() == sp_var_decl(old(self).toks(), old(self).at()).1,
            pr_matches(r, sp_var_decl(old(self).toks(), old(self).at()).0),
    {
        let noun1 = self.parse_noun()?;
        self.consume_or_die(Reserved::Es)?;
        let noun2 = self.parse_noun()?;
        Ok(Sentence::VarDecl(noun1, noun2))
    }

    /// Parse an event condition: `noun "'st" verb "-il" "io"`.
    pub fn parse_event_cond(&mut self) -> (r: Result<EventCond, ParseError>)
        requires
            old(self).wf(),
        ensures
            final(self).wf(),
            final(self).toks() == old(self).toks(),
            final(self).at() == sp_event_cond(old(self).toks(), old(self).at()).1,
            pr_matches(r, sp_event_cond(old(self).toks(), old(self).at()).0),
    {
        let noun = self.parse_noun()?;
        self.consume_or_die(Reserved::ApostropheSt)?;
        let verb = self.parse_verb()?;
        self.consume_or_die(Reserved::HyphenIl)?;
        self.consume_or_die(Reserved::Io)?;
        Ok(EventCond { noun, verb })
    }

    /// Parse one condition conjunct. The trailing case-marked noun phrase is
    /// absent exactly when the lookahead token is `felx`, `mal` or the
    /// period; otherwise it is mandatory.
    pub fn parse_cond_elem(&mut self) -> (r: Result<CondElem, ParseError>)
        requires
            old(self).wf(),
        ensures
            final(self).wf(),
            final(self).toks() == old(self).toks(),
            final(self).at() == sp_cond_elem(old(self).toks(), old(self).at()).1,
            pr_matches(r, sp_cond_elem(old(self).toks(), old(self).at()).0),
    {
        let noun = self.parse_noun()?;
        let verb = self.parse_verb()?;
        let nouns_with_case = if let Some(
            Token::Reserved(Reserved::Felx | Reserved::Mal | Reserved::PunctuationPeriod),
        ) = self.peek() {
            None
        } else {
            let nouns_with_case = self.parse_nouns_with_case()?;
            Some(nouns_with_case)
        };
        Ok(CondElem { noun, verb, nouns_with_case })
    }

    /// Parse a condition: condition conjuncts joined by `mal`.
    #[verifier::loop_isolation(false)]
    #[verifier::rlimit(30)]
    pub fn parse_cond(&mut self) -> (r: Result<Cond, ParseError>)
        requires
            old(self).wf(),
        ensures
            final(self).wf(),
            final(self).toks() == old(self).toks(),
            final(self).at() == sp_cond(old(self).toks(), old(self).at()).1,
            pr_matches(r, sp_cond(old(self).toks(), old(self).at()).0),
    {
        let ghost t = self.toks();
        let ghost p0 = self.at();
        let mut cond_elems: Vec<CondElem> = Vec::new();
        let e1 = self.parse_cond_elem()?;
        cond_elems.push(e1);
        proof {
            assert(cond_elems.deep_view() =~= seq![sp_cond_elem(t, p0).0->Ok_0]);
        }
        while self.pos < self.tokens.len() && self.tokens[self.pos].is_reserved(Reserved::Mal)
            invariant
                self.wf(),
                self.toks() == t,
                ({
                    let (fr, fp) = sp_cond(t, p0);
                    let (cr, cp) = sp_cond_tail(t, self.at());
                    match cr {
                        Ok(rest) => fr == Ok::<Seq<CondElemV>, ParseErrorV>(
                            cond_elems.deep_view() + rest,
                        ) && fp == cp,
                        Err(e) => fr == Err::<Seq<CondElemV>, ParseErrorV>(e) && fp == cp,
                    }
                }),
            decreases self.toks().len() - self.at(),
        {
            let ghost cur = self.at();
            let ghost pre = cond_elems.deep_view();
            proof {
                lemma_sp_cond_elem_advances(t, cur + 1);
            }
            self.pos = self.pos + 1;
            let e = match self.parse_cond_elem() {
                Ok(e) => e,
                Err(e) => {
                    return Err(e);
                },
            };
            cond_elems.push(e);
            proof {
                assert(cond_elems.deep_view() =~= pre.push(sp_cond_elem(t, cur + 1).0->Ok_0));
                let (cr2, cp2) = sp_cond_tail(t, self.at());
                match cr2 {
                    Ok(rest) => {
                        assert(pre + (seq![sp_cond_elem(t, cur + 1).0->Ok_0] + rest)
                            =~= cond_elems.deep_view() + rest);
                    },
                    Err(_) => {},
                }
            }
        }
        proof {
            assert(cond_elems.deep_view() + Seq::<CondElemV>::empty() =~= cond_elems.deep_view());
        }
        Ok(Cond(cond_elems))
    }

    /// Parse a predicate declaration:
    /// `noun_list "'st" verb "-o" ":" cond`.
    pub fn parse_predicate_decl(&mut self) -> (r: Result<Sentence, ParseError>)
        requires
            old(self).wf(),
        ensures
            final(self).wf(),
            final(self).toks() == old(self).toks(),
            final(self).at() == sp_predicate_decl(old(self).toks(), old(self).at()).1,
            pr_matches(r, sp_predicate_decl(old(self).toks(), old(self).at()).0),
    {
        let noun_list = self.parse_noun_list()?;
        self.consume_or_die(Reserved::ApostropheSt)?;
        let verb = self.parse_verb()?;
        self.consume_or_die(Reserved::HyphenO)?;
        self.consume_or_die(Reserved::PunctuationColon)?;
        let cond = self.parse_cond()?;
        Ok(Sentence::PredicateDecl { noun_list, verb, cond })
    }

    /// Parse one module-path segment: a bare identifier.
    pub fn parse_module(&mut self) -> (r: Result<Module, ParseError>)
        requires
            old(self).wf(),
        ensures
            final(self).wf(),
            final(self).toks() == old(self).toks(),
            final(self).at() == sp_module(old(self).toks(), old(self).at()).1,
            pr_matches(r, sp_module(old(self).toks(), old(self).at()).0),
    {
        let next = self.next()?;
        match next {
            Token::NormalIdent { ident } => Ok(Module(ident)),
            _ => Err(ParseError::UnexpectedToken { expected: Expected::Ident, actual: next }),
        }
    }

    /// Parse an import: `"lus" (module "'d")+` and then the identifier
    /// tail, recognized by a fixed lookahead over the next tokens.
    #[verifier::loop_isolation(false)]
    pub fn parse_import(&mut self) -> (r: Result<Import, ParseError>)
        requires
            old(self).wf(),
        ensures
            final(self).wf(),
            final(self).toks() == old(self).toks(),
            final(self).at() == sp_import(old(self).toks(), old(self).at()).1,
            pr_matches(r, sp_import(old(self).toks(), old(self).at()).0),
    {
        let ghost t = self.toks();
        let ghost p0 = self.at();
        self.consume_or_die(Reserved::Lus)?;
        let m1 = self.parse_module()?;
        let mut modules: Vec<Module> = Vec::new();
        modules.push(m1);
        self.consume_or_die(Reserved::ApostropheD)?;
        proof {
            assert(modules.deep_view() =~= seq![sp_module(t, p0 + 1).0->Ok_0]);
        }
        loop
            invariant
                self.wf(),
                self.toks() == t,
                sp_import_tail(t, self.at(), modules.deep_view()) == sp_import(t, p0),
            decreases self.toks().len() - self.at(),
        {
            if self.pos >= self.tokens.len() {
                return Err(ParseError::EndOfFile);
            }
            let tok0 = self.tokens[self.pos].clone();
            let ident = match tok0.ident_of() {
                Some(ident) => ident,
                None => {
                    return Err(
                        ParseError::UnexpectedToken { expected: Expected::Ident, actual: tok0 },
                    );
                },
            };
            if self.pos + 1 >= self.tokens.len() {
                return Err(ParseError::EndOfFile);
            }
            let ghost cur = self.at();
            let ghost pre = modules.deep_view();
            if self.tokens[self.pos + 1].is_reserved(Reserved::ApostropheD) {
                modules.push(Module(ident));
                self.pos = self.pos + 2;
                proof {
                    assert(modules.deep_view() =~= pre.push(ident@));
                }
            } else if self.tokens[self.pos + 1].is_reserved(Reserved::PunctuationPeriod) {
                let idents: Vec<String> = vec![ident];
                let import = Import { modules, idents };
                self.pos = self.pos + 1;
                proof {
                    assert(import.deep_view() =~= sp_import(t, p0).0->Ok_0);
                }
                return Ok(import);
            } else if self.tokens[self.pos + 1].is_reserved(Reserved::Ad) {
                if self.tokens.len() - self.pos == 3 {
                    if let Some(ident2) = self.tokens[self.pos + 2].ident_of() {
                        let idents: Vec<String> = vec![ident, ident2];
                        let import = Import { modules, idents };
                        self.pos = self.pos + 3;
                        proof {
                            assert(import.deep_view() =~= sp_import(t, p0).0->Ok_0);
                        }
                        return Ok(import);
                    }
                }
                return Err(
                    ParseError::UnexpectedToken {
                        expected: Expected::ImportContinuation,
                        actual: self.tokens[self.pos + 1].clone(),
                    },
                );
            } else if self.tokens[self.pos + 1].is_reserved(Reserved::Adit) {
                if self.tokens.len() - self.pos > 4 {
                    let id2 = self.tokens[self.pos + 2].ident_of();
                    let id4 = self.tokens[self.pos + 4].ident_of();
                    if let (Some(ident2), Some(ident3)) = (id2, id4) {
                        if self.tokens[self.pos + 3].is_reserved(Reserved::PunctuationComma) {
                            let mut idents: Vec<String> = vec![ident, ident2, ident3];
                            self.pos = self.pos + 5;
                            proof {
                                assert(idents.deep_view() =~= seq![
                                    t[cur]->NormalIdent_ident,
                                    t[cur + 2]->NormalIdent_ident,
                                    t[cur + 4]->NormalIdent_ident,
                                ]);
                            }
                            while self.pos < self.tokens.len() && self.tokens.len() - self.pos
                                >= 2 && self.tokens[self.pos].is_reserved(
                                Reserved::PunctuationComma,
                            ) && self.tokens[self.pos + 1].ident_of().is_some()
                                invariant
                                    self.wf(),
                                    self.toks() == t,
                                    ({
                                        let (fr, fp) = sp_import(t, p0);
                                        let (more, mp) = sp_import_idents(t, self.at());
                                        fr == Ok::<ImportV, ParseErrorV>(
                                            ImportV {
                                                modules: modules.deep_view(),
                                                idents: idents.deep_view() + more,
                                            },
                                        ) && fp == mp
                                    }),
                                decreases self.toks().len() - self.at(),
                            {
                                let ghost icur = self.at();
                                let ghost ipre = idents.deep_view();
                                let id = match self.tokens[self.pos + 1].ident_of() {
                                    Some(id) => id,
                                    None => {
                                        return Err(ParseError::EndOfFile);
                                    },
                                };
                                idents.push(id);
                                self.pos = self.pos + 2;
                                proof {
                                    assert(idents.deep_view() =~= ipre.push(
                                        t[icur + 1]->NormalIdent_ident,
                                    ));
                                    let (more2, mp2) = sp_import_idents(t, self.at());
                                    assert(ipre + (seq![t[icur + 1]->NormalIdent_ident] + more2)
                                        =~= idents.deep_view() + more2);
                                }
                            }
                            let import = Import { modules, idents };
                            proof {
                                assert(import.deep_view().idents + Seq::<Seq<char>>::empty()
                                    =~= import.deep_view().idents);
                                assert(import.deep_view() =~= sp_import(t, p0).0->Ok_0);
                            }
                            return Ok(import);
                        }
                    }
                }
                return Err(
                    ParseError::UnexpectedToken {
                        expected: Expected::ImportContinuation,
                        actual: self.tokens[self.pos + 1].clone(),
                    },
                );
            } else {
                return Err(
                    ParseError::UnexpectedToken {
                        expected: Expected::ImportContinuation,
                        actual: self.tokens[self.pos + 1].clone(),
                    },
                );
            }
        }
    }
}

} // verus!
