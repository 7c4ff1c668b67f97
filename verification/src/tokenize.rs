//! The lexical scanner: classifies characters, segments the input into raw
//! words, standalone punctuation and whole string literals, and splits
//! reserved morphological endings off each word.

use vstd::prelude::*;

verus! {

/// Relies on String::push from std: it appends the given character to the
/// end of the string, which vstd leaves unspecified.
pub assume_specification[ String::push ](s: &mut String, c: char)
    ensures
        final(s)@ == old(s)@.push(c),
;

/// The semantic class of a single character.
#[derive(Debug, Clone, Copy, Hash, PartialEq, Eq, Structural)]
pub enum CharKind {
    WordConstituent,
    Space,
    SimplePunctuation,
    StartsStringLiteral,
    EndsStringLiteral,
}

/// A failure of the lexical stage. The scan stops at the first offending
/// character; `position` is its index, in characters, into the input.
#[derive(Debug, Clone, Copy, PartialEq, Eq)]
pub enum LexError {
    UnknownCharacter { position: usize, character: char },
    UnmatchedDelimiter { position: usize },
}

impl DeepView for LexError {
    type V = LexError;

    open spec fn deep_view(&self) -> LexError {
        *self
    }
}

/// Whether `c` has the Unicode `White_Space` property. This is the set of
/// characters that `char::is_whitespace` documents.
pub open spec fn sp_is_whitespace(c: char) -> bool {
    let u = c as u32;
    (0x09 <= u && u <= 0x0d) || u == 0x20 || u == 0x85 || u == 0xa0 || u == 0x1680
        || (0x2000 <= u && u <= 0x200a) || u == 0x2028 || u == 0x2029 || u == 0x202f
        || u == 0x205f || u == 0x3000
}

/// Whether `c` may appear inside a word: the lowercase Latin letters, the
/// three designated extra letters, the digits, apostrophe, hyphen and
/// underscore.
pub open spec fn sp_is_word_constituent(c: char) -> bool {
    let u = c as u32;
    (('a' as u32) <= u && u <= ('z' as u32)) || u == 0x3c6 || u == 0x3b2 || u == 0x436
        || (('0' as u32) <= u && u <= ('9' as u32)) || c == '\'' || c == '-' || c == '_'
}

/// The class of `c`, or `None` when `c` lies outside the alphabet the
/// grammar defines.
pub open spec fn sp_classify(c: char) -> Option<CharKind> {
    if sp_is_word_constituent(c) {
        Some(CharKind::WordConstituent)
    } else if sp_is_whitespace(c) {
        Some(CharKind::Space)
    } else if c == '.' || c == ',' || c == ':' {
        Some(CharKind::SimplePunctuation)
    } else if c == '<' {
        Some(CharKind::StartsStringLiteral)
    } else if c == '>' {
        Some(CharKind::EndsStringLiteral)
    } else {
        None
    }
}

/// The scanner's state: between tokens, inside a word carrying the
/// characters read so far, or inside a string literal.
pub enum ScanState {
    ExpectingWordInitial,
    WordInternal(Seq<char>),
    StringLiteralInternal(Seq<char>),
}

/// Prepend freshly emitted words to the outcome of the rest of a scan.
pub open spec fn sp_emit(
    ws: Seq<Seq<char>>,
    r: Result<Seq<Seq<char>>, LexError>,
) -> Result<Seq<Seq<char>>, LexError> {
    match r {
        Ok(rest) => Ok(ws + rest),
        Err(e) => Err(e),
    }
}

/// The word segmenter: scan the characters `cs` starting in state `st`,
/// yielding the words, punctuation tokens and string literals emitted, or
/// the first lexical error. `at` is the index of `cs[0]` in the input, used
/// only to report error positions. A word still in progress when the
/// characters run out is not emitted.
pub open spec fn sp_scan(cs: Seq<char>, st: ScanState, at: int) -> Result<
    Seq<Seq<char>>,
    LexError,
>
    decreases cs.len(),
{
    if cs.len() == 0 {
        Ok(seq![])
    } else {
        let c = cs[0];
        let rest = cs.drop_first();
        match sp_classify(c) {
            Option::None => Err(LexError::UnknownCharacter { position: at as usize, character: c }),
            Option::Some(kind) => match st {
                ScanState::StringLiteralInternal(lit) => {
                    if kind == CharKind::EndsStringLiteral {
                        sp_emit(seq![lit.push(c)], sp_scan(rest, ScanState::ExpectingWordInitial, at + 1))
                    } else {
                        sp_scan(rest, ScanState::StringLiteralInternal(lit.push(c)), at + 1)
                    }
                },
                ScanState::ExpectingWordInitial => match kind {
                    CharKind::WordConstituent => sp_scan(rest, ScanState::WordInternal(seq![c]), at + 1),
                    CharKind::Space => sp_scan(rest, ScanState::ExpectingWordInitial, at + 1),
                    CharKind::SimplePunctuation => sp_emit(
                        seq![seq![c]],
                        sp_scan(rest, ScanState::ExpectingWordInitial, at + 1),
                    ),
                    CharKind::StartsStringLiteral => sp_scan(
                        rest,
                        ScanState::StringLiteralInternal(seq![c]),
                        at + 1,
                    ),
                    CharKind::EndsStringLiteral => Err(LexError::UnmatchedDelimiter { position: at as usize }),
                },
                ScanState::WordInternal(w) => match kind {
                    CharKind::WordConstituent => sp_scan(rest, ScanState::WordInternal(w.push(c)), at + 1),
                    CharKind::Space => sp_emit(
                        seq![w],
                        sp_scan(rest, ScanState::ExpectingWordInitial, at + 1),
                    ),
                    CharKind::SimplePunctuation => sp_emit(
                        seq![w, seq![c]],
                        sp_scan(rest, ScanState::ExpectingWordInitial, at + 1),
                    ),
                    CharKind::StartsStringLiteral => sp_emit(
                        seq![w],
                        sp_scan(rest, ScanState::StringLiteralInternal(seq![c]), at + 1),
                    ),
                    CharKind::EndsStringLiteral => Err(LexError::UnmatchedDelimiter { position: at as usize }),
                },
            },
        }
    }
}

/// What segmenting an input yields: the scan of its characters from the
/// initial state.
pub open spec fn sp_to_words(s: Seq<char>) -> Result<Seq<Seq<char>>, LexError> {
    sp_scan(s, ScanState::ExpectingWordInitial, 0)
}

/// Classify one character, rejecting anything outside the declared alphabet.
pub fn classify_char(c: char) -> (r: Option<CharKind>)
    ensures
        r == sp_classify(c),
{
    let u = c as u32;
    if (('a' as u32) <= u && u <= ('z' as u32)) || u == 0x3c6 || u == 0x3b2 || u == 0x436
        || (('0' as u32) <= u && u <= ('9' as u32)) || c == '\'' || c == '-' || c == '_' {
        Some(CharKind::WordConstituent)
    } else if (0x09 <= u && u <= 0x0d) || u == 0x20 || u == 0x85 || u == 0xa0 || u == 0x1680
        || (0x2000 <= u && u <= 0x200a) || u == 0x2028 || u == 0x2029 || u == 0x202f
        || u == 0x205f || u == 0x3000 {
        Some(CharKind::Space)
    } else if c == '.' || c == ',' || c == ':' {
        Some(CharKind::SimplePunctuation)
    } else if c == '<' {
        Some(CharKind::StartsStringLiteral)
    } else if c == '>' {
        Some(CharKind::EndsStringLiteral)
    } else {
        None
    }
}

/// The scanner's state with its accumulator kept separately in exec code.
#[derive(Clone, Copy, PartialEq, Eq, Structural)]
enum ScanMode {
    ExpectingWordInitial,
    WordInternal,
    StringLiteralInternal,
}

spec fn scan_view(m: ScanMode, partial: Seq<char>) -> ScanState {
    match m {
        ScanMode::ExpectingWordInitial => ScanState::ExpectingWordInitial,
        ScanMode::WordInternal => ScanState::WordInternal(partial),
        ScanMode::StringLiteralInternal => ScanState::StringLiteralInternal(partial),
    }
}

proof fn lemma_emit_emit(a: Seq<Seq<char>>, b: Seq<Seq<char>>, r: Result<Seq<Seq<char>>, LexError>)
    ensures
        sp_emit(a, sp_emit(b, r)) == sp_emit(a + b, r),
{
    match r {
        Ok(ws) => {
            assert(a + (b + ws) =~= (a + b) + ws);
        },
        Err(_) => {},
    }
}

/// Segment the input into raw words, standalone punctuation and whole string
/// literals, or report the first lexical error. A word still in progress at
/// the end of the input is dropped; the tokenizer pads its input with one
/// trailing space so that this never loses a word.
pub fn to_words(input: &str) -> (r: Result<Vec<String>, LexError>)
    ensures
        match sp_to_words(input@) {
            Ok(ws) => r matches Ok(v) && v.deep_view() == ws,
            Err(e) => r matches Err(e2) && e2 == e,
        },
{
    let n = input.unicode_len();
    let mut words: Vec<String> = Vec::new();
    let mut mode = ScanMode::ExpectingWordInitial;
    let mut partial = String::new();
    let mut i: usize = 0;
    proof {
        assert(input@.skip(0) =~= input@);
        assert(words.deep_view() =~= Seq::<Seq<char>>::empty());
        match sp_to_words(input@) {
            Ok(ws) => {
                assert(Seq::<Seq<char>>::empty() + ws =~= ws);
            },
            Err(_) => {},
        }
    }
    while i < n
        invariant
            i <= n,
            n == input@.len(),
            mode == ScanMode::ExpectingWordInitial ==> partial@ == Seq::<char>::empty(),
            sp_to_words(input@) == sp_emit(
                words.deep_view(),
                sp_scan(input@.skip(i as int), scan_view(mode, partial@), i as int),
            ),
        decreases n - i,
    {
        let ghost pre_words = words.deep_view();
        let ghost pre_state = scan_view(mode, partial@);
        let ghost suffix = input@.skip(i as int);
        let c = input.get_char(i);
        proof {
            assert(suffix[0] == input@[i as int]);
            assert(suffix.drop_first() =~= input@.skip(i as int + 1));
        }
        match classify_char(c) {
            Option::None => {
                return Err(LexError::UnknownCharacter { position: i, character: c });
            },
            Option::Some(kind) => {
                match (kind, mode) {
                    (CharKind::WordConstituent, ScanMode::ExpectingWordInitial) => {
                        partial.push(c);
                        mode = ScanMode::WordInternal;
                        proof {
                            assert(partial@ =~= seq![c]);
                        }
                    },
                    (CharKind::WordConstituent, ScanMode::WordInternal) => {
                        partial.push(c);
                    },
                    (CharKind::Space, ScanMode::ExpectingWordInitial) => {},
                    (CharKind::Space, ScanMode::WordInternal) => {
                        let ghost w = partial@;
                        words.push(partial);
                        partial = String::new();
                        mode = ScanMode::ExpectingWordInitial;
                        proof {
                            assert(words.deep_view() =~= pre_words + seq![w]);
                            lemma_emit_emit(
                                pre_words,
                                seq![w],
                                sp_scan(
                                    input@.skip(i as int + 1),
                                    ScanState::ExpectingWordInitial,
                                    i as int + 1,
                                ),
                            );
                        }
                    },
                    (CharKind::SimplePunctuation, ScanMode::ExpectingWordInitial) => {
                        let mut punct = String::new();
                        punct.push(c);
                        let ghost p = punct@;
                        words.push(punct);
                        proof {
                            assert(p =~= seq![c]);
                            assert(words.deep_view() =~= pre_words + seq![seq![c]]);
                            lemma_emit_emit(
                                pre_words,
                                seq![seq![c]],
                                sp_scan(
                                    input@.skip(i as int + 1),
                                    ScanState::ExpectingWordInitial,
                                    i as int + 1,
                                ),
                            );
                        }
                    },
                    (CharKind::SimplePunctuation, ScanMode::WordInternal) => {
                        let ghost w = partial@;
                        words.push(partial);
                        partial = String::new();
                        let mut punct = String::new();
                        punct.push(c);
                        let ghost p = punct@;
                        words.push(punct);
                        mode = ScanMode::ExpectingWordInitial;
                        proof {
                            assert(p =~= seq![c]);
                            assert(words.deep_view() =~= pre_words + seq![w, seq![c]]);
                            lemma_emit_emit(
                                pre_words,
                                seq![w, seq![c]],
                                sp_scan(
                                    input@.skip(i as int + 1),
                                    ScanState::ExpectingWordInitial,
                                    i as int + 1,
                                ),
                            );
                        }
                    },
                    (CharKind::StartsStringLiteral, ScanMode::ExpectingWordInitial) => {
                        partial.push(c);
                        mode = ScanMode::StringLiteralInternal;
                        proof {
                            assert(partial@ =~= seq![c]);
                        }
                    },
                    (CharKind::StartsStringLiteral, ScanMode::WordInternal) => {
                        let ghost w = partial@;
                        words.push(partial);
                        partial = String::new();
                        partial.push(c);
                        mode = ScanMode::StringLiteralInternal;
                        proof {
                            assert(partial@ =~= seq![c]);
                            assert(words.deep_view() =~= pre_words + seq![w]);
                            lemma_emit_emit(
                                pre_words,
                                seq![w],
                                sp_scan(
                                    input@.skip(i as int + 1),
                                    ScanState::StringLiteralInternal(seq![c]),
                                    i as int + 1,
                                ),
                            );
                        }
                    },
                    (CharKind::EndsStringLiteral, ScanMode::StringLiteralInternal) => {
                        partial.push(c);
                        let ghost w = partial@;
                        words.push(partial);
                        partial = String::new();
                        mode = ScanMode::ExpectingWordInitial;
                        proof {
                            assert(words.deep_view() =~= pre_words + seq![w]);
                            lemma_emit_emit(
                                pre_words,
                                seq![w],
                                sp_scan(
                                    input@.skip(i as int + 1),
                                    ScanState::ExpectingWordInitial,
                                    i as int + 1,
                                ),
                            );
                        }
                    },
                    (_, ScanMode::StringLiteralInternal) => {
                        partial.push(c);
                    },
                    (CharKind::EndsStringLiteral, _) => {
                        return Err(LexError::UnmatchedDelimiter { position: i });
                    },
                }
            },
        }
        i = i + 1;
    }
    proof {
        assert(input@.skip(n as int) =~= Seq::<char>::empty());
        assert(sp_scan(input@.skip(n as int), scan_view(mode, partial@), n as int) == Ok::<
            Seq<Seq<char>>,
            LexError,
        >(seq![]));
        assert(words.deep_view() + seq![] =~= words.deep_view());
    }
    Ok(words)
}

/// Whether the word `w` ends in the reserved ending `e` with a non-empty
/// stem left over.
pub open spec fn sp_matches(w: Seq<char>, e: Seq<char>) -> bool {
    w.len() > e.len() && w.skip(w.len() - e.len()) == e
}

/// The two tokens a matched word splits into: its stem and the ending.
pub open spec fn sp_parts(w: Seq<char>, e: Seq<char>) -> Seq<Seq<char>> {
    seq![w.take(w.len() - e.len()), e]
}

/// Split one reserved morphological ending off a word. The endings are tried
/// in a fixed order and the first that is a suffix of the word with a
/// non-empty stem wins; a word that is nothing but an ending, or has no
/// reserved ending, passes through whole.
pub open spec fn sp_split(w: Seq<char>) -> Seq<Seq<char>> {
    if sp_matches(w, "'d"@) {
        sp_parts(w, "'d"@)
    } else if sp_matches(w, "'c"@) {
        sp_parts(w, "'c"@)
    } else if sp_matches(w, "'st"@) {
        sp_parts(w, "'st"@)
    } else if sp_matches(w, "-il"@) {
        sp_parts(w, "-il"@)
    } else if sp_matches(w, "-o"@) {
        sp_parts(w, "-o"@)
    } else if sp_matches(w, "'i"@) {
        sp_parts(w, "'i"@)
    } else {
        seq![w]
    }
}

/// Suffix splitting applied to each word in turn, flattened.
pub open spec fn sp_split_all(ws: Seq<Seq<char>>) -> Seq<Seq<char>>
    decreases ws.len(),
{
    if ws.len() == 0 {
        seq![]
    } else {
        sp_split(ws[0]) + sp_split_all(ws.drop_first())
    }
}

/// What tokenizing an input yields at the surface level: the input, padded
/// with one trailing space so a final in-progress word is flushed, is
/// segmented into words, and each word has its reserved ending split off.
pub open spec fn sp_tokenize(s: Seq<char>) -> Result<Seq<Seq<char>>, LexError> {
    match sp_scan(s.push(' '), ScanState::ExpectingWordInitial, 0) {
        Ok(ws) => Ok(sp_split_all(ws)),
        Err(e) => Err(e),
    }
}

/// Whether some reserved ending is a proper suffix of `w`.
pub open spec fn sp_has_reserved_ending(w: Seq<char>) -> bool {
    sp_matches(w, "'d"@) || sp_matches(w, "'c"@) || sp_matches(w, "'st"@) || sp_matches(w, "-il"@)
        || sp_matches(w, "-o"@) || sp_matches(w, "'i"@)
}

/// The law of the splitter's shape: a word splits into at most two parts; a
/// word with no reserved proper suffix comes back whole; and when a word
/// does split, its stem is non-empty and strictly shorter than the word, so
/// splitting stems over and over must reach a word that no longer splits.
pub proof fn lemma_split_stem_shorter(w: Seq<char>)
    ensures
        sp_split(w).len() == 1 || sp_split(w).len() == 2,
        !sp_has_reserved_ending(w) ==> sp_split(w) == seq![w],
        sp_has_reserved_ending(w) ==> sp_split(w).len() == 2 && 0 < sp_split(w)[0].len()
            < w.len(),
{
    reveal_strlit("'d");
    reveal_strlit("'c");
    reveal_strlit("'st");
    reveal_strlit("-il");
    reveal_strlit("-o");
    reveal_strlit("'i");
}

/// The law of re-splitting: the splitter is idempotent on any stem that
/// does not itself end in a reserved ending — running it again on such a
/// stem returns the stem whole.
pub proof fn lemma_split_idempotent(w: Seq<char>)
    requires
        sp_split(w).len() == 2,
        !sp_has_reserved_ending(sp_split(w)[0]),
    ensures
        sp_split(sp_split(w)[0]) == seq![sp_split(w)[0]],
{
}

/// Whether `c` is one of the alphabetic letters: the lowercase Latin
/// letters and the three designated extra letters.
pub open spec fn sp_is_alpha(c: char) -> bool {
    let u = c as u32;
    (('a' as u32) <= u && u <= ('z' as u32)) || u == 0x3c6 || u == 0x3b2 || u == 0x436
}

/// Whether `w` is a non-empty word of alphabetic letters.
pub open spec fn sp_alpha_word(w: Seq<char>) -> bool {
    w.len() > 0 && forall|i: int| 0 <= i < w.len() ==> sp_is_alpha(#[trigger] w[i])
}

/// The words joined back into one input with single spaces between them.
pub open spec fn sp_join_spaces(ws: Seq<Seq<char>>) -> Seq<char>
    decreases ws.len(),
{
    if ws.len() == 0 {
        seq![]
    } else if ws.len() == 1 {
        ws[0]
    } else {
        ws[0] + seq![' '] + sp_join_spaces(ws.drop_first())
    }
}

/// A scanner state that can arise while scanning alphabetic words and
/// whitespace: never inside a string literal, and any partial word is
/// alphabetic.
spec fn alpha_scan_state(st: ScanState) -> bool {
    match st {
        ScanState::ExpectingWordInitial => true,
        ScanState::WordInternal(w) => sp_alpha_word(w),
        ScanState::StringLiteralInternal(_) => false,
    }
}

/// Scanning characters that are all alphabetic or whitespace never fails,
/// and every word it emits is a non-empty alphabetic word.
proof fn lemma_scan_alpha(cs: Seq<char>, st: ScanState, at: int)
    requires
        forall|i: int| 0 <= i < cs.len() ==> sp_is_alpha(#[trigger] cs[i]) || sp_is_whitespace(cs[i]),
        alpha_scan_state(st),
    ensures
        sp_scan(cs, st, at) is Ok,
        forall|j: int|
            0 <= j < sp_scan(cs, st, at)->Ok_0.len() ==> sp_alpha_word(
                #[trigger] sp_scan(cs, st, at)->Ok_0[j],
            ),
    decreases cs.len(),
{
    if cs.len() > 0 {
        let c = cs[0];
        let rest = cs.drop_first();
        assert(sp_is_alpha(c) || sp_is_whitespace(c));
        if sp_is_alpha(c) {
            match st {
                ScanState::ExpectingWordInitial => {
                    assert(sp_alpha_word(seq![c]));
                    lemma_scan_alpha(rest, ScanState::WordInternal(seq![c]), at + 1);
                },
                ScanState::WordInternal(w) => {
                    assert(sp_alpha_word(w.push(c)));
                    lemma_scan_alpha(rest, ScanState::WordInternal(w.push(c)), at + 1);
                },
                ScanState::StringLiteralInternal(_) => {},
            }
        } else {
            match st {
                ScanState::ExpectingWordInitial => {
                    lemma_scan_alpha(rest, ScanState::ExpectingWordInitial, at + 1);
                },
                ScanState::WordInternal(w) => {
                    lemma_scan_alpha(rest, ScanState::ExpectingWordInitial, at + 1);
                    let tail_ws = sp_scan(rest, ScanState::ExpectingWordInitial, at + 1)->Ok_0;
                    let ws = sp_scan(cs, st, at)->Ok_0;
                    assert(ws =~= seq![w] + tail_ws);
                    assert forall|j: int| 0 <= j < ws.len() implies sp_alpha_word(
                        #[trigger] ws[j],
                    ) by {
                        if j > 0 {
                            assert(sp_alpha_word(tail_ws[j - 1]));
                        }
                    }
                },
                ScanState::StringLiteralInternal(_) => {},
            }
        }
    }
}

/// Scanning the characters of an alphabetic word from inside a word simply
/// appends them all to the partial word.
proof fn lemma_scan_word_chars(w: Seq<char>, rest: Seq<char>, acc: Seq<char>, at: int)
    requires
        forall|i: int| 0 <= i < w.len() ==> sp_is_alpha(#[trigger] w[i]),
    ensures
        sp_scan(w + rest, ScanState::WordInternal(acc), at) == sp_scan(
            rest,
            ScanState::WordInternal(acc + w),
            at + w.len(),
        ),
    decreases w.len(),
{
    if w.len() == 0 {
        assert(w + rest =~= rest);
        assert(acc + w =~= acc);
    } else {
        let c = w[0];
        assert((w + rest)[0] == c);
        assert((w + rest).drop_first() =~= w.drop_first() + rest);
        lemma_scan_word_chars(w.drop_first(), rest, acc.push(c), at + 1);
        assert(acc.push(c) + w.drop_first() =~= acc + w);
    }
}

/// Scanning the single-space join of non-empty alphabetic words, padded
/// with one trailing space, yields exactly those words.
proof fn lemma_scan_join(ws: Seq<Seq<char>>, at: int)
    requires
        forall|j: int| 0 <= j < ws.len() ==> sp_alpha_word(#[trigger] ws[j]),
    ensures
        sp_scan(sp_join_spaces(ws) + seq![' '], ScanState::ExpectingWordInitial, at) == Ok::<
            Seq<Seq<char>>,
            LexError,
        >(ws),
    decreases ws.len(),
{
    reveal_with_fuel(sp_scan, 3);
    if ws.len() == 0 {
        let full = sp_join_spaces(ws) + seq![' '];
        assert(full =~= seq![' ']);
        assert(full.drop_first() =~= Seq::<char>::empty());
        assert(ws =~= Seq::<Seq<char>>::empty());
    } else {
        let w = ws[0];
        assert(sp_alpha_word(w));
        if ws.len() == 1 {
            let full = sp_join_spaces(ws) + seq![' '];
            assert(full =~= w + seq![' ']);
            assert(full[0] == w[0]);
            assert(sp_is_alpha(w[0]));
            assert(full.drop_first() =~= w.drop_first() + seq![' ']);
            lemma_scan_word_chars(w.drop_first(), seq![' '], seq![w[0]], at + 1);
            assert(seq![w[0]] + w.drop_first() =~= w);
            assert(seq![' '].drop_first() =~= Seq::<char>::empty());
            assert(seq![w] + seq![] =~= ws);
        } else {
            let rest_ws = ws.drop_first();
            let tail = sp_join_spaces(rest_ws) + seq![' '];
            let full = sp_join_spaces(ws) + seq![' '];
            assert(full =~= w + (seq![' '] + tail));
            assert(full[0] == w[0]);
            assert(sp_is_alpha(w[0]));
            assert(full.drop_first() =~= w.drop_first() + (seq![' '] + tail));
            lemma_scan_word_chars(w.drop_first(), seq![' '] + tail, seq![w[0]], at + 1);
            assert(seq![w[0]] + w.drop_first() =~= w);
            assert((seq![' '] + tail)[0] == ' ');
            assert((seq![' '] + tail).drop_first() =~= tail);
            lemma_scan_join(rest_ws, at + w.len() + 1);
            assert(seq![w] + rest_ws =~= ws);
        }
    }
}

/// Splitting leaves a non-empty alphabetic word whole: every reserved
/// ending contains an apostrophe or a hyphen, which no alphabetic word
/// holds.
proof fn lemma_split_alpha(w: Seq<char>)
    requires
        sp_alpha_word(w),
    ensures
        sp_split(w) == seq![w],
{
    reveal_strlit("'d");
    reveal_strlit("'c");
    reveal_strlit("'st");
    reveal_strlit("-il");
    reveal_strlit("-o");
    reveal_strlit("'i");
    if sp_matches(w, "'d"@) {
        assert(w.skip(w.len() - 2)[0] == w[w.len() - 2]);
    }
    if sp_matches(w, "'c"@) {
        assert(w.skip(w.len() - 2)[0] == w[w.len() - 2]);
    }
    if sp_matches(w, "'st"@) {
        assert(w.skip(w.len() - 3)[0] == w[w.len() - 3]);
    }
    if sp_matches(w, "-il"@) {
        assert(w.skip(w.len() - 3)[0] == w[w.len() - 3]);
    }
    if sp_matches(w, "-o"@) {
        assert(w.skip(w.len() - 2)[0] == w[w.len() - 2]);
    }
    if sp_matches(w, "'i"@) {
        assert(w.skip(w.len() - 2)[0] == w[w.len() - 2]);
    }
}

/// Splitting leaves a sequence of non-empty alphabetic words unchanged.
proof fn lemma_split_all_alpha(ws: Seq<Seq<char>>)
    requires
        forall|j: int| 0 <= j < ws.len() ==> sp_alpha_word(#[trigger] ws[j]),
    ensures
        sp_split_all(ws) == ws,
    decreases ws.len(),
{
    if ws.len() > 0 {
        lemma_split_alpha(ws[0]);
        lemma_split_all_alpha(ws.drop_first());
        assert(seq![ws[0]] + ws.drop_first() =~= ws);
    }
}

/// The round-trip law: on an input made of nothing but alphabetic words
/// separated by whitespace, tokenizing succeeds, and re-joining the tokens
/// with single spaces gives a normalized input that tokenizes to exactly
/// the same tokens.
pub proof fn lemma_tokenize_round_trip(s: Seq<char>)
    requires
        forall|i: int| 0 <= i < s.len() ==> sp_is_alpha(#[trigger] s[i]) || sp_is_whitespace(s[i]),
    ensures
        sp_tokenize(s) is Ok,
        sp_tokenize(sp_join_spaces(sp_tokenize(s)->Ok_0)) == sp_tokenize(s),
{
    let padded = s.push(' ');
    assert(forall|i: int|
        0 <= i < padded.len() ==> sp_is_alpha(#[trigger] padded[i]) || sp_is_whitespace(
            padded[i],
        ));
    lemma_scan_alpha(padded, ScanState::ExpectingWordInitial, 0);
    let ws = sp_scan(padded, ScanState::ExpectingWordInitial, 0)->Ok_0;
    lemma_split_all_alpha(ws);
    let j = sp_join_spaces(ws);
    lemma_scan_join(ws, 0);
    assert(j.push(' ') =~= j + seq![' ']);
    assert(sp_scan(j.push(' '), ScanState::ExpectingWordInitial, 0) == Ok::<
        Seq<Seq<char>>,
        LexError,
    >(ws));
}

/// Whether `w` ends in `e` with a non-empty stem left over.
fn has_proper_suffix(w: &str, e: &str) -> (r: bool)
    ensures
        r == sp_matches(w@, e@),
{
    let n = w.unicode_len();
    let m = e.unicode_len();
    if n <= m {
        return false;
    }
    let mut j: usize = 0;
    while j < m
        invariant
            j <= m,
            m < n,
            n == w@.len(),
            m == e@.len(),
            forall|k: int| 0 <= k < j ==> w@[n - m + k] == e@[k],
        decreases m - j,
    {
        if w.get_char(n - m + j) != e.get_char(j) {
            proof {
                assert(w@.skip(n as int - m as int)[j as int] != e@[j as int]);
            }
            return false;
        }
        j = j + 1;
    }
    proof {
        assert(w@.skip(n as int - m as int) =~= e@);
    }
    true
}

/// The stem and the ending of a word that matched a reserved ending.
fn split_parts(w: &str, e: &str) -> (r: Vec<String>)
    requires
        sp_matches(w@, e@),
    ensures
        r.deep_view() == sp_parts(w@, e@),
{
    let n = w.unicode_len();
    let m = e.unicode_len();
    let stem = w.substring_char(0, n - m);
    let r: Vec<String> = vec![String::from_str(stem), String::from_str(e)];
    proof {
        assert(w@.subrange(0, n as int - m as int) =~= w@.take(w@.len() - e@.len()));
        assert(r.deep_view() =~= sp_parts(w@, e@));
    }
    r
}

/// Split a reserved ending off one raw word, first match in table order
/// winning; a word whose stem would be empty, and a word with no reserved
/// ending, come back whole.
pub fn split_off_reserved(pre_token: &str) -> (r: Vec<String>)
    ensures
        r.deep_view() == sp_split(pre_token@),
{
    if has_proper_suffix(pre_token, "'d") {
        split_parts(pre_token, "'d")
    } else if has_proper_suffix(pre_token, "'c") {
        split_parts(pre_token, "'c")
    } else if has_proper_suffix(pre_token, "'st") {
        split_parts(pre_token, "'st")
    } else if has_proper_suffix(pre_token, "-il") {
        split_parts(pre_token, "-il")
    } else if has_proper_suffix(pre_token, "-o") {
        split_parts(pre_token, "-o")
    } else if has_proper_suffix(pre_token, "'i") {
        split_parts(pre_token, "'i")
    } else {
        let r: Vec<String> = vec![String::from_str(pre_token)];
        proof {
            assert(r.deep_view() =~= seq![pre_token@]);
        }
        r
    }
}

/// Tokenize the input at the surface level: segment it into raw words,
/// punctuation and string literals, then split reserved endings off the
/// words. The first character outside the alphabet, or an unmatched closing
/// delimiter, is reported as a `LexError`.
pub fn tokenize(input: &str) -> (r: Result<Vec<String>, LexError>)
    ensures
        match sp_tokenize(input@) {
            Ok(ws) => r matches Ok(v) && v.deep_view() == ws,
            Err(e) => r matches Err(e2) && e2 == e,
        },
{
    let mut padded = String::from_str(input);
    padded.append(" ");
    proof {
        reveal_strlit(" ");
        assert(padded@ =~= input@.push(' '));
    }
    let words = match to_words(padded.as_str()) {
        Ok(w) => w,
        Err(e) => {
            return Err(e);
        },
    };
    let ghost ws = words.deep_view();
    let mut result: Vec<String> = Vec::new();
    let mut i: usize = 0;
    proof {
        assert(ws.skip(0) =~= ws);
        assert(result.deep_view() =~= Seq::<Seq<char>>::empty());
        assert(Seq::<Seq<char>>::empty() + sp_split_all(ws) =~= sp_split_all(ws));
    }
    while i < words.len()
        invariant
            i <= words.len(),
            ws == words.deep_view(),
            sp_split_all(ws) == result.deep_view() + sp_split_all(ws.skip(i as int)),
        decreases words.len() - i,
    {
        let ghost pre = result.deep_view();
        let mut parts = split_off_reserved(words[i].as_str());
        let ghost parts_v = parts.deep_view();
        result.append(&mut parts);
        proof {
            assert(ws.skip(i as int)[0] == ws[i as int]);
            assert(ws.skip(i as int).drop_first() =~= ws.skip(i as int + 1));
            assert(result.deep_view() =~= pre + parts_v);
            assert(pre + (parts_v + sp_split_all(ws.skip(i as int + 1))) =~= (pre + parts_v)
                + sp_split_all(ws.skip(i as int + 1)));
        }
        i = i + 1;
    }
    proof {
        assert(ws.skip(words.len() as int) =~= Seq::<Seq<char>>::empty());
        assert(result.deep_view() + seq![] =~= result.deep_view());
    }
    Ok(result)
}

} // verus!
