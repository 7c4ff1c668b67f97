use conlang_parser::tokenize::{split_off_reserved, to_words, tokenize, LexError};

#[test]
fn simplest() {
    assert_eq!(
        tokenize("selsurle es iu.").unwrap(),
        vec!["selsurle", "es", "iu", "."]
    );
}

#[test]
fn number() {
    assert_eq!(
        tokenize("laozia jerldir lerj 10 ad 10 el 168 ad 218.").unwrap(),
        vec!["laozia", "jerldir", "lerj", "10", "ad", "10", "el", "168", "ad", "218", "."]
    );
}

#[test]
fn case_ending() {
    assert_eq!(
        tokenize("kernumesaxm'st sides-il io elx shrlo is selsurle iu'c.").unwrap(),
        vec![
            "kernumesaxm",
            "'st",
            "sides",
            "-il",
            "io",
            "elx",
            "shrlo",
            "is",
            "selsurle",
            "iu",
            "'c",
            "."
        ]
    );
}

#[test]
fn space_string_literal_nospace() {
    assert_eq!(
        tokenize("is jerldir'd xakant <selsurle>'c.").unwrap(),
        vec!["is", "jerldir", "'d", "xakant", "<selsurle>", "'c", "."]
    );
}

#[test]
fn nospace_string_literal_nospace() {
    assert_eq!(
        tokenize("is jerldir'd xakant<selsurle>'c.").unwrap(),
        vec!["is", "jerldir", "'d", "xakant", "<selsurle>", "'c", "."]
    );
}

#[test]
fn nospace_string_literal_space() {
    assert_eq!(
        tokenize("is jerldir'd xakant<selsurle> 'c.").unwrap(),
        vec!["is", "jerldir", "'d", "xakant", "<selsurle>", "'c", "."]
    );
}

#[test]
fn space_string_literal_space() {
    assert_eq!(
        tokenize("is jerldir'd xakant <selsurle> 'c.").unwrap(),
        vec!["is", "jerldir", "'d", "xakant", "<selsurle>", "'c", "."]
    );
}

#[test]
fn selsurle() {
    let text = "lus jmk4'd jerldir adit kernumesaxm, deln.\n\
                selsurle es iu.\n\
                laozia jerldir lerj 10 ad 10 el 168 ad 218.\n\
                is jerldir'd xakant <selsurle>'c.\n\
                kernumesaxm'st text-il io elx shrlo lexisnain jerldir fal kernumesaxm'd snelyo \
                mea xerfo es 1 ad 1 mal dejix es deln melx shrlo is selsurle iulo'c.\n\
                kernumesaxm'st sides-il io elx shrlo is selsurle iu'c.\n\
                nert ad ektir'st es_tydivexy-o : ektir mol cecioj 4 ad 204 mal nert mol cecioj \
                24 ad 154.\n\
                kernumesaxm'st fudiur-il io selsurle mol mal kernumesaxm'd pestavilersnelyo \
                es_tydivexy mal kernumesaxm'd snelyo es_tydivexy felx shrlo xes jerldir lerj \
                kernumesaxm'd pestavilersnelyo el kernumesaxm'd snelyo mea dejix es deln.\n";
    assert_eq!(
        tokenize(text).unwrap(),
        vec![
            "lus",
            "jmk4",
            "'d",
            "jerldir",
            "adit",
            "kernumesaxm",
            ",",
            "deln",
            ".",
            "selsurle",
            "es",
            "iu",
            ".",
            "laozia",
            "jerldir",
            "lerj",
            "10",
            "ad",
            "10",
            "el",
            "168",
            "ad",
            "218",
            ".",
            "is",
            "jerldir",
            "'d",
            "xakant",
            "<selsurle>",
            "'c",
            ".",
            "kernumesaxm",
            "'st",
            "text",
            "-il",
            "io",
            "elx",
            "shrlo",
            "lexisnain",
            "jerldir",
            "fal",
            "kernumesaxm",
            "'d",
            "snelyo",
            "mea",
            "xerfo",
            "es",
            "1",
            "ad",
            "1",
            "mal",
            "dejix",
            "es",
            "deln",
            "melx",
            "shrlo",
            "is",
            "selsurle",
            "iulo",
            "'c",
            ".",
            "kernumesaxm",
            "'st",
            "sides",
            "-il",
            "io",
            "elx",
            "shrlo",
            "is",
            "selsurle",
            "iu",
            "'c",
            ".",
            "nert",
            "ad",
            "ektir",
            "'st",
            "es_tydivexy",
            "-o",
            ":",
            "ektir",
            "mol",
            "cecioj",
            "4",
            "ad",
            "204",
            "mal",
            "nert",
            "mol",
            "cecioj",
            "24",
            "ad",
            "154",
            ".",
            "kernumesaxm",
            "'st",
            "fudiur",
            "-il",
            "io",
            "selsurle",
            "mol",
            "mal",
            "kernumesaxm",
            "'d",
            "pestavilersnelyo",
            "es_tydivexy",
            "mal",
            "kernumesaxm",
            "'d",
            "snelyo",
            "es_tydivexy",
            "felx",
            "shrlo",
            "xes",
            "jerldir",
            "lerj",
            "kernumesaxm",
            "'d",
            "pestavilersnelyo",
            "el",
            "kernumesaxm",
            "'d",
            "snelyo",
            "mea",
            "dejix",
            "es",
            "deln",
            "."
        ]
    );
}

#[test]
fn case_markers_split_off() {
    assert_eq!(
        tokenize("kernumesaxm'st sides-il io").unwrap(),
        vec!["kernumesaxm", "'st", "sides", "-il", "io"]
    );
}

#[test]
fn literal_abutting_words_tokenizes_like_spaced() {
    let tight = tokenize("xakant<selsurle>'c.").unwrap();
    assert_eq!(tight, vec!["xakant", "<selsurle>", "'c", "."]);
    let spaced = tokenize("xakant <selsurle> 'c .").unwrap();
    assert_eq!(tight, spaced);
}

#[test]
fn unknown_character_is_reported() {
    assert_eq!(
        tokenize("@"),
        Err(LexError::UnknownCharacter {
            position: 0,
            character: '@'
        })
    );
    assert_eq!(
        tokenize("ab cd@"),
        Err(LexError::UnknownCharacter {
            position: 5,
            character: '@'
        })
    );
}

#[test]
fn unmatched_delimiter_is_reported() {
    assert_eq!(
        tokenize("ab>cd"),
        Err(LexError::UnmatchedDelimiter { position: 2 })
    );
    assert_eq!(
        tokenize(">"),
        Err(LexError::UnmatchedDelimiter { position: 0 })
    );
}

#[test]
fn unterminated_literal_is_dropped() {
    assert_eq!(tokenize("abc <def").unwrap(), vec!["abc"]);
}

#[test]
fn to_words_drops_word_in_progress() {
    // `to_words` scans exactly the characters given; only `tokenize` pads
    // the input with a trailing space, so a final in-progress word is kept
    // there but dropped here.
    assert_eq!(to_words("abc def").unwrap(), vec!["abc"]);
    assert_eq!(tokenize("abc def").unwrap(), vec!["abc", "def"]);
}

#[test]
fn split_takes_first_matching_ending() {
    assert_eq!(split_off_reserved("xakant'd"), vec!["xakant", "'d"]);
    assert_eq!(split_off_reserved("sides-il"), vec!["sides", "-il"]);
    assert_eq!(split_off_reserved("es_tydivexy-o"), vec!["es_tydivexy", "-o"]);
    assert_eq!(split_off_reserved("kernumesaxm'st"), vec!["kernumesaxm", "'st"]);
    assert_eq!(split_off_reserved("iu'c"), vec!["iu", "'c"]);
    assert_eq!(split_off_reserved("nelvilersnelyo'i"), vec!["nelvilersnelyo", "'i"]);
}

#[test]
fn split_keeps_bare_endings_whole() {
    assert_eq!(split_off_reserved("'d"), vec!["'d"]);
    assert_eq!(split_off_reserved("-o"), vec!["-o"]);
    assert_eq!(split_off_reserved("'i"), vec!["'i"]);
    assert_eq!(split_off_reserved("xakant"), vec!["xakant"]);
    assert_eq!(split_off_reserved(""), vec![""]);
}

#[test]
fn resplitting_stems_terminates() {
    // Splitting a stem again either returns it whole or strictly shortens
    // it, so iterated splitting always reaches a fixed point.
    for word in ["xakant'd", "x'd'd", "sides-il", "'st", "a-o-o", "iu'c"] {
        let mut current = word.to_string();
        let mut steps = 0;
        loop {
            let parts = split_off_reserved(&current);
            assert!(parts.len() == 1 || parts.len() == 2);
            if parts.len() == 1 {
                assert_eq!(parts[0], current);
                break;
            }
            assert!(parts[0].len() < current.len());
            assert!(!parts[0].is_empty());
            current = parts[0].clone();
            steps += 1;
            assert!(steps <= word.len());
        }
    }
}

#[test]
fn resplitting_a_clean_stem_changes_nothing() {
    let parts = split_off_reserved("xakant'd");
    assert_eq!(parts, vec!["xakant", "'d"]);
    assert_eq!(split_off_reserved(&parts[0]), vec!["xakant"]);
}

#[test]
fn alphabetic_words_round_trip() {
    let input = "foo   bar\nbaz";
    let words = tokenize(input).unwrap();
    assert_eq!(words, vec!["foo", "bar", "baz"]);
    let rejoined = words.join(" ");
    assert_eq!(rejoined, "foo bar baz");
    assert_eq!(tokenize(&rejoined).unwrap(), words);
}
