use gitter::repo::Repository;
use gitter::text::{ascii_alnum, word_char};
use regex::Regex;

fn agrees_with_pattern(re: &Regex, input: &str) {
    let parsed = Repository::new(input);
    match re.captures(input) {
        Some(groups) => {
            let repo = parsed.unwrap();
            assert_eq!(repo.user(), &groups[1], "{:?}", input);
            assert_eq!(repo.repo(), &groups[2], "{:?}", input);
        }
        None => assert!(parsed.is_err(), "{:?}", input),
    }
}

#[test]
fn identifiers_are_those_of_the_pattern() {
    let re = Regex::new(r"^([A-Za-z0-9](?:[A-Za-z0-9-]*[A-Za-z0-9])?)/([\w.-]+)$").unwrap();
    let parts = ["", "a", "-", "_", ".", "/", "ab", "a-b", "-a", "a-", "a_b", "a.b", "\u{e4}", "\u{2603}", " ", "\n", "0", "Z9"];
    for owner in parts {
        for name in parts {
            agrees_with_pattern(&re, &format!("{}/{}", owner, name));
            agrees_with_pattern(&re, &format!("{}{}", owner, name));
            agrees_with_pattern(&re, &format!("{}/{}/{}", owner, name, owner));
        }
    }
}

#[test]
fn word_characters_are_those_of_the_pattern() {
    let re = Regex::new(r"^\w$").unwrap();
    let mut c = '\0';
    loop {
        assert_eq!(word_char(c), re.is_match(&c.to_string()), "{:?}", c);
        if c >= '\u{3000}' {
            break;
        }
        c = char::from_u32(c as u32 + 1).unwrap();
    }
    for c in ['\u{11011}', '\u{1B1B1}', '\u{1F600}', '\u{10FFFF}'] {
        assert_eq!(word_char(c), re.is_match(&c.to_string()), "{:?}", c);
    }
}

#[test]
fn word_characters_below_u0080() {
    for b in 0u8..0x80 {
        let c = b as char;
        assert_eq!(word_char(c), c.is_ascii_alphanumeric() || c == '_', "{:?}", c);
        assert_eq!(ascii_alnum(c), c.is_ascii_alphanumeric(), "{:?}", c);
    }
    assert!(word_char('\u{e0}'));
    assert!(!word_char('\u{2603}'));
    assert!(!ascii_alnum('\u{e0}'));
}
