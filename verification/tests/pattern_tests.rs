use croniters::pattern::{captures, HashKind};
use regex::Regex;

/// The grammar of hashed fields as a regular expression.
fn hash_pattern() -> Regex {
    Regex::new(
        r"^(?P<hash_type>[HhRr])\((?P<range_begin>\d+)-(?P<range_end>\d+)\)(?:/(?P<divisor>\d+))?$|^(?P<hash_type2>[HhRr])(?:/(?P<divisor2>\d+))?$",
    )
    .unwrap()
}

#[test]
fn captures_reads_a_bare_letter() {
    for (text, letter, kind) in [
        ("H", 'H', HashKind::Hash),
        ("h", 'h', HashKind::Hash),
        ("R", 'R', HashKind::Random),
        ("r", 'r', HashKind::Random),
    ] {
        let found = captures(text).unwrap();
        assert_eq!(found.hash_type, letter);
        assert_eq!(found.kind(), kind);
        assert_eq!(found.range, None);
        assert_eq!(found.divisor, None);
    }
}

#[test]
fn captures_reads_a_range() {
    let found = captures("H(0-59)").unwrap();
    assert_eq!(found.hash_type, 'H');
    assert_eq!(found.range, Some(("0", "59")));
    assert_eq!(found.divisor, None);
}

#[test]
fn captures_reads_a_divisor() {
    let found = captures("r/15").unwrap();
    assert_eq!(found.hash_type, 'r');
    assert_eq!(found.range, None);
    assert_eq!(found.divisor, Some("15"));
}

#[test]
fn captures_reads_a_range_and_a_divisor() {
    let found = captures("h(007-0059)/015").unwrap();
    assert_eq!(found.hash_type, 'h');
    assert_eq!(found.range, Some(("007", "0059")));
    assert_eq!(found.divisor, Some("015"));
}

#[test]
fn captures_keeps_numerals_of_any_length() {
    let found = captures("R(99999999999999999999-1)/99999999999999999999").unwrap();
    assert_eq!(found.range, Some(("99999999999999999999", "1")));
    assert_eq!(found.divisor, Some("99999999999999999999"));
}

#[test]
fn captures_refuses_other_text() {
    for text in [
        "", "*", "5", "1-5", "*/5", "H ", " H", "HH", "Hh", "X", "H(", "H()", "H(-)", "H(1-)", "H(-5)",
        "H(1-5", "H(1-5))", "H(1-5)/", "H(1-5)/x", "H/", "H/ 5", "H/5 ", "H/-5", "H(1--5)",
        "H(1-5)5", "H(1-5)(2-3)", "H/5/5", "H(a-b)", "H(1,5)", "H(1-5)/5x", "/5", "(1-5)", "H\n",
        "H(1-5)\n", "H/5\n", "\u{0125}", "H(\u{0661}-\u{0665})", "H/\u{0665}", "H\u{00e9}",
    ] {
        assert!(captures(text).is_none(), "{:?}", text);
    }
}

fn build(alphabet: &[char], length: usize, prefix: &mut String, out: &mut Vec<String>) {
    out.push(prefix.clone());
    if length == 0 {
        return;
    }
    for c in alphabet {
        prefix.push(*c);
        build(alphabet, length - 1, prefix, out);
        prefix.pop();
    }
}

#[test]
fn captures_agrees_with_the_pattern_on_short_text() {
    let pattern = hash_pattern();
    let alphabet = ['H', 'r', '(', ')', '-', '/', '0', '7', '*'];
    let mut texts = Vec::new();
    build(&alphabet, 6, &mut String::new(), &mut texts);
    let mut hashed: usize = 0;
    for text in &texts {
        let found = captures(text);
        assert_eq!(found.is_some(), pattern.is_match(text), "{:?}", text);
        if let Some(found) = found {
            hashed += 1;
            let groups = pattern.captures(text).unwrap();
            let letter = groups.name("hash_type").or_else(|| groups.name("hash_type2")).unwrap();
            assert_eq!(found.hash_type.to_string(), letter.as_str());
            let begin = groups.name("range_begin").map(|m| m.as_str());
            let end = groups.name("range_end").map(|m| m.as_str());
            assert_eq!(found.range.map(|r| r.0), begin);
            assert_eq!(found.range.map(|r| r.1), end);
            let divisor = groups.name("divisor").or_else(|| groups.name("divisor2"));
            assert_eq!(found.divisor, divisor.map(|m| m.as_str()));
        }
    }
    assert!(hashed > 50);
}

#[test]
fn captures_agrees_with_the_pattern_on_longer_fields() {
    let pattern = hash_pattern();
    let letters = ["H", "h", "R", "r", "X", ""];
    let numbers = ["0", "5", "59", "007", "2147483647", "2147483648", "", "x", "1 "];
    for letter in letters {
        for begin in numbers {
            for end in numbers {
                for divisor in numbers {
                    for text in [
                        format!("{}({}-{})/{}", letter, begin, end, divisor),
                        format!("{}({}-{})", letter, begin, end),
                        format!("{}/{}", letter, divisor),
                        format!("{}({}-{}/{}", letter, begin, end, divisor),
                        format!("{}({}{})/{}", letter, begin, end, divisor),
                    ] {
                        assert_eq!(captures(&text).is_some(), pattern.is_match(&text), "{:?}", text);
                    }
                }
            }
        }
    }
}
