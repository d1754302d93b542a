use croniters::get_croniters_version;
use croniters::text::{replace_all, str_eq};
use croniters::utils::{is_32bit, is_leap};

#[test]
fn leap_years_follow_the_gregorian_rule() {
    for year in [1600, 2000, 2400, 1996, 2004, 2024, 2096, 4, 0, -4, -400, i32::MIN] {
        assert!(is_leap(year), "{}", year);
    }
    for year in [1700, 1800, 1900, 2100, 2200, 1999, 2001, 2023, 1, -1, -100, -399, i32::MAX] {
        assert!(!is_leap(year), "{}", year);
    }
}

#[test]
fn leap_years_come_97_times_in_400_years() {
    let mut count = 0;
    for year in 1970..2370 {
        if is_leap(year) {
            count += 1;
        }
        assert_eq!(is_leap(year), year % 400 == 0 || (year % 4 == 0 && year % 100 != 0));
        assert_eq!(is_leap(year), is_leap(year + 400));
        assert_eq!(is_leap(-year), is_leap(year));
    }
    assert_eq!(count, 97);
}

#[test]
fn word_size_is_that_of_usize() {
    assert_eq!(is_32bit(), std::mem::size_of::<usize>() == 4);
    assert_eq!(is_32bit(), usize::MAX as u128 == 0xFFFF_FFFF);
}

#[test]
fn str_eq_compares_characters() {
    assert!(str_eq("", ""));
    assert!(str_eq("unix", "unix"));
    assert!(str_eq("d\u{00e9}c", "d\u{00e9}c"));
    assert!(!str_eq("unix", "unix "));
    assert!(!str_eq("unix", "unit"));
    assert!(!str_eq("unix", "Unix"));
    assert!(!str_eq("", "a"));
    assert!(!str_eq("\u{00e9}", "e"));
}

#[test]
fn replace_all_replaces_each_occurrence() {
    assert_eq!(replace_all("1.0.0-alpha1", "-alpha", "a"), "1.0.0a1");
    assert_eq!(replace_all("aaaa", "aa", "b"), "bb");
    assert_eq!(replace_all("aaa", "aa", "b"), "ba");
    assert_eq!(replace_all("abcabc", "bc", ""), "aa");
    assert_eq!(replace_all("abc", "abcd", "x"), "abc");
    assert_eq!(replace_all("", "a", "x"), "");
    assert_eq!(replace_all("a-b-c", "-", "--"), "a--b--c");
    assert_eq!(replace_all("\u{00e9}t\u{00e9}", "\u{00e9}", "e"), "ete");
}

#[test]
fn replace_all_agrees_with_std() {
    let texts = ["", "a", "ab", "aab", "abab", "-alpha-alpha", "x-alph-alpha", "--beta-", "\u{00e9}a\u{00e9}", "aaaaa"];
    let patterns = ["a", "ab", "aa", "-alpha", "-", "\u{00e9}", "b", "aba"];
    let replacements = ["", "a", "xy", "\u{00e9}"];
    for text in texts {
        for pattern in patterns {
            for replacement in replacements {
                assert_eq!(replace_all(text, pattern, replacement), text.replace(pattern, replacement));
            }
        }
    }
}

#[test]
fn version_is_written_as_python_does() {
    assert_eq!(get_croniters_version("1.2.3"), "1.2.3");
    assert_eq!(get_croniters_version("1.0.0-alpha1"), "1.0.0a1");
    assert_eq!(get_croniters_version("1.0.0-beta2"), "1.0.0b2");
    assert_eq!(get_croniters_version("0.3.0-alpha.1"), "0.3.0a.1");
    assert_eq!(get_croniters_version("2.0.0-rc1"), "2.0.0-rc1");
    assert_eq!(get_croniters_version("1.0.0-alpha-beta"), "1.0.0ab");
    assert_eq!(get_croniters_version(""), "");
    for version in ["1.0.0-alpha1", "1.0.0-beta", "3.4.5", "0.1.0-alph-alpha-bet-beta"] {
        assert_eq!(get_croniters_version(version), version.replace("-alpha", "a").replace("-beta", "b"));
    }
}
