//! The grammar of hashed fields: a kind letter, an optional range in round brackets and an
//! optional divisor after a slash.

use crate::decimal::{is_digit, is_number, DIGIT_NINE, DIGIT_ZERO};
use vstd::prelude::*;
use vstd::string::*;
use vstd::utf8::is_ascii_chars;

verus! {

const UPPER_H: u8 = 0x48;

const LOWER_H: u8 = 0x68;

const UPPER_R: u8 = 0x52;

const LOWER_R: u8 = 0x72;

const OPEN: u8 = 0x28;

const CLOSE: u8 = 0x29;

const DASH: u8 = 0x2d;

const SLASH: u8 = 0x2f;

/// How the value of a hashed field is drawn.
#[derive(Clone, Copy, Debug, PartialEq, Eq, Structural)]
pub enum HashKind {
    /// From the checksum of the caller's identity: the same identity gives the same value.
    Hash,
    /// From a random source: each expansion draws anew.
    Random,
}

/// The letters that open a hashed field.
pub open spec fn is_kind_letter(c: char) -> bool {
    c == 'H' || c == 'h' || c == 'R' || c == 'r'
}

/// The kind that a letter stands for, in either case.
pub open spec fn kind_of_letter(c: char) -> HashKind {
    if c == 'R' || c == 'r' {
        HashKind::Random
    } else {
        HashKind::Hash
    }
}

/// The parts of a hashed field, each as it is written.
pub struct HashSyntax {
    /// The kind letter, in the case in which it is written.
    pub letter: char,
    /// The numerals of the first and the last value of the range.
    pub range: Option<(Seq<char>, Seq<char>)>,
    /// The numeral of the divisor.
    pub divisor: Option<Seq<char>>,
}

/// A range as it is written: `(begin-end)`, or nothing.
pub open spec fn range_text(range: Option<(Seq<char>, Seq<char>)>) -> Seq<char> {
    match range {
        Some((begin, end)) => seq!['('] + begin + seq!['-'] + end + seq![')'],
        None => Seq::empty(),
    }
}

/// A divisor as it is written: `/n`, or nothing.
pub open spec fn divisor_text(divisor: Option<Seq<char>>) -> Seq<char> {
    match divisor {
        Some(n) => seq!['/'] + n,
        None => Seq::empty(),
    }
}

impl HashSyntax {
    /// The letter is one of the four, and each number present is a numeral.
    pub open spec fn wf(self) -> bool {
        &&& is_kind_letter(self.letter)
        &&& self.range matches Some((begin, end)) ==> is_number(begin) && is_number(end)
        &&& self.divisor matches Some(n) ==> is_number(n)
    }

    /// The field as it is written.
    pub open spec fn text(self) -> Seq<char> {
        seq![self.letter] + range_text(self.range) + divisor_text(self.divisor)
    }

    /// How the value of the field is drawn.
    pub open spec fn kind(self) -> HashKind {
        kind_of_letter(self.letter)
    }
}

/// The text is a hashed field: some well-formed parts are written so.
pub open spec fn is_hash_expression(s: Seq<char>) -> bool {
    exists|x: HashSyntax| x.wf() && #[trigger] x.text() == s
}

/// The parts of a hashed field. `lemma_syntax_unique` shows that there is one choice only.
pub open spec fn syntax_of(s: Seq<char>) -> HashSyntax {
    choose|x: HashSyntax| x.wf() && #[trigger] x.text() == s
}

/// Where the run of digits that starts at `from` ends: at the first character that is no
/// digit, or at the end of the text.
spec fn digit_run_end(s: Seq<char>, from: int) -> int
    decreases s.len() - from,
{
    if 0 <= from < s.len() && is_digit(s[from]) {
        digit_run_end(s, from + 1)
    } else {
        from
    }
}

/// A run of digits ends inside the text, holds digits only, and stops before a character
/// that is no digit.
proof fn lemma_digit_run(s: Seq<char>, from: int)
    requires
        0 <= from <= s.len(),
    ensures
        from <= digit_run_end(s, from) <= s.len(),
        forall|j: int| from <= j < digit_run_end(s, from) ==> is_digit(#[trigger] s[j]),
        digit_run_end(s, from) < s.len() ==> !is_digit(s[digit_run_end(s, from)]),
    decreases s.len() - from,
{
    if from < s.len() && is_digit(s[from]) {
        lemma_digit_run(s, from + 1);
    }
}

/// Digits from `from` up to a character that is no digit are the run that starts at `from`.
proof fn lemma_digit_run_is(s: Seq<char>, from: int, to: int)
    requires
        0 <= from <= to <= s.len(),
        forall|j: int| from <= j < to ==> is_digit(#[trigger] s[j]),
        to < s.len() ==> !is_digit(s[to]),
    ensures
        digit_run_end(s, from) == to,
    decreases to - from,
{
    if from < to {
        lemma_digit_run_is(s, from + 1, to);
    }
}

/// Reads a hashed field from left to right.
spec fn scan(s: Seq<char>) -> Option<HashSyntax> {
    if s.len() == 0 || !is_kind_letter(s[0]) {
        None
    } else if s.len() > 1 && s[1] == '(' {
        let dash = digit_run_end(s, 2);
        if dash == 2 || dash >= s.len() || s[dash] != '-' {
            None
        } else {
            let close = digit_run_end(s, dash + 1);
            if close == dash + 1 || close >= s.len() || s[close] != ')' {
                None
            } else {
                scan_divisor(s, close + 1, Some((s.subrange(2, dash), s.subrange(dash + 1, close))))
            }
        }
    } else {
        scan_divisor(s, 1, None)
    }
}

/// Reads what follows the letter and the range: nothing, or a slash and a numeral.
spec fn scan_divisor(
    s: Seq<char>,
    pos: int,
    range: Option<(Seq<char>, Seq<char>)>,
) -> Option<HashSyntax> {
    if pos == s.len() {
        Some(HashSyntax { letter: s[0], range, divisor: None })
    } else if s[pos] != '/' {
        None
    } else {
        let stop = digit_run_end(s, pos + 1);
        if stop == pos + 1 || stop != s.len() {
            None
        } else {
            Some(HashSyntax { letter: s[0], range, divisor: Some(s.subrange(pos + 1, stop)) })
        }
    }
}

/// What `scan` reads is well formed and is written as the text that was read.
proof fn lemma_scan_sound(s: Seq<char>)
    requires
        scan(s) is Some,
    ensures
        scan(s).unwrap().wf(),
        scan(s).unwrap().text() == s,
{
    let x = scan(s).unwrap();
    if s.len() > 1 && s[1] == '(' {
        let dash = digit_run_end(s, 2);
        lemma_digit_run(s, 2);
        let close = digit_run_end(s, dash + 1);
        lemma_digit_run(s, dash + 1);
        let pos = close + 1;
        if pos < s.len() {
            lemma_digit_run(s, pos + 1);
        }
        assert(x.text() =~= s);
    } else {
        if 1 < s.len() {
            lemma_digit_run(s, 2);
        }
        assert(x.text() =~= s);
    }
}

/// `scan` reads back the parts that a hashed field was written from.
proof fn lemma_scan_complete(x: HashSyntax)
    requires
        x.wf(),
    ensures
        scan(x.text()) == Some(x),
{
    let s = x.text();
    let after: int = 1 + range_text(x.range).len() as int;
    match x.range {
        Some((begin, end)) => {
            let dash: int = 2 + begin.len() as int;
            assert forall|j: int| 2 <= j < dash implies is_digit(#[trigger] s[j]) by {
                assert(s[j] == begin[j - 2]);
            }
            assert(s[dash] == '-');
            lemma_digit_run_is(s, 2, dash);
            let close: int = dash + 1 + end.len();
            assert forall|j: int| dash + 1 <= j < close implies is_digit(#[trigger] s[j]) by {
                assert(s[j] == end[j - dash - 1]);
            }
            assert(s[close] == ')');
            lemma_digit_run_is(s, dash + 1, close);
            assert(s.subrange(2, dash) =~= begin);
            assert(s.subrange(dash + 1, close) =~= end);
            assert(after == close + 1);
        },
        None => {
            assert(s.len() > 1 ==> s[1] != '(') by {
                if s.len() > 1 {
                    assert(x.divisor is Some);
                    assert(s[1] == '/');
                }
            }
        },
    }
    match x.divisor {
        Some(n) => {
            assert(s[after] == '/');
            assert forall|j: int| after + 1 <= j < s.len() implies is_digit(#[trigger] s[j]) by {
                assert(s[j] == n[j - after - 1]);
            }
            lemma_digit_run_is(s, after + 1, s.len() as int);
            assert(s.subrange(after + 1, s.len() as int) =~= n);
        },
        None => {
            assert(s.len() == after);
        },
    }
}

/// A hashed field is written in one way only: two well-formed values with the same text
/// are the same.
pub proof fn lemma_syntax_unique(x: HashSyntax, y: HashSyntax)
    requires
        x.wf(),
        y.wf(),
        x.text() == y.text(),
    ensures
        x == y,
{
    lemma_scan_complete(x);
    lemma_scan_complete(y);
}

/// `scan` decides the grammar, and where it succeeds it gives the parts of the field.
proof fn lemma_scan_decides(s: Seq<char>)
    ensures
        scan(s) is Some <==> is_hash_expression(s),
        is_hash_expression(s) ==> scan(s) == Some(syntax_of(s)) && syntax_of(s).wf() && syntax_of(
            s,
        ).text() == s,
{
    if scan(s) is Some {
        lemma_scan_sound(s);
        assert(scan(s).unwrap().text() == s);
    }
    if is_hash_expression(s) {
        let x = syntax_of(s);
        lemma_scan_complete(x);
    }
}

/// The parts of a hashed field as slices of the text they were read from.
pub struct HashCaptures<'a> {
    /// The kind letter, in the case in which it is written.
    pub hash_type: char,
    /// The numerals of the first and the last value of the range.
    pub range: Option<(&'a str, &'a str)>,
    /// The numeral of the divisor.
    pub divisor: Option<&'a str>,
}

impl<'a> View for HashCaptures<'a> {
    type V = HashSyntax;

    open spec fn view(&self) -> HashSyntax {
        HashSyntax {
            letter: self.hash_type,
            range: match self.range {
                Some((begin, end)) => Some((begin@, end@)),
                None => None,
            },
            divisor: match self.divisor {
                Some(n) => Some(n@),
                None => None,
            },
        }
    }
}

impl<'a> HashCaptures<'a> {
    /// The kind that the letter stands for.
    pub fn kind(&self) -> (k: HashKind)
        ensures
            k == self@.kind(),
    {
        if self.hash_type == 'R' || self.hash_type == 'r' {
            HashKind::Random
        } else {
            HashKind::Hash
        }
    }
}

/// A hashed field holds ASCII characters only.
pub proof fn lemma_hash_expression_is_ascii(s: Seq<char>)
    requires
        is_hash_expression(s),
    ensures
        is_ascii_chars(s),
{
    let x = syntax_of(s);
    assert forall|i: int| 0 <= i < s.len() implies '\0' <= #[trigger] s[i] <= '\u{7f}' by {
        let after: int = 1 + range_text(x.range).len() as int;
        if i == 0 {
        } else if i < after {
            let (begin, end) = x.range.unwrap();
            let dash: int = 2 + begin.len() as int;
            if 2 <= i < dash {
                assert(s[i] == begin[i - 2]);
            } else if dash < i < after - 1 {
                assert(s[i] == end[i - dash - 1]);
            }
        } else if i > after {
            let n = x.divisor.unwrap();
            assert(s[i] == n[i - after - 1]);
        }
    }
}

/// Finds the end of the run of digits that starts at `from`.
fn digits_end(s: &str, from: usize) -> (to: usize)
    requires
        is_ascii(s),
        from <= s@.len(),
    ensures
        to == digit_run_end(s@, from as int),
        from <= to <= s@.len(),
{
    let bytes = s.as_bytes();
    let n: usize = bytes.len();
    proof {
        is_ascii_spec_bytes(s);
    }
    let mut to: usize = from;
    while to < n && bytes[to] >= DIGIT_ZERO && bytes[to] <= DIGIT_NINE
        invariant
            n == s@.len(),
            n == bytes@.len(),
            is_ascii_chars(s@),
            forall|j: int| 0 <= j < n ==> bytes@[j] == s@[j] as u8,
            from <= to <= n,
            digit_run_end(s@, from as int) == digit_run_end(s@, to as int),
        decreases n - to,
    {
        assert(is_digit(s@[to as int]));
        to = to + 1;
    }
    assert(to < n ==> !is_digit(s@[to as int]));
    to
}

/// Reads the parts of a hashed field. Text that is no hashed field gives `None`.
pub fn captures<'a>(expr: &'a str) -> (r: Option<HashCaptures<'a>>)
    ensures
        r is Some <==> is_hash_expression(expr@),
        r matches Some(c) ==> c@ == syntax_of(expr@) && c@.wf() && c@.text() == expr@,
{
    proof {
        lemma_scan_decides(expr@);
    }
    if !expr.is_ascii() {
        proof {
            if is_hash_expression(expr@) {
                lemma_hash_expression_is_ascii(expr@);
            }
        }
        return None;
    }
    let bytes = expr.as_bytes();
    let n: usize = bytes.len();
    proof {
        is_ascii_spec_bytes(expr);
    }
    if n == 0 {
        return None;
    }
    let first: u8 = bytes[0];
    let hash_type: char = if first == UPPER_H {
        'H'
    } else if first == LOWER_H {
        'h'
    } else if first == UPPER_R {
        'R'
    } else if first == LOWER_R {
        'r'
    } else {
        return None;
    };
    assert(hash_type == expr@[0]);
    let mut pos: usize = 1;
    let mut range: Option<(&'a str, &'a str)> = None;
    if n > 1 && bytes[1] == OPEN {
        let dash: usize = digits_end(expr, 2);
        if dash == 2 || dash >= n || bytes[dash] != DASH {
            return None;
        }
        let close: usize = digits_end(expr, dash + 1);
        if close == dash + 1 || close >= n || bytes[close] != CLOSE {
            return None;
        }
        range = Some((expr.substring_ascii(2, dash), expr.substring_ascii(dash + 1, close)));
        pos = close + 1;
    }
    let mut divisor: Option<&'a str> = None;
    if pos < n {
        if bytes[pos] != SLASH {
            return None;
        }
        let stop: usize = digits_end(expr, pos + 1);
        if stop == pos + 1 || stop != n {
            return None;
        }
        divisor = Some(expr.substring_ascii(pos + 1, stop));
    }
    Some(HashCaptures { hash_type, range, divisor })
}

} // verus!
