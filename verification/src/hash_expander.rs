//! Expansion of hashed fields into plain cron text.

use crate::constants::FieldTable;
use crate::decimal::{
    decimal_value, format_int, int_text, is_digit, lemma_decimal_round_trip, parse_decimal,
};
use crate::error::CronError;
use crate::mixing::{crc32, draw, identity_bytes, lemma_spread_in_range, reduce, spread};
use crate::pattern::{
    captures, is_hash_expression, lemma_syntax_unique, syntax_of, HashKind, HashSyntax,
};
use crate::text::str_eq;
use vstd::prelude::*;
use vstd::string::*;

verus! {

/// A hashed field with its numbers read.
#[derive(Clone, Copy, Debug, PartialEq, Eq)]
pub struct HashExpression {
    pub kind: HashKind,
    /// The bounds that the field names, where it names any.
    pub range: Option<(i32, i32)>,
    /// The stride, where the field has one.
    pub divisor: Option<i32>,
}

/// What a numeral stands for, where that fits in 32 signed bits.
pub open spec fn number_of(digits: Seq<char>) -> Option<i32> {
    if decimal_value(digits) <= i32::MAX {
        Some(decimal_value(digits) as i32)
    } else {
        None
    }
}

/// How a field is read. `Ok(None)` says that it is no hashed field and stays as it is.
///
/// `hint` is what the caller already knows of the field: `Some(false)` keeps the field as it
/// is without a look at it, and `Some(true)` makes a field that is no hashed field an error.
/// A hashed field of the `Hash` kind needs an identity. Its numbers must fit in 32 signed
/// bits, its range must end after it begins, and its divisor must not be zero. The faults
/// are looked for in the order in which the parts are written.
pub open spec fn read_spec(expr: Seq<char>, has_id: bool, hint: Option<bool>) -> Result<
    Option<HashExpression>,
    CronError,
> {
    if hint == Some(false) || (hint is None && !is_hash_expression(expr)) {
        Ok(None)
    } else if !is_hash_expression(expr) {
        Err(CronError::PatternParseFailure)
    } else {
        let syntax = syntax_of(expr);
        if syntax.kind() == HashKind::Hash && !has_id {
            Err(CronError::MissingIdentity)
        } else {
            match syntax.range {
                Some((begin, end)) => match (number_of(begin), number_of(end)) {
                    (Some(begin), Some(end)) => if begin >= end {
                        Err(CronError::InvalidRange)
                    } else {
                        read_divisor_spec(syntax.kind(), Some((begin, end)), syntax.divisor)
                    },
                    _ => Err(CronError::PatternParseFailure),
                },
                None => read_divisor_spec(syntax.kind(), None, syntax.divisor),
            }
        }
    }
}

/// How the divisor is read, once the kind and the range are known.
pub open spec fn read_divisor_spec(
    kind: HashKind,
    range: Option<(i32, i32)>,
    divisor: Option<Seq<char>>,
) -> Result<Option<HashExpression>, CronError> {
    match divisor {
        Some(digits) => match number_of(digits) {
            Some(n) => if n == 0 {
                Err(CronError::InvalidDivisor)
            } else {
                Ok(Some(HashExpression { kind, range, divisor: Some(n) }))
            },
            None => Err(CronError::PatternParseFailure),
        },
        None => Ok(Some(HashExpression { kind, range, divisor: None })),
    }
}

impl HashExpression {
    /// The range ends after it begins, at or above zero, and the divisor is at least one.
    pub open spec fn wf(self) -> bool {
        &&& self.range matches Some((begin, end)) ==> 0 <= begin < end
        &&& self.divisor matches Some(n) ==> n >= 1
    }

    /// Where the values of the field begin: at the bound it names, else at the field's least.
    pub open spec fn begin(self, table: FieldTable, idx: int) -> int {
        match self.range {
            Some((begin, _)) => begin as int,
            None => table.min(idx),
        }
    }

    /// Where the values of the field end: at the bound it names, else at the field's greatest.
    pub open spec fn end(self, table: FieldTable, idx: int) -> int {
        match self.range {
            Some((_, end)) => end as int,
            None => table.max(idx),
        }
    }

    /// The last value that may be drawn. A stride narrows the draw to its first step, whatever
    /// the end of the range.
    pub open spec fn window_end(self, table: FieldTable, idx: int) -> int {
        match self.divisor {
            Some(n) => self.begin(table, idx) + n - 1,
            None => self.end(table, idx),
        }
    }

    /// The plain text for a drawn value `v`: the value alone, or with a stride `v-end/n`.
    pub open spec fn text(self, table: FieldTable, idx: int, v: int) -> Seq<char> {
        match self.divisor {
            Some(n) => int_text(v) + seq!['-'] + int_text(self.end(table, idx)) + seq!['/']
                + int_text(n as int),
            None => int_text(v),
        }
    }

    /// The plain text that the field expands to for a given 32-bit word.
    pub open spec fn expansion(self, table: FieldTable, idx: int, word: u32) -> Seq<char> {
        self.text(
            table,
            idx,
            spread(word, idx, self.begin(table, idx), self.window_end(table, idx)),
        )
    }
}

/// Reads a field as `read_spec` says.
pub fn read(expr: &str, has_id: bool, hint: Option<bool>) -> (r: Result<
    Option<HashExpression>,
    CronError,
>)
    ensures
        r == read_spec(expr@, has_id, hint),
        r matches Ok(Some(hashed)) ==> hashed.wf(),
{
    match hint {
        Some(false) => {
            return Ok(None);
        },
        _ => {},
    }
    let found = match captures(expr) {
        Some(found) => found,
        None => {
            return match hint {
                Some(_) => Err(CronError::PatternParseFailure),
                None => Ok(None),
            };
        },
    };
    let kind = found.kind();
    match kind {
        HashKind::Hash => {
            if !has_id {
                return Err(CronError::MissingIdentity);
            }
        },
        HashKind::Random => {},
    }
    let range: Option<(i32, i32)> = match found.range {
        Some((begin, end)) => {
            let begin = parse_decimal(begin);
            let end = parse_decimal(end);
            match (begin, end) {
                (Some(begin), Some(end)) => {
                    if begin >= end {
                        return Err(CronError::InvalidRange);
                    }
                    Some((begin, end))
                },
                _ => {
                    return Err(CronError::PatternParseFailure);
                },
            }
        },
        None => None,
    };
    let divisor: Option<i32> = match found.divisor {
        Some(digits) => match parse_decimal(digits) {
            Some(n) => {
                if n == 0 {
                    return Err(CronError::InvalidDivisor);
                }
                Some(n)
            },
            None => {
                return Err(CronError::PatternParseFailure);
            },
        },
        None => None,
    };
    Ok(Some(HashExpression { kind, range, divisor }))
}

/// Expands hashed fields against a field table.
pub struct HashExpander {
    /// The table that gives a field its bounds where the field names none.
    pub table: FieldTable,
}

/// The kind that `do_` takes a type for: the text `r` asks for random bits, and any other
/// text, or none, for the checksum of the identity.
pub open spec fn kind_of_type(hash_type: Option<&str>) -> HashKind {
    match hash_type {
        Some(name) => if name@ == "r"@ {
            HashKind::Random
        } else {
            HashKind::Hash
        },
        None => HashKind::Hash,
    }
}

impl HashExpander {
    /// The table is usable.
    pub open spec fn wf(&self) -> bool {
        self.table.wf()
    }

    /// The lower bound of a draw: the one given, else the least value of the field.
    pub open spec fn begin_or_min(&self, idx: int, range_begin: Option<i64>) -> int {
        match range_begin {
            Some(begin) => begin as int,
            None => self.table.min(idx),
        }
    }

    /// The upper bound of a draw: the one given, else the greatest value of the field.
    pub open spec fn end_or_max(&self, idx: int, range_end: Option<i64>) -> int {
        match range_end {
            Some(end) => end as int,
            None => self.table.max(idx),
        }
    }

    /// An expander over the given table.
    pub fn new(table: FieldTable) -> (expander: HashExpander)
        requires
            table.wf(),
        ensures
            expander.wf(),
            expander.table == table,
    {
        HashExpander { table }
    }

    /// Draws a value for field `idx` between the bounds, both of them counted in: from random
    /// bits where `hash_type` is `r`, else from the checksum of the identity, which is that
    /// of no bytes where there is no identity. A bound that is not given is that of the field.
    pub fn do_(
        &self,
        idx: i32,
        hash_type: Option<&str>,
        hash_id: Option<&[u8]>,
        range_end: Option<i64>,
        range_begin: Option<i64>,
    ) -> (v: i64)
        requires
            self.wf(),
            0 <= idx <= 6,
            self.begin_or_min(idx as int, range_begin) <= self.end_or_max(idx as int, range_end),
        ensures
            self.begin_or_min(idx as int, range_begin) <= v <= self.end_or_max(
                idx as int,
                range_end,
            ),
            kind_of_type(hash_type) == HashKind::Hash ==> v == spread(
                crc32(identity_bytes(hash_id)),
                idx as int,
                self.begin_or_min(idx as int, range_begin),
                self.end_or_max(idx as int, range_end),
            ),
            exists|word: u32|
                v == #[trigger] spread(
                    word,
                    idx as int,
                    self.begin_or_min(idx as int, range_begin),
                    self.end_or_max(idx as int, range_end),
                ),
    {
        let end: i64 = match range_end {
            Some(end) => end,
            None => self.table.range_of(idx).1 as i64,
        };
        let begin: i64 = match range_begin {
            Some(begin) => begin,
            None => self.table.range_of(idx).0 as i64,
        };
        let kind = match hash_type {
            Some(name) => if str_eq(name, "r") {
                HashKind::Random
            } else {
                HashKind::Hash
            },
            None => HashKind::Hash,
        };
        let word: u32 = draw(kind, hash_id);
        reduce(word, idx, begin, end)
    }

    /// Whether the field is a hashed field. The index and the identity play no part.
    pub fn match_(&self, _idx: i32, expr: &str, _hash_id: Option<&[u8]>) -> (found: bool)
        ensures
            found == is_hash_expression(expr@),
    {
        captures(expr).is_some()
    }

    /// The window from which the value of a hashed field is drawn: its first and its last
    /// value.
    pub fn window(&self, idx: i32, hashed: &HashExpression) -> (w: (i64, i64))
        requires
            self.wf(),
            hashed.wf(),
            0 <= idx <= 6,
        ensures
            w.0 == hashed.begin(self.table, idx as int),
            w.1 == hashed.window_end(self.table, idx as int),
            w.0 <= w.1,
    {
        let (begin, end): (i64, i64) = match hashed.range {
            Some((begin, end)) => (begin as i64, end as i64),
            None => {
                let (least, greatest) = self.table.range_of(idx);
                (least as i64, greatest as i64)
            },
        };
        let last: i64 = match hashed.divisor {
            Some(n) => begin + n as i64 - 1,
            None => end,
        };
        (begin, last)
    }

    /// Writes the plain text of a hashed field for a value that was drawn for it.
    pub fn render(&self, idx: i32, hashed: &HashExpression, v: i64) -> (text: String)
        requires
            self.wf(),
            0 <= idx <= 6,
        ensures
            text@ == hashed.text(self.table, idx as int, v as int),
    {
        let mut text = format_int(v);
        match hashed.divisor {
            Some(n) => {
                let end: i32 = match hashed.range {
                    Some((_, end)) => end,
                    None => self.table.range_of(idx).1,
                };
                proof {
                    reveal_strlit("-");
                    reveal_strlit("/");
                }
                text.append("-");
                text.append(format_int(end as i64).as_str());
                text.append("/");
                text.append(format_int(n as i64).as_str());
                assert(text@ =~= hashed.text(self.table, idx as int, v as int));
            },
            None => {},
        }
        text
    }

    /// Expands a field of index `idx`. A field that is no hashed field comes back as it is.
    /// A hashed field becomes a value drawn inside its range, or inside the first step of its
    /// stride followed by the end of the range and the stride: `v-end/n`.
    pub fn expand(
        &self,
        idx: i32,
        expr: &str,
        hash_id: Option<&[u8]>,
        match_: Option<bool>,
    ) -> (r: Result<String, CronError>)
        requires
            self.wf(),
            0 <= idx <= 6,
        ensures
            self.expands_to(idx as int, expr@, hash_id, match_, r),
    {
        let hashed = match read(expr, hash_id.is_some(), match_) {
            Ok(Some(hashed)) => hashed,
            Ok(None) => {
                return Ok(expr.to_owned());
            },
            Err(e) => {
                return Err(e);
            },
        };
        let (begin, last) = self.window(idx, &hashed);
        let hash_type: &str = match hashed.kind {
            HashKind::Hash => "h",
            HashKind::Random => "r",
        };
        proof {
            reveal_strlit("h");
            reveal_strlit("r");
            assert("h"@[0] != "r"@[0]);
            assert(kind_of_type(Some(hash_type)) == hashed.kind);
        }
        let v: i64 = self.do_(idx, Some(hash_type), hash_id, Some(last), Some(begin));
        let r: Result<String, CronError> = Ok(self.render(idx, &hashed, v));
        proof {
            let word = choose|word: u32|
                v == #[trigger] spread(word, idx as int, begin as int, last as int);
            assert(outcome(r) == expansion(
                self.table,
                idx as int,
                expr@,
                hash_id is Some,
                match_,
                word,
            ));
        }
        r
    }

    /// Expands a field as `expand` does, but for a 32-bit word that the caller brings, in
    /// place of a checksum or of random bits. `has_id` says whether there is an identity.
    pub fn expand_with(
        &self,
        idx: i32,
        expr: &str,
        has_id: bool,
        match_: Option<bool>,
        word: u32,
    ) -> (r: Result<String, CronError>)
        requires
            self.wf(),
            0 <= idx <= 6,
        ensures
            outcome(r) == expansion(self.table, idx as int, expr@, has_id, match_, word),
    {
        let hashed = match read(expr, has_id, match_) {
            Ok(Some(hashed)) => hashed,
            Ok(None) => {
                return Ok(expr.to_owned());
            },
            Err(e) => {
                return Err(e);
            },
        };
        let (begin, last) = self.window(idx, &hashed);
        let v: i64 = reduce(word, idx, begin, last);
        Ok(self.render(idx, &hashed, v))
    }

    /// What `expand` returns. For a hashed field of the `Hash` kind the text is that for the
    /// checksum of the identity; for one of the `Random` kind it is that for some 32-bit word.
    pub open spec fn expands_to(
        &self,
        idx: int,
        expr: Seq<char>,
        hash_id: Option<&[u8]>,
        hint: Option<bool>,
        r: Result<String, CronError>,
    ) -> bool {
        &&& draws_random(expr, hash_id is Some, hint) || outcome(r) == expansion(
            self.table,
            idx,
            expr,
            hash_id is Some,
            hint,
            crc32(identity_bytes(hash_id)),
        )
        &&& exists|word: u32|
            outcome(r) == #[trigger] expansion(
                self.table,
                idx,
                expr,
                hash_id is Some,
                hint,
                word,
            )
    }
}

/// Whether the expansion of a field draws random bits: it does for a hashed field of the
/// `Random` kind that is read without a fault.
pub open spec fn draws_random(expr: Seq<char>, has_id: bool, hint: Option<bool>) -> bool {
    read_spec(expr, has_id, hint) matches Ok(Some(hashed)) && hashed.kind == HashKind::Random
}

/// What a field expands to for a given 32-bit word: the field itself where it is no hashed
/// field, the fault found in reading it, or the plain text for the word.
pub open spec fn expansion(
    table: FieldTable,
    idx: int,
    expr: Seq<char>,
    has_id: bool,
    hint: Option<bool>,
    word: u32,
) -> Result<Seq<char>, CronError> {
    match read_spec(expr, has_id, hint) {
        Err(e) => Err(e),
        Ok(None) => Ok(expr),
        Ok(Some(hashed)) => Ok(hashed.expansion(table, idx, word)),
    }
}

/// The text of a result, or its error.
pub open spec fn outcome(r: Result<String, CronError>) -> Result<Seq<char>, CronError> {
    match r {
        Ok(text) => Ok(text@),
        Err(e) => Err(e),
    }
}

/// A character of plain cron text as an expansion writes it: a digit, a dash or a slash.
pub open spec fn is_plain_char(c: char) -> bool {
    is_digit(c) || c == '-' || c == '/'
}

/// The numeral of a number holds digits only.
pub proof fn lemma_int_text_is_plain(i: int)
    ensures
        int_text(i).len() > 0,
        forall|k: int| 0 <= k < int_text(i).len() ==> is_plain_char(#[trigger] int_text(i)[k]),
{
    let magnitude: nat = if i < 0 {
        (-i) as nat
    } else {
        i as nat
    };
    lemma_decimal_round_trip(magnitude);
}

/// A well-formed hashed field is drawn from a window that does not end before it begins, so
/// the value drawn for any word lies inside it. With a stride `n` the window holds the `n`
/// values from the beginning of the range on.
pub proof fn lemma_drawn_in_window(hashed: HashExpression, table: FieldTable, idx: int, word: u32)
    requires
        hashed.wf(),
        table.wf(),
        0 <= idx <= 6,
    ensures
        hashed.begin(table, idx) <= spread(
            word,
            idx,
            hashed.begin(table, idx),
            hashed.window_end(table, idx),
        ) <= hashed.window_end(table, idx),
        hashed.divisor matches Some(n) ==> hashed.window_end(table, idx) == hashed.begin(table, idx)
            + n - 1,
        hashed.divisor is None ==> hashed.window_end(table, idx) == hashed.end(table, idx),
{
    assert(table@[idx].0 <= table@[idx].1);
    lemma_spread_in_range(word, idx, hashed.begin(table, idx), hashed.window_end(table, idx));
}

/// What a hashed field expands to is plain cron text: it is made of digits, dashes and
/// slashes, and it is no hashed field itself.
pub proof fn lemma_expansion_is_plain(hashed: HashExpression, table: FieldTable, idx: int, word: u32)
    ensures
        forall|k: int|
            0 <= k < hashed.expansion(table, idx, word).len() ==> is_plain_char(
                #[trigger] hashed.expansion(table, idx, word)[k],
            ),
        !is_hash_expression(hashed.expansion(table, idx, word)),
{
    let v = spread(word, idx, hashed.begin(table, idx), hashed.window_end(table, idx));
    let text = hashed.expansion(table, idx, word);
    lemma_int_text_is_plain(v);
    match hashed.divisor {
        Some(n) => {
            let end = hashed.end(table, idx);
            lemma_int_text_is_plain(end);
            lemma_int_text_is_plain(n as int);
            let a = int_text(v);
            let b = int_text(end);
            let c = int_text(n as int);
            assert forall|k: int| 0 <= k < text.len() implies is_plain_char(#[trigger] text[k]) by {
                if k < a.len() {
                    assert(text[k] == a[k]);
                } else if k == a.len() {
                } else if k < a.len() + 1 + b.len() {
                    assert(text[k] == b[k - a.len() - 1]);
                } else if k == a.len() + 1 + b.len() {
                } else {
                    assert(text[k] == c[k - a.len() - b.len() - 2]);
                }
            }
        },
        None => {},
    }
    assert(is_plain_char(text[0]));
    if is_hash_expression(text) {
        let syntax = syntax_of(text);
        assert(syntax.text()[0] == syntax.letter);
    }
}

/// A field that draws no random bits expands in one way only: two results of `expand` for
/// the same table, index, field text and hint, and for identities of the same bytes, hold
/// the same text or the same error.
pub proof fn lemma_expand_deterministic(
    expander: HashExpander,
    idx: int,
    expr: Seq<char>,
    hint: Option<bool>,
    first_id: Option<&[u8]>,
    second_id: Option<&[u8]>,
    first: Result<String, CronError>,
    second: Result<String, CronError>,
)
    requires
        first_id is Some <==> second_id is Some,
        identity_bytes(first_id) == identity_bytes(second_id),
        expander.expands_to(idx, expr, first_id, hint, first),
        expander.expands_to(idx, expr, second_id, hint, second),
        !draws_random(expr, first_id is Some, hint),
    ensures
        outcome(first) == outcome(second),
{
}

/// A bare `H` is read as a hashed field of the `Hash` kind without bounds and without a
/// stride, so with an identity it expands to the numeral of the value that the identity's
/// checksum selects in the field's own range.
pub proof fn lemma_bare_hash(expander: HashExpander, idx: int, hash_id: &[u8], r: Result<String, CronError>)
    requires
        expander.expands_to(idx, seq!['H'], Some(hash_id), None, r),
    ensures
        outcome(r) == Ok::<Seq<char>, CronError>(
            int_text(
                spread(crc32(hash_id@), idx, expander.table.min(idx), expander.table.max(idx)),
            ),
        ),
{
    let expr = seq!['H'];
    let bare = HashSyntax { letter: 'H', range: None, divisor: None };
    assert(bare.wf());
    assert(bare.text() =~= expr);
    lemma_syntax_unique(bare, syntax_of(expr));
}

} // verus!
