//! The field table: which fields a cron expression has, and what each may hold.

use crate::error::CronError;
use crate::text::str_eq;
use vstd::prelude::*;
use vstd::string::*;

verus! {

/// The index of the field of minutes.
pub const MINUTE_FIELD: i32 = 0;

/// The index of the field of hours.
pub const HOUR_FIELD: i32 = 1;

/// The index of the field of days of the month.
pub const DAY_FIELD: i32 = 2;

/// The index of the field of months.
pub const MONTH_FIELD: i32 = 3;

/// The index of the field of days of the week.
pub const DOW_FIELD: i32 = 4;

/// The index of the field of seconds.
pub const SECOND_FIELD: i32 = 5;

/// The index of the field of years.
pub const YEAR_FIELD: i32 = 6;

/// The fields of a five-field expression, in the order in which they are written.
pub const UNIX_FIELDS: [i32; 5] = [MINUTE_FIELD, HOUR_FIELD, DAY_FIELD, MONTH_FIELD, DOW_FIELD];

/// The fields of a six-field expression: seconds come last.
pub const SECOND_FIELDS: [i32; 6] = [
    MINUTE_FIELD,
    HOUR_FIELD,
    DAY_FIELD,
    MONTH_FIELD,
    DOW_FIELD,
    SECOND_FIELD,
];

/// The fields of a seven-field expression: seconds and years come last.
pub const YEAR_FIELDS: [i32; 7] = [
    MINUTE_FIELD,
    HOUR_FIELD,
    DAY_FIELD,
    MONTH_FIELD,
    DOW_FIELD,
    SECOND_FIELD,
    YEAR_FIELD,
];

/// The days of each month of a common year, January first.
pub const DAYS: [i32; 12] = [31, 28, 31, 30, 31, 30, 31, 31, 30, 31, 30, 31];

/// The least and the greatest value of each field, by field index.
pub const RANGES: [(i32, i32); 7] = [
    (0, 59),
    (0, 23),
    (1, 31),
    (1, 12),
    (0, 6),
    (0, 59),
    (1970, 2099),
];

/// For each field, the number of values that stands for all of them.
pub const LEN_MEANS_ALL: [i32; 7] = [60, 24, 31, 12, 7, 60, 130];

/// The names of the months, each with its number.
pub const M_ALPHAS: [(&'static str, i32); 12] = [
    ("jan", 1),
    ("feb", 2),
    ("mar", 3),
    ("apr", 4),
    ("may", 5),
    ("jun", 6),
    ("jul", 7),
    ("aug", 8),
    ("sep", 9),
    ("oct", 10),
    ("nov", 11),
    ("dec", 12),
];

/// The names of the days of the week, each with its number: Sunday is 0.
pub const DOW_ALPHAS: [(&'static str, i32); 7] = [
    ("sun", 0),
    ("mon", 1),
    ("tue", 2),
    ("wed", 3),
    ("thu", 4),
    ("fri", 5),
    ("sat", 6),
];

/// The names of the days of the week as alternatives of a pattern.
pub const WEEKDAYS: &'static str = "sun|mon|tue|wed|thu|fri|sat";

/// The names of the months as alternatives of a pattern.
pub const MONTHS: &'static str = "jan|feb|mar|apr|may|jun|jul|aug|sep|oct|nov|dec";

/// The number of fields of a five-field expression.
pub const UNIX_CRON_LEN: usize = 5;

/// The number of fields of a six-field expression.
pub const SECOND_CRON_LEN: usize = 6;

/// The number of fields of a seven-field expression.
pub const YEAR_CRON_LEN: usize = 7;

/// A table of ranges is usable where it has one range for each of the seven fields and none
/// of them ends before it begins.
pub open spec fn ordered_ranges(ranges: Seq<(i32, i32)>) -> bool {
    &&& ranges.len() == 7
    &&& forall|i: int| 0 <= i < 7 ==> (#[trigger] ranges[i]).0 <= ranges[i].1
}

/// The least and greatest value of each field, fixed when the table is made.
pub struct FieldTable {
    ranges: [(i32, i32); 7],
}

impl View for FieldTable {
    type V = Seq<(i32, i32)>;

    closed spec fn view(&self) -> Seq<(i32, i32)> {
        self.ranges@
    }
}

impl FieldTable {
    /// Seven ranges, each in order.
    pub open spec fn wf(&self) -> bool {
        ordered_ranges(self@)
    }

    /// The least value of a field.
    pub open spec fn min(&self, idx: int) -> int {
        self@[idx].0 as int
    }

    /// The greatest value of a field.
    pub open spec fn max(&self, idx: int) -> int {
        self@[idx].1 as int
    }

    /// The table of `RANGES`.
    pub fn standard() -> (table: FieldTable)
        ensures
            table.wf(),
            table@ == RANGES@,
    {
        FieldTable { ranges: RANGES }
    }

    /// A table of the caller's own ranges, where they are usable.
    pub fn from_ranges(ranges: &[(i32, i32)]) -> (r: Option<FieldTable>)
        ensures
            r is Some <==> ordered_ranges(ranges@),
            r matches Some(table) ==> table.wf() && table@ == ranges@,
    {
        if ranges.len() != 7 {
            return None;
        }
        let mut i: usize = 0;
        while i < 7
            invariant
                ranges@.len() == 7,
                0 <= i <= 7,
                forall|j: int| 0 <= j < i ==> (#[trigger] ranges@[j]).0 <= ranges@[j].1,
            decreases 7 - i,
        {
            if ranges[i].0 > ranges[i].1 {
                return None;
            }
            i = i + 1;
        }
        let table = FieldTable {
            ranges: [
                ranges[0],
                ranges[1],
                ranges[2],
                ranges[3],
                ranges[4],
                ranges[5],
                ranges[6],
            ],
        };
        assert(table@ =~= ranges@);
        Some(table)
    }

    /// The least and the greatest value of a field.
    pub fn range_of(&self, idx: i32) -> (r: (i32, i32))
        requires
            self.wf(),
            0 <= idx <= 6,
        ensures
            r == self@[idx as int],
            r.0 == self.min(idx as int),
            r.1 == self.max(idx as int),
            r.0 <= r.1,
    {
        self.ranges[idx as usize]
    }
}

/// In the table of `RANGES` no range ends before it begins, and the number that stands for
/// all values of a field is the number of values in its range.
pub proof fn lemma_standard_ranges()
    ensures
        ordered_ranges(RANGES@),
        forall|i: int| 0 <= i < 7 ==> #[trigger] LEN_MEANS_ALL@[i] == RANGES@[i].1 - RANGES@[i].0 + 1,
{
}

/// The number that stands for all values of a field.
pub fn len_means_all(idx: i32) -> (n: i32)
    requires
        0 <= idx <= 6,
    ensures
        n == LEN_MEANS_ALL@[idx as int],
        n == RANGES@[idx as int].1 - RANGES@[idx as int].0 + 1,
{
    LEN_MEANS_ALL[idx as usize]
}

/// The numbers of fields that a cron expression may have.
pub const VALID_LEN_EXPRESSION: [usize; 3] = [UNIX_CRON_LEN, SECOND_CRON_LEN, YEAR_CRON_LEN];

/// A key of the table of dialects: a dialect's name, or the number of fields it has.
#[derive(Clone, Copy, Debug, PartialEq, Eq, Hash)]
pub enum CronFieldKeyType {
    /// The name of a dialect: `unix`, `second` or `year`.
    Str(&'static str),
    /// The number of fields of a dialect.
    Int(usize),
}

/// Whether a cron expression may have `n` fields.
pub open spec fn is_valid_len(n: int) -> bool {
    n == UNIX_CRON_LEN || n == SECOND_CRON_LEN || n == YEAR_CRON_LEN
}

/// The number of fields of the dialect with the given name.
pub open spec fn dialect_len(name: Seq<char>) -> Option<int> {
    if name == "unix"@ {
        Some(UNIX_CRON_LEN as int)
    } else if name == "second"@ {
        Some(SECOND_CRON_LEN as int)
    } else if name == "year"@ {
        Some(YEAR_CRON_LEN as int)
    } else {
        None
    }
}

/// The number of fields that a key stands for, where it is the key of a dialect.
pub open spec fn key_len(key: CronFieldKeyType) -> Option<int> {
    match key {
        CronFieldKeyType::Str(name) => dialect_len(name@),
        CronFieldKeyType::Int(n) => if is_valid_len(n as int) {
            Some(n as int)
        } else {
            None
        },
    }
}

/// The fields of the dialect with `n` fields: the first `n` of the seven.
pub open spec fn dialect_fields(n: int) -> Seq<i32> {
    YEAR_FIELDS@.take(n)
}

/// Whether a cron expression may have `n` fields.
pub fn is_valid_field_count(n: usize) -> (valid: bool)
    ensures
        valid == is_valid_len(n as int),
        valid == (n == 5 || n == 6 || n == 7),
{
    n == UNIX_CRON_LEN || n == SECOND_CRON_LEN || n == YEAR_CRON_LEN
}

/// The fields of the dialect with `n` fields, in the order in which they are written.
pub fn fields_by_count(n: usize) -> (r: Result<&'static [i32], CronError>)
    ensures
        match r {
            Ok(fields) => is_valid_len(n as int) && fields@ == dialect_fields(n as int),
            Err(e) => !is_valid_len(n as int) && e == CronError::UnknownDialect,
        },
{
    if n == UNIX_CRON_LEN {
        let fields: &'static [i32; 5] = &UNIX_FIELDS;
        assert(fields@ =~= dialect_fields(5));
        Ok(fields.as_slice())
    } else if n == SECOND_CRON_LEN {
        let fields: &'static [i32; 6] = &SECOND_FIELDS;
        assert(fields@ =~= dialect_fields(6));
        Ok(fields.as_slice())
    } else if n == YEAR_CRON_LEN {
        let fields: &'static [i32; 7] = &YEAR_FIELDS;
        assert(fields@ =~= dialect_fields(7));
        Ok(fields.as_slice())
    } else {
        Err(CronError::UnknownDialect)
    }
}

/// The fields of the dialect with the given name: `unix`, `second` or `year`.
pub fn fields_by_name(name: &str) -> (r: Result<&'static [i32], CronError>)
    ensures
        match r {
            Ok(fields) => dialect_len(name@) matches Some(n) && fields@ == dialect_fields(n),
            Err(e) => dialect_len(name@) is None && e == CronError::UnknownDialect,
        },
{
    if str_eq(name, "unix") {
        fields_by_count(UNIX_CRON_LEN)
    } else if str_eq(name, "second") {
        fields_by_count(SECOND_CRON_LEN)
    } else if str_eq(name, "year") {
        fields_by_count(YEAR_CRON_LEN)
    } else {
        Err(CronError::UnknownDialect)
    }
}

/// The fields of a dialect, found by either kind of key.
pub fn cron_fields(key: &CronFieldKeyType) -> (r: Result<&'static [i32], CronError>)
    ensures
        match r {
            Ok(fields) => key_len(*key) matches Some(n) && fields@ == dialect_fields(n),
            Err(e) => key_len(*key) is None && e == CronError::UnknownDialect,
        },
{
    match key {
        CronFieldKeyType::Str(name) => fields_by_name(name),
        CronFieldKeyType::Int(n) => fields_by_count(*n),
    }
}

/// The numbers among the keys of the dialects are the valid numbers of fields. Each dialect
/// holds as many fields as its number says, each field at the place of its index, so that a
/// shorter dialect opens each longer one. A name is the key of a dialect of valid length.
pub proof fn lemma_dialects()
    ensures
        forall|n: usize| #[trigger]
            key_len(CronFieldKeyType::Int(n)) is Some <==> is_valid_len(n as int),
        forall|n: usize| #[trigger] VALID_LEN_EXPRESSION@.contains(n) <==> is_valid_len(n as int),
        forall|name: Seq<char>|
            (#[trigger] dialect_len(name)) matches Some(n) ==> is_valid_len(n),
        forall|n: int| is_valid_len(n) ==> (#[trigger] dialect_fields(n)).len() == n,
        forall|n: int, i: int|
            is_valid_len(n) && 0 <= i < n ==> #[trigger] dialect_fields(n)[i] == i,
        dialect_fields(UNIX_CRON_LEN as int) == UNIX_FIELDS@,
        dialect_fields(SECOND_CRON_LEN as int) == SECOND_FIELDS@,
        dialect_fields(YEAR_CRON_LEN as int) == YEAR_FIELDS@,
{
    assert(dialect_fields(5) =~= UNIX_FIELDS@);
    assert(dialect_fields(6) =~= SECOND_FIELDS@);
    assert(dialect_fields(7) =~= YEAR_FIELDS@);
    assert(VALID_LEN_EXPRESSION@[0] == 5 && VALID_LEN_EXPRESSION@[1] == 6
        && VALID_LEN_EXPRESSION@[2] == 7);
}

/// The number that a table of names gives to `name`: that of the first entry with this name.
pub open spec fn alpha_of(names: Seq<(&'static str, i32)>, name: Seq<char>) -> Option<i32>
    decreases names.len(),
{
    if names.len() == 0 {
        None
    } else if names[0].0@ == name {
        Some(names[0].1)
    } else {
        alpha_of(names.drop_first(), name)
    }
}

/// Looks a name up in a table of names.
fn find_alpha(names: &[(&'static str, i32)], name: &str) -> (r: Option<i32>)
    ensures
        r == alpha_of(names@, name@),
{
    let n: usize = names.len();
    let mut i: usize = 0;
    assert(names@.skip(0) =~= names@);
    while i < n
        invariant
            n == names@.len(),
            0 <= i <= n,
            alpha_of(names@, name@) == alpha_of(names@.skip(i as int), name@),
        decreases n - i,
    {
        if str_eq(names[i].0, name) {
            return Some(names[i].1);
        }
        assert(names@.skip(i as int).drop_first() =~= names@.skip(i + 1));
        i = i + 1;
    }
    None
}

/// The number of the month with the given three-letter name, in lower case.
pub fn m_alpha(name: &str) -> (r: Option<i32>)
    ensures
        r == alpha_of(M_ALPHAS@, name@),
{
    let names: &'static [(&'static str, i32); 12] = &M_ALPHAS;
    find_alpha(names.as_slice(), name)
}

/// The number of the day of the week with the given three-letter name, in lower case.
pub fn dow_alpha(name: &str) -> (r: Option<i32>)
    ensures
        r == alpha_of(DOW_ALPHAS@, name@),
{
    let names: &'static [(&'static str, i32); 7] = &DOW_ALPHAS;
    find_alpha(names.as_slice(), name)
}

} // verus!
