use vstd::prelude::*;
use crate::session::{all_wf, StudySession};

verus! {

/// What the csv crate reads from `content` with no header handling: every
/// record as a list of fields, or `None` when the text is not valid CSV.
pub uninterp spec fn csv_table(content: Seq<char>) -> Option<Seq<Seq<Seq<char>>>>;

/// Relies on csv::ReaderBuilder (headers off) and csv::Reader::records:
/// the records it reads depend on the text alone.
#[verifier::external_body]
fn read_csv_rows(content: &str) -> (r: Option<Vec<Vec<String>>>)
    ensures
        r is Some <==> csv_table(content@) is Some,
        r matches Some(rows) ==> rows.deep_view() == csv_table(content@)->Some_0,
{
    csv::ReaderBuilder::new()
        .has_headers(false)
        .from_reader(content.as_bytes())
        .records()
        .map(|row| row.map(|rec| rec.iter().map(|f| f.to_string()).collect()))
        .collect::<Result<Vec<Vec<String>>, csv::Error>>()
        .ok()
}

/// Why CSV text gave no sessions.
#[derive(Debug, PartialEq, Eq)]
pub enum CsvError {
    /// The text is not well-formed CSV.
    Unreadable,
    /// The header row lacks the named column.
    MissingColumn(String),
    /// The data record at this index (0 is the first after the header) has
    /// a missing or malformed field.
    BadRecord(usize),
    /// There is no data record.
    NoData,
}

pub open spec fn is_digit(c: char) -> bool {
    '0' <= c <= '9'
}

pub open spec fn all_digits(s: Seq<char>) -> bool {
    forall|i: int| 0 <= i < s.len() ==> is_digit(#[trigger] s[i])
}

/// The number that a string of decimal digits writes.
pub open spec fn digits_value(s: Seq<char>) -> int
    decreases s.len(),
{
    if s.len() == 0 {
        0
    } else {
        10 * digits_value(s.drop_last()) + (s.last() as int - '0' as int)
    }
}

/// Index of the first `.` in `s`, or its length.
pub open spec fn first_dot(s: Seq<char>) -> int
    decreases s.len(),
{
    if s.len() == 0 {
        0
    } else {
        let p = first_dot(s.drop_last());
        if p < s.len() - 1 {
            p
        } else if s.last() == '.' {
            s.len() - 1
        } else {
            s.len() as int
        }
    }
}

/// Hundredths written by the first two digits after the point.
pub open spec fn fraction_hundredths(f: Seq<char>) -> int {
    (if f.len() >= 1 {
        10 * (f[0] as int - '0' as int)
    } else {
        0int
    }) + (if f.len() >= 2 {
        f[1] as int - '0' as int
    } else {
        0int
    })
}

/// A score field: decimal digits with a value of at most 100.
pub open spec fn parse_score(s: Seq<char>) -> Option<u32> {
    if s.len() >= 1 && all_digits(s) && digits_value(s) <= 100 {
        Some(digits_value(s) as u32)
    } else {
        None
    }
}

/// An hours field, `digits[.digits]` or `.digits`, in hundredths of an hour;
/// digits past the second after the point are dropped.
pub open spec fn parse_hours(s: Seq<char>) -> Option<u32> {
    let dot = first_dot(s);
    let whole = s.take(dot);
    let fraction = if dot < s.len() {
        s.skip(dot + 1)
    } else {
        Seq::empty()
    };
    let value = 100 * digits_value(whole) + fraction_hundredths(fraction);
    if all_digits(whole) && all_digits(fraction) && whole.len() + fraction.len() >= 1 && value
        <= u32::MAX {
        Some(value as u32)
    } else {
        None
    }
}

/// The index of the first field of `header` named `name`.
pub open spec fn column_of(header: Seq<Seq<char>>, name: Seq<char>) -> Option<int>
    decreases header.len(),
{
    if header.len() == 0 {
        None
    } else {
        match column_of(header.drop_last(), name) {
            Some(i) => Some(i),
            None => if header.last() == name {
                Some(header.len() - 1)
            } else {
                None
            },
        }
    }
}

pub open spec fn column_names() -> Seq<Seq<char>> {
    seq![
        "subject"@,
        "hours_studied"@,
        "time_of_day"@,
        "understanding_score"@,
        "retention_score"@,
    ]
}

/// Every column the sessions need is in `header`.
pub open spec fn columns_present(header: Seq<Seq<char>>) -> bool {
    forall|k: int| 0 <= k < 5 ==> #[trigger] column_of(header, column_names()[k]) is Some
}

/// The field of `row` in the column named `name`, if any.
pub open spec fn field(row: Seq<Seq<char>>, header: Seq<Seq<char>>, name: Seq<char>) -> Option<Seq<char>> {
    match column_of(header, name) {
        Some(i) => if i < row.len() {
            Some(row[i])
        } else {
            None
        },
        None => None,
    }
}

/// Every field that `row` needs is there and well formed.
pub open spec fn row_parses(row: Seq<Seq<char>>, header: Seq<Seq<char>>) -> bool {
    &&& field(row, header, "subject"@) is Some
    &&& field(row, header, "time_of_day"@) is Some
    &&& field(row, header, "hours_studied"@) matches Some(h) && parse_hours(h) is Some
    &&& field(row, header, "understanding_score"@) matches Some(u) && parse_score(u) is Some
    &&& field(row, header, "retention_score"@) matches Some(r) && parse_score(r) is Some
}

/// `x` is the session that `row` writes.
pub open spec fn row_gives(x: StudySession, row: Seq<Seq<char>>, header: Seq<Seq<char>>) -> bool {
    &&& Some(x.subject@) == field(row, header, "subject"@)
    &&& Some(x.time_of_day@) == field(row, header, "time_of_day"@)
    &&& Some(x.hours_studied_x100) == parse_hours(field(row, header, "hours_studied"@)->Some_0)
    &&& Some(x.understanding_score) == parse_score(
        field(row, header, "understanding_score"@)->Some_0,
    )
    &&& Some(x.retention_score) == parse_score(field(row, header, "retention_score"@)->Some_0)
}

/// The value of `s[from..to]` if it is all digits, saturated at
/// `limit + 1`.
fn digits_capped(s: &str, from: usize, to: usize, limit: u64) -> (r: Option<u64>)
    requires
        from <= to <= s@.len(),
        limit < 0x1000_0000_0000,
    ensures
        r is Some <==> all_digits(s@.subrange(from as int, to as int)),
        r matches Some(v) ==> v == if digits_value(s@.subrange(from as int, to as int)) <= limit {
            digits_value(s@.subrange(from as int, to as int))
        } else {
            limit + 1
        },
{
    let mut v: u64 = 0;
    let mut i: usize = from;
    while i < to
        invariant
            from <= i <= to <= s@.len(),
            limit < 0x1000_0000_0000,
            all_digits(s@.subrange(from as int, i as int)),
            v == if digits_value(s@.subrange(from as int, i as int)) <= limit {
                digits_value(s@.subrange(from as int, i as int))
            } else {
                limit + 1
            },
        decreases to - i,
    {
        let ghost prev = s@.subrange(from as int, i as int);
        let ghost next = s@.subrange(from as int, i + 1);
        assert(next.drop_last() =~= prev);
        let c = s.get_char(i);
        if !('0' <= c && c <= '9') {
            assert(!is_digit(next[next.len() - 1]));
            return None;
        }
        proof {
            lemma_digits_nonnegative(prev);
        }
        let d = (c as u32 - '0' as u32) as u64;
        let w = 10 * v + d;
        v = if w > limit {
            limit + 1
        } else {
            w
        };
        i = i + 1;
    }
    Some(v)
}

proof fn lemma_digits_nonnegative(s: Seq<char>)
    requires
        all_digits(s),
    ensures
        digits_value(s) >= 0,
    decreases s.len(),
{
    if s.len() > 0 {
        lemma_digits_nonnegative(s.drop_last());
    }
}

/// Parses a score field.
pub fn parse_score_field(s: &str) -> (r: Option<u32>)
    ensures
        r == parse_score(s@),
        r matches Some(v) ==> v <= 100,
{
    let n = s.unicode_len();
    if n == 0 {
        return None;
    }
    assert(s@.subrange(0, n as int) =~= s@);
    match digits_capped(s, 0, n, 100) {
        Some(v) => if v <= 100 {
            Some(v as u32)
        } else {
            None
        },
        None => None,
    }
}

/// Parses an hours field into hundredths of an hour.
pub fn parse_hours_field(s: &str) -> (r: Option<u32>)
    ensures
        r == parse_hours(s@),
{
    let n = s.unicode_len();
    let mut dot: usize = 0;
    while dot < n && s.get_char(dot) != '.'
        invariant
            n == s@.len(),
            dot <= n,
            forall|k: int| 0 <= k < dot ==> s@[k] != '.',
        decreases n - dot,
    {
        dot = dot + 1;
    }
    proof {
        lemma_first_dot(s@, dot as int);
    }
    let ghost whole = s@.take(dot as int);
    assert(s@.subrange(0, dot as int) =~= whole);
    let limit: u64 = 42949672;
    let w = match digits_capped(s, 0, dot, limit) {
        Some(w) => w,
        None => return None,
    };
    let mut frac: u64 = 0;
    let ghost fraction: Seq<char> = Seq::empty();
    if dot < n {
        proof {
            fraction = s@.skip(dot + 1);
            assert(s@.subrange(dot + 1, n as int) =~= fraction);
        }
        if digits_capped(s, dot + 1, n, 0).is_none() {
            return None;
        }
        if dot + 1 < n {
            frac = 10 * (s.get_char(dot + 1) as u32 - '0' as u32) as u64;
            assert(is_digit(fraction[0]));
        }
        if n - dot > 2 {
            frac = frac + (s.get_char(dot + 2) as u32 - '0' as u32) as u64;
            assert(is_digit(fraction[1]));
        }
    }
    proof {
        lemma_digits_nonnegative(whole);
    }
    assert(frac == fraction_hundredths(fraction));
    if dot == 0 && n <= 1 {
        return None;
    }
    if w > limit {
        return None;
    }
    let value = 100 * w + frac;
    if value > 0xFFFF_FFFF {
        None
    } else {
        Some(value as u32)
    }
}

proof fn lemma_first_dot(s: Seq<char>, d: int)
    requires
        0 <= d <= s.len(),
        forall|k: int| 0 <= k < d ==> s[k] != '.',
        d < s.len() ==> s[d] == '.',
    ensures
        first_dot(s) == d,
    decreases s.len(),
{
    if s.len() > 0 {
        if d < s.len() {
            if d < s.len() - 1 {
                lemma_first_dot(s.drop_last(), d);
            } else {
                lemma_no_dot(s.drop_last());
            }
        } else {
            lemma_no_dot(s.drop_last());
        }
    }
}

proof fn lemma_no_dot(s: Seq<char>)
    requires
        forall|k: int| 0 <= k < s.len() ==> s[k] != '.',
    ensures
        first_dot(s) == s.len(),
    decreases s.len(),
{
    if s.len() > 0 {
        lemma_no_dot(s.drop_last());
    }
}

/// The index of the first header field equal to `name`.
fn find_column(header: &Vec<String>, name: &str) -> (r: Option<usize>)
    ensures
        r matches Some(i) ==> column_of(header.deep_view(), name@) == Some(i as int),
        r is None ==> column_of(header.deep_view(), name@) is None,
{
    let wanted = name.to_string();
    let ghost h = header.deep_view();
    let mut i: usize = 0;
    while i < header.len()
        invariant
            i <= header.len(),
            h == header.deep_view(),
            wanted@ == name@,
            column_of(h.take(i as int), name@) is None,
        decreases header.len() - i,
    {
        assert(h.take(i + 1).drop_last() =~= h.take(i as int));
        if header[i] == wanted {
            proof {
                lemma_column_prefix(h, i as int + 1, name@);
            }
            return Some(i);
        }
        i = i + 1;
    }
    assert(h.take(i as int) =~= h);
    None
}

proof fn lemma_column_prefix(h: Seq<Seq<char>>, k: int, name: Seq<char>)
    requires
        0 <= k <= h.len(),
        column_of(h.take(k), name) is Some,
    ensures
        column_of(h, name) == column_of(h.take(k), name),
    decreases h.len(),
{
    if k < h.len() {
        assert(h.drop_last().take(k) =~= h.take(k));
        lemma_column_prefix(h.drop_last(), k, name);
    } else {
        assert(h.take(k) =~= h);
    }
}

/// Column positions of one header row.
struct Columns {
    subject: usize,
    hours: usize,
    time_of_day: usize,
    understanding: usize,
    retention: usize,
}

impl StudySession {
    /// Reads study sessions from CSV text whose first record names the
    /// columns `subject`, `hours_studied`, `time_of_day`,
    /// `understanding_score` and `retention_score` (in any order, among
    /// others).
    pub fn load_from_csv_content(csv_content: &str) -> (r: Result<Vec<StudySession>, CsvError>)
        ensures
            csv_table(csv_content@) is None ==> r matches Err(CsvError::Unreadable),
            csv_table(csv_content@) matches Some(rows) ==> {
                &&& rows.len() <= 1 ==> (r matches Err(CsvError::NoData))
                &&& rows.len() > 1 && !columns_present(rows[0]) ==> (r matches Err(
                    CsvError::MissingColumn(_),
                ))
                &&& r matches Err(CsvError::MissingColumn(c)) ==> column_names().contains(c@)
                    && column_of(rows[0], c@) is None
                &&& r matches Err(CsvError::BadRecord(i)) ==> i + 1 < rows.len() && !row_parses(
                    rows[i + 1],
                    rows[0],
                ) && forall|j: int| 1 <= j <= i ==> row_parses(#[trigger] rows[j], rows[0])
                &&& r is Ok <==> rows.len() > 1 && columns_present(rows[0]) && forall|j: int|
                    1 <= j < rows.len() ==> row_parses(#[trigger] rows[j], rows[0])
                &&& r matches Ok(v) ==> v.len() == rows.len() - 1 && all_wf(v@) && forall|j: int|
                    0 <= j < v.len() ==> row_gives(#[trigger] v[j], rows[j + 1], rows[0])
            },
    {
        let rows = match read_csv_rows(csv_content) {
            Some(rows) => rows,
            None => return Err(CsvError::Unreadable),
        };
        let ghost t = rows.deep_view();
        if rows.len() <= 1 {
            return Err(CsvError::NoData);
        }
        let header = &rows[0];
        assert(header.deep_view() == t[0]);
        let subject = match find_column(header, "subject") {
            Some(i) => i,
            None => return Err(CsvError::MissingColumn("subject".to_string())),
        };
        let hours = match find_column(header, "hours_studied") {
            Some(i) => i,
            None => return Err(CsvError::MissingColumn("hours_studied".to_string())),
        };
        let time_of_day = match find_column(header, "time_of_day") {
            Some(i) => i,
            None => return Err(CsvError::MissingColumn("time_of_day".to_string())),
        };
        let understanding = match find_column(header, "understanding_score") {
            Some(i) => i,
            None => return Err(CsvError::MissingColumn("understanding_score".to_string())),
        };
        let retention = match find_column(header, "retention_score") {
            Some(i) => i,
            None => return Err(CsvError::MissingColumn("retention_score".to_string())),
        };
        assert(columns_present(t[0])) by {
            assert forall|k: int| 0 <= k < 5 implies #[trigger] column_of(t[0], column_names()[k]) is Some by {
                assert(column_names()[0] == "subject"@);
                assert(column_names()[1] == "hours_studied"@);
                assert(column_names()[2] == "time_of_day"@);
                assert(column_names()[3] == "understanding_score"@);
                assert(column_names()[4] == "retention_score"@);
            }
        }
        let cols = Columns { subject, hours, time_of_day, understanding, retention };
        let mut sessions: Vec<StudySession> = Vec::new();
        let mut i: usize = 1;
        while i < rows.len()
            invariant
                1 <= i <= rows.len(),
                t == rows.deep_view(),
                csv_table(csv_content@) == Some(t),
                columns_present(t[0]),
                column_of(t[0], "subject"@) == Some(cols.subject as int),
                column_of(t[0], "hours_studied"@) == Some(cols.hours as int),
                column_of(t[0], "time_of_day"@) == Some(cols.time_of_day as int),
                column_of(t[0], "understanding_score"@) == Some(cols.understanding as int),
                column_of(t[0], "retention_score"@) == Some(cols.retention as int),
                sessions.len() == i - 1,
                all_wf(sessions@),
                forall|j: int| 1 <= j < i ==> row_parses(#[trigger] t[j], t[0]),
                forall|j: int| 0 <= j < sessions.len() ==> row_gives(#[trigger] sessions[j], t[j + 1], t[0]),
            decreases rows.len() - i,
        {
            let row = &rows[i];
            assert(row.deep_view() == t[i as int]);
            match session_from_row(row, &cols, Ghost(t[0])) {
                Some(x) => {
                    sessions.push(x);
                },
                None => {
                    return Err(CsvError::BadRecord(i - 1));
                },
            }
            i = i + 1;
        }
        Ok(sessions)
    }
}

/// The session that `row` writes, if its fields are well formed.
fn session_from_row(row: &Vec<String>, cols: &Columns, Ghost(header): Ghost<Seq<Seq<char>>>) -> (r: Option<StudySession>)
    requires
        column_of(header, "subject"@) == Some(cols.subject as int),
        column_of(header, "hours_studied"@) == Some(cols.hours as int),
        column_of(header, "time_of_day"@) == Some(cols.time_of_day as int),
        column_of(header, "understanding_score"@) == Some(cols.understanding as int),
        column_of(header, "retention_score"@) == Some(cols.retention as int),
    ensures
        r is Some <==> row_parses(row.deep_view(), header),
        r matches Some(x) ==> x.wf() && row_gives(x, row.deep_view(), header),
{
    let n = row.len();
    if cols.subject >= n || cols.hours >= n || cols.time_of_day >= n || cols.understanding >= n
        || cols.retention >= n {
        return None;
    }
    let ghost v = row.deep_view();
    assert(v[cols.subject as int] == row[cols.subject as int]@);
    assert(v[cols.time_of_day as int] == row[cols.time_of_day as int]@);
    assert(v[cols.hours as int] == row[cols.hours as int]@);
    assert(v[cols.understanding as int] == row[cols.understanding as int]@);
    assert(v[cols.retention as int] == row[cols.retention as int]@);
    let hours = match parse_hours_field(row[cols.hours].as_str()) {
        Some(h) => h,
        None => return None,
    };
    let understanding = match parse_score_field(row[cols.understanding].as_str()) {
        Some(u) => u,
        None => return None,
    };
    let retention = match parse_score_field(row[cols.retention].as_str()) {
        Some(v) => v,
        None => return None,
    };
    let x = StudySession {
        subject: row[cols.subject].clone(),
        hours_studied_x100: hours,
        time_of_day: row[cols.time_of_day].clone(),
        understanding_score: understanding,
        retention_score: retention,
    };
    Some(x)
}

} // verus!
