//! The legacy exec-output parser: turns the tool's older human-readable
//! tabular query output into the canonical structured result shape that
//! the structured (JSON) output mode would have produced.

use vstd::prelude::*;
use vstd::string::StrSliceExecFns;
use vstd::string::StringExecFns;

use crate::numbers::is_digit;
use crate::numbers::is_digit_char;
use crate::numbers::parse_u64_spec;
use crate::numbers::parse_u64_str;
use crate::numbers::u64_dec;
use crate::numbers::u64_to_string;
use crate::text::cleaned;
use crate::text::find_char_str;
use crate::text::first_char_at;
use crate::text::lemma_cleaned_nonempty;
use crate::text::lemma_first_char_at;
use crate::text::split_on;
use crate::text::split_on_char;
use crate::text::str_eq;
use crate::text::trim_end_str;
use crate::text::trim_spec;
use crate::text::trim_str;
use crate::text::trimmed_all;

verus! {

/// The canonical structured query result that both output generations of
/// the tool are reduced to.
#[derive(Debug, Clone)]
pub struct QueryResultPayload {
    pub columns: Vec<String>,
    pub rows: Vec<Vec<String>>,
    pub duration_ms: u64,
    pub rows_affected: Option<u64>,
    pub message: Option<String>,
}

/// The mathematical shape of a structured query result.
pub struct QueryResultModel {
    pub columns: Seq<Seq<char>>,
    pub rows: Seq<Seq<Seq<char>>>,
    pub duration_ms: u64,
    pub rows_affected: Option<u64>,
    pub message: Option<Seq<char>>,
}

impl View for QueryResultPayload {
    type V = QueryResultModel;

    open spec fn view(&self) -> QueryResultModel {
        QueryResultModel {
            columns: self.columns.deep_view(),
            rows: self.rows.deep_view(),
            duration_ms: self.duration_ms,
            rows_affected: self.rows_affected,
            message: self.message.deep_view(),
        }
    }
}

/// The cells of one `|`-separated table line, each cell trimmed.
pub open spec fn row_cells(line: Seq<char>) -> Seq<Seq<char>> {
    trimmed_all(split_on(line, '|'))
}

pub fn split_table_row(line: &str) -> (r: Vec<String>)
    ensures
        r.deep_view() == row_cells(line@),
{
    let parts = split_on_char(line, '|');
    let mut cells: Vec<String> = Vec::new();
    let mut i: usize = 0;
    proof {
        assert(parts.deep_view().take(0) =~= Seq::<Seq<char>>::empty());
    }
    while i < parts.len()
        invariant
            i <= parts.len(),
            parts.deep_view() == split_on(line@, '|'),
            cells.deep_view() == trimmed_all(parts.deep_view().take(i as int)),
        decreases parts.len() - i,
    {
        let ghost pv = parts.deep_view();
        let ghost old_cells = cells.deep_view();
        let t = trim_str(parts[i].as_str());
        cells.push(String::from_str(t));
        proof {
            assert(pv.take(i + 1).drop_last() =~= pv.take(i as int));
            assert(pv.take(i + 1).last() == pv[i as int]);
            assert(cells.deep_view() =~= old_cells.push(t@));
        }
        i = i + 1;
    }
    proof {
        assert(parts.deep_view().take(parts.deep_view().len() as int) =~= parts.deep_view());
    }
    cells
}

/// What a trailer line `(<count> row(s))` denotes, after trimming: the
/// count, when the parenthesized shape and the digits are exact.
pub open spec fn row_count_of(line: Seq<char>) -> Option<u64> {
    let t = trim_spec(line);
    if t.len() < 2 || t[0] != '(' || t[t.len() - 1] != ')' {
        None
    } else {
        let inner = t.subrange(1, t.len() - 1);
        match first_char_at(inner, ' ') {
            Some(i) => if inner.skip(i + 1) == "row(s)"@ {
                parse_u64_spec(inner.take(i))
            } else {
                None
            },
            None => None,
        }
    }
}

pub fn parse_row_count_line(line: &str) -> (r: Option<u64>)
    ensures
        r == row_count_of(line@),
{
    let t = trim_str(line);
    let n: usize = t.unicode_len();
    if n < 2 {
        return None;
    }
    if t.get_char(0) != '(' || t.get_char(n - 1) != ')' {
        return None;
    }
    let inner = t.substring_char(1, n - 1);
    match find_char_str(inner, ' ') {
        Some(i) => {
            proof {
                lemma_first_char_at(inner@, ' ');
            }
            let rest = inner.substring_char(i + 1, inner.unicode_len());
            if str_eq(rest, "row(s)") {
                let num = inner.substring_char(0, i);
                parse_u64_str(num)
            } else {
                None
            }
        },
        None => None,
    }
}

/// The run of digits starting at the front of `s`.
pub open spec fn digit_prefix(s: Seq<char>) -> Seq<char>
    decreases s.len(),
{
    if s.len() > 0 && is_digit(s[0]) {
        seq![s[0]] + digit_prefix(s.drop_first())
    } else {
        Seq::empty()
    }
}

/// The first run of digits anywhere in `s`.
pub open spec fn first_digit_run(s: Seq<char>) -> Seq<char>
    decreases s.len(),
{
    if s.len() == 0 {
        Seq::empty()
    } else if is_digit(s[0]) {
        digit_prefix(s)
    } else {
        first_digit_run(s.drop_first())
    }
}

/// What a status message yields as "rows affected": its leading digit
/// run, kept only when it parses and is positive.
pub open spec fn rows_affected_of(message: Seq<char>) -> Option<u64> {
    match parse_u64_spec(first_digit_run(message)) {
        Some(v) => if v > 0 {
            Some(v)
        } else {
            None
        },
        None => None,
    }
}

proof fn lemma_first_digit_run_skip(s: Seq<char>, i: int)
    requires
        0 <= i <= s.len(),
        forall|k: int| 0 <= k < i ==> !is_digit(s[k]),
    ensures
        first_digit_run(s) == first_digit_run(s.skip(i)),
    decreases i,
{
    if i == 0 {
        assert(s.skip(0) =~= s);
    } else {
        assert(!is_digit(s[0]));
        assert(forall|k: int|
            0 <= k < i - 1 ==> s.drop_first()[k] == s[k + 1] && !is_digit(s[k + 1]));
        lemma_first_digit_run_skip(s.drop_first(), i - 1);
        assert(s.drop_first().skip(i - 1) =~= s.skip(i));
    }
}

proof fn lemma_digit_prefix_range(s: Seq<char>, j: int)
    requires
        0 <= j <= s.len(),
        forall|k: int| 0 <= k < j ==> is_digit(s[k]),
        j == s.len() || !is_digit(s[j]),
    ensures
        digit_prefix(s) == s.take(j),
    decreases j,
{
    if j == 0 {
        assert(s.take(0) =~= Seq::<char>::empty());
    } else {
        assert(forall|k: int| 0 <= k < j - 1 ==> is_digit(s.drop_first()[k]));
        lemma_digit_prefix_range(s.drop_first(), j - 1);
        assert(seq![s[0]] + s.drop_first().take(j - 1) =~= s.take(j));
    }
}

pub fn extract_rows_affected(message: &str) -> (r: Option<u64>)
    ensures
        r == rows_affected_of(message@),
{
    let n: usize = message.unicode_len();
    let mut i: usize = 0;
    while i < n && !is_digit_char(message.get_char(i))
        invariant
            i <= n,
            n == message@.len(),
            forall|k: int| 0 <= k < i ==> !is_digit(message@[k]),
        decreases n - i,
    {
        i = i + 1;
    }
    if i == n {
        proof {
            lemma_first_digit_run_skip(message@, i as int);
            assert(message@.skip(n as int) =~= Seq::<char>::empty());
        }
        return None;
    }
    let mut j: usize = i + 1;
    while j < n && is_digit_char(message.get_char(j))
        invariant
            i < j <= n,
            n == message@.len(),
            is_digit(message@[i as int]),
            forall|k: int| 0 <= k < i ==> !is_digit(message@[k]),
            forall|k: int| i <= k < j ==> is_digit(message@[k]),
        decreases n - j,
    {
        j = j + 1;
    }
    proof {
        lemma_first_digit_run_skip(message@, i as int);
        let tail = message@.skip(i as int);
        assert(forall|k: int| 0 <= k < j - i ==> is_digit(tail[k]));
        lemma_digit_prefix_range(tail, j - i);
        assert(tail.take(j - i) =~= message@.subrange(i as int, j as int));
        assert(first_digit_run(message@) == message@.subrange(i as int, j as int));
    }
    let num = message.substring_char(i, j);
    match parse_u64_str(num) {
        Some(v) => if v > 0 {
            Some(v)
        } else {
            None
        },
        None => None,
    }
}

/// The non-empty lines of the output, each with trailing whitespace
/// removed: what the legacy exec parser works on.
pub open spec fn clean_lines(s: Seq<char>) -> Seq<Seq<char>> {
    cleaned(split_on(s, '\n'))
}

fn clean_lines_vec(output: &str) -> (r: Vec<String>)
    ensures
        r.deep_view() == clean_lines(output@),
        forall|i: int| 0 <= i < r.deep_view().len() ==> r.deep_view()[i].len() != 0,
{
    let raw = split_on_char(output, '\n');
    let mut lines: Vec<String> = Vec::new();
    let mut i: usize = 0;
    proof {
        assert(raw.deep_view().take(0) =~= Seq::<Seq<char>>::empty());
    }
    while i < raw.len()
        invariant
            i <= raw.len(),
            raw.deep_view() == split_on(output@, '\n'),
            lines.deep_view() == cleaned(raw.deep_view().take(i as int)),
        decreases raw.len() - i,
    {
        let ghost rv = raw.deep_view();
        let ghost old_lines = lines.deep_view();
        let t = trim_end_str(raw[i].as_str());
        proof {
            assert(rv.take(i + 1).drop_last() =~= rv.take(i as int));
            assert(rv.take(i + 1).last() == rv[i as int]);
        }
        if t.unicode_len() > 0 {
            lines.push(String::from_str(t));
            proof {
                assert(lines.deep_view() =~= old_lines.push(t@));
            }
        }
        i = i + 1;
    }
    proof {
        assert(raw.deep_view().take(raw.deep_view().len() as int) =~= raw.deep_view());
        lemma_cleaned_nonempty(split_on(output@, '\n'));
    }
    lines
}

/// The status message `<count> row(s)`.
pub open spec fn rows_message(count: nat) -> Seq<char> {
    u64_dec(count) + " row(s)"@
}

fn rows_message_string(count: u64) -> (r: String)
    ensures
        r@ == rows_message(count as nat),
{
    let mut m = u64_to_string(count);
    m.append(" row(s)");
    m
}

/// The cells of each line, in order.
pub open spec fn cells_of_lines(lines: Seq<Seq<char>>) -> Seq<Seq<Seq<char>>>
    decreases lines.len(),
{
    if lines.len() == 0 {
        Seq::empty()
    } else {
        cells_of_lines(lines.drop_last()).push(row_cells(lines.last()))
    }
}

/// The table part of the legacy exec parse, once the kept lines and the
/// trailer count are fixed: the first body line holds the column names,
/// the second is the separator, every later line is a data row with
/// exactly one cell per column. The reported count is the trailer's when
/// one was present, else the number of data rows; either way it is kept
/// only when positive, while the status message always names it.
pub open spec fn legacy_exec_model_tail(
    body: Seq<Seq<char>>,
    duration_ms: u64,
    trailer: Option<u64>,
) -> Result<QueryResultModel, Seq<char>> {
    if body.len() < 2 {
        Err("unexpected table output"@)
    } else {
        let columns = row_cells(body[0]);
        if columns.len() == 0 {
            Err("missing column definitions"@)
        } else {
            let data = body.skip(2);
            if exists|i: int| 0 <= i < data.len() && row_cells(data[i]).len() != columns.len() {
                Err("row column count mismatch"@)
            } else {
                Ok(
                    QueryResultModel {
                        columns,
                        rows: cells_of_lines(data),
                        duration_ms,
                        rows_affected: match trailer {
                            Some(c) => if c > 0 {
                                Some(c)
                            } else {
                                None
                            },
                            None => if data.len() > 0 {
                                Some(data.len() as u64)
                            } else {
                                None
                            },
                        },
                        message: match trailer {
                            Some(c) => Some(rows_message(c as nat)),
                            None => Some(rows_message(data.len() as nat)),
                        },
                    },
                )
            }
        }
    }
}

/// The whole legacy exec parse, as a function of the output text and the
/// elapsed time of the invocation that produced it.
///
/// The steps, in order: keep the non-empty trimmed lines; a lone line not
/// opening with `(` is a status message whose leading digits become the
/// affected-rows count; otherwise an optional `(<count> row(s))` trailer
/// is taken off the end, and the rest is parsed as a table.
pub open spec fn legacy_exec_model(s: Seq<char>, duration_ms: u64) -> Result<
    QueryResultModel,
    Seq<char>,
> {
    let lines = clean_lines(s);
    if lines.len() == 0 {
        Err("granitectl returned no output"@)
    } else if lines.len() == 1 && lines[0][0] != '(' {
        let message = trim_spec(lines[0]);
        Ok(
            QueryResultModel {
                columns: Seq::empty(),
                rows: Seq::empty(),
                duration_ms,
                rows_affected: rows_affected_of(message),
                message: Some(message),
            },
        )
    } else {
        let trailer = row_count_of(lines.last());
        let body = if trailer is Some {
            lines.drop_last()
        } else {
            lines
        };
        legacy_exec_model_tail(body, duration_ms, trailer)
    }
}

/// Parses legacy tabular exec output into the canonical structured result,
/// with `duration_ms` as the elapsed time to report.
pub fn parse_legacy_exec_output(output: &str, duration_ms: u64) -> (r: Result<
    QueryResultPayload,
    String,
>)
    ensures
        match r {
            Ok(p) => legacy_exec_model(output@, duration_ms) == Ok::<QueryResultModel, Seq<char>>(p@),
            Err(e) => legacy_exec_model(output@, duration_ms) == Err::<QueryResultModel, Seq<char>>(e@),
        },
{
    let mut lines = clean_lines_vec(output);
    let ghost lv = lines.deep_view();
    if lines.len() == 0 {
        proof {
            assert(lv.len() == 0);
        }
        return Err(String::from_str("granitectl returned no output"));
    }
    if lines.len() == 1 {
        let first = lines[0].as_str();
        if first.get_char(0) != '(' {
            let message = String::from_str(trim_str(first));
            let rows_affected = extract_rows_affected(message.as_str());
            let p = QueryResultPayload {
                columns: Vec::new(),
                rows: Vec::new(),
                duration_ms,
                rows_affected,
                message: Some(message),
            };
            proof {
                assert(p.columns.deep_view() =~= Seq::<Seq<char>>::empty());
                assert(p.rows.deep_view() =~= Seq::<Seq<Seq<char>>>::empty());
            }
            return Ok(p);
        }
    }
    let ghost trailerg = row_count_of(lv.last());
    let mut rows_affected: Option<u64> = None;
    let mut message: Option<String> = None;
    let mut had_trailer: bool = false;
    let last_idx = lines.len() - 1;
    match parse_row_count_line(lines[last_idx].as_str()) {
        Some(count) => {
            lines.pop();
            had_trailer = true;
            if count > 0 {
                rows_affected = Some(count);
            }
            message = Some(rows_message_string(count));
            proof {
                assert(lines.deep_view() =~= lv.drop_last());
            }
        },
        None => {},
    }
    let ghost bodyv = if trailerg is Some {
        lv.drop_last()
    } else {
        lv
    };
    proof {
        assert(lines.deep_view() == bodyv);
    }
    if lines.len() < 2 {
        return Err(String::from_str("unexpected table output"));
    }
    let columns = split_table_row(lines[0].as_str());
    if columns.len() == 0 {
        proof {
            assert(columns.deep_view().len() == 0);
        }
        return Err(String::from_str("missing column definitions"));
    }
    let ghost colv = row_cells(bodyv[0]);
    let ghost datav = bodyv.skip(2);
    let mut data: Vec<Vec<String>> = Vec::new();
    let mut i: usize = 2;
    proof {
        assert(datav.take(0) =~= Seq::<Seq<char>>::empty());
    }
    while i < lines.len()
        invariant
            2 <= i <= lines.len(),
            lines.deep_view() == bodyv,
            bodyv.len() >= 2,
            datav == bodyv.skip(2),
            columns.deep_view() == colv,
            colv == row_cells(bodyv[0]),
            colv.len() > 0,
            legacy_exec_model(output@, duration_ms) == legacy_exec_model_tail(
                bodyv,
                duration_ms,
                trailerg,
            ),
            data.len() == i - 2,
            data.deep_view() == cells_of_lines(datav.take(i - 2)),
            forall|k: int| 0 <= k < i - 2 ==> row_cells(datav[k]).len() == colv.len(),
        decreases lines.len() - i,
    {
        let ghost old_data = data.deep_view();
        let vals = split_table_row(lines[i].as_str());
        proof {
            assert(datav[i - 2] == bodyv[i as int]);
            assert(vals.deep_view() == row_cells(datav[i - 2]));
            assert(vals.len() == vals.deep_view().len());
            assert(columns.len() == colv.len());
        }
        if vals.len() != columns.len() {
            proof {
                assert(0 <= i - 2 < datav.len());
                assert(row_cells(datav[i - 2]).len() != row_cells(bodyv[0]).len());
                assert(exists|k: int|
                    0 <= k < datav.len() && row_cells(datav[k]).len() != row_cells(
                        bodyv[0],
                    ).len());
            }
            return Err(String::from_str("row column count mismatch"));
        }
        data.push(vals);
        proof {
            assert(datav.take(i - 2 + 1).drop_last() =~= datav.take(i - 2));
            assert(datav.take(i - 2 + 1).last() == datav[i - 2]);
            assert(data.deep_view() =~= old_data.push(vals.deep_view()));
        }
        i = i + 1;
    }
    proof {
        assert(datav.take(datav.len() as int) =~= datav);
        assert(!(exists|k: int| 0 <= k < datav.len() && row_cells(datav[k]).len() != colv.len()));
    }
    if !had_trailer {
        let count: u64 = data.len() as u64;
        if count > 0 {
            rows_affected = Some(count);
        }
        message = Some(rows_message_string(count));
    }
    let p = QueryResultPayload { columns, rows: data, duration_ms, rows_affected, message };
    Ok(p)
}

/// A reported rows-affected count is always positive: a count of zero —
/// whether from a `(0 row(s))` trailer, an empty data section, or a
/// status message opening with `0` — is spoken of only in the status
/// message, never as rows affected. The output must fit the machine, as
/// every captured output does.
pub proof fn lemma_rows_affected_positive(s: Seq<char>, duration_ms: u64)
    requires
        s.len() <= u64::MAX,
    ensures
        legacy_exec_model(s, duration_ms) matches Ok(m) ==> (m.rows_affected matches Some(v) ==> v
            > 0),
{
    crate::text::lemma_split_on_len(s, '\n');
    crate::text::lemma_cleaned_len(crate::text::split_on(s, '\n'));
    let lines = clean_lines(s);
    assert(lines.len() <= s.len() + 1);
    if lines.len() == 0 {
    } else if lines.len() == 1 && lines[0][0] != '(' {
        let message = trim_spec(lines[0]);
        assert(rows_affected_of(message) matches Some(v) ==> v > 0);
    } else {
        let trailer = row_count_of(lines.last());
        let body = if trailer is Some {
            lines.drop_last()
        } else {
            lines
        };
        assert(legacy_exec_model(s, duration_ms) == legacy_exec_model_tail(
            body,
            duration_ms,
            trailer,
        ));
        if body.len() >= 2 {
            let data = body.skip(2);
            assert(data.len() <= s.len());
            assert(legacy_exec_model_tail(body, duration_ms, trailer) matches Ok(m) ==> (
            m.rows_affected matches Some(v) ==> v > 0));
        }
    }
}

/// The structured result of a legacy-mode exec invocation, given its
/// captured output text and the elapsed milliseconds of the run.
pub fn legacy_exec_result(output: &str, duration_ms: u64) -> (r: Result<
    QueryResultPayload,
    String,
>)
    ensures
        match r {
            Ok(p) => legacy_exec_model(output@, duration_ms) == Ok::<QueryResultModel, Seq<char>>(p@),
            Err(e) => legacy_exec_model(output@, duration_ms) == Err::<QueryResultModel, Seq<char>>(e@),
        },
{
    parse_legacy_exec_output(output, duration_ms)
}

} // verus!
