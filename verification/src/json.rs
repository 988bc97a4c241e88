//! Rendering a schema snapshot as the canonical structured (JSON) text
//! that the tool's modern metadata mode returns, so callers cannot tell
//! the two paths apart.

use vstd::prelude::*;
use vstd::string::StrSliceExecFns;
use vstd::string::StringExecFns;

use crate::metadata::legacy_metadata_model;
use crate::metadata::parse_legacy_metadata;
use crate::metadata::LegacyMetadata;
use crate::numbers::u64_dec;
use crate::numbers::u64_to_string;
use crate::schema::ColumnModel;
use crate::schema::ForeignKeyModel;
use crate::schema::IndexModel;
use crate::schema::LegacyColumn;
use crate::schema::LegacyForeignKey;
use crate::schema::LegacyIndex;
use crate::schema::LegacyTable;
use crate::schema::TableModel;

verus! {

pub open spec fn hex_digit(d: nat) -> char {
    if d == 0 {
        '0'
    } else if d == 1 {
        '1'
    } else if d == 2 {
        '2'
    } else if d == 3 {
        '3'
    } else if d == 4 {
        '4'
    } else if d == 5 {
        '5'
    } else if d == 6 {
        '6'
    } else if d == 7 {
        '7'
    } else if d == 8 {
        '8'
    } else if d == 9 {
        '9'
    } else if d == 10 {
        'a'
    } else if d == 11 {
        'b'
    } else if d == 12 {
        'c'
    } else if d == 13 {
        'd'
    } else if d == 14 {
        'e'
    } else {
        'f'
    }
}

/// How one character stands inside a JSON string: quote, backslash and
/// control characters escaped, every other character itself.
pub open spec fn escape_char(c: char) -> Seq<char> {
    if c == '"' {
        "\\\""@
    } else if c == '\\' {
        "\\\\"@
    } else if c == '\n' {
        "\\n"@
    } else if c == '\r' {
        "\\r"@
    } else if c == '\t' {
        "\\t"@
    } else if c == '\u{8}' {
        "\\b"@
    } else if c == '\u{c}' {
        "\\f"@
    } else if (c as u32) < 32 {
        "\\u00"@ + seq![
            hex_digit(((c as u32) / 16) as nat),
            hex_digit(((c as u32) % 16) as nat),
        ]
    } else {
        seq![c]
    }
}

pub open spec fn escape_seq(s: Seq<char>) -> Seq<char>
    decreases s.len(),
{
    if s.len() == 0 {
        Seq::empty()
    } else {
        escape_seq(s.drop_last()) + escape_char(s.last())
    }
}

/// A JSON string literal: the escaped text between quotes.
pub open spec fn json_string(s: Seq<char>) -> Seq<char> {
    "\""@ + escape_seq(s) + "\""@
}

pub open spec fn json_bool(b: bool) -> Seq<char> {
    if b {
        "true"@
    } else {
        "false"@
    }
}

fn hex_digit_str(d: u32) -> (r: &'static str)
    requires
        d < 16,
    ensures
        r@ == seq![hex_digit(d as nat)],
{
    proof {
        reveal_strlit("0");
        reveal_strlit("1");
        reveal_strlit("2");
        reveal_strlit("3");
        reveal_strlit("4");
        reveal_strlit("5");
        reveal_strlit("6");
        reveal_strlit("7");
        reveal_strlit("8");
        reveal_strlit("9");
        reveal_strlit("a");
        reveal_strlit("b");
        reveal_strlit("c");
        reveal_strlit("d");
        reveal_strlit("e");
        reveal_strlit("f");
    }
    if d == 0 {
        "0"
    } else if d == 1 {
        "1"
    } else if d == 2 {
        "2"
    } else if d == 3 {
        "3"
    } else if d == 4 {
        "4"
    } else if d == 5 {
        "5"
    } else if d == 6 {
        "6"
    } else if d == 7 {
        "7"
    } else if d == 8 {
        "8"
    } else if d == 9 {
        "9"
    } else if d == 10 {
        "a"
    } else if d == 11 {
        "b"
    } else if d == 12 {
        "c"
    } else if d == 13 {
        "d"
    } else if d == 14 {
        "e"
    } else {
        "f"
    }
}

fn push_json_escaped(out: &mut String, s: &str)
    ensures
        final(out)@ == old(out)@ + escape_seq(s@),
{
    let n: usize = s.unicode_len();
    let mut i: usize = 0;
    proof {
        assert(s@.take(0) =~= Seq::<char>::empty());
        assert(out@ + escape_seq(s@.take(0)) =~= out@);
    }
    while i < n
        invariant
            i <= n,
            n == s@.len(),
            out@ == old(out)@ + escape_seq(s@.take(i as int)),
        decreases n - i,
    {
        let c = s.get_char(i);
        let ghost pre = out@;
        proof {
            assert(s@.take(i + 1).drop_last() =~= s@.take(i as int));
            assert(s@.take(i + 1).last() == s@[i as int]);
        }
        if c == '"' {
            out.append("\\\"");
        } else if c == '\\' {
            out.append("\\\\");
        } else if c == '\n' {
            out.append("\\n");
        } else if c == '\r' {
            out.append("\\r");
        } else if c == '\t' {
            out.append("\\t");
        } else if c == '\u{8}' {
            out.append("\\b");
        } else if c == '\u{c}' {
            out.append("\\f");
        } else if (c as u32) < 32 {
            let u: u32 = c as u32;
            out.append("\\u00");
            out.append(hex_digit_str(u / 16));
            out.append(hex_digit_str(u % 16));
            proof {
                assert(out@ =~= pre + escape_char(c));
            }
        } else {
            let piece = s.substring_char(i, i + 1);
            out.append(piece);
            proof {
                assert(piece@ =~= seq![s@[i as int]]);
            }
        }
        proof {
            assert(out@ =~= old(out)@ + escape_seq(s@.take(i + 1)));
        }
        i = i + 1;
    }
    proof {
        assert(s@.take(n as int) =~= s@);
    }
}

fn push_json_string(out: &mut String, s: &str)
    ensures
        final(out)@ == old(out)@ + json_string(s@),
{
    out.append("\"");
    push_json_escaped(out, s);
    out.append("\"");
    proof {
        assert(out@ =~= old(out)@ + json_string(s@));
    }
}

fn push_json_bool(out: &mut String, b: bool)
    ensures
        final(out)@ == old(out)@ + json_bool(b),
{
    if b {
        out.append("true");
    } else {
        out.append("false");
    }
}

/// One column as a JSON object.
pub open spec fn column_json(c: ColumnModel) -> Seq<char> {
    "{\"name\":"@ + json_string(c.name) + ",\"type\":"@ + json_string(c.column_type)
        + ",\"notNull\":"@ + json_bool(c.not_null) + ",\"pk\":"@ + json_bool(c.primary) + "}"@
}

fn push_column_json(out: &mut String, c: &LegacyColumn)
    ensures
        final(out)@ == old(out)@ + column_json(c@),
{
    out.append("{\"name\":");
    push_json_string(out, c.name.as_str());
    out.append(",\"type\":");
    push_json_string(out, c.column_type.as_str());
    out.append(",\"notNull\":");
    push_json_bool(out, c.not_null);
    out.append(",\"pk\":");
    push_json_bool(out, c.primary);
    out.append("}");
    proof {
        assert(out@ =~= old(out)@ + column_json(c@));
    }
}

/// The comma-separated items of a JSON array of strings.
pub open spec fn string_items_json(items: Seq<Seq<char>>) -> Seq<char>
    decreases items.len(),
{
    if items.len() == 0 {
        Seq::empty()
    } else if items.len() == 1 {
        json_string(items[0])
    } else {
        string_items_json(items.drop_last()) + ","@ + json_string(items.last())
    }
}

/// A JSON array of strings.
pub open spec fn string_array_json(items: Seq<Seq<char>>) -> Seq<char> {
    "["@ + string_items_json(items) + "]"@
}

fn push_string_array(out: &mut String, items: &Vec<String>)
    ensures
        final(out)@ == old(out)@ + string_array_json(items.deep_view()),
{
    out.append("[");
    let ghost iv = items.deep_view();
    let mut i: usize = 0;
    proof {
        assert(iv.take(0) =~= Seq::<Seq<char>>::empty());
        assert(out@ =~= old(out)@ + "["@ + string_items_json(iv.take(0)));
    }
    while i < items.len()
        invariant
            i <= items.len(),
            iv == items.deep_view(),
            iv.len() == items.len(),
            out@ == old(out)@ + "["@ + string_items_json(iv.take(i as int)),
        decreases items.len() - i,
    {
        let ghost pre = out@;
        if i > 0 {
            out.append(",");
        }
        push_json_string(out, items[i].as_str());
        proof {
            assert(iv.take(i + 1).drop_last() =~= iv.take(i as int));
            assert(iv.take(i + 1).last() == iv[i as int]);
            assert(out@ =~= old(out)@ + "["@ + string_items_json(iv.take(i + 1)));
        }
        i = i + 1;
    }
    out.append("]");
    proof {
        assert(iv.take(iv.len() as int) =~= iv);
        assert(out@ =~= old(out)@ + string_array_json(iv));
    }
}

/// One index as a JSON object.
pub open spec fn index_json(x: IndexModel) -> Seq<char> {
    "{\"name\":"@ + json_string(x.name) + ",\"columns\":"@ + string_array_json(x.columns)
        + ",\"unique\":"@ + json_bool(x.unique) + "}"@
}

fn push_index_json(out: &mut String, x: &LegacyIndex)
    ensures
        final(out)@ == old(out)@ + index_json(x@),
{
    out.append("{\"name\":");
    push_json_string(out, x.name.as_str());
    out.append(",\"columns\":");
    push_string_array(out, &x.columns);
    out.append(",\"unique\":");
    push_json_bool(out, x.unique);
    out.append("}");
    proof {
        assert(out@ =~= old(out)@ + index_json(x@));
    }
}

/// One foreign key as a JSON object.
pub open spec fn fk_json(f: ForeignKeyModel) -> Seq<char> {
    "{\"name\":"@ + json_string(f.name) + ",\"columns\":"@ + string_array_json(f.columns)
        + ",\"refTable\":"@ + json_string(f.ref_table) + ",\"refColumns\":"@ + string_array_json(
        f.ref_columns,
    ) + "}"@
}

fn push_fk_json(out: &mut String, f: &LegacyForeignKey)
    ensures
        final(out)@ == old(out)@ + fk_json(f@),
{
    out.append("{\"name\":");
    push_json_string(out, f.name.as_str());
    out.append(",\"columns\":");
    push_string_array(out, &f.columns);
    out.append(",\"refTable\":");
    push_json_string(out, f.ref_table.as_str());
    out.append(",\"refColumns\":");
    push_string_array(out, &f.ref_columns);
    out.append("}");
    proof {
        assert(out@ =~= old(out)@ + fk_json(f@));
    }
}

pub open spec fn column_items_json(items: Seq<ColumnModel>) -> Seq<char>
    decreases items.len(),
{
    if items.len() == 0 {
        Seq::empty()
    } else if items.len() == 1 {
        column_json(items[0])
    } else {
        column_items_json(items.drop_last()) + ","@ + column_json(items.last())
    }
}

pub open spec fn index_items_json(items: Seq<IndexModel>) -> Seq<char>
    decreases items.len(),
{
    if items.len() == 0 {
        Seq::empty()
    } else if items.len() == 1 {
        index_json(items[0])
    } else {
        index_items_json(items.drop_last()) + ","@ + index_json(items.last())
    }
}

pub open spec fn fk_items_json(items: Seq<ForeignKeyModel>) -> Seq<char>
    decreases items.len(),
{
    if items.len() == 0 {
        Seq::empty()
    } else if items.len() == 1 {
        fk_json(items[0])
    } else {
        fk_items_json(items.drop_last()) + ","@ + fk_json(items.last())
    }
}

/// The `indexes` member of a table object, or nothing when the section
/// is absent.
pub open spec fn indexes_section_json(x: Option<Seq<IndexModel>>) -> Seq<char> {
    match x {
        Some(xs) => ",\"indexes\":["@ + index_items_json(xs) + "]"@,
        None => Seq::<char>::empty(),
    }
}

/// The `fks` member of a table object, or nothing when the section is
/// absent.
pub open spec fn fks_section_json(f: Option<Seq<ForeignKeyModel>>) -> Seq<char> {
    match f {
        Some(fs) => ",\"fks\":["@ + fk_items_json(fs) + "]"@,
        None => Seq::<char>::empty(),
    }
}

/// One table as a JSON object: the optional sections appear only when
/// present, exactly as the canonical form omits absent sections.
pub open spec fn table_json(t: TableModel) -> Seq<char> {
    "{\"name\":"@ + json_string(t.name) + ",\"rowCount\":"@ + u64_dec(t.row_count as nat)
        + ",\"columns\":["@ + column_items_json(t.columns) + "]"@ + indexes_section_json(t.indexes)
        + fks_section_json(t.fks) + "}"@
}

fn push_column_items(out: &mut String, items: &Vec<LegacyColumn>)
    ensures
        final(out)@ == old(out)@ + column_items_json(items.deep_view()),
{
    let ghost cv = items.deep_view();
    let mut i: usize = 0;
    proof {
        assert(cv.take(0) =~= Seq::<ColumnModel>::empty());
        assert(out@ =~= old(out)@ + column_items_json(cv.take(0)));
    }
    while i < items.len()
        invariant
            i <= items.len(),
            cv == items.deep_view(),
            cv.len() == items.len(),
            out@ == old(out)@ + column_items_json(cv.take(i as int)),
        decreases items.len() - i,
    {
        if i > 0 {
            out.append(",");
        }
        push_column_json(out, &items[i]);
        proof {
            assert(cv.take(i + 1).drop_last() =~= cv.take(i as int));
            assert(cv.take(i + 1).last() == cv[i as int]);
            assert(out@ =~= old(out)@ + column_items_json(cv.take(i + 1)));
        }
        i = i + 1;
    }
    proof {
        assert(cv.take(cv.len() as int) =~= cv);
    }
}

fn push_index_items(out: &mut String, items: &Vec<LegacyIndex>)
    ensures
        final(out)@ == old(out)@ + index_items_json(items.deep_view()),
{
    let ghost xv = items.deep_view();
    let mut j: usize = 0;
    proof {
        assert(xv.take(0) =~= Seq::<IndexModel>::empty());
        assert(out@ =~= old(out)@ + index_items_json(xv.take(0)));
    }
    while j < items.len()
        invariant
            j <= items.len(),
            xv == items.deep_view(),
            xv.len() == items.len(),
            out@ == old(out)@ + index_items_json(xv.take(j as int)),
        decreases items.len() - j,
    {
        if j > 0 {
            out.append(",");
        }
        push_index_json(out, &items[j]);
        proof {
            assert(xv.take(j + 1).drop_last() =~= xv.take(j as int));
            assert(xv.take(j + 1).last() == xv[j as int]);
            assert(out@ =~= old(out)@ + index_items_json(xv.take(j + 1)));
        }
        j = j + 1;
    }
    proof {
        assert(xv.take(xv.len() as int) =~= xv);
    }
}

fn push_fk_items(out: &mut String, items: &Vec<LegacyForeignKey>)
    ensures
        final(out)@ == old(out)@ + fk_items_json(items.deep_view()),
{
    let ghost fv = items.deep_view();
    let mut k: usize = 0;
    proof {
        assert(fv.take(0) =~= Seq::<ForeignKeyModel>::empty());
        assert(out@ =~= old(out)@ + fk_items_json(fv.take(0)));
    }
    while k < items.len()
        invariant
            k <= items.len(),
            fv == items.deep_view(),
            fv.len() == items.len(),
            out@ == old(out)@ + fk_items_json(fv.take(k as int)),
        decreases items.len() - k,
    {
        if k > 0 {
            out.append(",");
        }
        push_fk_json(out, &items[k]);
        proof {
            assert(fv.take(k + 1).drop_last() =~= fv.take(k as int));
            assert(fv.take(k + 1).last() == fv[k as int]);
            assert(out@ =~= old(out)@ + fk_items_json(fv.take(k + 1)));
        }
        k = k + 1;
    }
    proof {
        assert(fv.take(fv.len() as int) =~= fv);
    }
}

#[verifier::rlimit(50)]
fn push_table_json(out: &mut String, t: &LegacyTable)
    ensures
        final(out)@ == old(out)@ + table_json(t@),
{
    out.append("{\"name\":");
    push_json_string(out, t.name.as_str());
    out.append(",\"rowCount\":");
    let num = u64_to_string(t.row_count);
    out.append(num.as_str());
    out.append(",\"columns\":[");
    push_column_items(out, &t.columns);
    out.append("]");
    let ghost pre_idx = out@;
    match &t.indexes {
        Some(xs) => {
            let mut sect = String::from_str(",\"indexes\":[");
            push_index_items(&mut sect, xs);
            sect.append("]");
            proof {
                assert(sect@ == indexes_section_json(t@.indexes));
            }
            out.append(sect.as_str());
        },
        None => {
            proof {
                assert(out@ =~= pre_idx + indexes_section_json(t@.indexes));
            }
        },
    }
    let ghost pre_fks = out@;
    match &t.fks {
        Some(fs) => {
            let mut sect = String::from_str(",\"fks\":[");
            push_fk_items(&mut sect, fs);
            sect.append("]");
            proof {
                assert(sect@ == fks_section_json(t@.fks));
            }
            out.append(sect.as_str());
        },
        None => {
            proof {
                assert(out@ =~= pre_fks + fks_section_json(t@.fks));
            }
        },
    }
    out.append("}");
    proof {
        assert(out@ == old(out)@ + table_json(t@));
    }
}

pub open spec fn table_items_json(items: Seq<TableModel>) -> Seq<char>
    decreases items.len(),
{
    if items.len() == 0 {
        Seq::empty()
    } else if items.len() == 1 {
        table_json(items[0])
    } else {
        table_items_json(items.drop_last()) + ","@ + table_json(items.last())
    }
}

/// The canonical JSON text for a whole schema snapshot.
pub open spec fn metadata_json_spec(tables: Seq<TableModel>) -> Seq<char> {
    "{\"tables\":["@ + table_items_json(tables) + "]}"@
}

/// Renders a parsed snapshot as the canonical structured text.
pub fn metadata_json(m: &LegacyMetadata) -> (r: String)
    ensures
        r@ == metadata_json_spec(m@.tables),
{
    let mut out = String::from_str("{\"tables\":[");
    let ghost tv = m.tables.deep_view();
    let ghost mid = out@;
    let mut i: usize = 0;
    proof {
        assert(tv.take(0) =~= Seq::<TableModel>::empty());
        assert(out@ =~= mid + table_items_json(tv.take(0)));
    }
    while i < m.tables.len()
        invariant
            i <= m.tables.len(),
            tv == m.tables.deep_view(),
            tv.len() == m.tables.len(),
            mid == "{\"tables\":["@,
            out@ == mid + table_items_json(tv.take(i as int)),
        decreases m.tables.len() - i,
    {
        if i > 0 {
            out.append(",");
        }
        push_table_json(&mut out, &m.tables[i]);
        proof {
            assert(tv.take(i + 1).drop_last() =~= tv.take(i as int));
            assert(tv.take(i + 1).last() == tv[i as int]);
            assert(out@ =~= mid + table_items_json(tv.take(i + 1)));
        }
        i = i + 1;
    }
    out.append("]}");
    proof {
        assert(tv.take(tv.len() as int) =~= tv);
        assert(out@ =~= metadata_json_spec(tv));
    }
    out
}

/// The canonical structured metadata text for a legacy dump: the dump
/// parsed, then rendered as the JSON the modern mode would have returned.
pub fn legacy_metadata(dump_output: &str) -> (r: Result<String, String>)
    ensures
        match r {
            Ok(s) => legacy_metadata_model(dump_output@) matches Ok(ts) && s@
                == metadata_json_spec(ts),
            Err(e) => legacy_metadata_model(dump_output@) == Err::<
                Seq<TableModel>,
                Seq<char>,
            >(e@),
        },
{
    match parse_legacy_metadata(dump_output) {
        Ok(m) => Ok(metadata_json(&m)),
        Err(e) => Err(e),
    }
}

} // verus!
