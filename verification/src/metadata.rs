//! The legacy metadata parser: a single-pass, line-oriented state machine
//! over the tool's indented dump text, building the schema snapshot.

use vstd::prelude::*;
use vstd::string::StrSliceExecFns;
use vstd::string::StringExecFns;

use crate::schema::column_of;
use crate::schema::finalize;
use crate::schema::fk_of_line;
use crate::schema::index_of_line;
use crate::schema::parse_legacy_column;
use crate::schema::parse_legacy_fk;
use crate::schema::parse_legacy_index;
use crate::schema::parse_table_header;
use crate::schema::table_header_of;
use crate::schema::BuilderModel;
use crate::schema::LegacyTable;
use crate::schema::LegacyTableBuilder;
use crate::schema::TableModel;
use crate::text::split_on;
use crate::text::split_on_char;
use crate::text::starts_with_str;
use crate::text::starts_with_spec;
use crate::text::str_eq;
use crate::text::strip_prefix_str;
use crate::text::trim_end_all;
use crate::text::trim_end_str;

verus! {

/// The parsing mode inside a table block.
#[derive(Clone, Copy, Debug, PartialEq, Eq, Structural)]
pub enum LegacySection {
    Columns,
    Indexes,
    ForeignKeys,
}

/// The parsed schema snapshot: every table of the dump, in order.
#[derive(Debug, Clone)]
pub struct LegacyMetadata {
    pub tables: Vec<LegacyTable>,
}

/// The mathematical shape of a schema snapshot.
pub struct MetadataModel {
    pub tables: Seq<TableModel>,
}

impl View for LegacyMetadata {
    type V = MetadataModel;

    open spec fn view(&self) -> MetadataModel {
        MetadataModel { tables: self.tables.deep_view() }
    }
}

/// Appends the open table, closed, if one is open.
pub open spec fn close_current(tables: Seq<TableModel>, cur: Option<BuilderModel>) -> Seq<
    TableModel,
> {
    match cur {
        Some(b) => tables.push(finalize(b)),
        None => tables,
    }
}

/// The state machine, one line at a time. Blank lines are skipped; the
/// sentinel `No tables defined` short-circuits to an empty snapshot; a
/// `Table ` header closes the open table and opens a new one in Columns
/// mode; the section markers switch mode once a table is open; inside a
/// section, a line with the section's dash prefix describes one entry and
/// any other line is ignored. The end of input closes the open table.
pub open spec fn meta_run(
    lines: Seq<Seq<char>>,
    tables: Seq<TableModel>,
    cur: Option<BuilderModel>,
    sec: LegacySection,
) -> Result<Seq<TableModel>, Seq<char>>
    decreases lines.len(),
{
    if lines.len() == 0 {
        Ok(close_current(tables, cur))
    } else {
        let line = lines[0];
        let rest = lines.drop_first();
        if line.len() == 0 {
            meta_run(rest, tables, cur, sec)
        } else if line == "No tables defined"@ {
            Ok(Seq::empty())
        } else if starts_with_spec(line, "Table "@) {
            match table_header_of(line.skip(6), line) {
                Ok(h) => meta_run(
                    rest,
                    close_current(tables, cur),
                    Some(
                        BuilderModel {
                            name: h.0,
                            row_count: h.1,
                            columns: Seq::empty(),
                            indexes: Seq::empty(),
                            fks: Seq::empty(),
                        },
                    ),
                    LegacySection::Columns,
                ),
                Err(e) => Err(e),
            }
        } else {
            match cur {
                None => meta_run(rest, tables, cur, sec),
                Some(b) => {
                    if line == "  Indexes:"@ {
                        meta_run(rest, tables, cur, LegacySection::Indexes)
                    } else if line == "  Foreign Keys:"@ {
                        meta_run(rest, tables, cur, LegacySection::ForeignKeys)
                    } else {
                        match sec {
                            LegacySection::Columns => {
                                if starts_with_spec(line, "  - "@) {
                                    match column_of(line.skip(4)) {
                                        Ok(c) => meta_run(
                                            rest,
                                            tables,
                                            Some(
                                                BuilderModel {
                                                    name: b.name,
                                                    row_count: b.row_count,
                                                    columns: b.columns.push(c),
                                                    indexes: b.indexes,
                                                    fks: b.fks,
                                                },
                                            ),
                                            sec,
                                        ),
                                        Err(e) => Err(e),
                                    }
                                } else {
                                    meta_run(rest, tables, cur, sec)
                                }
                            },
                            LegacySection::Indexes => {
                                if starts_with_spec(line, "    - "@) {
                                    match index_of_line(line.skip(6)) {
                                        Ok(x) => meta_run(
                                            rest,
                                            tables,
                                            Some(
                                                BuilderModel {
                                                    name: b.name,
                                                    row_count: b.row_count,
                                                    columns: b.columns,
                                                    indexes: b.indexes.push(x),
                                                    fks: b.fks,
                                                },
                                            ),
                                            sec,
                                        ),
                                        Err(e) => Err(e),
                                    }
                                } else {
                                    meta_run(rest, tables, cur, sec)
                                }
                            },
                            LegacySection::ForeignKeys => {
                                if starts_with_spec(line, "    - "@) {
                                    match fk_of_line(line.skip(6)) {
                                        Ok(f) => meta_run(
                                            rest,
                                            tables,
                                            Some(
                                                BuilderModel {
                                                    name: b.name,
                                                    row_count: b.row_count,
                                                    columns: b.columns,
                                                    indexes: b.indexes,
                                                    fks: b.fks.push(f),
                                                },
                                            ),
                                            sec,
                                        ),
                                        Err(e) => Err(e),
                                    }
                                } else {
                                    meta_run(rest, tables, cur, sec)
                                }
                            },
                        }
                    }
                },
            }
        }
    }
}

/// The dump's lines, each with trailing whitespace removed.
pub open spec fn meta_lines(s: Seq<char>) -> Seq<Seq<char>> {
    trim_end_all(split_on(s, '\n'))
}

/// The whole legacy metadata parse.
pub open spec fn legacy_metadata_model(s: Seq<char>) -> Result<Seq<TableModel>, Seq<char>> {
    meta_run(meta_lines(s), Seq::empty(), None::<BuilderModel>, LegacySection::Columns)
}

proof fn lemma_meta_run_sentinel(lines: Seq<Seq<char>>, i: int)
    requires
        0 <= i < lines.len(),
        lines[i] == "No tables defined"@,
    ensures
        forall|tables: Seq<TableModel>, cur: Option<BuilderModel>, sec: LegacySection|
            (#[trigger] meta_run(lines, tables, cur, sec)) is Err || meta_run(
                lines,
                tables,
                cur,
                sec,
            ) == Ok::<Seq<TableModel>, Seq<char>>(Seq::empty()),
    decreases lines.len(),
{
    reveal_strlit("No tables defined");
    if i == 0 {
        assert forall|tables: Seq<TableModel>, cur: Option<BuilderModel>, sec: LegacySection|
            (#[trigger] meta_run(lines, tables, cur, sec)) is Err || meta_run(
                lines,
                tables,
                cur,
                sec,
            ) == Ok::<Seq<TableModel>, Seq<char>>(Seq::empty()) by {
            assert(lines[0].len() != 0);
            assert(meta_run(lines, tables, cur, sec) == Ok::<Seq<TableModel>, Seq<char>>(
                Seq::empty(),
            ));
        }
    } else {
        lemma_meta_run_sentinel(lines.drop_first(), i - 1);
        assert(lines.drop_first()[i - 1] == lines[i]);
        assert forall|tables: Seq<TableModel>, cur: Option<BuilderModel>, sec: LegacySection|
            (#[trigger] meta_run(lines, tables, cur, sec)) is Err || meta_run(
                lines,
                tables,
                cur,
                sec,
            ) == Ok::<Seq<TableModel>, Seq<char>>(Seq::empty()) by {
            let line = lines[0];
            let rest = lines.drop_first();
            if line.len() == 0 {
                assert(meta_run(lines, tables, cur, sec) == meta_run(rest, tables, cur, sec));
            } else if line == "No tables defined"@ {
            } else if starts_with_spec(line, "Table "@) {
                match table_header_of(line.skip(6), line) {
                    Ok(h) => {
                        assert(meta_run(lines, tables, cur, sec) == meta_run(
                            rest,
                            close_current(tables, cur),
                            Some(
                                BuilderModel {
                                    name: h.0,
                                    row_count: h.1,
                                    columns: Seq::empty(),
                                    indexes: Seq::empty(),
                                    fks: Seq::empty(),
                                },
                            ),
                            LegacySection::Columns,
                        ));
                    },
                    Err(_) => {},
                }
            } else {
                match cur {
                    None => {
                        assert(meta_run(lines, tables, cur, sec) == meta_run(
                            rest,
                            tables,
                            cur,
                            sec,
                        ));
                    },
                    Some(b) => {
                        if line == "  Indexes:"@ {
                            assert(meta_run(lines, tables, cur, sec) == meta_run(
                                rest,
                                tables,
                                cur,
                                LegacySection::Indexes,
                            ));
                        } else if line == "  Foreign Keys:"@ {
                            assert(meta_run(lines, tables, cur, sec) == meta_run(
                                rest,
                                tables,
                                cur,
                                LegacySection::ForeignKeys,
                            ));
                        } else {
                            match sec {
                                LegacySection::Columns => {
                                    if starts_with_spec(line, "  - "@) {
                                        match column_of(line.skip(4)) {
                                            Ok(c) => {
                                                assert(meta_run(lines, tables, cur, sec)
                                                    == meta_run(
                                                    rest,
                                                    tables,
                                                    Some(
                                                        BuilderModel {
                                                            name: b.name,
                                                            row_count: b.row_count,
                                                            columns: b.columns.push(c),
                                                            indexes: b.indexes,
                                                            fks: b.fks,
                                                        },
                                                    ),
                                                    sec,
                                                ));
                                            },
                                            Err(_) => {},
                                        }
                                    } else {
                                        assert(meta_run(lines, tables, cur, sec) == meta_run(
                                            rest,
                                            tables,
                                            cur,
                                            sec,
                                        ));
                                    }
                                },
                                LegacySection::Indexes => {
                                    if starts_with_spec(line, "    - "@) {
                                        match index_of_line(line.skip(6)) {
                                            Ok(x) => {
                                                assert(meta_run(lines, tables, cur, sec)
                                                    == meta_run(
                                                    rest,
                                                    tables,
                                                    Some(
                                                        BuilderModel {
                                                            name: b.name,
                                                            row_count: b.row_count,
                                                            columns: b.columns,
                                                            indexes: b.indexes.push(x),
                                                            fks: b.fks,
                                                        },
                                                    ),
                                                    sec,
                                                ));
                                            },
                                            Err(_) => {},
                                        }
                                    } else {
                                        assert(meta_run(lines, tables, cur, sec) == meta_run(
                                            rest,
                                            tables,
                                            cur,
                                            sec,
                                        ));
                                    }
                                },
                                LegacySection::ForeignKeys => {
                                    if starts_with_spec(line, "    - "@) {
                                        match fk_of_line(line.skip(6)) {
                                            Ok(f) => {
                                                assert(meta_run(lines, tables, cur, sec)
                                                    == meta_run(
                                                    rest,
                                                    tables,
                                                    Some(
                                                        BuilderModel {
                                                            name: b.name,
                                                            row_count: b.row_count,
                                                            columns: b.columns,
                                                            indexes: b.indexes,
                                                            fks: b.fks.push(f),
                                                        },
                                                    ),
                                                    sec,
                                                ));
                                            },
                                            Err(_) => {},
                                        }
                                    } else {
                                        assert(meta_run(lines, tables, cur, sec) == meta_run(
                                            rest,
                                            tables,
                                            cur,
                                            sec,
                                        ));
                                    }
                                },
                            }
                        }
                    },
                }
            }
        }
    }
}

/// A dump that carries the sentinel line `No tables defined` anywhere
/// never yields tables: the parse either short-circuits to the empty
/// snapshot on reaching the sentinel, or fails on a malformed line that
/// stands before it — it cannot succeed with a table.
pub proof fn lemma_sentinel_empties_snapshot(s: Seq<char>)
    requires
        exists|i: int|
            0 <= i < meta_lines(s).len() && meta_lines(s)[i] == "No tables defined"@,
    ensures
        legacy_metadata_model(s) is Err || legacy_metadata_model(s) == Ok::<
            Seq<TableModel>,
            Seq<char>,
        >(Seq::empty()),
{
    let i = choose|i: int|
        0 <= i < meta_lines(s).len() && meta_lines(s)[i] == "No tables defined"@;
    lemma_meta_run_sentinel(meta_lines(s), i);
}

proof fn lemma_meta_run_sentinel_no_header(lines: Seq<Seq<char>>, i: int)
    requires
        0 <= i < lines.len(),
        lines[i] == "No tables defined"@,
        forall|j: int| 0 <= j < i ==> !starts_with_spec(#[trigger] lines[j], "Table "@),
    ensures
        forall|tables: Seq<TableModel>, sec: LegacySection|
            #[trigger] meta_run(lines, tables, None::<BuilderModel>, sec) == Ok::<
                Seq<TableModel>,
                Seq<char>,
            >(Seq::empty()),
    decreases lines.len(),
{
    reveal_strlit("No tables defined");
    if i == 0 {
        assert forall|tables: Seq<TableModel>, sec: LegacySection|
            #[trigger] meta_run(lines, tables, None::<BuilderModel>, sec) == Ok::<
                Seq<TableModel>,
                Seq<char>,
            >(Seq::empty()) by {
            assert(lines[0].len() != 0);
        }
    } else {
        lemma_meta_run_sentinel_no_header(lines.drop_first(), i - 1);
        assert(lines.drop_first()[i - 1] == lines[i]);
        assert(forall|j: int|
            0 <= j < i - 1 ==> !starts_with_spec(#[trigger] lines.drop_first()[j], "Table "@));
        assert forall|tables: Seq<TableModel>, sec: LegacySection|
            #[trigger] meta_run(lines, tables, None::<BuilderModel>, sec) == Ok::<
                Seq<TableModel>,
                Seq<char>,
            >(Seq::empty()) by {
            let line = lines[0];
            let rest = lines.drop_first();
            assert(!starts_with_spec(line, "Table "@));
            if line.len() == 0 {
                assert(meta_run(lines, tables, None::<BuilderModel>, sec) == meta_run(
                    rest,
                    tables,
                    None::<BuilderModel>,
                    sec,
                ));
            } else if line == "No tables defined"@ {
            } else {
                assert(meta_run(lines, tables, None::<BuilderModel>, sec) == meta_run(
                    rest,
                    tables,
                    None::<BuilderModel>,
                    sec,
                ));
            }
        }
    }
}

/// A dump whose sentinel line stands where a header line would otherwise
/// start — that is, with no `Table ` header before it — parses to the
/// empty snapshot, whatever else surrounds it.
pub proof fn lemma_sentinel_without_header_is_empty(s: Seq<char>)
    requires
        exists|i: int|
            {
                &&& 0 <= i < meta_lines(s).len()
                &&& meta_lines(s)[i] == "No tables defined"@
                &&& forall|j: int|
                    0 <= j < i ==> !starts_with_spec(#[trigger] meta_lines(s)[j], "Table "@)
            },
    ensures
        legacy_metadata_model(s) == Ok::<Seq<TableModel>, Seq<char>>(Seq::empty()),
{
    let i = choose|i: int|
        {
            &&& 0 <= i < meta_lines(s).len()
            &&& meta_lines(s)[i] == "No tables defined"@
            &&& forall|j: int|
                0 <= j < i ==> !starts_with_spec(#[trigger] meta_lines(s)[j], "Table "@)
        };
    lemma_meta_run_sentinel_no_header(meta_lines(s), i);
}

/// A table whose optional sections, when present, hold at least one
/// entry.
pub open spec fn sections_present(t: TableModel) -> bool {
    &&& (t.indexes matches Some(xs) ==> xs.len() > 0)
    &&& (t.fks matches Some(fs) ==> fs.len() > 0)
}

proof fn lemma_meta_run_sections(
    lines: Seq<Seq<char>>,
    tables: Seq<TableModel>,
    cur: Option<BuilderModel>,
    sec: LegacySection,
)
    requires
        forall|i: int| 0 <= i < tables.len() ==> sections_present(#[trigger] tables[i]),
    ensures
        meta_run(lines, tables, cur, sec) matches Ok(ts) ==> forall|i: int|
            0 <= i < ts.len() ==> sections_present(#[trigger] ts[i]),
    decreases lines.len(),
{
    let closed = close_current(tables, cur);
    assert forall|i: int| 0 <= i < closed.len() implies sections_present(#[trigger] closed[i]) by {
        if i < tables.len() {
            assert(sections_present(tables[i]));
        }
    }
    if lines.len() == 0 {
    } else {
        let line = lines[0];
        let rest = lines.drop_first();
        if line.len() == 0 {
            lemma_meta_run_sections(rest, tables, cur, sec);
        } else if line == "No tables defined"@ {
        } else if starts_with_spec(line, "Table "@) {
            match table_header_of(line.skip(6), line) {
                Ok(h) => {
                    lemma_meta_run_sections(
                        rest,
                        closed,
                        Some(
                            BuilderModel {
                                name: h.0,
                                row_count: h.1,
                                columns: Seq::empty(),
                                indexes: Seq::empty(),
                                fks: Seq::empty(),
                            },
                        ),
                        LegacySection::Columns,
                    );
                },
                Err(_) => {},
            }
        } else {
            match cur {
                None => {
                    lemma_meta_run_sections(rest, tables, cur, sec);
                },
                Some(b) => {
                    if line == "  Indexes:"@ {
                        lemma_meta_run_sections(rest, tables, cur, LegacySection::Indexes);
                    } else if line == "  Foreign Keys:"@ {
                        lemma_meta_run_sections(rest, tables, cur, LegacySection::ForeignKeys);
                    } else {
                        match sec {
                            LegacySection::Columns => {
                                if starts_with_spec(line, "  - "@) {
                                    match column_of(line.skip(4)) {
                                        Ok(c) => {
                                            lemma_meta_run_sections(
                                                rest,
                                                tables,
                                                Some(
                                                    BuilderModel {
                                                        name: b.name,
                                                        row_count: b.row_count,
                                                        columns: b.columns.push(c),
                                                        indexes: b.indexes,
                                                        fks: b.fks,
                                                    },
                                                ),
                                                sec,
                                            );
                                        },
                                        Err(_) => {},
                                    }
                                } else {
                                    lemma_meta_run_sections(rest, tables, cur, sec);
                                }
                            },
                            LegacySection::Indexes => {
                                if starts_with_spec(line, "    - "@) {
                                    match index_of_line(line.skip(6)) {
                                        Ok(x) => {
                                            lemma_meta_run_sections(
                                                rest,
                                                tables,
                                                Some(
                                                    BuilderModel {
                                                        name: b.name,
                                                        row_count: b.row_count,
                                                        columns: b.columns,
                                                        indexes: b.indexes.push(x),
                                                        fks: b.fks,
                                                    },
                                                ),
                                                sec,
                                            );
                                        },
                                        Err(_) => {},
                                    }
                                } else {
                                    lemma_meta_run_sections(rest, tables, cur, sec);
                                }
                            },
                            LegacySection::ForeignKeys => {
                                if starts_with_spec(line, "    - "@) {
                                    match fk_of_line(line.skip(6)) {
                                        Ok(f) => {
                                            lemma_meta_run_sections(
                                                rest,
                                                tables,
                                                Some(
                                                    BuilderModel {
                                                        name: b.name,
                                                        row_count: b.row_count,
                                                        columns: b.columns,
                                                        indexes: b.indexes,
                                                        fks: b.fks.push(f),
                                                    },
                                                ),
                                                sec,
                                            );
                                        },
                                        Err(_) => {},
                                    }
                                } else {
                                    lemma_meta_run_sections(rest, tables, cur, sec);
                                }
                            },
                        }
                    }
                },
            }
        }
    }
}

/// In any snapshot the parser yields, an optional section that is
/// present holds at least one entry: a block with no index and no
/// foreign-key entries gets both sections absent, never empty lists.
pub proof fn lemma_optional_sections_never_empty(s: Seq<char>)
    ensures
        legacy_metadata_model(s) matches Ok(ts) ==> forall|i: int|
            0 <= i < ts.len() ==> sections_present(#[trigger] ts[i]),
{
    lemma_meta_run_sections(
        meta_lines(s),
        Seq::empty(),
        None::<BuilderModel>,
        LegacySection::Columns,
    );
}

fn dump_lines(output: &str) -> (r: Vec<String>)
    ensures
        r.deep_view() == meta_lines(output@),
{
    let raw = split_on_char(output, '\n');
    let mut lines: Vec<String> = Vec::new();
    let mut i: usize = 0;
    proof {
        assert(raw.deep_view().take(0) =~= Seq::<Seq<char>>::empty());
    }
    while i < raw.len()
        invariant
            i <= raw.len(),
            raw.deep_view() == split_on(output@, '\n'),
            lines.deep_view() == trim_end_all(raw.deep_view().take(i as int)),
        decreases raw.len() - i,
    {
        let ghost rv = raw.deep_view();
        let ghost old_lines = lines.deep_view();
        let t = trim_end_str(raw[i].as_str());
        lines.push(String::from_str(t));
        proof {
            assert(rv.take(i + 1).drop_last() =~= rv.take(i as int));
            assert(rv.take(i + 1).last() == rv[i as int]);
            assert(lines.deep_view() =~= old_lines.push(t@));
        }
        i = i + 1;
    }
    proof {
        assert(raw.deep_view().take(raw.deep_view().len() as int) =~= raw.deep_view());
    }
    lines
}

/// Parses the legacy indented dump into the schema snapshot.
pub fn parse_legacy_metadata(output: &str) -> (r: Result<LegacyMetadata, String>)
    ensures
        match r {
            Ok(m) => legacy_metadata_model(output@) == Ok::<Seq<TableModel>, Seq<char>>(m@.tables),
            Err(e) => legacy_metadata_model(output@) == Err::<Seq<TableModel>, Seq<char>>(e@),
        },
{
    let lines = dump_lines(output);
    let mut tables: Vec<LegacyTable> = Vec::new();
    let mut current: Option<LegacyTableBuilder> = None;
    let mut section: LegacySection = LegacySection::Columns;
    let mut i: usize = 0;
    proof {
        assert(lines.deep_view().skip(0) =~= lines.deep_view());
        assert(tables.deep_view() =~= Seq::<TableModel>::empty());
    }
    while i < lines.len()
        invariant
            i <= lines.len(),
            lines.deep_view() == meta_lines(output@),
            meta_run(
                lines.deep_view().skip(i as int),
                tables.deep_view(),
                current.deep_view(),
                section,
            ) == legacy_metadata_model(output@),
        decreases lines.len() - i,
    {
        let ghost lv = lines.deep_view();
        let ghost tv0 = tables.deep_view();
        let ghost cv0 = current.deep_view();
        let ghost sec0 = section;
        proof {
            assert(lv.skip(i as int)[0] == lv[i as int]);
            assert(lv.skip(i as int).drop_first() =~= lv.skip(i + 1));
        }
        let l = lines[i].as_str();
        if l.unicode_len() == 0 {
            // blank: skipped
        } else if str_eq(l, "No tables defined") {
            let m = LegacyMetadata { tables: Vec::new() };
            proof {
                assert(m@.tables =~= Seq::<TableModel>::empty());
            }
            return Ok(m);
        } else if starts_with_str(l, "Table ") {
            let prev = current;
            current = None;
            match prev {
                Some(b) => {
                    let ghost bm = b@;
                    let t = b.finish();
                    tables.push(t);
                    proof {
                        assert(tables.deep_view() =~= tv0.push(finalize(bm)));
                    }
                },
                None => {},
            }
            proof {
                reveal_strlit("Table ");
            }
            let rest = l.substring_char(6, l.unicode_len());
            proof {
                assert(rest@ =~= l@.skip(6));
            }
            match parse_table_header(rest, l) {
                Ok(h) => {
                    let (name, count) = h;
                    let b = LegacyTableBuilder {
                        name,
                        row_count: count,
                        columns: Vec::new(),
                        indexes: Vec::new(),
                        fks: Vec::new(),
                    };
                    proof {
                        assert(b@.columns =~= Seq::<crate::schema::ColumnModel>::empty());
                        assert(b@.indexes =~= Seq::<crate::schema::IndexModel>::empty());
                        assert(b@.fks =~= Seq::<crate::schema::ForeignKeyModel>::empty());
                    }
                    current = Some(b);
                    section = LegacySection::Columns;
                },
                Err(e) => {
                    return Err(e);
                },
            }
        } else if current.is_none() {
            // no table open: ignored
        } else if str_eq(l, "  Indexes:") {
            section = LegacySection::Indexes;
        } else if str_eq(l, "  Foreign Keys:") {
            section = LegacySection::ForeignKeys;
        } else {
            match section {
                LegacySection::Columns => {
                    match strip_prefix_str(l, "  - ") {
                        Some(rest) => {
                            proof {
                                reveal_strlit("  - ");
                                assert(rest@ == l@.skip(4));
                            }
                            match parse_legacy_column(rest) {
                                Ok(c) => {
                                    let mut b = current.unwrap();
                                    let ghost bm = b@;
                                    b.columns.push(c);
                                    proof {
                                        assert(b@.columns =~= bm.columns.push(c@));
                                    }
                                    current = Some(b);
                                },
                                Err(e) => {
                                    return Err(e);
                                },
                            }
                        },
                        None => {},
                    }
                },
                LegacySection::Indexes => {
                    match strip_prefix_str(l, "    - ") {
                        Some(rest) => {
                            proof {
                                reveal_strlit("    - ");
                                assert(rest@ == l@.skip(6));
                            }
                            match parse_legacy_index(rest) {
                                Ok(x) => {
                                    let mut b = current.unwrap();
                                    let ghost bm = b@;
                                    b.indexes.push(x);
                                    proof {
                                        assert(b@.indexes =~= bm.indexes.push(x@));
                                    }
                                    current = Some(b);
                                },
                                Err(e) => {
                                    return Err(e);
                                },
                            }
                        },
                        None => {},
                    }
                },
                LegacySection::ForeignKeys => {
                    match strip_prefix_str(l, "    - ") {
                        Some(rest) => {
                            proof {
                                reveal_strlit("    - ");
                                assert(rest@ == l@.skip(6));
                            }
                            match parse_legacy_fk(rest) {
                                Ok(f) => {
                                    let mut b = current.unwrap();
                                    let ghost bm = b@;
                                    b.fks.push(f);
                                    proof {
                                        assert(b@.fks =~= bm.fks.push(f@));
                                    }
                                    current = Some(b);
                                },
                                Err(e) => {
                                    return Err(e);
                                },
                            }
                        },
                        None => {},
                    }
                },
            }
        }
        i = i + 1;
    }
    proof {
        assert(lines.deep_view().skip(lines.deep_view().len() as int) =~= Seq::<
            Seq<char>,
        >::empty());
    }
    let prev = current;
    match prev {
        Some(b) => {
            let ghost bm = b@;
            let ghost tv = tables.deep_view();
            let t = b.finish();
            tables.push(t);
            proof {
                assert(tables.deep_view() =~= tv.push(finalize(bm)));
            }
        },
        None => {},
    }
    let m = LegacyMetadata { tables };
    Ok(m)
}

} // verus!
