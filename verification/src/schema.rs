//! The legacy metadata parser's data shapes and per-line parsers: columns,
//! indexes and foreign keys as the tool's legacy indented dump spells them.

use vstd::prelude::*;
use vstd::string::StrSliceExecFns;
use vstd::string::StringExecFns;

use crate::numbers::parse_u64_spec;
use crate::numbers::parse_u64_str;
use crate::text::contains_str;
use crate::text::contains_sub;
use crate::text::find_char_str;
use crate::text::find_sub;
use crate::text::find_sub_str;
use crate::text::first_char_at;
use crate::text::lemma_find_sub;
use crate::text::lemma_first_char_at;
use crate::text::name_list;
use crate::text::split_name_list;
use crate::text::strip_trailing;
use crate::text::strip_trailing_str;
use crate::text::trim_end_spec;
use crate::text::trim_end_str;
use crate::text::trim_spec;
use crate::text::trim_str;

verus! {

/// One column of a table: its name, declared type, and flags.
#[derive(Debug, Clone)]
pub struct LegacyColumn {
    pub name: String,
    pub column_type: String,
    pub not_null: bool,
    pub primary: bool,
}

/// The mathematical shape of a column.
pub struct ColumnModel {
    pub name: Seq<char>,
    pub column_type: Seq<char>,
    pub not_null: bool,
    pub primary: bool,
}

impl View for LegacyColumn {
    type V = ColumnModel;

    open spec fn view(&self) -> ColumnModel {
        ColumnModel {
            name: self.name@,
            column_type: self.column_type@,
            not_null: self.not_null,
            primary: self.primary,
        }
    }
}

impl DeepView for LegacyColumn {
    type V = ColumnModel;

    open spec fn deep_view(&self) -> ColumnModel {
        self.view()
    }
}

/// One index of a table.
#[derive(Debug, Clone)]
pub struct LegacyIndex {
    pub name: String,
    pub columns: Vec<String>,
    pub unique: bool,
}

/// The mathematical shape of an index.
pub struct IndexModel {
    pub name: Seq<char>,
    pub columns: Seq<Seq<char>>,
    pub unique: bool,
}

impl View for LegacyIndex {
    type V = IndexModel;

    open spec fn view(&self) -> IndexModel {
        IndexModel { name: self.name@, columns: self.columns.deep_view(), unique: self.unique }
    }
}

impl DeepView for LegacyIndex {
    type V = IndexModel;

    open spec fn deep_view(&self) -> IndexModel {
        self.view()
    }
}

/// One foreign key of a table.
#[derive(Debug, Clone)]
pub struct LegacyForeignKey {
    pub name: String,
    pub columns: Vec<String>,
    pub ref_table: String,
    pub ref_columns: Vec<String>,
}

/// The mathematical shape of a foreign key.
pub struct ForeignKeyModel {
    pub name: Seq<char>,
    pub columns: Seq<Seq<char>>,
    pub ref_table: Seq<char>,
    pub ref_columns: Seq<Seq<char>>,
}

impl View for LegacyForeignKey {
    type V = ForeignKeyModel;

    open spec fn view(&self) -> ForeignKeyModel {
        ForeignKeyModel {
            name: self.name@,
            columns: self.columns.deep_view(),
            ref_table: self.ref_table@,
            ref_columns: self.ref_columns.deep_view(),
        }
    }
}

impl DeepView for LegacyForeignKey {
    type V = ForeignKeyModel;

    open spec fn deep_view(&self) -> ForeignKeyModel {
        self.view()
    }
}

/// One table of the schema snapshot. The optional sections are absent,
/// never empty, when the dump declared no entries for them.
#[derive(Debug, Clone)]
pub struct LegacyTable {
    pub name: String,
    pub row_count: u64,
    pub columns: Vec<LegacyColumn>,
    pub indexes: Option<Vec<LegacyIndex>>,
    pub fks: Option<Vec<LegacyForeignKey>>,
}

/// The mathematical shape of a table.
pub struct TableModel {
    pub name: Seq<char>,
    pub row_count: u64,
    pub columns: Seq<ColumnModel>,
    pub indexes: Option<Seq<IndexModel>>,
    pub fks: Option<Seq<ForeignKeyModel>>,
}

impl View for LegacyTable {
    type V = TableModel;

    open spec fn view(&self) -> TableModel {
        TableModel {
            name: self.name@,
            row_count: self.row_count,
            columns: self.columns.deep_view(),
            indexes: match self.indexes {
                Some(v) => Some(v.deep_view()),
                None => None,
            },
            fks: match self.fks {
                Some(v) => Some(v.deep_view()),
                None => None,
            },
        }
    }
}

impl DeepView for LegacyTable {
    type V = TableModel;

    open spec fn deep_view(&self) -> TableModel {
        self.view()
    }
}

/// A table while its dump block is still being read: the optional
/// sections are plain lists, empty until entries arrive.
pub struct LegacyTableBuilder {
    pub name: String,
    pub row_count: u64,
    pub columns: Vec<LegacyColumn>,
    pub indexes: Vec<LegacyIndex>,
    pub fks: Vec<LegacyForeignKey>,
}

/// The mathematical shape of a table under construction.
pub struct BuilderModel {
    pub name: Seq<char>,
    pub row_count: u64,
    pub columns: Seq<ColumnModel>,
    pub indexes: Seq<IndexModel>,
    pub fks: Seq<ForeignKeyModel>,
}

impl View for LegacyTableBuilder {
    type V = BuilderModel;

    open spec fn view(&self) -> BuilderModel {
        BuilderModel {
            name: self.name@,
            row_count: self.row_count,
            columns: self.columns.deep_view(),
            indexes: self.indexes.deep_view(),
            fks: self.fks.deep_view(),
        }
    }
}

impl DeepView for LegacyTableBuilder {
    type V = BuilderModel;

    open spec fn deep_view(&self) -> BuilderModel {
        self.view()
    }
}

/// Closing a table block: a section that collected no entries is left
/// out of the table entirely, never kept as an empty list.
pub open spec fn finalize(b: BuilderModel) -> TableModel {
    TableModel {
        name: b.name,
        row_count: b.row_count,
        columns: b.columns,
        indexes: if b.indexes.len() == 0 {
            None
        } else {
            Some(b.indexes)
        },
        fks: if b.fks.len() == 0 {
            None
        } else {
            Some(b.fks)
        },
    }
}

impl LegacyTableBuilder {
    /// Closes the block this builder collected.
    pub fn finish(self) -> (t: LegacyTable)
        ensures
            t@ == finalize(self@),
    {
        let LegacyTableBuilder { name, row_count, columns, indexes, fks } = self;
        let t = LegacyTable {
            name,
            row_count,
            columns,
            indexes: if indexes.len() == 0 {
                None
            } else {
                Some(indexes)
            },
            fks: if fks.len() == 0 {
                None
            } else {
                Some(fks)
            },
        };
        t
    }
}

/// A comma-separated column list as it stands inside parentheses: any
/// trailing `)` dropped, then the trimmed non-empty entries.
pub open spec fn paren_list(s: Seq<char>) -> Seq<Seq<char>> {
    name_list(strip_trailing(s, ')'))
}

fn split_paren_list(s: &str) -> (r: Vec<String>)
    ensures
        r.deep_view() == paren_list(s@),
{
    split_name_list(strip_trailing_str(s, ')'))
}

/// One column line, after its `  - ` prefix. The flag markers set the
/// flags wherever they stand; the first occurrence of each is cut before
/// the rest splits at its first space into name and declared type.
pub open spec fn column_of(line: Seq<char>) -> Result<ColumnModel, Seq<char>> {
    let t = trim_spec(line);
    let not_null = contains_sub(t, " NOT NULL"@);
    let primary = contains_sub(t, " PRIMARY KEY"@);
    let r1 = match find_sub(t, " NOT NULL"@) {
        Some(i) => t.take(i),
        None => t,
    };
    let r2 = match find_sub(r1, " PRIMARY KEY"@) {
        Some(i) => r1.take(i),
        None => r1,
    };
    match first_char_at(r2, ' ') {
        Some(i) => Ok(
            ColumnModel {
                name: r2.take(i),
                column_type: trim_spec(r2.skip(i + 1)),
                not_null,
                primary,
            },
        ),
        None => Err("unexpected column line: "@ + line),
    }
}

pub fn parse_legacy_column(line: &str) -> (r: Result<LegacyColumn, String>)
    ensures
        match r {
            Ok(c) => column_of(line@) == Ok::<ColumnModel, Seq<char>>(c@),
            Err(e) => column_of(line@) == Err::<ColumnModel, Seq<char>>(e@),
        },
{
    let t = trim_str(line);
    let not_null = contains_str(t, " NOT NULL");
    let primary = contains_str(t, " PRIMARY KEY");
    let r1 = match find_sub_str(t, " NOT NULL") {
        Some(i) => {
            proof {
                lemma_find_sub(t@, " NOT NULL"@);
            }
            t.substring_char(0, i)
        },
        None => t,
    };
    let r2 = match find_sub_str(r1, " PRIMARY KEY") {
        Some(i) => {
            proof {
                lemma_find_sub(r1@, " PRIMARY KEY"@);
            }
            r1.substring_char(0, i)
        },
        None => r1,
    };
    match find_char_str(r2, ' ') {
        Some(i) => {
            proof {
                lemma_first_char_at(r2@, ' ');
            }
            let n2: usize = r2.unicode_len();
            let name = r2.substring_char(0, i);
            let ctype = trim_str(r2.substring_char(i + 1, n2));
            Ok(
                LegacyColumn {
                    name: String::from_str(name),
                    column_type: String::from_str(ctype),
                    not_null,
                    primary,
                },
            )
        },
        None => {
            let mut e = String::from_str("unexpected column line: ");
            e.append(line);
            Err(e)
        },
    }
}

/// Column flags are order-independent: each flag is exactly the presence
/// of its marker substring anywhere in the trimmed text, so whichever of
/// the two markers stands first — or stands alone — the flags come out
/// the same.
pub proof fn lemma_column_flags_by_presence(line: Seq<char>)
    ensures
        column_of(line) matches Ok(c) ==> c.not_null == contains_sub(
            trim_spec(line),
            " NOT NULL"@,
        ) && c.primary == contains_sub(trim_spec(line), " PRIMARY KEY"@),
{
}

/// A table block that declared no index entries and no foreign-key
/// entries closes with both sections absent, never as empty lists; and
/// a section is absent exactly when it collected nothing.
pub proof fn lemma_finalize_sections(b: BuilderModel)
    ensures
        finalize(b).indexes is None <==> b.indexes.len() == 0,
        finalize(b).fks is None <==> b.fks.len() == 0,
        finalize(b).name == b.name,
        finalize(b).row_count == b.row_count,
        finalize(b).columns == b.columns,
{
}

/// One index line, after its `    - ` prefix: an optional trailing
/// ` UNIQUE` marker, then a name and a parenthesized column list.
pub open spec fn index_of_line(line: Seq<char>) -> Result<IndexModel, Seq<char>> {
    let t = trim_spec(line);
    let base = if ends_with_spec_unique(t) {
        trim_end_spec(t.take(t.len() - 7))
    } else {
        t
    };
    let unique = ends_with_spec_unique(t);
    match find_sub(base, " ("@) {
        Some(i) => Ok(
            IndexModel {
                name: trim_spec(base.take(i)),
                columns: paren_list(base.skip(i + 2)),
                unique,
            },
        ),
        None => Err("unexpected index line: "@ + line),
    }
}

/// The trimmed index line carries the ` UNIQUE` marker at its end.
pub open spec fn ends_with_spec_unique(t: Seq<char>) -> bool {
    crate::text::ends_with_spec(t, " UNIQUE"@)
}

pub fn parse_legacy_index(line: &str) -> (r: Result<LegacyIndex, String>)
    ensures
        match r {
            Ok(x) => index_of_line(line@) == Ok::<IndexModel, Seq<char>>(x@),
            Err(e) => index_of_line(line@) == Err::<IndexModel, Seq<char>>(e@),
        },
{
    let t = trim_str(line);
    let mut unique: bool = false;
    let base = match crate::text::strip_suffix_str(t, " UNIQUE") {
        Some(b) => {
            unique = true;
            proof {
                reveal_strlit(" UNIQUE");
            }
            trim_end_str(b)
        },
        None => t,
    };
    match find_sub_str(base, " (") {
        Some(i) => {
            proof {
                lemma_find_sub(base@, " ("@);
                reveal_strlit(" (");
            }
            let nb: usize = base.unicode_len();
            let name = trim_str(base.substring_char(0, i));
            let cols_part = base.substring_char(i + 2, nb);
            let columns = split_paren_list(cols_part);
            Ok(LegacyIndex { name: String::from_str(name), columns, unique })
        },
        None => {
            let mut e = String::from_str("unexpected index line: ");
            e.append(line);
            Err(e)
        },
    }
}

/// One foreign key line, after its `    - ` prefix:
/// `<name> (<cols>) REFERENCES <table>(<cols>)`.
pub open spec fn fk_of_line(line: Seq<char>) -> Result<ForeignKeyModel, Seq<char>> {
    match find_sub(line, " ("@) {
        Some(i) => {
            let name = line.take(i);
            let rest = line.skip(i + 2);
            match find_sub(rest, ") REFERENCES "@) {
                Some(j) => {
                    let child_cols = rest.take(j);
                    let remainder = rest.skip(j + 13);
                    match first_char_at(remainder, '(') {
                        Some(k) => Ok(
                            ForeignKeyModel {
                                name: trim_spec(name),
                                columns: name_list(child_cols),
                                ref_table: trim_spec(remainder.take(k)),
                                ref_columns: paren_list(remainder.skip(k + 1)),
                            },
                        ),
                        None => Err("unexpected foreign key line: "@ + line),
                    }
                },
                None => Err("unexpected foreign key line: "@ + line),
            }
        },
        None => Err("unexpected foreign key line: "@ + line),
    }
}

pub fn parse_legacy_fk(line: &str) -> (r: Result<LegacyForeignKey, String>)
    ensures
        match r {
            Ok(f) => fk_of_line(line@) == Ok::<ForeignKeyModel, Seq<char>>(f@),
            Err(e) => fk_of_line(line@) == Err::<ForeignKeyModel, Seq<char>>(e@),
        },
{
    match find_sub_str(line, " (") {
        Some(i) => {
            proof {
                lemma_find_sub(line@, " ("@);
                reveal_strlit(" (");
            }
            let nl: usize = line.unicode_len();
            let name = line.substring_char(0, i);
            let rest = line.substring_char(i + 2, nl);
            match find_sub_str(rest, ") REFERENCES ") {
                Some(j) => {
                    proof {
                        lemma_find_sub(rest@, ") REFERENCES "@);
                        reveal_strlit(") REFERENCES ");
                    }
                    let child_cols = rest.substring_char(0, j);
                    let remainder = rest.substring_char(j + 13, rest.unicode_len());
                    match find_char_str(remainder, '(') {
                        Some(k) => {
                            proof {
                                lemma_first_char_at(remainder@, '(');
                            }
                            let ref_table = trim_str(remainder.substring_char(0, k));
                            let ref_cols_part = remainder.substring_char(
                                k + 1,
                                remainder.unicode_len(),
                            );
                            Ok(
                                LegacyForeignKey {
                                    name: String::from_str(trim_str(name)),
                                    columns: split_name_list(child_cols),
                                    ref_table: String::from_str(ref_table),
                                    ref_columns: split_paren_list(ref_cols_part),
                                },
                            )
                        },
                        None => {
                            let mut e = String::from_str("unexpected foreign key line: ");
                            e.append(line);
                            Err(e)
                        },
                    }
                },
                None => {
                    let mut e = String::from_str("unexpected foreign key line: ");
                    e.append(line);
                    Err(e)
                },
            }
        },
        None => {
            let mut e = String::from_str("unexpected foreign key line: ");
            e.append(line);
            Err(e)
        },
    }
}

/// A `Table <name> (<count> row(s))` header: `rest` is the text after the
/// `Table ` prefix, `line` the whole line for error messages.
pub open spec fn table_header_of(rest: Seq<char>, line: Seq<char>) -> Result<
    (Seq<char>, u64),
    Seq<char>,
> {
    match find_sub(rest, " ("@) {
        Some(i) => {
            let name = rest.take(i);
            let rows_part = rest.skip(i + 2);
            if !crate::text::ends_with_spec(rows_part, ")"@) {
                Err("unexpected row count: "@ + line)
            } else {
                let p1 = rows_part.take(rows_part.len() - 1);
                if !crate::text::ends_with_spec(p1, " row(s)"@) {
                    Err("unexpected row count: "@ + line)
                } else {
                    let digits = p1.take(p1.len() - 7);
                    match parse_u64_spec(digits) {
                        Some(v) => Ok((name, v)),
                        None => Err("invalid row count in line: "@ + line),
                    }
                }
            }
        },
        None => Err("unexpected table header: "@ + line),
    }
}

pub fn parse_table_header(rest: &str, line: &str) -> (r: Result<(String, u64), String>)
    ensures
        match r {
            Ok(p) => table_header_of(rest@, line@) == Ok::<(Seq<char>, u64), Seq<char>>(
                (p.0@, p.1),
            ),
            Err(e) => table_header_of(rest@, line@) == Err::<(Seq<char>, u64), Seq<char>>(e@),
        },
{
    match find_sub_str(rest, " (") {
        Some(i) => {
            proof {
                lemma_find_sub(rest@, " ("@);
                reveal_strlit(" (");
            }
            let nr: usize = rest.unicode_len();
            let name = rest.substring_char(0, i);
            let rows_part = rest.substring_char(i + 2, nr);
            match crate::text::strip_suffix_str(rows_part, ")") {
                Some(p1) => {
                    proof {
                        reveal_strlit(")");
                    }
                    match crate::text::strip_suffix_str(p1, " row(s)") {
                        Some(digits) => {
                            proof {
                                reveal_strlit(" row(s)");
                            }
                            match parse_u64_str(digits) {
                                Some(v) => Ok((String::from_str(name), v)),
                                None => {
                                    let mut e = String::from_str("invalid row count in line: ");
                                    e.append(line);
                                    Err(e)
                                },
                            }
                        },
                        None => {
                            let mut e = String::from_str("unexpected row count: ");
                            e.append(line);
                            Err(e)
                        },
                    }
                },
                None => {
                    let mut e = String::from_str("unexpected row count: ");
                    e.append(line);
                    Err(e)
                },
            }
        },
        None => {
            let mut e = String::from_str("unexpected table header: ");
            e.append(line);
            Err(e)
        },
    }
}

} // verus!
