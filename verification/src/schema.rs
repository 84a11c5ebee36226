//! The schema table: the rows of the first page, read as descriptions of the
//! tables and indexes of the database.

use vstd::prelude::*;
use vstd::string::StringExecFns;
use crate::error::FormatError;
use crate::page::{BtreePage, CellView};
use crate::record::{then_all, Record, RecordValue, RecordValueView};

verus! {

/// One object of the database, as its row of the schema table describes it.
#[derive(Debug, Clone, PartialEq, Eq)]
pub struct TableSchema {
    pub object_type: String,
    pub name: String,
    pub table_name: String,
    pub root_page: u32,
    pub sql_text: String,
}

/// What a [`TableSchema`] holds.
pub struct TableSchemaView {
    pub object_type: Seq<char>,
    pub name: Seq<char>,
    pub table_name: Seq<char>,
    pub root_page: u32,
    pub sql_text: Seq<char>,
}

impl View for TableSchema {
    type V = TableSchemaView;

    open spec fn view(&self) -> TableSchemaView {
        TableSchemaView {
            object_type: self.object_type@,
            name: self.name@,
            table_name: self.table_name@,
            root_page: self.root_page,
            sql_text: self.sql_text@,
        }
    }
}

/// What each of the descriptions in `schemas` holds.
pub open spec fn schemas_view(schemas: Seq<TableSchema>) -> Seq<TableSchemaView> {
    schemas.map_values(|t: TableSchema| t@)
}

/// The integer that a value stands for, if it is of one of the integer kinds.
pub open spec fn integer_of(v: RecordValueView) -> Option<int> {
    match v {
        RecordValueView::I8(x) => Some(x as int),
        RecordValueView::I16(x) => Some(x as int),
        RecordValueView::I24(x) => Some(x as int),
        RecordValueView::I32(x) => Some(x as int),
        RecordValueView::I48(x) => Some(x as int),
        RecordValueView::I64(x) => Some(x as int),
        RecordValueView::Zero => Some(0),
        RecordValueView::One => Some(1),
        _ => None,
    }
}

/// Whether `values` are the values of a row of the schema table: three
/// texts, a page number that fits 32 bits, and one more text.
pub open spec fn is_schema_row(values: Seq<RecordValueView>) -> bool {
    &&& values.len() == 5
    &&& values[0] is String
    &&& values[1] is String
    &&& values[2] is String
    &&& integer_of(values[3]) is Some
    &&& 0 <= integer_of(values[3])->Some_0 <= u32::MAX
    &&& values[4] is String
}

/// The description that a row of the schema table with the values `values` gives.
pub open spec fn schema_row_of(values: Seq<RecordValueView>) -> Result<TableSchemaView, FormatError> {
    if is_schema_row(values) {
        Ok(
            TableSchemaView {
                object_type: values[0]->String_0,
                name: values[1]->String_0,
                table_name: values[2]->String_0,
                root_page: integer_of(values[3])->Some_0 as u32,
                sql_text: values[4]->String_0,
            },
        )
    } else {
        Err(FormatError::MalformedSchemaRow)
    }
}

/// The descriptions that the cells `cells[i..]` give, in the order of the cells.
pub open spec fn schema_from(cells: Seq<CellView>, i: int) -> Result<Seq<TableSchemaView>, FormatError>
    decreases cells.len() - i,
{
    if i < 0 || i >= cells.len() {
        Ok(Seq::empty())
    } else {
        match schema_row_of(cells[i].record.values) {
            Err(e) => Err(e),
            Ok(row) => then_all(seq![row], schema_from(cells, i + 1)),
        }
    }
}

/// The names in `names[..n]`, with one space between each two.
pub open spec fn joined_names(names: Seq<Seq<char>>, n: int) -> Seq<char>
    decreases n,
{
    if n <= 0 {
        Seq::empty()
    } else if n == 1 {
        names[0]
    } else {
        joined_names(names, n - 1) + " "@ + names[n - 1]
    }
}

/// The name of each of the descriptions in `schemas`.
pub open spec fn names_of(schemas: Seq<TableSchema>) -> Seq<Seq<char>> {
    schemas.map_values(|t: TableSchema| t.name@)
}

/// The text of a value, if the value is a text.
fn text_of(v: &RecordValue) -> (r: Option<String>)
    ensures
        r is Some <==> v@ is String,
        r matches Some(t) ==> t@ == v@->String_0,
{
    match v {
        RecordValue::String(t) => Some(t.clone()),
        _ => None,
    }
}

/// The page number that a value stands for, if the value is an integer that fits 32 bits.
fn page_number_of(v: &RecordValue) -> (r: Option<u32>)
    ensures
        r is Some <==> integer_of(v@) is Some && 0 <= integer_of(v@)->Some_0 <= u32::MAX,
        r matches Some(n) ==> n == integer_of(v@)->Some_0,
{
    let n: i64 = match v {
        RecordValue::I8(x) => *x as i64,
        RecordValue::I16(x) => *x as i64,
        RecordValue::I24(x) => *x as i64,
        RecordValue::I32(x) => *x as i64,
        RecordValue::I48(x) => *x,
        RecordValue::I64(x) => *x,
        RecordValue::Zero => 0,
        RecordValue::One => 1,
        _ => {
            return None;
        },
    };
    if 0 <= n && n <= 0xFFFF_FFFF {
        Some(n as u32)
    } else {
        None
    }
}

impl TableSchema {
    /// Reads a row of the schema table as a description. The row has to have
    /// exactly the five values of such a row.
    pub fn from_record(record: &Record) -> (r: Result<TableSchema, FormatError>)
        ensures
            match r {
                Ok(t) => schema_row_of(record@.values) == Ok::<_, FormatError>(t@),
                Err(e) => schema_row_of(record@.values) == Err::<TableSchemaView, _>(e),
            },
    {
        let values = &record.values;
        if values.len() != 5 {
            return Err(FormatError::MalformedSchemaRow);
        }
        let object_type = text_of(&values[0]);
        let name = text_of(&values[1]);
        let table_name = text_of(&values[2]);
        let root_page = page_number_of(&values[3]);
        let sql_text = text_of(&values[4]);
        match (object_type, name, table_name, root_page, sql_text) {
            (Some(object_type), Some(name), Some(table_name), Some(root_page), Some(sql_text)) => Ok(
                TableSchema { object_type, name, table_name, root_page, sql_text },
            ),
            _ => Err(FormatError::MalformedSchemaRow),
        }
    }
}

/// Whether `r` is the outcome of reading the cells `cells` as the schema table.
pub open spec fn reads_schema(cells: Seq<CellView>, r: Result<Vec<TableSchema>, FormatError>) -> bool {
    match r {
        Ok(schemas) => schema_from(cells, 0) == Ok::<_, FormatError>(schemas_view(schemas@)),
        Err(e) => schema_from(cells, 0) == Err::<Seq<TableSchemaView>, _>(e),
    }
}

/// Reads the rows of the decoded first page as the schema table: one
/// description for each cell, in the order of the cells. A row that is not a
/// row of the schema table fails the whole read.
pub fn read_sqlite_schema(page: &BtreePage) -> (r: Result<Vec<TableSchema>, FormatError>)
    ensures
        reads_schema(page@.cells, r),
{
    let ghost cells = page@.cells;
    let mut result: Vec<TableSchema> = Vec::new();
    let mut i: usize = 0;
    assert(schemas_view(result@) =~= Seq::<TableSchemaView>::empty());
    while i < page.cells.len()
        invariant
            cells == page@.cells,
            cells.len() == page.cells@.len(),
            i <= cells.len(),
            then_all(schemas_view(result@), schema_from(cells, i as int)) == schema_from(cells, 0),
        decreases cells.len() - i,
    {
        let row = match TableSchema::from_record(&page.cells[i].record) {
            Ok(t) => t,
            Err(e) => {
                return Err(e);
            },
        };
        proof {
            assert(cells[i as int] == page.cells@[i as int]@);
            let tail = schema_from(cells, i + 1);
            assert(schema_from(cells, i as int) == then_all(seq![row@], tail));
            assert(schemas_view(result@.push(row)) =~= schemas_view(result@).push(row@));
            if let Ok(r) = tail {
                assert(schemas_view(result@).push(row@) + r =~= schemas_view(result@) + (seq![row@] + r));
            }
        }
        result.push(row);
        i += 1;
    }
    assert(schemas_view(result@) + Seq::<TableSchemaView>::empty() =~= schemas_view(result@));
    Ok(result)
}

/// The names of the described objects on one line, in their order and with one
/// space between each two.
pub fn table_names_line(schemas: &Vec<TableSchema>) -> (line: String)
    ensures
        line@ == joined_names(names_of(schemas@), schemas@.len() as int),
{
    let mut line = String::new();
    let mut i: usize = 0;
    while i < schemas.len()
        invariant
            i <= schemas@.len(),
            line@ == joined_names(names_of(schemas@), i as int),
        decreases schemas@.len() - i,
    {
        if i > 0 {
            line.append(" ");
        }
        line.append(schemas[i].name.as_str());
        assert(names_of(schemas@)[i as int] == schemas@[i as int].name@);
        assert(Seq::<char>::empty() + schemas@[i as int].name@ =~= schemas@[i as int].name@);
        i += 1;
    }
    line
}

} // verus!
