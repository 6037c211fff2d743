//! Columns of generated data, and the schemas that describe them.
use vstd::prelude::*;

verus! {

/// The type of a column.
#[derive(Clone, Copy, Debug, PartialEq, Eq, Structural)]
pub enum ColumnType {
    Int64,
    Float64,
    Utf8,
}

/// A column of a schema.
#[derive(Debug)]
pub struct Field {
    pub name: String,
    pub data_type: ColumnType,
    pub nullable: bool,
}

/// What a field says.
#[verifier::ext_equal]
pub struct FieldModel {
    pub name: Seq<char>,
    pub data_type: ColumnType,
    pub nullable: bool,
}

impl View for Field {
    type V = FieldModel;

    open spec fn view(&self) -> FieldModel {
        FieldModel { name: self.name@, data_type: self.data_type, nullable: self.nullable }
    }
}

/// What the fields of a schema say.
pub open spec fn field_models(fields: Seq<Field>) -> Seq<FieldModel> {
    fields.map_values(|field: Field| field@)
}

/// The cells of a column.
#[derive(Debug)]
pub enum Column {
    Int64(Vec<i64>),
    /// Each cell is twice the number that it stands for, so that it is a whole number.
    Float64Halves(Vec<u128>),
    Utf8(Vec<String>),
}

/// What the cells of a column hold.
#[verifier::ext_equal]
pub enum ColumnModel {
    Int64(Seq<i64>),
    Float64Halves(Seq<nat>),
    Utf8(Seq<Seq<char>>),
}

/// The texts.
pub open spec fn texts(strings: Seq<String>) -> Seq<Seq<char>> {
    strings.map_values(|s: String| s@)
}

impl View for Column {
    type V = ColumnModel;

    open spec fn view(&self) -> ColumnModel {
        match self {
            Column::Int64(cells) => ColumnModel::Int64(cells@),
            Column::Float64Halves(cells) => ColumnModel::Float64Halves(
                cells@.map_values(|cell: u128| cell as nat),
            ),
            Column::Utf8(cells) => ColumnModel::Utf8(texts(cells@)),
        }
    }
}

/// What the columns of a batch hold.
pub open spec fn column_models(columns: Seq<Column>) -> Seq<ColumnModel> {
    columns.map_values(|column: Column| column@)
}

impl ColumnModel {
    pub open spec fn data_type(self) -> ColumnType {
        match self {
            ColumnModel::Int64(_) => ColumnType::Int64,
            ColumnModel::Float64Halves(_) => ColumnType::Float64,
            ColumnModel::Utf8(_) => ColumnType::Utf8,
        }
    }

    pub open spec fn rows(self) -> nat {
        match self {
            ColumnModel::Int64(cells) => cells.len(),
            ColumnModel::Float64Halves(cells) => cells.len(),
            ColumnModel::Utf8(cells) => cells.len(),
        }
    }
}

/// Whether columns make a batch of a schema: a column of the right type for each field, all of
/// `rows` rows.
pub open spec fn fits_schema(
    columns: Seq<ColumnModel>,
    fields: Seq<FieldModel>,
    rows: nat,
) -> bool {
    &&& columns.len() == fields.len()
    &&& forall|i: int|
        0 <= i < columns.len() ==> (#[trigger] columns[i]).data_type() == fields[i].data_type
            && columns[i].rows() == rows
}

/// What a column is said to hold is what is in it, cell by cell.
pub proof fn law_columns_show_their_cells(columns: Seq<Column>, i: int)
    requires
        0 <= i < columns.len(),
    ensures
        column_models(columns).len() == columns.len(),
        match columns[i] {
            Column::Int64(cells) => column_models(columns)[i] == ColumnModel::Int64(cells@),
            Column::Float64Halves(cells) => {
                &&& column_models(columns)[i] is Float64Halves
                &&& column_models(columns)[i]->Float64Halves_0.len() == cells@.len()
                &&& forall|r: int|
                    0 <= r < cells@.len() ==> #[trigger] cells@[r]
                        == column_models(columns)[i]->Float64Halves_0[r]
            },
            Column::Utf8(cells) => {
                &&& column_models(columns)[i] is Utf8
                &&& column_models(columns)[i]->Utf8_0.len() == cells@.len()
                &&& forall|r: int|
                    0 <= r < cells@.len() ==> (#[trigger] cells@[r])@
                        == column_models(columns)[i]->Utf8_0[r]
            },
        },
{
}

/// What a schema is said to hold is what is in it, field by field.
pub proof fn law_schemas_show_their_fields(fields: Seq<Field>, i: int)
    requires
        0 <= i < fields.len(),
    ensures
        field_models(fields).len() == fields.len(),
        field_models(fields)[i].name == fields[i].name@,
        field_models(fields)[i].data_type == fields[i].data_type,
        field_models(fields)[i].nullable == fields[i].nullable,
{
}

} // verus!
