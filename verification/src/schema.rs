//! The types of parameters and result columns.
use vstd::prelude::*;

verus! {

/// An SQL type.
#[derive(Debug)]
pub enum ColumnType {
    Varchar,
    Integer,
    Bigint,
    Blob,
    /// A list of items of one type.
    List(Box<ColumnType>),
    /// A struct with these fields.
    Struct(Vec<Column>),
}

/// A named column, field or parameter.
#[derive(Debug)]
pub struct Column {
    pub name: String,
    pub column_type: ColumnType,
}

/// The value of a [`ColumnType`].
pub enum TypeView {
    Varchar,
    Integer,
    Bigint,
    Blob,
    List(Box<TypeView>),
    Struct(Seq<(Seq<char>, TypeView)>),
}

/// The value of a type.
pub open spec fn type_view(column_type: ColumnType) -> TypeView
    decreases column_type,
{
    match column_type {
        ColumnType::Varchar => TypeView::Varchar,
        ColumnType::Integer => TypeView::Integer,
        ColumnType::Bigint => TypeView::Bigint,
        ColumnType::Blob => TypeView::Blob,
        ColumnType::List(item) => TypeView::List(Box::new(type_view(*item))),
        ColumnType::Struct(fields) => TypeView::Struct(columns_view(fields@)),
    }
}

/// The names of columns and the values of their types.
pub open spec fn columns_view(columns: Seq<Column>) -> Seq<(Seq<char>, TypeView)>
    decreases columns,
{
    if columns.len() == 0 {
        Seq::empty()
    } else {
        columns_view(columns.drop_last()).push(
            (columns.last().name@, type_view(columns.last().column_type)),
        )
    }
}

/// The columns with one more at the end.
pub fn with_column(columns: Vec<Column>, name: &str, column_type: ColumnType) -> (r: Vec<Column>)
    ensures
        columns_view(r@) == columns_view(columns@).push((name@, type_view(column_type))),
{
    let mut all = columns;
    all.push(Column { name: name.to_owned(), column_type });
    proof {
        assert(all@.drop_last() =~= columns@);
    }
    all
}

/// The names, each with the type of texts.
pub open spec fn varchars(names: Seq<Seq<char>>) -> Seq<(Seq<char>, TypeView)> {
    names.map_values(|name: Seq<char>| (name, TypeView::Varchar))
}

/// The columns with a column of texts for each of the names at the end.
pub fn with_varchars(columns: Vec<Column>, names: &[&str]) -> (r: Vec<Column>)
    ensures
        columns_view(r@) == columns_view(columns@) + varchars(names@.map_values(|n: &str| n@)),
{
    let ghost texts = names@.map_values(|n: &str| n@);
    let ghost before = columns_view(columns@);
    let mut all = columns;
    let mut i: usize = 0;
    proof {
        assert(before + varchars(texts.take(0)) =~= before);
    }
    while i < names.len()
        invariant
            i <= names.len(),
            texts == names@.map_values(|n: &str| n@),
            columns_view(all@) == before + varchars(texts.take(i as int)),
        decreases names.len() - i,
    {
        all = with_column(all, names[i], ColumnType::Varchar);
        proof {
            assert(before + varchars(texts.take(i + 1)) =~= (before + varchars(
                texts.take(i as int),
            )).push((texts[i as int], TypeView::Varchar)));
        }
        i += 1;
    }
    proof {
        assert(texts.take(texts.len() as int) =~= texts);
    }
    all
}

/// Columns keep their names, their types and their order.
pub proof fn law_columns_are_taken_one_by_one(columns: Seq<Column>, i: int)
    requires
        0 <= i < columns.len(),
    ensures
        columns_view(columns).len() == columns.len(),
        columns_view(columns)[i].0 == columns[i].name@,
        columns_view(columns)[i].1 == type_view(columns[i].column_type),
    decreases columns.len(),
{
    let init = columns.drop_last();
    if i < init.len() {
        law_columns_are_taken_one_by_one(init, i);
        assert(init[i] == columns[i]);
    } else if init.len() > 0 {
        law_columns_are_taken_one_by_one(init, 0);
    } else {
        assert(columns_view(init).len() == 0);
    }
}

/// The value of a type is the type, of the items of a list and of the fields of a struct too.
pub proof fn law_type_value_is_the_type(column_type: ColumnType)
    ensures
        match column_type {
            ColumnType::Varchar => type_view(column_type) == TypeView::Varchar,
            ColumnType::Integer => type_view(column_type) == TypeView::Integer,
            ColumnType::Bigint => type_view(column_type) == TypeView::Bigint,
            ColumnType::Blob => type_view(column_type) == TypeView::Blob,
            ColumnType::List(item) => type_view(column_type) == TypeView::List(
                Box::new(type_view(*item)),
            ),
            ColumnType::Struct(fields) => type_view(column_type) == TypeView::Struct(
                columns_view(fields@),
            ),
        },
{
}

/// Parameters of texts keep their names and their order, and each is a text.
pub proof fn law_varchars_keep_the_names(names: Seq<Seq<char>>, i: int)
    ensures
        varchars(names).len() == names.len(),
        0 <= i < names.len() ==> varchars(names)[i].0 == names[i] && varchars(names)[i].1
            == TypeView::Varchar,
{
}

} // verus!
