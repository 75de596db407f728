//! Shapes of what goes to and comes from the in-memory data store: tables
//! of rows, each row a key and a list of text columns.

use vstd::prelude::*;

verus! {

/// One row: its key and its columns.
pub type AppInMemRow = (String, Vec<String>);

/// The rows of one table.  No key occurs twice in what the store hands out.
pub type AppInMemFetchedSingleTable = Vec<AppInMemRow>;

/// Tables by label, as fetched.
pub type AppInMemFetchedData = Vec<(String, AppInMemFetchedSingleTable)>;

/// Tables by label, to be saved.
pub type AppInMemUpdateData = Vec<(String, AppInMemFetchedSingleTable)>;

/// Keys to fetch, by table label.
pub type AppInMemFetchKeys = Vec<(String, Vec<String>)>;

/// A row as mathematical text.
pub type RowText = (Seq<char>, Seq<Seq<char>>);

/// The texts of a list of strings.
pub open spec fn texts_of(v: Seq<String>) -> Seq<Seq<char>> {
    Seq::new(v.len(), |i: int| v[i]@)
}

/// The text of a row.
pub open spec fn row_text(r: AppInMemRow) -> RowText {
    (r.0@, texts_of(r.1@))
}

/// The texts of the rows of a table.
pub open spec fn table_text(t: Seq<AppInMemRow>) -> Seq<RowText> {
    Seq::new(t.len(), |i: int| row_text(t[i]))
}

/// The texts of keys to fetch: table label and keys.
pub open spec fn fetch_keys_text(
    k: Seq<(String, Vec<String>)>,
) -> Seq<(Seq<char>, Seq<Seq<char>>)> {
    Seq::new(k.len(), |i: int| (k[i].0@, texts_of(k[i].1@)))
}

/// The texts of labelled tables.
pub open spec fn data_text(d: Seq<(String, AppInMemFetchedSingleTable)>) -> Seq<
    (Seq<char>, Seq<RowText>),
> {
    Seq::new(d.len(), |i: int| (d[i].0@, table_text(d[i].1@)))
}

} // verus!
