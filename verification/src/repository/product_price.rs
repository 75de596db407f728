//! Product prices in the in-memory data store.
//!
//! A price is one row of the table `product_price`.  Its key is
//! `store-type-product`; its columns are the price, the start and the end of
//! its validity in RFC 3339, the product and the product kind.

use crate::constant::ProductType;
use crate::datastore::{
    data_text, fetch_keys_text, row_text, table_text, texts_of, AppInMemFetchKeys,
    AppInMemFetchedData, AppInMemRow, AppInMemUpdateData, RowText,
};
use crate::error::{AppError, AppErrorCode};
use crate::model::product_price::{ProductPriceModel, ProductPriceModelSet};
use crate::text::{dec_bounded, dec_string, dec_text, parse_dec_str, push_dec, str_eq};
use crate::time::{rfc3339_parsed, rfc3339_text, stamp_of, Timestamp};
use vstd::prelude::*;
use vstd::string::StringExecFns;

verus! {

/// Label of the table of product prices.
pub const TABLE_LABEL: &'static str = "product_price";

/// Index of the price column.
pub const COL_PRICE: usize = 0;

/// Index of the column of the start of validity.
pub const COL_START_AFTER: usize = 1;

/// Index of the column of the end of validity.
pub const COL_END_BEFORE: usize = 2;

/// Index of the product column.
pub const COL_PRODUCT_ID: usize = 3;

/// Index of the column of the product kind.
pub const COL_PRODUCT_TYPE: usize = 4;

/// Number of columns of a row.
pub const TOT_NUM_COLUMNS: usize = 5;

/// The in-memory data store, as far as the price repository uses it.
pub trait AbstInMemoryDStore {
    fn fetch(&self, info: AppInMemFetchKeys) -> Result<AppInMemFetchedData, AppError>;

    fn save(&self, data: AppInMemUpdateData) -> Result<usize, AppError>;

    fn create_table(&self, label: &str) -> Result<(), AppError>;
}

/// The key of the row of a price.
pub open spec fn price_key_text(store_id: u32, kind: u8, product_id: u64) -> Seq<char> {
    dec_text(store_id as nat) + "-"@ + dec_text(kind as nat) + "-"@ + dec_text(product_id as nat)
}

/// The keys of the products `ids` of a store.
pub open spec fn price_keys_text(store_id: u32, ids: Seq<(u8, u64)>) -> Seq<Seq<char>> {
    Seq::new(ids.len(), |i: int| price_key_text(store_id, ids[i].0, ids[i].1))
}

/// The row of a price, if its two dates can be written.
pub open spec fn price_row_text(store_id: u32, m: ProductPriceModel) -> Option<RowText> {
    match (
        rfc3339_text(m.start_after.secs, m.start_after.nanos, m.start_after.offset),
        rfc3339_text(m.end_before.secs, m.end_before.nanos, m.end_before.offset),
    ) {
        (Some(start), Some(end)) => Some(
            (
                price_key_text(store_id, m.product_type.code(), m.product_id),
                seq![
                    dec_text(m.price as nat),
                    start,
                    end,
                    dec_text(m.product_id as nat),
                    dec_text(m.product_type.code() as nat),
                ],
            ),
        ),
        _ => None,
    }
}

/// The rows of the first `upto` prices.
pub open spec fn price_rows(store_id: u32, items: Seq<ProductPriceModel>, upto: int) -> Option<
    Seq<RowText>,
>
    decreases upto,
{
    if upto <= 0 {
        Some(Seq::empty())
    } else {
        match (price_rows(store_id, items, upto - 1), price_row_text(store_id, items[upto - 1])) {
            (Some(before), Some(row)) => Some(before.push(row)),
            _ => None,
        }
    }
}

/// The price that a row holds, if the row has its five columns and each is
/// well written.
pub open spec fn price_row_parsed(cols: Seq<Seq<char>>) -> Option<ProductPriceModel> {
    if cols.len() < 5 {
        None
    } else {
        match (
            dec_bounded(cols[4], u8::MAX as nat),
            dec_bounded(cols[3], u64::MAX as nat),
            dec_bounded(cols[0], u32::MAX as nat),
            stamp_of(rfc3339_parsed(cols[1])),
            stamp_of(rfc3339_parsed(cols[2])),
        ) {
            (Some(kind), Some(product), Some(price), Some(start_after), Some(end_before)) => Some(
                ProductPriceModel {
                    product_type: ProductType::of_code(kind as u8),
                    product_id: product as u64,
                    price: price as u32,
                    start_after,
                    end_before,
                    is_create: false,
                },
            ),
            _ => None,
        }
    }
}

/// The prices that the first `upto` rows hold, if each is well written.
pub open spec fn price_rows_parsed(rows: Seq<RowText>, upto: int) -> Option<Seq<ProductPriceModel>>
    decreases upto,
{
    if upto <= 0 {
        Some(Seq::empty())
    } else {
        match (price_rows_parsed(rows, upto - 1), price_row_parsed(rows[upto - 1].1)) {
            (Some(before), Some(m)) => Some(before.push(m)),
            _ => None,
        }
    }
}

/// Position of the first table with the label of the price table, or the
/// number of tables if there is none.
pub open spec fn price_table_position(tables: Seq<(Seq<char>, Seq<RowText>)>) -> int
    decreases tables.len(),
{
    if tables.len() == 0 {
        0
    } else if tables[0].0 == "product_price"@ {
        0
    } else {
        1 + price_table_position(tables.drop_first())
    }
}

/// The prices that fetched tables hold: those of the price table, and none
/// if that table is not among them.
pub open spec fn prices_fetched(tables: Seq<(Seq<char>, Seq<RowText>)>) -> Option<
    Seq<ProductPriceModel>,
> {
    let at = price_table_position(tables);
    if at < tables.len() {
        price_rows_parsed(tables[at].1, tables[at].1.len() as int)
    } else {
        Some(Seq::empty())
    }
}

/// Once a price cannot be written, the prices as a whole cannot.
pub proof fn lemma_price_rows_fail(store_id: u32, items: Seq<ProductPriceModel>, at: int, upto: int)
    requires
        0 <= at < upto,
        price_row_text(store_id, items[at]) is None,
    ensures
        price_rows(store_id, items, upto) is None,
    decreases upto,
{
    if at < upto - 1 {
        lemma_price_rows_fail(store_id, items, at, upto - 1);
    }
}

/// Once a row cannot be read, the table as a whole cannot.
pub proof fn lemma_price_rows_parsed_fail(rows: Seq<RowText>, at: int, upto: int)
    requires
        0 <= at < upto,
        price_row_parsed(rows[at].1) is None,
    ensures
        price_rows_parsed(rows, upto) is None,
    decreases upto,
{
    if at < upto - 1 {
        lemma_price_rows_parsed_fail(rows, at, upto - 1);
    }
}

/// Where the first table with the label is known, `price_table_position`
/// gives it.
pub proof fn lemma_price_table_position(tables: Seq<(Seq<char>, Seq<RowText>)>, at: int)
    requires
        0 <= at <= tables.len(),
        at < tables.len() ==> tables[at].0 == "product_price"@,
        forall|k: int| 0 <= k < at ==> (#[trigger] tables[k]).0 != "product_price"@,
    ensures
        price_table_position(tables) == at,
    decreases tables.len(),
{
    if tables.len() > 0 && at > 0 {
        let t = tables.drop_first();
        lemma_price_table_position(t, at - 1);
    }
}

/// Writes the key of the row of a price.
pub fn price_key(store_id: u32, kind: u8, product_id: u64) -> (r: String)
    ensures
        r@ == price_key_text(store_id, kind, product_id),
{
    let mut key = String::new();
    push_dec(&mut key, store_id as u64);
    key.push('-');
    push_dec(&mut key, kind as u64);
    key.push('-');
    push_dec(&mut key, product_id);
    proof {
        reveal_strlit("-");
    }
    key
}

/// Writes the row of a price.
pub fn price_row(store_id: u32, m: &ProductPriceModel) -> (r: Option<AppInMemRow>)
    ensures
        match r {
            Some(row) => price_row_text(store_id, *m) == Some(row_text(row)),
            None => price_row_text(store_id, *m) is None,
        },
{
    let start = match m.start_after.to_rfc3339() {
        Some(t) => t,
        None => {
            return None;
        },
    };
    let end = match m.end_before.to_rfc3339() {
        Some(t) => t,
        None => {
            return None;
        },
    };
    let kind = m.product_type.to_code();
    let pkey = price_key(store_id, kind, m.product_id);
    let mut row: Vec<String> = Vec::new();
    row.push(dec_string(m.price as u64));
    row.push(start);
    row.push(end);
    row.push(dec_string(m.product_id));
    row.push(dec_string(kind as u64));
    Some((pkey, row))
}

/// Reads the price that a row holds.
pub fn parse_price_row(cols: &Vec<String>) -> (r: Option<ProductPriceModel>)
    ensures
        r == price_row_parsed(texts_of(cols@)),
{
    if cols.len() < 5 {
        return None;
    }
    let kind = match parse_dec_str(cols[COL_PRODUCT_TYPE].as_str(), u8::MAX as u64) {
        Some(v) => v as u8,
        None => {
            return None;
        },
    };
    let product_id = match parse_dec_str(cols[COL_PRODUCT_ID].as_str(), u64::MAX) {
        Some(v) => v,
        None => {
            return None;
        },
    };
    let price = match parse_dec_str(cols[COL_PRICE].as_str(), u32::MAX as u64) {
        Some(v) => v as u32,
        None => {
            return None;
        },
    };
    let start_after = match Timestamp::parse_rfc3339(cols[COL_START_AFTER].as_str()) {
        Some(v) => v,
        None => {
            return None;
        },
    };
    let end_before = match Timestamp::parse_rfc3339(cols[COL_END_BEFORE].as_str()) {
        Some(v) => v,
        None => {
            return None;
        },
    };
    Some(
        ProductPriceModel {
            product_type: ProductType::from(kind),
            product_id,
            price,
            start_after,
            end_before,
            is_create: false,
        },
    )
}

/// What is handed to the data store to save the prices of a store: their
/// rows under the label of the price table.
///
/// Refuses, as empty input, a set of store `0` or without prices, and as
/// invalid input a price whose dates cannot be written.
#[verifier::loop_isolation(false)]
pub fn rows_to_save(ppset: &ProductPriceModelSet) -> (r: Result<AppInMemUpdateData, AppError>)
    ensures
        match r {
            Ok(data) => ppset.store_id != 0 && ppset.items.len() > 0 && (price_rows(
                ppset.store_id,
                ppset.items@,
                ppset.items.len() as int,
            ) matches Some(rows) && data_text(data@) == seq![("product_price"@, rows)]),
            Err(e) => if ppset.store_id == 0 || ppset.items.len() == 0 {
                e.is(AppErrorCode::EmptyInputData, "save ProductPriceModel"@)
            } else {
                price_rows(ppset.store_id, ppset.items@, ppset.items.len() as int) is None
                    && e.code == AppErrorCode::InvalidInput && e.detail is None
            },
        },
{
    if ppset.store_id == 0 || ppset.items.len() == 0 {
        return Err(
            AppError::new(AppErrorCode::EmptyInputData, String::from_str("save ProductPriceModel")),
        );
    }
    let mut rows: Vec<AppInMemRow> = Vec::new();
    let mut i: usize = 0;
    while i < ppset.items.len()
        invariant
            i <= ppset.items.len(),
            price_rows(ppset.store_id, ppset.items@, i as int) == Some(table_text(rows@)),
        decreases ppset.items.len() - i,
    {
        match price_row(ppset.store_id, &ppset.items[i]) {
            Some(row) => {
                rows.push(row);
            },
            None => {
                proof {
                    lemma_price_rows_fail(
                        ppset.store_id,
                        ppset.items@,
                        i as int,
                        ppset.items.len() as int,
                    );
                }
                return Err(AppError::bare(AppErrorCode::InvalidInput));
            },
        }
        i += 1;
    }
    let mut data: AppInMemUpdateData = Vec::new();
    data.push((String::from_str(TABLE_LABEL), rows));
    Ok(data)
}

/// Reads the prices of store `store_id` out of what the data store
/// fetched.  Without a price table there are no prices.
///
/// Fails, with corrupt data, if a row of the price table is badly written.
#[verifier::loop_isolation(false)]
pub fn prices_from_fetched(store_id: u32, result_raw: &AppInMemFetchedData) -> (r: Result<
    ProductPriceModelSet,
    AppError,
>)
    ensures
        match r {
            Ok(set) => set.store_id == store_id && prices_fetched(data_text(result_raw@)) == Some(
                set.items@,
            ),
            Err(e) => prices_fetched(data_text(result_raw@)) is None && e.code
                == AppErrorCode::DataCorruption && e.detail is None,
        },
{
    let ghost tables = data_text(result_raw@);
    let mut at: usize = 0;
    while at < result_raw.len()
        invariant
            at <= result_raw.len(),
            forall|k: int| 0 <= k < at ==> (#[trigger] tables[k]).0 != "product_price"@,
        decreases result_raw.len() - at,
    {
        if str_eq(result_raw[at].0.as_str(), TABLE_LABEL) {
            break ;
        }
        at += 1;
    }
    proof {
        lemma_price_table_position(tables, at as int);
    }
    let mut items: Vec<ProductPriceModel> = Vec::new();
    if at < result_raw.len() {
        let t = &result_raw[at].1;
        let ghost rows = table_text(t@);
        let mut i: usize = 0;
        while i < t.len()
            invariant
                i <= t.len(),
                price_rows_parsed(rows, i as int) == Some(items@),
            decreases t.len() - i,
        {
            match parse_price_row(&t[i].1) {
                Some(m) => {
                    items.push(m);
                },
                None => {
                    proof {
                        lemma_price_rows_parsed_fail(rows, i as int, t.len() as int);
                    }
                    return Err(AppError::bare(AppErrorCode::DataCorruption));
                },
            }
            i += 1;
        }
    }
    Ok(ProductPriceModelSet { store_id, items })
}

/// Whether `r` is what a fetch for store `store_id` comes to, where
/// `answer` is what the data store answered: the error of the store as it
/// is; else the prices that its answer holds; else, where a row of the price
/// table is badly written, corrupt data.
pub open spec fn fetch_outcome(
    store_id: u32,
    answer: Result<AppInMemFetchedData, AppError>,
    r: Result<ProductPriceModelSet, AppError>,
) -> bool {
    match answer {
        Err(e) => r == Err::<ProductPriceModelSet, AppError>(e),
        Ok(result_raw) => match prices_fetched(data_text(result_raw@)) {
            Some(items) => r matches Ok(set) && set.store_id == store_id && set.items@ == items,
            None => r matches Err(e) && e.code == AppErrorCode::DataCorruption && e.detail is None,
        },
    }
}

/// The price repository on the in-memory data store.
pub struct ProductPriceInMemRepo<D: AbstInMemoryDStore> {
    datastore: D,
}

impl<D: AbstInMemoryDStore> ProductPriceInMemRepo<D> {
    /// The data store that the repository works on.
    pub closed spec fn store(&self) -> &D {
        &self.datastore
    }

    /// Sets the repository up on a data store and has the price table
    /// created.
    ///
    /// Fails with a missing data store if there is none; what the store
    /// answers to the creation of the table is handed on.
    pub fn _new(in_mem: Option<D>) -> (r: Result<Self, AppError>)
        ensures
            in_mem is None ==> (r matches Err(e) && e.is(
                AppErrorCode::MissingDataStore,
                "in-memory"@,
            )),
    {
        match in_mem {
            Some(m) => match m.create_table(TABLE_LABEL) {
                Ok(()) => Ok(ProductPriceInMemRepo { datastore: m }),
                Err(e) => Err(e),
            },
            None => Err(
                AppError::new(AppErrorCode::MissingDataStore, String::from_str("in-memory")),
            ),
        }
    }

    /// The keys to fetch for the products `ids` of store `store_id`.
    pub fn gen_id_keys(&self, store_id: u32, ids: Vec<(u8, u64)>) -> (r: AppInMemFetchKeys)
        ensures
            fetch_keys_text(r@) == seq![("product_price"@, price_keys_text(store_id, ids@))],
    {
        let mut str_ids: Vec<String> = Vec::new();
        let mut i: usize = 0;
        while i < ids.len()
            invariant
                i <= ids.len(),
                texts_of(str_ids@) == price_keys_text(store_id, ids@.subrange(0, i as int)),
            decreases ids.len() - i,
        {
            let (typ, id) = ids[i];
            let ghost before = texts_of(str_ids@);
            str_ids.push(price_key(store_id, typ, id));
            proof {
                let key = price_key_text(store_id, typ, id);
                assert(texts_of(str_ids@) =~= before.push(key));
            }
            i += 1;
        }
        assert(ids@.subrange(0, ids.len() as int) =~= ids@);
        let mut h: AppInMemFetchKeys = Vec::new();
        h.push((String::from_str(TABLE_LABEL), str_ids));
        h
    }

    /// Deleting all prices of a store is accepted and changes nothing.
    pub fn delete_all(&self, store_id: u32) -> (r: Result<(), AppError>)
        ensures
            r is Ok,
    {
        Ok(())
    }

    /// Deleting prices is accepted and changes nothing.
    pub fn delete(&self, store_id: u32, ids: Vec<(u8, u64)>) -> (r: Result<(), AppError>)
        ensures
            r is Ok,
    {
        Ok(())
    }

    /// Fetches the prices of the products `ids` of store `store_id`.
    ///
    /// The data store is asked once, for the keys of `gen_id_keys`.  Its
    /// error is handed on as it is; its answer is read as
    /// `prices_from_fetched` reads it: the prices of the price table in the
    /// order of its rows, none without that table, and corrupt data where a
    /// row is badly written.
    pub fn fetch(&self, store_id: u32, ids: Vec<(u8, u64)>) -> (r: Result<
        ProductPriceModelSet,
        AppError,
    >)
        ensures
            exists|info: AppInMemFetchKeys, answer: Result<AppInMemFetchedData, AppError>|
                #![trigger call_ensures(D::fetch, (self.store(), info), answer)]
                fetch_keys_text(info@) == seq![
                    ("product_price"@, price_keys_text(store_id, ids@)),
                ] && call_ensures(D::fetch, (self.store(), info), answer) && fetch_outcome(
                    store_id,
                    answer,
                    r,
                ),
    {
        let info = self.gen_id_keys(store_id, ids);
        let ghost asked = info;
        let answer = self.datastore.fetch(info);
        let ghost answered = answer;
        let r = match answer {
            Ok(result_raw) => prices_from_fetched(store_id, &result_raw),
            Err(e) => Err(e),
        };
        assert(call_ensures(D::fetch, (self.store(), asked), answered) && fetch_outcome(
            store_id,
            answered,
            r,
        ));
        r
    }

    /// Saves the prices of a store.
    ///
    /// The rows of `rows_to_save` are handed to the data store; its error,
    /// if any, is handed on.  A set of store `0` or without prices is
    /// refused as empty input before the store is asked.
    pub fn save(&self, ppset: ProductPriceModelSet) -> (r: Result<(), AppError>)
        ensures
            (ppset.store_id == 0 || ppset.items.len() == 0) ==> (r matches Err(e) && e.is(
                AppErrorCode::EmptyInputData,
                "save ProductPriceModel"@,
            )),
    {
        let data = match rows_to_save(&ppset) {
            Ok(d) => d,
            Err(e) => {
                return Err(e);
            },
        };
        match self.datastore.save(data) {
            Ok(_num) => Ok(()),
            Err(e) => Err(e),
        }
    }
}

} // verus!
