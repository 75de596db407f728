//! Stock levels in the in-memory data store.
//!
//! A bucket is one row of the table `order_stock_lvl`.  Its key is
//! `store/type/product/expiry`, the expiry written to the second with its
//! offset; its columns are the expiry in RFC 3339, the total, the
//! reservations as `order/quantity` separated by spaces, and what was
//! cancelled.

use crate::constant::ProductType;
use crate::datastore::{
    data_text, fetch_keys_text, row_text, table_text, texts_of, AppInMemFetchKeys,
    AppInMemFetchedData, AppInMemRow, AppInMemUpdateData, RowText,
};
use crate::error::{AppError, AppErrorCode};
use crate::model::order::{OrderLineModel, OrderLineModelSet};
use crate::model::stock::{
    return_faults, rsv_view, set_after_lines, set_after_returns, shortages, store_position,
    ProductStock, ProductStockIdentity, ProductStockIdentity2, ProductStockModel, RsvEntry,
    StockLevelModelSet, StockLevelReturnDto, StockQuantity, StockQuantityModel,
    StockReserveError, StockReturnError, StockReturnItem, StoreStock, StoreStockModel,
};
use crate::text::{
    dec_bounded, dec_text, free_of, lemma_dec_round_trip, lemma_split_append,
    lemma_split_first, lemma_split_pair, lemma_split_plain, parse_dec_str, push_dec, split_str,
    split_text,
};
use crate::time::{
    opt_text, rfc3339_parsed, rfc3339_text, stamp_of, strftime_parsed, strftime_text, Timestamp,
};
use vstd::prelude::*;
use vstd::string::StringExecFns;

verus! {

/// Label of the table of stock levels.
pub const TABLE_LABEL: &'static str = "order_stock_lvl";

/// Pattern of the expiry in a row key.
pub const EXPIRY_KEY_FORMAT: &'static str = "%Y%m%d%H%M%S%z";

/// Index of the expiry column.
pub const COL_EXPIRY: usize = 0;

/// Index of the column of the total quantity.
pub const COL_QTY_TOTAL: usize = 1;

/// Index of the column of the reservations.
pub const COL_QTY_RSV_DETAIL: usize = 2;

/// Index of the column of the cancelled quantity.
pub const COL_QTY_CANCELLED: usize = 3;

/// Number of columns of a row.
pub const TOT_NUM_COLUMNS: usize = 4;

/// What a row key says: store, product kind, product, and the text of the
/// expiry.  A key has at least four parts between slashes, the first three
/// of them decimal numerals that fit their types.
pub open spec fn stock_key_parts(key: Seq<char>) -> Option<(u32, ProductType, u64, Seq<char>)> {
    let t = split_text(key, '/');
    if t.len() < 4 {
        None
    } else {
        match (
            dec_bounded(t[0], u32::MAX as nat),
            dec_bounded(t[1], u8::MAX as nat),
            dec_bounded(t[2], u64::MAX as nat),
        ) {
            (Some(store), Some(kind), Some(product)) => Some(
                (store as u32, ProductType::of_code(kind as u8), product as u64, t[3]),
            ),
            _ => None,
        }
    }
}

/// What one reservation in a row says: `order/quantity`.
pub open spec fn rsv_entry_parsed(tok: Seq<char>) -> Option<RsvEntry> {
    let kv = split_text(tok, '/');
    if kv.len() < 2 {
        None
    } else {
        match dec_bounded(kv[1], u32::MAX as nat) {
            Some(q) => Some((kv[0], q)),
            None => None,
        }
    }
}

/// What the first `upto` reservations of a row say, if each is well written.
pub open spec fn rsv_entries_parsed(toks: Seq<Seq<char>>, upto: int) -> Option<Seq<RsvEntry>>
    decreases upto,
{
    if upto <= 0 {
        Some(Seq::empty())
    } else {
        match (rsv_entries_parsed(toks, upto - 1), rsv_entry_parsed(toks[upto - 1])) {
            (Some(before), Some(e)) => Some(before.push(e)),
            _ => None,
        }
    }
}

/// What the reservation column of a row says.  An empty column holds no
/// reservation.
pub open spec fn rsv_parsed(s: Seq<char>) -> Option<Seq<RsvEntry>> {
    if s.len() == 0 {
        Some(Seq::empty())
    } else {
        let toks = split_text(s, ' ');
        rsv_entries_parsed(toks, toks.len() as int)
    }
}

/// The bucket that a row holds for the product `(type_, id_)`, if the row
/// has its four columns, each well written, and the quantities keep the
/// stock invariant.
pub open spec fn stock_row_parsed(type_: ProductType, id_: u64, cols: Seq<Seq<char>>) -> Option<
    ProductStock,
> {
    if cols.len() < 4 {
        None
    } else {
        match (
            dec_bounded(cols[1], u32::MAX as nat),
            rsv_parsed(cols[2]),
            dec_bounded(cols[3], u32::MAX as nat),
            stamp_of(rfc3339_parsed(cols[0])),
        ) {
            (Some(total), Some(rsv), Some(cancelled), Some(expiry)) => {
                let quantity = StockQuantity { total, cancelled, rsv };
                if quantity.wf() {
                    Some(ProductStock { type_, id_, expiry, quantity, is_create: false })
                } else {
                    None
                }
            },
            _ => None,
        }
    }
}

/// Whether the store already has the bucket of `p`.
pub open spec fn store_has_bucket(s: StoreStock, p: ProductStock) -> bool {
    exists|j: int| 0 <= j < s.products.len() && (#[trigger] s.products[j]).same_bucket(p)
}

/// The set with one more bucket in store `store_id`: at the end of that
/// store, or in a new store at the end of the set.  There is no such set if
/// the store has the bucket already.
pub open spec fn stock_set_with(set: Seq<StoreStock>, store_id: u32, p: ProductStock) -> Option<
    Seq<StoreStock>,
> {
    let at = store_position(set, store_id);
    if at < set.len() {
        if store_has_bucket(set[at], p) {
            None
        } else {
            Some(set.update(at, StoreStock { store_id, products: set[at].products.push(p) }))
        }
    } else {
        Some(set.push(StoreStock { store_id, products: seq![p] }))
    }
}

/// The set with the bucket of one more row.
pub open spec fn stock_set_with_row(set: Seq<StoreStock>, row: RowText) -> Option<Seq<StoreStock>> {
    match stock_key_parts(row.0) {
        Some((store_id, type_, id_, _)) => match stock_row_parsed(type_, id_, row.1) {
            Some(p) => stock_set_with(set, store_id, p),
            None => None,
        },
        None => None,
    }
}

/// The set that the first `upto` rows of a table hold, if every one of them
/// is well written and no bucket occurs twice.
pub open spec fn stock_set_of_rows(rows: Seq<RowText>, upto: int) -> Option<Seq<StoreStock>>
    decreases upto,
{
    if upto <= 0 {
        Some(Seq::empty())
    } else {
        match stock_set_of_rows(rows, upto - 1) {
            Some(set) => stock_set_with_row(set, rows[upto - 1]),
            None => None,
        }
    }
}

/// Reads a row key.
pub fn parse_stock_key(key: &str) -> (r: Option<(u32, ProductType, u64, String)>)
    ensures
        match r {
            Some((s, t, i, e)) => stock_key_parts(key@) == Some((s, t, i, e@)),
            None => stock_key_parts(key@) is None,
        },
{
    let toks = split_str(key, '/');
    if toks.len() < 4 {
        return None;
    }
    let store = match parse_dec_str(toks[0].as_str(), u32::MAX as u64) {
        Some(v) => v as u32,
        None => {
            return None;
        },
    };
    let kind = match parse_dec_str(toks[1].as_str(), u8::MAX as u64) {
        Some(v) => v as u8,
        None => {
            return None;
        },
    };
    let product = match parse_dec_str(toks[2].as_str(), u64::MAX) {
        Some(v) => v,
        None => {
            return None;
        },
    };
    Some((store, ProductType::from(kind), product, toks[3].clone()))
}

/// Reads the reservation column of a row.
pub fn parse_rsv(col: &str) -> (r: Option<Vec<(String, u32)>>)
    ensures
        match r {
            Some(v) => rsv_parsed(col@) == Some(rsv_view(v@)),
            None => rsv_parsed(col@) is None,
        },
{
    let mut out: Vec<(String, u32)> = Vec::new();
    if col.unicode_len() == 0 {
        return Some(out);
    }
    let toks = split_str(col, ' ');
    let ghost spec_toks = split_text(col@, ' ');
    let mut i: usize = 0;
    while i < toks.len()
        invariant
            i <= toks.len(),
            col@.len() > 0,
            spec_toks == split_text(col@, ' '),
            toks@.len() == spec_toks.len(),
            forall|k: int| 0 <= k < toks@.len() ==> (#[trigger] toks@[k])@ == spec_toks[k],
            rsv_entries_parsed(spec_toks, i as int) == Some(rsv_view(out@)),
        decreases toks.len() - i,
    {
        let kv = split_str(toks[i].as_str(), '/');
        if kv.len() < 2 {
            proof {
                lemma_rsv_entries_fail(spec_toks, i as int, toks.len() as int);
            }
            return None;
        }
        let qty = match parse_dec_str(kv[1].as_str(), u32::MAX as u64) {
            Some(v) => v as u32,
            None => {
                proof {
                    lemma_rsv_entries_fail(spec_toks, i as int, toks.len() as int);
                }
                return None;
            },
        };
        out.push((kv[0].clone(), qty));
        i += 1;
    }
    Some(out)
}

/// Once a reservation is badly written, the column as a whole is.
pub proof fn lemma_rsv_entries_fail(toks: Seq<Seq<char>>, at: int, upto: int)
    requires
        0 <= at < upto,
        rsv_entry_parsed(toks[at]) is None,
    ensures
        rsv_entries_parsed(toks, upto) is None,
    decreases upto,
{
    if at < upto - 1 {
        lemma_rsv_entries_fail(toks, at, upto - 1);
    }
}

/// Reads the bucket that a row holds for the product `(type_, id_)`.
pub fn parse_stock_row(type_: ProductType, id_: u64, cols: &Vec<String>) -> (r: Option<
    ProductStockModel,
>)
    ensures
        match r {
            Some(p) => stock_row_parsed(type_, id_, texts_of(cols@)) == Some(p@) && p.quantity.wf(),
            None => stock_row_parsed(type_, id_, texts_of(cols@)) is None,
        },
{
    if cols.len() < 4 {
        return None;
    }
    let total = match parse_dec_str(cols[COL_QTY_TOTAL].as_str(), u32::MAX as u64) {
        Some(v) => v as u32,
        None => {
            return None;
        },
    };
    let rsv = match parse_rsv(cols[COL_QTY_RSV_DETAIL].as_str()) {
        Some(v) => v,
        None => {
            return None;
        },
    };
    let cancelled = match parse_dec_str(cols[COL_QTY_CANCELLED].as_str(), u32::MAX as u64) {
        Some(v) => v as u32,
        None => {
            return None;
        },
    };
    let expiry = match Timestamp::parse_rfc3339(cols[COL_EXPIRY].as_str()) {
        Some(v) => v,
        None => {
            return None;
        },
    };
    match StockQuantityModel::new(total, cancelled, Some(rsv)) {
        Ok(quantity) => Some(ProductStockModel { type_, id_, expiry, quantity, is_create: false }),
        Err(_) => None,
    }
}

impl StockLevelModelSet {
    /// Reads the rows of the stock table into a set of stock levels, store
    /// by store in the order in which the stores first occur.
    ///
    /// Fails, with corrupt data, if a key or a column is badly written, if
    /// the quantities of a row break the stock invariant, or if two rows
    /// hold the same bucket.
    #[verifier::loop_isolation(false)]
    pub fn try_from_table(rows: &Vec<AppInMemRow>) -> (r: Result<StockLevelModelSet, AppError>)
        ensures
            match r {
                Ok(set) => stock_set_of_rows(table_text(rows@), rows.len() as int) == Some(set@)
                    && set.wf(),
                Err(e) => stock_set_of_rows(table_text(rows@), rows.len() as int) is None && e.code
                    == AppErrorCode::DataCorruption && e.detail is None,
            },
    {
        let ghost texts = table_text(rows@);
        let mut out = StockLevelModelSet { stores: Vec::new() };
        let mut i: usize = 0;
        while i < rows.len()
            invariant
                i <= rows.len(),
                texts == table_text(rows@),
                stock_set_of_rows(texts, i as int) == Some(out@),
                out.wf(),
            decreases rows.len() - i,
        {
            let ghost now = out@;
            let row = &rows[i];
            let (store_id, type_, id_) = match parse_stock_key(row.0.as_str()) {
                Some((s, t, p, _)) => (s, t, p),
                None => {
                    proof {
                        lemma_stock_rows_fail(texts, i as int, rows.len() as int);
                    }
                    return Err(AppError::bare(AppErrorCode::DataCorruption));
                },
            };
            let product = match parse_stock_row(type_, id_, &row.1) {
                Some(p) => p,
                None => {
                    proof {
                        lemma_stock_rows_fail(texts, i as int, rows.len() as int);
                    }
                    return Err(AppError::bare(AppErrorCode::DataCorruption));
                },
            };
            let ghost pv = product@;
            match out.find_store(store_id) {
                Some(at) => {
                    let n = out.stores[at].products.len();
                    let mut j: usize = 0;
                    while j < n
                        invariant
                            j <= n == out.stores@[at as int].products.len(),
                            at < out.stores.len(),
                            now == out@,
                            pv == product@,
                            forall|k: int|
                                0 <= k < j ==> !(#[trigger] now[at as int].products[k]).same_bucket(
                                    pv,
                                ),
                        decreases n - j,
                    {
                        assert(now[at as int].products[j as int]
                            == out.stores@[at as int].products@[j as int]@);
                        if out.stores[at].products[j].same_bucket(&product) {
                            proof {
                                lemma_stock_rows_fail(texts, i as int, rows.len() as int);
                            }
                            return Err(AppError::bare(AppErrorCode::DataCorruption));
                        }
                        j += 1;
                    }
                    out.stores[at].products.push(product);
                    proof {
                        let grown = StoreStock {
                            store_id,
                            products: now[at as int].products.push(pv),
                        };
                        assert(out.stores@[at as int]@.products =~= grown.products);
                        assert(out@ =~= now.update(at as int, grown));
                    }
                },
                None => {
                    let mut products: Vec<ProductStockModel> = Vec::new();
                    products.push(product);
                    let store = StoreStockModel { store_id, products };
                    proof {
                        assert(store@.products =~= seq![pv]);
                    }
                    out.stores.push(store);
                    proof {
                        assert(out@ =~= now.push(StoreStock { store_id, products: seq![pv] }));
                        lemma_store_absent(now, store_id);
                    }
                },
            }
            i += 1;
        }
        Ok(out)
    }
}

/// Where `store_position` finds no store, no store has the identifier.
pub proof fn lemma_store_absent(set: Seq<StoreStock>, store_id: u32)
    requires
        store_position(set, store_id) == set.len(),
    ensures
        forall|k: int| 0 <= k < set.len() ==> (#[trigger] set[k]).store_id != store_id,
    decreases set.len(),
{
    if set.len() > 0 {
        let t = set.drop_first();
        lemma_store_absent(t, store_id);
        assert forall|k: int| 0 <= k < set.len() implies (#[trigger] set[k]).store_id
            != store_id by {
            if k > 0 {
                assert(set[k] == t[k - 1]);
            }
        }
    }
}

/// Once a row cannot be read, the table as a whole cannot.
pub proof fn lemma_stock_rows_fail(rows: Seq<RowText>, at: int, upto: int)
    requires
        0 <= at < upto,
        match stock_set_of_rows(rows, at) {
            Some(set) => stock_set_with_row(set, rows[at]) is None,
            None => true,
        },
    ensures
        stock_set_of_rows(rows, upto) is None,
    decreases upto,
{
    if at < upto - 1 {
        lemma_stock_rows_fail(rows, at, upto - 1);
    }
}

/// How one reservation is written in a row.
pub open spec fn rsv_entry_text(e: RsvEntry) -> Seq<char> {
    e.0 + "/"@ + dec_text(e.1)
}

/// How the first `upto` reservations are written in a row: one after
/// another, with a space between two.
pub open spec fn rsv_text(rsv: Seq<RsvEntry>, upto: int) -> Seq<char>
    decreases upto,
{
    if upto <= 0 {
        Seq::empty()
    } else if upto == 1 {
        rsv_entry_text(rsv[0])
    } else {
        rsv_text(rsv, upto - 1) + " "@ + rsv_entry_text(rsv[upto - 1])
    }
}

/// The key of the row of a bucket, if the expiry can be written.
pub open spec fn stock_key_text(
    store_id: u32,
    type_: ProductType,
    id_: u64,
    expiry: Timestamp,
) -> Option<Seq<char>> {
    match strftime_text(expiry.secs, 0, expiry.offset, "%Y%m%d%H%M%S%z"@) {
        Some(e) => Some(
            dec_text(store_id as nat) + "/"@ + dec_text(type_.code() as nat) + "/"@ + dec_text(
                id_ as nat,
            ) + "/"@ + e,
        ),
        None => None,
    }
}

/// The row of a bucket of store `store_id`, if the expiry can be written.
pub open spec fn stock_row_text(store_id: u32, p: ProductStock) -> Option<RowText> {
    match (
        stock_key_text(store_id, p.type_, p.id_, p.expiry),
        rfc3339_text(p.expiry.secs, p.expiry.nanos, p.expiry.offset),
    ) {
        (Some(key), Some(expiry)) => Some(
            (
                key,
                seq![
                    expiry,
                    dec_text(p.quantity.total),
                    rsv_text(p.quantity.rsv, p.quantity.rsv.len() as int),
                    dec_text(p.quantity.cancelled),
                ],
            ),
        ),
        _ => None,
    }
}

/// The rows of the first `upto` buckets of a store.
pub open spec fn store_rows(s: StoreStock, upto: int) -> Option<Seq<RowText>>
    decreases upto,
{
    if upto <= 0 {
        Some(Seq::empty())
    } else {
        match (store_rows(s, upto - 1), stock_row_text(s.store_id, s.products[upto - 1])) {
            (Some(before), Some(row)) => Some(before.push(row)),
            _ => None,
        }
    }
}

/// The rows of the first `upto` stores of a set, store after store.
pub open spec fn stock_rows(set: Seq<StoreStock>, upto: int) -> Option<Seq<RowText>>
    decreases upto,
{
    if upto <= 0 {
        Some(Seq::empty())
    } else {
        match (
            stock_rows(set, upto - 1),
            store_rows(set[upto - 1], set[upto - 1].products.len() as int),
        ) {
            (Some(before), Some(rows)) => Some(before + rows),
            _ => None,
        }
    }
}

/// Writes the key of the row of a bucket.
pub fn stock_key(store_id: u32, type_: ProductType, id_: u64, expiry: &Timestamp) -> (r: Option<
    String,
>)
    ensures
        opt_text(r) == stock_key_text(store_id, type_, id_, *expiry),
{
    let at = match expiry.without_subsecs().format(EXPIRY_KEY_FORMAT) {
        Some(t) => t,
        None => {
            return None;
        },
    };
    let mut key = String::new();
    push_dec(&mut key, store_id as u64);
    key.push('/');
    push_dec(&mut key, type_.to_code() as u64);
    key.push('/');
    push_dec(&mut key, id_);
    key.push('/');
    key.append(at.as_str());
    proof {
        reveal_strlit("/");
    }
    Some(key)
}

/// Writes the reservation column of a row.
pub fn rsv_column(rsv: &Vec<(String, u32)>) -> (r: String)
    ensures
        r@ == rsv_text(rsv_view(rsv@), rsv.len() as int),
{
    let ghost view = rsv_view(rsv@);
    let mut out = String::new();
    let mut i: usize = 0;
    while i < rsv.len()
        invariant
            i <= rsv.len(),
            view == rsv_view(rsv@),
            out@ == rsv_text(view, i as int),
        decreases rsv.len() - i,
    {
        if i > 0 {
            out.push(' ');
        }
        out.append(rsv[i].0.as_str());
        out.push('/');
        push_dec(&mut out, rsv[i].1 as u64);
        proof {
            reveal_strlit("/");
            reveal_strlit(" ");
        }
        i += 1;
    }
    out
}

impl ProductStockModel {
    /// Writes the row of this bucket in store `store_id`.
    pub fn to_row(&self, store_id: u32) -> (r: Option<AppInMemRow>)
        ensures
            match r {
                Some(row) => stock_row_text(store_id, self@) == Some(row_text(row)),
                None => stock_row_text(store_id, self@) is None,
            },
    {
        let key = match stock_key(store_id, self.type_, self.id_, &self.expiry) {
            Some(k) => k,
            None => {
                return None;
            },
        };
        let expiry = match self.expiry.to_rfc3339() {
            Some(t) => t,
            None => {
                return None;
            },
        };
        let mut cols: Vec<String> = Vec::new();
        cols.push(expiry);
        cols.push(crate::text::dec_string(self.quantity.total() as u64));
        cols.push(rsv_column(self.quantity.reservation()));
        cols.push(crate::text::dec_string(self.quantity.cancelled() as u64));
        Some((key, cols))
    }
}

impl StockLevelModelSet {
    /// Writes the set as rows of the stock table, store after store and
    /// bucket after bucket.
    ///
    /// Fails, with invalid input, if the expiry of a bucket cannot be
    /// written as a date.
    #[verifier::loop_isolation(false)]
    pub fn to_table(&self) -> (r: Result<Vec<AppInMemRow>, AppError>)
        ensures
            match r {
                Ok(t) => stock_rows(self@, self.stores.len() as int) == Some(table_text(t@)),
                Err(e) => stock_rows(self@, self.stores.len() as int) is None && e.code
                    == AppErrorCode::InvalidInput && e.detail is None,
            },
    {
        let mut out: Vec<AppInMemRow> = Vec::new();
        let mut i: usize = 0;
        while i < self.stores.len()
            invariant
                i <= self.stores.len(),
                stock_rows(self@, i as int) == Some(table_text(out@)),
            decreases self.stores.len() - i,
        {
            let store = &self.stores[i];
            let ghost before = table_text(out@);
            let mut j: usize = 0;
            while j < store.products.len()
                invariant
                    j <= store.products.len(),
                    store_rows(store@, j as int) is Some,
                    table_text(out@) == before + store_rows(store@, j as int)->0,
                decreases store.products.len() - j,
            {
                match store.products[j].to_row(store.store_id) {
                    Some(row) => {
                        let ghost prev = table_text(out@);
                        out.push(row);
                        assert(table_text(out@) =~= prev.push(row_text(row)));
                    },
                    None => {
                        proof {
                            lemma_store_rows_fail(
                                store@,
                                j as int,
                                store.products.len() as int,
                            );
                            lemma_stock_rows_part_fail(self@, i as int, self.stores.len() as int);
                        }
                        return Err(AppError::bare(AppErrorCode::InvalidInput));
                    },
                }
                j += 1;
            }
            i += 1;
        }
        Ok(out)
    }
}

/// Once a bucket cannot be written, the store as a whole cannot.
pub proof fn lemma_store_rows_fail(s: StoreStock, at: int, upto: int)
    requires
        0 <= at < upto,
        stock_row_text(s.store_id, s.products[at]) is None,
    ensures
        store_rows(s, upto) is None,
    decreases upto,
{
    if at < upto - 1 {
        lemma_store_rows_fail(s, at, upto - 1);
    }
}

/// Once a store cannot be written, the set as a whole cannot.
pub proof fn lemma_stock_rows_part_fail(set: Seq<StoreStock>, at: int, upto: int)
    requires
        0 <= at < upto,
        store_rows(set[at], set[at].products.len() as int) is None,
    ensures
        stock_rows(set, upto) is None,
    decreases upto,
{
    if at < upto - 1 {
        lemma_stock_rows_part_fail(set, at, upto - 1);
    }
}

/// Chooses the rows of the stock table that a reservation or a return
/// works on: those of given products and, where a time is set, only those
/// that expire after it.
#[derive(Debug, Clone)]
pub struct InMemDStoreFiltKeyOp {
    options: Vec<(u32, u8, u64)>,
    timenow: Option<Timestamp>,
}

/// The products of a filter as store, octet of the kind, and product.
pub open spec fn filter_options(pids: Seq<ProductStockIdentity2>) -> Seq<(u32, u8, u64)> {
    Seq::new(pids.len(), |i: int| (pids[i].store_id, pids[i].product_type.code(), pids[i].product_id))
}

impl InMemDStoreFiltKeyOp {
    /// The products that the filter lets through.
    pub closed spec fn options(&self) -> Seq<(u32, u8, u64)> {
        self.options@
    }

    /// The time after which a bucket must expire, if the filter looks at
    /// the expiry.
    pub closed spec fn timenow(&self) -> Option<Timestamp> {
        self.timenow
    }

    /// Whether the filter lets the row with this key through: the key is
    /// well written, names one of the products, and, where a time is set,
    /// an expiry after that time.
    pub open spec fn selects(&self, key: Seq<char>) -> bool {
        match stock_key_parts(key) {
            Some((store, kind, product, at)) => match stamp_of(
                strftime_parsed(at, "%Y%m%d%H%M%S%z"@),
            ) {
                Some(expiry) => self.options().contains((store, kind.code(), product)) && match self.timenow() {
                    Some(now) => expiry.later_than(now),
                    None => true,
                },
                None => false,
            },
            None => false,
        }
    }

    pub fn new(pids: Vec<ProductStockIdentity2>, timenow: Option<Timestamp>) -> (r: Self)
        ensures
            r.options() == filter_options(pids@),
            r.timenow() == timenow,
    {
        let mut options: Vec<(u32, u8, u64)> = Vec::new();
        let mut i: usize = 0;
        while i < pids.len()
            invariant
                i <= pids.len(),
                options@ == filter_options(pids@.subrange(0, i as int)),
            decreases pids.len() - i,
        {
            let d = pids[i];
            let prod_typ_num: u8 = d.product_type.to_code();
            options.push((d.store_id, prod_typ_num, d.product_id));
            i += 1;
        }
        InMemDStoreFiltKeyOp { timenow, options }
    }

    /// Whether the row with key `k` is let through.
    pub fn filter(&self, k: &String, _v: &Vec<String>) -> (r: bool)
        ensures
            r == self.selects(k@),
    {
        let (store_id, prod_typ, prod_id, at) = match parse_stock_key(k.as_str()) {
            Some(parts) => parts,
            None => {
                return false;
            },
        };
        let exp_from_combo = match Timestamp::parse_with(at.as_str(), EXPIRY_KEY_FORMAT) {
            Some(t) => t,
            None => {
                return false;
            },
        };
        let want = (store_id, prod_typ.to_code(), prod_id);
        let mut found = false;
        let mut i: usize = 0;
        while i < self.options.len()
            invariant
                i <= self.options.len(),
                found <==> exists|j: int| 0 <= j < i && self.options@[j] == want,
            decreases self.options.len() - i,
        {
            let o = self.options[i];
            if o.0 == want.0 && o.1 == want.1 && o.2 == want.2 {
                found = true;
            }
            i += 1;
        }
        if found {
            match &self.timenow {
                Some(v) => exp_from_combo.is_after(v),
                None => true,
            }
        } else {
            false
        }
    }
}

/// The keys of the first `upto` buckets, if each expiry can be written.
pub open spec fn stock_keys_text(pids: Seq<ProductStockIdentity>, upto: int) -> Option<
    Seq<Seq<char>>,
>
    decreases upto,
{
    if upto <= 0 {
        Some(Seq::empty())
    } else {
        let d = pids[upto - 1];
        match (
            stock_keys_text(pids, upto - 1),
            stock_key_text(d.store_id, d.product_type, d.product_id, d.expiry),
        ) {
            (Some(before), Some(key)) => Some(before.push(key)),
            _ => None,
        }
    }
}

/// Once the key of a bucket cannot be written, the keys as a whole cannot.
pub proof fn lemma_stock_keys_fail(pids: Seq<ProductStockIdentity>, at: int, upto: int)
    requires
        0 <= at < upto,
        stock_key_text(pids[at].store_id, pids[at].product_type, pids[at].product_id, pids[at].expiry)
            is None,
    ensures
        stock_keys_text(pids, upto) is None,
    decreases upto,
{
    if at < upto - 1 {
        lemma_stock_keys_fail(pids, at, upto - 1);
    }
}

/// The products of the lines of an order.
pub open spec fn line_products(lines: Seq<OrderLineModel>) -> Seq<ProductStockIdentity2> {
    Seq::new(
        lines.len(),
        |i: int|
            ProductStockIdentity2 {
                store_id: lines[i].id_.store_id,
                product_type: lines[i].id_.product_type,
                product_id: lines[i].id_.product_id,
            },
    )
}

/// The products of the items of a return.
pub open spec fn item_products(items: Seq<StockReturnItem>) -> Seq<ProductStockIdentity2> {
    Seq::new(
        items.len(),
        |i: int|
            ProductStockIdentity2 {
                store_id: items[i].pid.store_id,
                product_type: items[i].pid.product_type,
                product_id: items[i].pid.product_id,
            },
    )
}

/// What a reservation on fetched tables comes to: the rows to save, the
/// shortages that forbid saving, or the fault in the data.
pub enum ReserveOutcome {
    Save(Seq<RowText>),
    Short(Seq<StockReserveError>),
    Fault(AppErrorCode),
}

/// What reserving the lines of an order at `now` on fetched tables comes
/// to.  The first table is read as the stock table; the lines are served on
/// it; where no line meets a shortage the resulting buckets are to be
/// saved.
pub open spec fn reserve_outcome(
    tables: Seq<(Seq<char>, Seq<RowText>)>,
    oid: Seq<char>,
    lines: Seq<OrderLineModel>,
    now: Timestamp,
) -> ReserveOutcome {
    if tables.len() == 0 {
        ReserveOutcome::Fault(AppErrorCode::DataTableNotExist)
    } else {
        match stock_set_of_rows(tables[0].1, tables[0].1.len() as int) {
            None => ReserveOutcome::Fault(AppErrorCode::DataCorruption),
            Some(set) => {
                let short = shortages(set, oid, lines, now, lines.len() as int);
                let after = set_after_lines(set, oid, lines, now, lines.len() as int);
                if short.len() > 0 {
                    ReserveOutcome::Short(short)
                } else {
                    match stock_rows(after, after.len() as int) {
                        Some(rows) => ReserveOutcome::Save(rows),
                        None => ReserveOutcome::Fault(AppErrorCode::InvalidInput),
                    }
                }
            },
        }
    }
}

/// What a return on fetched tables comes to: the rows to save, the faults
/// that forbid saving, or the fault in the data.
pub enum ReturnOutcome {
    Save(Seq<RowText>),
    Refused(Seq<StockReturnError>),
    Fault(AppErrorCode),
}

/// What returning the items of an order to fetched tables comes to.
pub open spec fn return_outcome(
    tables: Seq<(Seq<char>, Seq<RowText>)>,
    oid: Seq<char>,
    items: Seq<StockReturnItem>,
) -> ReturnOutcome {
    if tables.len() == 0 {
        ReturnOutcome::Fault(AppErrorCode::DataTableNotExist)
    } else {
        match stock_set_of_rows(tables[0].1, tables[0].1.len() as int) {
            None => ReturnOutcome::Fault(AppErrorCode::DataCorruption),
            Some(set) => {
                let faults = return_faults(set, oid, items, items.len() as int);
                let after = set_after_returns(set, oid, items, items.len() as int);
                if faults.len() > 0 {
                    ReturnOutcome::Refused(faults)
                } else {
                    match stock_rows(after, after.len() as int) {
                        Some(rows) => ReturnOutcome::Save(rows),
                        None => ReturnOutcome::Fault(AppErrorCode::InvalidInput),
                    }
                }
            },
        }
    }
}

/// The stock repository on the in-memory data store, without the store
/// itself: what to ask the store for, and what to make of its answers.
#[derive(Debug, Clone, Copy)]
pub struct StockLvlInMemRepo {
    pub curr_time: Timestamp,
}

impl StockLvlInMemRepo {
    /// Sets the repository up at time `curr_time`, once the data store was
    /// asked to create the stock table: `created` is what the store
    /// answered, and its error, if any, is handed on.
    pub fn build(created: Result<(), AppError>, curr_time: Timestamp) -> (r: Result<
        StockLvlInMemRepo,
        AppError,
    >)
        ensures
            match created {
                Ok(_) => r matches Ok(repo) && repo.curr_time == curr_time,
                Err(e) => r matches Err(err) && err == e,
            },
    {
        match created {
            Ok(_) => Ok(StockLvlInMemRepo { curr_time }),
            Err(e) => Err(e),
        }
    }

    /// The keys under which the buckets `pids` are stored.
    #[verifier::loop_isolation(false)]
    pub fn fetch_keys(pids: &Vec<ProductStockIdentity>) -> (r: Result<AppInMemFetchKeys, AppError>)
        ensures
            match r {
                Ok(info) => stock_keys_text(pids@, pids.len() as int) matches Some(keys)
                    && fetch_keys_text(info@) == seq![("order_stock_lvl"@, keys)],
                Err(e) => stock_keys_text(pids@, pids.len() as int) is None && e.code
                    == AppErrorCode::InvalidInput && e.detail is None,
            },
    {
        let mut ids: Vec<String> = Vec::new();
        let mut i: usize = 0;
        while i < pids.len()
            invariant
                i <= pids.len(),
                stock_keys_text(pids@, i as int) == Some(texts_of(ids@)),
            decreases pids.len() - i,
        {
            let d = &pids[i];
            match stock_key(d.store_id, d.product_type, d.product_id, &d.expiry) {
                Some(key) => {
                    ids.push(key);
                },
                None => {
                    proof {
                        lemma_stock_keys_fail(pids@, i as int, pids.len() as int);
                    }
                    return Err(AppError::bare(AppErrorCode::InvalidInput));
                },
            }
            i += 1;
        }
        let mut info: AppInMemFetchKeys = Vec::new();
        info.push((String::from_str(TABLE_LABEL), ids));
        Ok(info)
    }

    /// The data to save for a set of stock levels: its rows, under the
    /// label of the stock table.
    pub fn save_data(slset: &StockLevelModelSet) -> (r: Result<AppInMemUpdateData, AppError>)
        ensures
            match r {
                Ok(data) => stock_rows(slset@, slset.stores.len() as int) matches Some(rows)
                    && data_text(data@) == seq![("order_stock_lvl"@, rows)],
                Err(e) => stock_rows(slset@, slset.stores.len() as int) is None && e.code
                    == AppErrorCode::InvalidInput && e.detail is None,
            },
    {
        let rows = match slset.to_table() {
            Ok(rows) => rows,
            Err(e) => {
                return Err(e);
            },
        };
        let mut data: AppInMemUpdateData = Vec::new();
        data.push((String::from_str(TABLE_LABEL), rows));
        Ok(data)
    }

    /// Reads fetched tables as a set of stock levels: the first table is
    /// taken for the stock table.
    ///
    /// Fails with a missing table if nothing was fetched, and with corrupt
    /// data if the table cannot be read.
    pub fn try_into_modelset(tableset: &AppInMemFetchedData) -> (r: Result<
        StockLevelModelSet,
        AppError,
    >)
        ensures
            match r {
                Ok(set) => tableset@.len() > 0 && stock_set_of_rows(
                    data_text(tableset@)[0].1,
                    data_text(tableset@)[0].1.len() as int,
                ) == Some(set@) && set.wf(),
                Err(e) => if tableset@.len() == 0 {
                    e.is(AppErrorCode::DataTableNotExist, "order_stock_lvl"@)
                } else {
                    stock_set_of_rows(
                        data_text(tableset@)[0].1,
                        data_text(tableset@)[0].1.len() as int,
                    ) is None && e.code == AppErrorCode::DataCorruption && e.detail is None
                },
            },
    {
        if tableset.len() > 0 {
            StockLevelModelSet::try_from_table(&tableset[0].1)
        } else {
            Err(AppError::new(AppErrorCode::DataTableNotExist, String::from_str(TABLE_LABEL)))
        }
    }

    /// The filter of the rows that a reservation for `order_req` works on:
    /// the buckets of its products that expire after the time of this
    /// repository.
    pub fn reserve_filter(&self, order_req: &OrderLineModelSet) -> (op: InMemDStoreFiltKeyOp)
        ensures
            op.options() == filter_options(line_products(order_req.lines@)),
            op.timenow() == Some(self.curr_time),
    {
        let mut pids: Vec<ProductStockIdentity2> = Vec::new();
        let mut i: usize = 0;
        while i < order_req.lines.len()
            invariant
                i <= order_req.lines.len(),
                pids@ == line_products(order_req.lines@.subrange(0, i as int)),
            decreases order_req.lines.len() - i,
        {
            let d = &order_req.lines[i];
            pids.push(
                ProductStockIdentity2 {
                    product_type: d.id_.product_type,
                    store_id: d.id_.store_id,
                    product_id: d.id_.product_id,
                },
            );
            i += 1;
        }
        InMemDStoreFiltKeyOp::new(pids, Some(self.curr_time))
    }

    /// The filter of the rows that a return works on: the buckets of its
    /// products, expired or not.
    pub fn return_filter(data: &StockLevelReturnDto) -> (op: InMemDStoreFiltKeyOp)
        ensures
            op.options() == filter_options(item_products(data.items@)),
            op.timenow() is None,
    {
        let mut pids: Vec<ProductStockIdentity2> = Vec::new();
        let mut i: usize = 0;
        while i < data.items.len()
            invariant
                i <= data.items.len(),
                pids@ == item_products(data.items@.subrange(0, i as int)),
            decreases data.items.len() - i,
        {
            let d = &data.items[i];
            pids.push(
                ProductStockIdentity2 {
                    product_type: d.pid.product_type,
                    store_id: d.pid.store_id,
                    product_id: d.pid.product_id,
                },
            );
            i += 1;
        }
        InMemDStoreFiltKeyOp::new(pids, None)
    }

    /// Serves the lines of an order on the tables fetched under the lock,
    /// from the buckets that expire after the time of this repository.
    ///
    /// Gives the data to save where every line was served in full.  Where a
    /// line met a shortage the shortages are returned and nothing is to be
    /// saved, so that the stored stock stays as it was.
    pub fn try_reserve(&self, tableset: &AppInMemFetchedData, order_req: &OrderLineModelSet) -> (r:
        Result<AppInMemUpdateData, Result<Vec<StockReserveError>, AppError>>)
        ensures
            match reserve_outcome(
                data_text(tableset@),
                order_req.order_id@,
                order_req.lines@,
                self.curr_time,
            ) {
                ReserveOutcome::Save(rows) => r matches Ok(data) && data_text(data@) == seq![
                    ("order_stock_lvl"@, rows),
                ],
                ReserveOutcome::Short(short) => r matches Err(Ok(errors)) && errors@ == short,
                ReserveOutcome::Fault(code) => r matches Err(Err(e)) && e.code == code,
            },
    {
        let mut stock_mset = match Self::try_into_modelset(tableset) {
            Ok(v) => v,
            Err(e) => {
                return Err(Err(e));
            },
        };
        let errors = stock_mset.try_reserve(order_req, self.curr_time);
        if errors.len() > 0 {
            return Err(Ok(errors));
        }
        match Self::save_data(&stock_mset) {
            Ok(data) => Ok(data),
            Err(e) => Err(Err(e)),
        }
    }

    /// Gives back what an order returns, on the tables fetched under the
    /// lock.
    ///
    /// Gives the data to save where every item was taken back in full.
    /// Where an item was refused the refusals are returned and nothing is
    /// to be saved.
    pub fn try_return(tableset: &AppInMemFetchedData, data: &StockLevelReturnDto) -> (r: Result<
        (Vec<StockReturnError>, Option<AppInMemUpdateData>),
        AppError,
    >)
        ensures
            match return_outcome(data_text(tableset@), data.order_id@, data.items@) {
                ReturnOutcome::Save(rows) => r matches Ok((errors, Some(saved))) && errors@.len()
                    == 0 && data_text(saved@) == seq![("order_stock_lvl"@, rows)],
                ReturnOutcome::Refused(faults) => r matches Ok((errors, None)) && errors@ == faults,
                ReturnOutcome::Fault(code) => r matches Err(e) && e.code == code,
            },
    {
        let mut mset = match Self::try_into_modelset(tableset) {
            Ok(v) => v,
            Err(e) => {
                return Err(e);
            },
        };
        let caller_errors = mset.return_across_warehouses(data);
        if caller_errors.len() == 0 {
            match Self::save_data(&mset) {
                Ok(saved) => Ok((caller_errors, Some(saved))),
                Err(e) => Err(e),
            }
        } else {
            Ok((caller_errors, None))
        }
    }
}

/// A key that was written for a bucket is read back with the store and the
/// product of the bucket, and with the kind that the octet of its kind
/// stands for.
pub proof fn lemma_stock_key_round_trip(
    store_id: u32,
    type_: ProductType,
    id_: u64,
    expiry: Timestamp,
)
    requires
        stock_key_text(store_id, type_, id_, expiry) is Some,
    ensures
        stock_key_parts(stock_key_text(store_id, type_, id_, expiry)->0) matches Some(
            (store, kind, product, _),
        ) && store == store_id && kind == ProductType::of_code(type_.code()) && product == id_,
{
    let key = stock_key_text(store_id, type_, id_, expiry)->0;
    let at = strftime_text(expiry.secs, 0, expiry.offset, "%Y%m%d%H%M%S%z"@)->0;
    let a = dec_text(store_id as nat);
    let b = dec_text(type_.code() as nat);
    let c = dec_text(id_ as nat);
    reveal_strlit("/");
    lemma_dec_round_trip(store_id as nat);
    lemma_dec_round_trip(type_.code() as nat);
    lemma_dec_round_trip(id_ as nat);
    let r2 = c.push('/') + at;
    let r1 = b.push('/') + r2;
    assert(key =~= a.push('/') + r1);
    lemma_split_first(a, r1, '/');
    lemma_split_first(b, r2, '/');
    lemma_split_first(c, at, '/');
}

/// Whether an order identifier can stand in the reservation column: it
/// holds neither a space nor a slash.
pub open spec fn plain_order_id(oid: Seq<char>) -> bool {
    free_of(oid, ' ') && free_of(oid, '/')
}

/// What is written for a reservation is read back as that reservation.
pub proof fn lemma_rsv_entry_round_trip(e: RsvEntry)
    requires
        plain_order_id(e.0),
        e.1 <= u32::MAX,
    ensures
        rsv_entry_parsed(rsv_entry_text(e)) == Some(e),
        free_of(rsv_entry_text(e), ' '),
        rsv_entry_text(e).len() > 0,
{
    reveal_strlit("/");
    let d = dec_text(e.1);
    lemma_dec_round_trip(e.1);
    let text = rsv_entry_text(e);
    assert(text =~= e.0.push('/') + d);
    lemma_split_pair(e.0, d, '/');
}

/// The reading of the first reservations does not depend on those that
/// follow.
pub proof fn lemma_rsv_entries_prefix(toks: Seq<Seq<char>>, more: Seq<char>, upto: int)
    requires
        0 <= upto <= toks.len(),
    ensures
        rsv_entries_parsed(toks.push(more), upto) == rsv_entries_parsed(toks, upto),
    decreases upto,
{
    if upto > 0 {
        lemma_rsv_entries_prefix(toks, more, upto - 1);
    }
}

/// The reservation column that was written for reservations is read back
/// as those reservations, where no order identifier holds a space or a
/// slash.
pub proof fn lemma_rsv_column_round_trip(rsv: Seq<RsvEntry>, upto: int)
    requires
        0 <= upto <= rsv.len(),
        forall|i: int| 0 <= i < rsv.len() ==> plain_order_id((#[trigger] rsv[i]).0) && rsv[i].1
            <= u32::MAX,
    ensures
        rsv_parsed(rsv_text(rsv, upto)) == Some(rsv.subrange(0, upto)),
        upto > 0 ==> rsv_text(rsv, upto).len() > 0 && split_text(rsv_text(rsv, upto), ' ').len()
            == upto,
    decreases upto,
{
    reveal_strlit(" ");
    if upto == 0 {
    } else {
        let e = rsv[upto - 1];
        let entry = rsv_entry_text(e);
        lemma_rsv_entry_round_trip(e);
        if upto == 1 {
            lemma_split_plain(entry, ' ');
            let toks = seq![entry];
            assert(rsv_entries_parsed(toks, 0) == Some(Seq::<RsvEntry>::empty()));
        } else {
            lemma_rsv_column_round_trip(rsv, upto - 1);
            let before = rsv_text(rsv, upto - 1);
            let text = rsv_text(rsv, upto);
            let s = before.push(' ');
            assert(text =~= s + entry);
            let head = split_text(before, ' ');
            assert(s.drop_last() =~= before);
            lemma_split_append(s, entry, ' ');
            assert(head.push(Seq::<char>::empty()).drop_last() =~= head);
            lemma_rsv_entries_prefix(head, entry, upto - 1);
        }
    }
}

} // verus!
