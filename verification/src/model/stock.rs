//! Stock levels: what a store holds of a product, by expiry, and what of it
//! is reserved for which order.

use crate::constant::ProductType;
use crate::error::{AppError, AppErrorCode};
use crate::model::order::{BaseProductIdentity, OrderLineModel, OrderLineModelSet};
use crate::text::str_eq;
use crate::time::Timestamp;
use vstd::prelude::*;
use vstd::string::StringExecFns;

verus! {

/// One reservation as a pair of order identifier and quantity.
pub type RsvEntry = (Seq<char>, nat);

/// The quantities reserved, one after another, added up.
pub open spec fn rsv_sum(rsv: Seq<RsvEntry>) -> nat
    decreases rsv.len(),
{
    if rsv.len() == 0 {
        0
    } else {
        rsv_sum(rsv.drop_last()) + rsv.last().1
    }
}

/// Position of the reservation of order `oid`, or the length of `rsv` if
/// the order has none.
pub open spec fn rsv_position(rsv: Seq<RsvEntry>, oid: Seq<char>) -> int
    decreases rsv.len(),
{
    if rsv.len() == 0 {
        0
    } else if rsv[0].0 == oid {
        0
    } else {
        1 + rsv_position(rsv.drop_first(), oid)
    }
}

/// What is reserved for order `oid`; zero if the order has no reservation.
pub open spec fn rsv_for(rsv: Seq<RsvEntry>, oid: Seq<char>) -> nat {
    let at = rsv_position(rsv, oid);
    if at < rsv.len() {
        rsv[at].1
    } else {
        0
    }
}

/// Whether no order occurs twice.
pub open spec fn rsv_distinct(rsv: Seq<RsvEntry>) -> bool {
    forall|i: int, j: int| 0 <= i < j < rsv.len() ==> (#[trigger] rsv[i]).0 != (#[trigger] rsv[j]).0
}

/// The reservations after `n` more units are reserved for order `oid`: the
/// order's entry grows, or a new entry is added at the end.  Nothing changes
/// when `n` is zero.
pub open spec fn rsv_added(rsv: Seq<RsvEntry>, oid: Seq<char>, n: nat) -> Seq<RsvEntry> {
    let at = rsv_position(rsv, oid);
    if n == 0 {
        rsv
    } else if at < rsv.len() {
        rsv.update(at, (oid, rsv[at].1 + n))
    } else {
        rsv.push((oid, n))
    }
}

/// The reservations after `n` units of order `oid` are given back.
pub open spec fn rsv_removed(rsv: Seq<RsvEntry>, oid: Seq<char>, n: nat) -> Seq<RsvEntry>
    recommends
        n <= rsv_for(rsv, oid),
{
    let at = rsv_position(rsv, oid);
    if n == 0 || at >= rsv.len() {
        rsv
    } else {
        rsv.update(at, (oid, (rsv[at].1 - n) as nat))
    }
}

/// The mathematical content of a [`StockQuantityModel`].
pub struct StockQuantity {
    pub total: nat,
    pub cancelled: nat,
    pub rsv: Seq<RsvEntry>,
}

impl StockQuantity {
    /// Units reserved, over all orders.
    pub open spec fn reserved(self) -> nat {
        rsv_sum(self.rsv)
    }

    /// The invariant of stock quantities: what is reserved and what is
    /// cancelled never exceeds what there is, and each order has at most
    /// one reservation.
    pub open spec fn wf(self) -> bool {
        &&& self.reserved() + self.cancelled <= self.total
        &&& self.total <= u32::MAX
        &&& rsv_distinct(self.rsv)
    }

    /// Units that can still be reserved.
    pub open spec fn avail(self) -> nat {
        (self.total - self.cancelled - self.reserved()) as nat
    }

    /// These quantities after `n` more units are reserved for `oid`.
    pub open spec fn with_reserved(self, oid: Seq<char>, n: nat) -> StockQuantity {
        StockQuantity { rsv: rsv_added(self.rsv, oid, n), ..self }
    }

    /// These quantities after `n` units of `oid` are given back.
    pub open spec fn with_returned(self, oid: Seq<char>, n: nat) -> StockQuantity {
        StockQuantity { rsv: rsv_removed(self.rsv, oid, n), ..self }
    }
}

/// The position that `rsv_position` gives is the first entry of the order.
pub proof fn lemma_rsv_position(rsv: Seq<RsvEntry>, oid: Seq<char>)
    ensures
        0 <= rsv_position(rsv, oid) <= rsv.len(),
        rsv_position(rsv, oid) < rsv.len() ==> rsv[rsv_position(rsv, oid)].0 == oid,
        forall|k: int| 0 <= k < rsv_position(rsv, oid) ==> (#[trigger] rsv[k]).0 != oid,
    decreases rsv.len(),
{
    if rsv.len() > 0 && rsv[0].0 != oid {
        let t = rsv.drop_first();
        lemma_rsv_position(t, oid);
        assert forall|k: int| 0 <= k < rsv_position(rsv, oid) implies (#[trigger] rsv[k]).0
            != oid by {
            if k > 0 {
                assert(rsv[k] == t[k - 1]);
            }
        }
    }
}

/// Changing one entry changes the sum by as much.
pub proof fn lemma_rsv_sum_update(rsv: Seq<RsvEntry>, at: int, e: RsvEntry)
    requires
        0 <= at < rsv.len(),
    ensures
        rsv_sum(rsv.update(at, e)) == rsv_sum(rsv) - rsv[at].1 + e.1,
    decreases rsv.len(),
{
    let u = rsv.update(at, e);
    if at == rsv.len() - 1 {
        assert(u.drop_last() =~= rsv.drop_last());
    } else {
        lemma_rsv_sum_update(rsv.drop_last(), at, e);
        assert(u.drop_last() =~= rsv.drop_last().update(at, e));
    }
}

/// One entry is never more than the sum.
pub proof fn lemma_rsv_sum_bounds(rsv: Seq<RsvEntry>, at: int)
    requires
        0 <= at < rsv.len(),
    ensures
        rsv[at].1 <= rsv_sum(rsv),
    decreases rsv.len(),
{
    if at < rsv.len() - 1 {
        lemma_rsv_sum_bounds(rsv.drop_last(), at);
    }
}

/// Reserving `n` more units for an order raises the sum by `n`, raises what
/// is reserved for that order by `n`, and leaves every other order as it was.
pub proof fn lemma_rsv_added(rsv: Seq<RsvEntry>, oid: Seq<char>, n: nat)
    requires
        rsv_distinct(rsv),
    ensures
        rsv_sum(rsv_added(rsv, oid, n)) == rsv_sum(rsv) + n,
        rsv_distinct(rsv_added(rsv, oid, n)),
        rsv_for(rsv_added(rsv, oid, n), oid) == rsv_for(rsv, oid) + n,
        forall|other: Seq<char>|
            other != oid ==> #[trigger] rsv_for(rsv_added(rsv, oid, n), other) == rsv_for(
                rsv,
                other,
            ),
{
    let at = rsv_position(rsv, oid);
    let out = rsv_added(rsv, oid, n);
    lemma_rsv_position(rsv, oid);
    if n > 0 {
        if at < rsv.len() {
            lemma_rsv_sum_update(rsv, at, (oid, rsv[at].1 + n));
        } else {
            assert(out.drop_last() =~= rsv);
        }
        lemma_rsv_position_found(out, oid, at);
        assert forall|other: Seq<char>| other != oid implies #[trigger] rsv_for(out, other)
            == rsv_for(rsv, other) by {
            lemma_rsv_position(rsv, other);
            let p = rsv_position(rsv, other);
            if p < rsv.len() {
                lemma_rsv_position_found(out, other, p);
            } else {
                lemma_rsv_position_absent(out, other);
            }
        }
    }
}

/// Where the first entry of an order is known, `rsv_position` gives it.
pub proof fn lemma_rsv_position_found(rsv: Seq<RsvEntry>, oid: Seq<char>, at: int)
    requires
        0 <= at < rsv.len(),
        rsv[at].0 == oid,
        forall|k: int| 0 <= k < at ==> (#[trigger] rsv[k]).0 != oid,
    ensures
        rsv_position(rsv, oid) == at,
    decreases rsv.len(),
{
    if at > 0 {
        let t = rsv.drop_first();
        lemma_rsv_position_found(t, oid, at - 1);
    }
}

/// An order without an entry has the length as its position.
pub proof fn lemma_rsv_position_absent(rsv: Seq<RsvEntry>, oid: Seq<char>)
    requires
        forall|k: int| 0 <= k < rsv.len() ==> (#[trigger] rsv[k]).0 != oid,
    ensures
        rsv_position(rsv, oid) == rsv.len(),
    decreases rsv.len(),
{
    if rsv.len() > 0 {
        let t = rsv.drop_first();
        lemma_rsv_position_absent(t, oid);
    }
}

/// Giving back `n` units of an order lowers the sum by `n`.
pub proof fn lemma_rsv_removed(rsv: Seq<RsvEntry>, oid: Seq<char>, n: nat)
    requires
        rsv_distinct(rsv),
        n <= rsv_for(rsv, oid),
    ensures
        rsv_sum(rsv_removed(rsv, oid, n)) == rsv_sum(rsv) - n,
        rsv_distinct(rsv_removed(rsv, oid, n)),
        rsv_for(rsv_removed(rsv, oid, n), oid) == rsv_for(rsv, oid) - n,
{
    let at = rsv_position(rsv, oid);
    let out = rsv_removed(rsv, oid, n);
    lemma_rsv_position(rsv, oid);
    if n > 0 && at < rsv.len() {
        lemma_rsv_sum_update(rsv, at, (oid, (rsv[at].1 - n) as nat));
        lemma_rsv_position_found(out, oid, at);
    }
}

/// Stock invariant under reservation: reserving no more than is available
/// keeps reserved plus cancelled within the total, and lowers what is
/// available by as much.
pub proof fn lemma_reserve_keeps_invariant(q: StockQuantity, oid: Seq<char>, n: nat)
    requires
        q.wf(),
        n <= q.avail(),
    ensures
        q.with_reserved(oid, n).wf(),
        q.with_reserved(oid, n).avail() == q.avail() - n,
        q.with_reserved(oid, n).reserved() + q.with_reserved(oid, n).cancelled <= q.with_reserved(
            oid,
            n,
        ).total,
{
    lemma_rsv_added(q.rsv, oid, n);
}

/// Stock invariant under return: giving back no more than an order holds
/// keeps reserved plus cancelled within the total.
pub proof fn lemma_return_keeps_invariant(q: StockQuantity, oid: Seq<char>, n: nat)
    requires
        q.wf(),
        n <= rsv_for(q.rsv, oid),
    ensures
        q.with_returned(oid, n).wf(),
        q.with_returned(oid, n).avail() == q.avail() + n,
{
    lemma_rsv_removed(q.rsv, oid, n);
}

/// Quantities of one stock bucket.
#[derive(Debug, Clone)]
pub struct StockQuantityModel {
    total: u32,
    cancelled: u32,
    rsv_detail: Vec<(String, u32)>,
}

/// The reservations held in a vector of pairs.
pub open spec fn rsv_view(v: Seq<(String, u32)>) -> Seq<RsvEntry> {
    Seq::new(v.len(), |i: int| (v[i].0@, v[i].1 as nat))
}

impl View for StockQuantityModel {
    type V = StockQuantity;

    closed spec fn view(&self) -> StockQuantity {
        StockQuantity {
            total: self.total as nat,
            cancelled: self.cancelled as nat,
            rsv: rsv_view(self.rsv_detail@),
        }
    }
}

impl StockQuantityModel {
    /// Whether the invariant of stock quantities holds of this value.
    pub open spec fn wf(&self) -> bool {
        self@.wf()
    }

    /// Makes the quantities of a bucket.
    ///
    /// Refuses, as corrupt data, reservations that name an order twice and
    /// quantities where reserved plus cancelled exceeds the total.
    pub fn new(total: u32, cancelled: u32, rsv_detail: Option<Vec<(String, u32)>>) -> (r: Result<
        StockQuantityModel,
        AppError,
    >)
        ensures
            ({
                let rsv = match rsv_detail {
                    Some(v) => rsv_view(v@),
                    None => Seq::<RsvEntry>::empty(),
                };
                let q = StockQuantity { total: total as nat, cancelled: cancelled as nat, rsv };
                match r {
                    Ok(m) => q.wf() && m@ == q && m.wf(),
                    Err(e) => !q.wf() && e.code == AppErrorCode::DataCorruption && e.detail is None,
                }
            }),
    {
        let entries = match rsv_detail {
            Some(v) => v,
            None => Vec::new(),
        };
        assert(rsv_detail is None ==> rsv_view(entries@) =~= Seq::<RsvEntry>::empty());
        let m = StockQuantityModel { total, cancelled, rsv_detail: entries };
        if m.is_wf() {
            Ok(m)
        } else {
            Err(AppError::bare(AppErrorCode::DataCorruption))
        }
    }

    /// Tests the invariant of stock quantities.
    pub fn is_wf(&self) -> (r: bool)
        ensures
            r == self.wf(),
    {
        let entries = &self.rsv_detail;
        let ghost rsv = rsv_view(entries@);
        if self.cancelled > self.total {
            return false;
        }
        let limit: u64 = (self.total - self.cancelled) as u64;
        let mut sum: u64 = 0;
        let mut i: usize = 0;
        while i < entries.len()
            invariant
                i <= entries.len(),
                entries == &self.rsv_detail,
                rsv == rsv_view(entries@),
                sum == rsv_sum(rsv.subrange(0, i as int)),
                sum <= limit <= u32::MAX,
                rsv_distinct(rsv.subrange(0, i as int)),
                limit == self.total - self.cancelled,
            decreases entries.len() - i,
        {
            proof {
                lemma_rsv_sum_prefix(rsv, i + 1);
            }
            let mut j: usize = 0;
            while j < i
                invariant
                    j <= i < entries.len(),
                    entries == &self.rsv_detail,
                    rsv == rsv_view(entries@),
                    forall|k: int| 0 <= k < j ==> (#[trigger] rsv[k]).0 != rsv[i as int].0,
                decreases i - j,
            {
                if str_eq(entries[j].0.as_str(), entries[i].0.as_str()) {
                    proof {
                        assert(rsv[j as int].0 == rsv[i as int].0);
                    }
                    return false;
                }
                j += 1;
            }
            let n = entries[i].1 as u64;
            if n > limit - sum {
                return false;
            }
            sum += n;
            i += 1;
        }
        assert(rsv.subrange(0, entries.len() as int) =~= rsv);
        true
    }

    pub fn total(&self) -> (r: u32)
        ensures
            r == self@.total,
    {
        self.total
    }

    pub fn cancelled(&self) -> (r: u32)
        ensures
            r == self@.cancelled,
    {
        self.cancelled
    }

    /// The reservations, order by order.
    pub fn reservation(&self) -> (r: &Vec<(String, u32)>)
        ensures
            rsv_view(r@) == self@.rsv,
    {
        &self.rsv_detail
    }

    /// Units reserved, over all orders.
    pub fn reserved(&self) -> (r: u32)
        requires
            self.wf(),
        ensures
            r == self@.reserved(),
    {
        let ghost rsv = self@.rsv;
        let mut sum: u32 = 0;
        let mut i: usize = 0;
        while i < self.rsv_detail.len()
            invariant
                i <= self.rsv_detail.len(),
                rsv == rsv_view(self.rsv_detail@),
                rsv_sum(rsv) <= u32::MAX,
                sum == rsv_sum(rsv.subrange(0, i as int)),
            decreases self.rsv_detail.len() - i,
        {
            proof {
                lemma_rsv_sum_prefix(rsv, i + 1);
            }
            sum += self.rsv_detail[i].1;
            i += 1;
        }
        assert(rsv.subrange(0, rsv.len() as int) =~= rsv);
        sum
    }

    /// Units that can still be reserved.
    pub fn num_avail(&self) -> (r: u32)
        requires
            self.wf(),
        ensures
            r == self@.avail(),
    {
        self.total - self.cancelled - self.reserved()
    }

    /// Units reserved for order `oid`.
    pub fn reserved_for(&self, oid: &str) -> (r: u32)
        ensures
            r == rsv_for(self@.rsv, oid@),
    {
        match self.find(oid) {
            Some(at) => self.rsv_detail[at].1,
            None => 0,
        }
    }

    fn find(&self, oid: &str) -> (r: Option<usize>)
        ensures
            match r {
                Some(at) => at == rsv_position(self@.rsv, oid@) && at < self.rsv_detail.len(),
                None => rsv_position(self@.rsv, oid@) == self.rsv_detail.len(),
            },
    {
        let ghost rsv = self@.rsv;
        let mut i: usize = 0;
        while i < self.rsv_detail.len()
            invariant
                i <= self.rsv_detail.len(),
                rsv == rsv_view(self.rsv_detail@),
                forall|k: int| 0 <= k < i ==> (#[trigger] rsv[k]).0 != oid@,
            decreases self.rsv_detail.len() - i,
        {
            if str_eq(self.rsv_detail[i].0.as_str(), oid) {
                proof {
                    lemma_rsv_position_found(rsv, oid@, i as int);
                }
                return Some(i);
            }
            i += 1;
        }
        proof {
            lemma_rsv_position_absent(rsv, oid@);
        }
        None
    }

    /// Reserves up to `num_req` units for order `oid` and says how many
    /// were reserved: all that were asked for, or all that were left.
    pub fn reserve(&mut self, oid: &str, num_req: u32) -> (taken: u32)
        requires
            old(self).wf(),
        ensures
            taken == if num_req <= old(self)@.avail() {
                num_req as nat
            } else {
                old(self)@.avail()
            },
            final(self)@ == old(self)@.with_reserved(oid@, taken as nat),
            final(self).wf(),
            final(self)@.avail() == old(self)@.avail() - taken,
            rsv_for(final(self)@.rsv, oid@) == rsv_for(old(self)@.rsv, oid@) + taken,
    {
        let avail = self.num_avail();
        let taken = if num_req <= avail {
            num_req
        } else {
            avail
        };
        proof {
            lemma_rsv_added(self@.rsv, oid@, taken as nat);
            lemma_rsv_position(self@.rsv, oid@);
        }
        if taken > 0 {
            match self.find(oid) {
                Some(at) => {
                    proof {
                        lemma_rsv_sum_bounds(self@.rsv, at as int);
                    }
                    let had = self.rsv_detail[at].1;
                    self.rsv_detail[at].1 = had + taken;
                    assert(rsv_view(self.rsv_detail@) =~= rsv_added(
                        old(self)@.rsv,
                        oid@,
                        taken as nat,
                    ));
                },
                None => {
                    self.rsv_detail.push((String::from_str(oid), taken));
                    assert(rsv_view(self.rsv_detail@) =~= rsv_added(
                        old(self)@.rsv,
                        oid@,
                        taken as nat,
                    ));
                },
            }
        }
        taken
    }

    /// Gives back up to `num_req` units of order `oid` and says how many
    /// were given back: all that were asked for, or all that the order held.
    pub fn try_return(&mut self, oid: &str, num_req: u32) -> (given: u32)
        requires
            old(self).wf(),
        ensures
            given == if num_req <= rsv_for(old(self)@.rsv, oid@) {
                num_req as nat
            } else {
                rsv_for(old(self)@.rsv, oid@)
            },
            final(self)@ == old(self)@.with_returned(oid@, given as nat),
            final(self).wf(),
            final(self)@.avail() == old(self)@.avail() + given,
            rsv_for(final(self)@.rsv, oid@) == rsv_for(old(self)@.rsv, oid@) - given,
    {
        proof {
            lemma_rsv_position(self@.rsv, oid@);
        }
        match self.find(oid) {
            Some(at) => {
                let had = self.rsv_detail[at].1;
                let given = if num_req <= had {
                    num_req
                } else {
                    had
                };
                proof {
                    lemma_rsv_removed(self@.rsv, oid@, given as nat);
                }
                if given > 0 {
                    self.rsv_detail[at].1 = had - given;
                    assert(rsv_view(self.rsv_detail@) =~= rsv_removed(
                        old(self)@.rsv,
                        oid@,
                        given as nat,
                    ));
                }
                given
            },
            None => 0,
        }
    }
}

/// The sum of a prefix that is one entry longer.
pub proof fn lemma_rsv_sum_prefix(rsv: Seq<RsvEntry>, upto: int)
    requires
        0 < upto <= rsv.len(),
    ensures
        rsv_sum(rsv.subrange(0, upto)) == rsv_sum(rsv.subrange(0, upto - 1)) + rsv[upto - 1].1,
        rsv_sum(rsv.subrange(0, upto)) <= rsv_sum(rsv),
    decreases rsv.len() - upto,
{
    assert(rsv.subrange(0, upto).drop_last() =~= rsv.subrange(0, upto - 1));
    if upto < rsv.len() {
        lemma_rsv_sum_prefix(rsv, upto + 1);
    }
}

/// A stock bucket without its quantities: store, product and expiry.
#[derive(Debug, Clone, Copy, PartialEq, Eq, Hash, Structural)]
pub struct ProductStockIdentity {
    pub store_id: u32,
    pub product_type: ProductType,
    pub product_id: u64,
    pub expiry: Timestamp,
}

/// A product in a store, whatever the expiry.
#[derive(Debug, Clone, Copy, PartialEq, Eq, Hash, Structural)]
pub struct ProductStockIdentity2 {
    pub store_id: u32,
    pub product_type: ProductType,
    pub product_id: u64,
}

/// Why stock could not be reserved.
#[derive(Debug, Clone, Copy, PartialEq, Eq, Structural)]
pub enum StockReserveError {
    /// The buckets of the product hold `num_avail` units that can be
    /// reserved, fewer than the `num_req` asked for.
    NotEnoughToClaim { pid: BaseProductIdentity, num_req: u32, num_avail: u32 },
}

/// The mathematical content of a [`ProductStockModel`].
pub struct ProductStock {
    pub type_: ProductType,
    pub id_: u64,
    pub expiry: Timestamp,
    pub quantity: StockQuantity,
    pub is_create: bool,
}

/// The mathematical content of a [`StoreStockModel`].
pub struct StoreStock {
    pub store_id: u32,
    pub products: Seq<ProductStock>,
}

/// One stock bucket: a product of one expiry, with its quantities.
#[derive(Debug, Clone)]
pub struct ProductStockModel {
    pub type_: ProductType,
    pub id_: u64,
    pub expiry: Timestamp,
    pub quantity: StockQuantityModel,
    pub is_create: bool,
}

/// The stock buckets of one store.
#[derive(Debug, Clone)]
pub struct StoreStockModel {
    pub store_id: u32,
    pub products: Vec<ProductStockModel>,
}

/// Stock buckets of several stores: what a batch of reservations or
/// returns works on.
#[derive(Debug, Clone)]
pub struct StockLevelModelSet {
    pub stores: Vec<StoreStockModel>,
}

impl View for ProductStockModel {
    type V = ProductStock;

    open spec fn view(&self) -> ProductStock {
        ProductStock {
            type_: self.type_,
            id_: self.id_,
            expiry: self.expiry,
            quantity: self.quantity@,
            is_create: self.is_create,
        }
    }
}

impl View for StoreStockModel {
    type V = StoreStock;

    open spec fn view(&self) -> StoreStock {
        StoreStock {
            store_id: self.store_id,
            products: Seq::new(self.products@.len(), |i: int| self.products@[i]@),
        }
    }
}

impl View for StockLevelModelSet {
    type V = Seq<StoreStock>;

    open spec fn view(&self) -> Seq<StoreStock> {
        Seq::new(self.stores@.len(), |i: int| self.stores@[i]@)
    }
}

impl ProductStock {
    /// Whether this bucket holds the product `(type_, id_)`.
    pub open spec fn holds(self, type_: ProductType, id_: u64) -> bool {
        self.type_ == type_ && self.id_ == id_
    }

    /// Whether this bucket can serve a request for the product
    /// `(type_, id_)` at `now`: it holds the product and expires later.
    pub open spec fn serves(self, type_: ProductType, id_: u64, now: Timestamp) -> bool {
        self.holds(type_, id_) && self.expiry.later_than(now)
    }

    /// Whether both buckets are of one product and expire in the same
    /// second, at the same offset.
    pub open spec fn same_bucket(self, other: ProductStock) -> bool {
        &&& self.type_ == other.type_
        &&& self.id_ == other.id_
        &&& self.expiry.whole_seconds() == other.expiry.whole_seconds()
    }

    /// This bucket after `n` more units are reserved for order `oid`.
    pub open spec fn with_reserved(self, oid: Seq<char>, n: nat) -> ProductStock {
        ProductStock { quantity: self.quantity.with_reserved(oid, n), ..self }
    }

    /// This bucket after `n` units of order `oid` are given back.
    pub open spec fn with_returned(self, oid: Seq<char>, n: nat) -> ProductStock {
        ProductStock { quantity: self.quantity.with_returned(oid, n), ..self }
    }
}

/// Whether bucket `i` is drawn from before bucket `j`: it expires earlier,
/// or at the same instant and stands earlier in the store.
pub open spec fn drawn_before(ps: Seq<ProductStock>, i: int, j: int) -> bool {
    ps[j].expiry.later_than(ps[i].expiry) || (ps[i].expiry.same_instant(ps[j].expiry) && i < j)
}

/// What can be reserved of product `(type_, id_)` in the buckets among the
/// first `upto` that are drawn from before bucket `j`.
pub open spec fn avail_before(
    ps: Seq<ProductStock>,
    type_: ProductType,
    id_: u64,
    now: Timestamp,
    j: int,
    upto: int,
) -> nat
    decreases upto,
{
    if upto <= 0 {
        0
    } else {
        let rest = avail_before(ps, type_, id_, now, j, upto - 1);
        if ps[upto - 1].serves(type_, id_, now) && drawn_before(ps, upto - 1, j) {
            rest + ps[upto - 1].quantity.avail()
        } else {
            rest
        }
    }
}

/// What can be reserved of product `(type_, id_)` in the first `upto`
/// buckets.
pub open spec fn avail_total(
    ps: Seq<ProductStock>,
    type_: ProductType,
    id_: u64,
    now: Timestamp,
    upto: int,
) -> nat
    decreases upto,
{
    if upto <= 0 {
        0
    } else {
        let rest = avail_total(ps, type_, id_, now, upto - 1);
        if ps[upto - 1].serves(type_, id_, now) {
            rest + ps[upto - 1].quantity.avail()
        } else {
            rest
        }
    }
}

/// What a request for `need` units of product `(type_, id_)` takes from
/// bucket `j`: buckets are drawn from in order of expiry, each giving what
/// it has until the request is met.
pub open spec fn line_take(
    ps: Seq<ProductStock>,
    type_: ProductType,
    id_: u64,
    now: Timestamp,
    need: nat,
    j: int,
) -> nat {
    let before = avail_before(ps, type_, id_, now, j, ps.len() as int);
    let here = ps[j].quantity.avail();
    if !ps[j].serves(type_, id_, now) || need <= before {
        0
    } else if need - before <= here {
        (need - before) as nat
    } else {
        here
    }
}

impl StoreStock {
    /// Whether every bucket keeps the stock invariant and no two buckets
    /// are of one product and one expiry.
    pub open spec fn wf(self) -> bool {
        &&& forall|i: int| 0 <= i < self.products.len() ==> (#[trigger] self.products[i]).quantity.wf()
        &&& forall|i: int, j: int|
            0 <= i < j < self.products.len() ==> !(#[trigger] self.products[i]).same_bucket(
                #[trigger] self.products[j],
            )
    }

    /// This store after `need` units of a product are requested for
    /// order `oid`.
    pub open spec fn after_line(
        self,
        oid: Seq<char>,
        type_: ProductType,
        id_: u64,
        now: Timestamp,
        need: nat,
    ) -> StoreStock {
        StoreStock {
            store_id: self.store_id,
            products: Seq::new(
                self.products.len(),
                |j: int| self.products[j].with_reserved(oid, line_take(self.products, type_, id_, now, need, j)),
            ),
        }
    }
}

/// Position of the first store with this identifier, or the number of
/// stores if there is none.
pub open spec fn store_position(set: Seq<StoreStock>, store_id: u32) -> int
    decreases set.len(),
{
    if set.len() == 0 {
        0
    } else if set[0].store_id == store_id {
        0
    } else {
        1 + store_position(set.drop_first(), store_id)
    }
}

/// Whether every store is well formed and no store occurs twice.
pub open spec fn stock_set_wf(set: Seq<StoreStock>) -> bool {
    &&& forall|i: int| 0 <= i < set.len() ==> (#[trigger] set[i]).wf()
    &&& forall|i: int, j: int|
        0 <= i < j < set.len() ==> (#[trigger] set[i]).store_id != (#[trigger] set[j]).store_id
}

/// What can be reserved in the set for an order line.
pub open spec fn line_avail(set: Seq<StoreStock>, pid: BaseProductIdentity, now: Timestamp) -> nat {
    let at = store_position(set, pid.store_id);
    if at < set.len() {
        avail_total(set[at].products, pid.product_type, pid.product_id, now, set[at].products.len() as int)
    } else {
        0
    }
}

/// The set after one order line is served for order `oid`.
pub open spec fn set_after_line(
    set: Seq<StoreStock>,
    oid: Seq<char>,
    line: OrderLineModel,
    now: Timestamp,
) -> Seq<StoreStock> {
    let at = store_position(set, line.id_.store_id);
    if at < set.len() {
        set.update(
            at,
            set[at].after_line(
                oid,
                line.id_.product_type,
                line.id_.product_id,
                now,
                line.qty.reserved as nat,
            ),
        )
    } else {
        set
    }
}

/// The set after the first `upto` lines are served, one after another.
pub open spec fn set_after_lines(
    set: Seq<StoreStock>,
    oid: Seq<char>,
    lines: Seq<OrderLineModel>,
    now: Timestamp,
    upto: int,
) -> Seq<StoreStock>
    decreases upto,
{
    if upto <= 0 {
        set
    } else {
        set_after_line(set_after_lines(set, oid, lines, now, upto - 1), oid, lines[upto - 1], now)
    }
}

/// The shortage, if any, that an order line meets in the set.
pub open spec fn line_shortage(
    set: Seq<StoreStock>,
    line: OrderLineModel,
    now: Timestamp,
) -> Option<StockReserveError> {
    let avail = line_avail(set, line.id_, now);
    if line.qty.reserved > avail {
        Some(
            StockReserveError::NotEnoughToClaim {
                pid: line.id_,
                num_req: line.qty.reserved,
                num_avail: avail as u32,
            },
        )
    } else {
        None
    }
}

/// The shortages that the first `upto` lines meet, each line served on what
/// the lines before it left.
pub open spec fn shortages(
    set: Seq<StoreStock>,
    oid: Seq<char>,
    lines: Seq<OrderLineModel>,
    now: Timestamp,
    upto: int,
) -> Seq<StockReserveError>
    decreases upto,
{
    if upto <= 0 {
        Seq::empty()
    } else {
        let before = shortages(set, oid, lines, now, upto - 1);
        match line_shortage(set_after_lines(set, oid, lines, now, upto - 1), lines[upto - 1], now) {
            Some(e) => before.push(e),
            None => before,
        }
    }
}

impl StoreStockModel {
    /// Whether every bucket keeps the stock invariant and no two buckets
    /// are of one product and one expiry.
    pub open spec fn wf(&self) -> bool {
        self@.wf()
    }

    /// What can be reserved of a product at `now`, over all its buckets
    /// that expire later.
    pub fn num_avail(&self, type_: ProductType, id_: u64, now: Timestamp) -> (r: u128)
        requires
            self.wf(),
        ensures
            r == avail_total(self@.products, type_, id_, now, self.products.len() as int),
    {
        let n = self.products.len();
        let mut sum: u128 = 0;
        let mut i: usize = 0;
        while i < n
            invariant
                i <= n == self.products.len(),
                self.wf(),
                sum == avail_total(self@.products, type_, id_, now, i as int),
                sum <= i * u32::MAX,
            decreases n - i,
        {
            let p = &self.products[i];
            assert(self@.products[i as int] == p@);
            if p.type_ == type_ && p.id_ == id_ && p.expiry.is_after(&now) {
                sum += p.quantity.num_avail() as u128;
            }
            i += 1;
        }
        sum
    }

    fn avail_before_bucket(
        &self,
        type_: ProductType,
        id_: u64,
        now: Timestamp,
        j: usize,
    ) -> (r: u128)
        requires
            self.wf(),
            j < self.products.len(),
        ensures
            r == avail_before(self@.products, type_, id_, now, j as int, self.products.len() as int),
    {
        let n = self.products.len();
        let at = self.products[j].expiry;
        let mut sum: u128 = 0;
        let mut i: usize = 0;
        while i < n
            invariant
                i <= n == self.products.len(),
                j < n,
                self.wf(),
                at == self.products[j as int].expiry,
                sum == avail_before(self@.products, type_, id_, now, j as int, i as int),
                sum <= i * u32::MAX,
            decreases n - i,
        {
            let p = &self.products[i];
            assert(self@.products[i as int] == p@);
            let first = at.is_after(&p.expiry) || (p.expiry.secs == at.secs && p.expiry.nanos
                == at.nanos && i < j);
            if p.type_ == type_ && p.id_ == id_ && p.expiry.is_after(&now) && first {
                sum += p.quantity.num_avail() as u128;
            }
            i += 1;
        }
        sum
    }

    /// Reserves `need` units of a product for order `oid`, drawing from the
    /// buckets that expire after `now` in order of expiry, and says how many
    /// units could be reserved before the call.  Where that is less than
    /// `need`, all of it is taken.
    pub fn try_reserve(
        &mut self,
        oid: &str,
        type_: ProductType,
        id_: u64,
        now: Timestamp,
        need: u32,
    ) -> (avail: u128)
        requires
            old(self).wf(),
        ensures
            final(self)@ == old(self)@.after_line(oid@, type_, id_, now, need as nat),
            final(self).wf(),
            avail == avail_total(old(self)@.products, type_, id_, now, old(self).products.len() as int),
    {
        let ghost pre = self@;
        let n = self.products.len();
        let avail = self.num_avail(type_, id_, now);
        let mut takes: Vec<u32> = Vec::new();
        let mut j: usize = 0;
        while j < n
            invariant
                j <= n == self.products.len(),
                self.wf(),
                self@ == pre,
                takes@.len() == j,
                forall|k: int|
                    0 <= k < j ==> (#[trigger] takes@[k]) == line_take(
                        pre.products,
                        type_,
                        id_,
                        now,
                        need as nat,
                        k,
                    ),
            decreases n - j,
        {
            let p = &self.products[j];
            let take = if p.type_ == type_ && p.id_ == id_ && p.expiry.is_after(&now) {
                let before = self.avail_before_bucket(type_, id_, now, j);
                let here = p.quantity.num_avail();
                if (need as u128) <= before {
                    0
                } else if (need as u128) - before <= here as u128 {
                    ((need as u128) - before) as u32
                } else {
                    here
                }
            } else {
                0
            };
            takes.push(take);
            j += 1;
        }
        let mut k: usize = 0;
        while k < n
            invariant
                k <= n == self.products.len(),
                pre.wf(),
                pre.products.len() == n,
                pre.store_id == self.store_id,
                takes@.len() == n,
                forall|i: int|
                    0 <= i < n ==> (#[trigger] takes@[i]) == line_take(
                        pre.products,
                        type_,
                        id_,
                        now,
                        need as nat,
                        i,
                    ),
                forall|i: int|
                    0 <= i < k ==> (#[trigger] self.products@[i])@ == pre.products[i].with_reserved(
                        oid@,
                        takes@[i] as nat,
                    ),
                forall|i: int| k <= i < n ==> (#[trigger] self.products@[i])@ == pre.products[i],
            decreases n - k,
        {
            let ghost before = self.products@;
            self.products[k].quantity.reserve(oid, takes[k]);
            assert forall|i: int| 0 <= i < n && i != k implies #[trigger] self.products@[i]
                == before[i] by {}
            k += 1;
        }
        proof {
            let post = pre.after_line(oid@, type_, id_, now, need as nat);
            assert(self@.products =~= post.products);
            assert forall|i: int| 0 <= i < n implies (#[trigger] self@.products[i]).quantity.wf() by {
                lemma_reserve_keeps_invariant(
                    pre.products[i].quantity,
                    oid@,
                    line_take(pre.products, type_, id_, now, need as nat, i),
                );
            }
        }
        avail
    }
}

/// The position that `store_position` gives is the first store with the
/// identifier.
pub proof fn lemma_store_position(set: Seq<StoreStock>, store_id: u32, at: int)
    requires
        0 <= at <= set.len(),
        at < set.len() ==> set[at].store_id == store_id,
        forall|k: int| 0 <= k < at ==> (#[trigger] set[k]).store_id != store_id,
    ensures
        store_position(set, store_id) == at,
    decreases set.len(),
{
    if set.len() > 0 && at > 0 {
        let t = set.drop_first();
        lemma_store_position(t, store_id, at - 1);
    }
}

impl StockLevelModelSet {
    /// Whether every store is well formed and no store occurs twice.
    pub open spec fn wf(&self) -> bool {
        stock_set_wf(self@)
    }

    /// Position of the first store with this identifier.
    pub fn find_store(&self, store_id: u32) -> (r: Option<usize>)
        ensures
            match r {
                Some(at) => at == store_position(self@, store_id) && at < self.stores.len()
                    && self.stores[at as int].store_id == store_id,
                None => store_position(self@, store_id) == self.stores.len(),
            },
    {
        let mut i: usize = 0;
        while i < self.stores.len()
            invariant
                i <= self.stores.len(),
                forall|k: int| 0 <= k < i ==> (#[trigger] self@[k]).store_id != store_id,
            decreases self.stores.len() - i,
        {
            if self.stores[i].store_id == store_id {
                proof {
                    lemma_store_position(self@, store_id, i as int);
                }
                return Some(i);
            }
            i += 1;
        }
        proof {
            lemma_store_position(self@, store_id, self.stores.len() as int);
        }
        None
    }

    /// Reserves stock for the lines of an order, one line after another.
    ///
    /// For each line the buckets of its product that expire after `now`
    /// are drawn from in order of expiry.  A line that asks for more than its buckets can give takes
    /// all they have and is reported as a shortage, with what was asked and
    /// what could be given.  The result holds the shortages in the order of
    /// their lines; whoever stores the set stores it only when there are
    /// none.
    pub fn try_reserve(&mut self, req: &OrderLineModelSet, now: Timestamp) -> (errors: Vec<
        StockReserveError,
    >)
        requires
            old(self).wf(),
        ensures
            final(self).wf(),
            final(self)@ == set_after_lines(
                old(self)@,
                req.order_id@,
                req.lines@,
                now,
                req.lines.len() as int,
            ),
            errors@ == shortages(old(self)@, req.order_id@, req.lines@, now, req.lines.len() as int),
    {
        let ghost pre = self@;
        let ghost oid = req.order_id@;
        let mut errors: Vec<StockReserveError> = Vec::new();
        let mut i: usize = 0;
        while i < req.lines.len()
            invariant
                i <= req.lines.len(),
                oid == req.order_id@,
                self.wf(),
                self@ == set_after_lines(pre, oid, req.lines@, now, i as int),
                errors@ == shortages(pre, oid, req.lines@, now, i as int),
            decreases req.lines.len() - i,
        {
            let line = req.lines[i];
            let need = line.qty.reserved;
            let ghost cur = self@;
            let avail: u128 = match self.find_store(line.id_.store_id) {
                Some(at) => {
                    assert(cur[at as int] == self.stores@[at as int]@);
                    let got = self.stores[at].try_reserve(
                        req.order_id.as_str(),
                        line.id_.product_type,
                        line.id_.product_id,
                        now,
                        need,
                    );
                    proof {
                        assert(self@ =~= set_after_line(cur, oid, line, now));
                    }
                    got
                },
                None => 0,
            };
            if need as u128 > avail {
                errors.push(
                    StockReserveError::NotEnoughToClaim {
                        pid: line.id_,
                        num_req: need,
                        num_avail: avail as u32,
                    },
                );
            }
            i += 1;
        }
        errors
    }
}

/// A request to give back units of a product that an order holds.
#[derive(Debug, Clone, Copy, PartialEq, Eq, Structural)]
pub struct StockReturnItem {
    pub pid: BaseProductIdentity,
    pub qty: u32,
}

/// What an order gives back to stock.
#[derive(Debug, Clone)]
pub struct StockLevelReturnDto {
    pub order_id: String,
    pub items: Vec<StockReturnItem>,
}

/// Why units could not be given back.
#[derive(Debug, Clone, Copy, PartialEq, Eq, Structural)]
pub enum StockReturnErrorReason {
    /// The set holds no bucket of the product.
    NotExist,
    /// The order holds fewer units of the product than it gives back.
    InvalidQuantity,
}

/// A return that could not be served in full.
#[derive(Debug, Clone, Copy, PartialEq, Eq, Structural)]
pub struct StockReturnError {
    pub pid: BaseProductIdentity,
    pub reason: StockReturnErrorReason,
}

/// What order `oid` holds of product `(type_, id_)` in the first `upto`
/// buckets.
pub open spec fn held_total(
    ps: Seq<ProductStock>,
    oid: Seq<char>,
    type_: ProductType,
    id_: u64,
    upto: int,
) -> nat
    decreases upto,
{
    if upto <= 0 {
        0
    } else {
        let rest = held_total(ps, oid, type_, id_, upto - 1);
        if ps[upto - 1].holds(type_, id_) {
            rest + rsv_for(ps[upto - 1].quantity.rsv, oid)
        } else {
            rest
        }
    }
}

/// How many of the first `upto` buckets hold product `(type_, id_)`.
pub open spec fn bucket_count(ps: Seq<ProductStock>, type_: ProductType, id_: u64, upto: int) -> nat
    decreases upto,
{
    if upto <= 0 {
        0
    } else {
        let rest = bucket_count(ps, type_, id_, upto - 1);
        if ps[upto - 1].holds(type_, id_) {
            rest + 1
        } else {
            rest
        }
    }
}

/// What bucket `j` gets back when order `oid` returns `qty` units of
/// product `(type_, id_)`: buckets are served in the order in which they
/// stand, each taking back what the order holds in it until all is returned.
pub open spec fn line_give(
    ps: Seq<ProductStock>,
    oid: Seq<char>,
    type_: ProductType,
    id_: u64,
    qty: nat,
    j: int,
) -> nat {
    let before = held_total(ps, oid, type_, id_, j);
    let here = rsv_for(ps[j].quantity.rsv, oid);
    if !ps[j].holds(type_, id_) || qty <= before {
        0
    } else if qty - before <= here {
        (qty - before) as nat
    } else {
        here
    }
}

impl StoreStock {
    /// This store after order `oid` returns `qty` units of a product.
    pub open spec fn after_return(
        self,
        oid: Seq<char>,
        type_: ProductType,
        id_: u64,
        qty: nat,
    ) -> StoreStock {
        StoreStock {
            store_id: self.store_id,
            products: Seq::new(
                self.products.len(),
                |j: int| self.products[j].with_returned(oid, line_give(self.products, oid, type_, id_, qty, j)),
            ),
        }
    }
}

/// What the order holds of the product of `pid` in the set, and in how many
/// buckets the product is kept.
pub open spec fn line_held(set: Seq<StoreStock>, oid: Seq<char>, pid: BaseProductIdentity) -> (
    nat,
    nat,
) {
    let at = store_position(set, pid.store_id);
    if at < set.len() {
        let ps = set[at].products;
        (
            held_total(ps, oid, pid.product_type, pid.product_id, ps.len() as int),
            bucket_count(ps, pid.product_type, pid.product_id, ps.len() as int),
        )
    } else {
        (0, 0)
    }
}

/// The set after order `oid` returns one item.
pub open spec fn set_after_return(
    set: Seq<StoreStock>,
    oid: Seq<char>,
    item: StockReturnItem,
) -> Seq<StoreStock> {
    let at = store_position(set, item.pid.store_id);
    if at < set.len() {
        set.update(
            at,
            set[at].after_return(oid, item.pid.product_type, item.pid.product_id, item.qty as nat),
        )
    } else {
        set
    }
}

/// The set after the first `upto` items are returned, one after another.
pub open spec fn set_after_returns(
    set: Seq<StoreStock>,
    oid: Seq<char>,
    items: Seq<StockReturnItem>,
    upto: int,
) -> Seq<StoreStock>
    decreases upto,
{
    if upto <= 0 {
        set
    } else {
        set_after_return(set_after_returns(set, oid, items, upto - 1), oid, items[upto - 1])
    }
}

/// What is wrong, if anything, with returning one item to the set.
pub open spec fn return_fault(
    set: Seq<StoreStock>,
    oid: Seq<char>,
    item: StockReturnItem,
) -> Option<StockReturnError> {
    let (held, buckets) = line_held(set, oid, item.pid);
    if buckets == 0 {
        Some(StockReturnError { pid: item.pid, reason: StockReturnErrorReason::NotExist })
    } else if item.qty > held {
        Some(StockReturnError { pid: item.pid, reason: StockReturnErrorReason::InvalidQuantity })
    } else {
        None
    }
}

/// The faults that the first `upto` items meet, each item returned to what
/// the items before it left.
pub open spec fn return_faults(
    set: Seq<StoreStock>,
    oid: Seq<char>,
    items: Seq<StockReturnItem>,
    upto: int,
) -> Seq<StockReturnError>
    decreases upto,
{
    if upto <= 0 {
        Seq::empty()
    } else {
        let before = return_faults(set, oid, items, upto - 1);
        match return_fault(set_after_returns(set, oid, items, upto - 1), oid, items[upto - 1]) {
            Some(e) => before.push(e),
            None => before,
        }
    }
}

impl StoreStockModel {
    /// Gives back `qty` units that order `oid` holds of a product, bucket
    /// by bucket, and says how many units the order held before the call
    /// and how many buckets the product has.  Where the order held less than
    /// `qty`, all of it is given back.
    pub fn try_return(&mut self, oid: &str, type_: ProductType, id_: u64, qty: u32) -> (r: (
        u128,
        usize,
    ))
        requires
            old(self).wf(),
        ensures
            final(self)@ == old(self)@.after_return(oid@, type_, id_, qty as nat),
            final(self).wf(),
            r.0 == held_total(old(self)@.products, oid@, type_, id_, old(self).products.len() as int),
            r.1 == bucket_count(old(self)@.products, type_, id_, old(self).products.len() as int),
    {
        let ghost pre = self@;
        let n = self.products.len();
        let mut held: u128 = 0;
        let mut count: usize = 0;
        let mut k: usize = 0;
        while k < n
            invariant
                k <= n == self.products.len(),
                pre.wf(),
                pre.products.len() == n,
                pre.store_id == self.store_id,
                held == held_total(pre.products, oid@, type_, id_, k as int),
                held <= k * u32::MAX,
                count == bucket_count(pre.products, type_, id_, k as int),
                count <= k,
                forall|i: int|
                    0 <= i < k ==> (#[trigger] self.products@[i])@ == pre.products[i].with_returned(
                        oid@,
                        line_give(pre.products, oid@, type_, id_, qty as nat, i),
                    ),
                forall|i: int| k <= i < n ==> (#[trigger] self.products@[i])@ == pre.products[i],
            decreases n - k,
        {
            let ghost before = self.products@;
            if self.products[k].type_ == type_ && self.products[k].id_ == id_ {
                let remaining: u32 = if (qty as u128) <= held {
                    0
                } else {
                    ((qty as u128) - held) as u32
                };
                let here = self.products[k].quantity.reserved_for(oid);
                self.products[k].quantity.try_return(oid, remaining);
                held += here as u128;
                count += 1;
            }
            assert forall|i: int| 0 <= i < n && i != k implies #[trigger] self.products@[i]
                == before[i] by {}
            k += 1;
        }
        proof {
            let post = pre.after_return(oid@, type_, id_, qty as nat);
            assert(self@.products =~= post.products);
            assert forall|i: int| 0 <= i < n implies (#[trigger] self@.products[i]).quantity.wf() by {
                let q = pre.products[i].quantity;
                lemma_return_keeps_invariant(
                    q,
                    oid@,
                    line_give(pre.products, oid@, type_, id_, qty as nat, i),
                );
            }
        }
        (held, count)
    }
}

impl StockLevelModelSet {
    /// Gives back to stock what an order returns, one item after another.
    ///
    /// Each item is served from the buckets of its product in the order in
    /// which they stand.  An item whose product has no bucket, or of which
    /// the order holds less than it returns, is reported; the result holds
    /// the reports in the order of their items, and whoever stores the set
    /// stores it only when there are none.
    pub fn return_across_warehouses(&mut self, data: &StockLevelReturnDto) -> (errors: Vec<
        StockReturnError,
    >)
        requires
            old(self).wf(),
        ensures
            final(self).wf(),
            final(self)@ == set_after_returns(
                old(self)@,
                data.order_id@,
                data.items@,
                data.items.len() as int,
            ),
            errors@ == return_faults(
                old(self)@,
                data.order_id@,
                data.items@,
                data.items.len() as int,
            ),
    {
        let ghost pre = self@;
        let ghost oid = data.order_id@;
        let mut errors: Vec<StockReturnError> = Vec::new();
        let mut i: usize = 0;
        while i < data.items.len()
            invariant
                i <= data.items.len(),
                oid == data.order_id@,
                self.wf(),
                self@ == set_after_returns(pre, oid, data.items@, i as int),
                errors@ == return_faults(pre, oid, data.items@, i as int),
            decreases data.items.len() - i,
        {
            let item = data.items[i];
            let ghost now = self@;
            let (held, buckets): (u128, usize) = match self.find_store(item.pid.store_id) {
                Some(at) => {
                    assert(now[at as int] == self.stores@[at as int]@);
                    let got = self.stores[at].try_return(
                        data.order_id.as_str(),
                        item.pid.product_type,
                        item.pid.product_id,
                        item.qty,
                    );
                    proof {
                        assert(self@ =~= set_after_return(now, oid, item));
                    }
                    got
                },
                None => (0, 0),
            };
            if buckets == 0 {
                errors.push(
                    StockReturnError { pid: item.pid, reason: StockReturnErrorReason::NotExist },
                );
            } else if item.qty as u128 > held {
                errors.push(
                    StockReturnError {
                        pid: item.pid,
                        reason: StockReturnErrorReason::InvalidQuantity,
                    },
                );
            }
            i += 1;
        }
        errors
    }
}

impl ProductStockModel {
    /// Whether both buckets are of one product and expire in the same
    /// second, at the same offset.
    pub fn same_bucket(&self, other: &ProductStockModel) -> (r: bool)
        ensures
            r == self@.same_bucket(other@),
    {
        self.type_ == other.type_ && self.id_ == other.id_ && self.expiry.secs == other.expiry.secs
            && self.expiry.offset == other.expiry.offset
    }
}

impl StoreStockModel {
    /// Tests whether the store is well formed.
    pub fn is_wf(&self) -> (r: bool)
        ensures
            r == self.wf(),
    {
        let n = self.products.len();
        let mut i: usize = 0;
        while i < n
            invariant
                i <= n == self.products.len(),
                forall|k: int| 0 <= k < i ==> (#[trigger] self@.products[k]).quantity.wf(),
                forall|a: int, b: int|
                    0 <= a < b < i ==> !(#[trigger] self@.products[a]).same_bucket(
                        #[trigger] self@.products[b],
                    ),
            decreases n - i,
        {
            assert(self@.products[i as int] == self.products@[i as int]@);
            if !self.products[i].quantity.is_wf() {
                return false;
            }
            let mut j: usize = 0;
            while j < i
                invariant
                    j <= i < n == self.products.len(),
                    forall|a: int|
                        0 <= a < j ==> !(#[trigger] self@.products[a]).same_bucket(
                            self@.products[i as int],
                        ),
                decreases i - j,
            {
                assert(self@.products[i as int] == self.products@[i as int]@);
                assert(self@.products[j as int] == self.products@[j as int]@);
                if self.products[j].same_bucket(&self.products[i]) {
                    return false;
                }
                j += 1;
            }
            i += 1;
        }
        true
    }
}

impl StockLevelModelSet {
    /// Tests whether the set is well formed.
    pub fn is_wf(&self) -> (r: bool)
        ensures
            r == self.wf(),
    {
        let n = self.stores.len();
        let mut i: usize = 0;
        while i < n
            invariant
                i <= n == self.stores.len(),
                forall|k: int| 0 <= k < i ==> (#[trigger] self@[k]).wf(),
                forall|a: int, b: int|
                    0 <= a < b < i ==> (#[trigger] self@[a]).store_id != (#[trigger] self@[b]).store_id,
            decreases n - i,
        {
            assert(self@[i as int] == self.stores@[i as int]@);
            if !self.stores[i].is_wf() {
                return false;
            }
            let mut j: usize = 0;
            while j < i
                invariant
                    j <= i < n == self.stores.len(),
                    forall|a: int| 0 <= a < j ==> (#[trigger] self@[a]).store_id != self@[i as int].store_id,
                decreases i - j,
            {
                assert(self@[i as int] == self.stores@[i as int]@);
                assert(self@[j as int] == self.stores@[j as int]@);
                if self.stores[j].store_id == self.stores[i].store_id {
                    return false;
                }
                j += 1;
            }
            i += 1;
        }
        true
    }
}

} // verus!
