//! Refund requests: what of an order was returned and can still be
//! refunded, line by line.

use crate::constant::ProductType;
use crate::model::money::{decimal_parsed, Decimal};
use crate::model::order::BaseProductIdentity;
use crate::time::{rfc3339_parsed, stamp_of, Timestamp};
use vstd::prelude::*;

verus! {

/// An amount as the order service sends it: decimal texts.
#[derive(Debug, Clone, PartialEq, Eq)]
pub struct PayAmountDto {
    pub unit: String,
    pub total: String,
}

/// One returned line as the order service sends it.
#[derive(Debug, Clone, PartialEq, Eq)]
pub struct OrderLineReplicaRefundDto {
    pub seller_id: u32,
    pub product_id: u64,
    pub product_type: ProductType,
    pub create_time: String,
    pub amount: PayAmountDto,
    pub qty: u32,
}

/// Unit price and total of a returned line.
#[derive(Debug, Clone, Copy, PartialEq, Eq, Structural)]
pub struct RefundLineAmount {
    pub unit: Decimal,
    pub total: Decimal,
}

/// One returned line of an order: the product, when the return was made,
/// what it is worth, and how many units of it can still be refunded.
#[derive(Debug, Clone, Copy, PartialEq, Eq, Structural)]
pub struct OLineRefundModel {
    pub pid: BaseProductIdentity,
    pub create_time: Timestamp,
    pub amount: RefundLineAmount,
    pub qty: u32,
}

/// The returned lines of an order.
#[derive(Debug, Clone)]
pub struct OrderRefundModel {
    pub order_id: String,
    pub lines: Vec<OLineRefundModel>,
}

/// What is wrong with a refund request or with its completion.
#[derive(Debug, Clone, Copy, PartialEq, Eq, Structural)]
pub enum RefundModelError {
    /// The time of the return is not an RFC 3339 date and time.
    InvalidCreateTime(BaseProductIdentity),
    /// Unit price or total is not a decimal number.
    InvalidAmount(BaseProductIdentity),
    /// A completion asks to settle `num_req` units of a returned line of
    /// which `num_avail` can still be refunded.
    QtyInsufficient { pid: BaseProductIdentity, num_avail: u32, num_req: u64 },
}

/// What staff decided on one returned line: how many units are refunded,
/// and how many are refused as damaged or as fraudulent.  The total that
/// the request claims for the refund is not relied on.
#[derive(Debug, Clone, Copy, PartialEq, Eq, Structural)]
pub struct RefundCompletionOlineReqDto {
    pub product_type: ProductType,
    pub product_id: u64,
    pub time_issued: Timestamp,
    pub qty_approved: u32,
    pub amount_total: Decimal,
    pub qty_rej_damaged: u32,
    pub qty_rej_fraud: u32,
}

/// What staff decided on the returned lines of an order.
#[derive(Debug, Clone)]
pub struct RefundCompletionReqDto {
    pub lines: Vec<RefundCompletionOlineReqDto>,
}

/// What came of the decision on one returned line.
#[derive(Debug, Clone, Copy, PartialEq, Eq, Structural)]
pub struct RefundCompletionOlineRespDto {
    pub product_type: ProductType,
    pub product_id: u64,
    pub time_issued: Timestamp,
    pub qty_approved: u32,
    pub amount_total: Decimal,
    pub qty_rej_damaged: u32,
    pub qty_rej_fraud: u32,
}

/// What came of the decisions on the returned lines of an order.
#[derive(Debug, Clone)]
pub struct RefundCompletionRespDto {
    pub lines: Vec<RefundCompletionOlineRespDto>,
}

impl RefundCompletionOlineReqDto {
    /// Units that the decision settles: refunded or refused.
    pub open spec fn settles(self) -> nat {
        self.qty_approved as nat + self.qty_rej_damaged as nat + self.qty_rej_fraud as nat
    }

    /// Units that the decision refuses.
    pub open spec fn refuses(self) -> nat {
        self.qty_rej_damaged as nat + self.qty_rej_fraud as nat
    }

    /// The product that the decision is about, at merchant `merchant_id`.
    pub open spec fn pid(self, merchant_id: u32) -> BaseProductIdentity {
        BaseProductIdentity {
            store_id: merchant_id,
            product_type: self.product_type,
            product_id: self.product_id,
        }
    }
}

impl RefundCompletionOlineRespDto {
    /// Units that were settled: refunded or refused.
    pub open spec fn settles(self) -> nat {
        self.qty_approved as nat + self.qty_rej_damaged as nat + self.qty_rej_fraud as nat
    }
}

/// The returned line that a line of the order service stands for.
pub open spec fn refund_line_parsed(d: OrderLineReplicaRefundDto) -> Result<
    OLineRefundModel,
    RefundModelError,
> {
    let pid = BaseProductIdentity {
        store_id: d.seller_id,
        product_type: d.product_type,
        product_id: d.product_id,
    };
    match stamp_of(rfc3339_parsed(d.create_time@)) {
        None => Err(RefundModelError::InvalidCreateTime(pid)),
        Some(create_time) => match (decimal_parsed(d.amount.unit@), decimal_parsed(d.amount.total@)) {
            (Some(unit), Some(total)) => Ok(
                OLineRefundModel {
                    pid,
                    create_time,
                    amount: RefundLineAmount { unit, total },
                    qty: d.qty,
                },
            ),
            _ => Err(RefundModelError::InvalidAmount(pid)),
        },
    }
}

/// The returned lines that the first `upto` lines of the order service
/// stand for, or what is wrong with the first of them that is badly
/// written.
pub open spec fn refund_lines_parsed(d: Seq<OrderLineReplicaRefundDto>, upto: int) -> Result<
    Seq<OLineRefundModel>,
    RefundModelError,
>
    decreases upto,
{
    if upto <= 0 {
        Ok(Seq::empty())
    } else {
        match refund_lines_parsed(d, upto - 1) {
            Err(e) => Err(e),
            Ok(before) => match refund_line_parsed(d[upto - 1]) {
                Ok(line) => Ok(before.push(line)),
                Err(e) => Err(e),
            },
        }
    }
}

/// Once a line is badly written, so are the lines as a whole, with the
/// same fault.
pub proof fn lemma_refund_lines_fail(d: Seq<OrderLineReplicaRefundDto>, at: int, upto: int)
    requires
        0 <= at < upto,
        refund_lines_parsed(d, at) is Ok,
        refund_line_parsed(d[at]) is Err,
    ensures
        refund_lines_parsed(d, upto) == Err::<Seq<OLineRefundModel>, RefundModelError>(
            refund_line_parsed(d[at])->Err_0,
        ),
    decreases upto,
{
    if at < upto - 1 {
        lemma_refund_lines_fail(d, at, upto - 1);
    }
}

/// Position of the first returned line of product `pid` that was made in
/// the same second as `at`, or the number of lines if there is none.
pub open spec fn refund_line_position(
    lines: Seq<OLineRefundModel>,
    pid: BaseProductIdentity,
    at: Timestamp,
) -> int
    decreases lines.len(),
{
    if lines.len() == 0 {
        0
    } else if lines[0].pid == pid && lines[0].create_time.secs == at.secs {
        0
    } else {
        1 + refund_line_position(lines.drop_first(), pid, at)
    }
}

/// Where the first matching line is known, `refund_line_position` gives it.
pub proof fn lemma_refund_line_position(
    lines: Seq<OLineRefundModel>,
    pid: BaseProductIdentity,
    t: Timestamp,
    at: int,
)
    requires
        0 <= at <= lines.len(),
        at < lines.len() ==> lines[at].pid == pid && lines[at].create_time.secs == t.secs,
        forall|k: int|
            0 <= k < at ==> !((#[trigger] lines[k]).pid == pid && lines[k].create_time.secs
                == t.secs),
    ensures
        refund_line_position(lines, pid, t) == at,
    decreases lines.len(),
{
    if lines.len() > 0 && at > 0 {
        let rest = lines.drop_first();
        lemma_refund_line_position(rest, pid, t, at - 1);
    }
}

/// How many units of each returned line can be refunded.
pub open spec fn refundable(lines: Seq<OLineRefundModel>) -> Seq<nat> {
    Seq::new(lines.len(), |k: int| lines[k].qty as nat)
}

/// What is left of each returned line after `units` units of the line that
/// decision `q` is about are settled; all that is left of it, if that is
/// less.
pub open spec fn settled_line(
    lines: Seq<OLineRefundModel>,
    left: Seq<nat>,
    merchant_id: u32,
    q: RefundCompletionOlineReqDto,
    units: nat,
) -> Seq<nat> {
    let at = refund_line_position(lines, q.pid(merchant_id), q.time_issued);
    if at < left.len() {
        if units <= left[at] {
            left.update(at, (left[at] - units) as nat)
        } else {
            left.update(at, 0)
        }
    } else {
        left
    }
}

/// What can be refunded of the line that decision `q` is about.
pub open spec fn left_for(
    lines: Seq<OLineRefundModel>,
    left: Seq<nat>,
    merchant_id: u32,
    q: RefundCompletionOlineReqDto,
) -> nat {
    let at = refund_line_position(lines, q.pid(merchant_id), q.time_issued);
    if at < left.len() {
        left[at]
    } else {
        0
    }
}

/// What is left of each returned line once the first `upto` decisions are
/// taken in, one after another.  A decision that asks for more than is left
/// of its line takes nothing.
pub open spec fn left_after(
    lines: Seq<OLineRefundModel>,
    merchant_id: u32,
    reqs: Seq<RefundCompletionOlineReqDto>,
    upto: int,
) -> Seq<nat>
    decreases upto,
{
    if upto <= 0 {
        refundable(lines)
    } else {
        let before = left_after(lines, merchant_id, reqs, upto - 1);
        let q = reqs[upto - 1];
        if q.settles() > left_for(lines, before, merchant_id, q) {
            before
        } else {
            settled_line(lines, before, merchant_id, q, q.settles())
        }
    }
}

/// The decisions among the first `upto` that ask for more than is left of
/// their line, each with what was left and what it asked for.
pub open spec fn resolve_errors(
    lines: Seq<OLineRefundModel>,
    merchant_id: u32,
    reqs: Seq<RefundCompletionOlineReqDto>,
    upto: int,
) -> Seq<RefundModelError>
    decreases upto,
{
    if upto <= 0 {
        Seq::empty()
    } else {
        let errors = resolve_errors(lines, merchant_id, reqs, upto - 1);
        let before = left_after(lines, merchant_id, reqs, upto - 1);
        let q = reqs[upto - 1];
        let avail = left_for(lines, before, merchant_id, q);
        if q.settles() > avail {
            errors.push(
                RefundModelError::QtyInsufficient {
                    pid: q.pid(merchant_id),
                    num_avail: avail as u32,
                    num_req: q.settles() as u64,
                },
            )
        } else {
            errors
        }
    }
}

/// What is left of each returned line once, for each of the first `upto`
/// decisions, `units[i]` units of its line are settled.
pub open spec fn left_after_settling(
    lines: Seq<OLineRefundModel>,
    merchant_id: u32,
    reqs: Seq<RefundCompletionOlineReqDto>,
    units: Seq<nat>,
    upto: int,
) -> Seq<nat>
    decreases upto,
{
    if upto <= 0 {
        refundable(lines)
    } else {
        settled_line(
            lines,
            left_after_settling(lines, merchant_id, reqs, units, upto - 1),
            merchant_id,
            reqs[upto - 1],
            units[upto - 1],
        )
    }
}

impl OrderRefundModel {
    /// Makes the refund model of order `oid` out of what the order service
    /// sent.  Fails on the first line whose time or amounts are badly
    /// written.
    pub fn try_from(oid: String, d_lines: Vec<OrderLineReplicaRefundDto>) -> (r: Result<
        OrderRefundModel,
        RefundModelError,
    >)
        ensures
            match refund_lines_parsed(d_lines@, d_lines.len() as int) {
                Ok(lines) => r matches Ok(m) && m.order_id@ == oid@ && m.lines@ == lines,
                Err(e) => r == Err::<OrderRefundModel, RefundModelError>(e),
            },
    {
        let mut lines: Vec<OLineRefundModel> = Vec::new();
        let mut i: usize = 0;
        while i < d_lines.len()
            invariant
                i <= d_lines.len(),
                refund_lines_parsed(d_lines@, i as int) == Ok::<
                    Seq<OLineRefundModel>,
                    RefundModelError,
                >(lines@),
            decreases d_lines.len() - i,
        {
            let d = &d_lines[i];
            let pid = BaseProductIdentity {
                store_id: d.seller_id,
                product_type: d.product_type,
                product_id: d.product_id,
            };
            let create_time = match Timestamp::parse_rfc3339(d.create_time.as_str()) {
                Some(t) => t,
                None => {
                    proof {
                        lemma_refund_lines_fail(d_lines@, i as int, d_lines.len() as int);
                    }
                    return Err(RefundModelError::InvalidCreateTime(pid));
                },
            };
            let unit = Decimal::parse(d.amount.unit.as_str());
            let total = Decimal::parse(d.amount.total.as_str());
            match (unit, total) {
                (Some(unit), Some(total)) => {
                    lines.push(
                        OLineRefundModel {
                            pid,
                            create_time,
                            amount: RefundLineAmount { unit, total },
                            qty: d.qty,
                        },
                    );
                },
                _ => {
                    proof {
                        lemma_refund_lines_fail(d_lines@, i as int, d_lines.len() as int);
                    }
                    return Err(RefundModelError::InvalidAmount(pid));
                },
            }
            i += 1;
        }
        Ok(OrderRefundModel { order_id: oid, lines })
    }

    /// Position of the returned line that decision `q` is about.
    pub fn find_line(&self, merchant_id: u32, q: &RefundCompletionOlineReqDto) -> (r: Option<usize>)
        ensures
            match r {
                Some(at) => at < self.lines.len() && at == refund_line_position(
                    self.lines@,
                    q.pid(merchant_id),
                    q.time_issued,
                ),
                None => refund_line_position(self.lines@, q.pid(merchant_id), q.time_issued)
                    == self.lines.len(),
            },
    {
        let mut i: usize = 0;
        while i < self.lines.len()
            invariant
                i <= self.lines.len(),
                forall|k: int|
                    0 <= k < i ==> !((#[trigger] self.lines@[k]).pid == q.pid(merchant_id)
                        && self.lines@[k].create_time.secs == q.time_issued.secs),
            decreases self.lines.len() - i,
        {
            let l = &self.lines[i];
            if l.pid.store_id == merchant_id && l.pid.product_type == q.product_type
                && l.pid.product_id == q.product_id && l.create_time.secs == q.time_issued.secs {
                proof {
                    lemma_refund_line_position(
                        self.lines@,
                        q.pid(merchant_id),
                        q.time_issued,
                        i as int,
                    );
                }
                return Some(i);
            }
            i += 1;
        }
        proof {
            lemma_refund_line_position(
                self.lines@,
                q.pid(merchant_id),
                q.time_issued,
                self.lines.len() as int,
            );
        }
        None
    }

    /// Holds the decisions of staff against what can still be refunded.
    ///
    /// The decisions are taken in one after another, each settling the
    /// units it refunds and refuses on the returned line of its product and
    /// time.  Every decision that asks for more than is left of its line is
    /// reported.  The model itself is not changed.
    pub fn validate(&self, merchant_id: u32, req: &RefundCompletionReqDto) -> (r: Result<
        (),
        Vec<RefundModelError>,
    >)
        ensures
            match r {
                Ok(()) => resolve_errors(self.lines@, merchant_id, req.lines@, req.lines.len() as int)
                    == Seq::<RefundModelError>::empty(),
                Err(errors) => errors@.len() > 0 && errors@ == resolve_errors(
                    self.lines@,
                    merchant_id,
                    req.lines@,
                    req.lines.len() as int,
                ),
            },
    {
        let mut left: Vec<u32> = Vec::new();
        let mut k: usize = 0;
        while k < self.lines.len()
            invariant
                k <= self.lines.len(),
                left@.len() == k,
                forall|j: int| 0 <= j < k ==> (#[trigger] left@[j]) == self.lines@[j].qty,
            decreases self.lines.len() - k,
        {
            left.push(self.lines[k].qty);
            k += 1;
        }
        let ghost lines = self.lines@;
        let ghost reqs = req.lines@;
        let mut errors: Vec<RefundModelError> = Vec::new();
        let mut i: usize = 0;
        while i < req.lines.len()
            invariant
                i <= req.lines.len(),
                lines == self.lines@,
                reqs == req.lines@,
                left@.len() == lines.len(),
                Seq::new(left@.len(), |j: int| left@[j] as nat) == left_after(
                    lines,
                    merchant_id,
                    reqs,
                    i as int,
                ),
                errors@ == resolve_errors(lines, merchant_id, reqs, i as int),
            decreases req.lines.len() - i,
        {
            let q = &req.lines[i];
            let settles: u64 = q.qty_approved as u64 + q.qty_rej_damaged as u64
                + q.qty_rej_fraud as u64;
            let found = self.find_line(merchant_id, q);
            let avail: u32 = match found {
                Some(at) => {
                    left[at]
                },
                None => 0,
            };
            if settles > avail as u64 {
                errors.push(
                    RefundModelError::QtyInsufficient {
                        pid: BaseProductIdentity {
                            store_id: merchant_id,
                            product_type: q.product_type,
                            product_id: q.product_id,
                        },
                        num_avail: avail,
                        num_req: settles,
                    },
                );
            } else {
                match found {
                    Some(at) => {
                        left[at] = avail - settles as u32;
                    },
                    None => {},
                }
            }
            i += 1;
        }
        if errors.len() > 0 {
            Err(errors)
        } else {
            Ok(())
        }
    }

    /// Settles, for each decision, `units[i]` units of its returned line;
    /// all that is left of the line, if that is less.
    pub fn settle(&mut self, merchant_id: u32, req: &RefundCompletionReqDto, units: &Vec<u64>)
        requires
            units.len() == req.lines.len(),
        ensures
            final(self).order_id == old(self).order_id,
            final(self).lines@.len() == old(self).lines@.len(),
            refundable(final(self).lines@) == left_after_settling(
                old(self).lines@,
                merchant_id,
                req.lines@,
                Seq::new(units@.len(), |i: int| units@[i] as nat),
                req.lines.len() as int,
            ),
            forall|k: int|
                0 <= k < old(self).lines@.len() ==> (#[trigger] final(self).lines@[k]).pid == old(
                    self,
                ).lines@[k].pid && final(self).lines@[k].create_time == old(
                    self,
                ).lines@[k].create_time && final(self).lines@[k].amount == old(
                    self,
                ).lines@[k].amount,
    {
        let ghost lines = self.lines@;
        let ghost reqs = req.lines@;
        let ghost amounts = Seq::new(units@.len(), |i: int| units@[i] as nat);
        let mut i: usize = 0;
        while i < req.lines.len()
            invariant
                i <= req.lines.len(),
                units.len() == req.lines.len(),
                reqs == req.lines@,
                amounts == Seq::new(units@.len(), |i: int| units@[i] as nat),
                self.order_id == old(self).order_id,
                self.lines@.len() == lines.len(),
                lines == old(self).lines@,
                refundable(self.lines@) == left_after_settling(
                    lines,
                    merchant_id,
                    reqs,
                    amounts,
                    i as int,
                ),
                forall|k: int|
                    0 <= k < lines.len() ==> (#[trigger] self.lines@[k]).pid == lines[k].pid
                        && self.lines@[k].create_time == lines[k].create_time
                        && self.lines@[k].amount == lines[k].amount,
            decreases req.lines.len() - i,
        {
            let q = &req.lines[i];
            let ghost now = self.lines@;
            proof {
                lemma_same_positions(lines, now, q.pid(merchant_id), q.time_issued);
            }
            match self.find_line(merchant_id, q) {
                Some(at) => {
                    let had = self.lines[at].qty;
                    let n = units[i];
                    let new_qty: u32 = if n <= had as u64 {
                        had - n as u32
                    } else {
                        0
                    };
                    self.lines[at].qty = new_qty;
                },
                None => {},
            }
            i += 1;
        }
    }
}

/// Lines that agree in product and time have their matching lines at the
/// same positions.
pub proof fn lemma_same_positions(
    a: Seq<OLineRefundModel>,
    b: Seq<OLineRefundModel>,
    pid: BaseProductIdentity,
    t: Timestamp,
)
    requires
        a.len() == b.len(),
        forall|k: int|
            0 <= k < a.len() ==> (#[trigger] b[k]).pid == a[k].pid && b[k].create_time
                == a[k].create_time,
    ensures
        refund_line_position(a, pid, t) == refund_line_position(b, pid, t),
    decreases a.len(),
{
    if a.len() > 0 {
        let ra = a.drop_first();
        let rb = b.drop_first();
        lemma_same_positions(ra, rb, pid, t);
    }
}

/// Units that the first `upto` decisions settle on the returned line at
/// position `k`, where decision `i` settles `units[i]`.
pub open spec fn settled_on(
    lines: Seq<OLineRefundModel>,
    merchant_id: u32,
    reqs: Seq<RefundCompletionOlineReqDto>,
    units: Seq<nat>,
    k: int,
    upto: int,
) -> nat
    decreases upto,
{
    if upto <= 0 {
        0
    } else {
        let before = settled_on(lines, merchant_id, reqs, units, k, upto - 1);
        let q = reqs[upto - 1];
        if refund_line_position(lines, q.pid(merchant_id), q.time_issued) == k {
            before + units[upto - 1]
        } else {
            before
        }
    }
}

/// `refund_line_position` is a position in the lines, or their number.
pub proof fn lemma_refund_position_bounds(
    lines: Seq<OLineRefundModel>,
    pid: BaseProductIdentity,
    t: Timestamp,
)
    ensures
        0 <= refund_line_position(lines, pid, t) <= lines.len(),
    decreases lines.len(),
{
    if lines.len() > 0 && !(lines[0].pid == pid && lines[0].create_time.secs == t.secs) {
        lemma_refund_position_bounds(lines.drop_first(), pid, t);
    }
}

/// The resolution reports no fewer errors for more decisions.
pub proof fn lemma_resolve_errors_monotonic(
    lines: Seq<OLineRefundModel>,
    merchant_id: u32,
    reqs: Seq<RefundCompletionOlineReqDto>,
    from: int,
    upto: int,
)
    requires
        0 <= from <= upto,
    ensures
        resolve_errors(lines, merchant_id, reqs, from).len() <= resolve_errors(
            lines,
            merchant_id,
            reqs,
            upto,
        ).len(),
    decreases upto - from,
{
    if from < upto {
        lemma_resolve_errors_monotonic(lines, merchant_id, reqs, from, upto - 1);
    }
}

/// Settling is exact: where the resolution reported no error and no
/// decision settles more than it asked to, every returned line is lowered
/// by just what was settled on it, and keeps at least what the resolution
/// had left of it.
pub proof fn lemma_settling_is_exact(
    lines: Seq<OLineRefundModel>,
    merchant_id: u32,
    reqs: Seq<RefundCompletionOlineReqDto>,
    units: Seq<nat>,
    upto: int,
)
    requires
        0 <= upto <= reqs.len(),
        units.len() == reqs.len(),
        resolve_errors(lines, merchant_id, reqs, reqs.len() as int).len() == 0,
        forall|i: int| 0 <= i < reqs.len() ==> #[trigger] units[i] <= reqs[i].settles(),
    ensures
        left_after_settling(lines, merchant_id, reqs, units, upto).len() == lines.len(),
        left_after(lines, merchant_id, reqs, upto).len() == lines.len(),
        forall|k: int|
            0 <= k < lines.len() ==> #[trigger] left_after_settling(
                lines,
                merchant_id,
                reqs,
                units,
                upto,
            )[k] + settled_on(lines, merchant_id, reqs, units, k, upto) == lines[k].qty,
        forall|k: int|
            0 <= k < lines.len() ==> #[trigger] left_after(lines, merchant_id, reqs, upto)[k]
                <= left_after_settling(lines, merchant_id, reqs, units, upto)[k],
    decreases upto,
{
    if upto > 0 {
        let i = upto - 1;
        lemma_settling_is_exact(lines, merchant_id, reqs, units, i);
        lemma_resolve_errors_monotonic(lines, merchant_id, reqs, upto, reqs.len() as int);
        let q = reqs[i];
        lemma_refund_position_bounds(lines, q.pid(merchant_id), q.time_issued);
    }
}

} // verus!
