//! Completion of refunds: staff decide, line by line, how much of what an
//! order returned is refunded; the approved units are drawn from the
//! charges of the order, the payment processor is asked charge by charge,
//! and what it accepted is booked.

use crate::adapter::processor::{AppProcessorError, AppProcessorErrorReason};
use crate::adapter::repository::{AppRepoError, AppRepoErrorDetail, AppRepoErrorFnLabel};
use crate::error::{AppErrorCode, HttpStatusClass};
use crate::model::charge::{ChargeBuyerModel, ChargeLineBuyerModel};
use crate::model::merchant::MerchantProfileModel;
use crate::model::money::Decimal;
use crate::model::order::BaseProductIdentity;
use crate::model::refund::{
    left_after, left_after_settling, left_for, lemma_refund_position_bounds,
    lemma_resolve_errors_monotonic, refundable, resolve_errors,
    OLineRefundModel, OrderRefundModel, RefundCompletionOlineReqDto, RefundCompletionOlineRespDto,
    RefundCompletionReqDto, RefundCompletionRespDto, RefundModelError,
};
use crate::time::Timestamp;
use vstd::prelude::*;

verus! {

/// Position of the first line of product `pid`, or the number of lines if
/// the charge has none.
pub open spec fn charge_line_position(
    lines: Seq<ChargeLineBuyerModel>,
    pid: BaseProductIdentity,
) -> int
    decreases lines.len(),
{
    if lines.len() == 0 {
        0
    } else if lines[0].pid == pid {
        0
    } else {
        1 + charge_line_position(lines.drop_first(), pid)
    }
}

/// Where the first line of a product is known, `charge_line_position`
/// gives it.
pub proof fn lemma_charge_line_position(
    lines: Seq<ChargeLineBuyerModel>,
    pid: BaseProductIdentity,
    at: int,
)
    requires
        0 <= at <= lines.len(),
        at < lines.len() ==> lines[at].pid == pid,
        forall|k: int| 0 <= k < at ==> (#[trigger] lines[k]).pid != pid,
    ensures
        charge_line_position(lines, pid) == at,
    decreases lines.len(),
{
    if lines.len() > 0 && at > 0 {
        let rest = lines.drop_first();
        lemma_charge_line_position(rest, pid, at - 1);
    }
}

/// `charge_line_position` is a position in the lines, or their number.
pub proof fn lemma_charge_line_position_bounds(
    lines: Seq<ChargeLineBuyerModel>,
    pid: BaseProductIdentity,
)
    ensures
        0 <= charge_line_position(lines, pid) <= lines.len(),
    decreases lines.len(),
{
    if lines.len() > 0 && lines[0].pid != pid {
        lemma_charge_line_position_bounds(lines.drop_first(), pid);
    }
}

/// What can still be refunded of each line of a charge.
pub open spec fn remainders(lines: Seq<ChargeLineBuyerModel>) -> Seq<nat> {
    Seq::new(lines.len(), |l: int| lines[l].remainder())
}

/// What a charge gives to the decision at position `i`, where `need[i]`
/// units of it are still to be refunded and `left` is what the lines of the
/// charge can still give: the line of the product gives what is asked, or
/// all it has.
pub open spec fn take_from(
    lines: Seq<ChargeLineBuyerModel>,
    left: Seq<nat>,
    merchant_id: u32,
    q: RefundCompletionOlineReqDto,
    need: nat,
) -> nat {
    let l = charge_line_position(lines, q.pid(merchant_id));
    if l < left.len() {
        if need <= left[l] {
            need
        } else {
            left[l]
        }
    } else {
        0
    }
}

/// What the lines of a charge can still give once the first `upto`
/// decisions have drawn from them, one after another.
pub open spec fn left_in_charge(
    lines: Seq<ChargeLineBuyerModel>,
    merchant_id: u32,
    reqs: Seq<RefundCompletionOlineReqDto>,
    need: Seq<nat>,
    upto: int,
) -> Seq<nat>
    decreases upto,
{
    if upto <= 0 {
        remainders(lines)
    } else {
        let before = left_in_charge(lines, merchant_id, reqs, need, upto - 1);
        let q = reqs[upto - 1];
        let l = charge_line_position(lines, q.pid(merchant_id));
        if l < before.len() {
            before.update(
                l,
                (before[l] - take_from(lines, before, merchant_id, q, need[upto - 1])) as nat,
            )
        } else {
            before
        }
    }
}

/// What a charge gives to the decision at position `i`, after the
/// decisions before it have drawn from the charge.
pub open spec fn taken_in_charge(
    lines: Seq<ChargeLineBuyerModel>,
    merchant_id: u32,
    reqs: Seq<RefundCompletionOlineReqDto>,
    need: Seq<nat>,
    i: int,
) -> nat {
    take_from(lines, left_in_charge(lines, merchant_id, reqs, need, i), merchant_id, reqs[i], need[i])
}

/// What each decision approves.
pub open spec fn approvals(reqs: Seq<RefundCompletionOlineReqDto>) -> Seq<nat> {
    Seq::new(reqs.len(), |i: int| reqs[i].qty_approved as nat)
}

/// What of each decision is still to be refunded once the first `upto`
/// charges have given what they can, in the order in which they stand.
pub open spec fn need_after(
    charges: Seq<Seq<ChargeLineBuyerModel>>,
    merchant_id: u32,
    reqs: Seq<RefundCompletionOlineReqDto>,
    upto: int,
) -> Seq<nat>
    decreases upto,
{
    if upto <= 0 {
        approvals(reqs)
    } else {
        let before = need_after(charges, merchant_id, reqs, upto - 1);
        Seq::new(
            reqs.len(),
            |i: int|
                (before[i] - taken_in_charge(charges[upto - 1], merchant_id, reqs, before, i)) as nat,
        )
    }
}

/// What charge `c` gives to the decision at position `i`.
pub open spec fn drawn(
    charges: Seq<Seq<ChargeLineBuyerModel>>,
    merchant_id: u32,
    reqs: Seq<RefundCompletionOlineReqDto>,
    c: int,
    i: int,
) -> nat {
    taken_in_charge(charges[c], merchant_id, reqs, need_after(charges, merchant_id, reqs, c), i)
}

/// What is drawn from line `l` of charge `c`, over all decisions.
pub open spec fn debit(
    charges: Seq<Seq<ChargeLineBuyerModel>>,
    merchant_id: u32,
    reqs: Seq<RefundCompletionOlineReqDto>,
    c: int,
    l: int,
) -> nat {
    (charges[c][l].remainder() - left_in_charge(
        charges[c],
        merchant_id,
        reqs,
        need_after(charges, merchant_id, reqs, c),
        reqs.len() as int,
    )[l]) as nat
}

/// What is left in a charge has one entry for each line and never grows.
pub proof fn lemma_left_in_charge(
    lines: Seq<ChargeLineBuyerModel>,
    merchant_id: u32,
    reqs: Seq<RefundCompletionOlineReqDto>,
    need: Seq<nat>,
    upto: int,
)
    ensures
        left_in_charge(lines, merchant_id, reqs, need, upto).len() == lines.len(),
        forall|l: int|
            0 <= l < lines.len() ==> #[trigger] left_in_charge(lines, merchant_id, reqs, need, upto)[l]
                <= lines[l].remainder(),
    decreases upto,
{
    if upto > 0 {
        lemma_left_in_charge(lines, merchant_id, reqs, need, upto - 1);
        lemma_charge_line_position_bounds(lines, reqs[upto - 1].pid(merchant_id));
    }
}

/// The lines of each charge.
pub open spec fn charge_lines(charges: Seq<ChargeBuyerModel>) -> Seq<Seq<ChargeLineBuyerModel>> {
    Seq::new(charges.len(), |c: int| charges[c].lines@)
}

/// A sequence of machine numbers as natural numbers.
pub open spec fn nats(v: Seq<u32>) -> Seq<nat> {
    Seq::new(v.len(), |i: int| v[i] as nat)
}

fn find_charge_line(
    lines: &Vec<ChargeLineBuyerModel>,
    merchant_id: u32,
    q: &RefundCompletionOlineReqDto,
) -> (r:Option<usize>)
    ensures
        match r {
            Some(at) => at < lines.len() && at == charge_line_position(lines@, q.pid(merchant_id)),
            None => charge_line_position(lines@, q.pid(merchant_id)) == lines.len(),
        },
{
    let mut i: usize = 0;
    while i < lines.len()
        invariant
            i <= lines.len(),
            forall|k: int| 0 <= k < i ==> (#[trigger] lines@[k]).pid != q.pid(merchant_id),
        decreases lines.len() - i,
    {
        let l = &lines[i];
        if l.pid.store_id == merchant_id && l.pid.product_type == q.product_type
            && l.pid.product_id == q.product_id {
            proof {
                lemma_charge_line_position(lines@, q.pid(merchant_id), i as int);
            }
            return Some(i);
        }
        i += 1;
    }
    proof {
        lemma_charge_line_position(lines@, q.pid(merchant_id), lines.len() as int);
    }
    None
}

/// Draws from one charge what the decisions still need, decision after
/// decision.  Gives what each decision got and what was drawn from each
/// line, and lowers `need` by what each decision got.
pub fn allocate_in_charge(
    lines: &Vec<ChargeLineBuyerModel>,
    merchant_id: u32,
    reqs: &Vec<RefundCompletionOlineReqDto>,
    need: &mut Vec<u32>,
) -> (r: (Vec<u32>, Vec<u32>))
    requires
        forall|l: int| 0 <= l < lines@.len() ==> (#[trigger] lines@[l]).wf(),
        old(need)@.len() == reqs@.len(),
    ensures
        r.0@.len() == reqs@.len(),
        r.1@.len() == lines@.len(),
        final(need)@.len() == reqs@.len(),
        forall|i: int|
            0 <= i < reqs@.len() ==> (#[trigger] r.0@[i]) == taken_in_charge(
                lines@,
                merchant_id,
                reqs@,
                nats(old(need)@),
                i,
            ),
        forall|i: int|
            0 <= i < reqs@.len() ==> (#[trigger] final(need)@[i]) == old(need)@[i] - r.0@[i],
        forall|l: int|
            0 <= l < lines@.len() ==> (#[trigger] r.1@[l]) == lines@[l].remainder() - left_in_charge(
                lines@,
                merchant_id,
                reqs@,
                nats(old(need)@),
                reqs@.len() as int,
            )[l],
{
    let ghost need0 = nats(need@);
    let ghost start = need@;
    let n = reqs.len();
    let mut left: Vec<u32> = Vec::new();
    let mut k: usize = 0;
    while k < lines.len()
        invariant
            k <= lines.len(),
            left@.len() == k,
            forall|l: int| 0 <= l < lines@.len() ==> (#[trigger] lines@[l]).wf(),
            forall|l: int| 0 <= l < k ==> (#[trigger] left@[l]) == lines@[l].remainder(),
        decreases lines.len() - k,
    {
        left.push(lines[k].num_remain());
        k += 1;
    }
    let mut taken: Vec<u32> = Vec::new();
    let mut i: usize = 0;
    while i < n
        invariant
            i <= n == reqs@.len(),
            need@.len() == n,
            start.len() == n,
            need0 == nats(start),
            left@.len() == lines@.len(),
            taken@.len() == i,
            nats(left@) == left_in_charge(lines@, merchant_id, reqs@, need0, i as int),
            forall|j: int|
                0 <= j < i ==> (#[trigger] taken@[j]) == taken_in_charge(
                    lines@,
                    merchant_id,
                    reqs@,
                    need0,
                    j,
                ),
            forall|j: int| 0 <= j < i ==> (#[trigger] need@[j]) == start[j] - taken@[j],
            forall|j: int| i <= j < n ==> (#[trigger] need@[j]) == start[j],
        decreases n - i,
    {
        let q = &reqs[i];
        let want = need[i];
        let got: u32 = match find_charge_line(lines, merchant_id, q) {
            Some(l) => {
                let has = left[l];
                let got = if want <= has {
                    want
                } else {
                    has
                };
                left[l] = has - got;
                got
            },
            None => 0,
        };
        need[i] = want - got;
        taken.push(got);
        i += 1;
    }
    let mut debits: Vec<u32> = Vec::new();
    let mut l: usize = 0;
    proof {
        lemma_left_in_charge(lines@, merchant_id, reqs@, need0, n as int);
    }
    while l < lines.len()
        invariant
            l <= lines.len(),
            left@.len() == lines@.len(),
            debits@.len() == l,
            forall|k: int| 0 <= k < lines@.len() ==> (#[trigger] lines@[k]).wf(),
            nats(left@) == left_in_charge(lines@, merchant_id, reqs@, need0, n as int),
            forall|k: int|
                0 <= k < lines@.len() ==> #[trigger] left_in_charge(
                    lines@,
                    merchant_id,
                    reqs@,
                    need0,
                    n as int,
                )[k] <= lines@[k].remainder(),
            forall|k: int|
                0 <= k < l ==> (#[trigger] debits@[k]) == lines@[k].remainder() - left_in_charge(
                    lines@,
                    merchant_id,
                    reqs@,
                    need0,
                    n as int,
                )[k],
        decreases lines.len() - l,
    {
        assert(nats(left@)[l as int] == left@[l as int]);
        debits.push(lines[l].num_remain() - left[l]);
        l += 1;
    }
    (taken, debits)
}

/// Why the completion of a refund failed.
#[derive(Debug, Clone, PartialEq, Eq)]
pub enum FinalizeRefundUcError {
    /// The merchant has no profile.
    MerchantNotFound(u32),
    /// The user is not among the staff of the merchant.
    PermissionDenied(u32),
    /// The order has no refund request.
    MissingRefundReq(String),
    /// The order has no charge that touches the merchant.
    MissingChargeId(String),
    /// A repository failed, or refused the completion.
    DataStore(AppRepoError),
}

impl FinalizeRefundUcError {
    /// How the failure is answered over HTTP: a missing charge or refund
    /// request is not found, a user who is not staff is forbidden, and a
    /// failure of a repository is a fault of the service.
    pub open spec fn status_class(self) -> HttpStatusClass {
        match self {
            FinalizeRefundUcError::MerchantNotFound(_) => HttpStatusClass::NotFound,
            FinalizeRefundUcError::PermissionDenied(_) => HttpStatusClass::Forbidden,
            FinalizeRefundUcError::MissingRefundReq(_) => HttpStatusClass::NotFound,
            FinalizeRefundUcError::MissingChargeId(_) => HttpStatusClass::NotFound,
            FinalizeRefundUcError::DataStore(_) => HttpStatusClass::ServerError,
        }
    }

    /// How the failure is answered over HTTP.
    pub fn http_status_class(&self) -> (r: HttpStatusClass)
        ensures
            r == self.status_class(),
    {
        match self {
            FinalizeRefundUcError::MerchantNotFound(_) => HttpStatusClass::NotFound,
            FinalizeRefundUcError::PermissionDenied(_) => HttpStatusClass::Forbidden,
            FinalizeRefundUcError::MissingRefundReq(_) => HttpStatusClass::NotFound,
            FinalizeRefundUcError::MissingChargeId(_) => HttpStatusClass::NotFound,
            FinalizeRefundUcError::DataStore(_) => HttpStatusClass::ServerError,
        }
    }
}

/// The refund to book on one charge: the charge, by owner and time of
/// creation, and its lines as they are after the refund.
#[derive(Debug, Clone)]
pub struct ChargeRefundUpdate {
    pub owner: u32,
    pub create_time: Timestamp,
    pub lines: Vec<ChargeLineBuyerModel>,
}

/// A refund to book, as mathematical content.
pub type ChargeRefund = (u32, Timestamp, Seq<ChargeLineBuyerModel>);

/// The charges that the processor refused, by position.
pub open spec fn failed_charges(failed: Seq<(usize, AppProcessorErrorReason)>) -> Seq<usize> {
    Seq::new(failed.len(), |k: int| failed[k].0)
}

/// Whether anything is drawn from charge `c`.
pub open spec fn is_pending(
    charges: Seq<Seq<ChargeLineBuyerModel>>,
    merchant_id: u32,
    reqs: Seq<RefundCompletionOlineReqDto>,
    c: int,
) -> bool {
    exists|l: int| 0 <= l < charges[c].len() && #[trigger] debit(charges, merchant_id, reqs, c, l) > 0
}

/// What is refunded for the decision at position `i` by the first `upto`
/// charges, those left out that the processor refused.
pub open spec fn approved_of(
    charges: Seq<Seq<ChargeLineBuyerModel>>,
    merchant_id: u32,
    reqs: Seq<RefundCompletionOlineReqDto>,
    failed: Seq<usize>,
    i: int,
    upto: int,
) -> nat
    decreases upto,
{
    if upto <= 0 {
        0
    } else {
        let before = approved_of(charges, merchant_id, reqs, failed, i, upto - 1);
        if failed.contains((upto - 1) as usize) {
            before
        } else {
            before + drawn(charges, merchant_id, reqs, upto - 1, i)
        }
    }
}

/// The unit price at which the decision at position `i` is refunded: that
/// of the line of the first among the first `upto` charges that gives to it
/// and was not refused.
pub open spec fn unit_price_of(
    charges: Seq<Seq<ChargeLineBuyerModel>>,
    merchant_id: u32,
    reqs: Seq<RefundCompletionOlineReqDto>,
    failed: Seq<usize>,
    i: int,
    upto: int,
) -> Option<Decimal>
    decreases upto,
{
    if upto <= 0 {
        None
    } else {
        match unit_price_of(charges, merchant_id, reqs, failed, i, upto - 1) {
            Some(unit) => Some(unit),
            None => {
                let c = upto - 1;
                if !failed.contains(c as usize) && drawn(charges, merchant_id, reqs, c, i) > 0 {
                    Some(
                        charges[c][charge_line_position(
                            charges[c],
                            reqs[i].pid(merchant_id),
                        )].amount.unit,
                    )
                } else {
                    None
                }
            },
        }
    }
}

/// What comes of the decision at position `i`: what was refunded of what
/// it approved, at the unit price of the charge, and what it refused.
pub open spec fn response_line(
    charges: Seq<Seq<ChargeLineBuyerModel>>,
    merchant_id: u32,
    reqs: Seq<RefundCompletionOlineReqDto>,
    failed: Seq<usize>,
    i: int,
) -> RefundCompletionOlineRespDto {
    let approved = approved_of(charges, merchant_id, reqs, failed, i, charges.len() as int);
    let amount_total = match unit_price_of(
        charges,
        merchant_id,
        reqs,
        failed,
        i,
        charges.len() as int,
    ) {
        Some(unit) => Decimal { mantissa: unit.times(approved) as u128, scale: unit.scale },
        None => Decimal { mantissa: 0, scale: 0 },
    };
    RefundCompletionOlineRespDto {
        product_type: reqs[i].product_type,
        product_id: reqs[i].product_id,
        time_issued: reqs[i].time_issued,
        qty_approved: approved as u32,
        amount_total,
        qty_rej_damaged: reqs[i].qty_rej_damaged,
        qty_rej_fraud: reqs[i].qty_rej_fraud,
    }
}

/// What comes of the first `upto` decisions, in their order; a decision of
/// which nothing was refunded and nothing refused is left out.
pub open spec fn response_lines(
    charges: Seq<Seq<ChargeLineBuyerModel>>,
    merchant_id: u32,
    reqs: Seq<RefundCompletionOlineReqDto>,
    failed: Seq<usize>,
    upto: int,
) -> Seq<RefundCompletionOlineRespDto>
    decreases upto,
{
    if upto <= 0 {
        Seq::empty()
    } else {
        let before = response_lines(charges, merchant_id, reqs, failed, upto - 1);
        let line = response_line(charges, merchant_id, reqs, failed, upto - 1);
        if line.settles() > 0 {
            before.push(line)
        } else {
            before
        }
    }
}

/// The lines of charge `c` after what is drawn from them is refunded.
pub open spec fn refunded_lines(
    charges: Seq<Seq<ChargeLineBuyerModel>>,
    merchant_id: u32,
    reqs: Seq<RefundCompletionOlineReqDto>,
    c: int,
) -> Seq<ChargeLineBuyerModel> {
    Seq::new(
        charges[c].len(),
        |l: int| charges[c][l].with_refund(debit(charges, merchant_id, reqs, c, l)),
    )
}

/// The refunds to book on the first `upto` charges: one for each charge
/// that something is drawn from and that the processor did not refuse.
pub open spec fn charge_refunds(
    charges: Seq<ChargeBuyerModel>,
    merchant_id: u32,
    reqs: Seq<RefundCompletionOlineReqDto>,
    failed: Seq<usize>,
    upto: int,
) -> Seq<ChargeRefund>
    decreases upto,
{
    if upto <= 0 {
        Seq::empty()
    } else {
        let before = charge_refunds(charges, merchant_id, reqs, failed, upto - 1);
        let c = upto - 1;
        let lines = charge_lines(charges);
        if is_pending(lines, merchant_id, reqs, c) && !failed.contains(c as usize) {
            before.push(
                (
                    charges[c].meta.owner,
                    charges[c].meta.create_time,
                    refunded_lines(lines, merchant_id, reqs, c),
                ),
            )
        } else {
            before
        }
    }
}

/// The refunds to book, as mathematical content.
pub open spec fn refunds_view(v: Seq<ChargeRefundUpdate>) -> Seq<ChargeRefund> {
    Seq::new(v.len(), |k: int| (v[k].owner, v[k].create_time, v[k].lines@))
}

/// The errors of the processor to report, out of the first `upto`
/// refusals: those of charges that something is drawn from.
pub open spec fn processor_errors(
    charges: Seq<Seq<ChargeLineBuyerModel>>,
    merchant_id: u32,
    reqs: Seq<RefundCompletionOlineReqDto>,
    failed: Seq<(usize, AppProcessorErrorReason)>,
    upto: int,
) -> Seq<AppProcessorError>
    decreases upto,
{
    if upto <= 0 {
        Seq::empty()
    } else {
        let before = processor_errors(charges, merchant_id, reqs, failed, upto - 1);
        let (c, reason) = failed[upto - 1];
        if c < charges.len() && is_pending(charges, merchant_id, reqs, c as int) {
            before.push(AppProcessorError { reason })
        } else {
            before
        }
    }
}

/// Units that the first `upto` decisions settle.
pub open spec fn requested_total(reqs: Seq<RefundCompletionOlineReqDto>, upto: int) -> nat
    decreases upto,
{
    if upto <= 0 {
        0
    } else {
        requested_total(reqs, upto - 1) + reqs[upto - 1].settles()
    }
}

/// Units that the first `upto` lines of a response settle.
pub open spec fn responded_total(lines: Seq<RefundCompletionOlineRespDto>, upto: int) -> nat
    decreases upto,
{
    if upto <= 0 {
        0
    } else {
        responded_total(lines, upto - 1) + lines[upto - 1].settles()
    }
}

/// What each decision settles in the end: what it refused and what was
/// refunded of what it approved.
pub open spec fn settled_units(
    charges: Seq<Seq<ChargeLineBuyerModel>>,
    merchant_id: u32,
    reqs: Seq<RefundCompletionOlineReqDto>,
    failed: Seq<usize>,
) -> Seq<nat> {
    Seq::new(
        reqs.len(),
        |i: int|
            reqs[i].refuses() + approved_of(
                charges,
                merchant_id,
                reqs,
                failed,
                i,
                charges.len() as int,
            ),
    )
}

/// What the charges gave to a decision, and what it still needs, is what
/// it approved; so no more is refunded than was approved.
pub proof fn lemma_approved_bounded(
    charges: Seq<Seq<ChargeLineBuyerModel>>,
    merchant_id: u32,
    reqs: Seq<RefundCompletionOlineReqDto>,
    failed: Seq<usize>,
    i: int,
    upto: int,
)
    requires
        0 <= i < reqs.len(),
        0 <= upto,
    ensures
        need_after(charges, merchant_id, reqs, upto).len() == reqs.len(),
        approved_of(charges, merchant_id, reqs, failed, i, upto) + need_after(
            charges,
            merchant_id,
            reqs,
            upto,
        )[i] <= reqs[i].qty_approved,
    decreases upto,
{
    if upto > 0 {
        lemma_approved_bounded(charges, merchant_id, reqs, failed, i, upto - 1);
    }
}

/// Whether every charge keeps the invariant of charge lines on each of
/// its lines.
pub open spec fn charges_wf(charges: Seq<ChargeBuyerModel>) -> bool {
    forall|c: int| 0 <= c < charges.len() ==> (#[trigger] charges[c]).wf()
}

/// The charges among the first `upto` that something is drawn from, by
/// position.
pub open spec fn pending_charges(
    charges: Seq<Seq<ChargeLineBuyerModel>>,
    merchant_id: u32,
    reqs: Seq<RefundCompletionOlineReqDto>,
    upto: int,
) -> Seq<usize>
    decreases upto,
{
    if upto <= 0 {
        Seq::empty()
    } else {
        let before = pending_charges(charges, merchant_id, reqs, upto - 1);
        if is_pending(charges, merchant_id, reqs, upto - 1) {
            before.push((upto - 1) as usize)
        } else {
            before
        }
    }
}

/// What was decided and planned for the completion of a refund: the
/// decisions of staff, the refund request that they were held against, the
/// charges of the order, and what is drawn from each charge for each
/// decision and from each of its lines.
#[derive(Debug, Clone)]
pub struct RefundPlan {
    pub order_id: String,
    pub merchant_id: u32,
    pub req: RefundCompletionReqDto,
    pub refund_m: OrderRefundModel,
    pub charges: Vec<ChargeBuyerModel>,
    pub allocs: Vec<Vec<u32>>,
    pub debits: Vec<Vec<u32>>,
}

/// What is to be stored and answered once the processor was asked.
#[derive(Debug, Clone)]
pub struct RefundSettlement {
    pub response: RefundCompletionRespDto,
    pub errors_3party: Vec<AppProcessorError>,
    pub charge_updates: Vec<ChargeRefundUpdate>,
    pub refund_m: OrderRefundModel,
}

impl RefundPlan {
    /// The lines of the charges.
    pub open spec fn lines(&self) -> Seq<Seq<ChargeLineBuyerModel>> {
        charge_lines(self.charges@)
    }

    /// Whether the plan is that of `FinalizeRefundUseCase::plan`: the
    /// charges keep their invariant, no decision asks for more than can be
    /// refunded, and the planned quantities are those drawn from the
    /// charges in their order.
    pub open spec fn wf(&self) -> bool {
        &&& forall|c: int| 0 <= c < self.charges@.len() ==> (#[trigger] self.charges@[c]).wf()
        &&& resolve_errors(
            self.refund_m.lines@,
            self.merchant_id,
            self.req.lines@,
            self.req.lines@.len() as int,
        ) == Seq::<RefundModelError>::empty()
        &&& self.allocs@.len() == self.charges@.len()
        &&& self.debits@.len() == self.charges@.len()
        &&& forall|c: int|
            0 <= c < self.charges@.len() ==> (#[trigger] self.allocs@[c])@.len()
                == self.req.lines@.len()
        &&& forall|c: int|
            0 <= c < self.charges@.len() ==> (#[trigger] self.debits@[c])@.len()
                == self.charges@[c].lines@.len()
        &&& forall|c: int, i: int|
            0 <= c < self.charges@.len() && 0 <= i < self.req.lines@.len() ==> (
            #[trigger] self.allocs@[c]@[i]) == drawn(
                self.lines(),
                self.merchant_id,
                self.req.lines@,
                c,
                i,
            )
        &&& forall|c: int, l: int|
            0 <= c < self.charges@.len() && 0 <= l < self.charges@[c].lines@.len() ==> (
            #[trigger] self.debits@[c]@[l]) == debit(
                self.lines(),
                self.merchant_id,
                self.req.lines@,
                c,
                l,
            )
    }

    fn charge_is_pending(&self, c: usize) -> (r: bool)
        requires
            self.wf(),
            c < self.charges.len(),
        ensures
            r == is_pending(self.lines(), self.merchant_id, self.req.lines@, c as int),
    {
        let d = &self.debits[c];
        let mut l: usize = 0;
        while l < d.len()
            invariant
                l <= d.len(),
                self.wf(),
                c < self.charges.len(),
                d == &self.debits[c as int],
                d@.len() == self.lines()[c as int].len(),
                forall|k: int|
                    0 <= k < l ==> #[trigger] debit(
                        self.lines(),
                        self.merchant_id,
                        self.req.lines@,
                        c as int,
                        k,
                    ) == 0,
            decreases d.len() - l,
        {
            if d[l] > 0 {
                return true;
            }
            l += 1;
        }
        false
    }

    /// The charges to ask the processor about: those that something is
    /// drawn from, in the order in which they stand.
    pub fn pending(&self) -> (r: Vec<usize>)
        requires
            self.wf(),
        ensures
            r@ == pending_charges(
                self.lines(),
                self.merchant_id,
                self.req.lines@,
                self.charges.len() as int,
            ),
    {
        let mut out: Vec<usize> = Vec::new();
        let mut c: usize = 0;
        while c < self.charges.len()
            invariant
                c <= self.charges.len(),
                self.wf(),
                out@ == pending_charges(self.lines(), self.merchant_id, self.req.lines@, c as int),
            decreases self.charges.len() - c,
        {
            if self.charge_is_pending(c) {
                out.push(c);
            }
            c += 1;
        }
        out
    }

    /// The lines of charge `c` as they are once what the plan draws from
    /// them is refunded.
    pub fn refunded_lines(&self, c: usize) -> (r: Vec<ChargeLineBuyerModel>)
        requires
            self.wf(),
            c < self.charges.len(),
        ensures
            r@ == refunded_lines(self.lines(), self.merchant_id, self.req.lines@, c as int),
            forall|l: int| 0 <= l < r@.len() ==> (#[trigger] r@[l]).wf(),
    {
        let src = &self.charges[c].lines;
        let d = &self.debits[c];
        let ghost lines = self.lines();
        proof {
            lemma_left_in_charge(
                src@,
                self.merchant_id,
                self.req.lines@,
                need_after(lines, self.merchant_id, self.req.lines@, c as int),
                self.req.lines@.len() as int,
            );
        }
        let mut out: Vec<ChargeLineBuyerModel> = Vec::new();
        let mut l: usize = 0;
        while l < src.len()
            invariant
                l <= src.len(),
                self.wf(),
                c < self.charges.len(),
                lines == self.lines(),
                src == &self.charges[c as int].lines,
                d == &self.debits[c as int],
                lines[c as int] == src@,
                d@.len() == src@.len(),
                out@.len() == l,
                forall|k: int| 0 <= k < src@.len() ==> (#[trigger] src@[k]).wf(),
                forall|k: int|
                    0 <= k < src@.len() ==> #[trigger] debit(
                        lines,
                        self.merchant_id,
                        self.req.lines@,
                        c as int,
                        k,
                    ) <= src@[k].remainder(),
                forall|k: int|
                    0 <= k < l ==> (#[trigger] out@[k]) == src@[k].with_refund(
                        debit(lines, self.merchant_id, self.req.lines@, c as int, k),
                    ) && out@[k].wf(),
            decreases src.len() - l,
        {
            let mut line = src[l];
            line.apply_refund(d[l]);
            out.push(line);
            l += 1;
        }
        out
    }
}

fn is_failed(failed: &Vec<usize>, c: usize) -> (r: bool)
    ensures
        r == failed@.contains(c),
{
    let mut k: usize = 0;
    while k < failed.len()
        invariant
            k <= failed.len(),
            forall|j: int| 0 <= j < k ==> failed@[j] != c,
        decreases failed.len() - k,
    {
        if failed[k] == c {
            return true;
        }
        k += 1;
    }
    false
}

/// A line that gives to a decision has a unit price within the largest
/// amount.
pub proof fn lemma_drawn_has_price(
    charges: Seq<Seq<ChargeLineBuyerModel>>,
    merchant_id: u32,
    reqs: Seq<RefundCompletionOlineReqDto>,
    c: int,
    i: int,
)
    requires
        0 <= c < charges.len(),
        0 <= i < reqs.len(),
        forall|l: int| 0 <= l < charges[c].len() ==> (#[trigger] charges[c][l]).wf(),
        drawn(charges, merchant_id, reqs, c, i) > 0,
    ensures
        0 <= charge_line_position(charges[c], reqs[i].pid(merchant_id)) < charges[c].len(),
        charges[c][charge_line_position(
            charges[c],
            reqs[i].pid(merchant_id),
        )].amount.unit.mantissa <= crate::model::charge::max_amount(),
{
    let lines = charges[c];
    let need = need_after(charges, merchant_id, reqs, c);
    let at = charge_line_position(lines, reqs[i].pid(merchant_id));
    lemma_charge_line_position_bounds(lines, reqs[i].pid(merchant_id));
    lemma_left_in_charge(lines, merchant_id, reqs, need, i);
    let unit = lines[at].amount.unit.mantissa as nat;
    let qty = lines[at].amount.qty as nat;
    assert(unit <= unit * qty) by (nonlinear_arith)
        requires
            qty >= 1,
    ;
}

impl RefundPlan {
    /// What is refunded for the decision at position `i`, and at which
    /// unit price, where the processor refused the charges `failed`.
    pub fn approved(&self, failed: &Vec<usize>, i: usize) -> (r: (u32, Option<Decimal>))
        requires
            self.wf(),
            i < self.req.lines.len(),
        ensures
            r.0 == approved_of(
                self.lines(),
                self.merchant_id,
                self.req.lines@,
                failed@,
                i as int,
                self.charges.len() as int,
            ),
            r.1 == unit_price_of(
                self.lines(),
                self.merchant_id,
                self.req.lines@,
                failed@,
                i as int,
                self.charges.len() as int,
            ),
            r.0 <= self.req.lines@[i as int].qty_approved,
            r.1 matches Some(unit) ==> unit.mantissa <= crate::model::charge::max_amount(),
    {
        let ghost lines = self.lines();
        let ghost reqs = self.req.lines@;
        let q = &self.req.lines[i];
        let mut sum: u32 = 0;
        let mut unit: Option<Decimal> = None;
        let mut c: usize = 0;
        while c < self.charges.len()
            invariant
                c <= self.charges.len(),
                self.wf(),
                i < self.req.lines.len(),
                lines == self.lines(),
                reqs == self.req.lines@,
                q == &self.req.lines[i as int],
                sum == approved_of(lines, self.merchant_id, reqs, failed@, i as int, c as int),
                unit == unit_price_of(lines, self.merchant_id, reqs, failed@, i as int, c as int),
                unit matches Some(u) ==> u.mantissa <= crate::model::charge::max_amount(),
            decreases self.charges.len() - c,
        {
            proof {
                lemma_approved_bounded(lines, self.merchant_id, reqs, failed@, i as int, c + 1);
            }
            let got = self.allocs[c][i];
            if !is_failed(failed, c) {
                sum = sum + got;
                if unit.is_none() && got > 0 {
                    proof {
                        lemma_drawn_has_price(lines, self.merchant_id, reqs, c as int, i as int);
                    }
                    match find_charge_line(&self.charges[c].lines, self.merchant_id, q) {
                        Some(l) => {
                            unit = Some(self.charges[c].lines[l].amount.unit);
                        },
                        None => {},
                    }
                }
            }
            c += 1;
        }
        proof {
            lemma_approved_bounded(
                lines,
                self.merchant_id,
                reqs,
                failed@,
                i as int,
                self.charges.len() as int,
            );
        }
        (sum, unit)
    }

    /// What comes of the decision at position `i`.
    pub fn response_line(&self, failed: &Vec<usize>, i: usize) -> (r: RefundCompletionOlineRespDto)
        requires
            self.wf(),
            i < self.req.lines.len(),
        ensures
            r == response_line(
                self.lines(),
                self.merchant_id,
                self.req.lines@,
                failed@,
                i as int,
            ),
            r.settles() <= self.req.lines@[i as int].settles(),
            r.qty_approved <= self.req.lines@[i as int].qty_approved,
    {
        let q = &self.req.lines[i];
        let (approved, unit) = self.approved(failed, i);
        let amount_total = match unit {
            Some(u) => {
                assert(u.mantissa * approved <= u128::MAX) by (nonlinear_arith)
                    requires
                        u.mantissa <= 0xffff_ffff_ffff_ffff_ffff_ffff,
                        approved <= 0xffff_ffff,
                ;
                Decimal { mantissa: u.mantissa * (approved as u128), scale: u.scale }
            },
            None => Decimal { mantissa: 0, scale: 0 },
        };
        RefundCompletionOlineRespDto {
            product_type: q.product_type,
            product_id: q.product_id,
            time_issued: q.time_issued,
            qty_approved: approved,
            amount_total,
            qty_rej_damaged: q.qty_rej_damaged,
            qty_rej_fraud: q.qty_rej_fraud,
        }
    }
}

/// The total of a response does not depend on the lines that follow.
pub proof fn lemma_responded_total_push(
    lines: Seq<RefundCompletionOlineRespDto>,
    line: RefundCompletionOlineRespDto,
    upto: int,
)
    requires
        0 <= upto <= lines.len(),
    ensures
        responded_total(lines.push(line), upto) == responded_total(lines, upto),
    decreases upto,
{
    if upto > 0 {
        lemma_responded_total_push(lines, line, upto - 1);
    }
}

/// What is left of the returned lines never exceeds what could be
/// refunded at first, and once a decision asks for too much an error stays
/// reported.
pub proof fn lemma_left_after_bounded(
    lines: Seq<OLineRefundModel>,
    merchant_id: u32,
    reqs: Seq<RefundCompletionOlineReqDto>,
    upto: int,
)
    ensures
        left_after(lines, merchant_id, reqs, upto).len() == lines.len(),
        forall|k: int|
            0 <= k < lines.len() ==> #[trigger] left_after(lines, merchant_id, reqs, upto)[k]
                <= lines[k].qty,
    decreases upto,
{
    if upto > 0 {
        lemma_left_after_bounded(lines, merchant_id, reqs, upto - 1);
        let q = reqs[upto - 1];
        lemma_refund_position_bounds(lines, q.pid(merchant_id), q.time_issued);
    }
}

/// Where the resolution reports no error, each decision settles no more
/// units than can be refunded of its returned line.
pub proof fn lemma_resolved_within_refundable(
    lines: Seq<OLineRefundModel>,
    merchant_id: u32,
    reqs: Seq<RefundCompletionOlineReqDto>,
    i: int,
)
    requires
        0 <= i < reqs.len(),
        resolve_errors(lines, merchant_id, reqs, reqs.len() as int).len() == 0,
    ensures
        reqs[i].settles() <= left_for(lines, refundable(lines), merchant_id, reqs[i]),
{
    lemma_resolve_errors_monotonic(lines, merchant_id, reqs, i + 1, reqs.len() as int);
    lemma_left_after_bounded(lines, merchant_id, reqs, i);
    let q = reqs[i];
    lemma_refund_position_bounds(lines, q.pid(merchant_id), q.time_issued);
}

/// No response settles more units than the decisions asked to settle.
pub proof fn lemma_response_within_request(
    charges: Seq<Seq<ChargeLineBuyerModel>>,
    merchant_id: u32,
    reqs: Seq<RefundCompletionOlineReqDto>,
    failed: Seq<usize>,
    upto: int,
)
    requires
        0 <= upto <= reqs.len(),
    ensures
        responded_total(
            response_lines(charges, merchant_id, reqs, failed, upto),
            response_lines(charges, merchant_id, reqs, failed, upto).len() as int,
        ) <= requested_total(reqs, upto),
        response_lines(charges, merchant_id, reqs, failed, upto).len() <= upto,
    decreases upto,
{
    if upto > 0 {
        lemma_response_within_request(charges, merchant_id, reqs, failed, upto - 1);
        let before = response_lines(charges, merchant_id, reqs, failed, upto - 1);
        let line = response_line(charges, merchant_id, reqs, failed, upto - 1);
        lemma_approved_bounded(
            charges,
            merchant_id,
            reqs,
            failed,
            upto - 1,
            charges.len() as int,
        );
        if line.settles() > 0 {
            lemma_responded_total_push(before, line, before.len() as int);
        }
    }
}

/// The response never approves more than can be refunded of the returned
/// line that the decision is about, where the resolution reported no error.
pub proof fn lemma_response_within_refundable(
    lines: Seq<OLineRefundModel>,
    charges: Seq<Seq<ChargeLineBuyerModel>>,
    merchant_id: u32,
    reqs: Seq<RefundCompletionOlineReqDto>,
    failed: Seq<usize>,
    i: int,
)
    requires
        0 <= i < reqs.len(),
        resolve_errors(lines, merchant_id, reqs, reqs.len() as int).len() == 0,
    ensures
        response_line(charges, merchant_id, reqs, failed, i).qty_approved <= left_for(
            lines,
            refundable(lines),
            merchant_id,
            reqs[i],
        ),
        response_line(charges, merchant_id, reqs, failed, i).settles() <= left_for(
            lines,
            refundable(lines),
            merchant_id,
            reqs[i],
        ),
{
    lemma_approved_bounded(charges, merchant_id, reqs, failed, i, charges.len() as int);
    lemma_resolved_within_refundable(lines, merchant_id, reqs, i);
}

/// The completion of refunds, step by step.  Whoever runs it loads the
/// merchant, the refund request and the charges, asks the processor for
/// each pending charge, and stores what the settlement holds.
#[derive(Debug, Clone, Copy)]
pub struct FinalizeRefundUseCase;

impl FinalizeRefundUseCase {
    /// Admits staff of the merchant and nobody else.
    pub fn authorize(
        merchant_id: u32,
        staff_usr_id: u32,
        profile: Option<&MerchantProfileModel>,
    ) -> (r:Result<(), FinalizeRefundUcError>)
        ensures
            match profile {
                None => r == Err::<(), FinalizeRefundUcError>(
                    FinalizeRefundUcError::MerchantNotFound(merchant_id),
                ),
                Some(p) => if p.staff().contains(staff_usr_id) {
                    r is Ok
                } else {
                    r == Err::<(), FinalizeRefundUcError>(
                        FinalizeRefundUcError::PermissionDenied(staff_usr_id),
                    )
                },
            },
    {
        match profile {
            None => Err(FinalizeRefundUcError::MerchantNotFound(merchant_id)),
            Some(p) => if p.valid_staff(staff_usr_id) {
                Ok(())
            } else {
                Err(FinalizeRefundUcError::PermissionDenied(staff_usr_id))
            },
        }
    }

    /// Holds the decisions of staff against the refund request of the
    /// order and plans what to draw from which charge.
    ///
    /// Fails if the order has no refund request, then if it has no charge,
    /// then if a line of a charge breaks the invariant of charge lines, then
    /// if a decision asks for more than can be refunded; nothing is drawn in
    /// any of these cases.  Otherwise the approved units of each decision
    /// are drawn from the charges in the order in which they stand, which
    /// is that of their creation, and within a charge from the line of the
    /// product.
    #[verifier::loop_isolation(false)]
    pub fn plan(
        order_id: String,
        merchant_id: u32,
        refund_m: Option<OrderRefundModel>,
        charges: Vec<ChargeBuyerModel>,
        req: RefundCompletionReqDto,
    ) -> (r: Result<RefundPlan, FinalizeRefundUcError>)
        ensures
            match refund_m {
                None => r matches Err(FinalizeRefundUcError::MissingRefundReq(oid)) && oid@
                    == order_id@,
                Some(m) => if charges@.len() == 0 {
                    r matches Err(FinalizeRefundUcError::MissingChargeId(oid)) && oid@ == order_id@
                } else if !charges_wf(charges@) {
                    r matches Err(FinalizeRefundUcError::DataStore(e)) && e.fn_label
                        == AppRepoErrorFnLabel::FetchChargeByMerchant && e.code
                        == AppErrorCode::DataCorruption && e.detail is Unknown
                } else if resolve_errors(m.lines@, merchant_id, req.lines@, req.lines@.len() as int).len()
                    > 0 {
                    r matches Err(FinalizeRefundUcError::DataStore(e)) && e.fn_label
                        == AppRepoErrorFnLabel::ResolveRefundReq && e.code
                        == AppErrorCode::InvalidInput && (e.detail matches AppRepoErrorDetail::RefundResolution(
                        errors,
                    ) && errors@ == resolve_errors(
                        m.lines@,
                        merchant_id,
                        req.lines@,
                        req.lines@.len() as int,
                    ))
                } else {
                    r matches Ok(p) && p.wf() && p.order_id@ == order_id@ && p.merchant_id
                        == merchant_id && p.req == req && p.refund_m == m && p.charges == charges
                },
            },
    {
        let refund_m = match refund_m {
            Some(m) => m,
            None => {
                return Err(FinalizeRefundUcError::MissingRefundReq(order_id));
            },
        };
        if charges.len() == 0 {
            return Err(FinalizeRefundUcError::MissingChargeId(order_id));
        }
        let mut k: usize = 0;
        while k < charges.len()
            invariant
                k <= charges.len(),
                forall|c: int| 0 <= c < k ==> (#[trigger] charges@[c]).wf(),
            decreases charges.len() - k,
        {
            if !charges[k].is_wf() {
                return Err(
                    FinalizeRefundUcError::DataStore(
                        AppRepoError {
                            fn_label: AppRepoErrorFnLabel::FetchChargeByMerchant,
                            code: AppErrorCode::DataCorruption,
                            detail: AppRepoErrorDetail::Unknown,
                        },
                    ),
                );
            }
            k += 1;
        }
        match refund_m.validate(merchant_id, &req) {
            Ok(()) => {},
            Err(errors) => {
                return Err(
                    FinalizeRefundUcError::DataStore(
                        AppRepoError {
                            fn_label: AppRepoErrorFnLabel::ResolveRefundReq,
                            code: AppErrorCode::InvalidInput,
                            detail: AppRepoErrorDetail::RefundResolution(errors),
                        },
                    ),
                );
            },
        }
        let ghost lines = charge_lines(charges@);
        let ghost reqs = req.lines@;
        let n = req.lines.len();
        let mut need: Vec<u32> = Vec::new();
        let mut i: usize = 0;
        while i < n
            invariant
                i <= n == req.lines.len(),
                need@.len() == i,
                forall|k: int| 0 <= k < i ==> (#[trigger] need@[k]) == req.lines@[k].qty_approved,
            decreases n - i,
        {
            need.push(req.lines[i].qty_approved);
            i += 1;
        }
        let mut allocs: Vec<Vec<u32>> = Vec::new();
        let mut debits: Vec<Vec<u32>> = Vec::new();
        let mut c: usize = 0;
        while c < charges.len()
            invariant
                c <= charges.len(),
                n == req.lines.len(),
                lines == charge_lines(charges@),
                reqs == req.lines@,
                need@.len() == n,
                forall|k: int| 0 <= k < charges@.len() ==> (#[trigger] charges@[k]).wf(),
                nats(need@) == need_after(lines, merchant_id, reqs, c as int),
                allocs@.len() == c,
                debits@.len() == c,
                forall|k: int| 0 <= k < c ==> (#[trigger] allocs@[k])@.len() == n,
                forall|k: int|
                    0 <= k < c ==> (#[trigger] debits@[k])@.len() == charges@[k].lines@.len(),
                forall|k: int, j: int|
                    0 <= k < c && 0 <= j < n ==> (#[trigger] allocs@[k]@[j]) == drawn(
                        lines,
                        merchant_id,
                        reqs,
                        k,
                        j,
                    ),
                forall|k: int, l: int|
                    0 <= k < c && 0 <= l < charges@[k].lines@.len() ==> (
                    #[trigger] debits@[k]@[l]) == debit(lines, merchant_id, reqs, k, l),
            decreases charges.len() - c,
        {
            let (taken, drawn_from) = allocate_in_charge(
                &charges[c].lines,
                merchant_id,
                &req.lines,
                &mut need,
            );
            allocs.push(taken);
            debits.push(drawn_from);
            c += 1;
        }
        Ok(RefundPlan { order_id, merchant_id, req, refund_m, charges, allocs, debits })
    }

    /// Settles the plan once the processor was asked: `failed` holds the
    /// charges that it refused, by position, each with the reason.
    ///
    /// What was drawn from a refused charge is not refunded; what was drawn
    /// from the others is.  The response holds, for each decision, what was
    /// refunded of it and what it refused.  The refunds to book hold the
    /// lines of each charge that gave and was not refused, and the refund
    /// request is lowered by what each decision settled in the end.
    pub fn conclude(plan: RefundPlan, failed: Vec<(usize, AppProcessorErrorReason)>) -> (s:
        RefundSettlement)
        requires
            plan.wf(),
        ensures
            s.response.lines@ == response_lines(
                plan.lines(),
                plan.merchant_id,
                plan.req.lines@,
                failed_charges(failed@),
                plan.req.lines@.len() as int,
            ),
            s.errors_3party@ == processor_errors(
                plan.lines(),
                plan.merchant_id,
                plan.req.lines@,
                failed@,
                failed@.len() as int,
            ),
            refunds_view(s.charge_updates@) == charge_refunds(
                plan.charges@,
                plan.merchant_id,
                plan.req.lines@,
                failed_charges(failed@),
                plan.charges@.len() as int,
            ),
            forall|k: int, l: int|
                0 <= k < s.charge_updates@.len() && 0 <= l < s.charge_updates@[k].lines@.len() ==> (
                #[trigger] s.charge_updates@[k].lines@[l]).wf(),
            s.refund_m.order_id == plan.refund_m.order_id,
            s.refund_m.lines@.len() == plan.refund_m.lines@.len(),
            refundable(s.refund_m.lines@) == left_after_settling(
                plan.refund_m.lines@,
                plan.merchant_id,
                plan.req.lines@,
                settled_units(
                    plan.lines(),
                    plan.merchant_id,
                    plan.req.lines@,
                    failed_charges(failed@),
                ),
                plan.req.lines@.len() as int,
            ),
            responded_total(s.response.lines@, s.response.lines@.len() as int) <= requested_total(
                plan.req.lines@,
                plan.req.lines@.len() as int,
            ),
            forall|i: int|
                0 <= i < plan.req.lines@.len() ==> (#[trigger] response_line(
                    plan.lines(),
                    plan.merchant_id,
                    plan.req.lines@,
                    failed_charges(failed@),
                    i,
                )).qty_approved <= left_for(
                    plan.refund_m.lines@,
                    refundable(plan.refund_m.lines@),
                    plan.merchant_id,
                    plan.req.lines@[i],
                ),
    {
        let ghost lines = plan.lines();
        proof {
            assert forall|i: int| 0 <= i < plan.req.lines@.len() implies (#[trigger] response_line(
                plan.lines(),
                plan.merchant_id,
                plan.req.lines@,
                failed_charges(failed@),
                i,
            )).qty_approved <= left_for(
                plan.refund_m.lines@,
                refundable(plan.refund_m.lines@),
                plan.merchant_id,
                plan.req.lines@[i],
            ) by {
                lemma_response_within_refundable(
                    plan.refund_m.lines@,
                    plan.lines(),
                    plan.merchant_id,
                    plan.req.lines@,
                    failed_charges(failed@),
                    i,
                );
            }
        }
        let ghost reqs = plan.req.lines@;
        let ghost failed0 = failed@;
        let merchant_id = plan.merchant_id;
        let n = plan.req.lines.len();
        let mut failed = failed;
        let mut failed_idx: Vec<usize> = Vec::new();
        let mut k: usize = 0;
        while k < failed.len()
            invariant
                k <= failed.len(),
                failed@ == failed0,
                failed_idx@ == failed_charges(failed0.subrange(0, k as int)),
            decreases failed.len() - k,
        {
            failed_idx.push(failed[k].0);
            k += 1;
        }
        let ghost fidx = failed_charges(failed0);
        let mut resp: Vec<RefundCompletionOlineRespDto> = Vec::new();
        let mut units: Vec<u64> = Vec::new();
        let mut i: usize = 0;
        while i < n
            invariant
                i <= n == plan.req.lines.len(),
                plan.wf(),
                lines == plan.lines(),
                reqs == plan.req.lines@,
                merchant_id == plan.merchant_id,
                failed_idx@ == fidx,
                resp@ == response_lines(lines, merchant_id, reqs, fidx, i as int),
                units@.len() == i,
                forall|j: int|
                    0 <= j < i ==> (#[trigger] units@[j]) == reqs[j].refuses() + approved_of(
                        lines,
                        merchant_id,
                        reqs,
                        fidx,
                        j,
                        lines.len() as int,
                    ),
            decreases n - i,
        {
            let line = plan.response_line(&failed_idx, i);
            proof {
                lemma_approved_bounded(
                    lines,
                    merchant_id,
                    reqs,
                    fidx,
                    i as int,
                    lines.len() as int,
                );
            }
            let settled: u64 = line.qty_approved as u64 + line.qty_rej_damaged as u64
                + line.qty_rej_fraud as u64;
            units.push(settled);
            if settled > 0 {
                resp.push(line);
            }
            i += 1;
        }
        proof {
            lemma_response_within_request(lines, merchant_id, reqs, fidx, n as int);
        }
        let mut updates: Vec<ChargeRefundUpdate> = Vec::new();
        let mut c: usize = 0;
        while c < plan.charges.len()
            invariant
                c <= plan.charges.len(),
                plan.wf(),
                lines == plan.lines(),
                reqs == plan.req.lines@,
                merchant_id == plan.merchant_id,
                failed_idx@ == fidx,
                refunds_view(updates@) == charge_refunds(
                    plan.charges@,
                    merchant_id,
                    reqs,
                    fidx,
                    c as int,
                ),
                forall|a: int, l: int|
                    0 <= a < updates@.len() && 0 <= l < updates@[a].lines@.len() ==> (
                    #[trigger] updates@[a].lines@[l]).wf(),
            decreases plan.charges.len() - c,
        {
            if plan.charge_is_pending(c) && !is_failed(&failed_idx, c) {
                let new_lines = plan.refunded_lines(c);
                let update = ChargeRefundUpdate {
                    owner: plan.charges[c].meta.owner,
                    create_time: plan.charges[c].meta.create_time,
                    lines: new_lines,
                };
                updates.push(update);
            }
            c += 1;
        }
        let mut errors: Vec<AppProcessorError> = Vec::new();
        let ghost total = failed0.len();
        let mut done: usize = 0;
        while failed.len() > 0
            invariant
                plan.wf(),
                lines == plan.lines(),
                reqs == plan.req.lines@,
                merchant_id == plan.merchant_id,
                done + failed@.len() == total,
                total == failed0.len(),
                total <= usize::MAX,
                failed@ == failed0.subrange(done as int, total as int),
                errors@ == processor_errors(lines, merchant_id, reqs, failed0, done as int),
            decreases failed.len(),
        {
            let (at, reason) = failed.remove(0);
            if at < plan.charges.len() {
                if plan.charge_is_pending(at) {
                    errors.push(AppProcessorError { reason });
                }
            }
            done += 1;
        }
        let RefundPlan { order_id: _, merchant_id: _, req, refund_m, charges: _, allocs: _, debits: _ } =
            plan;
        let mut refund_m = refund_m;
        refund_m.settle(merchant_id, &req, &units);
        proof {
            assert(Seq::new(units@.len(), |i: int| units@[i] as nat) =~= settled_units(
                lines,
                merchant_id,
                reqs,
                fidx,
            ));
        }
        RefundSettlement {
            response: RefundCompletionRespDto { lines: resp },
            errors_3party: errors,
            charge_updates: updates,
            refund_m,
        }
    }

    /// What follows once the refunds of the charges were stored: the
    /// refund request is stored next; a failure of the repository ends the
    /// completion with its error.
    pub fn charges_saved(saved: Result<(), AppRepoError>) -> (r: Result<(), FinalizeRefundUcError>)
        ensures
            match saved {
                Ok(_) => r is Ok,
                Err(e) => r == Err::<(), FinalizeRefundUcError>(FinalizeRefundUcError::DataStore(e)),
            },
    {
        match saved {
            Ok(_) => Ok(()),
            Err(e) => Err(FinalizeRefundUcError::DataStore(e)),
        }
    }

    /// What the completion of a refund comes to once the refund request
    /// was stored: the response and the errors of the processor, or the
    /// error of the repository.
    pub fn finish(settlement: RefundSettlement, saved_refund: Result<(), AppRepoError>) -> (r:
        Result<(RefundCompletionRespDto, Vec<AppProcessorError>), FinalizeRefundUcError>)
        ensures
            match saved_refund {
                Err(e) => r == Err::<
                    (RefundCompletionRespDto, Vec<AppProcessorError>),
                    FinalizeRefundUcError,
                >(FinalizeRefundUcError::DataStore(e)),
                Ok(_) => r == Ok::<
                    (RefundCompletionRespDto, Vec<AppProcessorError>),
                    FinalizeRefundUcError,
                >((settlement.response, settlement.errors_3party)),
            },
    {
        match saved_refund {
            Err(e) => Err(FinalizeRefundUcError::DataStore(e)),
            Ok(_) => Ok((settlement.response, settlement.errors_3party)),
        }
    }
}

/// The first `upto` numbers of a sequence, added up.
pub open spec fn total_of(s: Seq<nat>, upto: int) -> nat
    decreases upto,
{
    if upto <= 0 {
        0
    } else {
        total_of(s, upto - 1) + s[upto - 1]
    }
}

/// What a charge gives to the first `upto` decisions, added up.
pub open spec fn taken_total(
    lines: Seq<ChargeLineBuyerModel>,
    merchant_id: u32,
    reqs: Seq<RefundCompletionOlineReqDto>,
    need: Seq<nat>,
    upto: int,
) -> nat
    decreases upto,
{
    if upto <= 0 {
        0
    } else {
        taken_total(lines, merchant_id, reqs, need, upto - 1) + taken_in_charge(
            lines,
            merchant_id,
            reqs,
            need,
            upto - 1,
        )
    }
}

/// Lowering one number of a sequence lowers the total by as much.
pub proof fn lemma_total_of_update(s: Seq<nat>, at: int, v: nat, upto: int)
    requires
        0 <= at < s.len(),
        0 <= upto <= s.len(),
    ensures
        total_of(s.update(at, v), upto) == if at < upto {
            total_of(s, upto) - s[at] + v
        } else {
            total_of(s, upto) as int
        },
    decreases upto,
{
    if upto > 0 {
        lemma_total_of_update(s, at, v, upto - 1);
    }
}

/// Nothing is lost within a charge: what it gives to the decisions and
/// what its lines can still give afterwards add up to what its lines could
/// give before.
pub proof fn lemma_charge_gives_what_is_drawn(
    lines: Seq<ChargeLineBuyerModel>,
    merchant_id: u32,
    reqs: Seq<RefundCompletionOlineReqDto>,
    need: Seq<nat>,
    upto: int,
)
    requires
        0 <= upto,
    ensures
        taken_total(lines, merchant_id, reqs, need, upto) + total_of(
            left_in_charge(lines, merchant_id, reqs, need, upto),
            lines.len() as int,
        ) == total_of(remainders(lines), lines.len() as int),
    decreases upto,
{
    if upto > 0 {
        lemma_charge_gives_what_is_drawn(lines, merchant_id, reqs, need, upto - 1);
        lemma_left_in_charge(lines, merchant_id, reqs, need, upto - 1);
        let before = left_in_charge(lines, merchant_id, reqs, need, upto - 1);
        let q = reqs[upto - 1];
        let at = charge_line_position(lines, q.pid(merchant_id));
        lemma_charge_line_position_bounds(lines, q.pid(merchant_id));
        if at < before.len() {
            let took = take_from(lines, before, merchant_id, q, need[upto - 1]);
            lemma_total_of_update(before, at, (before[at] - took) as nat, lines.len() as int);
        }
    }
}

/// Charge invariant under completion: the lines that are booked for a
/// charge keep the invariant of charge lines, whatever was decided.
pub proof fn lemma_refunded_lines_wf(
    charges: Seq<Seq<ChargeLineBuyerModel>>,
    merchant_id: u32,
    reqs: Seq<RefundCompletionOlineReqDto>,
    c: int,
)
    requires
        0 <= c < charges.len(),
        forall|l: int| 0 <= l < charges[c].len() ==> (#[trigger] charges[c][l]).wf(),
    ensures
        forall|l: int|
            0 <= l < charges[c].len() ==> (#[trigger] refunded_lines(
                charges,
                merchant_id,
                reqs,
                c,
            )[l]).wf() && refunded_lines(charges, merchant_id, reqs, c)[l].refunded.qty
                + refunded_lines(charges, merchant_id, reqs, c)[l].rejected.qty_damaged
                + refunded_lines(charges, merchant_id, reqs, c)[l].rejected.qty_fraud
                <= refunded_lines(charges, merchant_id, reqs, c)[l].amount.qty,
{
    let need = need_after(charges, merchant_id, reqs, c);
    lemma_left_in_charge(charges[c], merchant_id, reqs, need, reqs.len() as int);
    let after = refunded_lines(charges, merchant_id, reqs, c);
    assert forall|l: int| 0 <= l < charges[c].len() implies (#[trigger] after[l]).wf()
        && after[l].refunded.qty + after[l].rejected.qty_damaged + after[l].rejected.qty_fraud
        <= after[l].amount.qty by {
        crate::model::charge::lemma_with_refund_keeps_invariant(
            charges[c][l],
            debit(charges, merchant_id, reqs, c, l),
        );
    }
}

} // verus!
