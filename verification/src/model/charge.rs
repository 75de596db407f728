//! Charges: what a buyer paid, or set out to pay, for the lines of an
//! order, and what of it was refunded since.

use crate::model::money::Decimal;
use crate::model::order::BaseProductIdentity;
use crate::time::Timestamp;
use vstd::prelude::*;

verus! {

/// Where a pay-in stands.
#[derive(Debug, Clone, Copy, PartialEq, Eq, Structural)]
pub enum BuyerPayInState {
    Initialized,
    ProcessorAccepted(Timestamp),
    ProcessorCompleted(Timestamp),
    OrderAppSynced(Timestamp),
    OrderAppExpired,
    Unknown,
}

impl BuyerPayInState {
    /// Whether a pay-in in this state may move to `next`.  A pay-in starts
    /// initialised, is synchronised with the order service, accepted and
    /// then completed by the processor, and ends expired or synchronised
    /// again.  Any state but `Unknown` may fail into `Unknown`, which no
    /// pay-in leaves.
    pub open spec fn may_become(self, next: BuyerPayInState) -> bool {
        match (self, next) {
            (BuyerPayInState::Unknown, _) => false,
            (_, BuyerPayInState::Unknown) => true,
            (BuyerPayInState::Initialized, BuyerPayInState::OrderAppSynced(_)) => true,
            (BuyerPayInState::OrderAppSynced(_), BuyerPayInState::ProcessorAccepted(_)) => true,
            (BuyerPayInState::ProcessorAccepted(_), BuyerPayInState::ProcessorCompleted(_)) => true,
            (BuyerPayInState::ProcessorCompleted(_), BuyerPayInState::OrderAppExpired) => true,
            (BuyerPayInState::ProcessorCompleted(_), BuyerPayInState::OrderAppSynced(_)) => true,
            _ => false,
        }
    }

    /// Whether a pay-in in this state may move to `next`.
    pub fn can_become(&self, next: &BuyerPayInState) -> (r: bool)
        ensures
            r == self.may_become(*next),
    {
        match (self, next) {
            (BuyerPayInState::Unknown, _) => false,
            (_, BuyerPayInState::Unknown) => true,
            (BuyerPayInState::Initialized, BuyerPayInState::OrderAppSynced(_)) => true,
            (BuyerPayInState::OrderAppSynced(_), BuyerPayInState::ProcessorAccepted(_)) => true,
            (BuyerPayInState::ProcessorAccepted(_), BuyerPayInState::ProcessorCompleted(_)) => true,
            (BuyerPayInState::ProcessorCompleted(_), BuyerPayInState::OrderAppExpired) => true,
            (BuyerPayInState::ProcessorCompleted(_), BuyerPayInState::OrderAppSynced(_)) => true,
            _ => false,
        }
    }
}

/// Which payment processor holds a charge.
#[derive(Debug, Clone, Copy, PartialEq, Eq, Structural)]
pub enum Charge3partyModel {
    Stripe,
    Unknown,
}

/// Currencies that an order can be paid in.
#[derive(Debug, Clone, Copy, PartialEq, Eq, Hash, Structural)]
pub enum CurrencyDto {
    INR,
    IDR,
    THB,
    TWD,
    USD,
    Unknown,
}

/// The currency of one party of an order and its rate, as they were when
/// the order was charged.
#[derive(Debug, Clone, Copy, PartialEq, Eq, Structural)]
pub struct OrderCurrencySnapshot {
    pub label: CurrencyDto,
    pub rate: Decimal,
}

/// What was charged for a line: unit price, total, quantity.
#[derive(Debug, Clone, Copy, PartialEq, Eq, Structural)]
pub struct PayLineAmountModel {
    pub unit: Decimal,
    pub total: Decimal,
    pub qty: u32,
}

/// What was refunded of a line.
#[derive(Debug, Clone, Copy, PartialEq, Eq, Structural)]
pub struct ChargeLineRefunded {
    pub total: Decimal,
    pub qty: u32,
}

/// What was refused a refund, by reason.
#[derive(Debug, Clone, Copy, PartialEq, Eq, Structural)]
pub struct ChargeLineRejected {
    pub qty_damaged: u32,
    pub qty_fraud: u32,
}

/// One line of a charge.
#[derive(Debug, Clone, Copy, PartialEq, Eq, Structural)]
pub struct ChargeLineBuyerModel {
    pub pid: BaseProductIdentity,
    pub amount: PayLineAmountModel,
    pub refunded: ChargeLineRefunded,
    pub rejected: ChargeLineRejected,
}

/// The largest mantissa of an amount on a charge line.
pub open spec fn max_amount() -> nat {
    0xffff_ffff_ffff_ffff_ffff_ffff
}

impl ChargeLineBuyerModel {
    /// Units that were neither refunded nor refused.
    pub open spec fn settled(self) -> nat {
        self.refunded.qty as nat + self.rejected.qty_damaged as nat
            + self.rejected.qty_fraud as nat
    }

    /// The invariant of charge lines.  What was refunded and what was
    /// refused is at most what was charged, in quantity; the refunded total
    /// is at most the charged total.  All amounts have one scale, the total
    /// is the unit price times the quantity, and no more than the unit
    /// price was refunded for a unit.
    pub open spec fn wf(self) -> bool {
        &&& self.settled() <= self.amount.qty
        &&& self.refunded.total.mantissa <= self.amount.total.mantissa
        &&& self.amount.unit.scale == self.amount.total.scale
        &&& self.refunded.total.scale == self.amount.total.scale
        &&& self.amount.total.mantissa == self.amount.unit.times(self.amount.qty as nat)
        &&& self.amount.total.mantissa <= max_amount()
        &&& self.refunded.total.mantissa <= self.amount.unit.times(self.refunded.qty as nat)
    }

    /// Units that can still be refunded.
    pub open spec fn remainder(self) -> nat {
        (self.amount.qty - self.settled()) as nat
    }

    /// This line after `n` more units are refunded at the unit price.
    pub open spec fn with_refund(self, n: nat) -> ChargeLineBuyerModel {
        ChargeLineBuyerModel {
            refunded: ChargeLineRefunded {
                qty: (self.refunded.qty + n) as u32,
                total: Decimal {
                    mantissa: (self.refunded.total.mantissa + self.amount.unit.times(n)) as u128,
                    scale: self.refunded.total.scale,
                },
            },
            ..self
        }
    }

    /// Tests the invariant of charge lines.
    pub fn is_wf(&self) -> (r: bool)
        ensures
            r == self.wf(),
    {
        let settled: u64 = self.refunded.qty as u64 + self.rejected.qty_damaged as u64
            + self.rejected.qty_fraud as u64;
        if settled > self.amount.qty as u64 {
            return false;
        }
        if self.amount.unit.scale != self.amount.total.scale || self.refunded.total.scale
            != self.amount.total.scale {
            return false;
        }
        if self.refunded.total.mantissa > self.amount.total.mantissa {
            return false;
        }
        if self.amount.total.mantissa > 0xffff_ffff_ffff_ffff_ffff_ffff {
            return false;
        }
        match self.amount.unit.mul_qty(self.amount.qty) {
            Some(t) => {
                if t.mantissa != self.amount.total.mantissa {
                    return false;
                }
            },
            None => {
                return false;
            },
        }
        proof {
            lemma_times_monotonic(
                self.amount.unit,
                self.refunded.qty as nat,
                self.amount.qty as nat,
            );
        }
        match self.amount.unit.mul_qty(self.refunded.qty) {
            Some(t) => self.refunded.total.mantissa <= t.mantissa,
            None => false,
        }
    }

    /// Units that can still be refunded.
    pub fn num_remain(&self) -> (r: u32)
        requires
            self.wf(),
        ensures
            r == self.remainder(),
    {
        self.amount.qty - self.refunded.qty - self.rejected.qty_damaged - self.rejected.qty_fraud
    }

    /// Books the refund of `n` more units at the unit price.
    pub fn apply_refund(&mut self, n: u32)
        requires
            old(self).wf(),
            n <= old(self).remainder(),
        ensures
            *final(self) == old(self).with_refund(n as nat),
            final(self).wf(),
    {
        proof {
            lemma_with_refund_keeps_invariant(*self, n as nat);
            lemma_times_monotonic(self.amount.unit, n as nat, self.amount.qty as nat);
        }
        let add = self.amount.unit.mantissa * (n as u128);
        self.refunded.qty = self.refunded.qty + n;
        self.refunded.total.mantissa = self.refunded.total.mantissa + add;
    }
}

/// More units cost at least as much.
pub proof fn lemma_times_monotonic(unit: Decimal, a: nat, b: nat)
    requires
        a <= b,
    ensures
        unit.times(a) <= unit.times(b),
{
    assert(unit.mantissa as nat * a <= unit.mantissa as nat * b) by (nonlinear_arith)
        requires
            a <= b,
    ;
}

/// Charge invariant under refund: refunding no more units than remain, at
/// the unit price, keeps quantities and totals within what was charged.
pub proof fn lemma_with_refund_keeps_invariant(line: ChargeLineBuyerModel, n: nat)
    requires
        line.wf(),
        n <= line.remainder(),
    ensures
        line.with_refund(n).wf(),
        line.with_refund(n).settled() == line.settled() + n,
        line.with_refund(n).remainder() == line.remainder() - n,
        line.with_refund(n).refunded.qty + line.with_refund(n).rejected.qty_damaged
            + line.with_refund(n).rejected.qty_fraud <= line.with_refund(n).amount.qty,
        line.with_refund(n).refunded.total.mantissa <= line.with_refund(n).amount.total.mantissa,
{
    let u = line.amount.unit.mantissa as nat;
    let q = line.refunded.qty as nat;
    let total = line.amount.qty as nat;
    assert(u * (q + n) == u * q + u * n) by (nonlinear_arith);
    assert(u * (q + n) <= u * total) by (nonlinear_arith)
        requires
            q + n <= total,
    ;
}

/// What identifies a charge and says where it stands.
#[derive(Debug, Clone)]
pub struct ChargeBuyerMetaModel {
    pub owner: u32,
    pub create_time: Timestamp,
    pub order_id: String,
    pub state: BuyerPayInState,
    pub method: Charge3partyModel,
}

/// A charge with its lines.
#[derive(Debug, Clone)]
pub struct ChargeBuyerModel {
    pub meta: ChargeBuyerMetaModel,
    pub lines: Vec<ChargeLineBuyerModel>,
    pub currency_snapshot: Vec<(u32, OrderCurrencySnapshot)>,
}

impl ChargeBuyerModel {
    /// Whether every line keeps the invariant of charge lines.
    pub open spec fn wf(&self) -> bool {
        forall|i: int| 0 <= i < self.lines@.len() ==> (#[trigger] self.lines@[i]).wf()
    }

    /// Tests whether every line keeps the invariant of charge lines.
    pub fn is_wf(&self) -> (r: bool)
        ensures
            r == self.wf(),
    {
        let mut i: usize = 0;
        while i < self.lines.len()
            invariant
                i <= self.lines.len(),
                forall|k: int| 0 <= k < i ==> (#[trigger] self.lines@[k]).wf(),
            decreases self.lines.len() - i,
        {
            if !self.lines[i].is_wf() {
                return false;
            }
            i += 1;
        }
        true
    }
}

} // verus!
