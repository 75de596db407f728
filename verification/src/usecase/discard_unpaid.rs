//! The sweep of unpaid order lines: lines whose reservation ran out are
//! cancelled and what they reserved goes back to stock.

use crate::error::{AppError, AppErrorCode};
use crate::model::order::{BaseProductIdentity, OrderLineModel, OrderLineModelSet};
use crate::model::stock::{StockLevelReturnDto, StockReturnError, StockReturnItem};
use vstd::prelude::*;

verus! {

/// Units of a line that were reserved and not paid.
pub open spec fn unpaid(line: OrderLineModel) -> nat {
    if line.qty.paid <= line.qty.reserved {
        (line.qty.reserved - line.qty.paid) as nat
    } else {
        0
    }
}

/// What the lines of an order give back to stock: for each line, what of
/// it was reserved and not paid.
pub open spec fn items_to_return(lines: Seq<OrderLineModel>) -> Seq<StockReturnItem> {
    Seq::new(
        lines.len(),
        |i: int| StockReturnItem { pid: lines[i].id_, qty: unpaid(lines[i]) as u32 },
    )
}

/// The products of the lines of an order.
pub open spec fn line_ids(lines: Seq<OrderLineModel>) -> Seq<BaseProductIdentity> {
    Seq::new(lines.len(), |i: int| lines[i].id_)
}

/// The first error among results, if any failed.
pub open spec fn first_error(results: Seq<Result<(), AppError>>) -> Option<AppError>
    decreases results.len(),
{
    if results.len() == 0 {
        None
    } else {
        match results[0] {
            Err(e) => Some(e),
            Ok(_) => first_error(results.drop_first()),
        }
    }
}

/// The use case of discarding unpaid order lines.
#[derive(Debug, Clone, Copy)]
pub struct OrderDiscardUnpaidItemsUseCase;

impl OrderDiscardUnpaidItemsUseCase {
    /// What the lines of an order give back to stock.
    pub fn stock_return_of(set: &OrderLineModelSet) -> (r: StockLevelReturnDto)
        ensures
            r.order_id@ == set.order_id@,
            r.items@ == items_to_return(set.lines@),
    {
        let mut items: Vec<StockReturnItem> = Vec::new();
        let mut i: usize = 0;
        while i < set.lines.len()
            invariant
                i <= set.lines.len(),
                items@ == items_to_return(set.lines@.subrange(0, i as int)),
            decreases set.lines.len() - i,
        {
            let line = &set.lines[i];
            let qty = if line.qty.paid <= line.qty.reserved {
                line.qty.reserved - line.qty.paid
            } else {
                0
            };
            items.push(StockReturnItem { pid: line.id_, qty });
            i += 1;
        }
        StockLevelReturnDto { order_id: set.order_id.clone(), items }
    }

    /// The lines of an order to mark as cancelled.
    pub fn lines_to_cancel(set: &OrderLineModelSet) -> (r: Vec<BaseProductIdentity>)
        ensures
            r@ == line_ids(set.lines@),
    {
        let mut ids: Vec<BaseProductIdentity> = Vec::new();
        let mut i: usize = 0;
        while i < set.lines.len()
            invariant
                i <= set.lines.len(),
                ids@ == line_ids(set.lines@.subrange(0, i as int)),
            decreases set.lines.len() - i,
        {
            ids.push(set.lines[i].id_);
            i += 1;
        }
        ids
    }

    /// What a return to stock came to: the error of the repository, if it
    /// failed; corrupt data, if it refused any item; success otherwise.
    pub fn stock_outcome(returned: Result<Vec<StockReturnError>, AppError>) -> (r: Result<
        (),
        AppError,
    >)
        ensures
            match returned {
                Err(e) => r == Err::<(), AppError>(e),
                Ok(refused) => if refused@.len() == 0 {
                    r is Ok
                } else {
                    r matches Err(e) && e.code == AppErrorCode::DataCorruption && e.detail is None
                },
            },
    {
        match returned {
            Err(e) => Err(e),
            Ok(refused) => if refused.len() == 0 {
                Ok(())
            } else {
                Err(AppError::bare(AppErrorCode::DataCorruption))
            },
        }
    }

    /// What the sweep came to, once every order was tried: the first error
    /// of the returns to stock, if any failed; else the first error of the
    /// cancellations, if any failed; else success.
    pub fn conclude(
        stock_results: Vec<Result<(), AppError>>,
        cancel_results: Vec<Result<(), AppError>>,
    ) -> (r: Result<(), AppError>)
        ensures
            match (first_error(stock_results@), first_error(cancel_results@)) {
                (Some(e), _) => r == Err::<(), AppError>(e),
                (None, Some(e)) => r == Err::<(), AppError>(e),
                (None, None) => r is Ok,
            },
    {
        match take_first_error(stock_results) {
            Some(e) => Err(e),
            None => match take_first_error(cancel_results) {
                Some(e) => Err(e),
                None => Ok(()),
            },
        }
    }
}

fn take_first_error(results: Vec<Result<(), AppError>>) -> (r: Option<AppError>)
    ensures
        r == first_error(results@),
{
    let mut rest = results;
    while rest.len() > 0
        invariant
            first_error(rest@) == first_error(results@),
        decreases rest.len(),
    {
        let head = rest.remove(0);
        match head {
            Err(e) => {
                return Some(e);
            },
            Ok(_) => {},
        }
    }
    None
}

} // verus!
