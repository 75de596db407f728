//! Laws of reservation: a request takes from the buckets of its product,
//! in all, what it asks for or what there is.

use crate::constant::ProductType;
use crate::time::Timestamp;
use crate::model::order::OrderLineModel;
use crate::model::stock::{
    avail_before, avail_total, drawn_before, held_total, lemma_reserve_keeps_invariant,
    lemma_return_keeps_invariant, line_give, line_take, set_after_lines, set_after_returns,
    stock_set_wf, store_position, ProductStock, StockReturnItem, StoreStock,
};
use vstd::prelude::*;

verus! {

/// What a request for `need` units takes from the first `upto` buckets,
/// added up.
pub open spec fn take_total(
    ps: Seq<ProductStock>,
    type_: ProductType,
    id_: u64,
    now: Timestamp,
    need: nat,
    upto: int,
) -> nat
    decreases upto,
{
    if upto <= 0 {
        0
    } else {
        take_total(ps, type_, id_, now, need, upto - 1) + line_take(ps, type_, id_, now, need, upto - 1)
    }
}

/// Whether bucket `i` is among the buckets looked at and holds the product.
pub open spec fn counts(
    ps: Seq<ProductStock>,
    among: Seq<bool>,
    type_: ProductType,
    id_: u64,
    now: Timestamp,
    i: int,
) -> bool {
    among[i] && ps[i].serves(type_, id_, now)
}

/// How many of the first `upto` buckets are looked at and hold the
/// product.
pub open spec fn count_among(
    ps: Seq<ProductStock>,
    among: Seq<bool>,
    type_: ProductType,
    id_: u64,
    now: Timestamp,
    upto: int,
) -> nat
    decreases upto,
{
    if upto <= 0 {
        0
    } else {
        count_among(ps, among, type_, id_, now, upto - 1) + if counts(ps, among, type_, id_, now, upto - 1) {
            1nat
        } else {
            0nat
        }
    }
}

/// What can be reserved in the buckets among the first `upto` that are
/// looked at, hold the product and are drawn from before bucket `j`.
pub open spec fn before_among(
    ps: Seq<ProductStock>,
    among: Seq<bool>,
    type_: ProductType,
    id_: u64,
    now: Timestamp,
    j: int,
    upto: int,
) -> nat
    decreases upto,
{
    if upto <= 0 {
        0
    } else {
        before_among(ps, among, type_, id_, now, j, upto - 1) + if counts(
            ps,
            among,
            type_,
            id_,
            now,
            upto - 1,
        ) && drawn_before(ps, upto - 1, j) {
            ps[upto - 1].quantity.avail()
        } else {
            0
        }
    }
}

/// What can be reserved in the buckets among the first `upto` that are
/// looked at and hold the product.
pub open spec fn total_among(
    ps: Seq<ProductStock>,
    among: Seq<bool>,
    type_: ProductType,
    id_: u64,
    now: Timestamp,
    upto: int,
) -> nat
    decreases upto,
{
    if upto <= 0 {
        0
    } else {
        total_among(ps, among, type_, id_, now, upto - 1) + if counts(ps, among, type_, id_, now, upto - 1) {
            ps[upto - 1].quantity.avail()
        } else {
            0
        }
    }
}

/// What the request takes from bucket `j` where only the buckets looked at
/// are drawn from.
pub open spec fn take_among(
    ps: Seq<ProductStock>,
    among: Seq<bool>,
    type_: ProductType,
    id_: u64,
    now: Timestamp,
    need: nat,
    j: int,
) -> nat {
    let before = before_among(ps, among, type_, id_, now, j, ps.len() as int);
    let here = ps[j].quantity.avail();
    if !counts(ps, among, type_, id_, now, j) || need <= before {
        0
    } else if need - before <= here {
        (need - before) as nat
    } else {
        here
    }
}

/// What the request takes from the first `upto` buckets where only the
/// buckets looked at are drawn from, added up.
pub open spec fn take_total_among(
    ps: Seq<ProductStock>,
    among: Seq<bool>,
    type_: ProductType,
    id_: u64,
    now: Timestamp,
    need: nat,
    upto: int,
) -> nat
    decreases upto,
{
    if upto <= 0 {
        0
    } else {
        take_total_among(ps, among, type_, id_, now, need, upto - 1) + take_among(
            ps,
            among,
            type_,
            id_,
            now,
            need,
            upto - 1,
        )
    }
}

/// The bucket that is drawn from last among the first `upto` that are
/// looked at and hold the product; `-1` if there is none.
pub open spec fn last_among(
    ps: Seq<ProductStock>,
    among: Seq<bool>,
    type_: ProductType,
    id_: u64,
    now: Timestamp,
    upto: int,
) -> int
    decreases upto,
{
    if upto <= 0 {
        -1
    } else {
        let prev = last_among(ps, among, type_, id_, now, upto - 1);
        if counts(ps, among, type_, id_, now, upto - 1) && (prev == -1 || drawn_before(
            ps,
            prev,
            upto - 1,
        )) {
            upto - 1
        } else {
            prev
        }
    }
}

proof fn lemma_last_among(
    ps: Seq<ProductStock>,
    among: Seq<bool>,
    type_: ProductType,
    id_: u64,
    now: Timestamp,
    upto: int,
)
    requires
        0 <= upto <= ps.len(),
        among.len() == ps.len(),
    ensures
        -1 <= last_among(ps, among, type_, id_, now, upto) < upto,
        last_among(ps, among, type_, id_, now, upto) == -1 ==> forall|i: int|
            0 <= i < upto ==> !#[trigger] counts(ps, among, type_, id_, now, i),
        last_among(ps, among, type_, id_, now, upto) != -1 ==> counts(
            ps,
            among,
            type_,
            id_,
            now,
            last_among(ps, among, type_, id_, now, upto),
        ),
        forall|i: int|
            0 <= i < upto && #[trigger] counts(ps, among, type_, id_, now, i) && i != last_among(
                ps,
                among,
                type_,
                id_,
                now,
                upto,
            ) ==> drawn_before(ps, i, last_among(ps, among, type_, id_, now, upto)) && !drawn_before(
                ps,
                last_among(ps, among, type_, id_, now, upto),
                i,
            ),
    decreases upto,
{
    if upto > 0 {
        lemma_last_among(ps, among, type_, id_, now, upto - 1);
    }
}

proof fn lemma_without_one(
    ps: Seq<ProductStock>,
    among: Seq<bool>,
    type_: ProductType,
    id_: u64,
    now: Timestamp,
    m: int,
    j: int,
    upto: int,
)
    requires
        0 <= upto <= ps.len(),
        among.len() == ps.len(),
        0 <= m < ps.len(),
        counts(ps, among, type_, id_, now, m),
    ensures
        count_among(ps, among.update(m, false), type_, id_, now, upto) == count_among(
            ps,
            among,
            type_,
            id_,
            now,
            upto,
        ) - if m < upto {
            1int
        } else {
            0int
        },
        total_among(ps, among.update(m, false), type_, id_, now, upto) == total_among(
            ps,
            among,
            type_,
            id_,
            now,
            upto,
        ) - if m < upto {
            ps[m].quantity.avail() as int
        } else {
            0int
        },
        before_among(ps, among.update(m, false), type_, id_, now, j, upto) == before_among(
            ps,
            among,
            type_,
            id_,
            now,
            j,
            upto,
        ) - if m < upto && drawn_before(ps, m, j) {
            ps[m].quantity.avail() as int
        } else {
            0int
        },
    decreases upto,
{
    if upto > 0 {
        lemma_without_one(ps, among, type_, id_, now, m, j, upto - 1);
    }
}

proof fn lemma_before_last_is_rest(
    ps: Seq<ProductStock>,
    among: Seq<bool>,
    type_: ProductType,
    id_: u64,
    now: Timestamp,
    m: int,
    upto: int,
)
    requires
        0 <= upto <= ps.len(),
        among.len() == ps.len(),
        0 <= m < ps.len(),
        forall|i: int|
            0 <= i < ps.len() && #[trigger] counts(ps, among, type_, id_, now, i) && i
                != m ==> drawn_before(ps, i, m),
    ensures
        before_among(ps, among, type_, id_, now, m, upto) == total_among(
            ps,
            among.update(m, false),
            type_,
            id_,
            now,
            upto,
        ),
    decreases upto,
{
    if upto > 0 {
        lemma_before_last_is_rest(ps, among, type_, id_, now, m, upto - 1);
    }
}

proof fn lemma_takes_without_last(
    ps: Seq<ProductStock>,
    among: Seq<bool>,
    type_: ProductType,
    id_: u64,
    now: Timestamp,
    need: nat,
    m: int,
    upto: int,
)
    requires
        0 <= upto <= ps.len(),
        among.len() == ps.len(),
        0 <= m < ps.len(),
        counts(ps, among, type_, id_, now, m),
        forall|i: int|
            0 <= i < ps.len() && #[trigger] counts(ps, among, type_, id_, now, i) && i
                != m ==> !drawn_before(ps, m, i),
    ensures
        take_total_among(ps, among, type_, id_, now, need, upto) == take_total_among(
            ps,
            among.update(m, false),
            type_,
            id_,
            now,
            need,
            upto,
        ) + if m < upto {
            take_among(ps, among, type_, id_, now, need, m)
        } else {
            0
        },
    decreases upto,
{
    if upto > 0 {
        lemma_takes_without_last(ps, among, type_, id_, now, need, m, upto - 1);
        let j = upto - 1;
        if j != m {
            lemma_without_one(ps, among, type_, id_, now, m, j, ps.len() as int);
            if counts(ps, among, type_, id_, now, j) {
                assert(!drawn_before(ps, m, j));
            }
        }
    }
}

proof fn lemma_nothing_among_none(
    ps: Seq<ProductStock>,
    among: Seq<bool>,
    type_: ProductType,
    id_: u64,
    now: Timestamp,
    need: nat,
    upto: int,
)
    requires
        0 <= upto <= ps.len(),
        among.len() == ps.len(),
        forall|i: int| 0 <= i < ps.len() ==> !#[trigger] counts(ps, among, type_, id_, now, i),
    ensures
        count_among(ps, among, type_, id_, now, upto) == 0,
        total_among(ps, among, type_, id_, now, upto) == 0,
        take_total_among(ps, among, type_, id_, now, need, upto) == 0,
    decreases upto,
{
    if upto > 0 {
        lemma_nothing_among_none(ps, among, type_, id_, now, need, upto - 1);
    }
}

proof fn lemma_takes_among(
    ps: Seq<ProductStock>,
    among: Seq<bool>,
    type_: ProductType,
    id_: u64,
    now: Timestamp,
    need: nat,
)
    requires
        among.len() == ps.len(),
    ensures
        take_total_among(ps, among, type_, id_, now, need, ps.len() as int) == if need <= total_among(
            ps,
            among,
            type_,
            id_,
            now,
            ps.len() as int,
        ) {
            need
        } else {
            total_among(ps, among, type_, id_, now, ps.len() as int)
        },
    decreases count_among(ps, among, type_, id_, now, ps.len() as int),
{
    let n = ps.len() as int;
    lemma_last_among(ps, among, type_, id_, now, n);
    let m = last_among(ps, among, type_, id_, now, n);
    if m == -1 {
        lemma_nothing_among_none(ps, among, type_, id_, now, need, n);
    } else {
        let rest = among.update(m, false);
        lemma_without_one(ps, among, type_, id_, now, m, m, n);
        lemma_takes_among(ps, rest, type_, id_, now, need);
        lemma_takes_without_last(ps, among, type_, id_, now, need, m, n);
        lemma_before_last_is_rest(ps, among, type_, id_, now, m, n);
    }
}

proof fn lemma_among_all(
    ps: Seq<ProductStock>,
    type_: ProductType,
    id_: u64,
    now: Timestamp,
    need: nat,
    j: int,
    upto: int,
)
    requires
        0 <= upto <= ps.len(),
    ensures
        before_among(ps, Seq::new(ps.len(), |i: int| true), type_, id_, now, j, upto) == avail_before(
            ps,
            type_,
            id_,
            now,
            j,
            upto,
        ),
        total_among(ps, Seq::new(ps.len(), |i: int| true), type_, id_, now, upto) == avail_total(
            ps,
            type_,
            id_,
            now,
            upto,
        ),
    decreases upto,
{
    if upto > 0 {
        lemma_among_all(ps, type_, id_, now, need, j, upto - 1);
    }
}

proof fn lemma_take_total_among_all(
    ps: Seq<ProductStock>,
    type_: ProductType,
    id_: u64,
    now: Timestamp,
    need: nat,
    upto: int,
)
    requires
        0 <= upto <= ps.len(),
    ensures
        take_total_among(ps, Seq::new(ps.len(), |i: int| true), type_, id_, now, need, upto)
            == take_total(ps, type_, id_, now, need, upto),
    decreases upto,
{
    if upto > 0 {
        lemma_take_total_among_all(ps, type_, id_, now, need, upto - 1);
        lemma_among_all(ps, type_, id_, now, need, upto - 1, ps.len() as int);
    }
}

/// A request takes, over all buckets of its product, what it asks for, or
/// all that can be reserved if that is less.
pub proof fn lemma_reserve_takes_what_there_is(
    ps: Seq<ProductStock>,
    type_: ProductType,
    id_: u64,
    now: Timestamp,
    need: nat,
)
    ensures
        take_total(ps, type_, id_, now, need, ps.len() as int) == if need <= avail_total(
            ps,
            type_,
            id_,
            now,
            ps.len() as int,
        ) {
            need
        } else {
            avail_total(ps, type_, id_, now, ps.len() as int)
        },
{
    let all = Seq::new(ps.len(), |i: int| true);
    lemma_takes_among(ps, all, type_, id_, now, need);
    lemma_take_total_among_all(ps, type_, id_, now, need, ps.len() as int);
    lemma_among_all(ps, type_, id_, now, need, 0, ps.len() as int);
}

proof fn lemma_avail_after_line(
    s: StoreStock,
    oid: Seq<char>,
    type_: ProductType,
    id_: u64,
    now: Timestamp,
    need: nat,
    upto: int,
)
    requires
        s.wf(),
        0 <= upto <= s.products.len(),
    ensures
        avail_total(s.after_line(oid, type_, id_, now, need).products, type_, id_, now, upto) + take_total(
            s.products,
            type_,
            id_,
            now,
            need,
            upto,
        ) == avail_total(s.products, type_, id_, now, upto),
    decreases upto,
{
    if upto > 0 {
        lemma_avail_after_line(s, oid, type_, id_, now, need, upto - 1);
        let j = upto - 1;
        lemma_reserve_keeps_invariant(
            s.products[j].quantity,
            oid,
            line_take(s.products, type_, id_, now, need, j),
        );
    }
}

/// After a request, what can be reserved of its product in the store is
/// less by what was asked for, or nothing if less could be reserved.
pub proof fn lemma_reserve_lowers_what_is_available(
    s: StoreStock,
    oid: Seq<char>,
    type_: ProductType,
    id_: u64,
    now: Timestamp,
    need: nat,
)
    requires
        s.wf(),
    ensures
        avail_total(
            s.after_line(oid, type_, id_, now, need).products,
            type_,
            id_,
            now,
            s.products.len() as int,
        ) == if need <= avail_total(s.products, type_, id_, now, s.products.len() as int) {
            avail_total(s.products, type_, id_, now, s.products.len() as int) - need
        } else {
            0
        },
{
    lemma_avail_after_line(s, oid, type_, id_, now, need, s.products.len() as int);
    lemma_reserve_takes_what_there_is(s.products, type_, id_, now, need);
}

/// `store_position` is a position in the set, or the number of stores.
pub proof fn lemma_store_position_in_bounds(set: Seq<StoreStock>, store_id: u32)
    ensures
        0 <= store_position(set, store_id) <= set.len(),
    decreases set.len(),
{
    if set.len() > 0 && set[0].store_id != store_id {
        lemma_store_position_in_bounds(set.drop_first(), store_id);
    }
}

/// Stock invariant of a store under reservation: a store that is well
/// formed stays so when a line is served from it.
pub proof fn lemma_store_after_line_wf(
    s: StoreStock,
    oid: Seq<char>,
    type_: ProductType,
    id_: u64,
    now: Timestamp,
    need: nat,
)
    requires
        s.wf(),
    ensures
        s.after_line(oid, type_, id_, now, need).wf(),
{
    let after = s.after_line(oid, type_, id_, now, need);
    assert forall|i: int| 0 <= i < after.products.len() implies (
    #[trigger] after.products[i]).quantity.wf() by {
        lemma_reserve_keeps_invariant(
            s.products[i].quantity,
            oid,
            line_take(s.products, type_, id_, now, need, i),
        );
    }
}

/// Stock invariant under reservation: whatever lines are served for
/// whatever order, in every bucket of a well-formed set what is reserved
/// and what is cancelled stays within the total.
pub proof fn lemma_stock_invariant_after_lines(
    set: Seq<StoreStock>,
    oid: Seq<char>,
    lines: Seq<OrderLineModel>,
    now: Timestamp,
    upto: int,
)
    requires
        stock_set_wf(set),
        0 <= upto <= lines.len(),
    ensures
        stock_set_wf(set_after_lines(set, oid, lines, now, upto)),
        set_after_lines(set, oid, lines, now, upto).len() == set.len(),
        forall|s: int, b: int|
            0 <= s < set.len() && 0 <= b < set_after_lines(
                set,
                oid,
                lines,
                now,
                upto,
            )[s].products.len() ==> (#[trigger] set_after_lines(
                set,
                oid,
                lines,
                now,
                upto,
            )[s].products[b]).quantity.reserved() + set_after_lines(
                set,
                oid,
                lines,
                now,
                upto,
            )[s].products[b].quantity.cancelled <= set_after_lines(
                set,
                oid,
                lines,
                now,
                upto,
            )[s].products[b].quantity.total,
    decreases upto,
{
    if upto > 0 {
        lemma_stock_invariant_after_lines(set, oid, lines, now, upto - 1);
        let before = set_after_lines(set, oid, lines, now, upto - 1);
        let line = lines[upto - 1];
        let at = store_position(before, line.id_.store_id);
        lemma_store_position_in_bounds(before, line.id_.store_id);
        if at < before.len() {
            lemma_store_after_line_wf(
                before[at],
                oid,
                line.id_.product_type,
                line.id_.product_id,
                now,
                line.qty.reserved as nat,
            );
        }
    }
}

/// Stock invariant of a store under return: a store that is well formed
/// stays so when an order returns units to it.
pub proof fn lemma_store_after_return_wf(
    s: StoreStock,
    oid: Seq<char>,
    type_: ProductType,
    id_: u64,
    qty: nat,
)
    requires
        s.wf(),
    ensures
        s.after_return(oid, type_, id_, qty).wf(),
{
    let after = s.after_return(oid, type_, id_, qty);
    assert forall|i: int| 0 <= i < after.products.len() implies (
    #[trigger] after.products[i]).quantity.wf() by {
        lemma_return_keeps_invariant(
            s.products[i].quantity,
            oid,
            line_give(s.products, oid, type_, id_, qty, i),
        );
    }
}

/// Stock invariant under return: whatever an order returns, a well-formed
/// set stays well formed.
pub proof fn lemma_stock_invariant_after_returns(
    set: Seq<StoreStock>,
    oid: Seq<char>,
    items: Seq<StockReturnItem>,
    upto: int,
)
    requires
        stock_set_wf(set),
        0 <= upto <= items.len(),
    ensures
        stock_set_wf(set_after_returns(set, oid, items, upto)),
    decreases upto,
{
    if upto > 0 {
        lemma_stock_invariant_after_returns(set, oid, items, upto - 1);
        let before = set_after_returns(set, oid, items, upto - 1);
        let item = items[upto - 1];
        let at = store_position(before, item.pid.store_id);
        lemma_store_position_in_bounds(before, item.pid.store_id);
        if at < before.len() {
            lemma_store_after_return_wf(
                before[at],
                oid,
                item.pid.product_type,
                item.pid.product_id,
                item.qty as nat,
            );
        }
    }
}

/// What the first `upto` buckets get back when order `oid` returns `qty`
/// units of product `(type_, id_)`, added up.
pub open spec fn give_total(
    ps: Seq<ProductStock>,
    oid: Seq<char>,
    type_: ProductType,
    id_: u64,
    qty: nat,
    upto: int,
) -> nat
    decreases upto,
{
    if upto <= 0 {
        0
    } else {
        give_total(ps, oid, type_, id_, qty, upto - 1) + line_give(
            ps,
            oid,
            type_,
            id_,
            qty,
            upto - 1,
        )
    }
}

/// A return gives back all that was asked for, or all that the order
/// held if that is less.
pub proof fn lemma_return_gives_what_is_held(
    ps: Seq<ProductStock>,
    oid: Seq<char>,
    type_: ProductType,
    id_: u64,
    qty: nat,
    upto: int,
)
    requires
        0 <= upto <= ps.len(),
    ensures
        give_total(ps, oid, type_, id_, qty, upto) == if qty <= held_total(
            ps,
            oid,
            type_,
            id_,
            upto,
        ) {
            qty
        } else {
            held_total(ps, oid, type_, id_, upto)
        },
    decreases upto,
{
    if upto > 0 {
        lemma_return_gives_what_is_held(ps, oid, type_, id_, qty, upto - 1);
    }
}

} // verus!
