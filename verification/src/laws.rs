//! The ledger's laws: properties that relate the operations to one
//! another, stated over the same spec functions the operations' contracts
//! use, and proved once and for all.

use vstd::prelude::*;

use crate::errors::Error;
use crate::offer::Offer;
use crate::offer::create_result;
use crate::offer::repriced;
use crate::offer::sell_amount;
use crate::offer::settle;
use crate::offer::trade_result;
use crate::offer::updt_result;
use crate::offer::withdraw_result;

verus! {

/// Law: the record is created exactly once. Whatever prices a later
/// `create` quotes, once a record exists it reports `AlreadyExists`.
pub proof fn lemma_create_only_once(existing: Offer, sell_price: u32, buy_price: u32)
    ensures
        create_result(Some(existing), sell_price, buy_price) == Err::<(), Error>(
            Error::AlreadyExists,
        ),
{
}

/// Law: a zero price is always rejected with `InvalidPrice` — at creation,
/// when no existing record takes precedence, and unconditionally at every
/// price update — and an accepted creation or update has both prices
/// nonzero at once.
pub proof fn lemma_zero_price_rejected(
    pre: Option<Offer>,
    sell_price: u32,
    buy_price: u32,
    authorized: bool,
)
    ensures
        pre is None && (sell_price == 0 || buy_price == 0) ==> create_result(
            pre,
            sell_price,
            buy_price,
        ) == Err::<(), Error>(Error::InvalidPrice),
        (sell_price == 0 || buy_price == 0) ==> updt_result(pre, sell_price, buy_price, authorized)
            == Err::<(), Error>(Error::InvalidPrice),
        create_result(pre, sell_price, buy_price) is Ok ==> sell_price != 0 && buy_price != 0,
        updt_result(pre, sell_price, buy_price, authorized) is Ok ==> sell_price != 0 && buy_price
            != 0,
{
}

/// Law: the rate invariant. An authorized trade on an existing offer,
/// with a non-negative amount whose price multiplication stays in range,
/// settles exactly `floor(buy_token_amount * sell_price / buy_price)`
/// sell-asset units, and reports `PriceTooLow` precisely when that
/// quantity is below the buyer's stated minimum.
pub proof fn lemma_rate_invariant(
    o: Offer,
    contract: u64,
    m: Map<(u64, u64), int>,
    buyer: u64,
    buy_token_amount: i128,
    min_sell_token_amount: i128,
)
    requires
        buy_token_amount >= 0,
        (buy_token_amount as int) * (o.sell_price as int) <= i128::MAX as int,
    ensures
        sell_amount(buy_token_amount as int, o.sell_price, o.buy_price) == (buy_token_amount as int)
            * (o.sell_price as int) / (o.buy_price as int),
        trade_result(Some(o), contract, m, buyer, buy_token_amount, min_sell_token_amount, true)
            == Err::<(), Error>(Error::PriceTooLow) <==> sell_amount(
            buy_token_amount as int,
            o.sell_price,
            o.buy_price,
        ) < min_sell_token_amount as int,
{
}

/// Law: conservation. A completed settlement, among a buyer, a seller and
/// a custodial contract that are pairwise distinct and over two distinct
/// assets, debits the buyer's buy-asset balance by exactly the amount
/// paid, credits the seller's by the same, and leaves the contract's
/// buy-asset balance unchanged; the buyer's sell-asset balance grows by
/// exactly the settled quantity, the contract's shrinks by the same, and
/// every balance of any other asset is untouched.
pub proof fn lemma_trade_conservation(
    m: Map<(u64, u64), int>,
    o: Offer,
    contract: u64,
    buyer: u64,
    amount: int,
    sold: int,
)
    requires
        forall|k: (u64, u64)| #[trigger] m.dom().contains(k),
        buyer != o.seller,
        buyer != contract,
        o.seller != contract,
        o.sell_token != o.buy_token,
    ensures
        settle(m, o, contract, buyer, amount, sold)[(o.buy_token, buyer)] == m[(
            o.buy_token,
            buyer,
        )] - amount,
        settle(m, o, contract, buyer, amount, sold)[(o.buy_token, o.seller)] == m[(
            o.buy_token,
            o.seller,
        )] + amount,
        settle(m, o, contract, buyer, amount, sold)[(o.buy_token, contract)] == m[(
            o.buy_token,
            contract,
        )],
        settle(m, o, contract, buyer, amount, sold)[(o.sell_token, buyer)] == m[(
            o.sell_token,
            buyer,
        )] + sold,
        settle(m, o, contract, buyer, amount, sold)[(o.sell_token, contract)] == m[(
            o.sell_token,
            contract,
        )] - sold,
        settle(m, o, contract, buyer, amount, sold)[(o.sell_token, o.seller)] == m[(
            o.sell_token,
            o.seller,
        )],
        forall|k: (u64, u64)|
            k.0 != o.buy_token && k.0 != o.sell_token ==> #[trigger] settle(
                m,
                o,
                contract,
                buyer,
                amount,
                sold,
            )[k] == m[k],
{
}

/// Law: authorization gating. Without the buyer's proof a trade reports
/// `Unauthorized`; without the seller's proof a withdrawal from an
/// existing offer, or a well-priced update of one, reports `Unauthorized`.
pub proof fn lemma_authorization_gating(
    pre: Option<Offer>,
    contract: u64,
    m: Map<(u64, u64), int>,
    buyer: u64,
    buy_token_amount: i128,
    min_sell_token_amount: i128,
    token: u64,
    amount: i128,
    sell_price: u32,
    buy_price: u32,
)
    ensures
        trade_result(pre, contract, m, buyer, buy_token_amount, min_sell_token_amount, false)
            == Err::<(), Error>(Error::Unauthorized),
        pre is Some ==> withdraw_result(pre, contract, m, token, amount, false) == Err::<
            (),
            Error,
        >(Error::Unauthorized),
        pre is Some && sell_price != 0 && buy_price != 0 ==> updt_result(
            pre,
            sell_price,
            buy_price,
            false,
        ) == Err::<(), Error>(Error::Unauthorized),
{
}

/// Law: immutability. A price update rewrites only the two price fields:
/// the seller and the asset pair of the record are untouched. (`trade`
/// and `withdraw` borrow the ledger immutably, so they cannot change the
/// record at all.)
pub proof fn lemma_update_preserves_identity(o: Offer, sell_price: u32, buy_price: u32)
    ensures
        repriced(o, sell_price, buy_price).seller == o.seller,
        repriced(o, sell_price, buy_price).sell_token == o.sell_token,
        repriced(o, sell_price, buy_price).buy_token == o.buy_token,
        repriced(o, sell_price, buy_price).sell_price == sell_price,
        repriced(o, sell_price, buy_price).buy_price == buy_price,
{
}

} // verus!
