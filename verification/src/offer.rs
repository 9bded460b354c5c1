//! The offer ledger: one persistent offer record and the five operations
//! over it.
//!
//! A [`SingleOffer`] instance is permanently bound to one offer: the
//! record is created exactly once, its seller and asset pair never change,
//! and only its price may be updated. Settlement at trade time moves
//! balances in an [`AssetBook`] at the quoted rate, rounding down, with
//! the buy-asset proceeds forwarded immediately to the seller.

use vstd::arithmetic::div_mod::lemma_div_basics;
use vstd::arithmetic::div_mod::lemma_div_is_ordered_by_denominator;
use vstd::arithmetic::div_mod::lemma_fundamental_div_mod;
use vstd::arithmetic::div_mod::lemma_mod_bound;
use vstd::arithmetic::mul::lemma_mul_inequality;
use vstd::arithmetic::mul::lemma_mul_is_distributive_add;
use vstd::prelude::*;

use crate::asset::AssetBook;
use crate::asset::xfer;
use crate::asset::xfer_ok;
use crate::auth::AuthProof;
use crate::errors::Error;

verus! {

/// The key under which the durable store holds the offer record.
#[derive(Clone, Copy, Debug, PartialEq, Eq, Structural)]
pub enum DataKey {
    Offer,
}

/// The sole persistent entity: who sells which asset against which, and
/// at what rate. The rate is the ratio `sell_price : buy_price`, in
/// sell-asset units per `buy_price` units of buy-asset.
#[derive(Clone, Copy, Debug, PartialEq, Eq, Structural)]
pub struct Offer {
    pub seller: u64,
    pub sell_token: u64,
    pub buy_token: u64,
    pub sell_price: u32,
    pub buy_price: u32,
}

/// The durable single-slot store scoped to one deployed instance: it
/// holds the offer record across invocations, and nothing else may read
/// or write it.
pub struct OfferStore {
    slot: Option<Offer>,
}

impl OfferStore {
    /// The record the store holds, if any.
    pub closed spec fn spec_get(&self) -> Option<Offer> {
        self.slot
    }

    /// An empty store, as a fresh deployment starts with.
    pub fn new() -> (store: Self)
        ensures
            store.spec_get() is None,
    {
        OfferStore { slot: None }
    }

    /// Whether a record is present under `key`.
    pub fn has(&self, key: &DataKey) -> (present: bool)
        ensures
            present == (self.spec_get() is Some),
    {
        self.slot.is_some()
    }

    /// The record under `key`, if any.
    pub fn get(&self, key: &DataKey) -> (record: Option<Offer>)
        ensures
            record == self.spec_get(),
    {
        self.slot
    }

    /// Durably writes `record` under `key`.
    pub fn set(&mut self, key: &DataKey, record: &Offer)
        ensures
            final(self).spec_get() == Some(*record),
    {
        self.slot = Some(*record);
    }
}

/// The settlement quantity: how many sell-asset units `amount` units of
/// buy-asset are worth at the rate `sell_price : buy_price`, rounded
/// down.
pub open spec fn sell_amount(amount: int, sell_price: u32, buy_price: u32) -> int
    recommends
        buy_price > 0,
{
    amount * (sell_price as int) / (buy_price as int)
}

/// The three settlement transfers succeed in order on `m`: `amount` of
/// the buy-asset from the buyer into custody, `sold` of the sell-asset
/// from custody to the buyer, then the `amount` of buy-asset forwarded
/// from custody to the seller.
pub open spec fn settlement_ok(
    m: Map<(u64, u64), int>,
    o: Offer,
    contract: u64,
    buyer: u64,
    amount: int,
    sold: int,
) -> bool {
    let m1 = xfer(m, o.buy_token, buyer, contract, amount);
    let m2 = xfer(m1, o.sell_token, contract, buyer, sold);
    &&& xfer_ok(m, o.buy_token, buyer, contract, amount)
    &&& xfer_ok(m1, o.sell_token, contract, buyer, sold)
    &&& xfer_ok(m2, o.buy_token, contract, o.seller, amount)
}

/// The balance map after the three settlement transfers, in order.
pub open spec fn settle(
    m: Map<(u64, u64), int>,
    o: Offer,
    contract: u64,
    buyer: u64,
    amount: int,
    sold: int,
) -> Map<(u64, u64), int> {
    let m1 = xfer(m, o.buy_token, buyer, contract, amount);
    let m2 = xfer(m1, o.sell_token, contract, buyer, sold);
    xfer(m2, o.buy_token, contract, o.seller, amount)
}

/// What `create` reports given the pre-existing record and the quoted
/// prices: a present record wins over a zero price.
pub open spec fn create_result(pre: Option<Offer>, sell_price: u32, buy_price: u32) -> Result<
    (),
    Error,
> {
    if pre is Some {
        Err(Error::AlreadyExists)
    } else if sell_price == 0 || buy_price == 0 {
        Err(Error::InvalidPrice)
    } else {
        Ok(())
    }
}

/// What `trade` reports: the buyer's authorization is checked first, then
/// the record's presence; a negative amount is refused before any
/// computation; then the overflow-checked rate computation, the buyer's
/// slippage floor, and finally the three settlement transfers.
pub open spec fn trade_result(
    pre: Option<Offer>,
    contract: u64,
    m: Map<(u64, u64), int>,
    buyer: u64,
    buy_token_amount: i128,
    min_sell_token_amount: i128,
    authorized: bool,
) -> Result<(), Error> {
    if !authorized {
        Err(Error::Unauthorized)
    } else {
        match pre {
            None => Err(Error::NotFound),
            Some(o) => if buy_token_amount < 0 {
                Err(Error::TransferFailed)
            } else if (buy_token_amount as int) * (o.sell_price as int) > i128::MAX as int {
                Err(Error::ArithmeticOverflow)
            } else if sell_amount(buy_token_amount as int, o.sell_price, o.buy_price)
                < min_sell_token_amount as int {
                Err(Error::PriceTooLow)
            } else if !settlement_ok(
                m,
                o,
                contract,
                buyer,
                buy_token_amount as int,
                sell_amount(buy_token_amount as int, o.sell_price, o.buy_price),
            ) {
                Err(Error::TransferFailed)
            } else {
                Ok(())
            },
        }
    }
}

/// What `withdraw` reports: the record must exist, the caller must be
/// authorized as the seller, and the single custody-to-seller transfer
/// must succeed.
pub open spec fn withdraw_result(
    pre: Option<Offer>,
    contract: u64,
    m: Map<(u64, u64), int>,
    token: u64,
    amount: i128,
    authorized: bool,
) -> Result<(), Error> {
    match pre {
        None => Err(Error::NotFound),
        Some(o) => if !authorized {
            Err(Error::Unauthorized)
        } else if !xfer_ok(m, token, contract, o.seller, amount as int) {
            Err(Error::TransferFailed)
        } else {
            Ok(())
        },
    }
}

/// What `updt_price` reports: a zero price is refused before the record
/// is even consulted, then the record's presence and the seller's
/// authorization are checked.
pub open spec fn updt_result(
    pre: Option<Offer>,
    sell_price: u32,
    buy_price: u32,
    authorized: bool,
) -> Result<(), Error> {
    if sell_price == 0 || buy_price == 0 {
        Err(Error::InvalidPrice)
    } else {
        match pre {
            None => Err(Error::NotFound),
            Some(o) => if !authorized {
                Err(Error::Unauthorized)
            } else {
                Ok(())
            },
        }
    }
}

/// The record as `updt_price` rewrites it: only the two prices change.
pub open spec fn repriced(o: Offer, sell_price: u32, buy_price: u32) -> Offer {
    Offer { sell_price, buy_price, ..o }
}

/// The overflow-checked settlement computation: `None` exactly when the
/// price multiplication leaves the signed 128-bit range, and otherwise
/// the rate quantity rounded down.
pub fn compute_sell_amount(buy_token_amount: i128, sell_price: u32, buy_price: u32) -> (sold:
    Option<i128>)
    requires
        buy_token_amount >= 0,
        sell_price > 0,
        buy_price > 0,
    ensures
        sold is Some <==> (buy_token_amount as int) * (sell_price as int) <= i128::MAX as int,
        sold is Some ==> sold->0 == sell_amount(buy_token_amount as int, sell_price, buy_price),
{
    let a = buy_token_amount as u128;
    let p = sell_price as u128;
    let max = i128::MAX as u128;
    let limit = max / p;
    proof {
        lemma_fundamental_div_mod(max as int, p as int);
        lemma_mod_bound(max as int, p as int);
    }
    if a > limit {
        proof {
            lemma_mul_inequality(limit as int + 1, a as int, p as int);
            lemma_mul_is_distributive_add(p as int, limit as int, 1);
        }
        return None;
    }
    proof {
        lemma_mul_inequality(a as int, limit as int, p as int);
    }
    let product = a * p;
    let b = buy_price as u128;
    let q = product / b;
    proof {
        lemma_div_is_ordered_by_denominator(product as int, 1, b as int);
        lemma_div_basics(product as int);
    }
    Some(q as i128)
}

/// One deployed instance of the offer ledger: the custodial contract
/// identity, the seller identity fixed at deployment time, and the
/// durable store holding the record.
pub struct SingleOffer {
    contract: u64,
    seller: u64,
    store: OfferStore,
}

impl SingleOffer {
    /// The identity under which the instance holds custodial balances.
    pub closed spec fn spec_contract(&self) -> u64 {
        self.contract
    }

    /// The seller identity the deployment was configured with.
    pub closed spec fn spec_seller(&self) -> u64 {
        self.seller
    }

    /// The persisted offer record, if one was created.
    pub closed spec fn spec_offer(&self) -> Option<Offer> {
        self.store.spec_get()
    }

    /// The instance invariant: an existing record carries the configured
    /// seller and strictly positive prices.
    pub open spec fn wf(&self) -> bool {
        match self.spec_offer() {
            None => true,
            Some(o) => o.seller == self.spec_seller() && o.sell_price > 0 && o.buy_price > 0,
        }
    }

    /// A fresh deployment: custody under `contract`, proceeds and
    /// privileges bound to `seller`, no record yet.
    pub fn new(contract: u64, seller: u64) -> (ledger: Self)
        ensures
            ledger.wf(),
            ledger.spec_contract() == contract,
            ledger.spec_seller() == seller,
            ledger.spec_offer() is None,
    {
        SingleOffer { contract, seller, store: OfferStore::new() }
    }

    /// Creates the offer record: fails with `AlreadyExists` when one is
    /// present, with `InvalidPrice` when either price is zero, and
    /// otherwise persists the asset pair and rate under the configured
    /// seller. No balance moves.
    pub fn create(
        &mut self,
        sell_token: u64,
        buy_token: u64,
        sell_price: u32,
        buy_price: u32,
    ) -> (created: Result<(), Error>)
        requires
            old(self).wf(),
        ensures
            final(self).wf(),
            final(self).spec_contract() == old(self).spec_contract(),
            final(self).spec_seller() == old(self).spec_seller(),
            created == create_result(old(self).spec_offer(), sell_price, buy_price),
            created is Ok ==> final(self).spec_offer() == Some(
                Offer {
                    seller: old(self).spec_seller(),
                    sell_token,
                    buy_token,
                    sell_price,
                    buy_price,
                },
            ),
            created is Err ==> final(self).spec_offer() == old(self).spec_offer(),
    {
        if self.store.has(&DataKey::Offer) {
            return Err(Error::AlreadyExists);
        }
        if buy_price == 0 || sell_price == 0 {
            return Err(Error::InvalidPrice);
        }
        let record = Offer { seller: self.seller, sell_token, buy_token, sell_price, buy_price };
        self.store.set(&DataKey::Offer, &record);
        Ok(())
    }

    /// Executes a trade: the buyer pays `buy_token_amount` of the
    /// buy-asset and receives the sell-asset at the quoted rate, rounded
    /// down, with the proceeds forwarded to the seller. The buyer's
    /// `min_sell_token_amount` slippage floor protects against a price
    /// change or rounding below expectation. On any failure the book is
    /// left exactly as it was: no partial settlement is observable.
    pub fn trade(
        &self,
        book: &mut AssetBook,
        auth: &AuthProof,
        buyer: u64,
        buy_token_amount: i128,
        min_sell_token_amount: i128,
    ) -> (traded: Result<(), Error>)
        requires
            self.wf(),
            old(book).wf(),
        ensures
            final(book).wf(),
            traded == trade_result(
                self.spec_offer(),
                self.spec_contract(),
                old(book)@,
                buyer,
                buy_token_amount,
                min_sell_token_amount,
                auth@.contains(buyer),
            ),
            traded is Ok ==> final(book)@ == settle(
                old(book)@,
                self.spec_offer()->0,
                self.spec_contract(),
                buyer,
                buy_token_amount as int,
                sell_amount(
                    buy_token_amount as int,
                    self.spec_offer()->0.sell_price,
                    self.spec_offer()->0.buy_price,
                ),
            ),
            traded is Err ==> final(book)@ == old(book)@,
    {
        if let Err(denied) = auth.require(buyer) {
            return Err(denied);
        }
        let offer = match self.store.get(&DataKey::Offer) {
            Some(o) => o,
            None => {
                return Err(Error::NotFound);
            },
        };
        if buy_token_amount < 0 {
            return Err(Error::TransferFailed);
        }
        let sold = match compute_sell_amount(buy_token_amount, offer.sell_price, offer.buy_price) {
            Some(v) => v,
            None => {
                return Err(Error::ArithmeticOverflow);
            },
        };
        if sold < min_sell_token_amount {
            return Err(Error::PriceTooLow);
        }
        let saved = book.snapshot();
        if book.transfer(offer.buy_token, buyer, self.contract, buy_token_amount).is_err() {
            return Err(Error::TransferFailed);
        }
        if book.transfer(offer.sell_token, self.contract, buyer, sold).is_err() {
            book.restore(saved);
            return Err(Error::TransferFailed);
        }
        if book.transfer(offer.buy_token, self.contract, self.seller, buy_token_amount).is_err() {
            book.restore(saved);
            return Err(Error::TransferFailed);
        }
        Ok(())
    }

    /// Transfers `amount` of `token` out of custody to the seller, for
    /// reclaiming unsold inventory or sweeping stray balances. Only the
    /// seller may withdraw; the record itself is untouched.
    pub fn withdraw(
        &self,
        book: &mut AssetBook,
        auth: &AuthProof,
        token: u64,
        amount: i128,
    ) -> (withdrawn: Result<(), Error>)
        requires
            self.wf(),
            old(book).wf(),
        ensures
            final(book).wf(),
            withdrawn == withdraw_result(
                self.spec_offer(),
                self.spec_contract(),
                old(book)@,
                token,
                amount,
                auth@.contains(self.spec_seller()),
            ),
            withdrawn is Ok ==> final(book)@ == xfer(
                old(book)@,
                token,
                self.spec_contract(),
                self.spec_seller(),
                amount as int,
            ),
            withdrawn is Err ==> final(book)@ == old(book)@,
    {
        let offer = match self.store.get(&DataKey::Offer) {
            Some(o) => o,
            None => {
                return Err(Error::NotFound);
            },
        };
        if let Err(denied) = auth.require(offer.seller) {
            return Err(denied);
        }
        match book.transfer(token, self.contract, offer.seller, amount) {
            Ok(()) => Ok(()),
            Err(failed) => Err(failed),
        }
    }

    /// Overwrites the quoted rate; every other field of the record is
    /// untouched. Only the seller may update, and both prices must be
    /// nonzero.
    pub fn updt_price(&mut self, auth: &AuthProof, sell_price: u32, buy_price: u32) -> (updated:
        Result<(), Error>)
        requires
            old(self).wf(),
        ensures
            final(self).wf(),
            final(self).spec_contract() == old(self).spec_contract(),
            final(self).spec_seller() == old(self).spec_seller(),
            updated == updt_result(
                old(self).spec_offer(),
                sell_price,
                buy_price,
                auth@.contains(old(self).spec_seller()),
            ),
            updated is Ok ==> final(self).spec_offer() == Some(
                repriced(old(self).spec_offer()->0, sell_price, buy_price),
            ),
            updated is Err ==> final(self).spec_offer() == old(self).spec_offer(),
    {
        if buy_price == 0 || sell_price == 0 {
            return Err(Error::InvalidPrice);
        }
        let mut offer = match self.store.get(&DataKey::Offer) {
            Some(o) => o,
            None => {
                return Err(Error::NotFound);
            },
        };
        if let Err(denied) = auth.require(offer.seller) {
            return Err(denied);
        }
        offer.sell_price = sell_price;
        offer.buy_price = buy_price;
        self.store.set(&DataKey::Offer, &offer);
        Ok(())
    }

    /// Returns the current offer record verbatim, or `NotFound` before
    /// any was created.
    pub fn get_offer(&self) -> (record: Result<Offer, Error>)
        ensures
            record == match self.spec_offer() {
                Some(o) => Ok::<Offer, Error>(o),
                None => Err::<Offer, Error>(Error::NotFound),
            },
    {
        match self.store.get(&DataKey::Offer) {
            Some(o) => Ok(o),
            None => Err(Error::NotFound),
        }
    }
}

} // verus!
