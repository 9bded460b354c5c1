use single_offer::asset::AssetBook;
use single_offer::auth::AuthProof;
use single_offer::errors::Error;
use single_offer::offer::compute_sell_amount;
use single_offer::offer::Offer;
use single_offer::offer::SingleOffer;

const SELLER: u64 = 1;
const BUYER: u64 = 2;
const CONTRACT: u64 = 3;
const SELL_TOKEN: u64 = 10;
const BUY_TOKEN: u64 = 11;

/// A proof covering every identity the scenarios use, as a host
/// environment that mocks all authorizations would grant.
fn all_auths() -> AuthProof {
    let mut auth = AuthProof::new();
    auth.grant(SELLER);
    auth.grant(BUYER);
    auth
}

fn funded_ledger(sell_price: u32, buy_price: u32) -> (SingleOffer, AssetBook) {
    let mut ledger = SingleOffer::new(CONTRACT, SELLER);
    ledger
        .create(SELL_TOKEN, BUY_TOKEN, sell_price, buy_price)
        .unwrap();
    let mut book = AssetBook::new();
    book.mint(SELL_TOKEN, SELLER, 1000).unwrap();
    book.mint(BUY_TOKEN, BUYER, 1000).unwrap();
    book.transfer(SELL_TOKEN, SELLER, CONTRACT, 100).unwrap();
    (ledger, book)
}

#[test]
fn test() {
    let auth = all_auths();
    let mut book = AssetBook::new();

    let mut offer = SingleOffer::new(CONTRACT, SELLER);
    offer.create(SELL_TOKEN, BUY_TOKEN, 1, 2).unwrap();

    book.mint(SELL_TOKEN, SELLER, 1000).unwrap();
    book.mint(BUY_TOKEN, BUYER, 1000).unwrap();
    book.transfer(SELL_TOKEN, SELLER, CONTRACT, 100).unwrap();

    assert!(offer.trade(&mut book, &auth, BUYER, 20, 11).is_err());
    offer.trade(&mut book, &auth, BUYER, 20, 10).unwrap();

    assert_eq!(book.balance(SELL_TOKEN, SELLER), 900);
    assert_eq!(book.balance(SELL_TOKEN, BUYER), 10);
    assert_eq!(book.balance(SELL_TOKEN, CONTRACT), 90);
    assert_eq!(book.balance(BUY_TOKEN, SELLER), 20);
    assert_eq!(book.balance(BUY_TOKEN, BUYER), 980);
    assert_eq!(book.balance(BUY_TOKEN, CONTRACT), 0);

    offer.withdraw(&mut book, &auth, SELL_TOKEN, 70).unwrap();

    assert_eq!(book.balance(SELL_TOKEN, SELLER), 970);
    assert_eq!(book.balance(SELL_TOKEN, CONTRACT), 20);

    offer.updt_price(&auth, 1, 1).unwrap();

    offer.trade(&mut book, &auth, BUYER, 10, 9).unwrap();
    assert_eq!(book.balance(SELL_TOKEN, SELLER), 970);
    assert_eq!(book.balance(SELL_TOKEN, BUYER), 20);
    assert_eq!(book.balance(SELL_TOKEN, CONTRACT), 10);
    assert_eq!(book.balance(BUY_TOKEN, SELLER), 30);
    assert_eq!(book.balance(BUY_TOKEN, BUYER), 970);
    assert_eq!(book.balance(BUY_TOKEN, CONTRACT), 0);
}

#[test]
fn create_twice_reports_already_exists() {
    let mut ledger = SingleOffer::new(CONTRACT, SELLER);
    ledger.create(SELL_TOKEN, BUY_TOKEN, 1, 2).unwrap();
    assert_eq!(
        ledger.create(SELL_TOKEN, BUY_TOKEN, 1, 2),
        Err(Error::AlreadyExists)
    );
    // regardless of parameters, even invalid ones
    assert_eq!(ledger.create(7, 8, 0, 0), Err(Error::AlreadyExists));
}

#[test]
fn zero_price_rejected_at_create() {
    let mut ledger = SingleOffer::new(CONTRACT, SELLER);
    assert_eq!(
        ledger.create(SELL_TOKEN, BUY_TOKEN, 0, 2),
        Err(Error::InvalidPrice)
    );
    assert_eq!(
        ledger.create(SELL_TOKEN, BUY_TOKEN, 1, 0),
        Err(Error::InvalidPrice)
    );
    assert_eq!(
        ledger.create(SELL_TOKEN, BUY_TOKEN, 0, 0),
        Err(Error::InvalidPrice)
    );
    // a failed creation leaves no record behind
    assert_eq!(ledger.get_offer(), Err(Error::NotFound));
    // both prices nonzero at once is accepted
    assert_eq!(ledger.create(SELL_TOKEN, BUY_TOKEN, 1, 2), Ok(()));
}

#[test]
fn zero_price_rejected_at_update() {
    let auth = all_auths();
    let mut ledger = SingleOffer::new(CONTRACT, SELLER);
    ledger.create(SELL_TOKEN, BUY_TOKEN, 3, 4).unwrap();
    assert_eq!(ledger.updt_price(&auth, 0, 4), Err(Error::InvalidPrice));
    assert_eq!(ledger.updt_price(&auth, 3, 0), Err(Error::InvalidPrice));
    let record = ledger.get_offer().unwrap();
    assert_eq!(record.sell_price, 3);
    assert_eq!(record.buy_price, 4);
}

#[test]
fn operations_before_create_report_not_found() {
    let auth = all_auths();
    let ledger = SingleOffer::new(CONTRACT, SELLER);
    let mut book = AssetBook::new();
    assert_eq!(
        ledger.trade(&mut book, &auth, BUYER, 20, 10),
        Err(Error::NotFound)
    );
    assert_eq!(
        ledger.withdraw(&mut book, &auth, SELL_TOKEN, 1),
        Err(Error::NotFound)
    );
    let mut ledger = ledger;
    assert_eq!(ledger.updt_price(&auth, 1, 1), Err(Error::NotFound));
    assert_eq!(ledger.get_offer(), Err(Error::NotFound));
}

#[test]
fn trade_requires_buyer_authorization() {
    let mut seller_only = AuthProof::new();
    seller_only.grant(SELLER);
    let (ledger, mut book) = funded_ledger(1, 2);
    assert_eq!(
        ledger.trade(&mut book, &seller_only, BUYER, 20, 10),
        Err(Error::Unauthorized)
    );
    // the buyer's authorization is checked before the record is consulted
    let bare = SingleOffer::new(CONTRACT, SELLER);
    assert_eq!(
        bare.trade(&mut book, &seller_only, BUYER, 20, 10),
        Err(Error::Unauthorized)
    );
    assert_eq!(book.balance(BUY_TOKEN, BUYER), 1000);
    assert_eq!(book.balance(SELL_TOKEN, CONTRACT), 100);
}

#[test]
fn withdraw_requires_seller_authorization() {
    let mut buyer_only = AuthProof::new();
    buyer_only.grant(BUYER);
    let (ledger, mut book) = funded_ledger(1, 2);
    assert_eq!(
        ledger.withdraw(&mut book, &buyer_only, SELL_TOKEN, 70),
        Err(Error::Unauthorized)
    );
    assert_eq!(book.balance(SELL_TOKEN, CONTRACT), 100);
    assert_eq!(book.balance(SELL_TOKEN, SELLER), 900);
}

#[test]
fn update_requires_seller_authorization() {
    let mut buyer_only = AuthProof::new();
    buyer_only.grant(BUYER);
    let (mut ledger, _) = funded_ledger(1, 2);
    assert_eq!(
        ledger.updt_price(&buyer_only, 5, 5),
        Err(Error::Unauthorized)
    );
    let record = ledger.get_offer().unwrap();
    assert_eq!(record.sell_price, 1);
    assert_eq!(record.buy_price, 2);
}

#[test]
fn trade_slippage_floor_reports_price_too_low() {
    let auth = all_auths();
    let (ledger, mut book) = funded_ledger(1, 2);
    // floor(20 * 1 / 2) = 10 < 11
    assert_eq!(
        ledger.trade(&mut book, &auth, BUYER, 20, 11),
        Err(Error::PriceTooLow)
    );
    assert_eq!(book.balance(BUY_TOKEN, BUYER), 1000);
    assert_eq!(book.balance(SELL_TOKEN, BUYER), 0);
}

#[test]
fn trade_overflow_reports_arithmetic_overflow() {
    let auth = all_auths();
    let (ledger, mut book) = funded_ledger(2, 1);
    assert_eq!(
        ledger.trade(&mut book, &auth, BUYER, i128::MAX, 0),
        Err(Error::ArithmeticOverflow)
    );
    assert_eq!(book.balance(BUY_TOKEN, BUYER), 1000);
}

#[test]
fn trade_negative_amount_reports_transfer_failed() {
    let auth = all_auths();
    let (ledger, mut book) = funded_ledger(1, 2);
    assert_eq!(
        ledger.trade(&mut book, &auth, BUYER, -10, -100),
        Err(Error::TransferFailed)
    );
    assert_eq!(book.balance(BUY_TOKEN, BUYER), 1000);
    assert_eq!(book.balance(SELL_TOKEN, CONTRACT), 100);
}

#[test]
fn trade_without_escrow_rolls_back_the_buyer_payment() {
    let auth = all_auths();
    let mut ledger = SingleOffer::new(CONTRACT, SELLER);
    ledger.create(SELL_TOKEN, BUY_TOKEN, 1, 2).unwrap();
    let mut book = AssetBook::new();
    book.mint(BUY_TOKEN, BUYER, 1000).unwrap();
    // nothing was deposited: the incoming payment succeeds, the outgoing
    // leg fails, and the whole settlement is rolled back
    assert_eq!(
        ledger.trade(&mut book, &auth, BUYER, 20, 10),
        Err(Error::TransferFailed)
    );
    assert_eq!(book.balance(BUY_TOKEN, BUYER), 1000);
    assert_eq!(book.balance(BUY_TOKEN, CONTRACT), 0);
    assert_eq!(book.balance(BUY_TOKEN, SELLER), 0);
    assert_eq!(book.balance(SELL_TOKEN, BUYER), 0);
}

#[test]
fn trade_without_buyer_funds_reports_transfer_failed() {
    let auth = all_auths();
    let mut ledger = SingleOffer::new(CONTRACT, SELLER);
    ledger.create(SELL_TOKEN, BUY_TOKEN, 1, 2).unwrap();
    let mut book = AssetBook::new();
    book.mint(SELL_TOKEN, CONTRACT, 100).unwrap();
    assert_eq!(
        ledger.trade(&mut book, &auth, BUYER, 20, 10),
        Err(Error::TransferFailed)
    );
    assert_eq!(book.balance(SELL_TOKEN, CONTRACT), 100);
}

#[test]
fn withdraw_more_than_escrow_reports_transfer_failed() {
    let auth = all_auths();
    let (ledger, mut book) = funded_ledger(1, 2);
    assert_eq!(
        ledger.withdraw(&mut book, &auth, SELL_TOKEN, 101),
        Err(Error::TransferFailed)
    );
    assert_eq!(book.balance(SELL_TOKEN, CONTRACT), 100);
    // the seller may sweep any asset, not only the offer's pair
    assert_eq!(ledger.withdraw(&mut book, &auth, 42, 0), Ok(()));
    assert_eq!(ledger.withdraw(&mut book, &auth, SELL_TOKEN, 100), Ok(()));
    assert_eq!(book.balance(SELL_TOKEN, SELLER), 1000);
}

#[test]
fn get_offer_returns_the_record_verbatim() {
    let (ledger, _) = funded_ledger(1, 2);
    assert_eq!(
        ledger.get_offer(),
        Ok(Offer {
            seller: SELLER,
            sell_token: SELL_TOKEN,
            buy_token: BUY_TOKEN,
            sell_price: 1,
            buy_price: 2,
        })
    );
}

#[test]
fn sell_amount_rounds_down() {
    assert_eq!(compute_sell_amount(20, 1, 2), Some(10));
    assert_eq!(compute_sell_amount(10, 3, 7), Some(4));
    assert_eq!(compute_sell_amount(0, 5, 9), Some(0));
    assert_eq!(compute_sell_amount(1, 1, 1000), Some(0));
    assert_eq!(compute_sell_amount(i128::MAX, 1, 1), Some(i128::MAX));
    assert_eq!(compute_sell_amount(i128::MAX / 2 + 1, 2, 3), None);
}

#[test]
fn book_keeps_balances_sound() {
    let mut book = AssetBook::new();
    assert_eq!(book.balance(SELL_TOKEN, SELLER), 0);
    assert_eq!(book.mint(SELL_TOKEN, SELLER, -1), Err(Error::TransferFailed));
    book.mint(SELL_TOKEN, SELLER, i128::MAX).unwrap();
    assert_eq!(
        book.mint(SELL_TOKEN, SELLER, 1),
        Err(Error::TransferFailed)
    );
    // a transfer to oneself moves nothing
    assert_eq!(book.transfer(SELL_TOKEN, SELLER, SELLER, 5), Ok(()));
    assert_eq!(book.balance(SELL_TOKEN, SELLER), i128::MAX);
    // balances of the same holder in another asset are separate
    assert_eq!(book.balance(BUY_TOKEN, SELLER), 0);
}

#[test]
fn authorization_proofs_cover_only_granted_identities() {
    let auth = AuthProof::new();
    assert_eq!(auth.require(SELLER), Err(Error::Unauthorized));
    let mut auth = auth;
    auth.grant(SELLER);
    assert_eq!(auth.require(SELLER), Ok(()));
    assert_eq!(auth.require(BUYER), Err(Error::Unauthorized));
}

#[test]
fn updated_rate_settles_exactly() {
    let auth = all_auths();
    let (mut ledger, mut book) = funded_ledger(1, 2);
    ledger.updt_price(&auth, 1, 1).unwrap();
    // exact ratio 1:1 recomputes sell_amount = 10, and 10 >= 9
    assert_eq!(ledger.trade(&mut book, &auth, BUYER, 10, 9), Ok(()));
    assert_eq!(book.balance(SELL_TOKEN, BUYER), 10);
    assert_eq!(book.balance(SELL_TOKEN, CONTRACT), 90);
    assert_eq!(book.balance(BUY_TOKEN, SELLER), 10);
    assert_eq!(book.balance(BUY_TOKEN, BUYER), 990);
}
