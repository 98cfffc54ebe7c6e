use vstd::prelude::*;

verus! {

/// One price level of a book: a price and a size, both decimal strings.
#[derive(Debug, Clone)]
pub struct BookLevel {
    pub price: String,
    pub size: String,
}

/// One order-book image for one asset, as the remote API returns it.
#[derive(Debug, Clone)]
pub struct OrderBookSnapshot {
    pub market: String,
    pub asset_id: String,
    pub hash: String,
    pub timestamp: String,
    pub bids: Vec<BookLevel>,
    pub asks: Vec<BookLevel>,
    pub min_order_size: Option<String>,
    pub neg_risk: Option<bool>,
    pub tick_size: Option<String>,
}

/// An envelope around a list of token parameters.
#[derive(Debug, Clone)]
pub struct BooksRequestParams {
    pub params: Vec<BookTokenParam>,
}

/// One element of the `POST /books` body.
#[derive(Debug, Clone)]
pub struct BookTokenParam {
    pub token_id: String,
}

/// The record kept in the state store under `ob:{asset_id}`; `bids` and
/// `asks` hold the serialized level lists, `updated_at` the local ingest time
/// in milliseconds.
#[derive(Debug, Clone)]
pub struct RedisBookRecord {
    pub bids: String,
    pub asks: String,
    pub hash: String,
    pub timestamp: String,
    pub updated_at: i64,
    pub market: String,
}

} // verus!
