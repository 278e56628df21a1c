//! Domain value types: item definition identifiers, item instances, price
//! triples and purchase receipts. All are immutable plain values produced by
//! decoding fixed-layout platform payloads or enumeration buffers.

use vstd::prelude::*;

verus! {

/// An item definition identifier (the platform's 32-bit signed definition id).
#[derive(Clone, Copy, Debug, PartialEq, Eq, Hash, Structural)]
pub struct SteamItem(pub i32);

/// An identifier of one concrete item instance (the platform's 64-bit id).
#[derive(Clone, Copy, Debug, PartialEq, Eq, Hash, Structural)]
pub struct SteamItemInstance(pub u64);

/// A purchase receipt, decoded verbatim from a purchase result payload.
#[derive(Clone, Copy, Debug, PartialEq, Eq, Hash, Structural)]
pub struct SteamPurchase {
    pub order_id: u64,
    pub transaction_id: u64,
}

/// One element of the items-with-prices enumeration: an item definition with
/// its current and base price in the local currency.
#[derive(Clone, Copy, Debug, PartialEq, Eq, Hash, Structural)]
pub struct SteamItemPrice {
    pub item: i32,
    pub price: u64,
    pub base_price: u64,
}

impl SteamItemPrice {
    /// The item this price is for.
    pub fn item(&self) -> (r: SteamItem)
        ensures
            r == SteamItem(self.item),
    {
        SteamItem(self.item)
    }

    /// The price of the item in the local currency.
    pub fn price(&self) -> (r: u64)
        ensures
            r == self.price,
    {
        self.price
    }

    /// The base price of the item in the local currency.
    pub fn base_price(&self) -> (r: u64)
        ensures
            r == self.base_price,
    {
        self.base_price
    }
}

} // verus!
