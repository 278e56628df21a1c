//! The inventory facade: typed operations over the platform's inventory
//! subsystem. The native interface handle and the shared session it belongs
//! to live in the embedding layer, which issues the actual platform calls;
//! the facade carries the verified marshaling — building purchase requests,
//! registering pending calls with their timeout budget, and zipping the
//! parallel enumeration buffers into value triples.

use vstd::prelude::*;

use crate::context::SteamContext;
use crate::items::SteamItem;
use crate::items::SteamItemPrice;
use crate::registry::PendingEntry;
use crate::registry::ResultTag;

verus! {

/// Timeout budget, in tick time units, of a purchase call: if no completion
/// or failure record arrives within this many units of registration, the
/// entry resolves as a timeout.
pub const PURCHASE_TIMEOUT: u64 = 5000;

/// A single-element batch purchase request: parallel arrays of item
/// definition id and quantity, in the exact shape the platform's
/// issue-async-call primitive takes.
pub struct PurchaseRequest {
    pub items: Vec<i32>,
    pub quantities: Vec<u32>,
}

/// Length of the zipped enumeration: the shortest of the three parallel
/// buffers. When the platform fills all three consistently with its reported
/// count, this is that count.
pub open spec fn zipped_len(defs: Seq<i32>, prices: Seq<u64>, base_prices: Seq<u64>) -> nat {
    if defs.len() <= prices.len() && defs.len() <= base_prices.len() {
        defs.len()
    } else if prices.len() <= base_prices.len() {
        prices.len()
    } else {
        base_prices.len()
    }
}

/// The inventory facade.
pub struct Inventory {}

impl Inventory {
    /// A facade over the inventory subsystem of one session.
    pub fn new() -> (r: Inventory)
        ensures
            r == (Inventory {  }),
    {
        Inventory {  }
    }

    /// Zips the three parallel buffers the platform filled — item definition
    /// ids, current prices, base prices — element-wise into price triples,
    /// order preserved: element `i` of the result is made of index `i` of
    /// each buffer. A platform-reported count of zero yields the empty
    /// sequence, not an error: absence is not failure.
    ///
    /// The platform's count can race between the count query and the fill
    /// call; should the buffers then disagree in length, the result is
    /// deliberately truncated to the shortest buffer rather than trusting
    /// the first count.
    pub fn items_with_prices(
        &self,
        defs: &Vec<i32>,
        prices: &Vec<u64>,
        base_prices: &Vec<u64>,
    ) -> (r: Vec<SteamItemPrice>)
        ensures
            r@.len() == zipped_len(defs@, prices@, base_prices@),
            forall|i: int|
                0 <= i < r@.len() ==> r@[i] == (SteamItemPrice {
                    item: defs@[i],
                    price: prices@[i],
                    base_price: base_prices@[i],
                }),
    {
        let mut n: usize = defs.len();
        if prices.len() < n {
            n = prices.len();
        }
        if base_prices.len() < n {
            n = base_prices.len();
        }
        let mut r: Vec<SteamItemPrice> = Vec::new();
        let mut i: usize = 0;
        while i < n
            invariant
                n == zipped_len(defs@, prices@, base_prices@),
                n <= defs@.len(),
                n <= prices@.len(),
                n <= base_prices@.len(),
                i <= n,
                r@.len() == i,
                forall|j: int|
                    0 <= j < i ==> r@[j] == (SteamItemPrice {
                        item: defs@[j],
                        price: prices@[j],
                        base_price: base_prices@[j],
                    }),
            decreases n - i,
        {
            r.push(
                SteamItemPrice { item: defs[i], price: prices[i], base_price: base_prices[i] },
            );
            i += 1;
        }
        r
    }

    /// Builds the single-element batch request for purchasing `quantity` of
    /// `item`: parallel arrays holding exactly that definition id and that
    /// quantity. The quantity is passed through unvalidated — what the
    /// platform does with zero is platform-defined.
    pub fn purchase_request(&self, item: SteamItem, quantity: u32) -> (req: PurchaseRequest)
        ensures
            req.items@ == seq![item.0],
            req.quantities@ == seq![quantity],
    {
        let mut items: Vec<i32> = Vec::new();
        items.push(item.0);
        let mut quantities: Vec<u32> = Vec::new();
        quantities.push(quantity);
        proof {
            assert(items@ =~= seq![item.0]);
            assert(quantities@ =~= seq![quantity]);
        }
        PurchaseRequest { items, quantities }
    }

    /// Registers the purchase call the platform just issued: the new entry
    /// expects a purchase result payload and its timeout clock starts at
    /// `now`, with the fixed budget. The operation is non-blocking — the
    /// outcome arrives later, through the dispatch step, as exactly one of a
    /// decoded receipt, a mapped platform error, an I/O failure, or a
    /// timeout.
    ///
    /// The handle must not be pending: the platform never reuses a call
    /// handle while its entry is outstanding.
    pub fn start_purchase(&self, ctx: &mut SteamContext, call: u64, now: u64)
        requires
            old(ctx).wf(),
            !old(ctx)@.dom().contains(call),
            now + PURCHASE_TIMEOUT <= u64::MAX,
        ensures
            final(ctx).wf(),
            final(ctx)@ == old(ctx)@.insert(
                call,
                PendingEntry {
                    handle: call,
                    tag: ResultTag::Purchase,
                    deadline: (now + PURCHASE_TIMEOUT) as u64,
                },
            ),
    {
        ctx.register(call, ResultTag::Purchase, now + PURCHASE_TIMEOUT);
    }
}

} // verus!
