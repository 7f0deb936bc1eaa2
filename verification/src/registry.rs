//! PriceFeedBinding: the symbol-to-feed registry.
//!
//! An authority registers which oracle feed prices an asset symbol; the
//! rest of the core only reads the mapping. The newest registration for a
//! symbol wins.

use vstd::prelude::*;

verus! {

/// One registered binding from an asset symbol to an oracle feed
/// identifier.
pub struct PriceFeedBinding {
    /// Asset symbol, as registered.
    pub symbol: String,
    /// Oracle feed identifier the symbol resolves to.
    pub feed_id: String,
}

/// The registry: bindings in registration order, newest first.
pub struct FeedRegistry {
    /// The registered bindings; a symbol may appear more than once, and
    /// the earliest occurrence is authoritative.
    pub bindings: Vec<PriceFeedBinding>,
}

/// The feed a symbol resolves to, scanning the bindings from `i` on.
pub open spec fn spec_resolve_from(
    s: Seq<PriceFeedBinding>,
    i: int,
    symbol: Seq<char>,
) -> Option<Seq<char>>
    decreases s.len() - i,
{
    if i < 0 || i >= s.len() {
        None
    } else if s[i].symbol@ == symbol {
        Some(s[i].feed_id@)
    } else {
        spec_resolve_from(s, i + 1, symbol)
    }
}

/// The feed a symbol resolves to in the whole registry.
pub open spec fn spec_resolve(s: Seq<PriceFeedBinding>, symbol: Seq<char>) -> Option<Seq<char>> {
    spec_resolve_from(s, 0, symbol)
}

impl FeedRegistry {
    /// An empty registry, resolving no symbol.
    pub fn new() -> (r: FeedRegistry)
        ensures
            r.bindings@.len() == 0,
            forall|k: Seq<char>| spec_resolve(r.bindings@, k) is None,
    {
        FeedRegistry { bindings: Vec::new() }
    }
}

/// Inserting a binding in front shifts every earlier lookup by one.
proof fn lemma_resolve_shift(
    s: Seq<PriceFeedBinding>,
    b: PriceFeedBinding,
    i: int,
    symbol: Seq<char>,
)
    requires
        0 <= i <= s.len(),
    ensures
        spec_resolve_from(s.insert(0, b), i + 1, symbol) == spec_resolve_from(s, i, symbol),
    decreases s.len() - i,
{
    if i < s.len() {
        assert(s.insert(0, b)[i + 1] == s[i]);
        lemma_resolve_shift(s, b, i + 1, symbol);
    }
}

/// Register that `symbol` is priced by the oracle feed `feed_id`,
/// superseding any earlier binding of the symbol and leaving every other
/// symbol's resolution unchanged.
pub fn store_symbol_feed_id(registry: &mut FeedRegistry, symbol: String, feed_id: String)
    ensures
        final(registry).bindings@.len() == old(registry).bindings@.len() + 1,
        spec_resolve(final(registry).bindings@, symbol@) == Some(feed_id@),
        forall|k: Seq<char>|
            k != symbol@ ==> spec_resolve(final(registry).bindings@, k) == spec_resolve(
                old(registry).bindings@,
                k,
            ),
{
    let ghost before = registry.bindings@;
    registry.bindings.insert(0, PriceFeedBinding { symbol, feed_id });
    proof {
        let after = registry.bindings@;
        assert(after[0].symbol@ == symbol@);
        assert forall|k: Seq<char>| k != symbol@ implies spec_resolve(after, k) == spec_resolve(
            before,
            k,
        ) by {
            lemma_resolve_shift(before, after[0], 0, k);
        }
    }
}

/// Look the symbol up from index `i` on.
fn resolve_feed_from(bindings: &Vec<PriceFeedBinding>, i: usize, symbol: &String) -> (r: Option<
    String,
>)
    requires
        i <= bindings@.len(),
    ensures
        match r {
            Some(f) => spec_resolve_from(bindings@, i as int, symbol@) == Some(f@),
            None => spec_resolve_from(bindings@, i as int, symbol@) is None,
        },
    decreases bindings@.len() - i,
{
    if i >= bindings.len() {
        None
    } else if bindings[i].symbol == *symbol {
        Some(bindings[i].feed_id.clone())
    } else {
        resolve_feed_from(bindings, i + 1, symbol)
    }
}

/// Resolve an asset symbol to its oracle feed identifier: the read-only
/// lookup the core performs before querying the oracle.
pub fn resolve_feed(registry: &FeedRegistry, symbol: &String) -> (r: Option<String>)
    ensures
        match r {
            Some(f) => spec_resolve(registry.bindings@, symbol@) == Some(f@),
            None => spec_resolve(registry.bindings@, symbol@) is None,
        },
{
    resolve_feed_from(&registry.bindings, 0, symbol)
}

} // verus!
