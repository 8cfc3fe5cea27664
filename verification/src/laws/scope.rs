//! Which block an update belongs to.

use crate::event::block_height;
use crate::proto::{SubscribeUpdate, Update};
use vstd::prelude::*;

verus! {

/// Whether an update is about something in a block, or at the tip, of some height.
pub open spec fn at_height(update: SubscribeUpdate, height: u32) -> bool {
    match update.update {
        Some(Update::Block(block)) => block.height == height,
        Some(Update::BestChain(change)) => change.height == height,
        Some(Update::Transaction(transaction)) => transaction.height == height,
        Some(Update::Utxo(utxo)) => utxo.height == height,
        _ => false,
    }
}

/// Whether an update is about the mempool or the stream itself, or about nothing.
pub open spec fn is_unscoped(update: SubscribeUpdate) -> bool {
    match update.update {
        Some(Update::Mempool(_)) => true,
        Some(Update::MempoolTransaction(_)) => true,
        Some(Update::Ping(_)) => true,
        Some(Update::Pong(_)) => true,
        None => true,
        _ => false,
    }
}

/// Every update of a block, of a change of the best chain, of a transaction in a block and of its
/// outputs belongs to the height that it carries. Everything else belongs to no height.
pub proof fn law_updates_belong_to_the_height_they_carry(
    update: SubscribeUpdate,
    found: Option<u32>,
    height: u32,
)
    requires
        call_ensures(block_height, (&update,), found),
    ensures
        at_height(update, height) <==> found == Some(height),
        is_unscoped(update) <==> found is None,
{
}

} // verus!
