//! Which updates the client takes for repetitions.

use crate::buffer::bytes_contents;
use crate::dedup::{
    key_of, law_evicted_height_is_forgotten, law_other_keys_stay_new,
    law_repeated_update_is_suppressed, law_retained_keys_stay, DedupState, DEFAULT_HEIGHT_RETENTION,
};
use crate::event::spec_block_height;
use crate::laws::scope::{at_height, is_unscoped};
use crate::proto::SubscribeUpdate;
use vstd::prelude::*;

verus! {

/// Whether two updates have the same session and the same sequence number.
pub open spec fn same_position(one: SubscribeUpdate, other: SubscribeUpdate) -> bool {
    &&& bytes_contents(one.session_id) == bytes_contents(other.session_id)
    &&& one.sequence == other.sequence
}

/// Whether an update belongs to a block.
pub open spec fn is_scoped(update: SubscribeUpdate) -> bool {
    exists|height: u32| at_height(update, height)
}

/// Scoped updates are those with a height.
pub(crate) proof fn lemma_scope(update: SubscribeUpdate)
    ensures
        is_scoped(update) <==> spec_block_height(update) is Some,
        is_scoped(update) <==> !is_unscoped(update),
        forall|height: u32| #[trigger]
            at_height(update, height) <==> spec_block_height(update) == Some(height),
{
    if spec_block_height(update) is Some {
        assert(at_height(update, spec_block_height(update)->0));
    }
}

/// Two updates of blocks with the same session and sequence number are the same update, whatever
/// else they carry: the second one is a repetition.
pub proof fn law_same_position_is_a_repetition(
    first: &mut DedupState,
    second: &mut DedupState,
    one: SubscribeUpdate,
    other: SubscribeUpdate,
    fresh: bool,
    again: bool,
)
    requires
        first.well_formed(),
        first.spec_retention() > 0,
        call_ensures(DedupState::observe, (first, &one), fresh),
        *second == *final(first),
        call_ensures(DedupState::observe, (second, &other), again),
        is_scoped(one),
        is_scoped(other),
        same_position(one, other),
    ensures
        !again,
{
    lemma_scope(one);
    lemma_scope(other);
    first.law_memory_is_bounded();
    law_repeated_update_is_suppressed(
        first@,
        spec_block_height(one)->0,
        key_of(one),
        first.spec_retention(),
    );
}

/// Two updates with different sequence numbers, or of different sessions, are never taken for one
/// another: an update that is new stays new when another one is observed.
pub proof fn law_other_positions_stay_new(
    alone: &mut DedupState,
    first: &mut DedupState,
    second: &mut DedupState,
    one: SubscribeUpdate,
    other: SubscribeUpdate,
    fresh_alone: bool,
    fresh_one: bool,
    fresh_other: bool,
)
    requires
        first.well_formed(),
        *alone == *first,
        call_ensures(DedupState::observe, (alone, &other), fresh_alone),
        call_ensures(DedupState::observe, (first, &one), fresh_one),
        *second == *final(first),
        call_ensures(DedupState::observe, (second, &other), fresh_other),
        !same_position(one, other),
    ensures
        fresh_alone ==> fresh_other,
{
    lemma_scope(one);
    lemma_scope(other);
    first.law_memory_is_bounded();
    if fresh_alone && is_scoped(one) && is_scoped(other) && first.spec_retention() > 0 {
        law_other_keys_stay_new(
            first@,
            spec_block_height(one)->0,
            key_of(one),
            key_of(other),
            first.spec_retention(),
        );
    }
}

/// What belongs to no block is never a repetition, and makes nothing else one.
pub proof fn law_unscoped_updates_pass(
    alone: &mut DedupState,
    first: &mut DedupState,
    second: &mut DedupState,
    one: SubscribeUpdate,
    other: SubscribeUpdate,
    fresh_alone: bool,
    fresh_one: bool,
    fresh_other: bool,
)
    requires
        first.well_formed(),
        *alone == *first,
        call_ensures(DedupState::observe, (alone, &other), fresh_alone),
        call_ensures(DedupState::observe, (first, &one), fresh_one),
        *second == *final(first),
        call_ensures(DedupState::observe, (second, &other), fresh_other),
        is_unscoped(one),
    ensures
        fresh_one,
        fresh_other == fresh_alone,
{
    lemma_scope(one);
    lemma_scope(other);
}

/// Nothing is a repetition at first, and without any heights to remember nothing ever is.
pub proof fn law_everything_is_new_at_first(
    retention: usize,
    created: DedupState,
    standard: DedupState,
    fresh_state: &mut DedupState,
    any_state: &mut DedupState,
    update: SubscribeUpdate,
    fresh: bool,
    always: bool,
)
    requires
        call_ensures(DedupState::with_height_retention, (retention,), created),
        call_ensures(<DedupState as Default>::default, (), standard),
        *fresh_state == created || *fresh_state == standard,
        call_ensures(DedupState::observe, (fresh_state, &update), fresh),
        any_state.well_formed(),
        any_state.spec_retention() == 0,
        call_ensures(DedupState::observe, (any_state, &update), always),
    ensures
        fresh,
        always,
        created.spec_retention() == retention,
        standard.spec_retention() == DEFAULT_HEIGHT_RETENTION,
        DEFAULT_HEIGHT_RETENTION == 250,
{
}

/// A new state remembers as many heights as it was told to, the latest ones: an update is still a
/// repetition after one of another height, unless only one height is remembered.
pub proof fn law_latest_heights_are_remembered(
    retention: usize,
    created: DedupState,
    first: &mut DedupState,
    second: &mut DedupState,
    third: &mut DedupState,
    one: SubscribeUpdate,
    other: SubscribeUpdate,
    height: u32,
    other_height: u32,
    fresh: (bool, bool, bool),
)
    requires
        call_ensures(DedupState::with_height_retention, (retention,), created),
        retention > 0,
        *first == created,
        call_ensures(DedupState::observe, (first, &one), fresh.0),
        *second == *final(first),
        call_ensures(DedupState::observe, (second, &other), fresh.1),
        *third == *final(second),
        call_ensures(DedupState::observe, (third, &one), fresh.2),
        at_height(one, height),
        at_height(other, other_height),
        !same_position(one, other),
    ensures
        fresh.0,
        fresh.1,
        fresh.2 <==> retention == 1 && height != other_height,
{
    lemma_scope(one);
    lemma_scope(other);
    let start = first@;
    let key = key_of(one);
    let other_key = key_of(other);
    first.law_memory_is_bounded();
    second.law_memory_is_bounded();
    law_repeated_update_is_suppressed(start, height, key, retention);
    law_other_keys_stay_new(start, height, key, other_key, retention);
    let after = second@;
    assert(after.len() == 1 && after[0].height == height);
    assert(after[0].keys =~= seq![key]);
    assert(after[0].keys[0] == key);
    if retention == 1 && height != other_height {
        law_evicted_height_is_forgotten(after, other_height, other_key, key, retention);
    } else {
        law_retained_keys_stay(after, other_height, other_key, 0, key, retention);
    }
}

} // verus!
