//! Laws of the lifecycle operations, stated over their outcomes.
use vstd::prelude::*;
use crate::encoding::rating_id_of;
use crate::ledger::{has_entry, lemma_lookup_at, lemma_push_lookup, lookup, slot_taken, LedgerView};
use crate::lifecycle::{register_outcome, revise_outcome, revoke_outcome, valid_payload};
use crate::types::{CallContextView, EntryType, RatingError, RatingInputView, SlotView};

verus! {

/// Registering a valid payload, with a fresh token and a fresh identifier
/// under an authorized space, succeeds; a lookup of the new identifier then
/// finds a credit entry that references nothing.
pub proof fn lemma_register_valid_then_get(
    l: LedgerView,
    input: RatingInputView,
    digest: Seq<u8>,
    m: Seq<u8>,
    ctx: CallContextView,
)
    requires
        l.wf(),
        valid_payload(input, m, l.max_length),
        ctx.space is Some,
        !slot_taken(l.slots, m, ctx.issuer),
        !has_entry(l.entries, rating_id_of(digest, input.entity_id, m, ctx.space->0, ctx.issuer)),
    ensures
        register_outcome(l, input, digest, m, ctx) is Ok,
        ({
            let e = register_outcome(l, input, digest, m, ctx)->Ok_0;
            let post = l.committed(e, m, ctx.issuer);
            &&& lookup(post.entries, e.identifier) == Some(e)
            &&& e.entry_type == EntryType::Credit
            &&& e.reference_id is None
        }),
{
    let e = register_outcome(l, input, digest, m, ctx)->Ok_0;
    lemma_push_lookup(l.entries, e);
}

/// Once a registration succeeded, the same submission is rejected: for the
/// used token while its replay slot stands, and for the identifier that
/// already exists once the slot was cleared. It never overwrites.
pub proof fn lemma_register_twice_rejected(
    l: LedgerView,
    input: RatingInputView,
    digest: Seq<u8>,
    m: Seq<u8>,
    ctx: CallContextView,
)
    requires
        l.wf(),
        register_outcome(l, input, digest, m, ctx) is Ok,
    ensures
        ({
            let e = register_outcome(l, input, digest, m, ctx)->Ok_0;
            let post = l.committed(e, m, ctx.issuer);
            &&& register_outcome(post, input, digest, m, ctx) == Err::<
                crate::types::EntryView,
                RatingError,
            >(RatingError::MessageIdAlreadyExists)
            &&& register_outcome(post.without_slot(m, ctx.issuer), input, digest, m, ctx) == Err::<
                crate::types::EntryView,
                RatingError,
            >(RatingError::RatingIdentifierAlreadyAdded)
        }),
{
    let e = register_outcome(l, input, digest, m, ctx)->Ok_0;
    let post = l.committed(e, m, ctx.issuer);
    let n = l.slots.len() as int;
    assert(post.slots[n].message_id == m && post.slots[n].issuer == ctx.issuer);
    assert(slot_taken(post.slots, m, ctx.issuer));
    let n2 = l.entries.len() as int;
    assert(post.entries[n2].identifier == e.identifier);
    assert(has_entry(post.entries, e.identifier));
    let cleared = post.without_slot(m, ctx.issuer);
    let keep = |s: SlotView| !(s.message_id == m && s.issuer == ctx.issuer);
    assert(cleared.slots == post.slots.filter(keep));
    if slot_taken(cleared.slots, m, ctx.issuer) {
        let k = choose|k: int|
            0 <= k < cleared.slots.len() && (#[trigger] cleared.slots[k]).message_id == m
                && cleared.slots[k].issuer == ctx.issuer;
        post.slots.lemma_filter_pred(keep, k);
    }
}

/// In a register, revoke, revise sequence on an empty ledger, the revoke
/// reverses the registered entry, the revise continues from the revoke's
/// debit, and the final credit rates the same entity as the first.
pub proof fn lemma_chain(
    l0: LedgerView,
    in1: RatingInputView,
    d1: Seq<u8>,
    m1: Seq<u8>,
    ctx1: CallContextView,
    target: Seq<u8>,
    m2: Seq<u8>,
    d2: Seq<u8>,
    ctx2: CallContextView,
    in3: RatingInputView,
    d3: Seq<u8>,
    m3: Seq<u8>,
    reference: Seq<u8>,
    ctx3: CallContextView,
)
    requires
        l0.wf(),
        l0.entries.len() == 0,
        register_outcome(l0, in1, d1, m1, ctx1) is Ok,
        revoke_outcome(
            l0.committed(register_outcome(l0, in1, d1, m1, ctx1)->Ok_0, m1, ctx1.issuer),
            target,
            m2,
            d2,
            ctx2,
        ) is Ok,
        revise_outcome(
            l0.committed(register_outcome(l0, in1, d1, m1, ctx1)->Ok_0, m1, ctx1.issuer).committed(
                revoke_outcome(
                    l0.committed(register_outcome(l0, in1, d1, m1, ctx1)->Ok_0, m1, ctx1.issuer),
                    target,
                    m2,
                    d2,
                    ctx2,
                )->Ok_0,
                m2,
                ctx2.issuer,
            ),
            in3,
            d3,
            m3,
            reference,
            ctx3,
        ) is Ok,
    ensures
        ({
            let e1 = register_outcome(l0, in1, d1, m1, ctx1)->Ok_0;
            let l1 = l0.committed(e1, m1, ctx1.issuer);
            let e2 = revoke_outcome(l1, target, m2, d2, ctx2)->Ok_0;
            let l2 = l1.committed(e2, m2, ctx2.issuer);
            let e3 = revise_outcome(l2, in3, d3, m3, reference, ctx3)->Ok_0;
            &&& target == e1.identifier
            &&& e2.reference_id == Some(e1.identifier)
            &&& reference == e2.identifier
            &&& e3.reference_id == Some(e2.identifier)
            &&& e3.entity_id == e1.entity_id
        }),
{
    let e1 = register_outcome(l0, in1, d1, m1, ctx1)->Ok_0;
    let l1 = l0.committed(e1, m1, ctx1.issuer);
    let e2 = revoke_outcome(l1, target, m2, d2, ctx2)->Ok_0;
    let l2 = l1.committed(e2, m2, ctx2.issuer);
    assert(l1.entries =~= seq![e1]);
    assert(has_entry(l1.entries, target));
    let i = choose|i: int| 0 <= i < l1.entries.len() && (#[trigger] l1.entries[i]).identifier == target;
    assert(i == 0);
    lemma_lookup_at(l1.entries, 0);
    assert(l2.entries =~= seq![e1, e2]);
    lemma_push_lookup(l1.entries, e2);
    assert(has_entry(l2.entries, reference));
    let j = choose|j: int| 0 <= j < l2.entries.len() && (#[trigger] l2.entries[j]).identifier == reference;
    if j == 0 {
        lemma_lookup_at(l2.entries, 0);
        assert(reference != e2.identifier);
        assert(lookup(l2.entries, reference) == lookup(l1.entries, reference));
    }
}

/// Revising against a reference that is a credit entry fails with
/// `ReferenceNotDebitIdentifier` once the payload, token, space and candidate
/// identifier pass.
pub proof fn lemma_revise_credit_reference(
    l: LedgerView,
    input: RatingInputView,
    digest: Seq<u8>,
    m: Seq<u8>,
    reference: Seq<u8>,
    ctx: CallContextView,
)
    requires
        valid_payload(input, m, l.max_length),
        ctx.space is Some,
        !slot_taken(l.slots, m, ctx.issuer),
        !has_entry(l.entries, rating_id_of(digest, input.entity_id, m, ctx.space->0, ctx.issuer)),
        lookup(l.entries, reference) matches Some(c) && c.entry_type == EntryType::Credit,
    ensures
        revise_outcome(l, input, digest, m, reference, ctx) == Err::<
            crate::types::EntryView,
            RatingError,
        >(RatingError::ReferenceNotDebitIdentifier),
{
}

/// Revising a chain with a payload about another entity fails with
/// `EntityMismatch` when the other inputs are valid.
pub proof fn lemma_revise_entity_mismatch(
    l: LedgerView,
    input: RatingInputView,
    digest: Seq<u8>,
    m: Seq<u8>,
    reference: Seq<u8>,
    ctx: CallContextView,
)
    requires
        valid_payload(input, m, l.max_length),
        ctx.space is Some,
        !slot_taken(l.slots, m, ctx.issuer),
        !has_entry(l.entries, rating_id_of(digest, input.entity_id, m, ctx.space->0, ctx.issuer)),
        lookup(l.entries, reference) matches Some(d) && d.entry_type == EntryType::Debit
            && d.entity_id != input.entity_id,
    ensures
        revise_outcome(l, input, digest, m, reference, ctx) == Err::<
            crate::types::EntryView,
            RatingError,
        >(RatingError::EntityMismatch),
{
}

/// Revoking an entry recorded under one space with an authorization for
/// another fails with `SpaceMismatch`.
pub proof fn lemma_revoke_space_mismatch(
    l: LedgerView,
    target: Seq<u8>,
    m: Seq<u8>,
    digest: Seq<u8>,
    ctx: CallContextView,
)
    requires
        ctx.space is Some,
        lookup(l.entries, target) matches Some(t) && t.space != ctx.space->0,
    ensures
        revoke_outcome(l, target, m, digest, ctx) == Err::<crate::types::EntryView, RatingError>(
            RatingError::SpaceMismatch,
        ),
{
}

/// Revising a chain recorded under one space with an authorization for
/// another fails with `SpaceMismatch` when the other inputs are valid.
pub proof fn lemma_revise_space_mismatch(
    l: LedgerView,
    input: RatingInputView,
    digest: Seq<u8>,
    m: Seq<u8>,
    reference: Seq<u8>,
    ctx: CallContextView,
)
    requires
        valid_payload(input, m, l.max_length),
        ctx.space is Some,
        !slot_taken(l.slots, m, ctx.issuer),
        !has_entry(l.entries, rating_id_of(digest, input.entity_id, m, ctx.space->0, ctx.issuer)),
        lookup(l.entries, reference) matches Some(d) && d.entry_type == EntryType::Debit
            && d.entity_id == input.entity_id && d.space != ctx.space->0,
    ensures
        revise_outcome(l, input, digest, m, reference, ctx) == Err::<
            crate::types::EntryView,
            RatingError,
        >(RatingError::SpaceMismatch),
{
}

/// A zero score or a zero transaction count makes register and revise fail
/// with `InvalidRatingValue`, whatever the other inputs.
pub proof fn lemma_zero_values_rejected(
    l: LedgerView,
    input: RatingInputView,
    digest: Seq<u8>,
    m: Seq<u8>,
    reference: Seq<u8>,
    ctx: CallContextView,
)
    requires
        input.total_encoded_rating == 0 || input.count_of_txn == 0,
    ensures
        register_outcome(l, input, digest, m, ctx) == Err::<crate::types::EntryView, RatingError>(
            RatingError::InvalidRatingValue,
        ),
        revise_outcome(l, input, digest, m, reference, ctx) == Err::<
            crate::types::EntryView,
            RatingError,
        >(RatingError::InvalidRatingValue),
{
}

} // verus!
