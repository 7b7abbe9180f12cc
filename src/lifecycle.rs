//! The three lifecycle operations: register, revoke and revise.
use vstd::prelude::*;
use crate::encoding::{derive_rating_id, encodable, rating_id_of};
use crate::ledger::{has_entry, lookup, slot_taken, Ledger, LedgerView};
use crate::types::{
    copy_bytes, bytes_eq, CallContext, CallContextView, EntryType, EntryView, RatingEntry,
    RatingError, RatingInput, RatingInputView,
};

verus! {

/// A byte field that is present and within the configured length.
pub open spec fn field_ok(s: Seq<u8>, max_length: u32) -> bool {
    0 < s.len() <= max_length
}

/// The payload and its submission token are well formed: nonzero score and
/// transaction count, and entity, provider and token present and bounded.
pub open spec fn valid_payload(input: RatingInputView, m: Seq<u8>, max_length: u32) -> bool {
    &&& input.total_encoded_rating != 0
    &&& input.count_of_txn != 0
    &&& field_ok(input.entity_id, max_length)
    &&& field_ok(input.provider_id, max_length)
    &&& field_ok(m, max_length)
}

/// The caller's identity and authorized space can be fed to the codec.
pub open spec fn context_ok(ctx: CallContextView) -> bool {
    &&& encodable(ctx.issuer)
    &&& ctx.space matches Some(s) ==> encodable(s)
}

/// Checks a payload and its submission token.
pub fn validate_payload(input: &RatingInput, m: &Vec<u8>, max_length: u32) -> (r: bool)
    ensures
        r == valid_payload(input@, m@, max_length),
{
    input.total_encoded_rating != 0 && input.count_of_txn != 0 && input.entity_id.len() > 0
        && input.entity_id.len() <= max_length as usize && input.provider_id.len() > 0
        && input.provider_id.len() <= max_length as usize && m.len() > 0 && m.len()
        <= max_length as usize
}

/// A new entry built from a payload.
pub open spec fn entry_from_input(
    id: Seq<u8>,
    input: RatingInputView,
    digest: Seq<u8>,
    ctx: CallContextView,
    space: Seq<u8>,
    entry_type: EntryType,
    reference_id: Option<Seq<u8>>,
) -> EntryView {
    EntryView {
        identifier: id,
        entity_id: input.entity_id,
        provider_id: input.provider_id,
        rating_type: input.rating_type,
        total_encoded_rating: input.total_encoded_rating,
        count_of_txn: input.count_of_txn,
        issuer: ctx.issuer,
        digest,
        entry_type,
        reference_id,
        space,
        created_at: ctx.block_number,
    }
}

/// The identifier that a register or a revise derives.
pub open spec fn payload_id(
    input: RatingInputView,
    digest: Seq<u8>,
    m: Seq<u8>,
    ctx: CallContextView,
) -> Seq<u8> {
    rating_id_of(digest, input.entity_id, m, ctx.space->0, ctx.issuer)
}

/// What registering a rating does to ledger `l`: the entry it adds, or the
/// error it reports.
pub open spec fn register_outcome(
    l: LedgerView,
    input: RatingInputView,
    digest: Seq<u8>,
    m: Seq<u8>,
    ctx: CallContextView,
) -> Result<EntryView, RatingError> {
    register_outcome_with(l, input, digest, m, ctx, payload_id(input, digest, m, ctx))
}

/// What registering a rating does to ledger `l` when its derived identifier
/// is `id`.
pub open spec fn register_outcome_with(
    l: LedgerView,
    input: RatingInputView,
    digest: Seq<u8>,
    m: Seq<u8>,
    ctx: CallContextView,
    id: Seq<u8>,
) -> Result<EntryView, RatingError> {
    if !valid_payload(input, m, l.max_length) {
        Err(RatingError::InvalidRatingValue)
    } else if ctx.space is None {
        Err(RatingError::Unauthorized)
    } else if slot_taken(l.slots, m, ctx.issuer) {
        Err(RatingError::MessageIdAlreadyExists)
    } else {
        let space = ctx.space->0;
        if has_entry(l.entries, id) {
            Err(RatingError::RatingIdentifierAlreadyAdded)
        } else {
            Ok(entry_from_input(id, input, digest, ctx, space, EntryType::Credit, None))
        }
    }
}

/// The identifier that revoking entry `target` derives: from the target's
/// stored digest, entity and space, with the new token.
pub open spec fn revoke_id(
    l: LedgerView,
    target: Seq<u8>,
    m: Seq<u8>,
    ctx: CallContextView,
) -> Seq<u8> {
    let t = lookup(l.entries, target)->0;
    rating_id_of(t.digest, t.entity_id, m, t.space, ctx.issuer)
}

/// What revoking entry `target` does to ledger `l`: the debit entry it adds,
/// or the error it reports.
pub open spec fn revoke_outcome(
    l: LedgerView,
    target: Seq<u8>,
    m: Seq<u8>,
    digest: Seq<u8>,
    ctx: CallContextView,
) -> Result<EntryView, RatingError> {
    revoke_outcome_with(l, target, m, digest, ctx, revoke_id(l, target, m, ctx))
}

/// What revoking entry `target` does to ledger `l` when the derived
/// identifier is `id`.
pub open spec fn revoke_outcome_with(
    l: LedgerView,
    target: Seq<u8>,
    m: Seq<u8>,
    digest: Seq<u8>,
    ctx: CallContextView,
    id: Seq<u8>,
) -> Result<EntryView, RatingError> {
    if ctx.space is None {
        Err(RatingError::Unauthorized)
    } else if lookup(l.entries, target) is None {
        Err(RatingError::RatingIdentifierNotFound)
    } else {
        let t = lookup(l.entries, target)->0;
        let space = ctx.space->0;
        if t.space != space {
            Err(RatingError::SpaceMismatch)
        } else if t.entry_type != EntryType::Credit {
            Err(RatingError::RatingNotCreditIdentifier)
        } else if slot_taken(l.slots, m, ctx.issuer) {
            Err(RatingError::MessageIdAlreadyExists)
        } else if has_entry(l.entries, id) {
            Err(RatingError::RatingIdentifierAlreadyAdded)
        } else {
            Ok(
                EntryView {
                    identifier: id,
                    issuer: ctx.issuer,
                    digest,
                    entry_type: EntryType::Debit,
                    reference_id: Some(target),
                    created_at: ctx.block_number,
                    ..t
                },
            )
        }
    }
}

/// What revising the chain closed by debit `reference` does to ledger `l`:
/// the credit entry it adds, or the error it reports.
pub open spec fn revise_outcome(
    l: LedgerView,
    input: RatingInputView,
    digest: Seq<u8>,
    m: Seq<u8>,
    reference: Seq<u8>,
    ctx: CallContextView,
) -> Result<EntryView, RatingError> {
    revise_outcome_with(l, input, digest, m, reference, ctx, payload_id(input, digest, m, ctx))
}

/// What revising the chain closed by debit `reference` does to ledger `l`
/// when the derived identifier is `id`.
pub open spec fn revise_outcome_with(
    l: LedgerView,
    input: RatingInputView,
    digest: Seq<u8>,
    m: Seq<u8>,
    reference: Seq<u8>,
    ctx: CallContextView,
    id: Seq<u8>,
) -> Result<EntryView, RatingError> {
    if !valid_payload(input, m, l.max_length) {
        Err(RatingError::InvalidRatingValue)
    } else if ctx.space is None {
        Err(RatingError::Unauthorized)
    } else if slot_taken(l.slots, m, ctx.issuer) {
        Err(RatingError::MessageIdAlreadyExists)
    } else {
        let space = ctx.space->0;
        if has_entry(l.entries, id) {
            Err(RatingError::RatingIdentifierAlreadyAdded)
        } else if lookup(l.entries, reference) is None {
            Err(RatingError::ReferenceIdentifierNotFound)
        } else {
            let d = lookup(l.entries, reference)->0;
            if d.entry_type != EntryType::Debit {
                Err(RatingError::ReferenceNotDebitIdentifier)
            } else if d.entity_id != input.entity_id {
                Err(RatingError::EntityMismatch)
            } else if d.space != space {
                Err(RatingError::SpaceMismatch)
            } else {
                Ok(
                    entry_from_input(
                        id,
                        input,
                        digest,
                        ctx,
                        space,
                        EntryType::Credit,
                        Some(reference),
                    ),
                )
            }
        }
    }
}

/// The ledger after an operation with the given outcome, and what the
/// operation returned: the new identifier, or the error with the ledger
/// unchanged.
pub open spec fn applied(
    pre: LedgerView,
    post: LedgerView,
    outcome: Result<EntryView, RatingError>,
    m: Seq<u8>,
    issuer: Seq<u8>,
    r: Result<Vec<u8>, RatingError>,
) -> bool {
    match outcome {
        Ok(e) => r is Ok && r->Ok_0@ == e.identifier && post == pre.committed(e, m, issuer),
        Err(err) => r == Err::<Vec<u8>, RatingError>(err) && post == pre,
    }
}

impl Ledger {
    /// Registers a new credit entry for `input`, identified by the digest of
    /// its chain-relevant fields.
    pub fn register_rating(
        &mut self,
        input: RatingInput,
        digest: Vec<u8>,
        message_id: Vec<u8>,
        ctx: &CallContext,
    ) -> (r: Result<Vec<u8>, RatingError>)
        requires
            old(self).wf(),
            encodable(digest@),
            context_ok(ctx@),
        ensures
            final(self).wf(),
            applied(
                old(self)@,
                final(self)@,
                register_outcome(old(self)@, input@, digest@, message_id@, ctx@),
                message_id@,
                ctx@.issuer,
                r,
            ),
    {
        if !validate_payload(&input, &message_id, self.max_length()) {
            return Err(RatingError::InvalidRatingValue);
        }
        let space = match &ctx.space {
            Some(s) => s,
            None => {
                return Err(RatingError::Unauthorized);
            },
        };
        let id = derive_rating_id(&digest, &input.entity_id, &message_id, space, &ctx.issuer);
        self.register_rating_with_id(input, digest, message_id, ctx, id)
    }

    /// Registers a new credit entry for `input` under the derived identifier
    /// `id`.
    pub fn register_rating_with_id(
        &mut self,
        input: RatingInput,
        digest: Vec<u8>,
        message_id: Vec<u8>,
        ctx: &CallContext,
        id: Vec<u8>,
    ) -> (r: Result<Vec<u8>, RatingError>)
        requires
            old(self).wf(),
            encodable(digest@),
            context_ok(ctx@),
        ensures
            final(self).wf(),
            applied(
                old(self)@,
                final(self)@,
                register_outcome_with(old(self)@, input@, digest@, message_id@, ctx@, id@),
                message_id@,
                ctx@.issuer,
                r,
            ),
    {
        if !validate_payload(&input, &message_id, self.max_length()) {
            return Err(RatingError::InvalidRatingValue);
        }
        let space = match &ctx.space {
            Some(s) => s,
            None => {
                return Err(RatingError::Unauthorized);
            },
        };
        if self.check_message_id(&message_id, &ctx.issuer).is_err() {
            return Err(RatingError::MessageIdAlreadyExists);
        }
        if self.find_entry(&id).is_some() {
            return Err(RatingError::RatingIdentifierAlreadyAdded);
        }
        let ghost expected = register_outcome_with(
            self@,
            input@,
            digest@,
            message_id@,
            ctx@,
            id@,
        )->Ok_0;
        let entry = RatingEntry {
            identifier: copy_bytes(&id),
            entity_id: input.entity_id,
            provider_id: input.provider_id,
            rating_type: input.rating_type,
            total_encoded_rating: input.total_encoded_rating,
            count_of_txn: input.count_of_txn,
            issuer: copy_bytes(&ctx.issuer),
            digest,
            entry_type: EntryType::Credit,
            reference_id: None,
            space: copy_bytes(space),
            created_at: ctx.block_number,
        };
        assert(entry@ == expected);
        self.commit(entry, message_id, copy_bytes(&ctx.issuer));
        Ok(id)
    }

    /// Revokes credit entry `target`, adding a debit entry that references it.
    /// Its identifier is derived from the target's stored digest, entity and
    /// space with the new token.
    pub fn revoke_rating(
        &mut self,
        target: &Vec<u8>,
        message_id: Vec<u8>,
        digest: Vec<u8>,
        ctx: &CallContext,
    ) -> (r: Result<Vec<u8>, RatingError>)
        requires
            old(self).wf(),
            encodable(digest@),
            encodable(message_id@),
            context_ok(ctx@),
        ensures
            final(self).wf(),
            applied(
                old(self)@,
                final(self)@,
                revoke_outcome(old(self)@, target@, message_id@, digest@, ctx@),
                message_id@,
                ctx@.issuer,
                r,
            ),
    {
        if ctx.space.is_none() {
            return Err(RatingError::Unauthorized);
        }
        let idx = match self.find_entry(target) {
            Some(i) => i,
            None => {
                return Err(RatingError::RatingIdentifierNotFound);
            },
        };
        let t = self.entry_at(idx);
        proof {
            assert(self@.entries.contains(t@));
        }
        let id = derive_rating_id(&t.digest, &t.entity_id, &message_id, &t.space, &ctx.issuer);
        self.revoke_rating_with_id(target, message_id, digest, ctx, id)
    }

    /// Revokes credit entry `target` with a debit entry under the derived
    /// identifier `id`.
    pub fn revoke_rating_with_id(
        &mut self,
        target: &Vec<u8>,
        message_id: Vec<u8>,
        digest: Vec<u8>,
        ctx: &CallContext,
        id: Vec<u8>,
    ) -> (r: Result<Vec<u8>, RatingError>)
        requires
            old(self).wf(),
            encodable(digest@),
            context_ok(ctx@),
        ensures
            final(self).wf(),
            applied(
                old(self)@,
                final(self)@,
                revoke_outcome_with(old(self)@, target@, message_id@, digest@, ctx@, id@),
                message_id@,
                ctx@.issuer,
                r,
            ),
    {
        let space = match &ctx.space {
            Some(s) => s,
            None => {
                return Err(RatingError::Unauthorized);
            },
        };
        let idx = match self.find_entry(target) {
            Some(i) => i,
            None => {
                return Err(RatingError::RatingIdentifierNotFound);
            },
        };
        let t = self.entry_at(idx);
        if !bytes_eq(&t.space, space) {
            return Err(RatingError::SpaceMismatch);
        }
        if t.entry_type != EntryType::Credit {
            return Err(RatingError::RatingNotCreditIdentifier);
        }
        if self.check_message_id(&message_id, &ctx.issuer).is_err() {
            return Err(RatingError::MessageIdAlreadyExists);
        }
        if self.find_entry(&id).is_some() {
            return Err(RatingError::RatingIdentifierAlreadyAdded);
        }
        proof {
            assert(self@.entries.contains(t@));
        }
        let ghost expected = revoke_outcome_with(
            self@,
            target@,
            message_id@,
            digest@,
            ctx@,
            id@,
        )->Ok_0;
        let entry = RatingEntry {
            identifier: copy_bytes(&id),
            entity_id: copy_bytes(&t.entity_id),
            provider_id: copy_bytes(&t.provider_id),
            rating_type: t.rating_type,
            total_encoded_rating: t.total_encoded_rating,
            count_of_txn: t.count_of_txn,
            issuer: copy_bytes(&ctx.issuer),
            digest,
            entry_type: EntryType::Debit,
            reference_id: Some(copy_bytes(target)),
            space: copy_bytes(&t.space),
            created_at: ctx.block_number,
        };
        assert(entry@ == expected);
        self.commit(entry, message_id, copy_bytes(&ctx.issuer));
        Ok(id)
    }

    /// Revises a revoked rating: adds a credit entry for `input` that
    /// references debit entry `reference`, identified by the digest of its
    /// chain-relevant fields.
    pub fn revise_rating(
        &mut self,
        input: RatingInput,
        digest: Vec<u8>,
        message_id: Vec<u8>,
        reference: &Vec<u8>,
        ctx: &CallContext,
    ) -> (r: Result<Vec<u8>, RatingError>)
        requires
            old(self).wf(),
            encodable(digest@),
            context_ok(ctx@),
        ensures
            final(self).wf(),
            applied(
                old(self)@,
                final(self)@,
                revise_outcome(old(self)@, input@, digest@, message_id@, reference@, ctx@),
                message_id@,
                ctx@.issuer,
                r,
            ),
    {
        if !validate_payload(&input, &message_id, self.max_length()) {
            return Err(RatingError::InvalidRatingValue);
        }
        let space = match &ctx.space {
            Some(s) => s,
            None => {
                return Err(RatingError::Unauthorized);
            },
        };
        let id = derive_rating_id(&digest, &input.entity_id, &message_id, space, &ctx.issuer);
        self.revise_rating_with_id(input, digest, message_id, reference, ctx, id)
    }

    /// Revises a revoked rating with a credit entry under the derived
    /// identifier `id` that references debit entry `reference`.
    pub fn revise_rating_with_id(
        &mut self,
        input: RatingInput,
        digest: Vec<u8>,
        message_id: Vec<u8>,
        reference: &Vec<u8>,
        ctx: &CallContext,
        id: Vec<u8>,
    ) -> (r: Result<Vec<u8>, RatingError>)
        requires
            old(self).wf(),
            encodable(digest@),
            context_ok(ctx@),
        ensures
            final(self).wf(),
            applied(
                old(self)@,
                final(self)@,
                revise_outcome_with(old(self)@, input@, digest@, message_id@, reference@, ctx@, id@),
                message_id@,
                ctx@.issuer,
                r,
            ),
    {
        if !validate_payload(&input, &message_id, self.max_length()) {
            return Err(RatingError::InvalidRatingValue);
        }
        let space = match &ctx.space {
            Some(s) => s,
            None => {
                return Err(RatingError::Unauthorized);
            },
        };
        if self.check_message_id(&message_id, &ctx.issuer).is_err() {
            return Err(RatingError::MessageIdAlreadyExists);
        }
        if self.find_entry(&id).is_some() {
            return Err(RatingError::RatingIdentifierAlreadyAdded);
        }
        let idx = match self.find_entry(reference) {
            Some(i) => i,
            None => {
                return Err(RatingError::ReferenceIdentifierNotFound);
            },
        };
        let d = self.entry_at(idx);
        if d.entry_type != EntryType::Debit {
            return Err(RatingError::ReferenceNotDebitIdentifier);
        }
        if !bytes_eq(&d.entity_id, &input.entity_id) {
            return Err(RatingError::EntityMismatch);
        }
        if !bytes_eq(&d.space, space) {
            return Err(RatingError::SpaceMismatch);
        }
        let ghost expected = revise_outcome_with(
            self@,
            input@,
            digest@,
            message_id@,
            reference@,
            ctx@,
            id@,
        )->Ok_0;
        let entry = RatingEntry {
            identifier: copy_bytes(&id),
            entity_id: input.entity_id,
            provider_id: input.provider_id,
            rating_type: input.rating_type,
            total_encoded_rating: input.total_encoded_rating,
            count_of_txn: input.count_of_txn,
            issuer: copy_bytes(&ctx.issuer),
            digest,
            entry_type: EntryType::Credit,
            reference_id: Some(copy_bytes(reference)),
            space: copy_bytes(space),
            created_at: ctx.block_number,
        };
        assert(entry@ == expected);
        self.commit(entry, message_id, copy_bytes(&ctx.issuer));
        Ok(id)
    }
}

} // verus!
