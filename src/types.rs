//! The data that the ledger stores and the errors that its operations report.
use vstd::prelude::*;

verus! {

/// The category of a rating.
#[derive(Clone, Copy, Debug, PartialEq, Eq, Structural)]
pub enum RatingType {
    Overall,
    Delivery,
}

/// Whether an entry asserts a rating or reverses an earlier one.
#[derive(Clone, Copy, Debug, PartialEq, Eq, Structural)]
pub enum EntryType {
    Credit,
    Debit,
}

/// Why a lifecycle operation was rejected.
#[derive(Clone, Copy, Debug, PartialEq, Eq, Structural)]
pub enum RatingError {
    InvalidRatingValue,
    MessageIdAlreadyExists,
    RatingIdentifierAlreadyAdded,
    RatingIdentifierNotFound,
    ReferenceIdentifierNotFound,
    ReferenceNotDebitIdentifier,
    RatingNotCreditIdentifier,
    EntityMismatch,
    SpaceMismatch,
    Unauthorized,
}

/// A rating payload as a provider submits it.
#[derive(Clone, Debug)]
pub struct RatingInput {
    pub entity_id: Vec<u8>,
    pub provider_id: Vec<u8>,
    pub rating_type: RatingType,
    pub total_encoded_rating: u64,
    pub count_of_txn: u64,
}

/// The mathematical form of a [`RatingInput`].
pub struct RatingInputView {
    pub entity_id: Seq<u8>,
    pub provider_id: Seq<u8>,
    pub rating_type: RatingType,
    pub total_encoded_rating: u64,
    pub count_of_txn: u64,
}

impl View for RatingInput {
    type V = RatingInputView;

    open spec fn view(&self) -> RatingInputView {
        RatingInputView {
            entity_id: self.entity_id@,
            provider_id: self.provider_id@,
            rating_type: self.rating_type,
            total_encoded_rating: self.total_encoded_rating,
            count_of_txn: self.count_of_txn,
        }
    }
}

/// The already authenticated caller of an operation: the subject on whose
/// behalf it acts, the space its authorization resolved to (`None` where the
/// authorization was not valid), and the current ledger position.
#[derive(Clone, Debug)]
pub struct CallContext {
    pub issuer: Vec<u8>,
    pub space: Option<Vec<u8>>,
    pub block_number: u64,
}

/// The mathematical form of a [`CallContext`].
pub struct CallContextView {
    pub issuer: Seq<u8>,
    pub space: Option<Seq<u8>>,
    pub block_number: u64,
}

impl View for CallContext {
    type V = CallContextView;

    open spec fn view(&self) -> CallContextView {
        CallContextView {
            issuer: self.issuer@,
            space: match self.space {
                Some(s) => Some(s@),
                None => None,
            },
            block_number: self.block_number,
        }
    }
}

/// One entry of the ledger.
#[derive(Clone, Debug)]
pub struct RatingEntry {
    pub identifier: Vec<u8>,
    pub entity_id: Vec<u8>,
    pub provider_id: Vec<u8>,
    pub rating_type: RatingType,
    pub total_encoded_rating: u64,
    pub count_of_txn: u64,
    pub issuer: Vec<u8>,
    pub digest: Vec<u8>,
    pub entry_type: EntryType,
    pub reference_id: Option<Vec<u8>>,
    pub space: Vec<u8>,
    pub created_at: u64,
}

/// The mathematical form of a [`RatingEntry`].
pub struct EntryView {
    pub identifier: Seq<u8>,
    pub entity_id: Seq<u8>,
    pub provider_id: Seq<u8>,
    pub rating_type: RatingType,
    pub total_encoded_rating: u64,
    pub count_of_txn: u64,
    pub issuer: Seq<u8>,
    pub digest: Seq<u8>,
    pub entry_type: EntryType,
    pub reference_id: Option<Seq<u8>>,
    pub space: Seq<u8>,
    pub created_at: u64,
}

impl View for RatingEntry {
    type V = EntryView;

    open spec fn view(&self) -> EntryView {
        EntryView {
            identifier: self.identifier@,
            entity_id: self.entity_id@,
            provider_id: self.provider_id@,
            rating_type: self.rating_type,
            total_encoded_rating: self.total_encoded_rating,
            count_of_txn: self.count_of_txn,
            issuer: self.issuer@,
            digest: self.digest@,
            entry_type: self.entry_type,
            reference_id: match self.reference_id {
                Some(r) => Some(r@),
                None => None,
            },
            space: self.space@,
            created_at: self.created_at,
        }
    }
}

/// The record that a submission token was used by an issuer, and for what.
#[derive(Clone, Debug)]
pub struct MessageSlot {
    pub message_id: Vec<u8>,
    pub issuer: Vec<u8>,
    pub identifier: Vec<u8>,
}

/// The mathematical form of a [`MessageSlot`].
pub struct SlotView {
    pub message_id: Seq<u8>,
    pub issuer: Seq<u8>,
    pub identifier: Seq<u8>,
}

impl View for MessageSlot {
    type V = SlotView;

    open spec fn view(&self) -> SlotView {
        SlotView {
            message_id: self.message_id@,
            issuer: self.issuer@,
            identifier: self.identifier@,
        }
    }
}

/// Returns a copy of `v` with the same bytes.
pub fn copy_bytes(v: &Vec<u8>) -> (r: Vec<u8>)
    ensures
        r@ == v@,
{
    let r = v.clone();
    assert(r@ =~= v@);
    r
}

/// Tells whether two byte strings are equal.
pub fn bytes_eq(a: &Vec<u8>, b: &Vec<u8>) -> (r: bool)
    ensures
        r == (a@ == b@),
{
    if a.len() != b.len() {
        return false;
    }
    let mut i: usize = 0;
    while i < a.len()
        invariant
            a@.len() == b@.len(),
            i <= a@.len(),
            forall|j: int| 0 <= j < i ==> a@[j] == b@[j],
        decreases a@.len() - i,
    {
        if a[i] != b[i] {
            return false;
        }
        i = i + 1;
    }
    assert(a@ =~= b@);
    true
}

} // verus!
