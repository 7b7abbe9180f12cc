//! The append-only store of rating entries and the index of used submission
//! tokens.
use vstd::prelude::*;
use crate::encoding::encodable;
use crate::types::{
    bytes_eq, EntryType, EntryView, MessageSlot, RatingEntry, RatingError, SlotView,
};

verus! {

/// The store of rating entries and the replay index, with the configured
/// maximum length of the byte fields of a payload.
pub struct Ledger {
    pub(crate) entries: Vec<RatingEntry>,
    pub(crate) slots: Vec<MessageSlot>,
    pub(crate) max_length: u32,
}

/// The mathematical form of a [`Ledger`].
pub struct LedgerView {
    pub entries: Seq<EntryView>,
    pub slots: Seq<SlotView>,
    pub max_length: u32,
}

impl View for Ledger {
    type V = LedgerView;

    closed spec fn view(&self) -> LedgerView {
        LedgerView {
            entries: self.entries@.map_values(|e: RatingEntry| e@),
            slots: self.slots@.map_values(|s: MessageSlot| s@),
            max_length: self.max_length,
        }
    }
}

/// Some entry of `es` carries identifier `id`.
pub open spec fn has_entry(es: Seq<EntryView>, id: Seq<u8>) -> bool {
    exists|i: int| 0 <= i < es.len() && (#[trigger] es[i]).identifier == id
}

/// The entry of `es` with identifier `id`, if there is one.
pub open spec fn lookup(es: Seq<EntryView>, id: Seq<u8>) -> Option<EntryView> {
    if has_entry(es, id) {
        Some(es[choose|i: int| 0 <= i < es.len() && (#[trigger] es[i]).identifier == id])
    } else {
        None
    }
}

/// No two entries share an identifier.
pub open spec fn unique_ids(es: Seq<EntryView>) -> bool {
    forall|i: int, j: int|
        0 <= i < es.len() && 0 <= j < es.len() && (#[trigger] es[i]).identifier
            == (#[trigger] es[j]).identifier ==> i == j
}

/// The fields of every entry can be fed to the codec again.
pub open spec fn entries_encodable(es: Seq<EntryView>) -> bool {
    forall|i: int|
        0 <= i < es.len() ==> encodable((#[trigger] es[i]).digest) && encodable(es[i].entity_id)
            && encodable(es[i].space)
}

/// The reference chain is sound: a debit names an existing credit, a credit
/// that names an entry names an existing debit, and both lie in its space.
pub open spec fn chain_consistent(es: Seq<EntryView>) -> bool {
    forall|i: int| 0 <= i < es.len() ==> chain_ok(es, #[trigger] es[i])
}

/// Submission token `m` has been used by `issuer`.
pub open spec fn slot_taken(ss: Seq<SlotView>, m: Seq<u8>, issuer: Seq<u8>) -> bool {
    exists|i: int| 0 <= i < ss.len() && (#[trigger] ss[i]).message_id == m && ss[i].issuer == issuer
}

/// No (token, issuer) pair is recorded twice.
pub open spec fn unique_slots(ss: Seq<SlotView>) -> bool {
    forall|i: int, j: int|
        0 <= i < ss.len() && 0 <= j < ss.len() && (#[trigger] ss[i]).message_id
            == (#[trigger] ss[j]).message_id && ss[i].issuer == ss[j].issuer ==> i == j
}

impl LedgerView {
    /// The invariant of the store.
    pub open spec fn wf(self) -> bool {
        &&& unique_ids(self.entries)
        &&& entries_encodable(self.entries)
        &&& chain_consistent(self.entries)
        &&& unique_slots(self.slots)
    }

    /// The store after entry `e` was appended and (`m`, `issuer`) recorded as
    /// having produced it.
    pub open spec fn committed(self, e: EntryView, m: Seq<u8>, issuer: Seq<u8>) -> LedgerView {
        LedgerView {
            entries: self.entries.push(e),
            slots: self.slots.push(SlotView { message_id: m, issuer, identifier: e.identifier }),
            ..self
        }
    }

    /// The store after the replay slot of (`m`, `issuer`) was cleared.
    pub open spec fn without_slot(self, m: Seq<u8>, issuer: Seq<u8>) -> LedgerView {
        LedgerView {
            slots: self.slots.filter(|s: SlotView| !(s.message_id == m && s.issuer == issuer)),
            ..self
        }
    }
}

/// The entry at index `i` is what a lookup of its identifier finds.
pub proof fn lemma_lookup_at(es: Seq<EntryView>, i: int)
    requires
        unique_ids(es),
        0 <= i < es.len(),
    ensures
        has_entry(es, es[i].identifier),
        lookup(es, es[i].identifier) == Some(es[i]),
{
    assert(has_entry(es, es[i].identifier));
}

/// Appending an entry with a fresh identifier keeps the other lookups.
pub proof fn lemma_push_lookup(es: Seq<EntryView>, e: EntryView)
    requires
        unique_ids(es),
        !has_entry(es, e.identifier),
    ensures
        unique_ids(es.push(e)),
        lookup(es.push(e), e.identifier) == Some(e),
        forall|id: Seq<u8>|
            id != e.identifier ==> #[trigger] lookup(es.push(e), id) == lookup(es, id)
                && has_entry(es.push(e), id) == has_entry(es, id),
{
    let es2 = es.push(e);
    assert(unique_ids(es2)) by {
        assert forall|i: int, j: int|
            0 <= i < es2.len() && 0 <= j < es2.len() && (#[trigger] es2[i]).identifier
                == (#[trigger] es2[j]).identifier implies i == j by {
            if i < es.len() && j == es.len() {
                assert(es[i].identifier == e.identifier);
            }
            if j < es.len() && i == es.len() {
                assert(es[j].identifier == e.identifier);
            }
        }
    }
    lemma_lookup_at(es2, es.len() as int);
    assert forall|id: Seq<u8>| id != e.identifier implies #[trigger] lookup(es2, id) == lookup(
        es,
        id,
    ) && has_entry(es2, id) == has_entry(es, id) by {
        if has_entry(es, id) {
            let i = choose|i: int| 0 <= i < es.len() && (#[trigger] es[i]).identifier == id;
            lemma_lookup_at(es, i);
            assert(es2[i] == es[i]);
            lemma_lookup_at(es2, i);
        }
        if has_entry(es2, id) {
            let i = choose|i: int| 0 <= i < es2.len() && (#[trigger] es2[i]).identifier == id;
            assert(i < es.len());
            assert(es[i] == es2[i]);
        }
    }
}

/// The reference condition that an appended entry must meet.
pub open spec fn chain_ok(es: Seq<EntryView>, e: EntryView) -> bool {
    &&& e.entry_type == EntryType::Debit ==> e.reference_id is Some
    &&& e.reference_id matches Some(r) ==> {
        &&& has_entry(es, r)
        &&& lookup(es, r)->0.space == e.space
        &&& lookup(es, r)->0.entry_type != e.entry_type
    }
}

proof fn lemma_push_chain(es: Seq<EntryView>, e: EntryView)
    requires
        unique_ids(es),
        chain_consistent(es),
        !has_entry(es, e.identifier),
        chain_ok(es, e),
    ensures
        chain_consistent(es.push(e)),
{
    let es2 = es.push(e);
    lemma_push_lookup(es, e);
    assert forall|i: int| 0 <= i < es2.len() implies chain_ok(es2, #[trigger] es2[i]) by {
        if i < es.len() {
            assert(es2[i] == es[i]);
            assert(chain_ok(es, es[i]));
            if let Some(r) = es[i].reference_id {
                assert(r != e.identifier);
            }
        } else {
            if let Some(r) = e.reference_id {
                assert(r != e.identifier);
            }
        }
    }
}

proof fn lemma_push_slots(ss: Seq<SlotView>, s: SlotView)
    requires
        unique_slots(ss),
        !slot_taken(ss, s.message_id, s.issuer),
    ensures
        unique_slots(ss.push(s)),
{
    let ss2 = ss.push(s);
    assert forall|i: int, j: int|
        0 <= i < ss2.len() && 0 <= j < ss2.len() && (#[trigger] ss2[i]).message_id
            == (#[trigger] ss2[j]).message_id && ss2[i].issuer == ss2[j].issuer implies i == j by {
        if i < ss.len() && j == ss.len() {
            assert(ss[i].message_id == s.message_id);
        }
        if j < ss.len() && i == ss.len() {
            assert(ss[j].message_id == s.message_id);
        }
    }
}

proof fn lemma_push_encodable(es: Seq<EntryView>, e: EntryView)
    requires
        entries_encodable(es),
        encodable(e.digest),
        encodable(e.entity_id),
        encodable(e.space),
    ensures
        entries_encodable(es.push(e)),
{
    let es2 = es.push(e);
    assert forall|i: int| 0 <= i < es2.len() implies encodable((#[trigger] es2[i]).digest)
        && encodable(es2[i].entity_id) && encodable(es2[i].space) by {
        if i < es.len() {
            assert(es2[i] == es[i]);
        }
    }
}

/// Appending an entry that keeps the chain sound keeps the invariant.
pub proof fn lemma_push_wf(l: LedgerView, e: EntryView, s: SlotView)
    requires
        l.wf(),
        !has_entry(l.entries, e.identifier),
        !slot_taken(l.slots, s.message_id, s.issuer),
        encodable(e.digest),
        encodable(e.entity_id),
        encodable(e.space),
        chain_ok(l.entries, e),
    ensures
        (LedgerView { entries: l.entries.push(e), slots: l.slots.push(s), ..l }).wf(),
{
    lemma_push_lookup(l.entries, e);
    lemma_push_chain(l.entries, e);
    lemma_push_slots(l.slots, s);
    lemma_push_encodable(l.entries, e);
}

impl Ledger {
    /// The invariant of the store.
    pub open spec fn wf(&self) -> bool {
        self@.wf()
    }

    /// An empty store whose payload byte fields may hold up to `max_length`
    /// bytes.
    pub fn new(max_length: u32) -> (r: Ledger)
        ensures
            r.wf(),
            r@.entries.len() == 0,
            r@.slots.len() == 0,
            r@.max_length == max_length,
    {
        let r = Ledger { entries: Vec::new(), slots: Vec::new(), max_length };
        assert(r@.entries =~= Seq::<EntryView>::empty());
        assert(r@.slots =~= Seq::<SlotView>::empty());
        r
    }

    /// The maximum length of the byte fields of a payload.
    pub fn max_length(&self) -> (r: u32)
        ensures
            r == self@.max_length,
    {
        self.max_length
    }

    /// The index of the entry with identifier `id`, if there is one.
    pub(crate) fn find_entry(&self, id: &Vec<u8>) -> (r: Option<usize>)
        requires
            self.wf(),
        ensures
            match r {
                Some(i) => i < self@.entries.len() && self@.entries[i as int].identifier == id@
                    && lookup(self@.entries, id@) == Some(self@.entries[i as int]),
                None => !has_entry(self@.entries, id@) && lookup(self@.entries, id@) is None,
            },
    {
        let mut i: usize = 0;
        while i < self.entries.len()
            invariant
                i <= self@.entries.len(),
                self.wf(),
                self@.entries.len() == self.entries@.len(),
                forall|j: int| 0 <= j < i ==> (#[trigger] self@.entries[j]).identifier != id@,
            decreases self.entries@.len() - i,
        {
            if bytes_eq(&self.entries[i].identifier, id) {
                proof {
                    lemma_lookup_at(self@.entries, i as int);
                }
                return Some(i);
            }
            i = i + 1;
        }
        None
    }

    /// The index of the replay slot of (`m`, `issuer`), if there is one.
    pub(crate) fn find_slot(&self, m: &Vec<u8>, issuer: &Vec<u8>) -> (r: Option<usize>)
        ensures
            match r {
                Some(i) => i < self@.slots.len() && self@.slots[i as int].message_id == m@
                    && self@.slots[i as int].issuer == issuer@,
                None => !slot_taken(self@.slots, m@, issuer@),
            },
    {
        let mut i: usize = 0;
        while i < self.slots.len()
            invariant
                i <= self@.slots.len(),
                self@.slots.len() == self.slots@.len(),
                forall|j: int|
                    0 <= j < i ==> !((#[trigger] self@.slots[j]).message_id == m@
                        && self@.slots[j].issuer == issuer@),
            decreases self.slots@.len() - i,
        {
            if bytes_eq(&self.slots[i].message_id, m) && bytes_eq(&self.slots[i].issuer, issuer) {
                return Some(i);
            }
            i = i + 1;
        }
        None
    }

    /// The entry at index `i`.
    pub(crate) fn entry_at(&self, i: usize) -> (r: &RatingEntry)
        requires
            i < self@.entries.len(),
        ensures
            r@ == self@.entries[i as int],
    {
        &self.entries[i]
    }

    /// Appends entry `e` and records that (`m`, `issuer`) produced it.
    pub(crate) fn commit(&mut self, e: RatingEntry, m: Vec<u8>, issuer: Vec<u8>)
        requires
            old(self).wf(),
            !has_entry(old(self)@.entries, e@.identifier),
            !slot_taken(old(self)@.slots, m@, issuer@),
            encodable(e@.digest),
            encodable(e@.entity_id),
            encodable(e@.space),
            chain_ok(old(self)@.entries, e@),
        ensures
            final(self).wf(),
            final(self)@ == old(self)@.committed(e@, m@, issuer@),
    {
        let ghost pre = self@;
        let id = crate::types::copy_bytes(&e.identifier);
        let slot = MessageSlot { message_id: m, issuer, identifier: id };
        self.entries.push(e);
        self.slots.push(slot);
        proof {
            assert(self@.entries =~= pre.entries.push(e@));
            assert(self@.slots =~= pre.slots.push(slot@));
            lemma_push_wf(pre, e@, slot@);
        }
    }

    /// The replay guard: fails with `MessageIdAlreadyExists` exactly when
    /// submission token `m` has been used by `issuer`.
    pub fn check_message_id(&self, m: &Vec<u8>, issuer: &Vec<u8>) -> (r: Result<(), RatingError>)
        ensures
            r is Err <==> slot_taken(self@.slots, m@, issuer@),
            r is Err ==> r == Err::<(), RatingError>(RatingError::MessageIdAlreadyExists),
    {
        match self.find_slot(m, issuer) {
            Some(_) => Err(RatingError::MessageIdAlreadyExists),
            None => Ok(()),
        }
    }

    /// The entry with identifier `id`, if there is one.
    pub fn get(&self, id: &Vec<u8>) -> (r: Option<&RatingEntry>)
        requires
            self.wf(),
        ensures
            match r {
                Some(e) => lookup(self@.entries, id@) == Some(e@),
                None => lookup(self@.entries, id@) is None,
            },
    {
        match self.find_entry(id) {
            Some(i) => Some(&self.entries[i]),
            None => None,
        }
    }

    /// The identifier that submission token `m` of `issuer` produced, if its
    /// replay slot is present.
    pub fn message_identifier(&self, m: &Vec<u8>, issuer: &Vec<u8>) -> (r: Option<&Vec<u8>>)
        ensures
            match r {
                Some(id) => exists|i: int|
                    0 <= i < self@.slots.len() && (#[trigger] self@.slots[i]).message_id == m@
                        && self@.slots[i].issuer == issuer@ && self@.slots[i].identifier == id@,
                None => !slot_taken(self@.slots, m@, issuer@),
            },
    {
        match self.find_slot(m, issuer) {
            Some(i) => Some(&self.slots[i].identifier),
            None => None,
        }
    }

    /// Clears the replay slot of (`m`, `issuer`): an administrative action
    /// that lets the token be submitted again. Entries are left as they are.
    pub fn remove_message_id(&mut self, m: &Vec<u8>, issuer: &Vec<u8>)
        requires
            old(self).wf(),
        ensures
            final(self).wf(),
            final(self)@ == old(self)@.without_slot(m@, issuer@),
            !slot_taken(final(self)@.slots, m@, issuer@),
    {
        let ghost pre = self@;
        let ghost keep = |s: SlotView| !(s.message_id == m@ && s.issuer == issuer@);
        match self.find_slot(m, issuer) {
            Some(i) => {
                self.slots.remove(i);
                proof {
                    let ss = pre.slots;
                    let ss2 = self@.slots;
                    assert(ss2 =~= ss.remove(i as int));
                    assert forall|k: int| 0 <= k < ss.len() && k != i implies keep(ss[k]) by {
                        assert(!(ss[k].message_id == m@ && ss[k].issuer == issuer@));
                    }
                    lemma_filter_drops_one(ss, keep, i as int);
                    assert(!slot_taken(ss2, m@, issuer@)) by {
                        if slot_taken(ss2, m@, issuer@) {
                            let k = choose|k: int|
                                0 <= k < ss2.len() && (#[trigger] ss2[k]).message_id == m@
                                    && ss2[k].issuer == issuer@;
                            if k < i {
                                assert(ss2[k] == ss[k]);
                            } else {
                                assert(ss2[k] == ss[k + 1]);
                            }
                        }
                    }
                }
            },
            None => {
                proof {
                    let ss = pre.slots;
                    assert forall|k: int| 0 <= k < ss.len() implies keep(ss[k]) by {
                        assert(!(ss[k].message_id == m@ && ss[k].issuer == issuer@));
                    }
                    lemma_filter_keeps_all(ss, keep);
                }
            },
        }
    }
}

proof fn lemma_filter_keeps_all(ss: Seq<SlotView>, keep: spec_fn(SlotView) -> bool)
    requires
        forall|k: int| 0 <= k < ss.len() ==> keep(ss[k]),
    ensures
        ss.filter(keep) == ss,
    decreases ss.len(),
{
    reveal(Seq::filter);
    if ss.len() > 0 {
        lemma_filter_keeps_all(ss.drop_last(), keep);
        assert(ss.drop_last().push(ss.last()) =~= ss);
    }
}

proof fn lemma_filter_drops_one(ss: Seq<SlotView>, keep: spec_fn(SlotView) -> bool, i: int)
    requires
        0 <= i < ss.len(),
        !keep(ss[i]),
        forall|k: int| 0 <= k < ss.len() && k != i ==> keep(ss[k]),
    ensures
        ss.filter(keep) == ss.remove(i),
    decreases ss.len(),
{
    reveal(Seq::filter);
    if i == ss.len() - 1 {
        lemma_filter_keeps_all(ss.drop_last(), keep);
        assert(ss.remove(i) =~= ss.drop_last());
    } else {
        lemma_filter_drops_one(ss.drop_last(), keep, i);
        assert(ss.drop_last().remove(i).push(ss.last()) =~= ss.remove(i));
    }
}

} // verus!
