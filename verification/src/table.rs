//! The token table: active transfers keyed by small recycled integers.

use slab::Slab;
use vstd::prelude::*;

verus! {

#[verifier::external_type_specification]
#[verifier::external_body]
#[verifier::reject_recursive_types(T)]
pub struct ExSlab<T>(Slab<T>);

/// The occupied slots of a slab of transfer identifiers: the key of each
/// occupied slot, mapped to the value stored in it.
pub uninterp spec fn slab_entries(slab: Slab<u64>) -> Map<usize, u64>;

/// The keys of a slab's freed slots, in the order in which insertions will
/// take them: the slab's next key first, then the link stored in each freed
/// slot, up to the link that points past the last slot.
pub uninterp spec fn slab_free_chain(slab: Slab<u64>) -> Seq<usize>;

/// The number of slots that a slab has ever opened, occupied or freed.
pub uninterp spec fn slab_slot_count(slab: Slab<u64>) -> usize;

/// Whether a map of entries holds none.
pub open spec fn no_entry(entries: Map<usize, u64>) -> bool {
    forall|key: usize| !entries.contains_key(key)
}

/// The key that the next insertion takes: the first freed slot, or a new
/// slot behind the last where none is free.
pub open spec fn head_of(free: Seq<usize>, slots: usize) -> usize {
    if free.len() > 0 {
        free[0]
    } else {
        slots
    }
}

/// Whether freed slots and entries fit together: every entry lies in an
/// opened slot, no freed slot holds an entry, and no slot is freed twice.
pub open spec fn chain_is_sound(entries: Map<usize, u64>, free: Seq<usize>, slots: usize) -> bool {
    &&& forall|key: usize| entries.contains_key(key) ==> key < slots
    &&& forall|i: int|
        0 <= i < free.len() ==> !entries.contains_key(#[trigger] free[i]) && free[i] < slots
    &&& forall|i: int, j: int| 0 <= i < j < free.len() ==> free[i] != free[j]
}

/// Whether an insertion takes the freed slots `free` and the slot count
/// `slots` to `free_after` and `slots_after`: the first freed slot is taken
/// and the rest stay in order, or, where none is free, one slot is opened.
pub open spec fn insertion_takes(
    free: Seq<usize>,
    slots: usize,
    free_after: Seq<usize>,
    slots_after: usize,
) -> bool {
    if free.len() > 0 {
        free_after == free.drop_first() && slots_after == slots
    } else {
        free_after == free && slots_after == slots + 1
    }
}

/// Where freed slots and entries fit together, the key of the next
/// insertion holds no entry.
pub proof fn lemma_head_is_vacant(entries: Map<usize, u64>, free: Seq<usize>, slots: usize)
    requires
        chain_is_sound(entries, free, slots),
    ensures
        !entries.contains_key(head_of(free, slots)),
{
    if free.len() > 0 {
        assert(!entries.contains_key(free[0]));
    }
}

/// An insertion keeps freed slots and entries fitting together.
pub proof fn lemma_insert_is_sound(
    entries: Map<usize, u64>,
    free: Seq<usize>,
    slots: usize,
    value: u64,
    free_after: Seq<usize>,
    slots_after: usize,
)
    requires
        chain_is_sound(entries, free, slots),
        insertion_takes(free, slots, free_after, slots_after),
    ensures
        chain_is_sound(entries.insert(head_of(free, slots), value), free_after, slots_after),
{
    let after = entries.insert(head_of(free, slots), value);
    if free.len() > 0 {
        assert(!entries.contains_key(free[0]));
        assert forall|i: int| 0 <= i < free_after.len() implies !after.contains_key(
            #[trigger] free_after[i],
        ) by {
            assert(free_after[i] == free[i + 1]);
            assert(free[0] != free[i + 1]);
        }
        assert forall|i: int, j: int| 0 <= i < j < free_after.len() implies free_after[i]
            != free_after[j] by {
            assert(free[i + 1] != free[j + 1]);
        }
        assert(free[0] < slots);
    }
}

/// A removal keeps freed slots and entries fitting together.
pub proof fn lemma_remove_is_sound(
    entries: Map<usize, u64>,
    free: Seq<usize>,
    slots: usize,
    key: usize,
)
    requires
        chain_is_sound(entries, free, slots),
        entries.contains_key(key),
    ensures
        chain_is_sound(entries.remove(key), seq![key] + free, slots),
{
    let after = seq![key] + free;
    assert forall|i: int| 0 <= i < after.len() implies !entries.remove(key).contains_key(
        #[trigger] after[i],
    ) by {
        if i > 0 {
            assert(after[i] == free[i - 1]);
        }
    }
    assert forall|i: int, j: int| 0 <= i < j < after.len() implies after[i] != after[j] by {
        assert(after[j] == free[j - 1]);
        if i > 0 {
            assert(after[i] == free[i - 1]);
        }
    }
}

/// `Slab::new`: a slab with no slot at all.
#[verifier::external_body]
fn slab_new() -> (fresh: Slab<u64>)
    ensures
        no_entry(slab_entries(fresh)),
        slab_free_chain(fresh) == Seq::<usize>::empty(),
        slab_slot_count(fresh) == 0,
{
    Slab::new()
}

/// `Slab::is_empty`: whether no slot is occupied.
#[verifier::external_body]
fn slab_is_empty(slab: &Slab<u64>) -> (empty: bool)
    ensures
        empty == no_entry(slab_entries(*slab)),
{
    slab.is_empty()
}

/// `Slab::contains`: whether the slot of `key` is occupied.
#[verifier::external_body]
fn slab_contains(slab: &Slab<u64>, key: usize) -> (present: bool)
    ensures
        present == slab_entries(*slab).contains_key(key),
{
    slab.contains(key)
}

/// `Slab::get`: the value in the slot of `key`, if it is occupied.
#[verifier::external_body]
fn slab_get(slab: &Slab<u64>, key: usize) -> (value: Option<u64>)
    ensures
        value == if slab_entries(*slab).contains_key(key) {
            Some(slab_entries(*slab)[key])
        } else {
            None
        },
{
    slab.get(key).copied()
}

/// `Slab::vacant_key`: the key of the next insertion, which is the first
/// freed slot, or the slot count where no slot is free.
#[verifier::external_body]
fn slab_peek_key(slab: &Slab<u64>) -> (key: usize)
    ensures
        key == head_of(slab_free_chain(*slab), slab_slot_count(*slab)),
{
    slab.vacant_key()
}

/// `Slab::insert`: stores `value` under the key that was next in line and
/// returns that key; every other slot is left as it was. Where a slot was
/// free, the first of the chain is taken and the rest of the chain stays;
/// where none was, one slot is opened behind the last. The call is taken to
/// return: it unwinds only if the slab outgrows the address space.
#[verifier::external_body]
fn slab_insert(slab: &mut Slab<u64>, value: u64) -> (key: usize)
    ensures
        key == head_of(slab_free_chain(*old(slab)), slab_slot_count(*old(slab))),
        slab_entries(*final(slab)) == slab_entries(*old(slab)).insert(key, value),
        insertion_takes(
            slab_free_chain(*old(slab)),
            slab_slot_count(*old(slab)),
            slab_free_chain(*final(slab)),
            slab_slot_count(*final(slab)),
        ),
    no_unwind
{
    slab.insert(value)
}

/// `Slab::remove`: empties the occupied slot of `key` and returns what it
/// held; every other slot is left as it was, and the freed key is put in
/// front of the chain. The outside function panics on a vacant slot, which
/// the precondition excludes, and otherwise returns.
#[verifier::external_body]
fn slab_remove(slab: &mut Slab<u64>, key: usize) -> (value: u64)
    requires
        slab_entries(*old(slab)).contains_key(key),
    ensures
        value == slab_entries(*old(slab))[key],
        slab_entries(*final(slab)) == slab_entries(*old(slab)).remove(key),
        slab_free_chain(*final(slab)) == seq![key] + slab_free_chain(*old(slab)),
        slab_slot_count(*final(slab)) == slab_slot_count(*old(slab)),
    no_unwind
{
    slab.remove(key)
}

/// The transfers that are active, each under the token it was given.
///
/// A token is a key of the underlying slab: it names exactly one active
/// transfer for as long as its entry stays, and may be handed out again only
/// after that entry was removed.
pub struct TokenTable {
    slots: Slab<u64>,
}

impl View for TokenTable {
    type V = Map<usize, u64>;

    /// The table as a map from token to transfer identifier.
    closed spec fn view(&self) -> Map<usize, u64> {
        slab_entries(self.slots)
    }
}

impl TokenTable {
    /// The tokens that were freed, in the order in which they are handed
    /// out again.
    pub closed spec fn free(&self) -> Seq<usize> {
        slab_free_chain(self.slots)
    }

    /// The number of tokens that were ever in use at once.
    pub closed spec fn slot_count(&self) -> usize {
        slab_slot_count(self.slots)
    }

    /// The token that the next insertion will hand out: the one freed last,
    /// or the smallest never used where none is free.
    pub open spec fn next_token(&self) -> usize {
        head_of(self.free(), self.slot_count())
    }

    /// Freed tokens and entries fit together.
    pub open spec fn wf(&self) -> bool {
        chain_is_sound(self@, self.free(), self.slot_count())
    }

    #[verifier::type_invariant]
    closed spec fn sound(self) -> bool {
        chain_is_sound(
            slab_entries(self.slots),
            slab_free_chain(self.slots),
            slab_slot_count(self.slots),
        )
    }

    /// Whether no transfer is active.
    pub open spec fn is_vacant(&self) -> bool {
        no_entry(self@)
    }

    /// An empty table, in which no token was ever used.
    pub fn new() -> (table: TokenTable)
        ensures
            table.is_vacant(),
            table.free() == Seq::<usize>::empty(),
            table.slot_count() == 0,
            table.wf(),
    {
        TokenTable { slots: slab_new() }
    }

    /// Whether no transfer is active.
    pub fn is_empty(&self) -> (empty: bool)
        ensures
            empty == self.is_vacant(),
    {
        slab_is_empty(&self.slots)
    }

    /// Whether `token` names an active transfer.
    pub fn contains(&self, token: usize) -> (present: bool)
        ensures
            present == self@.contains_key(token),
    {
        slab_contains(&self.slots, token)
    }

    /// The transfer that `token` names, if it names one.
    pub fn get(&self, token: usize) -> (transfer: Option<u64>)
        ensures
            transfer == if self@.contains_key(token) {
                Some(self@[token])
            } else {
                None
            },
    {
        slab_get(&self.slots, token)
    }

    /// The token that the next insertion will hand out. It names no active
    /// transfer.
    pub fn vacant_token(&self) -> (token: usize)
        ensures
            token == self.next_token(),
            !self@.contains_key(token),
            self.wf(),
    {
        proof {
            use_type_invariant(self);
            lemma_head_is_vacant(self@, self.free(), self.slot_count());
        }
        slab_peek_key(&self.slots)
    }

    /// Makes `transfer` active and returns its token, which named no active
    /// transfer before. No other entry changes. The token is the one freed
    /// last, and the other freed tokens keep their order; where none was
    /// free, it is the smallest token never used.
    pub fn insert(&mut self, transfer: u64) -> (token: usize)
        ensures
            token == old(self).next_token(),
            !old(self)@.contains_key(token),
            final(self)@ == old(self)@.insert(token, transfer),
            insertion_takes(
                old(self).free(),
                old(self).slot_count(),
                final(self).free(),
                final(self).slot_count(),
            ),
            old(self).wf(),
            final(self).wf(),
        no_unwind
    {
        proof {
            use_type_invariant(&*self);
            lemma_head_is_vacant(self@, self.free(), self.slot_count());
            assert forall|free_after: Seq<usize>, slots_after: usize| #[trigger]
                insertion_takes(
                    self.free(),
                    self.slot_count(),
                    free_after,
                    slots_after,
                ) implies chain_is_sound(
                self@.insert(self.next_token(), transfer),
                free_after,
                slots_after,
            ) by {
                lemma_insert_is_sound(
                    self@,
                    self.free(),
                    self.slot_count(),
                    transfer,
                    free_after,
                    slots_after,
                );
            }
        }
        slab_insert(&mut self.slots, transfer)
    }

    /// Removes the entry of `token` and returns the transfer it named. The
    /// token is free again, and is the next one handed out.
    pub fn remove(&mut self, token: usize) -> (transfer: u64)
        requires
            old(self)@.contains_key(token),
        ensures
            transfer == old(self)@[token],
            final(self)@ == old(self)@.remove(token),
            final(self).free() == seq![token] + old(self).free(),
            final(self).slot_count() == old(self).slot_count(),
            final(self).next_token() == token,
            old(self).wf(),
            final(self).wf(),
        no_unwind
    {
        proof {
            use_type_invariant(&*self);
            lemma_remove_is_sound(self@, self.free(), self.slot_count(), token);
        }
        slab_remove(&mut self.slots, token)
    }
}

} // verus!
