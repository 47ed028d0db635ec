//! The sharing ledger: for each pair of owner and recipient, the grants that
//! the owner has made to the recipient, in the order in which they were made.
//!
//! A grant is an encrypted key together with the id of the record it opens.
//! Grants are only ever appended; the same grant may occur more than once.

use crate::bytes::copy_bytes;
use std::collections::HashMap;
use vstd::prelude::*;

verus! {

broadcast use vstd::std_specs::hash::group_hash_axioms;

/// The limit that a ledger is made with.
#[derive(Clone, Copy, Debug, PartialEq, Eq)]
pub struct Config {
    /// How many grants one owner may make to one recipient.
    pub max_grants_per_owner_recipient_pair: u32,
}

/// What a successful call tells the outside world.
#[derive(Clone, Copy, Debug, PartialEq, Eq)]
pub enum Event {
    /// A grant for the record was stored for the recipient.
    SharingStored(u64, u32),
}

/// Why a call was rejected.
#[derive(Clone, Copy, Debug, PartialEq, Eq)]
pub enum Error {
    /// The owner has already made as many grants to the recipient as the
    /// ledger allows.
    VectorFull,
}

/// The grants that `ledger` holds from `owner` to `recipient`: none where the
/// pair has no entry yet.
pub open spec fn grants_of(
    ledger: Map<(u64, u64), Seq<(Seq<u8>, u32)>>,
    owner: u64,
    recipient: u64,
) -> Seq<(Seq<u8>, u32)> {
    if ledger.contains_key((owner, recipient)) {
        ledger[(owner, recipient)]
    } else {
        Seq::empty()
    }
}

/// What sharing does to a ledger with room for `max` grants per pair: the
/// ledger afterwards, and the answer.
pub open spec fn share_record_model(
    max: u32,
    ledger: Map<(u64, u64), Seq<(Seq<u8>, u32)>>,
    owner: u64,
    recipient: u64,
    encrypted_key: Seq<u8>,
    record_id: u32,
) -> (Map<(u64, u64), Seq<(Seq<u8>, u32)>>, Result<Event, Error>) {
    let held = grants_of(ledger, owner, recipient);
    if held.len() < max {
        (
            ledger.insert((owner, recipient), held.push((encrypted_key, record_id))),
            Ok(Event::SharingStored(recipient, record_id)),
        )
    } else {
        (ledger, Err(Error::VectorFull))
    }
}

/// Every pair of the ledger holds at most `max` grants.
pub open spec fn ledger_wf(max: u32, ledger: Map<(u64, u64), Seq<(Seq<u8>, u32)>>) -> bool {
    forall|pair: (u64, u64)| #[trigger]
        ledger.contains_key(pair) ==> ledger[pair].len() <= max
}

/// The key under which the grants of a pair are stored.
pub open spec fn pair_key(owner: u64, recipient: u64) -> u128 {
    (owner as int * 0x1_0000_0000_0000_0000 + recipient as int) as u128
}

/// The grants of one stored entry, each key as the bytes it holds.
pub open spec fn grants_view(stored: Seq<(Vec<u8>, u32)>) -> Seq<(Seq<u8>, u32)> {
    stored.map_values(|grant: (Vec<u8>, u32)| (grant.0@, grant.1))
}

/// The sharing ledger.
pub struct Pallet {
    config: Config,
    shared: HashMap<u128, Vec<(Vec<u8>, u32)>>,
}

impl View for Pallet {
    type V = Map<(u64, u64), Seq<(Seq<u8>, u32)>>;

    /// The ledger as a map from (owner, recipient) to the grants made.
    closed spec fn view(&self) -> Map<(u64, u64), Seq<(Seq<u8>, u32)>> {
        Map::new(
            |pair: (u64, u64)| self.shared@.contains_key(pair_key(pair.0, pair.1)),
            |pair: (u64, u64)| grants_view(self.shared@[pair_key(pair.0, pair.1)]@),
        )
    }
}

fn pack(owner: u64, recipient: u64) -> (key: u128)
    ensures
        key == pair_key(owner, recipient),
{
    owner as u128 * 0x1_0000_0000_0000_0000u128 + recipient as u128
}

impl Pallet {
    /// The limit that the ledger was made with.
    pub closed spec fn config(&self) -> Config {
        self.config
    }

    /// No pair holds more grants than the limit allows.
    pub open spec fn wf(&self) -> bool {
        ledger_wf(self.config().max_grants_per_owner_recipient_pair, self@)
    }

    /// An empty ledger.
    pub fn new(config: Config) -> (ledger: Pallet)
        ensures
            ledger.wf(),
            ledger.config() == config,
            ledger@ == Map::<(u64, u64), Seq<(Seq<u8>, u32)>>::empty(),
    {
        Pallet { config, shared: HashMap::new() }
    }

    /// Appends the grant (`encrypted_key`, `record_id`) to those that `who`
    /// has made to `recipient`, unless the pair already holds as many as the
    /// limit allows: then the ledger stays as it is and the call fails with
    /// `VectorFull`. Neither account nor the record is looked up here.
    pub fn share_record(
        &mut self,
        who: u64,
        recipient: u64,
        encrypted_key: Vec<u8>,
        record_id: u32,
    ) -> (result: Result<Event, Error>)
        requires
            old(self).wf(),
        ensures
            final(self).wf(),
            final(self).config() == old(self).config(),
            (final(self)@, result) == share_record_model(
                old(self).config().max_grants_per_owner_recipient_pair,
                old(self)@,
                who,
                recipient,
                encrypted_key@,
                record_id,
            ),
    {
        let key = pack(who, recipient);
        let held_len: usize = match self.shared.get(&key) {
            Some(held) => held.len(),
            None => 0,
        };
        if held_len >= self.config.max_grants_per_owner_recipient_pair as usize {
            return Err(Error::VectorFull);
        }
        let mut held = match self.shared.remove(&key) {
            Some(held) => held,
            None => Vec::new(),
        };
        let ghost before = held@;
        held.push((encrypted_key, record_id));
        self.shared.insert(key, held);
        proof {
            assert(grants_view(held@) =~= grants_view(before).push((encrypted_key@, record_id)));
            assert(grants_view(before) =~= grants_of(old(self)@, who, recipient));
            assert forall|pair: (u64, u64)| pair != (who, recipient) implies pair_key(
                pair.0,
                pair.1,
            ) != key by {}
            assert(self@ =~= old(self)@.insert(
                (who, recipient),
                grants_of(old(self)@, who, recipient).push((encrypted_key@, record_id)),
            ));
        }
        Ok(Event::SharingStored(recipient, record_id))
    }

    /// The grants that `owner` has made to `recipient`, oldest first.
    pub fn records_shared(&self, owner: u64, recipient: u64) -> (grants: Vec<(Vec<u8>, u32)>)
        ensures
            grants_view(grants@) == grants_of(self@, owner, recipient),
    {
        let key = pack(owner, recipient);
        let mut grants: Vec<(Vec<u8>, u32)> = Vec::new();
        match self.shared.get(&key) {
            None => {},
            Some(held) => {
                let mut i: usize = 0;
                while i < held.len()
                    invariant
                        i <= held.len(),
                        grants@.len() == i,
                        forall|j: int|
                            0 <= j < i ==> (#[trigger] grants@[j]).0@ == held@[j].0@
                                && grants@[j].1 == held@[j].1,
                    decreases held.len() - i,
                {
                    let id: u32 = held[i].1;
                    grants.push((copy_bytes(&held[i].0), id));
                    i += 1;
                }
            },
        }
        grants
    }
}

/// What the record registry asks of a ledger: to take one grant. The
/// registry needs no more of a ledger than this.
pub trait GrantLedger {
    /// The grants held, by owner and recipient.
    spec fn held(&self) -> Map<(u64, u64), Seq<(Seq<u8>, u32)>>;

    /// How many grants one owner may make to one recipient.
    spec fn max_grants(&self) -> u32;

    /// The ledger is within its limit.
    spec fn sound(&self) -> bool;

    /// Appends the grant to those that `owner` has made to `recipient`, or
    /// fails with `VectorFull` and changes nothing.
    fn grant(
        &mut self,
        owner: u64,
        recipient: u64,
        encrypted_key: Vec<u8>,
        record_id: u32,
    ) -> (result: Result<Event, Error>)
        requires
            old(self).sound(),
        ensures
            final(self).sound(),
            final(self).max_grants() == old(self).max_grants(),
            (final(self).held(), result) == share_record_model(
                old(self).max_grants(),
                old(self).held(),
                owner,
                recipient,
                encrypted_key@,
                record_id,
            ),
    ;
}

impl GrantLedger for Pallet {
    open spec fn held(&self) -> Map<(u64, u64), Seq<(Seq<u8>, u32)>> {
        self@
    }

    open spec fn max_grants(&self) -> u32 {
        self.config().max_grants_per_owner_recipient_pair
    }

    open spec fn sound(&self) -> bool {
        self.wf()
    }

    fn grant(
        &mut self,
        owner: u64,
        recipient: u64,
        encrypted_key: Vec<u8>,
        record_id: u32,
    ) -> (result: Result<Event, Error>) {
        self.share_record(owner, recipient, encrypted_key, record_id)
    }
}

/// A pair that is full takes no further grant: sharing fails with
/// `VectorFull` and the ledger stays as it was.
pub proof fn lemma_full_pair_rejects_grant(
    max: u32,
    ledger: Map<(u64, u64), Seq<(Seq<u8>, u32)>>,
    owner: u64,
    recipient: u64,
    encrypted_key: Seq<u8>,
    record_id: u32,
)
    requires
        ledger_wf(max, ledger),
        grants_of(ledger, owner, recipient).len() == max,
    ensures
        share_record_model(max, ledger, owner, recipient, encrypted_key, record_id) == (
            ledger,
            Err::<Event, Error>(Error::VectorFull),
        ),
{
}

/// Sharing keeps the ledger within its limit, touches no other pair, and
/// where it succeeds the pair holds one grant more, the new one last.
pub proof fn lemma_share_record_appends(
    max: u32,
    ledger: Map<(u64, u64), Seq<(Seq<u8>, u32)>>,
    owner: u64,
    recipient: u64,
    encrypted_key: Seq<u8>,
    record_id: u32,
)
    requires
        ledger_wf(max, ledger),
    ensures
        ({
            let (after, result) = share_record_model(
                max,
                ledger,
                owner,
                recipient,
                encrypted_key,
                record_id,
            );
            &&& ledger_wf(max, after)
            &&& forall|o: u64, r: u64|
                (o, r) != (owner, recipient) ==> #[trigger] grants_of(after, o, r) == grants_of(
                    ledger,
                    o,
                    r,
                )
            &&& result is Ok ==> grants_of(after, owner, recipient) == grants_of(
                ledger,
                owner,
                recipient,
            ).push((encrypted_key, record_id))
            &&& result is Err ==> after == ledger
        }),
{
}

} // verus!
