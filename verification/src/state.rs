//! The stored entities: the singleton contract state and the message record.

use vstd::prelude::*;
use vstd::string::StrSliceExecFns;
use crate::gate::{RevokedPermits, ViewingKeys};
use crate::store::Inboxes;

verus! {

/// The error taxonomy the contract surfaces: an oversized deposit, a query
/// whose credential failed, and an underlying-store failure. Every
/// authorization failure is reported as the single `Unauthorized` value, so
/// the boundary never reveals which check refused a credential.
#[derive(Clone, Copy, Debug, PartialEq, Eq, Structural)]
pub enum ContractError {
    /// The deposited body exceeds the length bound.
    Validation,
    /// The credential did not authorize the query.
    Unauthorized,
    /// The underlying store cannot serve the request: the contract state was
    /// never initialized, or an inbox cannot take another message.
    Storage,
}

/// The longest message body that a deposit accepts, in characters.
pub const MAX_LENGTH: usize = 280;

/// The singleton contract state, set once at initialization and read-only
/// thereafter. `contract` anchors permit validation to this instance.
pub struct State {
    pub owner: String,
    pub contract: String,
}

impl Clone for State {
    fn clone(&self) -> (res: Self)
        ensures
            res == *self,
    {
        let res = State { owner: self.owner.clone(), contract: self.contract.clone() };
        proof {
            assert(res.owner == self.owner);
            assert(res.contract == self.contract);
        }
        res
    }
}

/// One stored message: who sent it, its body, and the host-supplied time of
/// the block it arrived in. Immutable once stored.
#[derive(Debug, PartialEq)]
pub struct Message {
    pub from: String,
    pub message: String,
    pub block_time: u64,
}

impl Clone for Message {
    fn clone(&self) -> (res: Self)
        ensures
            res == *self,
    {
        let res = Message {
            from: self.from.clone(),
            message: self.message.clone(),
            block_time: self.block_time,
        };
        proof {
            assert(res.from == self.from);
            assert(res.message == self.message);
        }
        res
    }
}

impl Message {
    /// A message is valid when its body is within the length bound.
    pub open spec fn valid(self) -> bool {
        self.message@.len() <= MAX_LENGTH
    }

    pub fn new(from: String, message: String, block_time: u64) -> (r: Self)
        ensures
            r == (Message { from, message, block_time }),
    {
        Self { from, message, block_time }
    }

    pub fn validate(&self) -> (r: bool)
        ensures
            r == self.valid(),
    {
        self.message.as_str().unicode_len() <= MAX_LENGTH
    }

    /// Validates this message and appends it to `to`'s inbox: the deposit
    /// either fully lands or changes nothing. An oversized body is refused
    /// before anything is written; a full inbox refuses the write.
    pub fn store_message(&self, store: &mut Inboxes, to: &String) -> (r: Result<
        (),
        ContractError,
    >)
        requires
            old(store).inv(),
        ensures
            final(store).inv(),
            forall|b: Seq<char>| b != to@ ==> final(store).inbox(b) == old(store).inbox(b),
            !self.valid() ==> r == Err::<(), ContractError>(ContractError::Validation) && final(store).inbox(to@) == old(store).inbox(to@),
            self.valid() && old(store).inbox(to@).len() >= u32::MAX ==> r == Err::<
                (),
                ContractError,
            >(ContractError::Storage) && final(store).inbox(to@) == old(store).inbox(to@),
            self.valid() && old(store).inbox(to@).len() < u32::MAX ==> r == Ok::<
                (),
                ContractError,
            >(()) && final(store).inbox(to@) == old(store).inbox(to@).push(*self),
    {
        if !self.validate() {
            return Err(ContractError::Validation);
        }
        if store.length(to) == u32::MAX {
            return Err(ContractError::Storage);
        }
        append_msg(store, self, to);
        Ok(())
    }

    /// Reads one page of `for_address`'s inbox, most recent first, together
    /// with the total count. An address nobody has written to yields the
    /// empty page and count zero rather than an error.
    pub fn get_messages(store: &Inboxes, for_address: &String, page: u32, page_size: u32) -> (r: (
        Vec<Message>,
        u32,
    ))
        requires
            store.inv(),
        ensures
            r.0@ == crate::store::page_of(
                store.inbox(for_address@),
                page as int,
                page_size as int,
            ),
            r.1 == store.inbox(for_address@).len(),
            r.0@.len() <= page_size,
    {
        store.read_page(for_address, page, page_size)
    }

    /// The number of messages stored for `for_address`, without
    /// materializing them.
    pub fn len(store: &Inboxes, for_address: &String) -> (n: u32)
        requires
            store.inv(),
        ensures
            n == store.inbox(for_address@).len(),
    {
        store.length(for_address)
    }
}

/// Appends an already validated message to `for_address`'s inbox.
fn append_msg(store: &mut Inboxes, msg: &Message, for_address: &String)
    requires
        old(store).inv(),
        old(store).inbox(for_address@).len() < u32::MAX,
    ensures
        final(store).inv(),
        final(store).inbox(for_address@) == old(store).inbox(for_address@).push(*msg),
        forall|b: Seq<char>| b != for_address@ ==> final(store).inbox(b) == old(store).inbox(b),
{
    store.append(for_address, msg.clone());
}

/// The whole persisted state of one contract instance: the singleton
/// configuration, the per-recipient inboxes, the per-user viewing keys and
/// the revocation list, each under its own namespace.
pub struct ContractStorage {
    pub state: Option<State>,
    pub inboxes: Inboxes,
    pub keys: ViewingKeys,
    pub revoked: RevokedPermits,
}

impl ContractStorage {
    pub open spec fn inv(self) -> bool {
        self.inboxes.inv()
    }

    /// The message log stored for `addr`, oldest first.
    pub open spec fn inbox(self, addr: Seq<char>) -> Seq<Message> {
        self.inboxes.inbox(addr)
    }

    /// Fresh storage: no state, no messages, no keys, no revocations.
    pub fn new() -> (r: ContractStorage)
        ensures
            r.inv(),
            r.state is None,
            forall|a: Seq<char>| r.inbox(a) == Seq::<Message>::empty(),
            forall|a: Seq<char>| r.keys.key_of(a) is None,
            forall|s: Seq<char>, n: Seq<char>| !r.revoked.is_revoked(s, n),
    {
        ContractStorage {
            state: None,
            inboxes: Inboxes::new(),
            keys: ViewingKeys::new(),
            revoked: RevokedPermits::new(),
        }
    }
}

/// Saves the singleton contract state, overwriting any earlier value.
pub fn config(store: &mut ContractStorage, state: State)
    ensures
        final(store).state == Some(state),
        final(store).inboxes == old(store).inboxes,
        final(store).keys == old(store).keys,
        final(store).revoked == old(store).revoked,
{
    store.state = Some(state);
}

/// Reads the singleton contract state, if it was ever saved.
pub fn config_read(store: &ContractStorage) -> (r: Option<State>)
    ensures
        r == store.state,
{
    match &store.state {
        Some(s) => Some(s.clone()),
        None => None,
    }
}

} // verus!
