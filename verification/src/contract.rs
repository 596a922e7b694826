//! The control surface: the host-facing entry points, routed over the
//! verified store and gate.
//!
//! Deposits are open to any sender; reads are gated by the credential the
//! query carries; setting a viewing key is unconditional self-service for
//! the sender's own address.

use vstd::prelude::*;
use crate::gate::spec_authorize;
use crate::gate::authorize;
use crate::msg::{
    HandleMsg,
    HandleResponse,
    InitMsg,
    InitResponse,
    MsgsResponse,
    QueryMsg,
    ViewingPermissions,
};
use crate::state::{
    config,
    config_read,
    ContractError,
    ContractStorage,
    Message,
    State,
    MAX_LENGTH,
};
use crate::store::page_of;

verus! {

/// What the host hands the contract with every request: the sender's
/// address, the current block time, and the contract's own address.
pub struct Env {
    pub sender: String,
    pub block_time: u64,
    pub contract_address: String,
}

/// The page a query asked for: 0 when unspecified.
pub open spec fn page_val(page: Option<u32>) -> int {
    match page {
        Some(p) => p as int,
        None => 0,
    }
}

/// The page size a query asked for: 10 when unspecified.
pub open spec fn size_val(page_size: Option<u32>) -> int {
    match page_size {
        Some(s) => s as int,
        None => 10,
    }
}

/// Initializes the contract: records the initializing sender as owner and
/// the contract's own address as the signing domain that permits are later
/// anchored to. The message's optional owner field is accepted and ignored.
pub fn init(store: &mut ContractStorage, env: &Env, _msg: InitMsg) -> (r: Result<
    InitResponse,
    ContractError,
>)
    requires
        old(store).inv(),
    ensures
        final(store).inv(),
        final(store).state == Some(
            (State { owner: env.sender, contract: env.contract_address }),
        ),
        final(store).inboxes == old(store).inboxes,
        final(store).keys == old(store).keys,
        final(store).revoked == old(store).revoked,
        r matches Ok(resp) && resp.messages@.len() == 0,
{
    let state = State { owner: env.sender.clone(), contract: env.contract_address.clone() };
    config(store, state);
    Ok(InitResponse { messages: Vec::new() })
}

/// Stores `key` as the sender's viewing key, silently overwriting any prior
/// value: deliberate self-service key rotation, not a privilege check.
pub fn create_key(store: &mut ContractStorage, env: &Env, key: String) -> (r: Result<
    HandleResponse,
    ContractError,
>)
    requires
        old(store).inv(),
    ensures
        final(store).inv(),
        final(store).keys.key_of(env.sender@) == Some(key@),
        forall|b: Seq<char>|
            b != env.sender@ ==> final(store).keys.key_of(b) == old(store).keys.key_of(b),
        final(store).state == old(store).state,
        final(store).inboxes == old(store).inboxes,
        final(store).revoked == old(store).revoked,
        r matches Ok(resp) && resp.messages@.len() == 0,
{
    store.keys.set(&env.sender, &key);
    Ok(HandleResponse { messages: Vec::new() })
}

/// Deposits a message: stamps it with the sender and the block time,
/// validates the body length, and appends it to the recipient's inbox. No
/// authorization is required to deposit — the store is an open mailbox with
/// gated reading. The deposit either fully lands or changes nothing.
pub fn send_memo(store: &mut ContractStorage, env: &Env, to: String, message: String) -> (r: Result<
    HandleResponse,
    ContractError,
>)
    requires
        old(store).inv(),
    ensures
        final(store).inv(),
        final(store).state == old(store).state,
        final(store).keys == old(store).keys,
        final(store).revoked == old(store).revoked,
        forall|b: Seq<char>| b != to@ ==> final(store).inbox(b) == old(store).inbox(b),
        message@.len() > MAX_LENGTH ==> r == Err::<HandleResponse, ContractError>(
            ContractError::Validation,
        ) && final(store).inbox(to@) == old(store).inbox(to@),
        message@.len() <= MAX_LENGTH && old(store).inbox(to@).len() >= u32::MAX ==> r == Err::<
            HandleResponse,
            ContractError,
        >(ContractError::Storage) && final(store).inbox(to@) == old(store).inbox(to@),
        message@.len() <= MAX_LENGTH && old(store).inbox(to@).len() < u32::MAX ==> (r matches Ok(
            resp,
        ) && resp.messages@.len() == 0) && final(store).inbox(to@) == old(store).inbox(to@).push(
            (Message { from: env.sender, message, block_time: env.block_time }),
        ),
{
    let msg = Message::new(env.sender.clone(), message, env.block_time);
    match msg.store_message(&mut store.inboxes, &to) {
        Ok(()) => Ok(HandleResponse { messages: Vec::new() }),
        Err(e) => Err(e),
    }
}

/// Routes a state-changing request: a deposit goes to `send_memo`, a key
/// update to `create_key`.
pub fn handle(store: &mut ContractStorage, env: &Env, msg: HandleMsg) -> (r: Result<
    HandleResponse,
    ContractError,
>)
    requires
        old(store).inv(),
    ensures
        final(store).inv(),
        final(store).state == old(store).state,
        final(store).revoked == old(store).revoked,
        match msg {
            HandleMsg::SendMemo { to, message } => {
                &&& final(store).keys == old(store).keys
                &&& forall|b: Seq<char>| b != to@ ==> final(store).inbox(b) == old(store).inbox(b)
                &&& message@.len() > MAX_LENGTH ==> r == Err::<HandleResponse, ContractError>(
                    ContractError::Validation,
                ) && final(store).inbox(to@) == old(store).inbox(to@)
                &&& message@.len() <= MAX_LENGTH && old(store).inbox(to@).len() >= u32::MAX ==> r
                    == Err::<HandleResponse, ContractError>(ContractError::Storage) && final(store).inbox(to@) == old(store).inbox(to@)
                &&& message@.len() <= MAX_LENGTH && old(store).inbox(to@).len() < u32::MAX ==> (
                r matches Ok(resp) && resp.messages@.len() == 0) && final(store).inbox(to@) == old(
                    store,
                ).inbox(to@).push(
                    (Message { from: env.sender, message, block_time: env.block_time }),
                )
            },
            HandleMsg::SetViewingKey { key, .. } => {
                &&& final(store).inboxes == old(store).inboxes
                &&& final(store).keys.key_of(env.sender@) == Some(key@)
                &&& forall|b: Seq<char>|
                    b != env.sender@ ==> final(store).keys.key_of(b) == old(store).keys.key_of(b)
                &&& r matches Ok(resp) && resp.messages@.len() == 0
            },
        },
{
    match msg {
        HandleMsg::SendMemo { to, message } => send_memo(store, env, to, message),
        HandleMsg::SetViewingKey { key, .. } => create_key(store, env, key),
    }
}

/// What a gated read must return: without initialized state it fails as a
/// storage error; with an authorized credential it returns exactly the
/// requested page and the total count; otherwise it fails closed with the
/// one generic unauthorized outcome, whatever check refused the credential.
pub open spec fn spec_query_result(
    store: ContractStorage,
    address: Seq<char>,
    auth: ViewingPermissions,
    page: int,
    size: int,
    r: Result<MsgsResponse, ContractError>,
) -> bool {
    match store.state {
        None => r == Err::<MsgsResponse, ContractError>(ContractError::Storage),
        Some(st) => if spec_authorize(store.keys, store.revoked, address, auth, st.contract@)
            is Ok {
            r matches Ok(resp) && resp.msgs@ == page_of(store.inbox(address), page, size)
                && resp.length == store.inbox(address).len()
        } else {
            r == Err::<MsgsResponse, ContractError>(ContractError::Unauthorized)
        },
    }
}

/// Answers one gated read: checks the credential against the claimed
/// recipient and this contract's address, then reads the requested page of
/// that recipient's inbox, most recent first.
pub fn query_memo(
    store: &ContractStorage,
    address: String,
    auth: ViewingPermissions,
    page: Option<u32>,
    page_size: Option<u32>,
) -> (r: Result<MsgsResponse, ContractError>)
    requires
        store.inv(),
    ensures
        spec_query_result(*store, address@, auth, page_val(page), size_val(page_size), r),
{
    let state = match config_read(store) {
        None => {
            return Err(ContractError::Storage);
        },
        Some(s) => s,
    };
    match authorize(&store.keys, &store.revoked, &address, &auth, &state.contract) {
        Err(_) => Err(ContractError::Unauthorized),
        Ok(()) => {
            let (msgs, length) = Message::get_messages(
                &store.inboxes,
                &address,
                page.unwrap_or(0),
                page_size.unwrap_or(10),
            );
            Ok(MsgsResponse { msgs, length })
        },
    }
}

/// Routes a read request.
pub fn query(store: &ContractStorage, msg: QueryMsg) -> (r: Result<MsgsResponse, ContractError>)
    requires
        store.inv(),
    ensures
        match msg {
            QueryMsg::GetMemo { address, auth, page, page_size } => spec_query_result(
                *store,
                address@,
                auth,
                page_val(page),
                size_val(page_size),
                r,
            ),
        },
{
    match msg {
        QueryMsg::GetMemo { address, auth, page, page_size } => query_memo(
            store,
            address,
            auth,
            page,
            page_size,
        ),
    }
}

} // verus!
