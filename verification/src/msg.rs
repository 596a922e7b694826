//! The request and response shapes the contract speaks.

use vstd::prelude::*;
use crate::gate::PermitData;
use crate::state::Message;

verus! {

/// The initialization request. The optional owner override is accepted and
/// ignored: the state records the actual initializing sender as owner.
pub struct InitMsg {
    pub owner: Option<String>,
}

/// A state-changing request: deposit a message or set the caller's viewing
/// key. `padding` only pads the request to a uniform size on the wire and
/// carries no meaning.
pub enum HandleMsg {
    SendMemo { to: String, message: String },
    SetViewingKey { key: String, padding: Option<String> },
}

/// A read request: one page of a recipient's inbox, gated by a credential.
/// `page` defaults to 0 and `page_size` to 10.
pub enum QueryMsg {
    GetMemo { address: String, auth: ViewingPermissions, page: Option<u32>, page_size: Option<u32> },
}

/// The credential presented with a query: a permit, a viewing key, or
/// neither. When both are present the viewing key decides.
pub struct ViewingPermissions {
    pub permit: Option<PermitData>,
    pub key: Option<String>,
}

/// One page of a recipient's messages, most recent first, together with the
/// total number of messages stored for that recipient.
#[derive(Debug, PartialEq)]
pub struct MsgsResponse {
    pub msgs: Vec<Message>,
    pub length: u32,
}

/// A response carrying a single count.
pub struct CountResponse {
    pub count: i32,
}

/// The empty acknowledgment of a successful initialization: this contract
/// never asks the host to dispatch follow-up messages.
#[derive(Debug, PartialEq)]
pub struct InitResponse {
    pub messages: Vec<String>,
}

/// The empty acknowledgment of a successful state change: this contract
/// never asks the host to dispatch follow-up messages.
#[derive(Debug, PartialEq)]
pub struct HandleResponse {
    pub messages: Vec<String>,
}

} // verus!
