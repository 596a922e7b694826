use memo_store::contract::{handle, init, query, Env};
use memo_store::gate::{authorize, AuthError, Permission, PermitData, RevokedPermits, ViewingKeys};
use memo_store::msg::{HandleMsg, InitMsg, QueryMsg, ViewingPermissions};
use memo_store::state::{config_read, ContractError, ContractStorage, Message};

// The well-known mock host values: contract address and block time.
const MOCK_CONTRACT_ADDR: &str = "cosmos2contract";
const MOCK_BLOCK_TIME: u64 = 1_571_797_419;

// A known-good permit, as its signer produced it: the account bound to this
// public key under the "secret" prefix is `VECTOR_ACCOUNT`.
const VECTOR_TOKEN: &str = "secret1rf03820fp8gngzg2w02vd30ns78qkc8rg8dxaq";
const VECTOR_ACCOUNT: &str = "secret1399pyvvk3hvwgxwt3udkslsc5jl3rqv4yshfrl";
const VECTOR_PUBKEY_B64: &str = "A5M49l32ZrV+SDsPnoRv8fH7ivNC4gEX9prvd4RwvRaL";
const VECTOR_SIGNATURE_B64: &str =
    "hw/Mo3ZZYu1pEiDdymElFkuCuJzg9soDHw+4DxK7cL9rafiyykh7VynS+guotRAKXhfYMwCiyWmiznc6R+UlsQ==";

fn mock_env(sender: &str) -> Env {
    Env {
        sender: sender.to_string(),
        block_time: MOCK_BLOCK_TIME,
        contract_address: MOCK_CONTRACT_ADDR.to_string(),
    }
}

fn vector_permit() -> PermitData {
    PermitData {
        permit_name: format!("memo_{}", VECTOR_TOKEN),
        chain_id: "pulsar-2".to_string(),
        allowed_tokens: vec![VECTOR_TOKEN.to_string()],
        permissions: vec![Permission::History],
        signer: VECTOR_ACCOUNT.to_string(),
        pubkey: secret_cosmwasm_std::Binary::from_base64(VECTOR_PUBKEY_B64)
            .unwrap()
            .0,
        signature: secret_cosmwasm_std::Binary::from_base64(VECTOR_SIGNATURE_B64)
            .unwrap()
            .0,
    }
}

fn key_auth(key: &str) -> ViewingPermissions {
    ViewingPermissions {
        permit: None,
        key: Some(key.to_string()),
    }
}

fn permit_auth(permit: PermitData) -> ViewingPermissions {
    ViewingPermissions {
        permit: Some(permit),
        key: None,
    }
}

fn query_page(
    store: &ContractStorage,
    address: &str,
    auth: ViewingPermissions,
    page: Option<u32>,
    page_size: Option<u32>,
) -> Result<memo_store::msg::MsgsResponse, ContractError> {
    query(
        store,
        QueryMsg::GetMemo {
            address: address.to_string(),
            auth,
            page,
            page_size,
        },
    )
}

#[test]
fn contract_init() {
    let mut store = ContractStorage::new();

    let msg = InitMsg { owner: None };
    let env = mock_env("creator");

    // we can just call .unwrap() to assert this was a success
    let res = init(&mut store, &env, msg).unwrap();
    assert_eq!(0, res.messages.len());
}

#[test]
fn create_key() {
    let mut store = ContractStorage::new();

    let msg = InitMsg { owner: None };
    let env = mock_env("creator");
    let _res = init(&mut store, &env, msg).unwrap();

    let env = mock_env("anyone");
    let msg = HandleMsg::SetViewingKey {
        key: "yoyo".to_string(),
        padding: None,
    };
    let res = handle(&mut store, &env, msg).unwrap();

    assert_eq!(0, res.messages.len());
}

#[test]
fn send_message() {
    let mut store = ContractStorage::new();

    let msg = InitMsg { owner: None };
    let env = mock_env("creator");
    let _res = init(&mut store, &env, msg).unwrap();

    let env = mock_env("anyone");
    let msg = HandleMsg::SendMemo {
        to: "creator".to_string(),
        message: "hello world".to_string(),
    };
    let res = handle(&mut store, &env, msg).unwrap();

    assert_eq!(0, res.messages.len());
}

#[test]
fn read_message() {
    let mut store = ContractStorage::new();

    let msg = InitMsg { owner: None };
    let env = mock_env("creator");
    let _res = init(&mut store, &env, msg).unwrap();

    let env = mock_env("creator");
    let msg = HandleMsg::SetViewingKey {
        key: "yoyo".to_string(),
        padding: None,
    };
    let _res = handle(&mut store, &env, msg).unwrap();

    let env = mock_env("anyone");
    let msg = HandleMsg::SendMemo {
        to: "creator".to_string(),
        message: "hello world".to_string(),
    };
    let res = handle(&mut store, &env, msg).unwrap();

    assert_eq!(0, res.messages.len());

    let value = query_page(&store, "creator", key_auth("yoyo"), None, None).unwrap();
    assert_eq!(value.msgs.len(), 1);
    assert_eq!(value.msgs[0].message, "hello world".to_string());
}

#[test]
fn read_message_fail() {
    let mut store = ContractStorage::new();

    let msg = InitMsg { owner: None };
    let env = mock_env("creator");
    let _res = init(&mut store, &env, msg).unwrap();

    let env = mock_env("anyone");
    let msg = HandleMsg::SendMemo {
        to: "creator".to_string(),
        message: "hello world".to_string(),
    };
    let _res = handle(&mut store, &env, msg).unwrap();

    // no key was ever set for "creator", so "yoyo" cannot authorize
    let res = query_page(&store, "creator", key_auth("yoyo"), None, None);
    assert_eq!(res.is_err(), true);
}

// Depositing increases the recipient's count by exactly one, and the new
// message is element 0 of page 0 of the next read.
#[test]
fn deposit_lands_first_on_page_zero() {
    let mut store = ContractStorage::new();
    init(&mut store, &mock_env("creator"), InitMsg { owner: None }).unwrap();
    handle(
        &mut store,
        &mock_env("bob"),
        HandleMsg::SetViewingKey {
            key: "k".to_string(),
            padding: None,
        },
    )
    .unwrap();

    for (i, body) in ["first", "second", "third"].iter().enumerate() {
        handle(
            &mut store,
            &mock_env("alice"),
            HandleMsg::SendMemo {
                to: "bob".to_string(),
                message: body.to_string(),
            },
        )
        .unwrap();
        let value = query_page(&store, "bob", key_auth("k"), None, None).unwrap();
        assert_eq!(value.length, (i + 1) as u32);
        assert_eq!(value.msgs[0].message, body.to_string());
        assert_eq!(value.msgs[0].from, "alice".to_string());
        assert_eq!(value.msgs[0].block_time, MOCK_BLOCK_TIME);
    }
}

// Pages never exceed the requested size, and pages 0..k concatenated give
// the full reverse-chronological order with no duplicates or gaps.
#[test]
fn pagination_covers_in_reverse_order() {
    let mut store = ContractStorage::new();
    init(&mut store, &mock_env("creator"), InitMsg { owner: None }).unwrap();
    handle(
        &mut store,
        &mock_env("bob"),
        HandleMsg::SetViewingKey {
            key: "k".to_string(),
            padding: None,
        },
    )
    .unwrap();
    for i in 0..5 {
        handle(
            &mut store,
            &mock_env("alice"),
            HandleMsg::SendMemo {
                to: "bob".to_string(),
                message: format!("m{}", i),
            },
        )
        .unwrap();
    }

    let mut collected: Vec<String> = Vec::new();
    for page in 0..4 {
        let value = query_page(&store, "bob", key_auth("k"), Some(page), Some(2)).unwrap();
        assert!(value.msgs.len() <= 2);
        assert_eq!(value.length, 5);
        for m in &value.msgs {
            collected.push(m.message.clone());
        }
    }
    assert_eq!(collected, vec!["m4", "m3", "m2", "m1", "m0"]);
}

// A recipient with zero deposits yields the empty page and count 0, never
// an error.
#[test]
fn zero_deposits_is_not_an_error() {
    let mut store = ContractStorage::new();
    init(&mut store, &mock_env("creator"), InitMsg { owner: None }).unwrap();
    handle(
        &mut store,
        &mock_env("carol"),
        HandleMsg::SetViewingKey {
            key: "k".to_string(),
            padding: None,
        },
    )
    .unwrap();

    let value = query_page(&store, "carol", key_auth("k"), None, None).unwrap();
    assert_eq!(value.msgs.len(), 0);
    assert_eq!(value.length, 0);
}

// A viewing key authorizes only the recipient it was set for, and setting a
// new key immediately invalidates the old one.
#[test]
fn viewing_key_is_exact_and_rotates() {
    let mut store = ContractStorage::new();
    init(&mut store, &mock_env("creator"), InitMsg { owner: None }).unwrap();
    handle(
        &mut store,
        &mock_env("bob"),
        HandleMsg::SetViewingKey {
            key: "k1".to_string(),
            padding: None,
        },
    )
    .unwrap();

    // bob's key opens bob's inbox, nobody else's
    assert!(query_page(&store, "bob", key_auth("k1"), None, None).is_ok());
    assert!(query_page(&store, "alice", key_auth("k1"), None, None).is_err());

    // rotation: the old key stops working the moment the new one is set
    handle(
        &mut store,
        &mock_env("bob"),
        HandleMsg::SetViewingKey {
            key: "k2".to_string(),
            padding: None,
        },
    )
    .unwrap();
    assert!(query_page(&store, "bob", key_auth("k1"), None, None).is_err());
    assert!(query_page(&store, "bob", key_auth("k2"), None, None).is_ok());
}

// A body of exactly 280 characters is accepted; 281 characters is refused
// with a validation error and nothing is stored.
#[test]
fn body_length_bound_is_sharp() {
    let mut store = ContractStorage::new();
    init(&mut store, &mock_env("creator"), InitMsg { owner: None }).unwrap();
    handle(
        &mut store,
        &mock_env("bob"),
        HandleMsg::SetViewingKey {
            key: "k".to_string(),
            padding: None,
        },
    )
    .unwrap();

    let exactly = "a".repeat(280);
    let res = handle(
        &mut store,
        &mock_env("alice"),
        HandleMsg::SendMemo {
            to: "bob".to_string(),
            message: exactly.clone(),
        },
    );
    assert!(res.is_ok());

    let too_long = "a".repeat(281);
    let res = handle(
        &mut store,
        &mock_env("alice"),
        HandleMsg::SendMemo {
            to: "bob".to_string(),
            message: too_long,
        },
    );
    assert_eq!(res, Err(ContractError::Validation));

    // the failed deposit left no trace
    let value = query_page(&store, "bob", key_auth("k"), None, None).unwrap();
    assert_eq!(value.length, 1);
    assert_eq!(value.msgs[0].message, exactly);
}

// The scenario spelled out end to end: deposit, set a key, read one page.
#[test]
fn deposit_key_query_scenario() {
    let mut store = ContractStorage::new();
    init(&mut store, &mock_env("creator"), InitMsg { owner: None }).unwrap();

    handle(
        &mut store,
        &mock_env("alice"),
        HandleMsg::SendMemo {
            to: "bob".to_string(),
            message: "hi".to_string(),
        },
    )
    .unwrap();
    handle(
        &mut store,
        &mock_env("bob"),
        HandleMsg::SetViewingKey {
            key: "k1".to_string(),
            padding: None,
        },
    )
    .unwrap();

    let value = query_page(&store, "bob", key_auth("k1"), Some(0), Some(10)).unwrap();
    assert_eq!(value.msgs.len(), 1);
    assert_eq!(value.msgs[0].message, "hi".to_string());
    assert_eq!(value.length, 1);
}

// A well-signed permit authorizes the account its public key is bound to.
#[test]
fn valid_permit_authorizes_its_account() {
    let keys = ViewingKeys::new();
    let revoked = RevokedPermits::new();
    let r = authorize(
        &keys,
        &revoked,
        &VECTOR_ACCOUNT.to_string(),
        &permit_auth(vector_permit()),
        &VECTOR_TOKEN.to_string(),
    );
    assert_eq!(r, Ok(()));
}

// A permit targeting contract B is rejected by contract A, even when
// otherwise well-formed.
#[test]
fn permit_for_other_contract_is_rejected() {
    let keys = ViewingKeys::new();
    let revoked = RevokedPermits::new();
    let r = authorize(
        &keys,
        &revoked,
        &VECTOR_ACCOUNT.to_string(),
        &permit_auth(vector_permit()),
        &"secret1399pyvvk3hvwgxwt3udkslsc5jl3rqv4yshfrl".to_string(),
    );
    assert_eq!(r, Err(AuthError::WrongContract));
}

// A permit lacking both the history and the owner scope is rejected
// regardless of its signature.
#[test]
fn permit_without_scope_is_rejected() {
    let keys = ViewingKeys::new();
    let revoked = RevokedPermits::new();
    let mut permit = vector_permit();
    permit.permissions = vec![Permission::Balance, Permission::Allowance];
    let r = authorize(
        &keys,
        &revoked,
        &VECTOR_ACCOUNT.to_string(),
        &permit_auth(permit),
        &VECTOR_TOKEN.to_string(),
    );
    assert_eq!(r, Err(AuthError::InsufficientScope));
}

// A claimed recipient that is not a bech32 address is rejected before any
// other permit check.
#[test]
fn permit_with_undecodable_address_is_rejected() {
    let keys = ViewingKeys::new();
    let revoked = RevokedPermits::new();
    let r = authorize(
        &keys,
        &revoked,
        &"creator".to_string(),
        &permit_auth(vector_permit()),
        &VECTOR_TOKEN.to_string(),
    );
    assert_eq!(r, Err(AuthError::InvalidAddress));
}

// A revoked permit is refused even though every other check would pass.
#[test]
fn revoked_permit_is_rejected() {
    let keys = ViewingKeys::new();
    let mut revoked = RevokedPermits::new();
    let permit = vector_permit();
    revoked.revoke(&permit.signer.clone(), &permit.permit_name.clone());
    let r = authorize(
        &keys,
        &revoked,
        &VECTOR_ACCOUNT.to_string(),
        &permit_auth(permit),
        &VECTOR_TOKEN.to_string(),
    );
    assert_eq!(r, Err(AuthError::Revoked));
}

// A permit whose public key is bound to a different account than the
// claimed one is refused as an invalid signature.
#[test]
fn permit_bound_to_other_account_is_rejected() {
    let keys = ViewingKeys::new();
    let revoked = RevokedPermits::new();
    let mut permit = vector_permit();
    permit.allowed_tokens = vec![VECTOR_TOKEN.to_string()];
    permit.pubkey[5] ^= 1;
    let r = authorize(
        &keys,
        &revoked,
        &VECTOR_ACCOUNT.to_string(),
        &permit_auth(permit),
        &VECTOR_TOKEN.to_string(),
    );
    assert_eq!(r, Err(AuthError::InvalidSignature));
}

// A query carrying no credential at all is refused.
#[test]
fn no_credential_is_rejected() {
    let keys = ViewingKeys::new();
    let revoked = RevokedPermits::new();
    let r = authorize(
        &keys,
        &revoked,
        &VECTOR_ACCOUNT.to_string(),
        &ViewingPermissions {
            permit: None,
            key: None,
        },
        &VECTOR_TOKEN.to_string(),
    );
    assert_eq!(r, Err(AuthError::NoCredential));

    // and at the query boundary it surfaces as the one generic outcome
    let mut store = ContractStorage::new();
    init(&mut store, &mock_env("creator"), InitMsg { owner: None }).unwrap();
    let res = query_page(
        &store,
        "bob",
        ViewingPermissions {
            permit: None,
            key: None,
        },
        None,
        None,
    );
    assert_eq!(res, Err(ContractError::Unauthorized));
}

// The whole permit path through the public query entry point: the inbox of
// the permit-bound account opens with the permit as credential.
#[test]
fn permit_query_end_to_end() {
    let mut store = ContractStorage::new();
    let env = Env {
        sender: "creator".to_string(),
        block_time: MOCK_BLOCK_TIME,
        contract_address: VECTOR_TOKEN.to_string(),
    };
    init(&mut store, &env, InitMsg { owner: None }).unwrap();
    handle(
        &mut store,
        &mock_env("alice"),
        HandleMsg::SendMemo {
            to: VECTOR_ACCOUNT.to_string(),
            message: "sealed".to_string(),
        },
    )
    .unwrap();

    let value = query_page(
        &store,
        VECTOR_ACCOUNT,
        permit_auth(vector_permit()),
        None,
        None,
    )
    .unwrap();
    assert_eq!(value.msgs.len(), 1);
    assert_eq!(value.msgs[0].message, "sealed".to_string());
    assert_eq!(value.length, 1);
}

// The state accessors and the message record behave as stored: the singleton
// round-trips, and a record deposited through the record's own methods is
// read back unchanged.
#[test]
fn state_accessors_roundtrip() {
    let mut store = ContractStorage::new();
    assert!(config_read(&store).is_none());

    init(&mut store, &mock_env("creator"), InitMsg { owner: None }).unwrap();
    let state = config_read(&store).unwrap();
    assert_eq!(state.owner, "creator".to_string());
    assert_eq!(state.contract, MOCK_CONTRACT_ADDR.to_string());

    let m = Message::new("alice".to_string(), "note".to_string(), 7);
    assert!(m.validate());
    m.store_message(&mut store.inboxes, &"bob".to_string()).unwrap();

    assert_eq!(Message::len(&store.inboxes, &"bob".to_string()), 1);
    let (msgs, total) = Message::get_messages(&store.inboxes, &"bob".to_string(), 0, 10);
    assert_eq!(total, 1);
    assert_eq!(msgs[0].from, "alice".to_string());
    assert_eq!(msgs[0].message, "note".to_string());
    assert_eq!(msgs[0].block_time, 7);
}
