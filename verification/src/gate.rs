//! The credential gate: viewing keys, permits, and the single authorization
//! decision.
//!
//! A query must prove authorization for the recipient inbox it asks about,
//! either with the viewing key stored for that recipient or with a permit
//! bound to this contract instance. The host chain verifies the
//! cryptographic signature over a permit when the query arrives; everything
//! the permit itself determines is decided here: the address decodes, the
//! permit names this contract, it carries a sufficient scope, it is not
//! revoked, and the account bound to its public key is the claimed
//! recipient.

use vstd::prelude::*;
use bech32::ToBase32;
use secret_cosmwasm_std::Binary;
use crate::msg::ViewingPermissions;

verus! {

/// Why an authorization was refused. At the query boundary every variant is
/// reported as one generic unauthorized outcome; the variants exist for
/// diagnostics and tests, not for callers to distinguish.
#[derive(Clone, Copy, Debug, PartialEq, Eq, Structural)]
pub enum AuthError {
    /// The presented viewing key is not the one stored for the recipient,
    /// or the recipient has no stored key.
    Unauthorized,
    /// The claimed recipient address does not decode.
    InvalidAddress,
    /// The permit does not name this contract among its allowed tokens.
    WrongContract,
    /// The permit carries neither the history nor the owner scope.
    InsufficientScope,
    /// The permit was revoked by its signer.
    Revoked,
    /// The account bound to the permit's public key is not the claimed
    /// recipient.
    InvalidSignature,
    /// Neither a viewing key nor a permit was presented.
    NoCredential,
}

/// A scope a permit may declare.
#[derive(Clone, Copy, Debug, PartialEq, Eq, Structural)]
pub enum Permission {
    Allowance,
    Balance,
    History,
    Owner,
}

/// A permit: a signed, stateless capability token. The signature bundle is
/// carried as plain bytes; `signer` is the declared identity the revocation
/// list is keyed by.
pub struct PermitData {
    pub permit_name: String,
    pub chain_id: String,
    pub allowed_tokens: Vec<String>,
    pub permissions: Vec<Permission>,
    pub signer: String,
    pub pubkey: Vec<u8>,
    pub signature: Vec<u8>,
}

/// The mathematical value of a permit.
pub ghost struct PermitView {
    pub permit_name: Seq<char>,
    pub chain_id: Seq<char>,
    pub allowed_tokens: Seq<Seq<char>>,
    pub permissions: Seq<Permission>,
    pub signer: Seq<char>,
    pub pubkey: Seq<u8>,
    pub signature: Seq<u8>,
}

impl View for PermitData {
    type V = PermitView;

    open spec fn view(&self) -> PermitView {
        PermitView {
            permit_name: self.permit_name@,
            chain_id: self.chain_id@,
            allowed_tokens: self.allowed_tokens.deep_view(),
            permissions: self.permissions@,
            signer: self.signer@,
            pubkey: self.pubkey@,
            signature: self.signature@,
        }
    }
}

/// What `bech32::decode` yields for a string: the human-readable part before
/// the last separator, lowercased, or nothing when the string is not a valid
/// bech32 encoding.
pub uninterp spec fn bech32_hrp(s: Seq<char>) -> Option<Seq<char>>;

/// What `bech32::encode` yields for a human-readable part and a byte
/// payload.
pub uninterp spec fn bech32_of(hrp: Seq<char>, data: Seq<u8>) -> Seq<char>;

/// The 20-byte account digest the chain binds to a secp256k1 public key.
pub uninterp spec fn account_digest(pubkey: Seq<u8>) -> Seq<u8>;

/// A human-readable part that `bech32::encode` accepts: between 1 and 83
/// characters, all within the ASCII range 33..=126, none of them an
/// uppercase letter.
pub open spec fn lower_hrp(h: Seq<char>) -> bool {
    &&& 1 <= h.len() <= 83
    &&& forall|i: int|
        0 <= i < h.len() ==> 33 <= (#[trigger] h[i]) as int <= 126 && !(65 <= h[i] as int <= 90)
}

/// Relies on `bech32::decode`: on success it returns the human-readable
/// part, which it checked to be 1 to 83 characters in the ASCII range
/// 33..=126 and which it lowercased.
#[verifier::external_body]
fn decode_address_hrp(addr: &String) -> (r: Option<String>)
    ensures
        r is Some <==> bech32_hrp(addr@) is Some,
        r matches Some(h) ==> bech32_hrp(addr@) == Some(h@) && lower_hrp(h@),
{
    match bech32::decode(addr.as_str()) {
        Ok((hrp, _, _)) => Some(hrp),
        Err(_) => None,
    }
}

/// Relies on `bech32::encode`: the encoding is a function of the
/// human-readable part and the payload alone, and the only inputs it refuses
/// are human-readable parts that `check_hrp` refuses — never one that
/// `lower_hrp` accepts.
#[verifier::external_body]
fn bech32_encode(hrp: &String, data: &Vec<u8>) -> (r: Option<String>)
    ensures
        r matches Some(s) ==> s@ == bech32_of(hrp@, data@),
        lower_hrp(hrp@) ==> r is Some,
{
    bech32::encode(hrp.as_str(), data.as_slice().to_base32(), bech32::Variant::Bech32).ok()
}

/// Relies on `secret_toolkit::permit::pubkey_to_account`: the ripemd160 of
/// the sha256 of the public key, a 20-byte digest depending on the key
/// alone.
#[verifier::external_body]
fn pubkey_account_digest(pubkey: &Vec<u8>) -> (r: Vec<u8>)
    ensures
        r@ == account_digest(pubkey@),
        r@.len() == 20,
{
    secret_toolkit::permit::pubkey_to_account(&Binary(pubkey.clone())).0.0
}

/// One stored viewing key: the address that set it and the secret it chose.
pub struct KeyEntry {
    pub addr: String,
    pub key: String,
}

/// The viewing key that a list of entries stores for `addr`: the most
/// recently set entry stands first and wins.
pub open spec fn key_lookup(entries: Seq<KeyEntry>, addr: Seq<char>) -> Option<Seq<char>>
    decreases entries.len(),
{
    if entries.len() == 0 {
        None
    } else if entries[0].addr@ == addr {
        Some(entries[0].key@)
    } else {
        key_lookup(entries.drop_first(), addr)
    }
}

/// The per-user viewing keys: at most one live key per address, silently
/// replaced on every set.
pub struct ViewingKeys {
    entries: Vec<KeyEntry>,
}

impl ViewingKeys {
    /// The key stored for `addr`, if any.
    pub closed spec fn key_of(self, addr: Seq<char>) -> Option<Seq<char>> {
        key_lookup(self.entries@, addr)
    }

    pub fn new() -> (r: ViewingKeys)
        ensures
            forall|a: Seq<char>| r.key_of(a) is None,
    {
        let r = ViewingKeys { entries: Vec::new() };
        proof {
            assert forall|a: Seq<char>| r.key_of(a) is None by {
                assert(r.entries@.len() == 0);
            }
        }
        r
    }

    /// Stores `key` for `addr`, overwriting whatever key `addr` had before,
    /// and leaves every other address's key alone.
    pub fn set(&mut self, addr: &String, key: &String)
        ensures
            final(self).key_of(addr@) == Some(key@),
            forall|b: Seq<char>| b != addr@ ==> final(self).key_of(b) == old(self).key_of(b),
    {
        let ghost pre = self.entries@;
        let entry = KeyEntry { addr: addr.clone(), key: key.clone() };
        self.entries.insert(0, entry);
        proof {
            assert(self.entries@[0].addr@ == addr@);
            assert(self.entries@.drop_first() =~= pre);
        }
    }

    /// True exactly when `key` is the key stored for `addr`.
    pub fn check(&self, addr: &String, key: &String) -> (r: bool)
        ensures
            r == (self.key_of(addr@) == Some(key@)),
    {
        let n = self.entries.len();
        let mut i: usize = 0;
        proof {
            assert(self.entries@.skip(0) =~= self.entries@);
        }
        while i < n
            invariant
                n == self.entries@.len(),
                i <= n,
                key_lookup(self.entries@, addr@) == key_lookup(
                    self.entries@.skip(i as int),
                    addr@,
                ),
            decreases n - i,
        {
            let ghost pre = self.entries@.skip(i as int);
            proof {
                assert(pre[0] == self.entries@[i as int]);
                assert(pre.drop_first() =~= self.entries@.skip(i as int + 1));
            }
            if self.entries[i].addr == *addr {
                return self.entries[i].key == *key;
            }
            i = i + 1;
        }
        proof {
            assert(self.entries@.skip(n as int) =~= Seq::<KeyEntry>::empty());
        }
        false
    }
}

/// One revocation: a signer identity and the name of the permit it revoked.
pub struct RevokedEntry {
    pub signer: String,
    pub permit_name: String,
}

/// The revocation list: permits are revoked by (signer, permit name), and a
/// revocation is never undone.
pub struct RevokedPermits {
    entries: Vec<RevokedEntry>,
}

impl RevokedPermits {
    /// Whether the permit named `name` was revoked by `signer`.
    pub closed spec fn is_revoked(self, signer: Seq<char>, name: Seq<char>) -> bool {
        exists|i: int|
            0 <= i < self.entries@.len() && (#[trigger] self.entries@[i]).signer@ == signer
                && self.entries@[i].permit_name@ == name
    }

    pub fn new() -> (r: RevokedPermits)
        ensures
            forall|s: Seq<char>, n: Seq<char>| !r.is_revoked(s, n),
    {
        RevokedPermits { entries: Vec::new() }
    }

    /// Records that `signer` revoked the permit named `name`.
    pub fn revoke(&mut self, signer: &String, name: &String)
        ensures
            final(self).is_revoked(signer@, name@),
            forall|s: Seq<char>, n: Seq<char>|
                #[trigger] final(self).is_revoked(s, n) == (old(self).is_revoked(s, n) || (s
                    == signer@ && n == name@)),
    {
        let ghost pre = self.entries@;
        self.entries.push(RevokedEntry { signer: signer.clone(), permit_name: name.clone() });
        proof {
            let post = self.entries@;
            assert(post[pre.len() as int].signer@ == signer@);
            assert(post[pre.len() as int].permit_name@ == name@);
            assert forall|s: Seq<char>, n: Seq<char>| #[trigger]
                self.is_revoked(s, n) == (old(self).is_revoked(s, n) || (s == signer@ && n
                    == name@)) by {
                if self.is_revoked(s, n) {
                    let i = choose|i: int|
                        0 <= i < post.len() && (#[trigger] post[i]).signer@ == s
                            && post[i].permit_name@ == n;
                    if i < pre.len() {
                        assert(pre[i] == post[i]);
                        assert(old(self).is_revoked(s, n));
                    }
                }
                if old(self).is_revoked(s, n) {
                    let i = choose|i: int|
                        0 <= i < pre.len() && (#[trigger] pre[i]).signer@ == s
                            && pre[i].permit_name@ == n;
                    assert(post[i] == pre[i]);
                    assert(self.is_revoked(s, n));
                }
            }
        }
    }

    /// True exactly when (`signer`, `name`) is on the revocation list.
    pub fn contains(&self, signer: &String, name: &String) -> (r: bool)
        ensures
            r == self.is_revoked(signer@, name@),
    {
        let n = self.entries.len();
        let mut i: usize = 0;
        while i < n
            invariant
                n == self.entries@.len(),
                i <= n,
                forall|j: int|
                    0 <= j < i ==> !((#[trigger] self.entries@[j]).signer@ == signer@
                        && self.entries@[j].permit_name@ == name@),
            decreases n - i,
        {
            if self.entries[i].signer == *signer && self.entries[i].permit_name == *name {
                return true;
            }
            i = i + 1;
        }
        false
    }
}

/// The permit half of the authorization decision, step by step: the claimed
/// address must decode, the permit must name this contract, carry the
/// history or the owner scope, not be revoked, and bind its public key to
/// the claimed recipient.
pub open spec fn spec_permit_check(
    revoked: RevokedPermits,
    p: PermitView,
    claimed: Seq<char>,
    contract: Seq<char>,
) -> Result<(), AuthError> {
    match bech32_hrp(claimed) {
        None => Err(AuthError::InvalidAddress),
        Some(hrp) => if !p.allowed_tokens.contains(contract) {
            Err(AuthError::WrongContract)
        } else if !p.permissions.contains(Permission::History) && !p.permissions.contains(
            Permission::Owner,
        ) {
            Err(AuthError::InsufficientScope)
        } else if revoked.is_revoked(p.signer, p.permit_name) {
            Err(AuthError::Revoked)
        } else if bech32_of(hrp, account_digest(p.pubkey)) == claimed {
            Ok(())
        } else {
            Err(AuthError::InvalidSignature)
        },
    }
}

/// The whole authorization decision for one query: a viewing key is checked
/// against the stored key, a permit goes through `spec_permit_check`, and a
/// request with neither credential is refused. When both are present the
/// viewing key decides.
pub open spec fn spec_authorize(
    keys: ViewingKeys,
    revoked: RevokedPermits,
    claimed: Seq<char>,
    auth: ViewingPermissions,
    contract: Seq<char>,
) -> Result<(), AuthError> {
    match auth.key {
        Some(k) => if keys.key_of(claimed) == Some(k@) {
            Ok(())
        } else {
            Err(AuthError::Unauthorized)
        },
        None => match auth.permit {
            Some(p) => spec_permit_check(revoked, p@, claimed, contract),
            None => Err(AuthError::NoCredential),
        },
    }
}

/// True exactly when one of the strings in `v` is `x`.
fn contains_string(v: &Vec<String>, x: &String) -> (r: bool)
    ensures
        r == v.deep_view().contains(x@),
{
    let n = v.len();
    let mut i: usize = 0;
    while i < n
        invariant
            n == v@.len(),
            i <= n,
            forall|j: int| 0 <= j < i ==> v.deep_view()[j] != x@,
        decreases n - i,
    {
        if v[i] == *x {
            proof {
                assert(v.deep_view()[i as int] == x@);
            }
            return true;
        }
        proof {
            assert(v.deep_view()[i as int] == v@[i as int]@);
        }
        i = i + 1;
    }
    false
}

/// True exactly when `perm` is one of the scopes in `v`.
fn has_permission(v: &Vec<Permission>, perm: Permission) -> (r: bool)
    ensures
        r == v@.contains(perm),
{
    let n = v.len();
    let mut i: usize = 0;
    while i < n
        invariant
            n == v@.len(),
            i <= n,
            forall|j: int| 0 <= j < i ==> v@[j] != perm,
        decreases n - i,
    {
        if v[i] == perm {
            return true;
        }
        i = i + 1;
    }
    false
}

/// Validates a permit against the claimed recipient and this contract's own
/// address, in the order `spec_permit_check` lays down.
pub fn check_permit(
    revoked: &RevokedPermits,
    permit: &PermitData,
    claimed: &String,
    contract: &String,
) -> (r: Result<(), AuthError>)
    ensures
        r == spec_permit_check(*revoked, permit@, claimed@, contract@),
{
    let hrp = match decode_address_hrp(claimed) {
        None => {
            return Err(AuthError::InvalidAddress);
        },
        Some(h) => h,
    };
    if !contains_string(&permit.allowed_tokens, contract) {
        return Err(AuthError::WrongContract);
    }
    if !has_permission(&permit.permissions, Permission::History) && !has_permission(
        &permit.permissions,
        Permission::Owner,
    ) {
        return Err(AuthError::InsufficientScope);
    }
    if revoked.contains(&permit.signer, &permit.permit_name) {
        return Err(AuthError::Revoked);
    }
    let digest = pubkey_account_digest(&permit.pubkey);
    match bech32_encode(&hrp, &digest) {
        Some(account) => {
            if account == *claimed {
                Ok(())
            } else {
                Err(AuthError::InvalidSignature)
            }
        },
        None => {
            proof {
                assert(false);
            }
            Err(AuthError::InvalidSignature)
        },
    }
}

/// The single authorization gate: validates one credential against the
/// claimed recipient and this contract instance, exactly as
/// `spec_authorize` lays down. It fails closed and reads nothing but the
/// stored key and the revocation list.
pub fn authorize(
    keys: &ViewingKeys,
    revoked: &RevokedPermits,
    claimed: &String,
    auth: &ViewingPermissions,
    contract: &String,
) -> (r: Result<(), AuthError>)
    ensures
        r == spec_authorize(*keys, *revoked, claimed@, *auth, contract@),
{
    match &auth.key {
        Some(key) => {
            if keys.check(claimed, key) {
                Ok(())
            } else {
                Err(AuthError::Unauthorized)
            }
        },
        None => match &auth.permit {
            Some(permit) => check_permit(revoked, permit, claimed, contract),
            None => Err(AuthError::NoCredential),
        },
    }
}

/// A viewing key authorizes exactly the recipient it is stored for: a
/// key-credential query succeeds precisely when the presented key is the one
/// stored for the claimed recipient.
pub proof fn lemma_viewing_key_exact(
    keys: ViewingKeys,
    revoked: RevokedPermits,
    claimed: Seq<char>,
    key: String,
    contract: Seq<char>,
)
    ensures
        spec_authorize(
            keys,
            revoked,
            claimed,
            (ViewingPermissions { permit: None, key: Some(key) }),
            contract,
        ) == if keys.key_of(claimed) == Some(key@) {
            Ok::<(), AuthError>(())
        } else {
            Err::<(), AuthError>(AuthError::Unauthorized)
        },
{
}

/// Setting a new viewing key immediately invalidates the old one: once the
/// store maps the recipient to the new key, the new key authorizes and any
/// different old key is refused.
pub proof fn lemma_key_rotation(
    keys: ViewingKeys,
    revoked: RevokedPermits,
    claimed: Seq<char>,
    old_key: String,
    new_key: String,
    contract: Seq<char>,
)
    requires
        keys.key_of(claimed) == Some(new_key@),
        old_key@ != new_key@,
    ensures
        spec_authorize(
            keys,
            revoked,
            claimed,
            (ViewingPermissions { permit: None, key: Some(new_key) }),
            contract,
        ) == Ok::<(), AuthError>(()),
        spec_authorize(
            keys,
            revoked,
            claimed,
            (ViewingPermissions { permit: None, key: Some(old_key) }),
            contract,
        ) == Err::<(), AuthError>(AuthError::Unauthorized),
{
}

/// A permit that does not name the queried contract among its allowed
/// tokens is rejected, however well-formed the rest of it is: a permit
/// signed for one contract cannot be replayed against another.
pub proof fn lemma_permit_wrong_contract(
    revoked: RevokedPermits,
    p: PermitView,
    claimed: Seq<char>,
    contract: Seq<char>,
)
    requires
        !p.allowed_tokens.contains(contract),
    ensures
        spec_permit_check(revoked, p, claimed, contract) is Err,
        bech32_hrp(claimed) is Some ==> spec_permit_check(revoked, p, claimed, contract)
            == Err::<(), AuthError>(AuthError::WrongContract),
{
}

/// A permit lacking both the history and the owner scope is rejected
/// regardless of everything else about it: the scope check precedes, and is
/// independent of, the signer binding.
pub proof fn lemma_permit_requires_scope(
    revoked: RevokedPermits,
    p: PermitView,
    claimed: Seq<char>,
    contract: Seq<char>,
)
    requires
        !p.permissions.contains(Permission::History),
        !p.permissions.contains(Permission::Owner),
    ensures
        spec_permit_check(revoked, p, claimed, contract) is Err,
{
}

} // verus!
