//! Invitations to a workspace that are bound to one person and one expiry time.

use crate::hash;
use vstd::arithmetic::div_mod::*;
use vstd::prelude::*;

verus! {

/// The order of the scalar field of the BN254 curve, in which invitations are computed.
pub open spec fn field_order() -> nat {
    21888242871839275222246405745257275088548364400416034343698204186575808495617nat
}

/// The number that bytes stand for, the lowest byte first.
pub open spec fn le_value(bytes: Seq<u8>) -> nat
    decreases bytes.len(),
{
    if bytes.len() == 0 {
        0
    } else {
        bytes[0] as nat + 256 * le_value(bytes.drop_first())
    }
}

/// Calls `from_le_bytes_mod_order` of `ark_bn254::Fr` and hands the element back as the 32 bytes of
/// `into_bigint` and `to_bytes_le`: the number modulo the order of the field.
#[verifier::external_body]
pub(crate) fn field_element(bytes: &[u8]) -> (r: Vec<u8>)
    ensures
        r@.len() == 32,
        le_value(r@) == le_value(bytes@) % field_order(),
{
    let x = <ark_bn254::Fr as ark_ff::PrimeField>::from_le_bytes_mod_order(bytes);
    ark_ff::BigInteger::to_bytes_le(&ark_ff::PrimeField::into_bigint(x))
}

/// Calls `From<u64>` of `ark_bn254::Fr`: every such number is less than the order of the field.
#[verifier::external_body]
pub(crate) fn field_number(n: u64) -> (r: Vec<u8>)
    ensures
        r@.len() == 32,
        le_value(r@) == n,
{
    ark_ff::BigInteger::to_bytes_le(&ark_ff::PrimeField::into_bigint(ark_bn254::Fr::from(n)))
}

/// Calls the addition of `ark_bn254::Fr` on the elements that bytes stand for.
#[verifier::external_body]
pub(crate) fn field_sum(a: &[u8], b: &[u8]) -> (r: Vec<u8>)
    ensures
        r@.len() == 32,
        le_value(r@) == (le_value(a@) + le_value(b@)) % field_order(),
{
    let x = <ark_bn254::Fr as ark_ff::PrimeField>::from_le_bytes_mod_order(a);
    let y = <ark_bn254::Fr as ark_ff::PrimeField>::from_le_bytes_mod_order(b);
    ark_ff::BigInteger::to_bytes_le(&ark_ff::PrimeField::into_bigint(x + y))
}

/// Calls the multiplication of `ark_bn254::Fr` on the elements that bytes stand for.
#[verifier::external_body]
pub(crate) fn field_product(a: &[u8], b: &[u8]) -> (r: Vec<u8>)
    ensures
        r@.len() == 32,
        le_value(r@) == (le_value(a@) * le_value(b@)) % field_order(),
{
    let x = <ark_bn254::Fr as ark_ff::PrimeField>::from_le_bytes_mod_order(a);
    let y = <ark_bn254::Fr as ark_ff::PrimeField>::from_le_bytes_mod_order(b);
    ark_ff::BigInteger::to_bytes_le(&ark_ff::PrimeField::into_bigint(x * y))
}

/// The number that binds an invitation to a person, a workspace and an expiry time.
pub open spec fn invitation_value(
    code: nat,
    nonce: nat,
    person: nat,
    workspace: nat,
    expiry: nat,
) -> nat {
    (code + nonce * person + workspace * expiry) % field_order()
}

fn combine(code: &[u8], nonce: &[u8], person: &[u8], workspace: &[u8], expiry: u64) -> (r: Vec<u8>)
    ensures
        r@.len() == 32,
        le_value(r@) == invitation_value(
            le_value(code@),
            le_value(nonce@),
            le_value(person@),
            le_value(workspace@),
            expiry as nat,
        ),
{
    let bound = field_product(nonce, person);
    let timed = field_product(workspace, field_number(expiry).as_slice());
    let first = field_sum(code, bound.as_slice());
    let all = field_sum(first.as_slice(), timed.as_slice());
    proof {
        let m = field_order() as int;
        let c = le_value(code@) as int;
        let b = (le_value(nonce@) * le_value(person@)) as int;
        let t = (le_value(workspace@) * expiry as nat) as int;
        lemma_add_mod_noop(c, b % m, m);
        lemma_add_mod_noop(c, b, m);
        lemma_mod_twice(b, m);
        lemma_mod_twice(t, m);
        lemma_add_mod_noop(c + b, t, m);
        lemma_mod_twice(c + b, m);
        lemma_add_mod_noop((c + b) % m, t % m, m);
    }
    all
}

/// An invitation as it is handed out.
#[derive(Debug, PartialEq, Eq)]
pub struct Invitation {
    pub code: Vec<u8>,
    pub nonce: Vec<u8>,
    pub hash: Vec<u8>,
}

/// An invitation as it is stored.
#[derive(Debug, PartialEq, Eq)]
pub struct InvitationRecord {
    pub invitation_hash: Vec<u8>,
    pub workspace_id: Vec<u8>,
    pub inviter_id: Vec<u8>,
    pub invitee_id: Vec<u8>,
    pub expiry_time: u64,
    pub created_at: u64,
}

fn prefix(bytes: &[u8], n: usize) -> (r: Vec<u8>)
    requires
        n <= bytes@.len(),
    ensures
        r@ == bytes@.take(n as int),
{
    let mut out: Vec<u8> = Vec::new();
    let mut i: usize = 0;
    while i < n
        invariant
            i <= n <= bytes@.len(),
            out@ == bytes@.take(i as int),
        decreases n - i,
    {
        out.push(bytes[i]);
        assert(out@ =~= bytes@.take(i + 1));
        i = i + 1;
    }
    out
}

/// Whether an invitation is the one of a secret key, a nonce, a person, a workspace and an expiry
/// time.
pub open spec fn invites(
    i: Invitation,
    secret_key: Seq<u8>,
    nonce: u64,
    invitee: Seq<u8>,
    workspace_id: Seq<u8>,
    expiry: u64,
) -> bool {
    &&& i.code@.len() == 32
    &&& i.nonce@.len() == 32
    &&& i.hash@.len() == 32
    &&& le_value(i.code@) == le_value(secret_key.take(32)) % field_order()
    &&& le_value(i.nonce@) == nonce
    &&& le_value(i.hash@) == invitation_value(
        le_value(i.code@),
        nonce as nat,
        le_value(hash::blake3_digest(invitee)),
        le_value(workspace_id),
        expiry as nat,
    )
}

/// Makes an invitation: a code from the inviter's secret key, a nonce drawn at random, and a number
/// that binds both to the invitee, the workspace and the expiry time.
pub fn create_invitation(
    secret_key: &[u8],
    nonce: u64,
    invitee: &[u8],
    workspace_id: &[u8],
    expiry_time: u64,
) -> (r: Invitation)
    requires
        secret_key@.len() >= 32,
    ensures
        invites(r, secret_key@, nonce, invitee@, workspace_id@, expiry_time),
{
    let key = prefix(secret_key, 32);
    let code = field_element(key.as_slice());
    let number = field_number(nonce);
    let digest = hash::blake3_hash(invitee);
    let hash = combine(
        code.as_slice(),
        number.as_slice(),
        digest.as_slice(),
        workspace_id,
        expiry_time,
    );
    Invitation { code, nonce: number, hash }
}

impl Invitation {
    /// The invitation as bytes: the code, the nonce and the hash; nothing where they do not fit.
    pub fn to_bytes(&self, capacity: usize) -> (r: Option<Vec<u8>>)
        requires
            self.code@.len() == 32,
            self.nonce@.len() == 32,
            self.hash@.len() == 32,
        ensures
            match r {
                Some(bytes) => capacity >= 96 && bytes@ == self.code@ + self.nonce@ + self.hash@,
                None => capacity < 96,
            },
    {
        if capacity < 96 {
            return None;
        }
        let mut out: Vec<u8> = prefix(self.code.as_slice(), self.code.len());
        let mut nonce = prefix(self.nonce.as_slice(), self.nonce.len());
        let mut hash = prefix(self.hash.as_slice(), self.hash.len());
        out.append(&mut nonce);
        out.append(&mut hash);
        assert(out@ =~= self.code@ + self.nonce@ + self.hash@);
        Some(out)
    }

    /// What is stored of an invitation. The inviter is known by the first 32 bytes of their
    /// identifier, the invitee by the digest of theirs.
    pub fn record(
        &self,
        workspace_id: Vec<u8>,
        inviter: &[u8],
        invitee: &[u8],
        expiry_time: u64,
        now: u64,
    ) -> (r: InvitationRecord)
        requires
            inviter@.len() >= 32,
        ensures
            r.invitation_hash@ == self.hash@,
            r.workspace_id == workspace_id,
            r.inviter_id@ == inviter@.take(32),
            r.invitee_id@ == hash::blake3_digest(invitee@),
            r.expiry_time == expiry_time,
            r.created_at == now,
    {
        let digest = hash::blake3_hash(invitee);
        let invitation_hash = prefix(self.hash.as_slice(), self.hash.len());
        let invitee_id = prefix(digest.as_slice(), 32);
        assert(invitation_hash@ =~= self.hash@);
        assert(invitee_id@ =~= digest@);
        InvitationRecord {
            invitation_hash,
            workspace_id,
            inviter_id: prefix(inviter, 32),
            invitee_id,
            expiry_time,
            created_at: now,
        }
    }
}

proof fn lemma_le_value_determines(a: Seq<u8>, b: Seq<u8>)
    requires
        a.len() == b.len(),
        le_value(a) == le_value(b),
    ensures
        a == b,
    decreases a.len(),
{
    if a.len() > 0 {
        lemma_le_value_determines(a.drop_first(), b.drop_first());
        assert(a =~= seq![a[0]] + a.drop_first());
        assert(b =~= seq![b[0]] + b.drop_first());
    } else {
        assert(a =~= b);
    }
}

fn same_bytes(a: &Vec<u8>, b: &Vec<u8>) -> (r: bool)
    ensures
        r == (a@ == b@),
{
    if a.len() != b.len() {
        return false;
    }
    let mut i: usize = 0;
    while i < a.len()
        invariant
            i <= a@.len(),
            a@.len() == b@.len(),
            forall|k: int| 0 <= k < i ==> a@[k] == b@[k],
        decreases a.len() - i,
    {
        if a[i] != b[i] {
            return false;
        }
        i = i + 1;
    }
    assert(a@ =~= b@);
    true
}

/// Whether an invitation is good: it is stored and has not expired, and its hash binds it to the
/// claimer, the workspace and the expiry time.
pub open spec fn is_good(
    stored_expiry: Option<u64>,
    now: u64,
    code: Seq<u8>,
    nonce: Seq<u8>,
    hash: Seq<u8>,
    claimer: Seq<u8>,
    workspace_id: Seq<u8>,
    expiry: u64,
) -> bool {
    &&& stored_expiry is Some
    &&& stored_expiry->0 >= now
    &&& le_value(hash) % field_order() == invitation_value(
        le_value(code),
        le_value(nonce),
        le_value(hash::blake3_digest(claimer)),
        le_value(workspace_id),
        expiry as nat,
    )
}

/// Decides whether a claimer may use an invitation.
pub fn accept_invitation(
    stored_expiry: Option<u64>,
    now: u64,
    code: &[u8],
    nonce: &[u8],
    invitation_hash: &[u8],
    claimer: &[u8],
    workspace_id: &[u8],
    expiry_time: u64,
) -> (r: bool)
    ensures
        r == is_good(
            stored_expiry,
            now,
            code@,
            nonce@,
            invitation_hash@,
            claimer@,
            workspace_id@,
            expiry_time,
        ),
{
    match stored_expiry {
        None => false,
        Some(expiry) => {
            if expiry < now {
                return false;
            }
            let digest = hash::blake3_hash(claimer);
            let computed = combine(code, nonce, digest.as_slice(), workspace_id, expiry_time);
            let given = field_element(invitation_hash);
            let same = same_bytes(&computed, &given);
            proof {
                if le_value(computed@) == le_value(given@) {
                    lemma_le_value_determines(computed@, given@);
                }
            }
            same
        },
    }
}

/// An invitation is good for the person, the workspace and the expiry time that it was made for, as
/// long as it is stored and has not expired. The claimer must be known by the very bytes that the
/// invitee was known by.
pub proof fn an_invitation_is_good_for_its_invitee(
    i: Invitation,
    secret_key: Seq<u8>,
    nonce: u64,
    invitee: Seq<u8>,
    workspace_id: Seq<u8>,
    expiry: u64,
    now: u64,
)
    requires
        invites(i, secret_key, nonce, invitee, workspace_id, expiry),
        now <= expiry,
    ensures
        is_good(Some(expiry), now, i.code@, i.nonce@, i.hash@, invitee, workspace_id, expiry),
{
    let m = field_order() as int;
    let x = le_value(i.code@) + nonce as nat * le_value(hash::blake3_digest(invitee)) + le_value(
        workspace_id,
    ) * expiry as nat;
    lemma_mod_twice(x as int, m);
}

} // verus!
