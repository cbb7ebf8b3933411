//! Deterministic address derivation and the authority proofs built from it.
//!
//! A program-owned record sits at an address computed from a fixed label and
//! the program identity, together with a numeric bump that pushes the result
//! outside the space of addresses with known private keys.  The same
//! derivation that placed the record later serves as its signature substitute:
//! an `AuthorityProof` carries the label and bump, and a verifier accepts it
//! exactly when re-deriving from them reproduces the claimed address.

use vstd::prelude::*;

verus! {

/// Byte length of every ledger address.
pub const ADDRESS_LEN: usize = 32;

/// Longest seed label the derivation accepts.
pub const MAX_LABEL_LEN: usize = 32;

/// What `Pubkey::try_find_program_address` returns for one seed label and a
/// program identity: the derived address bytes and the chosen bump, or `None`
/// when no bump yields an off-curve address.
pub uninterp spec fn derived_of(label: Seq<u8>, program: Seq<u8>) -> Option<(Seq<u8>, u8)>;

/// What `get_associated_token_address` returns: the address of the token
/// account associated with a wallet and a mint.
pub uninterp spec fn associated_address_of(owner: Seq<u8>, mint: Seq<u8>) -> Seq<u8>;

/// A 32-byte ledger address: the key of every persistent record.
pub struct Address {
    bytes: Vec<u8>,
}

impl View for Address {
    type V = Seq<u8>;

    closed spec fn view(&self) -> Seq<u8> {
        self.bytes@
    }
}

impl Address {
    /// Every address holds exactly 32 bytes.
    pub open spec fn wf(&self) -> bool {
        self@.len() == ADDRESS_LEN
    }

    pub fn new(bytes: Vec<u8>) -> (r: Address)
        requires
            bytes@.len() == ADDRESS_LEN,
        ensures
            r@ == bytes@,
            r.wf(),
    {
        Address { bytes }
    }

    /// An independent copy of the address.
    pub fn dup(&self) -> (r: Address)
        ensures
            r@ == self@,
    {
        let copy = self.bytes.clone();
        proof {
            assert(copy@ =~= self.bytes@);
        }
        Address { bytes: copy }
    }

    /// The bytes of the address.
    pub fn into_bytes(self) -> (r: Vec<u8>)
        ensures
            r@ == self@,
    {
        self.bytes
    }

    /// Byte-for-byte equality of two addresses.
    pub fn eq(&self, other: &Address) -> (r: bool)
        ensures
            r == (self@ == other@),
    {
        if self.bytes.len() != other.bytes.len() {
            return false;
        }
        let mut i: usize = 0;
        while i < self.bytes.len()
            invariant
                i <= self.bytes.len(),
                self.bytes.len() == other.bytes.len(),
                forall|j: int| 0 <= j < i ==> self@[j] == other@[j],
            decreases self.bytes.len() - i,
        {
            if self.bytes[i] != other.bytes[i] {
                return false;
            }
            i += 1;
        }
        proof {
            assert(self@ =~= other@);
        }
        true
    }
}

/// The `(label, bump)` pair that substitutes for a signature: it authorizes an
/// action for an address exactly when re-deriving from it reproduces that
/// address.
pub struct AuthorityProof {
    pub label: Vec<u8>,
    pub bump: u8,
}

impl AuthorityProof {
    /// The proof's label fits the derivation's seed limit.
    pub open spec fn wf(&self) -> bool {
        self.label@.len() <= MAX_LABEL_LEN
    }

    /// The proof re-derives to `address` under `program`.
    pub open spec fn authorizes(&self, address: Seq<u8>, program: Seq<u8>) -> bool {
        derived_of(self.label@, program) == Some((address, self.bump))
    }
}

/// Relies on `Pubkey::try_find_program_address` (anchor-lang's prelude, backed
/// by the solana-address crate): for a single seed slice and a 32-byte program
/// identity it deterministically searches for a bump whose derived address is
/// off-curve, returning the 32-byte address and the bump, or `None` when no
/// bump works.
#[verifier::external_body]
fn try_derive_raw(label: &Vec<u8>, program: &Vec<u8>) -> (r: Option<(Vec<u8>, u8)>)
    requires
        label@.len() <= MAX_LABEL_LEN,
        program@.len() == ADDRESS_LEN,
    ensures
        (match (r, derived_of(label@, program@)) {
            (Some((a, b)), Some((sa, sb))) => a@ == sa && b == sb && a@.len() == ADDRESS_LEN,
            (None, None) => true,
            _ => false,
        }),
{
    let program_id = anchor_lang::prelude::Pubkey::try_from(program.as_slice()).ok()?;
    anchor_lang::prelude::Pubkey::try_find_program_address(&[label.as_slice()], &program_id)
        .map(|pair| (pair.0.to_bytes().to_vec(), pair.1))
}

/// Relies on `anchor_spl::associated_token::get_associated_token_address`: the
/// associated token address is a pure function of the wallet and mint
/// addresses.  Its internal bump search is documented to fail only with
/// statistically negligible probability.
#[verifier::external_body]
pub fn associated_address(owner: &Address, mint: &Address) -> (r: Address)
    requires
        owner.wf(),
        mint.wf(),
    ensures
        r@ == associated_address_of(owner@, mint@),
        r.wf(),
{
    let w = anchor_lang::prelude::Pubkey::try_from(owner.bytes.as_slice()).unwrap();
    let m = anchor_lang::prelude::Pubkey::try_from(mint.bytes.as_slice()).unwrap();
    let a = anchor_spl::associated_token::get_associated_token_address(&w, &m);
    Address { bytes: a.to_bytes().to_vec() }
}

/// Derive the program-owned address and bump for a seed label.
pub fn derive_address(label: &Vec<u8>, program: &Address) -> (r: Option<(Address, u8)>)
    requires
        label@.len() <= MAX_LABEL_LEN,
        program.wf(),
    ensures
        (match r {
            Some((a, b)) => derived_of(label@, program@) == Some((a@, b)) && a.wf(),
            None => derived_of(label@, program@) is None,
        }),
{
    match try_derive_raw(label, &program.bytes) {
        None => None,
        Some((bytes, bump)) => Some((Address::new(bytes), bump)),
    }
}

/// Recompute the derivation for a proof's label and accept exactly when it
/// reproduces the claimed address and bump.
pub fn verify_authority(auth: &AuthorityProof, address: &Address, program: &Address) -> (r: bool)
    requires
        auth.wf(),
        program.wf(),
    ensures
        r == auth.authorizes(address@, program@),
{
    match try_derive_raw(&auth.label, &program.bytes) {
        None => false,
        Some((bytes, bump)) => {
            let derived = Address::new(bytes);
            bump == auth.bump && derived.eq(address)
        },
    }
}

/// The fixed public label that derives the Mint address.
pub open spec fn mint_seed_spec() -> Seq<u8> {
    seq![109u8, 105u8, 110u8, 116u8, 45u8, 115u8, 101u8, 101u8, 100u8]
}

/// The fixed public label that derives the Vault address.
pub open spec fn vault_seed_spec() -> Seq<u8> {
    seq![118u8, 97u8, 117u8, 108u8, 116u8, 45u8, 115u8, 101u8, 101u8, 100u8]
}

/// The bytes of `"mint-seed"`.
pub fn mint_seed() -> (r: Vec<u8>)
    ensures
        r@ == mint_seed_spec(),
        r@.len() <= MAX_LABEL_LEN,
{
    let mut v: Vec<u8> = Vec::new();
    v.push(109);
    v.push(105);
    v.push(110);
    v.push(116);
    v.push(45);
    v.push(115);
    v.push(101);
    v.push(101);
    v.push(100);
    proof {
        assert(v@ =~= mint_seed_spec());
    }
    v
}

/// The bytes of `"vault-seed"`.
pub fn vault_seed() -> (r: Vec<u8>)
    ensures
        r@ == vault_seed_spec(),
        r@.len() <= MAX_LABEL_LEN,
{
    let mut v: Vec<u8> = Vec::new();
    v.push(118);
    v.push(97);
    v.push(117);
    v.push(108);
    v.push(116);
    v.push(45);
    v.push(115);
    v.push(101);
    v.push(101);
    v.push(100);
    proof {
        assert(v@ =~= vault_seed_spec());
    }
    v
}

} // verus!
