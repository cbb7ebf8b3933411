//! The token sub-system as this program relies on it.
//!
//! The program never moves tokens itself: it delegates to the token
//! sub-system, passing an `AuthorityProof` in place of a signature.  This
//! module models the two delegated operations the program invokes, `mint_to`
//! and `transfer`, over the records they touch.  An operation either performs
//! its whole effect or rejects with a reason and changes nothing.

use vstd::prelude::*;
use crate::address::{Address, AuthorityProof, verify_authority, ADDRESS_LEN};

verus! {

/// Why the token sub-system rejected a delegated call.
#[derive(PartialEq, Eq, Structural, Clone, Copy, Debug)]
pub enum TokenError {
    /// The authority proof does not re-derive the required authority address.
    AuthorityMismatch,
    /// A token account does not belong to the mint named by the call.
    MintMismatch,
    /// The decimals named by the call differ from the mint's.
    DecimalsMismatch,
    /// The source balance is smaller than the amount.
    InsufficientFunds,
    /// Minting would push the recorded supply past the largest balance.
    SupplyOverflow,
    /// The destination balance would pass the largest balance.
    BalanceOverflow,
}

/// The token-supply descriptor.  Its authority is an address, not a key: the
/// program signs for it with the derivation proof that placed it.
pub struct MintRecord {
    /// Where the record sits.
    pub address: Address,
    /// Who may mint: for this program, the mint's own address.
    pub authority: Address,
    /// Decimal places of the token.
    pub decimals: u8,
    /// Total amount minted so far.
    pub supply: u64,
}

impl MintRecord {
    pub open spec fn wf(&self) -> bool {
        &&& self.address@.len() == ADDRESS_LEN
        &&& self.authority@.len() == ADDRESS_LEN
    }
}

/// A token account: a balance of the token held for `authority`.
pub struct TokenRecord {
    /// Where the record sits.
    pub address: Address,
    /// The mint whose tokens it holds.
    pub mint: Address,
    /// Who may move the balance.
    pub authority: Address,
    /// The balance itself.
    pub amount: u64,
}

impl TokenRecord {
    pub open spec fn wf(&self) -> bool {
        &&& self.address@.len() == ADDRESS_LEN
        &&& self.mint@.len() == ADDRESS_LEN
        &&& self.authority@.len() == ADDRESS_LEN
    }
}

/// When a delegated `mint_to` succeeds.
pub open spec fn mint_to_ok(
    mint: MintRecord,
    dest: TokenRecord,
    amount: u64,
    auth: AuthorityProof,
    program: Seq<u8>,
) -> bool {
    &&& auth.authorizes(mint.authority@, program)
    &&& dest.mint@ == mint.address@
    &&& mint.supply + amount <= u64::MAX
    &&& dest.amount + amount <= u64::MAX
}

/// The reason a failing `mint_to` reports, checked in this order.
pub open spec fn mint_to_err(
    mint: MintRecord,
    dest: TokenRecord,
    amount: u64,
    auth: AuthorityProof,
    program: Seq<u8>,
) -> TokenError {
    if !auth.authorizes(mint.authority@, program) {
        TokenError::AuthorityMismatch
    } else if dest.mint@ != mint.address@ {
        TokenError::MintMismatch
    } else if mint.supply + amount > u64::MAX {
        TokenError::SupplyOverflow
    } else {
        TokenError::BalanceOverflow
    }
}

/// Delegated mint: increase `dest`'s balance and the recorded supply by
/// `amount`, provided the authority proof re-derives the mint's authority
/// address and neither number passes the largest balance.  On rejection
/// nothing changes.
pub fn mint_to(
    mint: &mut MintRecord,
    dest: &mut TokenRecord,
    amount: u64,
    auth: &AuthorityProof,
    program: &Address,
) -> (r: Result<(), TokenError>)
    requires
        auth.wf(),
        program.wf(),
    ensures
        r is Ok <==> mint_to_ok(*old(mint), *old(dest), amount, *auth, program@),
        r is Ok ==> {
            &&& final(mint).supply == old(mint).supply + amount
            &&& final(dest).amount == old(dest).amount + amount
            &&& final(mint).address == old(mint).address
            &&& final(mint).authority == old(mint).authority
            &&& final(mint).decimals == old(mint).decimals
            &&& final(dest).address == old(dest).address
            &&& final(dest).mint == old(dest).mint
            &&& final(dest).authority == old(dest).authority
        },
        r matches Err(e) ==> {
            &&& *final(mint) == *old(mint)
            &&& *final(dest) == *old(dest)
            &&& e == mint_to_err(*old(mint), *old(dest), amount, *auth, program@)
        },
{
    if !verify_authority(auth, &mint.authority, program) {
        return Err(TokenError::AuthorityMismatch);
    }
    if !dest.mint.eq(&mint.address) {
        return Err(TokenError::MintMismatch);
    }
    if amount > u64::MAX - mint.supply {
        return Err(TokenError::SupplyOverflow);
    }
    if amount > u64::MAX - dest.amount {
        return Err(TokenError::BalanceOverflow);
    }
    mint.supply = mint.supply + amount;
    dest.amount = dest.amount + amount;
    Ok(())
}

/// When a delegated `transfer` succeeds.
pub open spec fn transfer_ok(
    mint: MintRecord,
    from: TokenRecord,
    to: TokenRecord,
    amount: u64,
    decimals: u8,
    auth: AuthorityProof,
    program: Seq<u8>,
) -> bool {
    &&& decimals == mint.decimals
    &&& from.mint@ == mint.address@
    &&& to.mint@ == mint.address@
    &&& auth.authorizes(from.authority@, program)
    &&& amount <= from.amount
    &&& to.amount + amount <= u64::MAX
}

/// The reason a failing `transfer` reports, checked in this order.
pub open spec fn transfer_err(
    mint: MintRecord,
    from: TokenRecord,
    to: TokenRecord,
    amount: u64,
    decimals: u8,
    auth: AuthorityProof,
    program: Seq<u8>,
) -> TokenError {
    if decimals != mint.decimals {
        TokenError::DecimalsMismatch
    } else if from.mint@ != mint.address@ || to.mint@ != mint.address@ {
        TokenError::MintMismatch
    } else if !auth.authorizes(from.authority@, program) {
        TokenError::AuthorityMismatch
    } else if amount > from.amount {
        TokenError::InsufficientFunds
    } else {
        TokenError::BalanceOverflow
    }
}

/// Delegated transfer: move `amount` from `from` to `to`, provided both
/// accounts belong to `mint`, the stated decimals match the mint's, the
/// authority proof re-derives `from`'s authority address, the source balance
/// suffices and the destination balance does not pass the largest balance.
/// The moved amount is conserved; the mint is read, never changed.  On
/// rejection nothing changes.
pub fn transfer(
    mint: &MintRecord,
    from: &mut TokenRecord,
    to: &mut TokenRecord,
    amount: u64,
    decimals: u8,
    auth: &AuthorityProof,
    program: &Address,
) -> (r: Result<(), TokenError>)
    requires
        auth.wf(),
        program.wf(),
    ensures
        r is Ok <==> transfer_ok(*mint, *old(from), *old(to), amount, decimals, *auth, program@),
        r is Ok ==> {
            &&& final(from).amount == old(from).amount - amount
            &&& final(to).amount == old(to).amount + amount
            &&& final(from).amount + final(to).amount == old(from).amount + old(to).amount
            &&& final(from).address == old(from).address
            &&& final(from).mint == old(from).mint
            &&& final(from).authority == old(from).authority
            &&& final(to).address == old(to).address
            &&& final(to).mint == old(to).mint
            &&& final(to).authority == old(to).authority
        },
        r matches Err(e) ==> {
            &&& *final(from) == *old(from)
            &&& *final(to) == *old(to)
            &&& e == transfer_err(*mint, *old(from), *old(to), amount, decimals, *auth, program@)
        },
{
    if decimals != mint.decimals {
        return Err(TokenError::DecimalsMismatch);
    }
    if !from.mint.eq(&mint.address) || !to.mint.eq(&mint.address) {
        return Err(TokenError::MintMismatch);
    }
    if !verify_authority(auth, &from.authority, program) {
        return Err(TokenError::AuthorityMismatch);
    }
    if amount > from.amount {
        return Err(TokenError::InsufficientFunds);
    }
    if amount > u64::MAX - to.amount {
        return Err(TokenError::BalanceOverflow);
    }
    from.amount = from.amount - amount;
    to.amount = to.amount + amount;
    Ok(())
}

} // verus!
