//! The persistent record store and the instruction handlers over it.
//!
//! A `ProgramState` holds the records this program owns: the singleton
//! counter, the Mint, the Vault, and the recipient token accounts it has
//! created.  Each instruction handler validates the accounts supplied by the
//! caller against the state and the address derivation, then performs its
//! whole effect or rejects with a reason and changes nothing — every
//! instruction is all-or-nothing.

use vstd::prelude::*;
use crate::address::{
    Address, AuthorityProof, associated_address, associated_address_of, derive_address, derived_of,
    mint_seed, mint_seed_spec, vault_seed, vault_seed_spec,
};
use crate::token::{MintRecord, TokenError, TokenRecord};

verus! {

/// Decimal places of the token this program mints.
pub const TOKEN_DECIMALS: u8 = 6;

/// Why an instruction aborted.
#[derive(PartialEq, Eq, Structural, Clone, Copy, Debug)]
pub enum ProgramError {
    /// No record sits at the supplied address.
    AccountNotFound,
    /// A record already sits where one was to be created.
    AccountAlreadyInUse,
    /// A supplied address does not match the one the handler derives.
    AddressMismatch,
    /// The derivation found no bump for a label.
    DerivationFailure,
    /// The caller is not the payer recorded at initialization.
    PayerMismatch,
    /// The counter cannot go past its largest value.
    Overflow,
    /// The counter cannot go below zero.
    Underflow,
    /// The token sub-system rejected a delegated call; its reason is
    /// propagated unmodified.
    Token(TokenError),
}

/// The singleton counter record.
pub struct Counter {
    /// The 8-bit count.
    pub count: u8,
    /// The Mint this deployment is tied to; set once at initialization.
    pub mint: Address,
}

/// The counter record together with where it sits and who paid for it.
pub struct CounterAccount {
    /// Where the record sits.
    pub address: Address,
    /// The payer recorded at initialization; only it may close the record.
    pub payer: Address,
    /// The record itself.
    pub data: Counter,
}

/// Accounts supplied to `increment`, `decrement` and `set`.
pub struct Update {
    /// Where the caller says the counter sits.
    pub counter: Address,
}

/// Accounts supplied to `close`.
pub struct CloseCounter {
    /// The caller asking for the refund.
    pub payer: Address,
    /// Where the caller says the counter sits.
    pub counter: Address,
}

/// Accounts supplied to `initialize`.
pub struct InitializeCounter {
    /// The caller paying for the new records.
    pub payer: Address,
    /// Where the counter record is to be created.
    pub counter: Address,
    /// The Mint address the caller claims; must match the derivation.
    pub mint: Address,
    /// The Vault address the caller claims; must match the derivation.
    pub token_account: Address,
}

/// Accounts supplied to `transfer_tokens`.
pub struct TransferTokens {
    /// The recipient wallet signing the call.
    pub signer: Address,
    /// The Mint address the caller claims; must match the Mint record.
    pub mint: Address,
    /// The Vault address the caller claims; must match the Vault record.
    pub sender_token_account: Address,
    /// The recipient token account; must match the associated derivation.
    pub recipient_token_account: Address,
}

impl Update {
    pub open spec fn wf(&self) -> bool {
        self.counter.wf()
    }
}

impl CloseCounter {
    pub open spec fn wf(&self) -> bool {
        self.payer.wf() && self.counter.wf()
    }
}

impl InitializeCounter {
    pub open spec fn wf(&self) -> bool {
        self.payer.wf() && self.counter.wf() && self.mint.wf() && self.token_account.wf()
    }
}

impl TransferTokens {
    pub open spec fn wf(&self) -> bool {
        self.signer.wf() && self.mint.wf() && self.sender_token_account.wf()
            && self.recipient_token_account.wf()
    }
}

/// The records of one program deployment.
pub struct ProgramState {
    /// The program's own identity, fixed at deployment.
    pub program_id: Address,
    /// The singleton counter, absent until `initialize` and after `close`.
    pub counter: Option<CounterAccount>,
    /// The token-supply descriptor, at the address derived from `"mint-seed"`.
    pub mint: Option<MintRecord>,
    /// The program's own token balance, at the address derived from
    /// `"vault-seed"`.
    pub vault: Option<TokenRecord>,
    /// Recipient token accounts created on demand, at distinct addresses.
    pub recipients: Vec<TokenRecord>,
}

impl ProgramState {
    /// The counter, when present, is well-formed and tied to the Mint.
    pub open spec fn counter_wf(&self) -> bool {
        self.counter matches Some(c) ==> {
            &&& c.address.wf()
            &&& c.payer.wf()
            &&& self.mint matches Some(m) && c.data.mint@ == m.address@
        }
    }

    /// The Mint, when present, sits at its derived address, is its own
    /// authority, and carries the fixed decimals.
    pub open spec fn mint_wf(&self) -> bool {
        self.mint matches Some(m) ==> {
            &&& m.wf()
            &&& m.authority@ == m.address@
            &&& m.decimals == TOKEN_DECIMALS
            &&& derived_of(mint_seed_spec(), self.program_id@) matches Some(p) && p.0 == m.address@
        }
    }

    /// The Vault, when present, sits at its derived address, is its own
    /// authority, and holds the Mint's token.
    pub open spec fn vault_wf(&self) -> bool {
        self.vault matches Some(v) ==> {
            &&& v.wf()
            &&& v.authority@ == v.address@
            &&& derived_of(vault_seed_spec(), self.program_id@) matches Some(p) && p.0 == v.address@
            &&& self.mint matches Some(m) && v.mint@ == m.address@
        }
    }

    /// Recipient records are well-formed, hold the Mint's token, and sit at
    /// pairwise distinct addresses.
    pub open spec fn recipients_wf(&self) -> bool {
        &&& forall|i: int|
            0 <= i < self.recipients@.len() ==> (#[trigger] self.recipients@[i]).wf()
        &&& forall|i: int|
            0 <= i < self.recipients@.len() ==> (self.mint matches Some(m)
                && (#[trigger] self.recipients@[i]).mint@ == m.address@)
        &&& forall|i: int, j: int|
            0 <= i < j < self.recipients@.len()
                ==> self.recipients@[i].address@ != self.recipients@[j].address@
    }

    /// The store's invariant: every handler both assumes and preserves it.
    pub open spec fn wf(&self) -> bool {
        &&& self.program_id.wf()
        &&& self.counter_wf()
        &&& self.mint_wf()
        &&& self.vault_wf()
        &&& self.recipients_wf()
    }
}

/// The counter record exists and sits at the supplied address.
pub open spec fn counter_resolves(s: ProgramState, supplied: Seq<u8>) -> bool {
    s.counter matches Some(c) && c.address@ == supplied
}

/// The stored count (meaningful only while the counter is present).
pub open spec fn count_of(s: ProgramState) -> u8 {
    s.counter->Some_0.data.count
}

/// The state with the counter's count replaced and all else untouched.
pub open spec fn with_count(s: ProgramState, v: u8) -> ProgramState {
    ProgramState {
        counter: Some(
            CounterAccount {
                data: Counter { count: v, ..s.counter->Some_0.data },
                ..s.counter->Some_0
            },
        ),
        ..s
    }
}

/// The reason a failing `increment` reports.
pub open spec fn increment_err(s: ProgramState, supplied: Seq<u8>) -> ProgramError {
    if !counter_resolves(s, supplied) {
        ProgramError::AccountNotFound
    } else {
        ProgramError::Overflow
    }
}

/// The reason a failing `decrement` reports.
pub open spec fn decrement_err(s: ProgramState, supplied: Seq<u8>) -> ProgramError {
    if !counter_resolves(s, supplied) {
        ProgramError::AccountNotFound
    } else {
        ProgramError::Underflow
    }
}

impl ProgramState {
    /// Raise the count by one.  Aborts with an overflow at the largest 8-bit
    /// value, leaving the count unchanged.
    pub fn increment(&mut self, ctx: &Update) -> (r: Result<(), ProgramError>)
        ensures
            r is Ok <==> counter_resolves(*old(self), ctx.counter@) && count_of(*old(self)) < 255,
            r is Ok ==> *final(self) == with_count(
                *old(self),
                (count_of(*old(self)) + 1) as u8,
            ),
            r matches Err(e) ==> *final(self) == *old(self) && e == increment_err(
                *old(self),
                ctx.counter@,
            ),
            old(self).wf() ==> final(self).wf(),
    {
        let resolved = match &self.counter {
            Some(c) => c.address.eq(&ctx.counter),
            None => false,
        };
        if !resolved {
            return Err(ProgramError::AccountNotFound);
        }
        match &mut self.counter {
            Some(c) => {
                if c.data.count == 255 {
                    return Err(ProgramError::Overflow);
                }
                c.data.count = c.data.count + 1;
            },
            None => {},
        }
        Ok(())
    }

    /// Lower the count by one.  Aborts with an underflow at zero, leaving the
    /// count unchanged.
    pub fn decrement(&mut self, ctx: &Update) -> (r: Result<(), ProgramError>)
        ensures
            r is Ok <==> counter_resolves(*old(self), ctx.counter@) && count_of(*old(self)) > 0,
            r is Ok ==> *final(self) == with_count(
                *old(self),
                (count_of(*old(self)) - 1) as u8,
            ),
            r matches Err(e) ==> *final(self) == *old(self) && e == decrement_err(
                *old(self),
                ctx.counter@,
            ),
            old(self).wf() ==> final(self).wf(),
    {
        let resolved = match &self.counter {
            Some(c) => c.address.eq(&ctx.counter),
            None => false,
        };
        if !resolved {
            return Err(ProgramError::AccountNotFound);
        }
        match &mut self.counter {
            Some(c) => {
                if c.data.count == 0 {
                    return Err(ProgramError::Underflow);
                }
                c.data.count = c.data.count - 1;
            },
            None => {},
        }
        Ok(())
    }

    /// Overwrite the count with `value`.
    pub fn set(&mut self, ctx: &Update, value: u8) -> (r: Result<(), ProgramError>)
        ensures
            r is Ok <==> counter_resolves(*old(self), ctx.counter@),
            r is Ok ==> *final(self) == with_count(*old(self), value),
            r matches Err(e) ==> *final(self) == *old(self) && e == ProgramError::AccountNotFound,
            old(self).wf() ==> final(self).wf(),
    {
        let resolved = match &self.counter {
            Some(c) => c.address.eq(&ctx.counter),
            None => false,
        };
        if !resolved {
            return Err(ProgramError::AccountNotFound);
        }
        match &mut self.counter {
            Some(c) => {
                c.data.count = value;
            },
            None => {},
        }
        Ok(())
    }

    /// Read the count stored at `address`, failing when no counter record
    /// sits there.
    pub fn read_count(&self, address: &Address) -> (r: Result<u8, ProgramError>)
        ensures
            r is Ok <==> counter_resolves(*self, address@),
            r matches Ok(v) ==> v == count_of(*self),
            r matches Err(e) ==> e == ProgramError::AccountNotFound,
    {
        match &self.counter {
            Some(c) => {
                if c.address.eq(address) {
                    Ok(c.data.count)
                } else {
                    Err(ProgramError::AccountNotFound)
                }
            },
            None => Err(ProgramError::AccountNotFound),
        }
    }

    /// Delete the counter record, refunding its deposit to the payer that
    /// created it.  Only that payer may close it.
    pub fn close(&mut self, ctx: &CloseCounter) -> (r: Result<(), ProgramError>)
        ensures
            r is Ok <==> counter_resolves(*old(self), ctx.counter@)
                && old(self).counter->Some_0.payer@ == ctx.payer@,
            r is Ok ==> *final(self) == (ProgramState { counter: None, ..*old(self) }),
            r matches Err(e) ==> *final(self) == *old(self) && e == (
                if !counter_resolves(*old(self), ctx.counter@) {
                    ProgramError::AccountNotFound
                } else {
                    ProgramError::PayerMismatch
                }
            ),
            old(self).wf() ==> final(self).wf(),
    {
        let resolved = match &self.counter {
            Some(c) => c.address.eq(&ctx.counter),
            None => false,
        };
        if !resolved {
            return Err(ProgramError::AccountNotFound);
        }
        let payer_ok = match &self.counter {
            Some(c) => c.payer.eq(&ctx.payer),
            None => false,
        };
        if !payer_ok {
            return Err(ProgramError::PayerMismatch);
        }
        self.counter = None;
        Ok(())
    }
}

/// The recorded supply, zero while the Mint is absent.
pub open spec fn mint_supply(s: ProgramState) -> u64 {
    match s.mint {
        Some(m) => m.supply,
        None => 0,
    }
}

/// The Vault's balance, zero while the Vault is absent.
pub open spec fn vault_balance(s: ProgramState) -> u64 {
    match s.vault {
        Some(v) => v.amount,
        None => 0,
    }
}

/// When `initialize` succeeds: the counter is absent, both supplied derived
/// addresses match the derivation, and minting `amount` pushes neither the
/// supply nor the Vault's balance past the largest balance.
pub open spec fn initialize_ok(s: ProgramState, ctx: InitializeCounter, amount: u64) -> bool {
    &&& s.counter is None
    &&& derived_of(mint_seed_spec(), s.program_id@) matches Some(mp) && mp.0 == ctx.mint@
    &&& derived_of(vault_seed_spec(), s.program_id@) matches Some(vp) && vp.0
        == ctx.token_account@
    &&& mint_supply(s) + amount <= u64::MAX
    &&& vault_balance(s) + amount <= u64::MAX
}

/// The reason a failing `initialize` reports, checked in this order.
pub open spec fn initialize_err(s: ProgramState, ctx: InitializeCounter, amount: u64) -> ProgramError {
    if s.counter is Some {
        ProgramError::AccountAlreadyInUse
    } else if derived_of(mint_seed_spec(), s.program_id@) is None {
        ProgramError::DerivationFailure
    } else if derived_of(mint_seed_spec(), s.program_id@)->Some_0.0 != ctx.mint@ {
        ProgramError::AddressMismatch
    } else if derived_of(vault_seed_spec(), s.program_id@) is None {
        ProgramError::DerivationFailure
    } else if derived_of(vault_seed_spec(), s.program_id@)->Some_0.0 != ctx.token_account@ {
        ProgramError::AddressMismatch
    } else if mint_supply(s) + amount > u64::MAX {
        ProgramError::Token(TokenError::SupplyOverflow)
    } else {
        ProgramError::Token(TokenError::BalanceOverflow)
    }
}

impl ProgramState {
    /// Create the counter, the Mint and the Vault, and mint `amount` tokens
    /// into the Vault through the token sub-system, signing for the Mint with
    /// its derivation proof.  Fails if the counter already exists or a
    /// supplied derived address does not match the derivation; creating the
    /// Mint or the Vault when one already sits at its derived address reuses
    /// it.
    pub fn initialize(&mut self, ctx: &InitializeCounter, amount: u64) -> (r: Result<
        (),
        ProgramError,
    >)
        requires
            old(self).wf(),
            ctx.wf(),
        ensures
            r is Ok <==> initialize_ok(*old(self), *ctx, amount),
            r is Ok ==> {
                &&& final(self).counter matches Some(c) && c.address@ == ctx.counter@
                    && c.payer@ == ctx.payer@ && c.data.count == 0 && c.data.mint@ == ctx.mint@
                &&& final(self).mint matches Some(m) && m.address@ == ctx.mint@
                    && m.authority@ == ctx.mint@ && m.decimals == TOKEN_DECIMALS
                    && m.supply == mint_supply(*old(self)) + amount
                &&& final(self).vault matches Some(v) && v.address@ == ctx.token_account@
                    && v.authority@ == ctx.token_account@ && v.mint@ == ctx.mint@
                    && v.amount == vault_balance(*old(self)) + amount
                &&& final(self).recipients == old(self).recipients
                &&& final(self).program_id == old(self).program_id
            },
            r matches Err(e) ==> *final(self) == *old(self) && e == initialize_err(
                *old(self),
                *ctx,
                amount,
            ),
            final(self).wf(),
    {
        let absent = match &self.counter {
            Some(_) => false,
            None => true,
        };
        if !absent {
            return Err(ProgramError::AccountAlreadyInUse);
        }
        let mseed = mint_seed();
        let (mint_addr, mint_bump) = match derive_address(&mseed, &self.program_id) {
            None => {
                return Err(ProgramError::DerivationFailure);
            },
            Some(p) => p,
        };
        if !ctx.mint.eq(&mint_addr) {
            return Err(ProgramError::AddressMismatch);
        }
        let vseed = vault_seed();
        let (vault_addr, _vault_bump) = match derive_address(&vseed, &self.program_id) {
            None => {
                return Err(ProgramError::DerivationFailure);
            },
            Some(p) => p,
        };
        if !ctx.token_account.eq(&vault_addr) {
            return Err(ProgramError::AddressMismatch);
        }
        let old_supply: u64 = match &self.mint {
            Some(m) => m.supply,
            None => 0,
        };
        let old_vault_amount: u64 = match &self.vault {
            Some(v) => v.amount,
            None => 0,
        };
        let mut mint_rec = MintRecord {
            address: mint_addr.dup(),
            authority: mint_addr.dup(),
            decimals: TOKEN_DECIMALS,
            supply: old_supply,
        };
        let mut vault_rec = TokenRecord {
            address: vault_addr.dup(),
            mint: mint_addr.dup(),
            authority: vault_addr,
            amount: old_vault_amount,
        };
        let auth = AuthorityProof { label: mseed, bump: mint_bump };
        match crate::token::mint_to(&mut mint_rec, &mut vault_rec, amount, &auth, &self.program_id)
        {
            Err(e) => {
                return Err(ProgramError::Token(e));
            },
            Ok(()) => {},
        }
        self.counter = Some(
            CounterAccount {
                address: ctx.counter.dup(),
                payer: ctx.payer.dup(),
                data: Counter { count: 0, mint: mint_addr },
            },
        );
        self.mint = Some(mint_rec);
        self.vault = Some(vault_rec);
        Ok(())
    }
}

/// Every valid initialization ties the counter to the Mint address that the
/// derivation yields for the program identity; together with `initialize`'s
/// contract, the new counter reads zero and names exactly that address.
pub proof fn lemma_initialize_ties_mint(s: ProgramState, ctx: InitializeCounter, amount: u64)
    requires
        initialize_ok(s, ctx, amount),
    ensures
        derived_of(mint_seed_spec(), s.program_id@) matches Some(p) && p.0 == ctx.mint@,
{
}

/// Incrementing and then decrementing, away from the overflow boundary,
/// returns the whole state to exactly where it began.
pub proof fn lemma_increment_then_decrement(s: ProgramState, supplied: Seq<u8>)
    requires
        counter_resolves(s, supplied),
        count_of(s) < 255,
    ensures
        count_of(with_count(s, (count_of(s) + 1) as u8)) == count_of(s) + 1,
        with_count(with_count(s, (count_of(s) + 1) as u8), count_of(s)) == s,
{
}

/// Decrementing and then incrementing, away from the underflow boundary,
/// returns the whole state to exactly where it began.
pub proof fn lemma_decrement_then_increment(s: ProgramState, supplied: Seq<u8>)
    requires
        counter_resolves(s, supplied),
        count_of(s) > 0,
    ensures
        count_of(with_count(s, (count_of(s) - 1) as u8)) == count_of(s) - 1,
        with_count(with_count(s, (count_of(s) - 1) as u8), count_of(s)) == s,
{
}

/// After `set(value)` the counter still resolves wherever it resolved before,
/// and a read returns exactly `value`.
pub proof fn lemma_set_then_read(s: ProgramState, supplied: Seq<u8>, value: u8)
    requires
        counter_resolves(s, supplied),
    ensures
        counter_resolves(with_count(s, value), supplied),
        count_of(with_count(s, value)) == value,
{
}

/// After `close` the counter record is gone: a read finds no counter at any
/// address.
pub proof fn lemma_close_then_read(s: ProgramState, supplied: Seq<u8>)
    ensures
        !counter_resolves(ProgramState { counter: None, ..s }, supplied),
{
}

/// Whether some record among `rs` sits at address `a`.
pub open spec fn has_account(rs: Seq<TokenRecord>, a: Seq<u8>) -> bool
    decreases rs.len(),
{
    if rs.len() == 0 {
        false
    } else {
        rs[0].address@ == a || has_account(rs.drop_first(), a)
    }
}

/// The first record among `rs` at address `a` (meaningful only when
/// `has_account` holds).
pub open spec fn account_in(rs: Seq<TokenRecord>, a: Seq<u8>) -> TokenRecord
    decreases rs.len(),
{
    if rs.len() == 0 {
        rs[0]
    } else if rs[0].address@ == a {
        rs[0]
    } else {
        account_in(rs.drop_first(), a)
    }
}

/// The balance recorded at address `a` among `rs`; zero when absent.
pub open spec fn balance_in(rs: Seq<TokenRecord>, a: Seq<u8>) -> u64 {
    if has_account(rs, a) {
        account_in(rs, a).amount
    } else {
        0
    }
}

/// The sum of all balances among `rs`.
pub open spec fn sum_amounts(rs: Seq<TokenRecord>) -> int
    decreases rs.len(),
{
    if rs.len() == 0 {
        0
    } else {
        rs[0].amount + sum_amounts(rs.drop_first())
    }
}

/// Every token this program has minted, wherever it now sits: the Vault's
/// balance plus all recipient balances.
pub open spec fn total_tokens(s: ProgramState) -> int {
    (match s.vault {
        Some(v) => v.amount as int,
        None => 0,
    }) + sum_amounts(s.recipients@)
}

/// `a` sits at position `i`, and nowhere earlier: the scan stops there.
proof fn lemma_first_occurrence(rs: Seq<TokenRecord>, a: Seq<u8>, i: int)
    requires
        0 <= i < rs.len(),
        rs[i].address@ == a,
        forall|j: int| 0 <= j < i ==> rs[j].address@ != a,
    ensures
        has_account(rs, a),
        account_in(rs, a) == rs[i],
    decreases i,
{
    if i == 0 {
    } else {
        assert(rs[0].address@ != a);
        assert(rs.drop_first()[i - 1] == rs[i]);
        assert forall|j: int| 0 <= j < i - 1 implies rs.drop_first()[j].address@ != a by {
            assert(rs.drop_first()[j] == rs[j + 1]);
        }
        lemma_first_occurrence(rs.drop_first(), a, i - 1);
    }
}

/// No record sits at `a`.
proof fn lemma_no_occurrence(rs: Seq<TokenRecord>, a: Seq<u8>)
    requires
        forall|j: int| 0 <= j < rs.len() ==> rs[j].address@ != a,
    ensures
        !has_account(rs, a),
    decreases rs.len(),
{
    if rs.len() > 0 {
        assert forall|j: int| 0 <= j < rs.len() - 1 implies rs.drop_first()[j].address@ != a by {
            assert(rs.drop_first()[j] == rs[j + 1]);
        }
        lemma_no_occurrence(rs.drop_first(), a);
    }
}

/// Replacing position `i` with a record at the same address leaves presence
/// everywhere, and balances elsewhere, as they were.
proof fn lemma_update_other(rs: Seq<TokenRecord>, i: int, x: TokenRecord, b: Seq<u8>)
    requires
        0 <= i < rs.len(),
        x.address@ == rs[i].address@,
    ensures
        has_account(rs.update(i, x), b) == has_account(rs, b),
        b != x.address@ ==> balance_in(rs.update(i, x), b) == balance_in(rs, b),
    decreases rs.len(),
{
    if i == 0 {
        assert(rs.update(0, x).drop_first() =~= rs.drop_first());
    } else {
        assert(rs.update(i, x).drop_first() =~= rs.drop_first().update(i - 1, x));
        lemma_update_other(rs.drop_first(), i - 1, x, b);
    }
}

/// Replacing the first record at its own address makes the scan find the
/// replacement.
proof fn lemma_update_target(rs: Seq<TokenRecord>, i: int, x: TokenRecord)
    requires
        0 <= i < rs.len(),
        x.address@ == rs[i].address@,
        forall|j: int| 0 <= j < i ==> rs[j].address@ != rs[i].address@,
    ensures
        has_account(rs.update(i, x), x.address@),
        account_in(rs.update(i, x), x.address@) == x,
{
    assert forall|j: int| 0 <= j < i implies rs.update(i, x)[j].address@ != x.address@ by {
        assert(rs.update(i, x)[j] == rs[j]);
    }
    lemma_first_occurrence(rs.update(i, x), x.address@, i);
}

/// Replacing position `i` moves the sum by the difference of the balances.
proof fn lemma_sum_update(rs: Seq<TokenRecord>, i: int, x: TokenRecord)
    requires
        0 <= i < rs.len(),
    ensures
        sum_amounts(rs.update(i, x)) == sum_amounts(rs) - rs[i].amount + x.amount,
    decreases i,
{
    if i == 0 {
        assert(rs.update(0, x).drop_first() =~= rs.drop_first());
    } else {
        assert(rs.update(i, x).drop_first() =~= rs.drop_first().update(i - 1, x));
        lemma_sum_update(rs.drop_first(), i - 1, x);
    }
}

/// The recipient token account address `transfer_tokens` requires: the one
/// the association service derives for the signing wallet and the Mint.
pub open spec fn recipient_address_of(ctx: TransferTokens) -> Seq<u8> {
    associated_address_of(ctx.signer@, ctx.mint@)
}

/// The supplied accounts resolve: the Mint and the Vault exist at the claimed
/// addresses and the recipient account is the associated one.
pub open spec fn transfer_resolves(s: ProgramState, ctx: TransferTokens) -> bool {
    &&& s.mint matches Some(m) && ctx.mint@ == m.address@
    &&& s.vault matches Some(v) && ctx.sender_token_account@ == v.address@
    &&& ctx.recipient_token_account@ == recipient_address_of(ctx)
}

/// When `transfer_tokens` succeeds: the accounts resolve, the Vault's balance
/// covers `amount`, and the recipient's balance does not pass the largest
/// balance.
pub open spec fn transfer_tokens_ok(s: ProgramState, ctx: TransferTokens, amount: u64) -> bool {
    &&& transfer_resolves(s, ctx)
    &&& amount <= vault_balance(s)
    &&& balance_in(s.recipients@, recipient_address_of(ctx)) + amount <= u64::MAX
}

/// The reason a failing `transfer_tokens` reports, checked in this order.
pub open spec fn transfer_tokens_err(
    s: ProgramState,
    ctx: TransferTokens,
    amount: u64,
) -> ProgramError {
    if s.mint is None {
        ProgramError::AccountNotFound
    } else if ctx.mint@ != s.mint->Some_0.address@ {
        ProgramError::AddressMismatch
    } else if s.vault is None {
        ProgramError::AccountNotFound
    } else if ctx.sender_token_account@ != s.vault->Some_0.address@ {
        ProgramError::AddressMismatch
    } else if ctx.recipient_token_account@ != recipient_address_of(ctx) {
        ProgramError::AddressMismatch
    } else if amount > vault_balance(s) {
        ProgramError::Token(TokenError::InsufficientFunds)
    } else {
        ProgramError::Token(TokenError::BalanceOverflow)
    }
}

impl ProgramState {
    /// Move `amount` tokens from the Vault to the recipient's associated
    /// token account, creating that account when absent, through the token
    /// sub-system, signing for the Vault with its derivation proof.  The
    /// total of all balances is conserved; on failure both balances stay as
    /// they were.
    pub fn transfer_tokens(&mut self, ctx: &TransferTokens, amount: u64) -> (r: Result<
        (),
        ProgramError,
    >)
        requires
            old(self).wf(),
            ctx.wf(),
        ensures
            r is Ok <==> transfer_tokens_ok(*old(self), *ctx, amount),
            r is Ok ==> {
                &&& final(self).vault matches Some(v) && old(self).vault matches Some(w)
                    && v.amount == w.amount - amount && v.address == w.address
                    && v.mint == w.mint && v.authority == w.authority
                &&& final(self).mint == old(self).mint
                &&& final(self).counter == old(self).counter
                &&& final(self).program_id == old(self).program_id
                &&& balance_in(final(self).recipients@, recipient_address_of(*ctx)) == balance_in(
                    old(self).recipients@,
                    recipient_address_of(*ctx),
                ) + amount
                &&& forall|b: Seq<u8>|
                    b != recipient_address_of(*ctx) ==> balance_in(final(self).recipients@, b)
                        == balance_in(old(self).recipients@, b)
                &&& forall|b: Seq<u8>|
                    has_account(final(self).recipients@, b) == (has_account(
                        old(self).recipients@,
                        b,
                    ) || b == recipient_address_of(*ctx))
                &&& !has_account(old(self).recipients@, recipient_address_of(*ctx))
                    ==> account_in(final(self).recipients@, recipient_address_of(*ctx)).authority@
                    == ctx.signer@
                &&& total_tokens(*final(self)) == total_tokens(*old(self))
            },
            r matches Err(e) ==> *final(self) == *old(self) && e == transfer_tokens_err(
                *old(self),
                *ctx,
                amount,
            ),
            final(self).wf(),
    {
        match &self.mint {
            Some(m) => {
                if !ctx.mint.eq(&m.address) {
                    return Err(ProgramError::AddressMismatch);
                }
            },
            None => {
                return Err(ProgramError::AccountNotFound);
            },
        }
        match &self.vault {
            Some(v) => {
                if !ctx.sender_token_account.eq(&v.address) {
                    return Err(ProgramError::AddressMismatch);
                }
            },
            None => {
                return Err(ProgramError::AccountNotFound);
            },
        }
        let ata = associated_address(&ctx.signer, &ctx.mint);
        let ghost av = ata@;
        if !ctx.recipient_token_account.eq(&ata) {
            return Err(ProgramError::AddressMismatch);
        }
        let n = self.recipients.len();
        let mut i: usize = 0;
        let mut idx: usize = 0;
        let mut found: bool = false;
        while i < n
            invariant
                i <= n,
                n == self.recipients.len(),
                av == ata@,
                !found ==> forall|j: int| 0 <= j < i ==> self.recipients@[j].address@ != av,
                found ==> i == n && idx < n && self.recipients@[idx as int].address@ == av && (
                forall|j: int| 0 <= j < idx ==> self.recipients@[j].address@ != av),
            decreases n - i,
        {
            if self.recipients[i].address.eq(&ata) {
                found = true;
                idx = i;
                i = n;
            } else {
                i += 1;
            }
        }
        let vault_amount: u64 = match &self.vault {
            Some(v) => v.amount,
            None => 0,
        };
        let recipient_amount: u64 = if found {
            self.recipients[idx].amount
        } else {
            0
        };
        proof {
            if found {
                lemma_first_occurrence(self.recipients@, av, idx as int);
            } else {
                lemma_no_occurrence(self.recipients@, av);
            }
        }
        if amount > vault_amount {
            return Err(ProgramError::Token(TokenError::InsufficientFunds));
        }
        if recipient_amount > u64::MAX - amount {
            return Err(ProgramError::Token(TokenError::BalanceOverflow));
        }
        let vseed = vault_seed();
        let (vault_addr, vault_bump) = match derive_address(&vseed, &self.program_id) {
            None => {
                return Err(ProgramError::DerivationFailure);
            },
            Some(p) => p,
        };
        let auth = AuthorityProof { label: vseed, bump: vault_bump };
        let mut rec: TokenRecord = if found {
            self.recipients.remove(idx)
        } else {
            TokenRecord {
                address: ata,
                mint: ctx.mint.dup(),
                authority: ctx.signer.dup(),
                amount: 0,
            }
        };
        let decimals: u8 = match &self.mint {
            Some(m) => m.decimals,
            None => 0,
        };
        let tr = match &mut self.vault {
            Some(v) => match &self.mint {
                Some(m) => crate::token::transfer(
                    m,
                    v,
                    &mut rec,
                    amount,
                    decimals,
                    &auth,
                    &self.program_id,
                ),
                None => Err(TokenError::MintMismatch),
            },
            None => Err(TokenError::MintMismatch),
        };
        proof {
            assert(tr is Ok);
        }
        match tr {
            Ok(()) => {},
            Err(_) => {},
        }
        let ghost grec = rec;
        if found {
            self.recipients.insert(idx, rec);
        } else {
            self.recipients.push(rec);
        }
        proof {
            let rs0 = old(self).recipients@;
            if found {
                assert(self.recipients@ =~= rs0.update(idx as int, grec));
                lemma_update_target(rs0, idx as int, grec);
                lemma_sum_update(rs0, idx as int, grec);
                assert forall|b: Seq<u8>| b != av implies balance_in(self.recipients@, b)
                    == balance_in(rs0, b) by {
                    lemma_update_other(rs0, idx as int, grec, b);
                }
                assert forall|b: Seq<u8>| has_account(self.recipients@, b) == (has_account(rs0, b)
                    || b == av) by {
                    lemma_update_other(rs0, idx as int, grec, b);
                }
                assert forall|k: int| 0 <= k < rs0.len() implies self.recipients@[k].address@
                    == rs0[k].address@ && (#[trigger] self.recipients@[k]).wf()
                    && self.recipients@[k].mint@ == rs0[k].mint@ by {
                    if k != idx {
                        assert(self.recipients@[k] == rs0[k]);
                    }
                }
                assert forall|k: int, l: int| 0 <= k < l < self.recipients@.len() implies self
                    .recipients@[k].address@ != self.recipients@[l].address@ by {
                    assert(rs0[k].address@ != rs0[l].address@);
                }
            } else {
                assert(self.recipients@ =~= rs0.push(grec));
                lemma_push_facts(rs0, grec, av);
                assert forall|b: Seq<u8>| b != av implies balance_in(self.recipients@, b)
                    == balance_in(rs0, b) by {
                    lemma_push_facts(rs0, grec, b);
                }
                assert forall|b: Seq<u8>| has_account(self.recipients@, b) == (has_account(rs0, b)
                    || b == av) by {
                    lemma_push_facts(rs0, grec, b);
                }
                assert forall|k: int| 0 <= k < self.recipients@.len() implies (
                #[trigger] self.recipients@[k]).wf() && (self.mint matches Some(m)
                    && self.recipients@[k].mint@ == m.address@) by {
                    if k < rs0.len() {
                        assert(self.recipients@[k] == rs0[k]);
                    }
                }
                assert forall|k: int, l: int| 0 <= k < l < self.recipients@.len() implies self
                    .recipients@[k].address@ != self.recipients@[l].address@ by {
                    if l < rs0.len() {
                        assert(rs0[k].address@ != rs0[l].address@);
                    } else {
                        assert(rs0[k].address@ != av);
                    }
                }
            }
        }
        Ok(())
    }
}

/// Appending a record adds its balance at its address, touches no other, and
/// raises the sum by its amount.
proof fn lemma_push_facts(rs: Seq<TokenRecord>, x: TokenRecord, b: Seq<u8>)
    ensures
        has_account(rs.push(x), b) == (has_account(rs, b) || x.address@ == b),
        has_account(rs, b) ==> account_in(rs.push(x), b) == account_in(rs, b),
        !has_account(rs, b) && x.address@ == b ==> account_in(rs.push(x), b) == x,
        sum_amounts(rs.push(x)) == sum_amounts(rs) + x.amount,
    decreases rs.len(),
{
    if rs.len() == 0 {
        assert(rs.push(x)[0] == x);
        assert(rs.push(x).drop_first() =~= Seq::<TokenRecord>::empty());
        assert(!has_account(rs.push(x).drop_first(), b));
        assert(sum_amounts(rs.push(x).drop_first()) == 0);
    } else {
        assert(rs.push(x)[0] == rs[0]);
        assert(rs.push(x).drop_first() =~= rs.drop_first().push(x));
        lemma_push_facts(rs.drop_first(), x, b);
        assert(has_account(rs.push(x).drop_first(), b) == (has_account(rs.drop_first(), b)
            || x.address@ == b));
        assert(sum_amounts(rs.push(x).drop_first()) == sum_amounts(rs.drop_first()) + x.amount);
    }
}

} // verus!

