use counter::address::{
    associated_address, derive_address, mint_seed, vault_seed, verify_authority, Address,
    AuthorityProof,
};
use counter::state::{
    CloseCounter, InitializeCounter, ProgramError, ProgramState, TransferTokens, Update,
    TOKEN_DECIMALS,
};
use counter::token::{mint_to, transfer, MintRecord, TokenError, TokenRecord};

fn addr(b: u8) -> Address {
    Address::new(vec![b; 32])
}

fn derived(label: Vec<u8>, program: &Address) -> (Address, u8) {
    derive_address(&label, program).expect("no bump found for a fixed label")
}

fn fresh_state() -> ProgramState {
    ProgramState {
        program_id: addr(7),
        counter: None,
        mint: None,
        vault: None,
        recipients: Vec::new(),
    }
}

fn init_ctx(program: &Address) -> InitializeCounter {
    let (mint, _) = derived(mint_seed(), program);
    let (vault, _) = derived(vault_seed(), program);
    InitializeCounter {
        payer: addr(1),
        counter: addr(2),
        mint,
        token_account: vault,
    }
}

fn initialized(amount: u64) -> ProgramState {
    let mut s = fresh_state();
    let ctx = init_ctx(&s.program_id);
    s.initialize(&ctx, amount).unwrap();
    s
}

fn update_ctx() -> Update {
    Update { counter: addr(2) }
}

fn transfer_ctx(s: &ProgramState, signer: &Address) -> TransferTokens {
    let (mint, _) = derived(mint_seed(), &s.program_id);
    let (vault, _) = derived(vault_seed(), &s.program_id);
    let recipient_token_account = associated_address(signer, &mint);
    TransferTokens {
        signer: signer.dup(),
        mint,
        sender_token_account: vault,
        recipient_token_account,
    }
}

fn vault_amount(s: &ProgramState) -> u64 {
    s.vault.as_ref().unwrap().amount
}

fn recipient_amount(s: &ProgramState, at: &Address) -> u64 {
    s.recipients
        .iter()
        .find(|r| r.address.eq(at))
        .map(|r| r.amount)
        .unwrap_or(0)
}

#[test]
fn initialize_creates_counter_at_zero_tied_to_mint() {
    let s = initialized(1000);
    let (mint, _) = derived(mint_seed(), &s.program_id);
    let counter = s.counter.as_ref().unwrap();
    assert_eq!(counter.data.count, 0);
    assert!(counter.data.mint.eq(&mint));
    assert!(counter.address.eq(&addr(2)));
    let m = s.mint.as_ref().unwrap();
    assert!(m.address.eq(&mint));
    assert!(m.authority.eq(&mint));
    assert_eq!(m.decimals, TOKEN_DECIMALS);
    assert_eq!(m.supply, 1000);
    assert_eq!(vault_amount(&s), 1000);
}

#[test]
fn initialize_twice_is_rejected() {
    let mut s = initialized(10);
    let ctx = init_ctx(&s.program_id);
    assert_eq!(s.initialize(&ctx, 5), Err(ProgramError::AccountAlreadyInUse));
    assert_eq!(s.read_count(&addr(2)), Ok(0));
    assert_eq!(vault_amount(&s), 10);
}

#[test]
fn initialize_rejects_wrong_derived_addresses() {
    let mut s = fresh_state();
    let mut ctx = init_ctx(&s.program_id);
    ctx.mint = addr(9);
    assert_eq!(s.initialize(&ctx, 5), Err(ProgramError::AddressMismatch));
    let mut ctx2 = init_ctx(&s.program_id);
    ctx2.token_account = addr(9);
    assert_eq!(s.initialize(&ctx2, 5), Err(ProgramError::AddressMismatch));
    assert!(s.counter.is_none());
    assert!(s.mint.is_none());
    assert!(s.vault.is_none());
}

#[test]
fn increment_then_decrement_returns_to_start() {
    let mut s = initialized(0);
    let ctx = update_ctx();
    s.set(&ctx, 41).unwrap();
    s.increment(&ctx).unwrap();
    assert_eq!(s.read_count(&addr(2)), Ok(42));
    s.decrement(&ctx).unwrap();
    assert_eq!(s.read_count(&addr(2)), Ok(41));
}

#[test]
fn increment_at_255_overflows_and_leaves_count() {
    let mut s = initialized(0);
    let ctx = update_ctx();
    s.set(&ctx, 255).unwrap();
    assert_eq!(s.increment(&ctx), Err(ProgramError::Overflow));
    assert_eq!(s.read_count(&addr(2)), Ok(255));
}

#[test]
fn decrement_at_zero_underflows_and_leaves_count() {
    let mut s = initialized(0);
    let ctx = update_ctx();
    assert_eq!(s.read_count(&addr(2)), Ok(0));
    assert_eq!(s.decrement(&ctx), Err(ProgramError::Underflow));
    assert_eq!(s.read_count(&addr(2)), Ok(0));
}

#[test]
fn set_reads_back_exactly() {
    let mut s = initialized(0);
    let ctx = update_ctx();
    for value in [0u8, 1, 7, 254, 255] {
        s.set(&ctx, value).unwrap();
        assert_eq!(s.read_count(&addr(2)), Ok(value));
    }
}

#[test]
fn update_without_counter_is_rejected() {
    let mut s = fresh_state();
    let ctx = update_ctx();
    assert_eq!(s.increment(&ctx), Err(ProgramError::AccountNotFound));
    assert_eq!(s.decrement(&ctx), Err(ProgramError::AccountNotFound));
    assert_eq!(s.set(&ctx, 3), Err(ProgramError::AccountNotFound));
    assert_eq!(s.read_count(&addr(2)), Err(ProgramError::AccountNotFound));
}

#[test]
fn close_removes_counter_and_later_reads_fail() {
    let mut s = initialized(0);
    let wrong = CloseCounter { payer: addr(3), counter: addr(2) };
    assert_eq!(s.close(&wrong), Err(ProgramError::PayerMismatch));
    assert_eq!(s.read_count(&addr(2)), Ok(0));
    let right = CloseCounter { payer: addr(1), counter: addr(2) };
    assert_eq!(s.close(&right), Ok(()));
    assert_eq!(s.read_count(&addr(2)), Err(ProgramError::AccountNotFound));
    assert_eq!(s.close(&right), Err(ProgramError::AccountNotFound));
}

#[test]
fn transfer_more_than_vault_fails_and_changes_nothing() {
    let mut s = initialized(1000);
    let signer = addr(5);
    let ctx = transfer_ctx(&s, &signer);
    let rta = associated_address(&signer, &ctx.mint);
    assert_eq!(
        s.transfer_tokens(&ctx, 2000),
        Err(ProgramError::Token(TokenError::InsufficientFunds))
    );
    assert_eq!(vault_amount(&s), 1000);
    assert_eq!(recipient_amount(&s, &rta), 0);
    assert!(s.recipients.is_empty());
}

#[test]
fn transfer_moves_exactly_amount_and_conserves_total() {
    let mut s = initialized(1000);
    let signer = addr(5);
    let ctx = transfer_ctx(&s, &signer);
    let rta = associated_address(&signer, &ctx.mint);
    assert_eq!(s.transfer_tokens(&ctx, 300), Ok(()));
    assert_eq!(vault_amount(&s), 700);
    assert_eq!(recipient_amount(&s, &rta), 300);
    assert_eq!(s.mint.as_ref().unwrap().supply, 1000);
    assert_eq!(s.recipients.len(), 1);
    assert!(s.recipients[0].authority.eq(&signer));
}

#[test]
fn transfer_scenario_across_calls() {
    let mut s = initialized(1000);
    assert_eq!(vault_amount(&s), 1000);
    let signer = addr(5);
    let ctx = transfer_ctx(&s, &signer);
    let rta = associated_address(&signer, &ctx.mint);
    assert_eq!(s.transfer_tokens(&ctx, 300), Ok(()));
    assert_eq!(vault_amount(&s), 700);
    assert_eq!(recipient_amount(&s, &rta), 300);
    assert_eq!(
        s.transfer_tokens(&ctx, 800),
        Err(ProgramError::Token(TokenError::InsufficientFunds))
    );
    assert_eq!(vault_amount(&s), 700);
    assert_eq!(recipient_amount(&s, &rta), 300);
    assert_eq!(s.transfer_tokens(&ctx, 700), Ok(()));
    assert_eq!(vault_amount(&s), 0);
    assert_eq!(recipient_amount(&s, &rta), 1000);
    assert_eq!(s.recipients.len(), 1);
}

#[test]
fn transfer_to_second_recipient_keeps_first() {
    let mut s = initialized(100);
    let first = addr(5);
    let second = addr(6);
    let ctx1 = transfer_ctx(&s, &first);
    let ctx2 = transfer_ctx(&s, &second);
    let rta1 = associated_address(&first, &ctx1.mint);
    let rta2 = associated_address(&second, &ctx2.mint);
    assert_eq!(s.transfer_tokens(&ctx1, 30), Ok(()));
    assert_eq!(s.transfer_tokens(&ctx2, 50), Ok(()));
    assert_eq!(vault_amount(&s), 20);
    assert_eq!(recipient_amount(&s, &rta1), 30);
    assert_eq!(recipient_amount(&s, &rta2), 50);
    assert_eq!(s.recipients.len(), 2);
}

#[test]
fn transfer_rejects_unresolved_accounts() {
    let mut s = fresh_state();
    let signer = addr(5);
    let (mint, _) = derived(mint_seed(), &s.program_id);
    let ctx = TransferTokens {
        signer: signer.dup(),
        mint: mint.dup(),
        sender_token_account: addr(8),
        recipient_token_account: associated_address(&signer, &mint),
    };
    assert_eq!(s.transfer_tokens(&ctx, 1), Err(ProgramError::AccountNotFound));
    let mut s2 = initialized(10);
    let mut bad = transfer_ctx(&s2, &signer);
    bad.recipient_token_account = addr(9);
    assert_eq!(s2.transfer_tokens(&bad, 1), Err(ProgramError::AddressMismatch));
    let mut wrong_mint = transfer_ctx(&s2, &signer);
    wrong_mint.mint = addr(9);
    assert_eq!(s2.transfer_tokens(&wrong_mint, 1), Err(ProgramError::AddressMismatch));
    assert_eq!(vault_amount(&s2), 10);
}

#[test]
fn reinitialize_after_close_overflows_supply() {
    let mut s = initialized(u64::MAX);
    let right = CloseCounter { payer: addr(1), counter: addr(2) };
    s.close(&right).unwrap();
    let ctx = init_ctx(&s.program_id);
    assert_eq!(
        s.initialize(&ctx, 1),
        Err(ProgramError::Token(TokenError::SupplyOverflow))
    );
    assert!(s.counter.is_none());
    assert_eq!(s.mint.as_ref().unwrap().supply, u64::MAX);
}

#[test]
fn derivation_is_deterministic_and_authority_round_trips() {
    let program = addr(7);
    let (mint1, bump1) = derived(mint_seed(), &program);
    let (mint2, bump2) = derived(mint_seed(), &program);
    assert!(mint1.eq(&mint2));
    assert_eq!(bump1, bump2);
    let auth = AuthorityProof { label: mint_seed(), bump: bump1 };
    assert!(verify_authority(&auth, &mint1, &program));
    assert!(!verify_authority(&auth, &program, &program));
    let stale = AuthorityProof { label: mint_seed(), bump: bump1.wrapping_add(1) };
    assert!(!verify_authority(&stale, &mint1, &program));
    let (vault1, _) = derived(vault_seed(), &program);
    assert!(!vault1.eq(&mint1));
    let crossed = AuthorityProof { label: vault_seed(), bump: bump1 };
    assert!(!verify_authority(&crossed, &mint1, &program));
}

#[test]
fn token_transfer_checks_each_precondition() {
    let program = addr(7);
    let (mint_addr, _) = derived(mint_seed(), &program);
    let (vault_addr, vault_bump) = derived(vault_seed(), &program);
    let mint = MintRecord {
        address: mint_addr.dup(),
        authority: mint_addr.dup(),
        decimals: TOKEN_DECIMALS,
        supply: 100,
    };
    let vault = TokenRecord {
        address: vault_addr.dup(),
        mint: mint_addr.dup(),
        authority: vault_addr.dup(),
        amount: 100,
    };
    let recipient = TokenRecord {
        address: addr(5),
        mint: mint_addr.dup(),
        authority: addr(5),
        amount: 0,
    };
    let auth = AuthorityProof { label: vault_seed(), bump: vault_bump };

    let mut from = TokenRecord { amount: vault.amount, ..dup_record(&vault) };
    let mut to = dup_record(&recipient);
    assert_eq!(
        transfer(&mint, &mut from, &mut to, 10, 5, &auth, &program),
        Err(TokenError::DecimalsMismatch)
    );

    let mut to_wrong_mint = TokenRecord { mint: addr(9), ..dup_record(&recipient) };
    let mut from2 = dup_record(&vault);
    assert_eq!(
        transfer(&mint, &mut from2, &mut to_wrong_mint, 10, TOKEN_DECIMALS, &auth, &program),
        Err(TokenError::MintMismatch)
    );

    let bad_auth = AuthorityProof { label: vault_seed(), bump: vault_bump.wrapping_add(1) };
    let mut from3 = dup_record(&vault);
    let mut to3 = dup_record(&recipient);
    assert_eq!(
        transfer(&mint, &mut from3, &mut to3, 10, TOKEN_DECIMALS, &bad_auth, &program),
        Err(TokenError::AuthorityMismatch)
    );

    let mut from4 = dup_record(&vault);
    let mut to4 = TokenRecord { amount: u64::MAX, ..dup_record(&recipient) };
    assert_eq!(
        transfer(&mint, &mut from4, &mut to4, 10, TOKEN_DECIMALS, &auth, &program),
        Err(TokenError::BalanceOverflow)
    );
    assert_eq!(from4.amount, 100);
    assert_eq!(to4.amount, u64::MAX);

    let mut from5 = dup_record(&vault);
    let mut to5 = dup_record(&recipient);
    assert_eq!(
        transfer(&mint, &mut from5, &mut to5, 40, TOKEN_DECIMALS, &auth, &program),
        Ok(())
    );
    assert_eq!(from5.amount, 60);
    assert_eq!(to5.amount, 40);
}

#[test]
fn token_mint_to_checks_authority_and_supply() {
    let program = addr(7);
    let (mint_addr, mint_bump) = derived(mint_seed(), &program);
    let (vault_addr, _) = derived(vault_seed(), &program);
    let mut mint = MintRecord {
        address: mint_addr.dup(),
        authority: mint_addr.dup(),
        decimals: TOKEN_DECIMALS,
        supply: 0,
    };
    let mut vault = TokenRecord {
        address: vault_addr.dup(),
        mint: mint_addr.dup(),
        authority: vault_addr.dup(),
        amount: 0,
    };
    let auth = AuthorityProof { label: mint_seed(), bump: mint_bump };
    assert_eq!(mint_to(&mut mint, &mut vault, 500, &auth, &program), Ok(()));
    assert_eq!(mint.supply, 500);
    assert_eq!(vault.amount, 500);

    let bad = AuthorityProof { label: vault_seed(), bump: mint_bump };
    assert_eq!(
        mint_to(&mut mint, &mut vault, 1, &bad, &program),
        Err(TokenError::AuthorityMismatch)
    );

    mint.supply = u64::MAX;
    assert_eq!(
        mint_to(&mut mint, &mut vault, 1, &auth, &program),
        Err(TokenError::SupplyOverflow)
    );
    assert_eq!(vault.amount, 500);
}

fn dup_record(r: &TokenRecord) -> TokenRecord {
    TokenRecord {
        address: r.address.dup(),
        mint: r.mint.dup(),
        authority: r.authority.dup(),
        amount: r.amount,
    }
}
