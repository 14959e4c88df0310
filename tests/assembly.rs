use seeded_account::{
    assemble, prepare_creation, required_signers, select_signers, system_program_id, AccountMeta,
    Address, AddressError, AssembleError, Blockhash, CreateError, CreationMode, Instruction, KeyPair,
    verify_signature,
};
use solana_sdk::transaction::Transaction;

fn addr(fill: u8) -> Address {
    Address::from_bytes([fill; 32])
}

fn meta(fill: u8, is_signer: bool, is_writable: bool) -> AccountMeta {
    AccountMeta { pubkey: addr(fill), is_signer, is_writable }
}

fn ix(accounts: Vec<AccountMeta>) -> Instruction {
    Instruction { program_id: addr(0), accounts, data: vec![1, 2, 3] }
}

fn hash() -> Blockhash {
    Blockhash { bytes: [42u8; 32] }
}

#[test]
fn signer_table_puts_payer_first_without_duplicates() {
    let ixs = vec![
        ix(vec![meta(5, true, true), meta(6, false, true), meta(1, true, false)]),
        ix(vec![meta(5, true, false), meta(7, true, false)]),
    ];
    let table = required_signers(&addr(1), &ixs);
    let fills: Vec<u8> = table.iter().map(|a| a.bytes[0]).collect();
    assert_eq!(fills, vec![1, 5, 7]);
}

#[test]
fn signer_table_of_payer_only() {
    let ixs = vec![ix(vec![meta(6, false, true)])];
    let table = required_signers(&addr(1), &ixs);
    assert_eq!(table.len(), 1);
    assert_eq!(table[0].bytes, [1u8; 32]);
}

#[test]
fn empty_instruction_list_is_refused() {
    let keys = vec![KeyPair::generate()];
    let payer = keys[0].address();
    assert_eq!(assemble(&vec![], &payer, &keys, &hash()).err(), Some(AssembleError::EmptyTransaction));
}

fn distinct(i: u32) -> AccountMeta {
    let mut bytes = [0u8; 32];
    bytes[..4].copy_from_slice(&i.to_le_bytes());
    bytes[31] = 1;
    AccountMeta { pubkey: Address::from_bytes(bytes), is_signer: false, is_writable: true }
}

#[test]
fn too_many_accounts_is_refused() {
    let keys = vec![KeyPair::generate()];
    let payer = keys[0].address();
    // payer + program + 255 accounts = 257 distinct addresses
    let accounts: Vec<AccountMeta> = (0..255u32).map(distinct).collect();
    assert_eq!(
        assemble(&vec![ix(accounts)], &payer, &keys, &hash()).err(),
        Some(AssembleError::TooManyAccounts)
    );
}

#[test]
fn many_accounts_within_key_limit_are_accepted() {
    let keys = vec![KeyPair::generate()];
    let payer = keys[0].address();
    // payer + program + 254 accounts = 256 distinct addresses
    let accounts: Vec<AccountMeta> = (0..254u32).map(distinct).collect();
    let tx = assemble(&vec![ix(accounts)], &payer, &keys, &hash()).unwrap();
    assert_eq!(tx.signers().len(), 1);
    assert_eq!(tx.transaction().message.account_keys.len(), 256);
    let few: Vec<AccountMeta> = (0..15u32).map(distinct).collect();
    assert!(assemble(&vec![ix(few)], &payer, &keys, &hash()).is_ok());
}

#[test]
fn every_signer_slot_holds_a_valid_signature() {
    let payer_key = KeyPair::generate();
    let a = KeyPair::generate();
    let b = KeyPair::generate();
    let payer = payer_key.address();
    let (aa, ba) = (a.address(), b.address());
    let keys = vec![b, payer_key, a];
    let ixs = vec![ix(vec![
        AccountMeta { pubkey: aa, is_signer: true, is_writable: false },
        AccountMeta { pubkey: ba, is_signer: true, is_writable: true },
    ])];
    let tx = assemble(&ixs, &payer, &keys, &hash()).unwrap();
    assert_eq!(tx.signers().len(), 3);
    assert_eq!(tx.signatures().len(), 3);
    assert_eq!(tx.signers()[0].bytes, payer.bytes);
    let n = tx.transaction().message.header.num_required_signatures as usize;
    for k in 0..3 {
        assert_eq!(tx.signers()[k].bytes, tx.transaction().message.account_keys[k].to_bytes());
        assert!(verify_signature(&tx.signers()[k], tx.message(), &tx.signatures()[k]));
    }
    assert_eq!(n, 3);
    assert_eq!(tx.signature(), &tx.signatures()[0]);
}

#[test]
fn missing_signer_is_refused() {
    let keys = vec![KeyPair::generate()];
    let payer = keys[0].address();
    let ixs = vec![ix(vec![meta(9, true, true)])];
    assert_eq!(assemble(&ixs, &payer, &keys, &hash()).err(), Some(AssembleError::MissingSigner));
    let table = required_signers(&payer, &ixs);
    assert_eq!(select_signers(&table, &keys).err(), Some(AssembleError::MissingSigner));
}

#[test]
fn unneeded_key_is_ignored_and_transaction_verifies() {
    let payer_key = KeyPair::generate();
    let other = KeyPair::generate();
    let extra = KeyPair::generate();
    let payer = payer_key.address();
    let other_addr = other.address();
    let keys = vec![extra, other, payer_key];
    let ixs = vec![ix(vec![
        AccountMeta { pubkey: payer, is_signer: true, is_writable: true },
        AccountMeta { pubkey: other_addr, is_signer: true, is_writable: false },
    ])];
    let tx = assemble(&ixs, &payer, &keys, &hash()).unwrap();
    assert_eq!(tx.signers().len(), 2);
    assert_eq!(tx.signers()[0].bytes, payer.bytes);
    assert_eq!(tx.signers()[1].bytes, other_addr.bytes);
    assert_eq!(tx.signature().len(), 64);
    assert!(tx.transaction().verify().is_ok());
    assert_eq!(tx.transaction().signatures[0].as_ref(), tx.signature().as_slice());
    assert_eq!(tx.message(), &tx.transaction().message_data());
    assert!(verify_signature(&payer, tx.message(), tx.signature()));
    assert!(!verify_signature(&other_addr, tx.message(), tx.signature()));
}

#[test]
fn signed_transaction_round_trips_through_encoding() {
    let payer_key = KeyPair::generate();
    let payer = payer_key.address();
    let keys = vec![payer_key];
    let ixs = vec![ix(vec![AccountMeta { pubkey: payer, is_signer: true, is_writable: true }])];
    let tx = assemble(&ixs, &payer, &keys, &hash()).unwrap();
    let bytes = serde_json::to_vec(tx.transaction()).unwrap();
    let back: Transaction = serde_json::from_slice(&bytes).unwrap();
    assert_eq!(serde_json::to_vec(&back).unwrap(), bytes);
    assert_eq!(&back, tx.transaction());
}

#[test]
fn fresh_creation_is_signed_by_funder_and_new_key() {
    let funder_key = KeyPair::generate();
    let new_key = KeyPair::generate();
    let funder = funder_key.address();
    let new_account = new_key.address();
    let mode = CreationMode::Fresh { new_account, owner: system_program_id() };
    let keys = vec![funder_key, new_key];
    let (target, tx) = prepare_creation(&funder, &mode, &keys, 10, 890_880, &hash()).unwrap();
    assert_eq!(target.bytes, new_account.bytes);
    assert_eq!(tx.signers()[0].bytes, funder.bytes);
    assert_eq!(tx.signers()[1].bytes, new_account.bytes);
    assert!(tx.transaction().verify().is_ok());
}

#[test]
fn seeded_creation_is_signed_by_funder_and_base() {
    let funder_key = KeyPair::generate();
    let base_key = KeyPair::generate();
    let funder = funder_key.address();
    let base = base_key.address();
    let owner = system_program_id();
    let mode = CreationMode::Seeded { base, seed: "charondev".to_string(), owner };
    let keys = vec![funder_key, base_key];
    let (target, tx) = prepare_creation(&funder, &mode, &keys, 10, 890_880, &hash()).unwrap();
    let expected = solana_program::pubkey::Pubkey::create_with_seed(
        &solana_program::pubkey::Pubkey::new_from_array(base.bytes),
        "charondev",
        &solana_program::system_program::id(),
    )
    .unwrap();
    assert_eq!(target.bytes, expected.to_bytes());
    assert_eq!(tx.signers().len(), 2);
    assert_eq!(tx.signers()[1].bytes, base.bytes);
    assert!(tx.transaction().verify().is_ok());
}

#[test]
fn seeded_creation_without_base_key_is_missing_a_signer() {
    let funder_key = KeyPair::generate();
    let funder = funder_key.address();
    let mode = CreationMode::Seeded { base: addr(8), seed: String::new(), owner: system_program_id() };
    let keys = vec![funder_key];
    assert_eq!(
        prepare_creation(&funder, &mode, &keys, 10, 1, &hash()).err(),
        Some(CreateError::Assemble(AssembleError::MissingSigner))
    );
}

#[test]
fn seeded_creation_with_long_seed_fails() {
    let funder_key = KeyPair::generate();
    let funder = funder_key.address();
    let mode = CreationMode::Seeded { base: funder, seed: "s".repeat(40), owner: system_program_id() };
    let keys = vec![funder_key];
    assert_eq!(
        prepare_creation(&funder, &mode, &keys, 10, 1, &hash()).err(),
        Some(CreateError::Address(AddressError::SeedTooLong))
    );
}
