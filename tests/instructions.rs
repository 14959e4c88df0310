use seeded_account::{build_create_instruction, create_with_seed, system_program_id, Address, AddressError, CreationMode};

fn addr(fill: u8) -> Address {
    Address::from_bytes([fill; 32])
}

#[test]
fn fresh_mode_builds_create_account() {
    let funder = addr(1);
    let new_account = addr(2);
    let owner = system_program_id();
    let mode = CreationMode::Fresh { new_account, owner };
    let (target, ix) = build_create_instruction(&funder, &mode, 1_000_000, 10).unwrap();
    assert_eq!(target.bytes, new_account.bytes);
    assert_eq!(ix.program_id.bytes, [0u8; 32]);
    assert_eq!(ix.accounts.len(), 2);
    assert_eq!(ix.accounts[0].pubkey.bytes, funder.bytes);
    assert!(ix.accounts[0].is_signer && ix.accounts[0].is_writable);
    assert_eq!(ix.accounts[1].pubkey.bytes, new_account.bytes);
    assert!(ix.accounts[1].is_signer && ix.accounts[1].is_writable);
    let mut data = vec![0u8, 0, 0, 0];
    data.extend_from_slice(&1_000_000u64.to_le_bytes());
    data.extend_from_slice(&10u64.to_le_bytes());
    data.extend_from_slice(&owner.bytes);
    assert_eq!(ix.data, data);
}

#[test]
fn seeded_mode_builds_create_account_with_seed() {
    let funder = addr(1);
    let base = addr(3);
    let owner = system_program_id();
    let mode = CreationMode::Seeded { base, seed: "charondev".to_string(), owner };
    let (target, ix) = build_create_instruction(&funder, &mode, 890_880, 10).unwrap();
    let derived = create_with_seed(&base, "charondev", &owner).unwrap();
    assert_eq!(target.bytes, derived.bytes);
    assert_eq!(ix.accounts.len(), 3);
    assert_eq!(ix.accounts[0].pubkey.bytes, funder.bytes);
    assert!(ix.accounts[0].is_signer && ix.accounts[0].is_writable);
    assert_eq!(ix.accounts[1].pubkey.bytes, derived.bytes);
    assert!(!ix.accounts[1].is_signer && ix.accounts[1].is_writable);
    assert_eq!(ix.accounts[2].pubkey.bytes, base.bytes);
    assert!(ix.accounts[2].is_signer && !ix.accounts[2].is_writable);
    let mut data = vec![3u8, 0, 0, 0];
    data.extend_from_slice(&base.bytes);
    data.extend_from_slice(&9u64.to_le_bytes());
    data.extend_from_slice(b"charondev");
    data.extend_from_slice(&890_880u64.to_le_bytes());
    data.extend_from_slice(&10u64.to_le_bytes());
    data.extend_from_slice(&owner.bytes);
    assert_eq!(ix.data, data);
}

#[test]
fn seeded_mode_with_long_seed_fails_at_construction() {
    let mode = CreationMode::Seeded {
        base: addr(3),
        seed: "x".repeat(33),
        owner: system_program_id(),
    };
    assert_eq!(
        build_create_instruction(&addr(1), &mode, 1, 10).unwrap_err(),
        AddressError::SeedTooLong
    );
}
