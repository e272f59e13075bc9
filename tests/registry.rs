use shielded_nft::airdrop::{airdrop_nft, airdrop_with_ids};
use shielded_nft::disclosure::reveal_nft;
use shielded_nft::engine::{
    mint_nft, mint_with_id, stake_nft, transfer_nft, unstake_nft, DEFAULT_MATURITY,
};
use shielded_nft::packet::{export_nft, export_nft_for_ibc, import_nft_from_ibc, receive_packet};
use shielded_nft::registry::NftState;
use shielded_nft::text::{is_valid_identifier, is_valid_principal};
use shielded_nft::types::{LockState, NftError, NftMetadata};

const ID_A: &str = "0f8fad5b-d9cb-469f-a165-70867728950e";
const ID_B: &str = "7c9e6679-7425-40de-944b-e07fc1f90ae7";
const ID_C: &str = "9a1d3b2c-1111-4abc-8def-0123456789ab";

fn art(shielded: bool) -> NftMetadata {
    NftMetadata {
        name: "Art#1".to_string(),
        description: "a secret sketch".to_string(),
        image_cid: "bafybeigdyrzt".to_string(),
        attributes: "{\"rarity\":\"rare\"}".to_string(),
        shielded,
    }
}

fn s(x: &str) -> String {
    x.to_string()
}

#[test]
fn lifecycle_scenario() {
    let mut state = NftState::new();
    let x = mint_nft(&mut state, s("alice"), art(true), Some(5)).unwrap();
    let v = reveal_nft(&state, &x, None).unwrap();
    assert_eq!(v.owner, "alice");
    assert_eq!(v.name, "Art#1");
    assert_eq!(v.description, None);
    assert_eq!(v.attributes, None);
    assert_eq!(stake_nft(&mut state, &x, 100), Ok(()));
    assert_eq!(transfer_nft(&mut state, &x, &s("bob")), Err(NftError::AssetLocked));
    assert_eq!(unstake_nft(&mut state, &x), Ok(()));
    assert_eq!(transfer_nft(&mut state, &x, &s("bob")), Ok(()));
    let v = reveal_nft(&state, &x, None).unwrap();
    assert_eq!(v.owner, "bob");
}

#[test]
fn mint_gives_fresh_well_formed_identifiers() {
    let mut state = NftState::new();
    let a = mint_nft(&mut state, s("alice"), art(true), None).unwrap();
    let b = mint_nft(&mut state, s("alice"), art(true), None).unwrap();
    assert_eq!(a.len(), 36);
    assert_eq!(a.chars().nth(8), Some('-'));
    assert!(is_valid_identifier(&a));
    assert_ne!(a, b);
    assert_eq!(state.len(), 2);
    let n = state.get_nft(&a).unwrap();
    assert_eq!(n.owner, "alice");
    assert_eq!(n.lock_state, LockState::Unlocked);
    assert_eq!(n.maturity, None);
}

#[test]
fn mint_rejects_malformed_owner() {
    let mut state = NftState::new();
    assert_eq!(mint_nft(&mut state, s(""), art(true), None), Err(NftError::InvalidRecipient));
    assert_eq!(mint_nft(&mut state, s("al ice"), art(true), None), Err(NftError::InvalidRecipient));
    assert_eq!(state.len(), 0);
}

#[test]
fn duplicate_identifier_is_rejected() {
    let mut state = NftState::new();
    assert_eq!(mint_with_id(&mut state, s(ID_A), s("alice"), art(true), None), Ok(()));
    assert_eq!(
        mint_with_id(&mut state, s(ID_A), s("carol"), art(false), None),
        Err(NftError::DuplicateIdentifier)
    );
    let copy = state.get_nft(&s(ID_A)).unwrap();
    assert_eq!(state.insert(copy), Err(NftError::DuplicateIdentifier));
    assert_eq!(state.len(), 1);
    assert_eq!(state.get_nft(&s(ID_A)).unwrap().owner, "alice");
}

#[test]
fn transfer_locked_exactly_when_staked() {
    let mut state = NftState::new();
    mint_with_id(&mut state, s(ID_A), s("alice"), art(true), None).unwrap();
    assert_eq!(transfer_nft(&mut state, &s(ID_A), &s("bob")), Ok(()));
    stake_nft(&mut state, &s(ID_A), 7).unwrap();
    assert_eq!(transfer_nft(&mut state, &s(ID_A), &s("carol")), Err(NftError::AssetLocked));
    assert_eq!(state.get_nft(&s(ID_A)).unwrap().owner, "bob");
}

#[test]
fn transfer_errors() {
    let mut state = NftState::new();
    assert_eq!(transfer_nft(&mut state, &s(ID_A), &s("bob")), Err(NftError::NotFound));
    mint_with_id(&mut state, s(ID_A), s("alice"), art(true), None).unwrap();
    assert_eq!(transfer_nft(&mut state, &s(ID_A), &s("")), Err(NftError::InvalidRecipient));
    assert_eq!(transfer_nft(&mut state, &s(ID_A), &s("alice")), Ok(()));
    assert_eq!(transfer_nft(&mut state, &s(ID_A), &s("alice")), Ok(()));
}

#[test]
fn disclosure_is_gated_by_credential() {
    let mut state = NftState::new();
    mint_with_id(&mut state, s(ID_A), s("alice"), art(true), None).unwrap();
    mint_with_id(&mut state, s(ID_B), s("alice"), art(false), None).unwrap();
    let hidden = reveal_nft(&state, &s(ID_A), None).unwrap();
    assert_eq!(hidden.description, None);
    assert_eq!(hidden.attributes, None);
    assert!(hidden.shielded);
    let wrong = s("mallory");
    let other = reveal_nft(&state, &s(ID_A), Some(&wrong)).unwrap();
    assert_eq!(other.description, None);
    let key = s("alice");
    let full = reveal_nft(&state, &s(ID_A), Some(&key)).unwrap();
    assert_eq!(full.description, Some(s("a secret sketch")));
    assert_eq!(full.attributes, Some(s("{\"rarity\":\"rare\"}")));
    let open = reveal_nft(&state, &s(ID_B), None).unwrap();
    assert_eq!(open.description, Some(s("a secret sketch")));
    assert!(reveal_nft(&state, &s(ID_C), None).is_none());
}

#[test]
fn stake_then_unstake_restores_record() {
    let mut state = NftState::new();
    mint_with_id(&mut state, s(ID_A), s("alice"), art(true), None).unwrap();
    assert_eq!(stake_nft(&mut state, &s(ID_A), 42), Ok(()));
    assert_eq!(
        state.get_nft(&s(ID_A)).unwrap().lock_state,
        LockState::Staked { since: 42, maturity: DEFAULT_MATURITY }
    );
    assert_eq!(stake_nft(&mut state, &s(ID_A), 43), Err(NftError::AlreadyStaked));
    assert_eq!(unstake_nft(&mut state, &s(ID_A)), Ok(()));
    let n = state.get_nft(&s(ID_A)).unwrap();
    assert_eq!(n.lock_state, LockState::Unlocked);
    assert_eq!(n.owner, "alice");
    assert_eq!(n.metadata.description, "a secret sketch");
    assert_eq!(unstake_nft(&mut state, &s(ID_A)), Err(NftError::NotStaked));
}

#[test]
fn stake_uses_minted_maturity() {
    let mut state = NftState::new();
    mint_with_id(&mut state, s(ID_A), s("alice"), art(true), Some(12)).unwrap();
    stake_nft(&mut state, &s(ID_A), 3).unwrap();
    assert_eq!(
        state.get_nft(&s(ID_A)).unwrap().lock_state,
        LockState::Staked { since: 3, maturity: 12 }
    );
    assert_eq!(stake_nft(&mut state, &s(ID_B), 3), Err(NftError::NotFound));
    assert_eq!(unstake_nft(&mut state, &s(ID_B)), Err(NftError::NotFound));
}

#[test]
fn airdrop_fans_out_with_partial_failure() {
    let mut state = NftState::new();
    mint_with_id(&mut state, s(ID_A), s("alice"), art(true), Some(9)).unwrap();
    let recipients = vec![s("bob"), s(""), s("carol")];
    let ids = vec![s(ID_B), s(ID_C), s("11111111-2222-4333-8444-555555555555")];
    let answers = airdrop_with_ids(&mut state, &s(ID_A), &recipients, &ids).unwrap();
    assert_eq!(answers.len(), 3);
    assert_eq!(answers[0], Ok(s(ID_B)));
    assert_eq!(answers[1], Err(NftError::InvalidRecipient));
    assert_eq!(answers[2], Ok(s("11111111-2222-4333-8444-555555555555")));
    assert_eq!(state.len(), 3);
    let src = state.get_nft(&s(ID_A)).unwrap();
    assert_eq!(src.owner, "alice");
    let b = state.get_nft(&s(ID_B)).unwrap();
    assert_eq!(b.owner, "bob");
    assert_eq!(b.metadata.name, "Art#1");
    assert_eq!(b.maturity, Some(9));
    assert!(state.get_nft(&s(ID_C)).is_none());
}

#[test]
fn airdrop_with_random_identifiers() {
    let mut state = NftState::new();
    let x = mint_nft(&mut state, s("alice"), art(true), None).unwrap();
    let recipients = vec![s("bob"), s("bad address"), s("carol")];
    let answers = airdrop_nft(&mut state, &x, &recipients).unwrap();
    assert!(answers[0].is_ok());
    assert_eq!(answers[1], Err(NftError::InvalidRecipient));
    let c = answers[2].clone().unwrap();
    assert_eq!(state.get_nft(&c).unwrap().owner, "carol");
    assert_eq!(state.len(), 3);
    assert_eq!(airdrop_nft(&mut state, &s(ID_C), &recipients), Err(NftError::NotFound));
    assert_eq!(state.len(), 3);
}

#[test]
fn export_has_exact_form() {
    let mut state = NftState::new();
    mint_with_id(&mut state, s(ID_A), s("alice"), art(true), Some(5)).unwrap();
    stake_nft(&mut state, &s(ID_A), 1234).unwrap();
    let n = state.get_nft(&s(ID_A)).unwrap();
    let p = export_nft_for_ibc(&n);
    assert_eq!(
        p,
        "nft/1|0f8fad5b-d9cb-469f-a165-70867728950e|alice|Art#1|a secret sketch|bafybeigdyrzt|{\"rarity\":\"rare\"}|1|5|1234|5|"
    );
}

#[test]
fn export_escapes_separators() {
    let mut state = NftState::new();
    let mut m = art(false);
    m.description = s("a|b\\c");
    mint_with_id(&mut state, s(ID_A), s("alice"), m, None).unwrap();
    let n = state.get_nft(&s(ID_A)).unwrap();
    let p = export_nft_for_ibc(&n);
    assert_eq!(
        p,
        "nft/1|0f8fad5b-d9cb-469f-a165-70867728950e|alice|Art#1|a\\|b\\\\c|bafybeigdyrzt|{\"rarity\":\"rare\"}|0||||"
    );
    let back = import_nft_from_ibc(&p).unwrap();
    assert_eq!(back.metadata.description, "a|b\\c");
    assert_eq!(back.maturity, None);
    assert_eq!(back.lock_state, LockState::Unlocked);
}

#[test]
fn round_trip_then_duplicate_insert() {
    let mut state = NftState::new();
    mint_with_id(&mut state, s(ID_A), s("alice"), art(true), Some(u64::MAX)).unwrap();
    stake_nft(&mut state, &s(ID_A), u64::MAX).unwrap();
    let n = state.get_nft(&s(ID_A)).unwrap();
    let back = import_nft_from_ibc(&export_nft_for_ibc(&n)).unwrap();
    assert_eq!(back.id, n.id);
    assert_eq!(back.owner, n.owner);
    assert_eq!(back.metadata.description, n.metadata.description);
    assert_eq!(back.metadata.attributes, n.metadata.attributes);
    assert_eq!(back.metadata.shielded, n.metadata.shielded);
    assert_eq!(back.maturity, n.maturity);
    assert_eq!(back.lock_state, n.lock_state);
    assert_eq!(state.insert(back), Err(NftError::DuplicateIdentifier));
    let mut other = NftState::new();
    let again = import_nft_from_ibc(&export_nft_for_ibc(&n)).unwrap();
    assert_eq!(other.insert(again), Ok(()));
    assert_eq!(other.len(), 1);
}

#[test]
fn import_rejects_malformed_packets() {
    let extra = "nft/1|0f8fad5b-d9cb-469f-a165-70867728950e|alice|n|d|c|a|1|||||";
    assert!(import_nft_from_ibc(&s("nft/1|0f8fad5b-d9cb-469f-a165-70867728950e|alice|n|d|c|a|1||||")).is_ok());
    let bad = [
        "",
        "nft/2|0f8fad5b-d9cb-469f-a165-70867728950e|alice|n|d|c|a|1||||",
        "nft/1|not-an-id|alice|n|d|c|a|1||||",
        "nft/1|0f8fad5b-d9cb-469f-a165-70867728950e||n|d|c|a|1||||",
        "nft/1|0f8fad5b-d9cb-469f-a165-70867728950e|alice|n|d|c|a|2||||",
        "nft/1|0f8fad5b-d9cb-469f-a165-70867728950e|alice|n|d|c|a|1|05|||",
        "nft/1|0f8fad5b-d9cb-469f-a165-70867728950e|alice|n|d|c|a|1|18446744073709551616|||",
        "nft/1|0f8fad5b-d9cb-469f-a165-70867728950e|alice|n|d|c|a|1||7||",
        "nft/1|0f8fad5b-d9cb-469f-a165-70867728950e|alice|n|d|c|a|1||||x",
        "nft/1|0f8fad5b-d9cb-469f-a165-70867728950e|alice|n|d|c|a\\",
        extra,
    ];
    for b in bad.iter() {
        assert_eq!(import_nft_from_ibc(&s(b)).err(), Some(NftError::MalformedPacket), "{}", b);
    }
}

#[test]
fn principals_and_identifiers() {
    assert!(is_valid_principal(&s("penumbra1xyz")));
    assert!(!is_valid_principal(&s("")));
    assert!(!is_valid_principal(&s("a b")));
    assert!(is_valid_identifier(&s(ID_A)));
    assert!(!is_valid_identifier(&s("0F8FAD5B-D9CB-469F-A165-70867728950E")));
    assert!(!is_valid_identifier(&s("0f8fad5bd9cb469fa16570867728950e")));
}

#[test]
fn error_messages_are_distinct() {
    let all = [
        NftError::NotFound,
        NftError::DuplicateIdentifier,
        NftError::AssetLocked,
        NftError::AlreadyStaked,
        NftError::NotStaked,
        NftError::MalformedPacket,
        NftError::InvalidRecipient,
    ];
    for (i, a) in all.iter().enumerate() {
        for (j, b) in all.iter().enumerate() {
            assert_eq!(i == j, a.message() == b.message());
        }
    }
    assert_eq!(NftError::AssetLocked.message(), "asset locked");
}

#[test]
fn export_by_identifier_and_receive() {
    let mut state = NftState::new();
    mint_with_id(&mut state, s(ID_A), s("alice"), art(true), None).unwrap();
    assert_eq!(export_nft(&state, &s(ID_B)), None);
    let p = export_nft(&state, &s(ID_A)).unwrap();
    assert_eq!(p, export_nft_for_ibc(&state.get_nft(&s(ID_A)).unwrap()));
    assert_eq!(receive_packet(&mut state, &p), Err(NftError::DuplicateIdentifier));
    assert_eq!(receive_packet(&mut state, &s("nft/1|")), Err(NftError::MalformedPacket));
    let mut remote = NftState::new();
    assert_eq!(receive_packet(&mut remote, &p), Ok(s(ID_A)));
    let n = remote.get_nft(&s(ID_A)).unwrap();
    assert_eq!(n.owner, "alice");
    assert_eq!(n.metadata.description, "a secret sketch");
    assert_eq!(remote.len(), 1);
}

#[test]
fn disclosure_survives_operations() {
    let mut state = NftState::new();
    let x = mint_nft(&mut state, s("alice"), art(true), None).unwrap();
    transfer_nft(&mut state, &x, &s("bob")).unwrap();
    stake_nft(&mut state, &x, 10).unwrap();
    unstake_nft(&mut state, &x).unwrap();
    airdrop_nft(&mut state, &x, &vec![s("carol"), s("")]).unwrap();
    mint_nft(&mut state, s("dave"), art(false), Some(2)).unwrap();
    transfer_nft(&mut state, &x, &s("erin")).unwrap();
    let key = s("erin");
    let v = reveal_nft(&state, &x, Some(&key)).unwrap();
    assert_eq!(v.owner, "erin");
    assert_eq!(v.name, "Art#1");
    assert_eq!(v.image_cid, "bafybeigdyrzt");
    assert_eq!(v.description, Some(s("a secret sketch")));
    assert_eq!(v.attributes, Some(s("{\"rarity\":\"rare\"}")));
    let stale = s("alice");
    assert_eq!(reveal_nft(&state, &x, Some(&stale)).unwrap().description, None);
}

#[test]
fn airdrop_leaves_existing_records() {
    let mut state = NftState::new();
    mint_with_id(&mut state, s(ID_A), s("alice"), art(true), Some(4)).unwrap();
    mint_with_id(&mut state, s(ID_B), s("bob"), art(false), None).unwrap();
    stake_nft(&mut state, &s(ID_B), 8).unwrap();
    let before_a = export_nft(&state, &s(ID_A)).unwrap();
    let before_b = export_nft(&state, &s(ID_B)).unwrap();
    let answers = airdrop_nft(&mut state, &s(ID_A), &vec![s("carol"), s("x y"), s("dave")]).unwrap();
    assert_eq!(answers.len(), 3);
    assert_eq!(answers[1], Err(NftError::InvalidRecipient));
    assert_eq!(state.len(), 4);
    assert_eq!(export_nft(&state, &s(ID_A)).unwrap(), before_a);
    assert_eq!(export_nft(&state, &s(ID_B)).unwrap(), before_b);
}
