use auth_core::auth::{
    change_credential, decapitalize, eth_to_username, eth_to_uuid, generate_token,
    generate_token_with, register, register_with, username_to_uuid, uuid_to_username, verify,
};
use auth_core::cache::{TimedCache, SWEEP_INTERVAL_MS, TTL_MS};
use auth_core::error::{AddressProblem, AuthError, UsernameProblem};
use auth_core::identity::Identity;
use auth_core::store::UserStore;
use auth_core::token::AuthToken;

const ADDR: &str = "0x52908400098527886E0F7030069857D2E4169EE7";
const ADDR2: &str = "0x8617E340B3D01FA5F11F306F4090FD50E238070D";

#[test]
fn decapitalize_folds_case() {
    assert_eq!(decapitalize("Alice"), "alice");
    assert_eq!(decapitalize("ALICE_-9"), "alice_-9");
    assert_eq!(decapitalize("ÄÖÜ"), "äöü");
    assert_eq!(decapitalize("İ"), "i\u{307}");
    assert_eq!(decapitalize(""), "");
}

#[test]
fn scenario_register_sign_in_verify_twice_wrong_password() {
    let mut users = UserStore::new();
    let mut tokens = TimedCache::new();
    let addr = format!("0x{}", "ab12".repeat(10));
    assert!(register(&mut users, "alice", "Secret1", &addr).is_ok());
    let t = generate_token(&users, &mut tokens, "alice", "Secret1", 0).unwrap();
    let id = username_to_uuid(&users, "alice").unwrap();
    assert_eq!(verify(&mut tokens, t).unwrap(), id);
    assert!(matches!(verify(&mut tokens, t), Err(AuthError::InvalidToken)));
    assert!(matches!(
        generate_token(&users, &mut tokens, "alice", "WrongPw", 0),
        Err(AuthError::InvalidLogin)
    ));
}

#[test]
fn register_then_sign_in_resolves_to_identity() {
    let mut users = UserStore::new();
    let mut tokens = TimedCache::new();
    let id = Identity { value: 42 };
    assert!(register_with(&mut users, "Bob_77", "pw-hash", ADDR, id, &[1u8; 16]).is_ok());
    let token = AuthToken { unique: 5 };
    assert_eq!(
        generate_token_with(&users, &mut tokens, "Bob_77", "pw-hash", token, 10).unwrap(),
        token
    );
    assert_eq!(username_to_uuid(&users, "bob_77").unwrap(), id);
    assert_eq!(verify(&mut tokens, token).unwrap(), id);
}

#[test]
fn second_registration_of_same_name_is_refused() {
    let mut users = UserStore::new();
    assert!(register_with(&mut users, "Alice", "a", ADDR, Identity { value: 1 }, &[2u8; 16]).is_ok());
    assert!(matches!(
        register_with(&mut users, "ALICE", "b", ADDR2, Identity { value: 2 }, &[3u8; 16]),
        Err(AuthError::UserExists)
    ));
    assert_eq!(users.len(), 1);
    assert!(matches!(username_to_uuid(&users, "alice"), Ok(Identity { value: 1 })));
}

#[test]
fn registration_with_taken_address_is_refused() {
    let mut users = UserStore::new();
    assert!(register_with(&mut users, "alice", "a", ADDR, Identity { value: 1 }, &[2u8; 16]).is_ok());
    let upper = ADDR.to_uppercase().replacen("0X", "0x", 1);
    assert!(matches!(
        register_with(&mut users, "carol", "b", &upper, Identity { value: 2 }, &[3u8; 16]),
        Err(AuthError::UserExists)
    ));
    assert_eq!(users.len(), 1);
}

#[test]
fn registration_with_taken_identity_is_a_store_failure() {
    let mut users = UserStore::new();
    assert!(register_with(&mut users, "alice", "a", ADDR, Identity { value: 1 }, &[2u8; 16]).is_ok());
    assert!(matches!(
        register_with(&mut users, "carol", "b", ADDR2, Identity { value: 1 }, &[3u8; 16]),
        Err(AuthError::Db(_))
    ));
    assert_eq!(users.len(), 1);
}

#[test]
fn registration_validates_input_first() {
    let mut users = UserStore::new();
    assert!(matches!(
        register(&mut users, "al", "a", ADDR),
        Err(AuthError::InvalidRequest(UsernameProblem::Length))
    ));
    assert!(matches!(
        register(&mut users, "al!ce", "a", ADDR),
        Err(AuthError::InvalidRequest(UsernameProblem::Character))
    ));
    assert!(matches!(
        register(&mut users, "alice", "a", "0x1234"),
        Err(AuthError::InvalidEthAddr(AddressProblem::Length))
    ));
    assert_eq!(users.len(), 0);
}

#[test]
fn sign_in_is_case_insensitive() {
    let mut users = UserStore::new();
    let mut tokens = TimedCache::new();
    assert!(register(&mut users, "Alice", "pw", ADDR).is_ok());
    let t1 = generate_token(&users, &mut tokens, "Alice", "pw", 0).unwrap();
    let t2 = generate_token(&users, &mut tokens, "alice", "pw", 0).unwrap();
    let a = verify(&mut tokens, t1).unwrap();
    let b = verify(&mut tokens, t2).unwrap();
    assert_eq!(a, b);
    assert_eq!(uuid_to_username(&users, a).unwrap(), "Alice");
}

#[test]
fn sign_in_failures_are_indistinguishable() {
    let mut users = UserStore::new();
    let mut tokens = TimedCache::new();
    assert!(register(&mut users, "alice", "pw", ADDR).is_ok());
    assert!(matches!(
        generate_token(&users, &mut tokens, "nobody", "pw", 0),
        Err(AuthError::InvalidLogin)
    ));
    assert!(matches!(
        generate_token(&users, &mut tokens, "alice", "wrong", 0),
        Err(AuthError::InvalidLogin)
    ));
    assert!(matches!(
        generate_token(&users, &mut tokens, "a", "pw", 0),
        Err(AuthError::InvalidRequest(UsernameProblem::Length))
    ));
}

#[test]
fn expired_token_is_rejected_after_sweep() {
    let mut users = UserStore::new();
    let mut tokens = TimedCache::new();
    assert!(register(&mut users, "alice", "pw", ADDR).is_ok());
    let t = generate_token(&users, &mut tokens, "alice", "pw", 0).unwrap();
    tokens.sweep(TTL_MS - 1);
    let u = generate_token(&users, &mut tokens, "alice", "pw", 0).unwrap();
    tokens.sweep(SWEEP_INTERVAL_MS);
    assert!(matches!(verify(&mut tokens, u), Err(AuthError::InvalidToken)));
    assert!(t == u || matches!(verify(&mut tokens, t), Err(AuthError::InvalidToken)));
}

#[test]
fn lookups_by_identity_and_address() {
    let mut users = UserStore::new();
    let id = Identity { value: 77 };
    assert!(register_with(&mut users, "Dora", "pw", ADDR, id, &[9u8; 16]).is_ok());
    assert_eq!(uuid_to_username(&users, id).unwrap(), "Dora");
    assert_eq!(eth_to_uuid(&users, &ADDR.to_lowercase()).unwrap(), id);
    assert_eq!(eth_to_username(&users, ADDR).unwrap(), "Dora");
    assert!(matches!(
        uuid_to_username(&users, Identity { value: 78 }),
        Err(AuthError::UserDoesNotExist)
    ));
    assert!(matches!(eth_to_uuid(&users, ADDR2), Err(AuthError::EthDoesNotExist)));
    assert!(matches!(eth_to_username(&users, ADDR2), Err(AuthError::EthDoesNotExist)));
    assert!(matches!(username_to_uuid(&users, "nobody"), Err(AuthError::UserDoesNotExist)));
}

#[test]
fn credential_change_replaces_password_and_keeps_tokens() {
    let mut users = UserStore::new();
    let mut tokens = TimedCache::new();
    assert!(register(&mut users, "alice", "old", ADDR).is_ok());
    let t = generate_token(&users, &mut tokens, "alice", "old", 0).unwrap();
    assert!(change_credential(&mut users, &ADDR.to_lowercase(), "new").is_ok());
    assert!(matches!(
        generate_token(&users, &mut tokens, "alice", "old", 0),
        Err(AuthError::InvalidLogin)
    ));
    assert!(generate_token(&users, &mut tokens, "alice", "new", 0).is_ok());
    assert!(verify(&mut tokens, t).is_ok());
    assert!(matches!(
        change_credential(&mut users, ADDR2, "x"),
        Err(AuthError::EthDoesNotExist)
    ));
}
