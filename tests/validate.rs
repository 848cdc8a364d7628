use auth_core::error::{AddressProblem, AuthError, UsernameProblem};
use auth_core::validate::{legal_char, legal_ethaddr, verify_ethaddr, verify_username};

const ADDR: &str = "0x52908400098527886E0F7030069857D2E4169EE7";

#[test]
fn username_characters() {
    assert!(legal_char('a'));
    assert!(legal_char('Z'));
    assert!(legal_char('5'));
    assert!(legal_char('-'));
    assert!(legal_char('_'));
    assert!(!legal_char(' '));
    assert!(!legal_char('.'));
    assert!(!legal_char('é'));
}

#[test]
fn address_characters() {
    assert!(legal_ethaddr('0'));
    assert!(legal_ethaddr('f'));
    assert!(legal_ethaddr('F'));
    assert!(!legal_ethaddr('g'));
    assert!(!legal_ethaddr('x'));
}

#[test]
fn username_length_bounds() {
    assert!(verify_username("abc").is_ok());
    assert!(verify_username(&"a".repeat(32)).is_ok());
    assert!(matches!(
        verify_username("ab"),
        Err(AuthError::InvalidRequest(UsernameProblem::Length))
    ));
    assert!(matches!(
        verify_username(&"a".repeat(33)),
        Err(AuthError::InvalidRequest(UsernameProblem::Length))
    ));
    assert!(matches!(
        verify_username(""),
        Err(AuthError::InvalidRequest(UsernameProblem::Length))
    ));
}

#[test]
fn username_illegal_character() {
    assert!(verify_username("Alice_the-2nd").is_ok());
    assert!(matches!(
        verify_username("al ice"),
        Err(AuthError::InvalidRequest(UsernameProblem::Character))
    ));
    assert!(matches!(
        verify_username("élan"),
        Err(AuthError::InvalidRequest(UsernameProblem::Character))
    ));
}

#[test]
fn address_forms() {
    assert!(verify_ethaddr(ADDR).is_ok());
    assert!(matches!(
        verify_ethaddr(&ADDR.replacen("0x", "0X", 1)),
        Err(AuthError::InvalidEthAddr(AddressProblem::Character))
    ));
    assert!(matches!(
        verify_ethaddr(&ADDR[..41]),
        Err(AuthError::InvalidEthAddr(AddressProblem::Length))
    ));
    assert!(matches!(
        verify_ethaddr(&format!("{}0", ADDR)),
        Err(AuthError::InvalidEthAddr(AddressProblem::Length))
    ));
    assert!(matches!(
        verify_ethaddr(&format!("00{}", &ADDR[2..])),
        Err(AuthError::InvalidEthAddr(AddressProblem::Character))
    ));
    assert!(matches!(
        verify_ethaddr(&format!("0x{}g", &ADDR[2..41])),
        Err(AuthError::InvalidEthAddr(AddressProblem::Character))
    ));
}
