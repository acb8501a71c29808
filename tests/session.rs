use std::collections::BTreeMap;

use lotp::input::{check_secret, is_reserved, parse_command, parse_secret, CmdError, Command};
use lotp::cipher::{decrypt, encrypt, seal_with_nonce};
use lotp::otp::{code_digits, padded, time_counter, totp_code};
use lotp::vault::App;

fn fresh() -> App {
    App::new(BTreeMap::new(), b"alice", b"correct horse").expect("a fresh store opens")
}

#[test]
fn base32_hello_decodes() {
    assert_eq!(parse_secret("NBSWY3DP"), Ok(b"hello".to_vec()));
}

#[test]
fn base32_invalid_alphabet_rejected() {
    assert_eq!(parse_secret("NB1WY8DP"), Err(CmdError::NotBase32));
    assert_eq!(parse_secret("18"), Err(CmdError::NotBase32));
}

#[test]
fn secret_size_bounds() {
    assert_eq!(check_secret(None), Err(CmdError::NotBase32));
    assert_eq!(check_secret(Some(Vec::new())), Err(CmdError::EmptyData));
    assert_eq!(check_secret(Some(vec![7u8; 128])), Ok(vec![7u8; 128]));
    assert_eq!(check_secret(Some(vec![7u8; 129])), Err(CmdError::TooLong));
    let long = data_encoding::BASE32_NOPAD.encode(&[1u8; 129]);
    assert_eq!(parse_secret(&long), Err(CmdError::TooLong));
}

#[test]
fn totp_reference_vector() {
    assert_eq!(totp_code(b"12345678901234567890", 59), b"287082".to_vec());
    assert_eq!(totp_code(b"12345678901234567890", 1111111109), b"081804".to_vec());
}

#[test]
fn totp_same_window_same_code() {
    let seed = b"hello";
    assert_eq!(totp_code(seed, 60), totp_code(seed, 89));
    assert_eq!(time_counter(59), 1);
    assert_eq!(time_counter(60), 2);
}

#[test]
fn digits_are_zero_padded() {
    assert_eq!(code_digits(42), b"000042".to_vec());
    assert_eq!(code_digits(999999), b"999999".to_vec());
    assert_eq!(padded(1234, 2), b"34".to_vec());
    assert_eq!(padded(7, 0), Vec::<u8>::new());
}

#[test]
fn reserved_label_any_case() {
    assert!(is_reserved(b"__version__"));
    assert!(is_reserved(b"__VERSION__"));
    assert!(is_reserved(b"__VeRsIoN__"));
    assert!(!is_reserved(b"__version"));
    assert!(!is_reserved(b"github"));
}

#[test]
fn command_words() {
    assert_eq!(parse_command("add"), Command::Add);
    assert_eq!(parse_command("SHOW"), Command::Show);
    assert_eq!(parse_command("Remove"), Command::Remove);
    assert_eq!(parse_command("help"), Command::Help);
    assert_eq!(parse_command("EXIT"), Command::Exit);
    assert_eq!(parse_command("list"), Command::Unknown);
}

#[test]
fn empty_store_bootstraps_sentinel() {
    let app = fresh();
    assert_eq!(app.len(), 1);
    assert!(app.is_changed());
    assert_eq!(app.blobs().len(), 1);
}

#[test]
fn empty_credentials_refused() {
    assert!(App::new(BTreeMap::new(), b"", b"pw").is_none());
    assert!(App::new(BTreeMap::new(), b"alice", b"").is_none());
}

#[test]
fn insert_then_get_round_trip() {
    let mut app = fresh();
    let secret: Vec<u8> = (1u8..=128).collect();
    assert_eq!(app.insert(b"bank", &secret), Ok(()));
    assert_eq!(app.get(b"bank"), Ok(secret));
    assert_eq!(app.insert(b"one", &[9]), Ok(()));
    assert_eq!(app.get(b"one"), Ok(vec![9]));
    assert_eq!(app.len(), 3);
}

#[test]
fn add_show_remove_commands() {
    let mut app = fresh();
    assert_eq!(app.cmd_add(&["github", "NBSWY3DP"]), Ok(()));
    assert_eq!(app.get(b"github"), Ok(b"hello".to_vec()));
    assert_eq!(app.cmd_show(&["github"], 59), Ok(totp_code(b"hello", 59)));
    assert_eq!(app.cmd_show(&["github"], 59).unwrap().len(), 6);
    assert_eq!(app.cmd_remove(&["github"]), Ok(()));
    assert_eq!(app.get(b"github"), Err(CmdError::UnknownLabel));
    assert_eq!(app.cmd_show(&["github"], 59), Err(CmdError::UnknownLabel));
}

#[test]
fn remove_absent_keeps_size() {
    let mut app = App::new(fresh().blobs().clone(), b"alice", b"correct horse").unwrap();
    assert!(!app.is_changed());
    assert_eq!(app.cmd_remove(&["nothing"]), Err(CmdError::UnknownLabel));
    assert_eq!(app.len(), 1);
    assert!(!app.is_changed());
    assert_eq!(app.remove(b"nothing"), Err(CmdError::UnknownLabel));
    assert_eq!(app.len(), 1);
}

#[test]
fn reserved_label_refused_by_commands() {
    let mut app = fresh();
    assert_eq!(app.cmd_add(&["__VERSION__", "NBSWY3DP"]), Err(CmdError::InvalidLabel));
    assert_eq!(app.cmd_show(&["__version__"], 0), Err(CmdError::InvalidLabel));
    assert_eq!(app.cmd_remove(&["__Version__"]), Err(CmdError::InvalidLabel));
    assert_eq!(app.len(), 1);
}

#[test]
fn missing_arguments_refused() {
    let mut app = fresh();
    assert_eq!(app.cmd_add(&[]), Err(CmdError::MissingLabel));
    assert_eq!(app.cmd_add(&["github"]), Err(CmdError::MissingData));
    assert_eq!(app.cmd_add(&["github", "18"]), Err(CmdError::NotBase32));
    assert_eq!(app.cmd_show(&[], 0), Err(CmdError::MissingLabel));
    assert_eq!(app.cmd_remove(&[]), Err(CmdError::MissingLabel));
    assert_eq!(app.len(), 1);
}

#[test]
fn reopen_with_same_credentials() {
    let mut app = fresh();
    app.insert(b"mail", b"12345678901234567890").unwrap();
    let written = app.blobs().clone();
    let again = App::new(written.clone(), b"alice", b"correct horse").expect("same password opens");
    assert_eq!(again.get(b"mail"), Ok(b"12345678901234567890".to_vec()));
    assert_eq!(again.cmd_show(&["mail"], 59), Ok(b"287082".to_vec()));
    assert!(App::new(written.clone(), b"alice", b"wrong horse").is_none());
    assert!(App::new(written, b"bob", b"correct horse").is_none());
}

#[test]
fn tampered_entry_is_unreadable() {
    let mut app = fresh();
    app.insert(b"mail", b"seed").unwrap();
    let mut written = app.blobs().clone();
    for blob in written.values_mut() {
        if blob.len() == 12 + 4 + 16 {
            let last = blob.len() - 1;
            blob[last] ^= 1;
        }
    }
    let again = App::new(written, b"alice", b"correct horse").unwrap();
    assert_eq!(again.get(b"mail"), Err(CmdError::Unreadable));
    assert_eq!(again.cmd_show(&["mail"], 0), Err(CmdError::Unreadable));
}

#[test]
fn store_without_sentinel_refused() {
    let mut data = BTreeMap::new();
    data.insert(5u128, vec![1u8, 2, 3]);
    assert!(App::new(data, b"alice", b"correct horse").is_none());
}

#[test]
fn error_messages() {
    assert_eq!(CmdError::UnknownLabel.message(), "Unknown <label>");
    assert_eq!(CmdError::InvalidLabel.message(), "Invalid <label>");
}

#[test]
fn encrypt_twice_differs_and_both_decrypt() {
    let key = [3u8; 32];
    let a = encrypt(&key, b"same seed").unwrap();
    let b = encrypt(&key, b"same seed").unwrap();
    assert_ne!(a, b);
    assert_ne!(a[..12], b[..12]);
    assert_eq!(decrypt(&key, &a), Some(b"same seed".to_vec()));
    assert_eq!(decrypt(&key, &b), Some(b"same seed".to_vec()));
    assert_eq!(decrypt(&[4u8; 32], &a), None);
    assert_eq!(decrypt(&key, &a[..11]), None);
}

#[test]
fn blob_layout_is_nonce_then_ciphertext() {
    let key = [1u8; 32];
    let nonce = [7u8; 12];
    let blob = seal_with_nonce(&key, &nonce, b"hello");
    assert_eq!(blob.len(), 12 + 5 + 16);
    assert_eq!(&blob[..12], &nonce);
    assert_ne!(&blob[12..17], b"hello");
    assert_eq!(decrypt(&key, &blob), Some(b"hello".to_vec()));
}

#[test]
fn re_adding_a_seed_writes_a_new_blob() {
    let mut app = fresh();
    assert_eq!(app.cmd_add(&["github", "NBSWY3DP"]), Ok(()));
    let first = app.blobs().clone();
    assert_eq!(app.cmd_add(&["github", "NBSWY3DP"]), Ok(()));
    let second = app.blobs().clone();
    assert_eq!(first.len(), second.len());
    assert_ne!(first, second);
    assert_eq!(app.get(b"github"), Ok(b"hello".to_vec()));
}

#[test]
fn reserved_label_refused_by_store() {
    let mut app = fresh();
    assert_eq!(app.insert(b"__version__", b"x"), Err(CmdError::InvalidLabel));
    assert_eq!(app.remove(b"__version__"), Err(CmdError::InvalidLabel));
    assert_eq!(app.len(), 1);
}

#[test]
fn insert_sealed_with_given_nonce() {
    let mut app = fresh();
    let nonce = [5u8; 12];
    assert_eq!(app.insert_sealed(b"bank", b"seed", &nonce), Ok(()));
    assert_eq!(app.get(b"bank"), Ok(b"seed".to_vec()));
    assert_eq!(app.len(), 2);
    assert_eq!(app.insert_sealed(b"bank", b"seed", &nonce), Err(CmdError::NoFreshNonce));
    assert_eq!(app.insert_sealed(b"bank", b"seed", &[6u8; 12]), Ok(()));
    assert_eq!(app.get(b"bank"), Ok(b"seed".to_vec()));
    assert_eq!(app.insert_sealed(b"__version__", b"seed", &nonce), Err(CmdError::InvalidLabel));
    assert_eq!(app.len(), 2);
}

#[test]
fn bootstrap_with_given_nonce() {
    let nonce = [9u8; 12];
    let app = App::new_with_nonce(BTreeMap::new(), b"alice", b"pw", &nonce).unwrap();
    assert!(app.is_changed());
    assert_eq!(app.len(), 1);
    let blob = app.blobs().values().next().unwrap().clone();
    assert_eq!(&blob[..12], &nonce);
    let again = App::new_with_nonce(app.blobs().clone(), b"alice", b"pw", &nonce).unwrap();
    assert!(!again.is_changed());
    assert!(App::new_with_nonce(app.blobs().clone(), b"alice", b"pv", &nonce).is_none());
}

#[test]
fn lower_case_seed_refused() {
    assert_eq!(parse_secret("nbswy3dp"), Err(CmdError::NotBase32));
    let mut app = fresh();
    assert_eq!(app.cmd_add(&["github", "NBSWY318"]), Err(CmdError::NotBase32));
    assert_eq!(app.len(), 1);
}
