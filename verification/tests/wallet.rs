use std::path::PathBuf;

use subtensor_client::wallet::{
    decode_key_text, find_member_text, home_hotkey_location, home_hotkey_location_in,
    hotkey_location, key_account_id_in, key_seed_in, load_key_account_id, load_key_seed,
    AccountLoadingError, HexError, InvalidAccountJsonError, KeyFile, KeyFileMember,
};
use subtensor_client::AccountId;

const SEED_TEXT: &str = "0x000102030405060708090a0b0c0d0e0f101112131415161718191A1B1C1D1E1F";

fn seed_bytes() -> [u8; 32] {
    let mut bytes = [0u8; 32];
    for (i, byte) in bytes.iter_mut().enumerate() {
        *byte = i as u8;
    }
    bytes
}

fn member(name: &str, text: Option<&str>) -> KeyFileMember {
    KeyFileMember { name: name.to_string(), text: text.map(|t| t.to_string()) }
}

fn file(members: Vec<KeyFileMember>) -> KeyFile {
    KeyFile { members: Some(members) }
}

fn path(text: &str) -> PathBuf {
    PathBuf::from(text)
}

#[test]
fn hotkey_location_joins_three_components() {
    let location = hotkey_location(path("/srv/wallets"), path("main"), path("miner"));
    assert_eq!(location, path("/srv/wallets/main/hotkeys/miner"));
}

#[test]
fn hotkey_location_from_a_relative_root() {
    assert_eq!(hotkey_location(path("w"), path("a"), path("b")), path("w/a/hotkeys/b"));
    assert_eq!(hotkey_location(path(""), path("a"), path("b")), path("a/hotkeys/b"));
}

#[test]
fn hotkey_location_with_an_absolute_name() {
    // An absolute name stands in place of what comes before it.
    let location = hotkey_location(path("/srv/wallets"), path("/elsewhere"), path("miner"));
    assert_eq!(location, path("/elsewhere/hotkeys/miner"));
    let location = hotkey_location(path("/srv/wallets"), path("main"), path("/key"));
    assert_eq!(location, path("/key"));
}

#[test]
fn hotkey_location_with_names_of_several_components() {
    let location = hotkey_location(path("/srv"), path("a/b"), path("c/d"));
    assert_eq!(location, path("/srv/a/b/hotkeys/c/d"));
}

#[test]
fn home_hotkey_location_below_a_given_home() {
    let location = home_hotkey_location_in(Some(path("/home/alice")), path("main"), path("miner"));
    assert_eq!(location, Some(path("/home/alice/.bittensor/wallets/main/hotkeys/miner")));
    assert_eq!(home_hotkey_location_in(None, path("main"), path("miner")), None);
}

#[test]
fn home_hotkey_location_of_this_user() {
    if let Some(location) = home_hotkey_location(path("main"), path("miner")) {
        assert!(location.ends_with(".bittensor/wallets/main/hotkeys/miner"));
        assert_eq!(
            home_hotkey_location_in(
                location.ancestors().nth(5).map(|home| home.to_path_buf()),
                path("main"),
                path("miner")
            ),
            Some(location)
        );
    }
}

#[test]
fn decode_key_text_reads_hex_after_prefix() {
    assert_eq!(decode_key_text(SEED_TEXT), Ok(seed_bytes()));
    let all_ff = format!("0x{}", "fF".repeat(32));
    assert_eq!(decode_key_text(&all_ff), Ok([0xff; 32]));
}

#[test]
fn decode_key_text_does_not_look_at_the_prefix() {
    let other_prefix = format!("zz{}", &SEED_TEXT[2..]);
    assert_eq!(decode_key_text(&other_prefix), Ok(seed_bytes()));
}

#[test]
fn decode_key_text_odd_length() {
    let text = format!("0x{}", "a".repeat(63));
    assert_eq!(decode_key_text(&text), Err(HexError::OddLength));
    assert_eq!(decode_key_text("0xa"), Err(HexError::OddLength));
}

#[test]
fn decode_key_text_wrong_length() {
    let short = format!("0x{}", "ab".repeat(31));
    assert_eq!(decode_key_text(&short), Err(HexError::InvalidStringLength));
    let long = format!("0x{}", "ab".repeat(33));
    assert_eq!(decode_key_text(&long), Err(HexError::InvalidStringLength));
    assert_eq!(decode_key_text("0x"), Err(HexError::InvalidStringLength));
}

#[test]
fn decode_key_text_shorter_than_its_prefix() {
    assert_eq!(decode_key_text(""), Err(HexError::InvalidStringLength));
    assert_eq!(decode_key_text("0"), Err(HexError::InvalidStringLength));
}

#[test]
fn decode_key_text_first_bad_digit() {
    let mut text = format!("0x{}", "00".repeat(32));
    text.replace_range(12..13, "g");
    text.replace_range(40..41, "!");
    assert_eq!(decode_key_text(&text), Err(HexError::InvalidHexCharacter { c: 'g', index: 10 }));
    let lone_x = format!("0x{}x", "0".repeat(63));
    assert_eq!(
        decode_key_text(&lone_x),
        Err(HexError::InvalidHexCharacter { c: 'x', index: 63 })
    );
}

#[test]
fn find_member_text_cases() {
    let doc = file(vec![
        member("accountId", Some("0xaa")),
        member("publicKey", None),
        member("secretSeed", Some("0xbb")),
    ]);
    assert_eq!(find_member_text(&doc, "secretSeed"), Some(&"0xbb".to_string()));
    assert_eq!(find_member_text(&doc, "accountId"), Some(&"0xaa".to_string()));
    assert_eq!(find_member_text(&doc, "publicKey"), None);
    assert_eq!(find_member_text(&doc, "secretseed"), None);
    assert_eq!(find_member_text(&KeyFile { members: None }, "secretSeed"), None);
}

fn invalid_json_at(at: &str, e: &AccountLoadingError) -> bool {
    matches!(e, AccountLoadingError::InvalidJson(InvalidAccountJsonError(p)) if *p == path(at))
}

fn hex_fault(e: &AccountLoadingError) -> Option<HexError> {
    match e {
        AccountLoadingError::HexDecodeError(fault) => Some(*fault),
        _ => None,
    }
}

#[test]
fn key_seed_in_parsed_file() {
    let doc = file(vec![
        member("accountId", Some("0x00")),
        member("secretSeed", Some(SEED_TEXT)),
        member("ss58Address", Some("5Grw")),
    ]);
    assert_eq!(key_seed_in(&path("/w/hotkeys/miner"), &doc).ok(), Some(seed_bytes()));
}

#[test]
fn key_account_id_in_parsed_file() {
    let doc = file(vec![member("accountId", Some(SEED_TEXT)), member("secretSeed", None)]);
    assert_eq!(key_account_id_in(&path("/w/hotkeys/miner"), &doc).ok(), Some(AccountId(seed_bytes())));
}

#[test]
fn key_in_parsed_file_invalid_json_cases() {
    let at = "/w/hotkeys/miner";
    // The document is an array, a number, a string.
    let e = key_seed_in(&path(at), &KeyFile { members: None }).unwrap_err();
    assert!(invalid_json_at(at, &e));
    // The member is missing.
    let doc = file(vec![member("accountId", Some(SEED_TEXT))]);
    assert!(invalid_json_at(at, &key_seed_in(&path(at), &doc).unwrap_err()));
    assert!(invalid_json_at(at, &key_seed_in(&path(at), &file(vec![])).unwrap_err()));
    // The member is no string.
    let doc = file(vec![member("secretSeed", None)]);
    assert!(invalid_json_at(at, &key_seed_in(&path(at), &doc).unwrap_err()));
    let doc = file(vec![member("secretSeed", Some(SEED_TEXT))]);
    assert!(invalid_json_at("p", &key_account_id_in(&path("p"), &doc).unwrap_err()));
}

#[test]
fn key_in_parsed_file_hex_errors() {
    let doc = file(vec![member("secretSeed", Some("0x123"))]);
    assert_eq!(hex_fault(&key_seed_in(&path("p"), &doc).unwrap_err()), Some(HexError::OddLength));
    let doc = file(vec![member("secretSeed", Some("0x1234"))]);
    assert_eq!(
        hex_fault(&key_seed_in(&path("p"), &doc).unwrap_err()),
        Some(HexError::InvalidStringLength)
    );
    let bad = format!("0x{}", "zz".repeat(32));
    let doc = file(vec![member("accountId", Some(&bad))]);
    assert_eq!(
        hex_fault(&key_account_id_in(&path("p"), &doc).unwrap_err()),
        Some(HexError::InvalidHexCharacter { c: 'z', index: 0 })
    );
    let doc = file(vec![member("secretSeed", Some(""))]);
    assert_eq!(
        hex_fault(&key_seed_in(&path("p"), &doc).unwrap_err()),
        Some(HexError::InvalidStringLength)
    );
}

#[test]
fn invalid_account_json_message() {
    let error = InvalidAccountJsonError(path("/home/a/.bittensor/wallets/w/hotkeys/h"));
    assert_eq!(
        error.to_string(),
        "Invalid wallet account file: \"/home/a/.bittensor/wallets/w/hotkeys/h\""
    );
    let quoted = InvalidAccountJsonError(path("a\"b\\c"));
    assert_eq!(quoted.to_string(), "Invalid wallet account file: \"a\\\"b\\\\c\"");
}

fn key_file_text() -> String {
    format!(
        "{{\"accountId\": \"0x{}\", \"publicKey\": 7, \"secretSeed\": \"{}\"}}",
        "d4".repeat(32),
        SEED_TEXT
    )
}

#[test]
fn load_keys_from_file_contents() {
    let json = key_file_text();
    assert_eq!(load_key_seed(&path("k"), json.as_bytes()).ok(), Some(seed_bytes()));
    assert_eq!(load_key_account_id(&path("k"), json.as_bytes()).ok(), Some(AccountId([0xd4; 32])));
}

#[test]
fn load_key_from_contents_that_are_no_json() {
    for contents in ["", "{", "{\"secretSeed\": }", "secretSeed", "{\"a\": 1} trailing"] {
        let e = load_key_seed(&path("k"), contents.as_bytes()).unwrap_err();
        assert!(matches!(e, AccountLoadingError::JsonReaderError(_)), "contents {:?}", contents);
    }
    let e = load_key_account_id(&path("k"), &[0xff, 0xfe]).unwrap_err();
    assert!(matches!(e, AccountLoadingError::JsonReaderError(_)));
}

#[test]
fn load_key_from_json_that_is_no_object() {
    for json in ["[1, 2]", "\"secretSeed\"", "null", "17"] {
        assert!(invalid_json_at("k", &load_key_seed(&path("k"), json.as_bytes()).unwrap_err()));
    }
    let nested = "{\"secretSeed\": {\"nested\": \"0x00\"}}";
    assert!(invalid_json_at("k", &load_key_seed(&path("k"), nested.as_bytes()).unwrap_err()));
    let missing = "{\"accountId\": \"0x00\"}";
    assert!(invalid_json_at("k", &load_key_seed(&path("k"), missing.as_bytes()).unwrap_err()));
}

#[test]
fn load_key_from_json_with_bad_hex() {
    let e = load_key_seed(&path("k"), "{\"secretSeed\": \"0xabc\"}".as_bytes()).unwrap_err();
    assert_eq!(hex_fault(&e), Some(HexError::OddLength));
    let e = load_key_account_id(&path("k"), "{\"accountId\": \"0xabcd\"}".as_bytes()).unwrap_err();
    assert_eq!(hex_fault(&e), Some(HexError::InvalidStringLength));
    let text = format!("{{\"accountId\": \"0x{}q{}\"}}", "0".repeat(5), "0".repeat(58));
    let e = load_key_account_id(&path("k"), text.as_bytes()).unwrap_err();
    assert_eq!(hex_fault(&e), Some(HexError::InvalidHexCharacter { c: 'q', index: 5 }));
}

#[test]
fn load_key_takes_the_last_of_repeated_members() {
    let json = format!(
        "{{\"secretSeed\": \"0x00\", \"secretSeed\": \"{}\"}}",
        SEED_TEXT
    );
    assert_eq!(load_key_seed(&path("k"), json.as_bytes()).ok(), Some(seed_bytes()));
}
