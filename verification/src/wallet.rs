//! Wallet files: where a hotkey's file lies, and the keys written in it.
//!
//! Reading a file is the caller's business: key loading starts from the
//! file's bytes. The JSON in them is parsed by `serde_json`, the hexadecimal
//! by `hex`, the home directory is that which `dirs` finds, and paths are
//! joined by std's `PathBuf::push`.

use std::path::PathBuf;
use vstd::prelude::*;
use vstd::slice::slice_subrange;
use vstd::string::*;
use vstd::utf8::encode_utf8;
use crate::AccountId;
use crate::sign::{pair_from_seed_slice, sr25519_seed_public_key, PairSigner, SecretStringError};

verus! {

/// The directory that wallets are kept in, below the home directory.
pub const WALLET_ROOT: &'static str = ".bittensor";

/// The directory of the wallets, below [`WALLET_ROOT`].
pub const WALLETS_DIR: &'static str = "wallets";

/// The directory of a wallet's hotkeys, below the wallet's own directory.
pub const HOTKEYS_DIR: &'static str = "hotkeys";

/// The member of a key file that holds the secret seed.
pub const SECRET_SEED_MEMBER: &'static str = "secretSeed";

/// The member of a key file that holds the account identifier.
pub const ACCOUNT_ID_MEMBER: &'static str = "accountId";

/// The owned paths of std.
#[verifier::external_type_specification]
#[verifier::external_body]
pub struct ExPathBuf(PathBuf);

/// `Clone::clone` of a path, which gives a duplicate of it.
pub assume_specification[ <PathBuf as Clone>::clone ](path: &PathBuf) -> (copy: PathBuf)
    ensures
        copy == *path,
;

/// `path` with the path `component` joined on as `PathBuf::push` joins it: a
/// relative component goes below `path`, and an absolute one stands in its
/// place.
pub uninterp spec fn path_pushed(path: PathBuf, component: PathBuf) -> PathBuf;

/// `path` with the name `text` joined on as `PathBuf::push` joins it.
pub uninterp spec fn path_pushed_text(path: PathBuf, text: Seq<char>) -> PathBuf;

/// `PathBuf::push` with a path. What it makes of two paths is std's rule
/// for joining and is named [`path_pushed`].
#[verifier::external_body]
fn push_path(path: PathBuf, component: &PathBuf) -> (pushed: PathBuf)
    ensures
        pushed == path_pushed(path, *component),
{
    let mut pushed = path;
    pushed.push(component);
    pushed
}

/// `PathBuf::push` with a text. What it makes of a path and a text is std's
/// rule for joining and is named [`path_pushed_text`].
#[verifier::external_body]
fn push_text(path: PathBuf, text: &str) -> (pushed: PathBuf)
    ensures
        pushed == path_pushed_text(path, text@),
{
    let mut pushed = path;
    pushed.push(text);
    pushed
}

/// Where the file of a hotkey lies: in `wallet_path`, the wallet's own
/// directory, `hotkeys` below it, and the hotkey's name below that.
pub open spec fn hotkey_path(wallet_path: PathBuf, wallet_name: PathBuf, hotkey_name: PathBuf)
    -> PathBuf {
    path_pushed(
        path_pushed_text(path_pushed(wallet_path, wallet_name), HOTKEYS_DIR@),
        hotkey_name,
    )
}

/// Where the file of a hotkey lies for a user whose home directory is
/// `home`: wallets are kept in `.bittensor/wallets` below it.
pub open spec fn home_hotkey_path(home: PathBuf, wallet_name: PathBuf, hotkey_name: PathBuf)
    -> PathBuf {
    hotkey_path(
        path_pushed_text(path_pushed_text(home, WALLET_ROOT@), WALLETS_DIR@),
        wallet_name,
        hotkey_name,
    )
}

/// Where the file of hotkey `hotkey_name` of wallet `wallet_name` lies, for
/// wallets kept in `wallet_path`.
pub fn hotkey_location(wallet_path: PathBuf, wallet_name: PathBuf, hotkey_name: PathBuf) -> (location:
    PathBuf)
    ensures
        location == hotkey_path(wallet_path, wallet_name, hotkey_name),
{
    let wallet = push_path(wallet_path, &wallet_name);
    let hotkeys = push_text(wallet, HOTKEYS_DIR);
    push_path(hotkeys, &hotkey_name)
}

/// Where the hotkey's file lies for a user whose home directory is `home`;
/// `None` for a user without one.
pub fn home_hotkey_location_in(home: Option<PathBuf>, wallet_name: PathBuf, hotkey_name: PathBuf) -> (location:
    Option<PathBuf>)
    ensures
        match home {
            Some(home) => location == Some(home_hotkey_path(home, wallet_name, hotkey_name)),
            None => location is None,
        },
{
    match home {
        Some(home) => {
            let root = push_text(home, WALLET_ROOT);
            let wallets = push_text(root, WALLETS_DIR);
            Some(hotkey_location(wallets, wallet_name, hotkey_name))
        },
        None => None,
    }
}

/// `dirs::home_dir`: the current user's home directory. The crate asks the
/// operating system, so nothing is known of the answer beforehand.
#[verifier::external_body]
fn home_dir() -> Option<PathBuf> {
    dirs::home_dir()
}

/// Where the hotkey's file lies below the current user's home directory, if
/// the user has one. Whatever the home directory is, the way from it to the
/// file is fixed.
pub fn home_hotkey_location(wallet_name: PathBuf, hotkey_name: PathBuf) -> (location: Option<
    PathBuf,
>)
    ensures
        location matches Some(location) ==> exists|home: PathBuf|
            location == #[trigger] home_hotkey_path(home, wallet_name, hotkey_name),
{
    home_hotkey_location_in(home_dir(), wallet_name, hotkey_name)
}

/// Why a text is not the hexadecimal spelling of a key.
#[derive(Clone, Copy, Debug, PartialEq, Eq)]
pub enum HexError {
    /// The byte at `index`, shown as `c`, is no hexadecimal digit.
    InvalidHexCharacter { c: char, index: usize },
    /// The number of digits is odd.
    OddLength,
    /// The digits do not spell as many bytes as the key has.
    InvalidStringLength,
}

/// The value of a hexadecimal digit, upper or lower case.
pub open spec fn hex_digit_value(digit: u8) -> Option<u8> {
    if 0x30 <= digit <= 0x39 {
        Some((digit - 0x30) as u8)
    } else if 0x41 <= digit <= 0x46 {
        Some((digit - 0x41 + 10) as u8)
    } else if 0x61 <= digit <= 0x66 {
        Some((digit - 0x61 + 10) as u8)
    } else {
        None
    }
}

/// The index of the first byte at or after `from` that is no hexadecimal
/// digit.
pub open spec fn first_non_digit(text: Seq<u8>, from: int) -> Option<int>
    decreases text.len() - from,
{
    if from < 0 || from >= text.len() {
        None
    } else if hex_digit_value(text[from]) is None {
        Some(from)
    } else {
        first_non_digit(text, from + 1)
    }
}

/// The `width` bytes that `text` spells in hexadecimal, two digits to the
/// byte, or what is wrong with it: an odd length first, a length other than
/// `2 * width` next, and otherwise the first byte that is no digit.
pub open spec fn hex_decoding(text: Seq<u8>, width: nat) -> Result<Seq<u8>, HexError> {
    if text.len() % 2 != 0 {
        Err(HexError::OddLength)
    } else if text.len() / 2 != width {
        Err(HexError::InvalidStringLength)
    } else {
        match first_non_digit(text, 0) {
            Some(index) => Err(
                HexError::InvalidHexCharacter { c: text[index] as char, index: index as usize },
            ),
            None => Ok(
                Seq::new(
                    width,
                    |i: int|
                        (16 * hex_digit_value(text[2 * i])->Some_0 + hex_digit_value(
                            text[2 * i + 1],
                        )->Some_0) as u8,
                ),
            ),
        }
    }
}

/// `hex::decode_to_slice` into 32 bytes. The crate checks the length of the
/// text first, for oddness and against the 32 bytes, and reads the digits pair
/// by pair from the left, stopping at the first byte that is no digit; the
/// contract says so through [`hex_decoding`].
#[verifier::external_body]
fn hex_decode_32(text: &[u8]) -> (r: Result<[u8; 32], HexError>)
    ensures
        match r {
            Ok(bytes) => hex_decoding(text@, 32) == Ok::<Seq<u8>, HexError>(bytes@),
            Err(e) => hex_decoding(text@, 32) == Err::<Seq<u8>, HexError>(e),
        },
{
    let mut bytes = [0u8; 32];
    match hex::decode_to_slice(text, &mut bytes) {
        Ok(()) => Ok(bytes),
        Err(hex::FromHexError::InvalidHexCharacter { c, index }) => Err(
            HexError::InvalidHexCharacter { c, index },
        ),
        Err(hex::FromHexError::OddLength) => Err(HexError::OddLength),
        Err(hex::FromHexError::InvalidStringLength) => Err(HexError::InvalidStringLength),
    }
}

/// A top-level member of a key file.
#[derive(Clone, Debug, PartialEq, Eq)]
pub struct KeyFileMember {
    pub name: String,
    /// The member's text, where its value is a string.
    pub text: Option<String>,
}

impl View for KeyFileMember {
    type V = (Seq<char>, Option<Seq<char>>);

    open spec fn view(&self) -> (Seq<char>, Option<Seq<char>>) {
        (
            self.name@,
            match self.text {
                Some(text) => Some(text@),
                None => None,
            },
        )
    }
}

/// A key file as far as key loading looks at it: its top-level members, or
/// `None` where the document is not an object.
#[derive(Clone, Debug, PartialEq, Eq)]
pub struct KeyFile {
    pub members: Option<Vec<KeyFileMember>>,
}

impl View for KeyFile {
    type V = Option<Seq<(Seq<char>, Option<Seq<char>>)>>;

    open spec fn view(&self) -> Option<Seq<(Seq<char>, Option<Seq<char>>)>> {
        match self.members {
            Some(members) => Some(members@.map_values(|member: KeyFileMember| member@)),
            None => None,
        }
    }
}

/// The error of `serde_json`'s parser.
#[verifier::external_type_specification]
#[verifier::external_body]
pub struct ExJsonError(serde_json::Error);

/// The error of std's input and output.
#[verifier::external_type_specification]
#[verifier::external_body]
pub struct ExIoError(std::io::Error);

/// A key file that has no usable key in it; what is wrapped is its path.
#[derive(Clone, Debug, PartialEq, Eq)]
pub struct InvalidAccountJsonError(pub PathBuf);

/// Why no key came out of a key file.
#[derive(Debug)]
pub enum AccountLoadingError {
    /// The document is not an object, lacks the member, or holds something
    /// other than a string there.
    InvalidJson(InvalidAccountJsonError),
    /// The member's text is not the key's hexadecimal spelling.
    HexDecodeError(HexError),
    /// The file is not JSON.
    JsonReaderError(serde_json::Error),
    /// The file could not be read.
    IoError(std::io::Error),
}

/// What an [`AccountLoadingError`] says, without the parser's or the
/// system's own words.
pub enum KeyFault {
    InvalidJson(PathBuf),
    HexDecodeError(HexError),
    JsonReaderError,
    IoError,
}

impl View for AccountLoadingError {
    type V = KeyFault;

    open spec fn view(&self) -> KeyFault {
        match self {
            AccountLoadingError::InvalidJson(e) => KeyFault::InvalidJson(e.0),
            AccountLoadingError::HexDecodeError(e) => KeyFault::HexDecodeError(*e),
            AccountLoadingError::JsonReaderError(_) => KeyFault::JsonReaderError,
            AccountLoadingError::IoError(_) => KeyFault::IoError,
        }
    }
}

/// How a path looks in `{:?}` formatting: in quotes, with escapes.
pub uninterp spec fn path_debug_text(path: PathBuf) -> Seq<char>;

/// `format!("{:?}", path)`: std's `Debug` for a path, which quotes and
/// escapes.
#[verifier::external_body]
fn path_debug(path: &PathBuf) -> (shown: String)
    ensures
        shown@ == path_debug_text(*path),
{
    format!("{:?}", path)
}

impl InvalidAccountJsonError {
    /// The message: `Invalid wallet account file: ` and the quoted path.
    pub fn to_string(&self) -> (message: String)
        ensures
            message@ == "Invalid wallet account file: "@ + path_debug_text(self.0),
    {
        let shown = path_debug(&self.0);
        "Invalid wallet account file: ".to_owned().concat(shown.as_str())
    }
}

/// The index of the first member at or after `from` that is called `name`.
pub open spec fn first_named(
    members: Seq<(Seq<char>, Option<Seq<char>>)>,
    name: Seq<char>,
    from: int,
) -> Option<int>
    decreases members.len() - from,
{
    if from < 0 || from >= members.len() {
        None
    } else if members[from].0 == name {
        Some(from)
    } else {
        first_named(members, name, from + 1)
    }
}

/// The text that a key file holds under `name`: there is none where the
/// document is no object, has no such member, or has no string there.
pub open spec fn member_text(
    file: Option<Seq<(Seq<char>, Option<Seq<char>>)>>,
    name: Seq<char>,
) -> Option<Seq<char>> {
    match file {
        None => None,
        Some(members) => match first_named(members, name, 0) {
            None => None,
            Some(index) => members[index].1,
        },
    }
}

/// The digits of a key's text: what follows the two bytes of its `0x`. A
/// text shorter than that has no digits.
pub open spec fn key_digits(text: Seq<char>) -> Seq<u8> {
    if encode_utf8(text).len() >= 2 {
        encode_utf8(text).skip(2)
    } else {
        Seq::empty()
    }
}

/// The 32-byte key that a text spells after its `0x`.
pub open spec fn key_of_text(text: Seq<char>) -> Result<Seq<u8>, HexError> {
    hex_decoding(key_digits(text), 32)
}

/// The key that a parsed file, read from `path`, holds under `name`.
pub open spec fn key_in_file(
    path: PathBuf,
    file: Option<Seq<(Seq<char>, Option<Seq<char>>)>>,
    name: Seq<char>,
) -> Result<Seq<u8>, KeyFault> {
    match member_text(file, name) {
        None => Err(KeyFault::InvalidJson(path)),
        Some(text) => match key_of_text(text) {
            Ok(key) => Ok(key),
            Err(e) => Err(KeyFault::HexDecodeError(e)),
        },
    }
}

/// The document that `serde_json` parses `contents` as, seen as a key file;
/// `None` where `contents` is not JSON.
pub uninterp spec fn json_key_file(contents: Seq<u8>) -> Option<
    Option<Seq<(Seq<char>, Option<Seq<char>>)>>,
>;

/// The key that the bytes of a file, read from `path`, hold under `name`.
pub open spec fn key_in_contents(path: PathBuf, contents: Seq<u8>, name: Seq<char>) -> Result<
    Seq<u8>,
    KeyFault,
> {
    match json_key_file(contents) {
        None => Err(KeyFault::JsonReaderError),
        Some(file) => key_in_file(path, file, name),
    }
}

/// `serde_json::from_slice` to a `Value`, handed on as a key file: the
/// members of the document if it is an object, each with its text if its
/// value is a string. What the parser makes of given bytes takes pages to
/// say; it depends on the bytes alone and is named [`json_key_file`].
#[verifier::external_body]
fn parse_key_file(contents: &[u8]) -> (parsed: Result<KeyFile, serde_json::Error>)
    ensures
        match parsed {
            Ok(file) => json_key_file(contents@) == Some(file@),
            Err(_) => json_key_file(contents@) is None,
        },
{
    let document: serde_json::Value = serde_json::from_slice(contents)?;
    let members = document.as_object().map(|object| {
        let member = |(name, value): (&String, &serde_json::Value)| KeyFileMember {
            name: name.clone(),
            text: value.as_str().map(str::to_owned),
        };
        object.iter().map(member).collect()
    });
    Ok(KeyFile { members })
}

/// The 32-byte key that `text` spells after its two-byte prefix. The prefix
/// itself is not looked at.
pub fn decode_key_text(text: &str) -> (key: Result<[u8; 32], HexError>)
    ensures
        match key {
            Ok(key) => key_of_text(text@) == Ok::<Seq<u8>, HexError>(key@),
            Err(e) => key_of_text(text@) == Err::<Seq<u8>, HexError>(e),
        },
{
    let bytes: &[u8] = text.as_bytes();
    if bytes.len() >= 2 {
        let digits: &[u8] = slice_subrange(bytes, 2, bytes.len());
        hex_decode_32(digits)
    } else {
        let digits: &[u8] = slice_subrange(bytes, 0, 0);
        hex_decode_32(digits)
    }
}

/// Finds the text that `file` holds under `name`.
pub fn find_member_text<'a>(file: &'a KeyFile, name: &str) -> (text: Option<&'a String>)
    ensures
        match text {
            Some(text) => member_text(file@, name@) == Some(text@),
            None => member_text(file@, name@) is None,
        },
{
    match &file.members {
        None => None,
        Some(members) => {
            let wanted: String = name.to_owned();
            let ghost listed = file@->Some_0;
            let mut i: usize = 0;
            while i < members.len()
                invariant
                    i <= members.len(),
                    file.members == Some(*members),
                    listed == members@.map_values(|member: KeyFileMember| member@),
                    wanted@ == name@,
                    first_named(listed, name@, 0) == first_named(listed, name@, i as int),
                decreases members.len() - i,
            {
                if members[i].name == wanted {
                    return match &members[i].text {
                        Some(text) => Some(text),
                        None => None,
                    };
                }
                i = i + 1;
            }
            None
        },
    }
}

/// The key that `file`, read from `path`, holds under `name`.
fn key_in(path: &PathBuf, file: &KeyFile, name: &str) -> (key: Result<[u8; 32], AccountLoadingError>)
    ensures
        match key {
            Ok(key) => key_in_file(*path, file@, name@) == Ok::<Seq<u8>, KeyFault>(key@),
            Err(e) => key_in_file(*path, file@, name@) == Err::<Seq<u8>, KeyFault>(e@),
        },
{
    match find_member_text(file, name) {
        None => Err(AccountLoadingError::InvalidJson(InvalidAccountJsonError(path.clone()))),
        Some(text) => match decode_key_text(text.as_str()) {
            Ok(key) => Ok(key),
            Err(e) => Err(AccountLoadingError::HexDecodeError(e)),
        },
    }
}

/// The key that the bytes of a file, read from `path`, hold under `name`.
fn load_key(path: &PathBuf, contents: &[u8], name: &str) -> (key: Result<
    [u8; 32],
    AccountLoadingError,
>)
    ensures
        match key {
            Ok(key) => key_in_contents(*path, contents@, name@) == Ok::<Seq<u8>, KeyFault>(key@),
            Err(e) => key_in_contents(*path, contents@, name@) == Err::<Seq<u8>, KeyFault>(e@),
        },
{
    match parse_key_file(contents) {
        Ok(file) => key_in(path, &file, name),
        Err(e) => Err(AccountLoadingError::JsonReaderError(e)),
    }
}

/// The secret seed in a parsed key file that was read from `path`: the 32
/// bytes that the member `secretSeed` spells in hexadecimal after its `0x`.
pub fn key_seed_in(path: &PathBuf, file: &KeyFile) -> (seed: Result<[u8; 32], AccountLoadingError>)
    ensures
        match seed {
            Ok(seed) => key_in_file(*path, file@, SECRET_SEED_MEMBER@) == Ok::<Seq<u8>, KeyFault>(
                seed@,
            ),
            Err(e) => key_in_file(*path, file@, SECRET_SEED_MEMBER@) == Err::<Seq<u8>, KeyFault>(
                e@,
            ),
        },
{
    key_in(path, file, SECRET_SEED_MEMBER)
}

/// The account identifier in a parsed key file that was read from `path`:
/// the 32 bytes that the member `accountId` spells in hexadecimal after its
/// `0x`.
pub fn key_account_id_in(path: &PathBuf, file: &KeyFile) -> (account: Result<
    AccountId,
    AccountLoadingError,
>)
    ensures
        match account {
            Ok(account) => key_in_file(*path, file@, ACCOUNT_ID_MEMBER@) == Ok::<
                Seq<u8>,
                KeyFault,
            >(account@),
            Err(e) => key_in_file(*path, file@, ACCOUNT_ID_MEMBER@) == Err::<Seq<u8>, KeyFault>(
                e@,
            ),
        },
{
    match key_in(path, file, ACCOUNT_ID_MEMBER) {
        Ok(key) => Ok(AccountId(key)),
        Err(e) => Err(e),
    }
}

/// Loads the secret seed from the bytes of the key file at `path`. The file
/// is a JSON object whose member `secretSeed` is a string: `0x` and the 64
/// hexadecimal digits of the seed.
pub fn load_key_seed(path: &PathBuf, contents: &[u8]) -> (seed: Result<[u8; 32], AccountLoadingError>)
    ensures
        match seed {
            Ok(seed) => key_in_contents(*path, contents@, SECRET_SEED_MEMBER@) == Ok::<
                Seq<u8>,
                KeyFault,
            >(seed@),
            Err(e) => key_in_contents(*path, contents@, SECRET_SEED_MEMBER@) == Err::<
                Seq<u8>,
                KeyFault,
            >(e@),
        },
{
    load_key(path, contents, SECRET_SEED_MEMBER)
}

/// Loads the account identifier from the bytes of the key file at `path`.
/// The file is a JSON object whose member `accountId` is a string: `0x` and
/// the 64 hexadecimal digits of the identifier.
pub fn load_key_account_id(path: &PathBuf, contents: &[u8]) -> (account: Result<
    AccountId,
    AccountLoadingError,
>)
    ensures
        match account {
            Ok(account) => key_in_contents(*path, contents@, ACCOUNT_ID_MEMBER@) == Ok::<
                Seq<u8>,
                KeyFault,
            >(account@),
            Err(e) => key_in_contents(*path, contents@, ACCOUNT_ID_MEMBER@) == Err::<
                Seq<u8>,
                KeyFault,
            >(e@),
        },
{
    match load_key(path, contents, ACCOUNT_ID_MEMBER) {
        Ok(key) => Ok(AccountId(key)),
        Err(e) => Err(e),
    }
}

/// The signer that wallets hand out.
pub type Signer = PairSigner;

/// A signer from secret seed material. A seed of 32 bytes always gives one;
/// a seed of 64 bytes gives one if it is a secret key; no other length does.
/// The signer depends on the seed alone: its account is the public key that
/// belongs to the seed, and the halves of its pair belong together, so what
/// it signs verifies under its account.
pub fn signer_from_seed(seed: &[u8]) -> (signer: Result<Signer, SecretStringError>)
    ensures
        match signer {
            Ok(made) => sr25519_seed_public_key(seed@) == Some(made.account()@) && made.matched(),
            Err(e) => sr25519_seed_public_key(seed@) is None && e == (if seed@.len() == 64 {
                SecretStringError::InvalidSeed
            } else {
                SecretStringError::InvalidSeedLength
            }),
        },
        seed@.len() == 32 ==> signer is Ok,
        seed@.len() != 32 && seed@.len() != 64 ==> signer is Err,
{
    match pair_from_seed_slice(seed) {
        Ok(pair) => Ok(Signer::new(pair)),
        Err(e) => Err(e),
    }
}

} // verus!
