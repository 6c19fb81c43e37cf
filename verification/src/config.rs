//! The settings that the supervisor reads: the credentials and whether they
//! were ever entered. Loading and storing them is the caller's business.

use crate::status::NetworkStatus;
use crate::supervisor::Event;
use vstd::prelude::*;
use vstd::string::*;
use vstd::utf8::*;

verus! {

/// The byte with which a stored password is masked.
pub const STORE_MASK: u8 = 0x5a;

/// The user's settings.
#[derive(Clone, Debug)]
pub struct AppConfig {
    pub username: String,
    pub password: String,
    pub auto_save: bool,
    pub auto_launch: bool,
    pub has_configured: bool,
    pub skipped_version: String,
}

impl Default for AppConfig {
    fn default() -> (config: Self)
        ensures
            config.username@.len() == 0,
            config.password@.len() == 0,
            !config.auto_save,
            !config.auto_launch,
            !config.has_configured,
            config.skipped_version@.len() == 0,
            !config.ready(),
    {
        AppConfig {
            username: String::new(),
            password: String::new(),
            auto_save: false,
            auto_launch: false,
            has_configured: false,
            skipped_version: String::new(),
        }
    }
}

impl AppConfig {
    /// True when a login can be tried: the settings were entered, and neither
    /// the account name nor the password is empty.
    pub open spec fn ready(&self) -> bool {
        self.has_configured && self.username@.len() > 0 && self.password@.len() > 0
    }

    /// Tells whether a login can be tried with these settings.
    pub fn credentials_ready(&self) -> (ready: bool)
        ensures
            ready == self.ready(),
    {
        self.has_configured && !self.username.as_str().is_empty()
            && !self.password.as_str().is_empty()
    }
}

/// A stored text: every byte masked and taken as the character with that
/// code point.
pub open spec fn masked(bytes: Seq<u8>) -> Seq<char> {
    bytes.map_values(|b: u8| (b ^ STORE_MASK) as char)
}

/// A password of ASCII characters comes back from the store as it went in:
/// masking its bytes twice gives the password.
pub proof fn lemma_ascii_password_round_trip(password: Seq<char>)
    requires
        is_ascii_chars(password),
    ensures
        is_ascii_chars(masked(encode_utf8(password))),
        masked(encode_utf8(masked(encode_utf8(password)))) == password,
{
    let bytes = encode_utf8(password);
    let stored = masked(bytes);
    is_ascii_chars_encode_utf8(password);
    is_ascii_chars_nat_bound(password);
    assert forall|i: int| 0 <= i < stored.len() implies '\0' <= #[trigger] stored[i]
        <= '\u{7f}' by {
        let b = bytes[i];
        assert(b < 0x80);
        assert((b ^ 0x5a) < 0x80) by (bit_vector)
            requires
                b < 0x80,
        ;
    }
    is_ascii_chars_encode_utf8(stored);
    is_ascii_chars_nat_bound(stored);
    let again = masked(encode_utf8(stored));
    assert forall|i: int| 0 <= i < password.len() implies again[i] == password[i] by {
        let b = bytes[i];
        assert(((b ^ 0x5a) ^ 0x5a) == b) by (bit_vector);
        assert(b < 0x80);
        assert((b ^ 0x5a) < 0x80) by (bit_vector)
            requires
                b < 0x80,
        ;
        assert(stored[i] == (b ^ 0x5a) as char);
        assert(encode_utf8(stored)[i] == stored[i] as u8);
        assert(encode_utf8(stored)[i] == b ^ 0x5a);
        assert(again[i] == b as char);
        assert(b == password[i] as u8);
    }
    assert(again =~= password);
}

/// Masks the UTF-8 bytes of a text, byte by byte.
fn mask_text(text: &str) -> (stored: String)
    ensures
        stored@ == masked(text.spec_bytes()),
{
    let bytes = text.as_bytes();
    let mut stored = String::new();
    let mut i: usize = 0;
    while i < bytes.len()
        invariant
            i <= bytes.len(),
            stored@ == masked(bytes@.take(i as int)),
        decreases bytes.len() - i,
    {
        stored.push((bytes[i] ^ STORE_MASK) as char);
        i += 1;
        assert(masked(bytes@.take(i as int)) =~= masked(bytes@.take(i - 1)).push(
            (bytes@[i - 1] ^ STORE_MASK) as char,
        ));
    }
    assert(bytes@.take(bytes.len() as int) =~= bytes@);
    stored
}

/// Masks a password for the settings store.
pub fn encode_password(password: &str) -> (stored: String)
    ensures
        stored@ == masked(password.spec_bytes()),
{
    mask_text(password)
}

/// Takes the mask off a password from the settings store.
pub fn decode_password(encoded: &str) -> (password: String)
    ensures
        password@ == masked(encoded.spec_bytes()),
{
    mask_text(encoded)
}

/// The event that reports a probe to the supervisor: what the probe found and
/// whether these settings allow a login.
pub fn probe_event(status: &NetworkStatus, config: &AppConfig) -> (event: Event)
    ensures
        event == (Event::Probed { online: status.is_online, credentials_ready: config.ready() }),
{
    Event::Probed { online: status.is_online, credentials_ready: config.credentials_ready() }
}

} // verus!
