//! The portal's status record and its parser.
//!
//! A host that is online gets a comma-separated record: account name, seconds
//! online, address, bytes used. Anything else reads as offline.

use crate::text::{
    chars_of, contains, contains_text, field_views, parse_u64, parse_unsigned, split, split_on,
    string_of,
};
use vstd::prelude::*;

verus! {

/// Number of leading fields of a status record that carry meaning.
pub const RECORD_FIELDS: usize = 4;

/// What one probe of the portal found.
#[derive(Clone, Debug)]
pub struct NetworkStatus {
    pub is_online: bool,
    pub username: String,
    pub ip_address: String,
    pub used_bytes: u64,
    pub online_seconds: u64,
    pub error_message: String,
}

/// A status as plain values.
pub struct StatusView {
    pub is_online: bool,
    pub username: Seq<char>,
    pub ip_address: Seq<char>,
    pub used_bytes: u64,
    pub online_seconds: u64,
    pub error_message: Seq<char>,
}

impl View for NetworkStatus {
    type V = StatusView;

    open spec fn view(&self) -> StatusView {
        StatusView {
            is_online: self.is_online,
            username: self.username@,
            ip_address: self.ip_address@,
            used_bytes: self.used_bytes,
            online_seconds: self.online_seconds,
            error_message: self.error_message@,
        }
    }
}

impl StatusView {
    /// An offline status names no account and no address and counts nothing.
    pub open spec fn well_formed(self) -> bool {
        !self.is_online ==> {
            &&& self.username.len() == 0
            &&& self.ip_address.len() == 0
            &&& self.used_bytes == 0
            &&& self.online_seconds == 0
        }
    }
}

/// The offline status: every field empty or zero.
pub open spec fn offline() -> StatusView {
    StatusView {
        is_online: false,
        username: Seq::empty(),
        ip_address: Seq::empty(),
        used_bytes: 0,
        online_seconds: 0,
        error_message: Seq::empty(),
    }
}

/// The offline status that reports why the portal could not be reached.
pub open spec fn offline_because(reason: Seq<char>) -> StatusView {
    StatusView { error_message: reason, ..offline() }
}

/// The text by which the portal says that the host is not online.
pub open spec fn offline_marker() -> Seq<char> {
    "not_online"@
}

/// The value of a numeric field: the number it denotes, or 0 where it denotes
/// none that fits 64 bits.
pub open spec fn numeric_field(field: Seq<char>) -> u64 {
    match parse_unsigned(field, u64::MAX as nat) {
        Some(n) => n as u64,
        None => 0,
    }
}

/// True when `text` reads as offline: it is empty, holds the offline marker,
/// or has fewer than four comma-separated fields.
pub open spec fn reads_offline(text: Seq<char>) -> bool {
    ||| text.len() == 0
    ||| contains_text(text, offline_marker())
    ||| split_on(text, ',').len() < RECORD_FIELDS
}

/// The status that a reply text denotes.
pub open spec fn status_of(text: Seq<char>) -> StatusView {
    let fields = split_on(text, ',');
    if reads_offline(text) {
        offline()
    } else {
        StatusView {
            is_online: true,
            username: fields[0],
            ip_address: fields[2],
            used_bytes: numeric_field(fields[3]),
            online_seconds: numeric_field(fields[1]),
            error_message: Seq::empty(),
        }
    }
}

/// Whatever the reply text, the status read from it is well formed, and it
/// never carries an error message.
pub proof fn lemma_status_of_well_formed(text: Seq<char>)
    ensures
        status_of(text).well_formed(),
        status_of(text).error_message.len() == 0,
        !status_of(text).is_online <==> reads_offline(text),
        !status_of(text).is_online ==> status_of(text) == offline(),
{
}

impl Default for NetworkStatus {
    fn default() -> (status: Self)
        ensures
            status@ == offline(),
            status@.well_formed(),
    {
        NetworkStatus {
            is_online: false,
            username: String::new(),
            ip_address: String::new(),
            used_bytes: 0,
            online_seconds: 0,
            error_message: String::new(),
        }
    }
}

impl NetworkStatus {
    /// The status to report when the portal could not be reached.
    pub fn offline_because(reason: String) -> (status: Self)
        ensures
            status@ == offline_because(reason@),
            status@.well_formed(),
    {
        NetworkStatus {
            is_online: false,
            username: String::new(),
            ip_address: String::new(),
            used_bytes: 0,
            online_seconds: 0,
            error_message: reason,
        }
    }
}

/// Reads a numeric field of a status record.
fn read_number(field: &Vec<char>) -> (number: u64)
    ensures
        number == numeric_field(field@),
{
    match parse_u64(field) {
        Some(n) => n,
        None => 0,
    }
}

/// Reads the portal's reply to a status probe.
pub fn parse_status(text: &str) -> (status: NetworkStatus)
    ensures
        status@ == status_of(text@),
        status@.well_formed(),
{
    let chars = chars_of(text);
    if chars.len() == 0 {
        return NetworkStatus::default();
    }
    let marker = chars_of("not_online");
    if contains(&chars, &marker) {
        return NetworkStatus::default();
    }
    let fields = split(&chars, ',');
    assert(field_views(fields@).len() == fields@.len());
    if fields.len() < RECORD_FIELDS {
        return NetworkStatus::default();
    }
    assert(forall|i: int| 0 <= i < fields@.len() ==> field_views(fields@)[i] == fields@[i]@);
    NetworkStatus {
        is_online: true,
        username: string_of(&fields[0]),
        ip_address: string_of(&fields[2]),
        used_bytes: read_number(&fields[3]),
        online_seconds: read_number(&fields[1]),
        error_message: String::new(),
    }
}

} // verus!
