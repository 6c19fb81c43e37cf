//! Telling whether a published release is newer than this one.

use crate::text::{
    chars_of, field_views, parse_u64, parse_unsigned, split, split_on,
};
use vstd::prelude::*;

verus! {

/// The version of this program.
pub const CURRENT_VERSION: &'static str = "1.2.3";

/// Address that describes the latest release.
pub const RELEASES_URL: &'static str =
    "https://api.github.com/repos/yellowpeachxgp/HAUTNetworkGuard/releases/latest";

/// Name under which the release is asked for.
pub const USER_AGENT: &'static str = "HAUTNetworkGuard";

/// Seconds after which a request for the latest release is given up.
pub const UPDATE_TIMEOUT_SECS: u64 = 15;

/// A published release.
#[derive(Debug, Clone)]
pub struct ReleaseInfo {
    pub tag_name: String,
    pub name: String,
    pub body: String,
    pub html_url: String,
}

impl Default for ReleaseInfo {
    fn default() -> (info: Self)
        ensures
            info.tag_name@.len() == 0,
            info.name@.len() == 0,
            info.body@.len() == 0,
            info.html_url@.len() == 0,
    {
        ReleaseInfo {
            tag_name: String::new(),
            name: String::new(),
            body: String::new(),
            html_url: String::new(),
        }
    }
}

/// How a check for updates stands.
#[derive(Clone)]
pub enum UpdateCheckResult {
    Checking,
    HasUpdate(ReleaseInfo),
    NoUpdate(ReleaseInfo),
    Error(String),
}

/// The version of this program, as characters.
pub open spec fn current_version() -> Seq<char> {
    "1.2.3"@
}

/// What is shown where the latest release could not be learned.
pub open spec fn no_release_message() -> Seq<char> {
    "\u{65e0}\u{6cd5}\u{83b7}\u{53d6}\u{7248}\u{672c}\u{4fe1}\u{606f}"@
}

/// The numbers among the given fields, in order; a field that is no number
/// of 32 bits is left out.
pub open spec fn numbers_of(fields: Seq<Seq<char>>) -> Seq<u32>
    decreases fields.len(),
{
    if fields.len() == 0 {
        Seq::empty()
    } else {
        let before = numbers_of(fields.drop_last());
        match parse_unsigned(fields.last(), u32::MAX as nat) {
            Some(n) => before.push(n as u32),
            None => before,
        }
    }
}

/// The numbers of a version: those of its fields between dots that are
/// numbers.
pub open spec fn version_numbers(version: Seq<char>) -> Seq<u32> {
    numbers_of(split_on(version, '.'))
}

/// True when `a` comes after `b` in dictionary order: at the first place where
/// they differ `a` is greater, or `b` ends first.
pub open spec fn comes_after(a: Seq<u32>, b: Seq<u32>) -> bool
    decreases a.len(),
{
    if a.len() == 0 {
        false
    } else if b.len() == 0 {
        true
    } else if a[0] != b[0] {
        a[0] > b[0]
    } else {
        comes_after(a.skip(1), b.skip(1))
    }
}

/// True when version `latest` is newer than version `current`.
pub open spec fn is_newer(latest: Seq<char>, current: Seq<char>) -> bool {
    comes_after(version_numbers(latest), version_numbers(current))
}

/// `s` without every `c` that it starts with.
pub open spec fn strip_leading(s: Seq<char>, c: char) -> Seq<char>
    decreases s.len(),
{
    if s.len() > 0 && s[0] == c {
        strip_leading(s.skip(1), c)
    } else {
        s
    }
}

/// No version is newer than itself, and of two versions at most one is newer
/// than the other.
pub proof fn lemma_comes_after_strict(a: Seq<u32>, b: Seq<u32>)
    ensures
        !comes_after(a, a),
        !(comes_after(a, b) && comes_after(b, a)),
        a != b ==> comes_after(a, b) || comes_after(b, a),
    decreases a.len(),
{
    if a.len() > 0 {
        lemma_comes_after_strict(a.skip(1), a.skip(1));
        if b.len() > 0 {
            lemma_comes_after_strict(a.skip(1), b.skip(1));
            if a[0] == b[0] && a.skip(1) == b.skip(1) {
                assert(a =~= seq![a[0]] + a.skip(1));
                assert(b =~= seq![b[0]] + b.skip(1));
            }
        }
    } else if b.len() == 0 {
        assert(a =~= b);
    }
}

/// Reads the numbers of a version.
fn read_version(version: &str) -> (numbers: Vec<u32>)
    ensures
        numbers@ == version_numbers(version@),
{
    let chars = chars_of(version);
    let fields = split(&chars, '.');
    let ghost views = field_views(fields@);
    let mut numbers: Vec<u32> = Vec::new();
    let mut i: usize = 0;
    while i < fields.len()
        invariant
            i <= fields.len(),
            views == field_views(fields@),
            numbers@ == numbers_of(views.take(i as int)),
        decreases fields.len() - i,
    {
        assert(views.take(i + 1).drop_last() =~= views.take(i as int));
        assert(views.take(i + 1).last() == fields@[i as int]@);
        match parse_u64(&fields[i]) {
            Some(n) => {
                if n <= 0xffff_ffff {
                    numbers.push(n as u32);
                }
            },
            None => {},
        }
        i += 1;
    }
    assert(views.take(fields.len() as int) =~= views);
    numbers
}

/// Tells whether `a` comes after `b` in dictionary order.
fn list_comes_after(a: &Vec<u32>, b: &Vec<u32>) -> (after: bool)
    ensures
        after == comes_after(a@, b@),
{
    let mut i: usize = 0;
    assert(a@.skip(0) =~= a@ && b@.skip(0) =~= b@);
    while i < a.len() && i < b.len()
        invariant
            i <= a.len(),
            i <= b.len(),
            comes_after(a@, b@) == comes_after(a@.skip(i as int), b@.skip(i as int)),
        decreases a.len() - i,
    {
        if a[i] != b[i] {
            return a[i] > b[i];
        }
        assert(a@.skip(i as int).skip(1) =~= a@.skip(i + 1));
        assert(b@.skip(i as int).skip(1) =~= b@.skip(i + 1));
        i += 1;
    }
    i < a.len()
}

/// Tells whether version `latest` is newer than version `current`.
pub fn compare_versions(latest: &str, current: &str) -> (newer: bool)
    ensures
        newer == is_newer(latest@, current@),
{
    let l = read_version(latest);
    let c = read_version(current);
    list_comes_after(&l, &c)
}

/// The tag of a release without the `v`s that it starts with.
fn version_of_tag(tag: &str) -> (version: String)
    ensures
        version@ == strip_leading(tag@, 'v'),
{
    let chars = chars_of(tag);
    let mut start: usize = 0;
    assert(chars@.skip(0) =~= chars@);
    while start < chars.len() && chars[start] == 'v'
        invariant
            start <= chars.len(),
            strip_leading(chars@, 'v') == strip_leading(chars@.skip(start as int), 'v'),
        decreases chars.len() - start,
    {
        assert(chars@.skip(start as int).skip(1) =~= chars@.skip(start + 1));
        start += 1;
    }
    let mut version = String::new();
    let mut i: usize = start;
    while i < chars.len()
        invariant
            start <= i <= chars.len(),
            version@ == chars@.subrange(start as int, i as int),
        decreases chars.len() - i,
    {
        version.push(chars[i]);
        i += 1;
        assert(chars@.subrange(start as int, i as int) =~= chars@.subrange(
            start as int,
            i - 1,
        ).push(chars@[i - 1]));
    }
    assert(chars@.subrange(start as int, i as int) =~= chars@.skip(start as int));
    version
}

/// True when the release with this tag is newer than this program.
pub open spec fn tag_is_newer(tag: Seq<char>) -> bool {
    is_newer(strip_leading(tag, 'v'), current_version())
}

/// Tells whether the release that was found, if any, is newer than this
/// program, and hands the release on; an empty release where none was found.
pub fn has_update(found: Option<ReleaseInfo>) -> (answer: (bool, ReleaseInfo))
    ensures
        match found {
            Some(info) => answer.0 == tag_is_newer(info.tag_name@) && answer.1 == info,
            None => !answer.0 && answer.1.tag_name@.len() == 0 && answer.1.name@.len() == 0
                && answer.1.body@.len() == 0 && answer.1.html_url@.len() == 0,
        },
{
    match found {
        Some(info) => {
            let latest = version_of_tag(info.tag_name.as_str());
            (compare_versions(latest.as_str(), CURRENT_VERSION), info)
        },
        None => (false, ReleaseInfo::default()),
    }
}

/// The outcome of a check for updates: the release that was found, as an
/// update where it is newer than this program, or an error where none was
/// found.
pub fn update_result(found: Option<ReleaseInfo>) -> (result: UpdateCheckResult)
    ensures
        match found {
            Some(info) => if tag_is_newer(info.tag_name@) {
                result == UpdateCheckResult::HasUpdate(info)
            } else {
                result == UpdateCheckResult::NoUpdate(info)
            },
            None => result matches UpdateCheckResult::Error(message) && message@
                == no_release_message(),
        },
{
    match found {
        Some(info) => {
            let latest = version_of_tag(info.tag_name.as_str());
            if compare_versions(latest.as_str(), CURRENT_VERSION) {
                UpdateCheckResult::HasUpdate(info)
            } else {
                UpdateCheckResult::NoUpdate(info)
            }
        },
        None => UpdateCheckResult::Error(
            "\u{65e0}\u{6cd5}\u{83b7}\u{53d6}\u{7248}\u{672c}\u{4fe1}\u{606f}".to_owned(),
        ),
    }
}

} // verus!
