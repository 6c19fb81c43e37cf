//! Texts for the user: a duration in words and release notes without markup.

use crate::text::{all_digits, chars_of, decimal_value, matches_at, parse_unsigned, string_of};
use vstd::prelude::*;

verus! {

/// The character of a digit below ten.
pub open spec fn digit_char(d: nat) -> char {
    ((0x30 + d) as u8) as char
}

/// A number in base ten, without leading zeros.
pub open spec fn decimal_text(n: nat) -> Seq<char>
    decreases n,
{
    if n < 10 {
        seq![digit_char(n)]
    } else {
        decimal_text(n / 10).push(digit_char(n % 10))
    }
}

/// A number written in base ten reads back as itself.
pub proof fn lemma_decimal_text_reads_back(n: nat, max: nat)
    ensures
        decimal_text(n).len() > 0,
        all_digits(decimal_text(n)),
        decimal_value(decimal_text(n)) == n,
        n <= max ==> parse_unsigned(decimal_text(n), max) == Some(n),
    decreases n,
{
    let text = decimal_text(n);
    if n < 10 {
        assert(text.drop_last() =~= Seq::<char>::empty());
        assert(decimal_value(text.drop_last()) == 0);
        assert(text.last() == digit_char(n));
    } else {
        lemma_decimal_text_reads_back(n / 10, max);
        assert(text.drop_last() =~= decimal_text(n / 10));
        assert(text.last() == digit_char(n % 10));
        assert forall|i: int| 0 <= i < text.len() implies crate::text::is_digit(
            #[trigger] text[i],
        ) by {
            if i < text.len() - 1 {
                assert(text[i] == decimal_text(n / 10)[i]);
            }
        }
    }
    assert(text[0] != '+');
}

/// Appends a number in base ten to a text.
pub fn push_decimal(out: &mut String, n: u64)
    ensures
        final(out)@ == old(out)@ + decimal_text(n as nat),
    decreases n,
{
    if n >= 10 {
        push_decimal(out, n / 10);
    }
    let digit: u8 = (n % 10) as u8;
    out.push((0x30 + digit) as char);
    assert(final(out)@ =~= old(out)@ + decimal_text(n as nat));
}

/// A duration of so many seconds in hours, minutes and seconds, each number
/// followed by its unit.
pub open spec fn duration_text(seconds: nat) -> Seq<char> {
    decimal_text(seconds / 3600) + "\u{5c0f}\u{65f6}"@ + decimal_text((seconds % 3600) / 60)
        + "\u{5206}"@ + decimal_text(seconds % 60) + "\u{79d2}"@
}

/// Writes a duration in hours, minutes and seconds.
pub fn format_duration(seconds: u64) -> (text: String)
    ensures
        text@ == duration_text(seconds as nat),
{
    let hours = seconds / 3600;
    let minutes = (seconds % 3600) / 60;
    let secs = seconds % 60;
    let mut text = String::new();
    push_decimal(&mut text, hours);
    text.append("\u{5c0f}\u{65f6}");
    push_decimal(&mut text, minutes);
    text.append("\u{5206}");
    push_decimal(&mut text, secs);
    text.append("\u{79d2}");
    assert(text@ =~= duration_text(seconds as nat));
    text
}

/// Bytes in a kilobyte.
pub const KILOBYTE: u64 = 1024;

/// Bytes in a megabyte.
pub const MEGABYTE: u64 = 1048576;

/// Bytes in a gigabyte.
pub const GIGABYTE: u64 = 1073741824;

/// The unit in which an amount of bytes is shown.
#[derive(Clone, Copy, Debug, PartialEq, Eq, Structural)]
pub enum SizeUnit {
    Bytes,
    Kilobytes,
    Megabytes,
    Gigabytes,
}

impl SizeUnit {
    /// How many bytes make one of this unit.
    pub open spec fn size(self) -> u64 {
        match self {
            SizeUnit::Bytes => 1,
            SizeUnit::Kilobytes => KILOBYTE,
            SizeUnit::Megabytes => MEGABYTE,
            SizeUnit::Gigabytes => GIGABYTE,
        }
    }

    /// The unit's abbreviation.
    pub open spec fn name(self) -> Seq<char> {
        match self {
            SizeUnit::Bytes => "B"@,
            SizeUnit::Kilobytes => "KB"@,
            SizeUnit::Megabytes => "MB"@,
            SizeUnit::Gigabytes => "GB"@,
        }
    }

    /// The number of bytes that make one of this unit.
    pub fn divisor(self) -> (bytes: u64)
        ensures
            bytes == self.size(),
            bytes > 0,
    {
        match self {
            SizeUnit::Bytes => 1,
            SizeUnit::Kilobytes => KILOBYTE,
            SizeUnit::Megabytes => MEGABYTE,
            SizeUnit::Gigabytes => GIGABYTE,
        }
    }

    /// The abbreviation to print after an amount.
    pub fn label(self) -> (label: &'static str)
        ensures
            label@ == self.name(),
    {
        match self {
            SizeUnit::Bytes => "B",
            SizeUnit::Kilobytes => "KB",
            SizeUnit::Megabytes => "MB",
            SizeUnit::Gigabytes => "GB",
        }
    }
}

/// The largest unit that an amount of bytes fills at least once; bytes for
/// an amount below a kilobyte.
pub open spec fn unit_of(bytes: u64) -> SizeUnit {
    if bytes >= GIGABYTE {
        SizeUnit::Gigabytes
    } else if bytes >= MEGABYTE {
        SizeUnit::Megabytes
    } else if bytes >= KILOBYTE {
        SizeUnit::Kilobytes
    } else {
        SizeUnit::Bytes
    }
}

/// Picks the unit in which to show an amount of bytes.
pub fn size_unit(bytes: u64) -> (unit: SizeUnit)
    ensures
        unit == unit_of(bytes),
        bytes > 0 ==> unit.size() <= bytes,
        unit != SizeUnit::Gigabytes ==> bytes < 1024 * unit.size(),
{
    if bytes >= GIGABYTE {
        SizeUnit::Gigabytes
    } else if bytes >= MEGABYTE {
        SizeUnit::Megabytes
    } else if bytes >= KILOBYTE {
        SizeUnit::Kilobytes
    } else {
        SizeUnit::Bytes
    }
}

/// `s` with every occurrence of `from` replaced by `to`, the occurrences
/// taken from left to right and never overlapping.
pub open spec fn replaced(s: Seq<char>, from: Seq<char>, to: Seq<char>) -> Seq<char>
    recommends
        from.len() > 0,
    decreases s.len(),
{
    if from.len() == 0 || s.len() < from.len() {
        s
    } else if s.take(from.len() as int) == from {
        to + replaced(s.skip(from.len() as int), from, to)
    } else {
        seq![s[0]] + replaced(s.skip(1), from, to)
    }
}

/// True for the characters that Unicode calls white space.
pub open spec fn is_space(c: char) -> bool {
    let code = c as u32;
    ||| 0x09 <= code <= 0x0d
    ||| code == 0x20
    ||| code == 0x85
    ||| code == 0xa0
    ||| code == 0x1680
    ||| 0x2000 <= code <= 0x200a
    ||| code == 0x2028
    ||| code == 0x2029
    ||| code == 0x202f
    ||| code == 0x205f
    ||| code == 0x3000
}

/// `s` without the white space that it starts with.
pub open spec fn trim_start(s: Seq<char>) -> Seq<char>
    decreases s.len(),
{
    if s.len() > 0 && is_space(s[0]) {
        trim_start(s.skip(1))
    } else {
        s
    }
}

/// `s` without the white space that it ends with.
pub open spec fn trim_end(s: Seq<char>) -> Seq<char>
    decreases s.len(),
{
    if s.len() > 0 && is_space(s.last()) {
        trim_end(s.drop_last())
    } else {
        s
    }
}

/// `s` without the white space at either end.
pub open spec fn trimmed(s: Seq<char>) -> Seq<char> {
    trim_end(trim_start(s))
}

/// Release notes without their markup: headings of three, two and one `#`
/// and list dashes become bullets, in that order, and white space at either
/// end goes.
pub open spec fn plain_notes(notes: Seq<char>) -> Seq<char> {
    let a = replaced(notes, "### "@, "\u{25b8} "@);
    let b = replaced(a, "## "@, "\u{25a0} "@);
    let c = replaced(b, "# "@, "\u{25cf} "@);
    let d = replaced(c, "- "@, "  \u{2022} "@);
    trimmed(d)
}

/// Tells whether a character is white space.
pub fn char_is_space(c: char) -> (space: bool)
    ensures
        space == is_space(c),
{
    let code: u32 = c as u32;
    (0x09 <= code && code <= 0x0d) || code == 0x20 || code == 0x85 || code == 0xa0 || code
        == 0x1680 || (0x2000 <= code && code <= 0x200a) || code == 0x2028 || code == 0x2029
        || code == 0x202f || code == 0x205f || code == 0x3000
}

/// Replaces every occurrence of `from` in `text` by `to`.
fn replace(text: &Vec<char>, from: &Vec<char>, to: &Vec<char>) -> (out: Vec<char>)
    requires
        from@.len() > 0,
    ensures
        out@ == replaced(text@, from@, to@),
{
    let mut out: Vec<char> = Vec::new();
    let mut pos: usize = 0;
    assert(text@.skip(0) =~= text@);
    while pos < text.len()
        invariant
            pos <= text.len(),
            from@.len() > 0,
            replaced(text@, from@, to@) == out@ + replaced(text@.skip(pos as int), from@, to@),
        decreases text.len() - pos,
    {
        let ghost rest = text@.skip(pos as int);
        if text.len() - pos >= from.len() && matches_at(text, from, pos) {
            assert(rest.take(from.len() as int) =~= text@.subrange(
                pos as int,
                pos + from.len(),
            ));
            assert(rest.skip(from.len() as int) =~= text@.skip(pos + from.len()));
            let ghost before = out@;
            let mut j: usize = 0;
            while j < to.len()
                invariant
                    j <= to.len(),
                    out@ == before + to@.take(j as int),
                decreases to.len() - j,
            {
                out.push(to[j]);
                j += 1;
                assert(to@.take(j as int) =~= to@.take(j - 1).push(to@[j - 1]));
            }
            assert(to@.take(to.len() as int) =~= to@);
            pos += from.len();
        } else {
            if text.len() - pos >= from.len() {
                assert(rest.take(from.len() as int) =~= text@.subrange(
                    pos as int,
                    pos + from.len(),
                ));
            }
            assert(rest.skip(1) =~= text@.skip(pos + 1));
            assert(rest.len() < from.len() ==> replaced(rest.skip(1), from@, to@) == rest.skip(1));
            assert(rest =~= seq![rest[0]] + rest.skip(1));
            out.push(text[pos]);
            pos += 1;
        }
    }
    out
}

/// Takes the white space off both ends of `text`.
fn trim(text: &Vec<char>) -> (out: Vec<char>)
    ensures
        out@ == trimmed(text@),
{
    let mut start: usize = 0;
    assert(text@.skip(0) =~= text@);
    while start < text.len() && char_is_space(text[start])
        invariant
            start <= text.len(),
            trim_start(text@) == trim_start(text@.skip(start as int)),
        decreases text.len() - start,
    {
        assert(text@.skip(start as int).skip(1) =~= text@.skip(start + 1));
        start += 1;
    }
    let mut end: usize = text.len();
    assert(text@.subrange(start as int, end as int) =~= text@.skip(start as int));
    while end > start && char_is_space(text[end - 1])
        invariant
            start <= end <= text.len(),
            trimmed(text@) == trim_end(text@.subrange(start as int, end as int)),
        decreases end,
    {
        assert(text@.subrange(start as int, end as int).drop_last() =~= text@.subrange(
            start as int,
            end - 1,
        ));
        end -= 1;
    }
    let mut out: Vec<char> = Vec::new();
    let mut i: usize = start;
    while i < end
        invariant
            start <= i <= end <= text.len(),
            out@ == text@.subrange(start as int, i as int),
        decreases end - i,
    {
        out.push(text[i]);
        i += 1;
        assert(text@.subrange(start as int, i as int) =~= text@.subrange(
            start as int,
            i - 1,
        ).push(text@[i - 1]));
    }
    out
}

/// Turns the markup of release notes into bullets.
pub fn simplify_release_notes(notes: &str) -> (plain: String)
    ensures
        plain@ == plain_notes(notes@),
{
    proof {
        reveal_strlit("### ");
        reveal_strlit("## ");
        reveal_strlit("# ");
        reveal_strlit("- ");
    }
    let text = chars_of(notes);
    let a = replace(&text, &chars_of("### "), &chars_of("\u{25b8} "));
    let b = replace(&a, &chars_of("## "), &chars_of("\u{25a0} "));
    let c = replace(&b, &chars_of("# "), &chars_of("\u{25cf} "));
    let d = replace(&c, &chars_of("- "), &chars_of("  \u{2022} "));
    string_of(&trim(&d))
}

} // verus!
