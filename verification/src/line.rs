//! One line of a decklist: an optional quantity, then a card name.

use vstd::prelude::*;
use crate::error::ProxygenError;
use crate::error::ErrorView;
use crate::pattern::captures;
use crate::pattern::regex_captures;

verus! {

/// The grammar of a line: white space, the quantity in decimal digits, an
/// `x`, white space (each of them optional), then a name that holds no digit
/// and ends before the line's trailing white space. The first capture group
/// is the quantity, the second the name.
pub const LINE_PATTERN: &'static str = "^\\s*(\\d+)?x?\\s*(\\D*?)\\s*$";

/// What a line asks for: so many copies, at least one, of the card that the
/// name, as it was written, stands for.
#[derive(Debug, Clone, PartialEq, Eq)]
pub struct ParsedEntry {
    pub quantity: u64,
    pub raw_name: String,
}

impl ParsedEntry {
    /// Whether the entry asks for at least one copy, as every entry read
    /// from a line does.
    pub open spec fn well_formed(&self) -> bool {
        self.quantity >= 1
    }
}

impl View for ParsedEntry {
    type V = (u64, Seq<char>);

    open spec fn view(&self) -> (u64, Seq<char>) {
        (self.quantity, self.raw_name@)
    }
}

/// Whether `c` is one of the digits `0` to `9`.
pub open spec fn is_digit(c: char) -> bool {
    '0' <= c <= '9'
}

/// Whether `s` holds nothing but digits.
pub open spec fn all_digits(s: Seq<char>) -> bool {
    forall|i: int| 0 <= i < s.len() ==> is_digit(#[trigger] s[i])
}

/// The number that the digits of `s` write in base ten.
pub open spec fn decimal_value(s: Seq<char>) -> nat
    decreases s.len(),
{
    if s.len() == 0 {
        0
    } else {
        decimal_value(s.drop_last()) * 10 + (s.last() as nat - '0' as nat) as nat
    }
}

/// The quantity that a line's first capture group stands for: one where the
/// line gives none; the number written, cut off at `u64::MAX`, where the
/// group is made of digits and the number is not zero; and nothing where the
/// group holds anything else. A quantity is never zero.
pub open spec fn quantity_of(written: Option<Seq<char>>) -> Option<u64> {
    match written {
        None => Some(1),
        Some(digits) => if digits.len() > 0 && all_digits(digits) && decimal_value(digits) > 0 {
            if decimal_value(digits) <= u64::MAX {
                Some(decimal_value(digits) as u64)
            } else {
                Some(u64::MAX)
            }
        } else {
            None
        },
    }
}

/// The entry that the capture groups of a line stand for, where they stand
/// for one: the groups are the whole match, the quantity and the name.
pub open spec fn entry_of(groups: Seq<Option<Seq<char>>>) -> Option<(u64, Seq<char>)> {
    if groups.len() < 3 {
        None
    } else {
        match (quantity_of(groups[1]), groups[2]) {
            (Some(quantity), Some(name)) => Some((quantity, name)),
            _ => None,
        }
    }
}

/// The entry that `line` stands for, where it is one.
pub open spec fn line_entry(line: Seq<char>) -> Option<(u64, Seq<char>)> {
    match regex_captures(LINE_PATTERN@, line) {
        Some(groups) => entry_of(groups),
        None => None,
    }
}

/// Reads a quantity written in digits: the number, cut off at `u64::MAX`,
/// or nothing where `digits` is empty, holds anything but digits, or writes
/// zero.
pub fn parse_quantity(digits: &str) -> (quantity: Option<u64>)
    ensures
        quantity == quantity_of(Some(digits@)),
{
    let mut value: u64 = 0;
    let mut any = false;
    for c in it: digits.chars()
        invariant
            it.seq() == digits@,
            any == (it.index() > 0),
            all_digits(it.seq().take(it.index() as int)),
            decimal_value(it.seq().take(it.index() as int)) <= u64::MAX ==> value
                == decimal_value(it.seq().take(it.index() as int)),
            decimal_value(it.seq().take(it.index() as int)) > u64::MAX ==> value == u64::MAX,
    {
        assert(it.seq().take(it.index() + 1).drop_last() == it.seq().take(it.index() as int));
        if c < '0' || c > '9' {
            return None;
        }
        let digit: u64 = c as u64 - '0' as u64;
        if value > (u64::MAX - digit) / 10 {
            value = u64::MAX;
        } else {
            value = value * 10 + digit;
        }
        any = true;
    }
    assert(digits@.take(digits@.len() as int) == digits@);
    if any && value > 0 {
        Some(value)
    } else {
        None
    }
}

/// The entry that the capture groups of a line stand for.
pub fn entry_of_groups(groups: &Vec<Option<String>>) -> (entry: Option<ParsedEntry>)
    ensures
        match entry {
            Some(found) => entry_of(groups.deep_view()) == Some(found@) && found.well_formed(),
            None => entry_of(groups.deep_view()) is None,
        },
{
    if groups.len() < 3 {
        return None;
    }
    let quantity = match &groups[1] {
        Some(digits) => parse_quantity(digits.as_str()),
        None => Some(1),
    };
    match (quantity, &groups[2]) {
        (Some(quantity), Some(name)) => Some(ParsedEntry { quantity, raw_name: name.clone() }),
        _ => None,
    }
}

/// Reads one line, which the caller has trimmed: the entry that it stands
/// for, or the line itself in the error where it is no entry.
pub fn tokenize(line: &str) -> (entry: Result<ParsedEntry, ProxygenError>)
    ensures
        match entry {
            Ok(found) => line_entry(line@) == Some(found@) && found.well_formed(),
            Err(error) => line_entry(line@) is None && error@ == ErrorView::DecklistParseError(
                line@,
            ),
        },
{
    let entry = match captures(LINE_PATTERN, line) {
        Some(groups) => entry_of_groups(&groups),
        None => None,
    };
    match entry {
        Some(found) => Ok(found),
        None => Err(ProxygenError::DecklistParseError(line.to_owned())),
    }
}

} // verus!
