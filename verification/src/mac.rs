//! Hardware (MAC) addresses and the MAC override of a connection.

use vstd::prelude::*;
use crate::text::{digit_char, str_eq};

verus! {

/// A 48-bit hardware address.
#[derive(Clone, Copy, Debug, PartialEq, Eq)]
pub struct MacAddr6 {
    pub bytes: [u8; 6],
}

/// The MAC address that a connection asks for.
#[derive(Clone, Copy, Debug, PartialEq, Eq)]
pub enum MacAddress {
    /// This very address.
    MacAddress(MacAddr6),
    Preserve,
    Permanent,
    Random,
    Stable,
    /// Nothing is asked for.
    Unset,
}

/// The address that `macaddr` reads from `s`, if `s` is a 48-bit hardware
/// address in one of the notations it knows.
pub uninterp spec fn parsed_mac(s: Seq<char>) -> Option<MacAddr6>;

/// The upper-case hexadecimal digit for `n`, meaningful for `n < 16`.
pub open spec fn hex_upper(n: nat) -> char {
    if n < 10 {
        digit_char(n)
    } else if n == 10 {
        'A'
    } else if n == 11 {
        'B'
    } else if n == 12 {
        'C'
    } else if n == 13 {
        'D'
    } else if n == 14 {
        'E'
    } else {
        'F'
    }
}

/// Six pairs of upper-case hexadecimal digits with colons between them.
pub open spec fn mac_text(bytes: Seq<u8>) -> Seq<char> {
    Seq::new(
        17,
        |i: int|
            if i % 3 == 2 {
                ':'
            } else if i % 3 == 0 {
                hex_upper((bytes[i / 3] / 16) as nat)
            } else {
                hex_upper((bytes[i / 3] % 16) as nat)
            },
    )
}

impl MacAddr6 {
    /// Reads a hardware address from text; `None` when the text is none.
    pub fn parse(s: &str) -> (r: Option<MacAddr6>)
        ensures
            r == parsed_mac(s@),
    {
        parse_mac(s)
    }

    /// The canonical text form, `12:34:56:78:9A:BC`.
    pub fn to_string(&self) -> (r: String)
        ensures
            r@ == mac_text(self.bytes@),
    {
        format_mac(self)
    }
}

impl MacAddress {
    /// What a textual MAC setting stands for.
    pub open spec fn spec_from_str(s: Seq<char>) -> Option<MacAddress> {
        if s == "preserve"@ {
            Some(MacAddress::Preserve)
        } else if s == "permanent"@ {
            Some(MacAddress::Permanent)
        } else if s == "random"@ {
            Some(MacAddress::Random)
        } else if s == "stable"@ {
            Some(MacAddress::Stable)
        } else if s == ""@ {
            Some(MacAddress::Unset)
        } else {
            match parsed_mac(s) {
                Some(m) => Some(MacAddress::MacAddress(m)),
                None => None,
            }
        }
    }

    /// What an optional MAC setting stands for: nothing set means `Unset`.
    pub open spec fn spec_from_setting(value: Option<String>) -> Option<MacAddress> {
        match value {
            Some(s) => Self::spec_from_str(s@),
            None => Some(MacAddress::Unset),
        }
    }

    /// Reads a MAC setting: one of the keywords `preserve`, `permanent`,
    /// `random`, `stable`, the empty string, or a hardware address.
    /// `None` when the text is none of these.
    pub fn from_str(s: &str) -> (r: Option<MacAddress>)
        ensures
            r == Self::spec_from_str(s@),
    {
        if str_eq(s, "preserve") {
            Some(MacAddress::Preserve)
        } else if str_eq(s, "permanent") {
            Some(MacAddress::Permanent)
        } else if str_eq(s, "random") {
            Some(MacAddress::Random)
        } else if str_eq(s, "stable") {
            Some(MacAddress::Stable)
        } else if str_eq(s, "") {
            Some(MacAddress::Unset)
        } else {
            match MacAddr6::parse(s) {
                Some(m) => Some(MacAddress::MacAddress(m)),
                None => None,
            }
        }
    }

    /// Reads an optional MAC setting.
    pub fn from_setting(value: &Option<String>) -> (r: Option<MacAddress>)
        ensures
            r == Self::spec_from_setting(*value),
    {
        match value {
            Some(s) => Self::from_str(s.as_str()),
            None => Some(MacAddress::Unset),
        }
    }

    /// The text of the setting.
    pub open spec fn spec_text(&self) -> Seq<char> {
        match self {
            MacAddress::MacAddress(m) => mac_text(m.bytes@),
            MacAddress::Preserve => "preserve"@,
            MacAddress::Permanent => "permanent"@,
            MacAddress::Random => "random"@,
            MacAddress::Stable => "stable"@,
            MacAddress::Unset => ""@,
        }
    }

    /// The text of the setting: the keyword, the address, or nothing.
    pub fn to_string(&self) -> (r: String)
        ensures
            r@ == self.spec_text(),
    {
        match self {
            MacAddress::MacAddress(m) => m.to_string(),
            MacAddress::Preserve => "preserve".to_owned(),
            MacAddress::Permanent => "permanent".to_owned(),
            MacAddress::Random => "random".to_owned(),
            MacAddress::Stable => "stable".to_owned(),
            MacAddress::Unset => "".to_owned(),
        }
    }
}

/// Trusted: `macaddr::MacAddr6`'s `FromStr`. The result is named.
#[verifier::external_body]
fn parse_mac(s: &str) -> (r: Option<MacAddr6>)
    ensures
        r == parsed_mac(s@),
{
    match s.parse::<macaddr::MacAddr6>() {
        Ok(m) => Some(MacAddr6 { bytes: m.into_array() }),
        Err(_) => None,
    }
}

/// Trusted: `Display` of `macaddr::MacAddr6` in its default format, which
/// prints each byte as two upper-case hexadecimal digits, colons between.
#[verifier::external_body]
fn format_mac(m: &MacAddr6) -> (r: String)
    ensures
        r@ == mac_text(m.bytes@),
{
    macaddr::MacAddr6::from(m.bytes).to_string()
}

} // verus!
