//! Infiniband records.

use vstd::prelude::*;
use crate::model::{
    ConnectionConfig, ConnectionConfigView, InfinibandConfig, InfinibandConfigView,
    InfinibandTransportMode,
};
use crate::text::str_eq;

verus! {

#[derive(Clone, Debug, PartialEq, Eq, Default)]
pub struct Infiniband {
    pub mode: Option<String>,
    pub multicast: Option<String>,
}

/// A partition of an infiniband device.
#[derive(Clone, Debug, PartialEq, Eq, Default)]
pub struct InfinibandChild {
    /// The infiniband device that the partition belongs to.
    pub device: String,
    pub pkey: u16,
    pub mode: Option<String>,
    pub multicast: Option<String>,
}

/// The transport mode that a keyword stands for.
pub open spec fn spec_mode_from_str(s: Seq<char>) -> Option<InfinibandTransportMode> {
    if s == "datagram"@ {
        Some(InfinibandTransportMode::Datagram)
    } else if s == "connected"@ {
        Some(InfinibandTransportMode::Connected)
    } else {
        None
    }
}

/// The transport mode of a record: datagram unless it names one.
pub open spec fn spec_transport_mode(mode: Option<String>) -> Option<InfinibandTransportMode> {
    match mode {
        Some(s) => spec_mode_from_str(s@),
        None => Some(InfinibandTransportMode::Datagram),
    }
}

fn transport_mode(mode: &Option<String>) -> (r: Option<InfinibandTransportMode>)
    ensures
        r == spec_transport_mode(*mode),
{
    match mode {
        Some(s) => {
            if str_eq(s.as_str(), "datagram") {
                Some(InfinibandTransportMode::Datagram)
            } else if str_eq(s.as_str(), "connected") {
                Some(InfinibandTransportMode::Connected)
            } else {
                None
            }
        },
        None => Some(InfinibandTransportMode::Datagram),
    }
}

impl Infiniband {
    /// The configuration of the device, or `None` where the mode is neither
    /// `datagram` nor `connected`.
    pub open spec fn spec_config(&self) -> Option<ConnectionConfigView> {
        match spec_transport_mode(self.mode) {
            Some(transport_mode) => Some(
                ConnectionConfigView::Infiniband(
                    InfinibandConfigView { p_key: None, parent: None, transport_mode },
                ),
            ),
            None => None,
        }
    }

    /// The infiniband configuration with the transport mode of the record.
    pub fn to_config(&self) -> (r: Option<ConnectionConfig>)
        ensures
            r.deep_view() == self.spec_config(),
    {
        match transport_mode(&self.mode) {
            Some(transport_mode) => Some(
                ConnectionConfig::Infiniband(
                    InfinibandConfig { p_key: None, parent: None, transport_mode },
                ),
            ),
            None => None,
        }
    }
}

impl InfinibandChild {
    /// The configuration of the partition, or `None` where the mode is
    /// neither `datagram` nor `connected`.
    pub open spec fn spec_config(&self) -> Option<ConnectionConfigView> {
        match spec_transport_mode(self.mode) {
            Some(transport_mode) => Some(
                ConnectionConfigView::Infiniband(
                    InfinibandConfigView {
                        p_key: Some(self.pkey as i32),
                        parent: Some(self.device@),
                        transport_mode,
                    },
                ),
            ),
            None => None,
        }
    }

    /// The infiniband configuration of the partition: its key, its parent
    /// device and the transport mode of the record.
    pub fn to_config(&self) -> (r: Option<ConnectionConfig>)
        ensures
            r.deep_view() == self.spec_config(),
    {
        match transport_mode(&self.mode) {
            Some(transport_mode) => Some(
                ConnectionConfig::Infiniband(
                    InfinibandConfig {
                        p_key: Some(self.pkey as i32),
                        parent: Some(self.device.clone()),
                        transport_mode,
                    },
                ),
            ),
            None => None,
        }
    }
}

/// The value of a hexadecimal digit, upper or lower case.
pub open spec fn hex_digit(c: char) -> Option<nat> {
    if '0' <= c && c <= '9' {
        Some((c as u32 - '0' as u32) as nat)
    } else if 'a' <= c && c <= 'f' {
        Some((c as u32 - 'a' as u32 + 10) as nat)
    } else if 'A' <= c && c <= 'F' {
        Some((c as u32 - 'A' as u32 + 10) as nat)
    } else {
        None
    }
}

/// Whether `s` holds hexadecimal digits only.
pub open spec fn all_hex(s: Seq<char>) -> bool {
    forall|i: int| 0 <= i < s.len() ==> hex_digit(#[trigger] s[i]) is Some
}

/// The number that the hexadecimal digits `s` stand for; a character that
/// is no digit counts as zero.
pub open spec fn hex_number(s: Seq<char>) -> nat
    decreases s.len(),
{
    if s.len() == 0 {
        0
    } else {
        16 * hex_number(s.drop_last()) + match hex_digit(s.last()) {
            Some(d) => d,
            None => 0,
        }
    }
}

/// `s` without the marks `0x` in front of it, however many there are.
pub open spec fn without_hex_marks(s: Seq<char>) -> Seq<char>
    decreases s.len(),
{
    if s.len() >= 2 && s[0] == '0' && s[1] == 'x' {
        without_hex_marks(s.skip(2))
    } else {
        s
    }
}

/// The partition key that a text stands for: hexadecimal digits, behind
/// any number of marks `0x` and behind a plus sign where there is one,
/// that make a number of 16 bits. There is none where no digit is left,
/// where a character is no digit, and where the number is too large.
pub open spec fn spec_pkey(text: Seq<char>) -> Option<u16> {
    let rest = without_hex_marks(text);
    let digits = if rest.len() > 0 && rest[0] == '+' {
        rest.skip(1)
    } else {
        rest
    };
    spec_hex_u16(digits)
}

/// The number of 16 bits that the hexadecimal digits `digits` stand for.
pub open spec fn spec_hex_u16(digits: Seq<char>) -> Option<u16> {
    if digits.len() > 0 && all_hex(digits) && hex_number(digits) <= u16::MAX {
        Some(hex_number(digits) as u16)
    } else {
        None
    }
}

/// The number of a longer run of digits is no smaller.
proof fn lemma_hex_number_grows(s: Seq<char>, n: int)
    requires
        0 <= n <= s.len(),
    ensures
        hex_number(s.take(n)) <= hex_number(s),
    decreases s.len() - n,
{
    if n < s.len() {
        lemma_hex_number_grows(s, n + 1);
        assert(s.take(n + 1).drop_last() =~= s.take(n));
    } else {
        assert(s.take(n) =~= s);
    }
}

fn hex_digit_of(c: char) -> (r: Option<u32>)
    ensures
        match r {
            Some(d) => hex_digit(c) == Some(d as nat) && d < 16,
            None => hex_digit(c) is None,
        },
{
    if '0' <= c && c <= '9' {
        Some(c as u32 - '0' as u32)
    } else if 'a' <= c && c <= 'f' {
        Some(c as u32 - 'a' as u32 + 10)
    } else if 'A' <= c && c <= 'F' {
        Some(c as u32 - 'A' as u32 + 10)
    } else {
        None
    }
}

/// Reads a partition key as the legacy configuration writes it: in
/// hexadecimal digits, mostly behind the mark `0x`.
pub fn parse_pkey(text: &str) -> (r: Option<u16>)
    ensures
        r == spec_pkey(text@),
{
    let n = text.unicode_len();
    let mut start: usize = 0;
    assert(text@.skip(0) =~= text@);
    while n - start >= 2 && text.get_char(start) == '0' && text.get_char(start + 1) == 'x'
        invariant
            start <= n,
            n == text@.len(),
            without_hex_marks(text@) == without_hex_marks(text@.skip(start as int)),
        decreases n - start,
    {
        assert(text@.skip(start as int).skip(2) =~= text@.skip(start + 2));
        start = start + 2;
    }
    let ghost rest = text@.skip(start as int);
    assert(without_hex_marks(rest) == rest);
    if start < n && text.get_char(start) == '+' {
        start = start + 1;
    }
    let ghost digits = text@.skip(start as int);
    assert(digits =~= if rest.len() > 0 && rest[0] == '+' {
        rest.skip(1)
    } else {
        rest
    });
    assert(spec_pkey(text@) == spec_hex_u16(digits));
    if start == n {
        return None;
    }
    let mut value: u32 = 0;
    let mut i: usize = start;
    assert(digits.take(0) =~= Seq::empty());
    while i < n
        invariant
            start <= i <= n,
            n == text@.len(),
            digits == text@.skip(start as int),
            all_hex(digits.take(i - start)),
            value == hex_number(digits.take(i - start)),
            value <= u16::MAX,
            spec_pkey(text@) == spec_hex_u16(digits),
        decreases n - i,
    {
        let ghost upto = digits.take(i - start + 1);
        proof {
            assert(upto.drop_last() =~= digits.take(i - start));
            assert(upto.last() == text@[i as int]);
            assert(digits[i - start] == text@[i as int]);
        }
        match hex_digit_of(text.get_char(i)) {
            Some(d) => {
                value = 16 * value + d;
                assert(value == hex_number(upto));
                if value > 0xffff {
                    proof {
                        lemma_hex_number_grows(digits, i - start + 1);
                    }
                    return None;
                }
                assert forall|k: int| 0 <= k < upto.len() implies hex_digit(#[trigger] upto[k]) is Some by {
                    if k < upto.len() - 1 {
                        assert(upto[k] == digits.take(i - start)[k]);
                    }
                }
            },
            None => {
                assert(hex_digit(digits[i - start]) is None);
                return None;
            },
        }
        i = i + 1;
    }
    assert(digits.take(n - start) =~= digits);
    Some(value as u16)
}

} // verus!
