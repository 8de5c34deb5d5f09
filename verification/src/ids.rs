//! UUIDs as 128-bit numbers and as text.
use uuid::Uuid;
use vstd::prelude::*;
use crate::text::{all_hex, is_hex_digit, same_ignoring_case};

verus! {

/// The value of a hexadecimal digit in either case.
pub open spec fn hex_digit_value(c: char) -> nat {
    if '0' <= c <= '9' {
        (c as nat - '0' as nat) as nat
    } else if 'a' <= c <= 'f' {
        (c as nat - 'a' as nat + 10) as nat
    } else {
        (c as nat - 'A' as nat + 10) as nat
    }
}

/// The number that hexadecimal digits denote.
pub open spec fn hex_value(s: Seq<char>) -> nat
    decreases s.len(),
{
    if s.len() == 0 {
        0
    } else {
        hex_value(s.drop_last()) * 16 + hex_digit_value(s.last())
    }
}

pub open spec fn hex_char(d: nat) -> char {
    if d < 10 {
        ('0' as nat + d) as char
    } else {
        ('a' as nat + d - 10) as char
    }
}

/// The last `n` hexadecimal digits of `v`, in lower case.
pub open spec fn hex_digits(v: nat, n: nat) -> Seq<char>
    decreases n,
{
    if n == 0 {
        Seq::empty()
    } else {
        hex_digits(v / 16, (n - 1) as nat).push(hex_char(v % 16))
    }
}

/// 32 digits in groups of 8, 4, 4, 4 and 12 with hyphens between them.
pub open spec fn hyphenated(d: Seq<char>) -> Seq<char> {
    d.subrange(0, 8) + seq!['-'] + d.subrange(8, 12) + seq!['-'] + d.subrange(12, 16) + seq!['-']
        + d.subrange(16, 20) + seq!['-'] + d.subrange(20, 32)
}

/// The characters of a hyphenated UUID that are not at the places of hyphens.
pub open spec fn unhyphenated(s: Seq<char>) -> Seq<char> {
    s.subrange(0, 8) + s.subrange(9, 13) + s.subrange(14, 18) + s.subrange(19, 23) + s.subrange(
        24,
        36,
    )
}

/// A UUID as text: lower case, hyphenated.
pub open spec fn uuid_text(id: u128) -> Seq<char> {
    hyphenated(hex_digits(id as nat, 32))
}

pub open spec fn hyphenated_value(s: Seq<char>) -> Option<u128> {
    if s.len() == 36 && s[8] == '-' && s[13] == '-' && s[18] == '-' && s[23] == '-' && all_hex(
        unhyphenated(s),
    ) {
        Some(hex_value(unhyphenated(s)) as u128)
    } else {
        None
    }
}

/// The UUID that a text denotes: 32 digits, the hyphenated form, that form in
/// braces, or that form after `urn:uuid:`. Letters may be in either case.
pub open spec fn uuid_value(s: Seq<char>) -> Option<u128> {
    if s.len() == 32 {
        if all_hex(s) {
            Some(hex_value(s) as u128)
        } else {
            None
        }
    } else if s.len() == 36 {
        hyphenated_value(s)
    } else if s.len() == 38 && s[0] == '{' && s[37] == '}' {
        hyphenated_value(s.subrange(1, 37))
    } else if s.len() == 45 && same_ignoring_case(s.take(9), "urn:uuid:"@) {
        hyphenated_value(s.skip(9))
    } else {
        None
    }
}

/// `uuid::Uuid::parse_str` on a text, the UUID taken as its 128-bit value. It
/// reads the simple, hyphenated, braced and URN forms and refuses any other text.
#[verifier::external_body]
pub(crate) fn parse_uuid(s: &str) -> (r: Option<u128>)
    ensures
        r == uuid_value(s@),
{
    Uuid::parse_str(s).ok().map(|id| id.as_u128())
}

/// `to_string` of the `uuid::Uuid` with the given 128-bit value: the
/// lower-case hyphenated form.
#[verifier::external_body]
pub(crate) fn format_uuid(id: u128) -> (r: String)
    ensures
        r@ == uuid_text(id),
{
    Uuid::from_u128(id).to_string()
}

pub open spec fn pow16(n: nat) -> nat
    decreases n,
{
    if n == 0 {
        1
    } else {
        16 * pow16((n - 1) as nat)
    }
}

proof fn lemma_hex_digits(v: nat, n: nat)
    requires
        v < pow16(n),
    ensures
        hex_digits(v, n).len() == n,
        all_hex(hex_digits(v, n)),
        hex_value(hex_digits(v, n)) == v,
    decreases n,
{
    if n > 0 {
        let m = (n - 1) as nat;
        assert(v / 16 < pow16(m));
        lemma_hex_digits(v / 16, m);
        let s = hex_digits(v, n);
        assert(s.drop_last() =~= hex_digits(v / 16, m));
        assert forall|i: int| 0 <= i < s.len() implies is_hex_digit(#[trigger] s[i]) by {
            if i < m {
                assert(s[i] == hex_digits(v / 16, m)[i]);
            }
        }
        assert(hex_digit_value(s.last()) == v % 16);
    }
}

/// The text of a UUID denotes that UUID.
pub proof fn law_uuid_text_reads_back(id: u128)
    ensures
        uuid_value(uuid_text(id)) == Some(id),
{
    reveal_with_fuel(pow16, 33);
    assert(pow16(32) == 0x1_0000_0000_0000_0000_0000_0000_0000_0000);
    lemma_hex_digits(id as nat, 32);
    let d = hex_digits(id as nat, 32);
    let s = uuid_text(id);
    assert(unhyphenated(s) =~= d);
}

} // verus!
