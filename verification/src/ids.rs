//! Textual forms of 128-bit identifiers.

use vstd::prelude::*;
use crate::text::{ascii_upper_seq, push_char, to_ascii_uppercase};

verus! {

pub open spec fn hex_digit(d: nat) -> char {
    if d < 10 {
        (48 + d) as char
    } else {
        (87 + d) as char
    }
}

/// The lowest `count` hexadecimal digits of `n`, most significant first,
/// in lower case.
pub open spec fn hex_fixed(n: nat, count: nat) -> Seq<char>
    decreases count,
{
    if count == 0 {
        Seq::empty()
    } else {
        hex_fixed(n / 16, (count - 1) as nat).push(hex_digit(n % 16))
    }
}

/// The 32 lower-case hexadecimal digits of an identifier (`Uuid::simple`).
pub open spec fn simple_form(id: u128) -> Seq<char> {
    hex_fixed(id as nat, 32)
}

/// The hyphenated lower-case form of an identifier, 8-4-4-4-12 digits
/// (the `Display` form of `Uuid`).
pub open spec fn hyphenated_form(id: u128) -> Seq<char> {
    let h = simple_form(id);
    h.subrange(0, 8) + seq!['-'] + h.subrange(8, 12) + seq!['-'] + h.subrange(12, 16) + seq!['-']
        + h.subrange(16, 20) + seq!['-'] + h.subrange(20, 32)
}

pub proof fn lemma_hex_fixed_len(n: nat, count: nat)
    ensures
        hex_fixed(n, count).len() == count,
    decreases count,
{
    if count > 0 {
        lemma_hex_fixed_len(n / 16, (count - 1) as nat);
    }
}

fn hex_digit_exec(d: u128) -> (r: char)
    requires
        d < 16,
    ensures
        r == hex_digit(d as nat),
{
    let b: u8 = if d < 10 {
        48 + (d as u8)
    } else {
        87 + (d as u8)
    };
    b as char
}

/// The 32 hexadecimal digits of `id`, most significant first.
fn hex_digits(id: u128) -> (r: Vec<char>)
    ensures
        r@ == simple_form(id),
        r@.len() == 32,
{
    let mut low_first: Vec<char> = Vec::new();
    let mut m: u128 = id;
    let mut k: usize = 0;
    let ghost mut tail: Seq<char> = Seq::empty();
    while k < 32
        invariant
            k <= 32,
            hex_fixed(id as nat, 32) =~= hex_fixed(m as nat, (32 - k) as nat) + tail,
            tail.len() == low_first@.len(),
            low_first@.len() == k,
            forall|j: int|
                0 <= j < tail.len() ==> #[trigger] tail[j] == low_first@[low_first@.len() - 1 - j],
        decreases 32 - k,
    {
        let c = hex_digit_exec(m % 16);
        proof {
            let a = hex_fixed((m / 16) as nat, (32 - k - 1) as nat);
            assert(hex_fixed(m as nat, (32 - k) as nat) == a.push(hex_digit((m % 16) as nat)));
            assert(a.push(c) + tail =~= a + (seq![c] + tail));
            tail = seq![c] + tail;
        }
        low_first.push(c);
        m = m / 16;
        k = k + 1;
    }
    let mut out: Vec<char> = Vec::new();
    let mut j: usize = 32;
    while j > 0
        invariant
            j <= 32,
            low_first@.len() == 32,
            tail.len() == 32,
            hex_fixed(id as nat, 32) =~= tail,
            forall|i: int| 0 <= i < tail.len() ==> #[trigger] tail[i] == low_first@[31 - i],
            out@ =~= tail.take((32 - j) as int),
        decreases j,
    {
        j = j - 1;
        let c = low_first[j];
        assert(tail[(31 - j) as int] == c);
        out.push(c);
        assert(tail.take((32 - j) as int) =~= tail.take((31 - j) as int).push(c));
    }
    assert(tail.take(32) =~= tail);
    out
}

/// The 32-digit lower-case hexadecimal form of an identifier, the form the
/// media clients use for item, user and server ids.
pub fn simple_id(id: u128) -> (r: String)
    ensures
        r@ == simple_form(id),
{
    let digits = hex_digits(id);
    let mut out = String::new();
    let mut i: usize = 0;
    while i < 32
        invariant
            i <= 32,
            digits@.len() == 32,
            out@ =~= digits@.take(i as int),
        decreases 32 - i,
    {
        push_char(&mut out, digits[i]);
        assert(digits@.take(i + 1) =~= digits@.take(i as int).push(digits@[i as int]));
        i = i + 1;
    }
    assert(digits@.take(32) =~= digits@);
    out
}

/// The hyphenated lower-case form of an identifier (`Uuid::to_string`).
pub fn hyphenated_id(id: u128) -> (r: String)
    ensures
        r@ == hyphenated_form(id),
{
    let digits = hex_digits(id);
    let ghost h = digits@;
    let mut out = String::new();
    let mut i: usize = 0;
    while i < 32
        invariant
            i <= 32,
            digits@.len() == 32,
            h == digits@,
            out@ =~= (if i <= 8 {
                h.subrange(0, i as int)
            } else if i <= 12 {
                h.subrange(0, 8) + seq!['-'] + h.subrange(8, i as int)
            } else if i <= 16 {
                h.subrange(0, 8) + seq!['-'] + h.subrange(8, 12) + seq!['-'] + h.subrange(12, i as int)
            } else if i <= 20 {
                h.subrange(0, 8) + seq!['-'] + h.subrange(8, 12) + seq!['-'] + h.subrange(12, 16)
                    + seq!['-'] + h.subrange(16, i as int)
            } else {
                h.subrange(0, 8) + seq!['-'] + h.subrange(8, 12) + seq!['-'] + h.subrange(12, 16)
                    + seq!['-'] + h.subrange(16, 20) + seq!['-'] + h.subrange(20, i as int)
            }),
        decreases 32 - i,
    {
        if i == 8 || i == 12 || i == 16 || i == 20 {
            push_char(&mut out, '-');
        }
        push_char(&mut out, digits[i]);
        i = i + 1;
    }
    out
}

/// The hyphenated upper-case form of an identifier.
pub fn hyphenated_upper_id(id: u128) -> (r: String)
    ensures
        r@ == ascii_upper_seq(hyphenated_form(id)),
{
    let s = hyphenated_id(id);
    to_ascii_uppercase(s.as_str())
}

/// The id `Uuid::NAMESPACE_URL` stands for, as a 128-bit value.
pub const NAMESPACE_URL_ID: u128 = 0x6ba7_b811_9dad_11d1_80b4_00c0_4fd4_30c8;

/// What `Uuid::new_v5` gives for a namespace and a name (its bytes), as a
/// 128-bit value.
pub uninterp spec fn uuid_v5_of(namespace: u128, name: Seq<u8>) -> u128;

/// Calls `Uuid::new_v5` with the namespace given as a 128-bit value and
/// gives the id as one; the result is named `uuid_v5_of` of the namespace
/// and the bytes (the SHA-1 based derivation is not restated here).
#[verifier::external_body]
pub(crate) fn uuid_v5(namespace: u128, name: &[u8]) -> (r: u128)
    ensures
        r == uuid_v5_of(namespace, name@),
{
    uuid::Uuid::new_v5(&uuid::Uuid::from_u128(namespace), name).as_u128()
}

} // verus!
