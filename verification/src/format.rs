//! Decimal and UUID renderings of integers, as `Display` writes them.
use vstd::prelude::*;

use crate::crypto::hex_digit;
use crate::text::string_from_chars;

verus! {

pub open spec fn digit_char(d: int) -> char {
    (48 + d) as char
}

/// Decimal digits of a natural number, most significant first.
pub open spec fn nat_decimal(n: nat) -> Seq<char>
    decreases n,
{
    if n < 10 {
        seq![digit_char(n as int)]
    } else {
        nat_decimal(n / 10).push(digit_char((n % 10) as int))
    }
}

/// `i64`'s `Display`: an optional minus sign and the decimal digits.
pub open spec fn int_decimal(n: int) -> Seq<char> {
    if n < 0 {
        seq!['-'] + nat_decimal((-n) as nat)
    } else {
        nat_decimal(n as nat)
    }
}

pub open spec fn reversed(s: Seq<char>) -> Seq<char> {
    Seq::new(s.len(), |i: int| s[s.len() - 1 - i])
}

/// The decimal digits of `n`.
pub fn unsigned_decimal(n: u128) -> (r: Vec<char>)
    ensures
        r@ == nat_decimal(n as nat),
{
    let mut x: u128 = n;
    let mut rev: Vec<char> = Vec::new();
    while x >= 10
        invariant
            nat_decimal(n as nat) == nat_decimal(x as nat) + reversed(rev@),
        decreases x,
    {
        let d = (x % 10) as u8;
        let ghost before = rev@;
        rev.push((48u8 + d) as char);
        proof {
            assert(nat_decimal(x as nat) == nat_decimal((x / 10) as nat).push(digit_char((x % 10) as int)));
            assert(reversed(rev@) =~= seq![digit_char((x % 10) as int)] + reversed(before));
            assert(nat_decimal(x as nat) + reversed(before) =~= nat_decimal((x / 10) as nat) + reversed(rev@));
        }
        x = x / 10;
    }
    let ghost before = rev@;
    rev.push((48u8 + (x as u8)) as char);
    proof {
        assert(reversed(rev@) =~= seq![digit_char(x as int)] + reversed(before));
        assert(nat_decimal(x as nat) =~= seq![digit_char(x as int)]);
    }
    let mut out: Vec<char> = Vec::new();
    let mut i: usize = rev.len();
    while i > 0
        invariant
            i <= rev.len(),
            out@ =~= reversed(rev@).take(rev.len() - i),
        decreases i,
    {
        i = i - 1;
        out.push(rev[i]);
        proof {
            assert(reversed(rev@).take(rev.len() - i) =~= reversed(rev@).take(rev.len() - i - 1).push(rev@[i as int]));
        }
    }
    assert(reversed(rev@).take(rev.len() as int) =~= reversed(rev@));
    out
}

/// The decimal rendering of an `i64`.
pub fn decimal_string(n: i64) -> (s: String)
    ensures
        s@ == int_decimal(n as int),
{
    if n < 0 {
        let magnitude: u128 = (0i128 - (n as i128)) as u128;
        let digits = unsigned_decimal(magnitude);
        let mut chars: Vec<char> = Vec::new();
        chars.push('-');
        let mut i: usize = 0;
        while i < digits.len()
            invariant
                i <= digits.len(),
                chars@ == seq!['-'] + digits@.take(i as int),
            decreases digits.len() - i,
        {
            chars.push(digits[i]);
            proof {
                assert(digits@.take(i + 1) =~= digits@.take(i as int).push(digits@[i as int]));
            }
            i = i + 1;
        }
        assert(digits@.take(digits.len() as int) =~= digits@);
        string_from_chars(chars.as_slice())
    } else {
        let digits = unsigned_decimal(n as u128);
        string_from_chars(digits.as_slice())
    }
}

/// The lowest `count` hexadecimal digits of `v`, most significant first.
pub open spec fn nibbles(v: nat, count: nat) -> Seq<int>
    decreases count,
{
    if count == 0 {
        Seq::empty()
    } else {
        nibbles(v / 16, (count - 1) as nat).push((v % 16) as int)
    }
}

pub open spec fn uuid_dash(i: int) -> bool {
    i == 8 || i == 13 || i == 18 || i == 23
}

/// Position of output character `i` among the 32 digits.
pub open spec fn uuid_digit_index(i: int) -> int {
    if i < 8 {
        i
    } else if i < 13 {
        i - 1
    } else if i < 18 {
        i - 2
    } else if i < 23 {
        i - 3
    } else {
        i - 4
    }
}

/// The hyphenated lowercase rendering of a 128-bit UUID (8-4-4-4-12 digits).
pub open spec fn uuid_text(v: u128) -> Seq<char> {
    Seq::new(
        36,
        |i: int|
            if uuid_dash(i) {
                '-'
            } else {
                hex_digit(nibbles(v as nat, 32)[uuid_digit_index(i)])
            },
    )
}

proof fn lemma_nibbles_len(v: nat, count: nat)
    ensures
        nibbles(v, count).len() == count,
        forall|k: int| 0 <= k < count ==> 0 <= #[trigger] nibbles(v, count)[k] < 16,
    decreases count,
{
    if count > 0 {
        lemma_nibbles_len(v / 16, (count - 1) as nat);
    }
}

/// The UUID rendering of a 128-bit identifier.
pub fn uuid_string(v: u128) -> (s: String)
    ensures
        s@ == uuid_text(v),
{
    let mut digits: Vec<u8> = Vec::new();
    let mut x: u128 = v;
    let mut k: usize = 0;
    while k < 32
        invariant
            k <= 32,
            digits@.len() == k,
            forall|j: int| 0 <= j < k ==> digits@[j] < 16,
            nibbles(v as nat, 32) == nibbles(x as nat, (32 - k) as nat) + reversed_digits(digits@),
        decreases 32 - k,
    {
        let d = (x % 16) as u8;
        let ghost before = digits@;
        digits.push(d);
        proof {
            assert(nibbles(x as nat, (32 - k) as nat) == nibbles((x / 16) as nat, (32 - k - 1) as nat).push((x % 16) as int));
            assert(reversed_digits(digits@) =~= seq![(x % 16) as int] + reversed_digits(before));
            assert(nibbles(x as nat, (32 - k) as nat) + reversed_digits(before) =~= nibbles(
                (x / 16) as nat,
                (32 - k - 1) as nat,
            ) + reversed_digits(digits@));
        }
        x = x / 16;
        k = k + 1;
    }
    proof {
        assert(nibbles(x as nat, 0) =~= Seq::<int>::empty());
        assert(nibbles(v as nat, 32) =~= reversed_digits(digits@));
        lemma_nibbles_len(v as nat, 32);
    }
    let mut out: Vec<char> = Vec::new();
    let mut i: usize = 0;
    while i < 36
        invariant
            i <= 36,
            digits@.len() == 32,
            forall|j: int| 0 <= j < 32 ==> digits@[j] < 16,
            nibbles(v as nat, 32) =~= reversed_digits(digits@),
            out@.len() == i,
            forall|j: int| 0 <= j < i ==> #[trigger] out@[j] == uuid_text(v)[j],
        decreases 36 - i,
    {
        if i == 8 || i == 13 || i == 18 || i == 23 {
            out.push('-');
        } else {
            let index: usize = if i < 8 {
                i
            } else if i < 13 {
                i - 1
            } else if i < 18 {
                i - 2
            } else if i < 23 {
                i - 3
            } else {
                i - 4
            };
            let c = crate::crypto::hex_digit_char(digits[31 - index]);
            out.push(c);
        }
        i = i + 1;
    }
    assert(out@ =~= uuid_text(v));
    string_from_chars(out.as_slice())
}

pub open spec fn reversed_digits(s: Seq<u8>) -> Seq<int> {
    Seq::new(s.len(), |i: int| s[s.len() - 1 - i] as int)
}

/// The public suffix of an identifier: the first twelve hexadecimal digits
/// of its UUID rendering.
pub open spec fn public_suffix(v: u128) -> Seq<char> {
    uuid_text(v).take(8) + uuid_text(v).subrange(9, 13)
}

/// A public identifier: `prefix`, an underscore and the identifier's public
/// suffix.
pub fn public_id(prefix: &str, v: u128) -> (s: String)
    ensures
        s@ == prefix@ + seq!['_'] + public_suffix(v),
{
    let text = uuid_string(v);
    let digits = crate::text::chars_of(text.as_str());
    let mut out: Vec<char> = crate::text::chars_of(prefix);
    out.push('_');
    let ghost start = out@;
    let mut i: usize = 0;
    while i < 13
        invariant
            digits@ == uuid_text(v),
            digits@.len() == 36,
            i <= 13,
            out@ == start + (if i <= 8 { uuid_text(v).take(i as int) } else { uuid_text(v).take(8) + uuid_text(v).subrange(9, i as int) }),
        decreases 13 - i,
    {
        if i != 8 {
            out.push(digits[i]);
        }
        proof {
            if i < 8 {
                assert(uuid_text(v).take(i + 1) =~= uuid_text(v).take(i as int).push(uuid_text(v)[i as int]));
            } else if i == 8 {
                assert(uuid_text(v).subrange(9, 9) =~= Seq::<char>::empty());
                assert(uuid_text(v).take(8) + uuid_text(v).subrange(9, 9) =~= uuid_text(v).take(8));
            } else {
                assert(uuid_text(v).subrange(9, i + 1) =~= uuid_text(v).subrange(9, i as int).push(uuid_text(v)[i as int]));
            }
        }
        i = i + 1;
    }
    assert(out@ =~= prefix@ + seq!['_'] + public_suffix(v));
    string_from_chars(out.as_slice())
}

} // verus!
