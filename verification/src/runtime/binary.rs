//! Floats written out as the 64 binary digits of their encoding: the sign,
//! then 11 digits of the exponent, then 52 of the mantissa.

use crate::float::Float;
use vstd::prelude::*;
use vstd::string::{StrSliceExecFns, StringExecFns};

verus! {

/// Whether the character is a binary digit.
pub open spec fn is_digit(character: char) -> bool {
    character == '0' || character == '1'
}

/// Whether the text is made of binary digits.
pub open spec fn is_binary(text: Seq<char>) -> bool {
    forall|i: int| 0 <= i < text.len() ==> is_digit(#[trigger] text[i])
}

/// The number that binary digits write, the most significant first.
pub open spec fn value_of(text: Seq<char>) -> nat
    decreases text.len(),
{
    if text.len() == 0 {
        0
    } else {
        2 * value_of(text.drop_last()) + (if text.last() == '1' {
            1nat
        } else {
            0nat
        })
    }
}

/// `text` is the encoding written out: 64 binary digits that write its
/// number.
pub open spec fn writes(text: Seq<char>, bits: u64) -> bool {
    text.len() == 64 && is_binary(text) && value_of(text) == bits
}

/// Texts of one length made of binary digits that write the same number are
/// the same.
pub proof fn lemma_digits_are_unique(first: Seq<char>, second: Seq<char>)
    requires
        first.len() == second.len(),
        is_binary(first),
        is_binary(second),
        value_of(first) == value_of(second),
    ensures
        first == second,
    decreases first.len(),
{
    if first.len() > 0 {
        assert(is_digit(first[first.len() - 1]));
        assert(is_digit(second[second.len() - 1]));
        assert forall|i: int| 0 <= i < first.drop_last().len() implies is_digit(
        #[trigger] first.drop_last()[i]) by {
            assert(is_digit(first[i]));
        }
        assert forall|i: int| 0 <= i < second.drop_last().len() implies is_digit(
        #[trigger] second.drop_last()[i]) by {
            assert(is_digit(second[i]));
        }
        lemma_digits_are_unique(first.drop_last(), second.drop_last());
        assert(first =~= first.drop_last().push(first.last()));
        assert(second =~= second.drop_last().push(second.last()));
    } else {
        assert(first =~= second);
    }
}

/// The encoding of a float written out in binary digits.
pub fn f64_to_binary(num: &Float) -> (r: String)
    ensures
        writes(r@, num.bits),
{
    let bits = num.bits;
    let mut text = String::new();
    let mut i: u32 = 0;
    while i < 64
        invariant
            i <= 64,
            text@.len() == i,
            is_binary(text@),
            0 < i < 64 ==> value_of(text@) == (bits >> ((64 - i) as u64)),
            i == 64 ==> value_of(text@) == bits,
            i == 0 ==> value_of(text@) == 0,
        decreases 64 - i,
    {
        let shift: u32 = 63 - i;
        let digit = (bits >> shift) & 1;
        let ghost before = text@;
        proof {
            reveal_strlit("1");
            reveal_strlit("0");
        }
        if digit == 1 {
            text.append("1");
        } else {
            text.append("0");
        }
        proof {
            let added = if digit == 1 {
                '1'
            } else {
                '0'
            };
            assert(text@ =~= before.push(added));
            assert(text@.drop_last() =~= before);
            assert(text@.last() == added);
            assert(digit == 0 || digit == 1) by (bit_vector)
                requires
                    digit == (bits >> shift) & 1,
            ;
            if i == 0 {
                assert((bits >> shift) == ((bits >> shift) & 1)) by (bit_vector)
                    requires
                        shift == 63u32,
                ;
            } else {
                assert((bits >> shift) == 2 * (bits >> ((shift + 1) as u32)) + ((bits >> shift)
                    & 1)) by (bit_vector)
                    requires
                        shift < 63u32,
                ;
                assert((64 - i) as u64 == (shift + 1) as u64);
            }
            if i == 63 {
                assert((bits >> shift) == bits) by (bit_vector)
                    requires
                        shift == 0u32,
                ;
            } else {
                assert((64 - (i + 1)) as u64 == shift as u64);
            }
        }
        i += 1;
    }
    text
}

/// The float that 64 binary digits write; none for any other text.
pub fn binary_to_f64(binary_string: &String) -> (r: Option<Float>)
    ensures
        match r {
            Some(num) => writes(binary_string@, num.bits),
            None => binary_string@.len() != 64 || !is_binary(binary_string@),
        },
{
    let text = binary_string.as_str();
    if text.unicode_len() != 64 {
        return None;
    }
    let mut bits: u64 = 0;
    let mut i: usize = 0;
    while i < 64
        invariant
            i <= 64,
            text@.len() == 64,
            text@ == binary_string@,
            is_binary(text@.take(i as int)),
            value_of(text@.take(i as int)) == bits,
            bits < pow2(i as nat),
        decreases 64 - i,
    {
        let character = text.get_char(i);
        let digit: u64 = if character == '1' {
            1
        } else if character == '0' {
            0
        } else {
            proof {
                assert(!is_digit(text@[i as int]));
            }
            return None;
        };
        proof {
            let next = text@.take(i + 1);
            assert(next.drop_last() =~= text@.take(i as int));
            assert(next.last() == character);
            assert forall|j: int| 0 <= j < next.len() implies is_digit(#[trigger] next[j]) by {
                if j < i {
                    assert(is_digit(text@.take(i as int)[j]));
                }
            }
            lemma_pow2_step(i as nat);
            lemma_pow2_monotone(i as nat, 63);
            lemma_pow2_64();
            lemma_pow2_step(63);
        }
        bits = 2 * bits + digit;
        i += 1;
    }
    proof {
        assert(text@.take(64) =~= text@);
    }
    Some(Float { bits })
}

/// Two to the power of `exponent`.
pub open spec fn pow2(exponent: nat) -> nat
    decreases exponent,
{
    if exponent == 0 {
        1
    } else {
        2 * pow2((exponent - 1) as nat)
    }
}

proof fn lemma_pow2_step(exponent: nat)
    ensures
        pow2(exponent + 1) == 2 * pow2(exponent),
        pow2(exponent) >= 1,
        exponent >= 1 ==> pow2(exponent) >= 2,
    decreases exponent,
{
    if exponent > 0 {
        lemma_pow2_step((exponent - 1) as nat);
    }
}

proof fn lemma_pow2_monotone(smaller: nat, larger: nat)
    requires
        smaller <= larger,
    ensures
        pow2(smaller) <= pow2(larger),
    decreases larger,
{
    if smaller < larger {
        lemma_pow2_monotone(smaller, (larger - 1) as nat);
    }
}

proof fn lemma_pow2_add(first: nat, second: nat)
    ensures
        pow2(first + second) == pow2(first) * pow2(second),
    decreases first,
{
    if first > 0 {
        lemma_pow2_add((first - 1) as nat, second);
        assert(pow2(first + second) == 2 * pow2((first - 1 + second) as nat));
        assert(2 * (pow2((first - 1) as nat) * pow2(second)) == (2 * pow2((first - 1) as nat))
            * pow2(second)) by (nonlinear_arith);
    } else {
        assert(1 * pow2(second) == pow2(second)) by (nonlinear_arith);
    }
}

proof fn lemma_pow2_64()
    ensures
        pow2(64) == 0x1_0000_0000_0000_0000,
{
    assert(pow2(4) == 16) by {
        reveal_with_fuel(pow2, 5);
    }
    lemma_pow2_add(4, 4);
    assert(pow2(8) == 256);
    lemma_pow2_add(8, 8);
    assert(pow2(16) == 65536);
    lemma_pow2_add(16, 16);
    assert(pow2(32) == 0x1_0000_0000);
    lemma_pow2_add(32, 32);
    assert(0x1_0000_0000 * 0x1_0000_0000 == 0x1_0000_0000_0000_0000) by (nonlinear_arith);
}

/// The sign, the exponent and the mantissa of a float written out in binary
/// digits: the first character, the next eleven, and the rest. None for a
/// text of fewer than twelve characters.
pub fn split_ieee_into_components(binary_string: &String) -> (r: Option<(String, String, String)>)
    ensures
        match r {
            Some((sign, exponent, mantissa)) => {
                &&& binary_string@.len() >= 12
                &&& sign@ == binary_string@.subrange(0, 1)
                &&& exponent@ == binary_string@.subrange(1, 12)
                &&& mantissa@ == binary_string@.subrange(12, binary_string@.len() as int)
            },
            None => binary_string@.len() < 12,
        },
{
    let text = binary_string.as_str();
    let length = text.unicode_len();
    if length < 12 {
        return None;
    }
    Some(
        (
            text.substring_char(0, 1).to_owned(),
            text.substring_char(1, 12).to_owned(),
            text.substring_char(12, length).to_owned(),
        ),
    )
}

/// The sign, the exponent and the mantissa written one after the other.
pub fn combine_components_into_ieee(sign: &str, exponent: &str, mantissa: &str) -> (r: String)
    ensures
        r@ == sign@ + exponent@ + mantissa@,
{
    sign.to_owned().concat(exponent).concat(mantissa)
}

/// A float written out and read again is the same float, and binary digits
/// read and written out again are the same digits.
pub proof fn law_binary_round_trip(bits: u64, text: Seq<char>, other: u64)
    requires
        writes(text, bits),
    ensures
        writes(text, other) ==> other == bits,
        forall|again: Seq<char>| writes(again, bits) ==> again == text,
{
    assert forall|again: Seq<char>| writes(again, bits) implies again == text by {
        lemma_digits_are_unique(again, text);
    }
}

} // verus!
