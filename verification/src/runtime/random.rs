//! Random bytes, written out in binary digits, and the item of a set that a
//! random draw selects.

use crate::atom::Atom;
use crate::errors::Error;
use crate::float::Float;
use crate::runtime::binary::is_binary;
use vstd::prelude::*;

verus! {

/// The most bytes that can be asked of the source at once.
pub const MOST_BYTES: usize = 2147483647;

/// Random bytes from `openssl::rand::rand_bytes`, which fills a buffer of the
/// length asked for, or `None` where it reports a failure. It takes no buffer
/// longer than the largest signed 32-bit integer. Nothing is claimed of the
/// bytes but their number.
#[verifier::external_body]
fn random_bytes(count: usize) -> (r: Option<Vec<u8>>)
    requires
        count <= MOST_BYTES,
    ensures
        r matches Some(bytes) ==> bytes@.len() == count,
{
    let mut buffer = vec![0u8; count];
    match openssl::rand::rand_bytes(&mut buffer) {
        Ok(()) => Some(buffer),
        Err(_) => None,
    }
}

/// The binary digit of a byte at a place, the most significant at place 0.
pub open spec fn digit_of(byte: u8, place: int) -> char {
    if (byte >> ((7 - place) as u8)) & 1 == 1 {
        '1'
    } else {
        '0'
    }
}

/// The bytes written out, each as its eight binary digits.
pub open spec fn binary_of(bytes: Seq<u8>) -> Seq<char> {
    Seq::new(8 * bytes.len(), |i: int| digit_of(bytes[i / 8], i % 8))
}

/// The bytes written out in binary digits.
pub fn bytes_to_binary(bytes: &Vec<u8>) -> (r: Option<String>)
    ensures
        match r {
            Some(text) => text@ == binary_of(bytes@),
            None => 8 * bytes@.len() > usize::MAX,
        },
{
    if bytes.len() > usize::MAX / 8 {
        return None;
    }
    let mut text = String::new();
    let mut i: usize = 0;
    while i < bytes.len()
        invariant
            i <= bytes@.len(),
            8 * bytes@.len() <= usize::MAX,
            text@ == binary_of(bytes@).take(8 * i),
        decreases bytes@.len() - i,
    {
        let byte = bytes[i];
        let mut place: u8 = 0;
        while place < 8
            invariant
                i < bytes@.len(),
                8 * bytes@.len() <= usize::MAX,
                place <= 8,
                byte == bytes@[i as int],
                text@ == binary_of(bytes@).take(8 * i + place),
            decreases 8 - place,
        {
            let ghost before = text@;
            proof {
                reveal_strlit("1");
                reveal_strlit("0");
            }
            if (byte >> (7 - place)) & 1 == 1 {
                text.append("1");
            } else {
                text.append("0");
            }
            proof {
                let at: int = 8 * i + place;
                assert(at / 8 == i && at % 8 == place);
                assert(text@ =~= before.push(digit_of(byte, place as int)));
                assert(text@ =~= binary_of(bytes@).take(at + 1));
            }
            place += 1;
        }
        i += 1;
    }
    proof {
        assert(text@ =~= binary_of(bytes@));
    }
    Some(text)
}

/// What `binary_of` writes is made of binary digits.
pub proof fn lemma_binary_of(bytes: Seq<u8>)
    ensures
        binary_of(bytes).len() == 8 * bytes.len(),
        is_binary(binary_of(bytes)),
{
}

/// So many random bytes, written out in binary digits. More bytes than the
/// source gives at once are refused, and so is its failure.
pub fn get_bytes(n_bytes: usize) -> (r: Result<String, Error>)
    ensures
        match r {
            Ok(text) => n_bytes <= MOST_BYTES && text@.len() == 8 * n_bytes && is_binary(text@),
            Err(e) => if n_bytes > MOST_BYTES || 8 * n_bytes > usize::MAX {
                e == Error::Shape
            } else {
                e == Error::Randomness
            },
        },
{
    if n_bytes > MOST_BYTES {
        return Err(Error::Shape);
    }
    match random_bytes(n_bytes) {
        None => if n_bytes > usize::MAX / 8 {
            Err(Error::Shape)
        } else {
            Err(Error::Randomness)
        },
        Some(bytes) => {
            proof {
                lemma_binary_of(bytes@);
            }
            match bytes_to_binary(&bytes) {
                Some(text) => Ok(text),
                None => Err(Error::Shape),
            }
        },
    }
}

/// The first place from `start` on at which the draw is at most the cumulative
/// probability, or the number of places where there is none.
pub open spec fn first_reached(cumulative: Seq<Float>, draw: Float, start: int) -> int
    decreases cumulative.len() - start,
{
    if start < 0 || start >= cumulative.len() {
        cumulative.len() as int
    } else if draw.le_spec(cumulative[start]) {
        start
    } else {
        first_reached(cumulative, draw, start + 1)
    }
}

/// The place that a draw selects: the first whose cumulative probability
/// reaches the draw, and the first of all where none does.
pub open spec fn selected(cumulative: Seq<Float>, draw: Float) -> int {
    if first_reached(cumulative, draw, 0) < cumulative.len() {
        first_reached(cumulative, draw, 0)
    } else {
        0
    }
}

/// The item of the set that a draw selects, given the cumulative probability
/// of each item. A set without the selected place is refused.
pub fn sample_from_set<T: Atom>(candidate_set: &Vec<T>, cumulative: &Vec<Float>, draw: Float) -> (r:
    Result<T, Error>)
    ensures
        match r {
            Ok(item) => selected(cumulative@, draw) < candidate_set@.len() && item.deep_view()
                == candidate_set@[selected(cumulative@, draw)].deep_view(),
            Err(e) => e == Error::Shape && selected(cumulative@, draw) >= candidate_set@.len(),
        },
{
    let mut index: usize = 0;
    let mut i: usize = 0;
    let mut found = false;
    while i < cumulative.len() && !found
        invariant
            i <= cumulative@.len(),
            !found ==> index == 0 && first_reached(cumulative@, draw, 0) == first_reached(
                cumulative@,
                draw,
                i as int,
            ),
            found ==> index < cumulative@.len() && first_reached(cumulative@, draw, 0) == index,
        decreases cumulative@.len() - i + (if found { 0int } else { 1int }),
    {
        if draw.le(cumulative[i]) {
            index = i;
            found = true;
        } else {
            i += 1;
        }
    }
    if index < candidate_set.len() {
        Ok(candidate_set[index].duplicate())
    } else {
        Err(Error::Shape)
    }
}

/// The integer from `min` up to `max` that a draw of 64 random bits selects:
/// the draw is reduced by the number of integers in the range, unless it lies
/// in the last, incomplete run of the range, where it selects nothing, so
/// that evenly drawn bits select evenly.
pub open spec fn uniform_of(draw: u64, min: i64, max: i64) -> Option<int> {
    let range = max - min + 1;
    let limit = (0x1_0000_0000_0000_0000int / range) * range;
    if draw < limit {
        Some(min + (draw as int) % range)
    } else {
        None
    }
}

/// The integer from `min` up to `max` that a draw of 64 random bits selects;
/// none where the draw is to be made again.
pub fn uniform_integer(draw: u64, min: i64, max: i64) -> (r: Option<i64>)
    requires
        min <= max,
    ensures
        match r {
            Some(value) => uniform_of(draw, min, max) == Some(value as int) && min <= value <= max,
            None => uniform_of(draw, min, max) is None,
        },
{
    let range: u128 = (max as i128 - min as i128 + 1) as u128;
    let whole: u128 = 0x1_0000_0000_0000_0000u128 / range;
    assert(whole * range <= 0x1_0000_0000_0000_0000u128) by (nonlinear_arith)
        requires
            range > 0,
            whole == 0x1_0000_0000_0000_0000u128 / range,
    ;
    let limit: u128 = whole * range;
    if (draw as u128) < limit {
        let offset: u128 = (draw as u128) % range;
        Some((min as i128 + offset as i128) as i64)
    } else {
        None
    }
}

/// No index occurs twice.
pub open spec fn all_differ(indices: Seq<usize>) -> bool {
    forall|i: int, j: int|
        #![trigger indices[i], indices[j]]
        0 <= i < j < indices.len() ==> indices[i] != indices[j]
}

/// Every draw lies from its place up to, but not including, `n`.
pub open spec fn draws_fit(k: usize, n: usize, draws: Seq<usize>) -> bool {
    &&& k <= n
    &&& k <= draws.len()
    &&& forall|place: int| 0 <= place < k ==> place <= #[trigger] draws[place] < n
}

/// `k` of the indices below `n`, none twice: at each place in turn, the
/// index that stands there changes places with the one that the draw of the
/// place names, so that draws made evenly from the place up to `n` select
/// every choice of indices alike. Draws that do not fit are refused.
pub fn sampling_indices(k: usize, n: usize, draws: &Vec<usize>) -> (r: Option<Vec<usize>>)
    ensures
        match r {
            Some(indices) => {
                &&& draws_fit(k, n, draws@)
                &&& indices@.len() == k
                &&& forall|i: int| 0 <= i < k ==> #[trigger] indices@[i] < n
                &&& all_differ(indices@)
            },
            None => !draws_fit(k, n, draws@),
        },
{
    if k > n || k > draws.len() {
        return None;
    }
    let mut all: Vec<usize> = Vec::new();
    let mut i: usize = 0;
    while i < n
        invariant
            i <= n,
            all@.len() == i,
            forall|j: int| 0 <= j < i ==> #[trigger] all@[j] == j,
        decreases n - i,
    {
        all.push(i);
        i += 1;
    }
    let mut place: usize = 0;
    while place < k
        invariant
            place <= k <= n,
            k <= draws@.len(),
            all@.len() == n,
            forall|j: int| 0 <= j < n ==> #[trigger] all@[j] < n,
            all_differ(all@),
            forall|p: int| 0 <= p < place ==> p <= #[trigger] draws@[p] < n,
        decreases k - place,
    {
        let other = draws[place];
        if other < place || other >= n {
            return None;
        }
        let ghost before = all@;
        let here = all[place];
        let there = all[other];
        all.set(place, there);
        all.set(other, here);
        proof {
            assert forall|a: int, b: int|
                #![trigger all@[a], all@[b]]
                0 <= a < b < all@.len() implies all@[a] != all@[b] by {
                let from = |x: int|
                    if x == place {
                        other as int
                    } else if x == other {
                        place as int
                    } else {
                        x
                    };
                assert(all@[a] == before[from(a)]);
                assert(all@[b] == before[from(b)]);
                if from(a) < from(b) {
                    assert(before[from(a)] != before[from(b)]);
                } else {
                    assert(before[from(b)] != before[from(a)]);
                }
            }
        }
        place += 1;
    }
    let mut out: Vec<usize> = Vec::new();
    let mut i: usize = 0;
    while i < k
        invariant
            i <= k <= n,
            all@.len() == n,
            out@.len() == i,
            forall|j: int| 0 <= j < i ==> #[trigger] out@[j] == all@[j],
        decreases k - i,
    {
        out.push(all[i]);
        i += 1;
    }
    proof {
        assert forall|a: int, b: int|
            #![trigger out@[a], out@[b]]
            0 <= a < b < out@.len() implies out@[a] != out@[b] by {
            assert(all@[a] != all@[b]);
        }
    }
    Some(out)
}

} // verus!
