//! Sampling: mapping random bytes onto pool indices.
//!
//! A byte `b` picks the pool index `round(b * (n - 1) / 255)` for a pool of
//! `n` characters, rounded to the nearest integer in exact integer
//! arithmetic: `(2 * b * (n - 1) + 255) / 510`. Since `2 * b * (n - 1)` is
//! even and `255` odd, no byte ever falls exactly halfway between two
//! indices, so no tie-breaking rule is needed.
use vstd::prelude::*;
use crate::error::{ErrorModel, GenError};

verus! {

#[verifier::external_type_specification]
#[verifier::external_body]
pub struct ExRandomError(getrandom::Error);

/// Relies on getrandom::getrandom, which writes random bytes into the buffer
/// in place: the buffer keeps its length, and nothing is known of the bytes.
#[verifier::external_body]
fn fill_random(buf: &mut Vec<u8>) -> (r: Result<(), getrandom::Error>)
    ensures
        final(buf)@.len() == old(buf)@.len(),
{
    getrandom::getrandom(buf.as_mut_slice())
}

/// Relies on String::push, which appends one character.
#[verifier::external_body]
fn push_char(s: &mut String, c: char)
    ensures
        final(s)@ == old(s)@.push(c),
{
    s.push(c)
}

/// The pool index that byte `b` selects in a pool of `n` characters.
pub open spec fn byte_index(b: u8, n: nat) -> int {
    (2 * (b as int) * (n - 1) + 255) / 510
}

/// The character that byte `b` selects in `pool`.
pub open spec fn pick(pool: Seq<char>, b: u8) -> char {
    pool[byte_index(b, pool.len())]
}

/// The string that a sequence of random bytes yields from `pool`: one
/// character per byte, or nothing at all from an empty pool.
pub open spec fn sample_of(pool: Seq<char>, bytes: Seq<u8>) -> Seq<char> {
    if pool.len() == 0 {
        Seq::empty()
    } else {
        bytes.map_values(|b: u8| pick(pool, b))
    }
}

/// Every byte selects an index inside the pool.
pub proof fn lemma_byte_index_in_pool(b: u8, n: nat)
    requires
        n >= 1,
    ensures
        0 <= byte_index(b, n) < n,
{
    let x = 2 * (b as int) * (n - 1) + 255;
    assert(0 <= 2 * (b as int) * (n - 1) <= 510 * (n - 1)) by (nonlinear_arith)
        requires
            n >= 1,
            b <= 255,
    ;
    assert(0 <= x / 510 < n) by (nonlinear_arith)
        requires
            0 <= x < 510 * n,
    ;
}

/// In a pool of two characters, the bytes below 128 select the first one and
/// the other 128 bytes select the second: both get half of the byte values.
pub proof fn lemma_two_pool_halves(b: u8)
    ensures
        byte_index(b, 2) == (if b < 128 { 0int } else { 1int }),
{
}

/// The pool index selected by `b` in a pool of `n` characters.
pub fn index_for_byte(b: u8, n: usize) -> (i: usize)
    requires
        n >= 1,
    ensures
        i as int == byte_index(b, n as nat),
        i < n,
{
    proof {
        lemma_byte_index_in_pool(b, n as nat);
        assert(2 * (b as int) * ((n - 1) as int) <= 510 * 0xffff_ffff_ffff_ffffint)
            by (nonlinear_arith)
            requires
                b <= 255,
                n - 1 <= 0xffff_ffff_ffff_ffffint,
                n >= 1,
        ;
    }
    let m: u128 = (n - 1) as u128;
    let x: u128 = 2 * (b as u128) * m + 255;
    (x / 510) as usize
}

/// The string that `bytes` select from `pool`: one character per byte, or
/// the empty string when the pool is empty.
pub fn sample_from_bytes(pool: &[char], bytes: &[u8]) -> (r: String)
    ensures
        r@ == sample_of(pool@, bytes@),
{
    let mut s = String::new();
    if pool.len() == 0 {
        return s;
    }
    let mut i: usize = 0;
    while i < bytes.len()
        invariant
            pool@.len() > 0,
            i <= bytes@.len(),
            s@ == bytes@.subrange(0, i as int).map_values(|b: u8| pick(pool@, b)),
        decreases bytes@.len() - i,
    {
        let k = index_for_byte(bytes[i], pool.len());
        push_char(&mut s, pool[k]);
        i = i + 1;
        assert(bytes@.subrange(0, i as int).drop_last() =~= bytes@.subrange(0, i - 1));
        assert(s@ =~= bytes@.subrange(0, i as int).map_values(|b: u8| pick(pool@, b)));
    }
    assert(bytes@.subrange(0, i as int) =~= bytes@);
    s
}

/// Facts about any string drawn from `pool`: its characters all come from
/// the pool, and a pool of one character gives only that character.
pub proof fn lemma_sample_members(pool: Seq<char>, bytes: Seq<u8>)
    ensures
        sample_of(pool, bytes).len() == (if pool.len() == 0 { 0 } else { bytes.len() }),
        forall|i: int|
            0 <= i < sample_of(pool, bytes).len() ==> pool.contains(
                #[trigger] sample_of(pool, bytes)[i],
            ),
        pool.len() == 1 ==> forall|i: int|
            0 <= i < sample_of(pool, bytes).len() ==> #[trigger] sample_of(pool, bytes)[i]
                == pool[0],
{
    assert forall|i: int| 0 <= i < sample_of(pool, bytes).len() implies pool.contains(
        #[trigger] sample_of(pool, bytes)[i],
    ) && (pool.len() == 1 ==> sample_of(pool, bytes)[i] == pool[0]) by {
        lemma_byte_index_in_pool(bytes[i], pool.len());
        let k = byte_index(bytes[i], pool.len());
        assert(sample_of(pool, bytes)[i] == pool[k]);
    }
}

/// Draws a string of `len` characters from `pool`, one random byte per
/// character. An empty pool or a zero length gives the empty string, and no
/// random bytes are drawn then.
pub fn gen_rand_string(pool: &[char], len: usize) -> (r: Result<String, GenError>)
    ensures
        (len == 0 || pool@.len() == 0) ==> (r matches Ok(s) && s@ == Seq::<char>::empty()),
        r matches Ok(s) ==> is_sample(pool@, len as nat, s@),
        r matches Ok(s) ==> s@.len() == (if pool@.len() == 0 { 0 } else { len as int }),
        r matches Ok(s) ==> forall|i: int| 0 <= i < s@.len() ==> pool@.contains(#[trigger] s@[i]),
        r matches Ok(s) ==> (pool@.len() == 1 ==> forall|i: int|
            0 <= i < s@.len() ==> #[trigger] s@[i] == pool@[0]),
        r matches Err(e) ==> e@ == ErrorModel::RandomSourceFailure,
{
    if len == 0 || pool.len() == 0 {
        proof {
            let zeros = Seq::new(len as nat, |i: int| 0u8);
            assert(sample_of(pool@, zeros) =~= Seq::<char>::empty());
        }
        return Ok(String::new());
    }
    let mut bytes: Vec<u8> = vec![0u8; len];
    match fill_random(&mut bytes) {
        Ok(()) => {},
        Err(_) => {
            return Err(GenError::RandomSourceFailure);
        },
    }
    let s = sample_from_bytes(pool, bytes.as_slice());
    proof {
        lemma_sample_members(pool@, bytes@);
    }
    Ok(s)
}

/// Draws one character of `pool` with one random byte.
pub fn gen_rand_char(pool: &[char]) -> (r: Result<char, GenError>)
    requires
        pool@.len() > 0,
    ensures
        r matches Ok(c) ==> exists|b: u8| c == #[trigger] pick(pool@, b),
        r matches Ok(c) ==> pool@.contains(c),
        r matches Ok(c) ==> (pool@.len() == 1 ==> c == pool@[0]),
        r matches Err(e) ==> e@ == ErrorModel::RandomSourceFailure,
{
    let mut byte: Vec<u8> = vec![0u8; 1];
    match fill_random(&mut byte) {
        Ok(()) => {},
        Err(_) => {
            return Err(GenError::RandomSourceFailure);
        },
    }
    let k = index_for_byte(byte[0], pool.len());
    proof {
        lemma_byte_index_in_pool(byte[0], pool@.len());
        assert(pool@[k as int] == pick(pool@, byte[0]));
    }
    Ok(pool[k])
}

/// Whether `s` is a string of `len` characters that some random bytes draw
/// from `pool`.
pub open spec fn is_sample(pool: Seq<char>, len: nat, s: Seq<char>) -> bool {
    exists|bytes: Seq<u8>| bytes.len() == len && s == #[trigger] sample_of(pool, bytes)
}

/// Draws `repeat` strings of `len` characters each from `pool`, independently
/// and in order.
pub fn generate_strings(pool: &Vec<char>, len: usize, repeat: usize) -> (r: Result<
    Vec<String>,
    GenError,
>)
    ensures
        r matches Ok(v) ==> v@.len() == repeat,
        r matches Ok(v) ==> forall|j: int|
            0 <= j < v@.len() ==> is_sample(pool@, len as nat, #[trigger] v@[j]@),
        r matches Err(e) ==> e@ == ErrorModel::RandomSourceFailure,
        repeat == 0 ==> (r matches Ok(v) && v@.len() == 0),
        (len == 0 || pool@.len() == 0) ==> (r matches Ok(v) && v@.len() == repeat && forall|j: int|
            0 <= j < repeat ==> #[trigger] v@[j]@ == Seq::<char>::empty()),
{
    let mut out: Vec<String> = Vec::new();
    let mut j: usize = 0;
    while j < repeat
        invariant
            j <= repeat,
            out@.len() == j,
            forall|m: int| 0 <= m < out@.len() ==> is_sample(pool@, len as nat, #[trigger] out@[m]@),
            (len == 0 || pool@.len() == 0) ==> forall|m: int|
                0 <= m < out@.len() ==> #[trigger] out@[m]@ == Seq::<char>::empty(),
        decreases repeat - j,
    {
        let s = match gen_rand_string(pool.as_slice(), len) {
            Ok(s) => s,
            Err(e) => {
                return Err(e);
            },
        };
        out.push(s);
        j = j + 1;
    }
    Ok(out)
}

} // verus!
