//! Generation of a member's identification string.
//!
//! The identifier packs a compressed form of the member id, the join
//! time, a version tag and a checksum derived from a SHA3-256 digest,
//! and renders the packed word in base 36.

use sha3::{Digest, Sha3_256};
use vstd::prelude::*;
use vstd::string::StringExecFns;

verus! {

/// Rotate `value` right by `shift` bits.
pub fn rotr16(value: u16, shift: u16) -> (r: u16)
    requires
        0 < shift < 16,
    ensures
        r == (value >> shift) | (value << ((16 - shift) as u16)),
{
    (value >> shift) | (value << (16 - shift))
}

/// Rotate `value` left by `shift` bits.
pub fn rotl16(value: u16, shift: u16) -> (r: u16)
    requires
        0 < shift < 16,
    ensures
        r == (value << shift) | (value >> ((16 - shift) as u16)),
{
    (value << shift) | (value >> (16 - shift))
}

/// Rotate `value` right by `shift` bits.
pub fn rotr8(value: u8, shift: u8) -> (r: u8)
    requires
        0 < shift < 8,
    ensures
        r == (value >> shift) | (value << ((8 - shift) as u8)),
{
    (value >> shift) | (value << (8 - shift))
}

/// Rotate `value` left by `shift` bits.
pub fn rotl8(value: u8, shift: u8) -> (r: u8)
    requires
        0 < shift < 8,
    ensures
        r == (value << shift) | (value >> ((8 - shift) as u8)),
{
    (value << shift) | (value >> (8 - shift))
}

/// Negated exclusive or.
pub fn nxor16(x: u16, y: u16) -> (r: u16)
    ensures
        r == !(x ^ y),
{
    !(x ^ y)
}

/// Negated exclusive or.
pub fn nxor8(x: u8, y: u8) -> (r: u8)
    ensures
        r == !(x ^ y),
{
    !(x ^ y)
}

/// The fourteen low-order bytes of `id`, most significant first.
pub open spec fn id_bytes_spec(id: u128) -> Seq<u8> {
    Seq::new(14, |k: int| (((id >> ((13 - k) * 8) as u128) & 0xff) as u8))
}

/// Serialise the hashed portion of an id for digesting.
#[verifier::loop_isolation(false)]
pub fn before_hash_id_to_bytes(id: u128) -> (r: Vec<u8>)
    ensures
        r@ == id_bytes_spec(id),
{
    let mut r: Vec<u8> = Vec::new();
    let mut i: usize = 0;
    while i < 14
        invariant
            0 <= i <= 14,
            r@ =~= id_bytes_spec(id).take(i as int),
        decreases 14 - i,
    {
        let sh: u128 = ((13 - i) as u128) * 8;
        let word = id >> sh;
        assert(word & 0xff < 256) by (bit_vector);
        r.push((word & 0xff) as u8);
        proof {
            assert(sh == ((13 - i as int) * 8) as u128);
            assert(r@ =~= id_bytes_spec(id).take(i + 1));
        }
        i += 1;
    }
    proof {
        assert(id_bytes_spec(id).take(14) =~= id_bytes_spec(id));
    }
    r
}

/// The SHA3-256 digest of a byte string, as the digest crate computes
/// it: a function of the input bytes alone.
pub uninterp spec fn sha3_256_of(data: Seq<u8>) -> Seq<u8>;

/// Relies on sha3::Sha3_256 through the Digest trait: the digest is
/// deterministic in the input bytes and always 32 bytes long.
#[verifier::external_body]
fn sha3_256(data: &Vec<u8>) -> (r: Vec<u8>)
    ensures
        r@ == sha3_256_of(data@),
        r@.len() == 32,
{
    let mut hasher = Sha3_256::new();
    hasher.update(data.as_slice());
    hasher.finalize().to_vec()
}

/// The 16-bit word at position `k` of a byte string, big-endian.
pub open spec fn word_at(h: Seq<u8>, k: int) -> u16 {
    ((h[2 * k] as u16) << 8u16) | (h[2 * k + 1] as u16)
}

/// Digest the id's serialised bytes and regroup the digest into sixteen
/// big-endian 16-bit words.
#[verifier::loop_isolation(false)]
pub fn id_to_hash(id: u128) -> (r: Vec<u16>)
    ensures
        r@.len() == 16,
        forall|k: int|
            0 <= k < 16 ==> r@[k] == word_at(sha3_256_of(id_bytes_spec(id)), k),
{
    let bytes = before_hash_id_to_bytes(id);
    let hash = sha3_256(&bytes);
    let mut r: Vec<u16> = Vec::new();
    let mut k: usize = 0;
    while k < 16
        invariant
            0 <= k <= 16,
            hash@.len() == 32,
            hash@ == sha3_256_of(id_bytes_spec(id)),
            r@.len() == k,
            forall|j: int|
                0 <= j < k ==> r@[j] == word_at(sha3_256_of(id_bytes_spec(id)), j),
        decreases 16 - k,
    {
        let w = ((hash[2 * k] as u16) << 8u16) | (hash[2 * k + 1] as u16);
        r.push(w);
        k += 1;
    }
    r
}

/// One mixing round over a 16-bit word.
pub open spec fn mix16(w: u16) -> u16 {
    let a = (!(((w >> 8u16) | (w << 8u16)) ^ ((w << 4u16) | (w >> 12u16)))) ^ (w >> 4u16);
    !((((a << 8u16) | (a >> 8u16)) ^ ((a >> 4u16) | (a << 12u16))) ^ (a << 4u16))
}

/// One mixing round over a byte.
pub open spec fn mix8(w: u8) -> u8 {
    let a = (!(((w >> 4u8) | (w << 4u8)) ^ ((w << 2u8) | (w >> 6u8)))) ^ (w >> 2u8);
    !((((a << 4u8) | (a >> 4u8)) ^ ((a >> 2u8) | (a << 6u8))) ^ (a << 2u8))
}

/// One folding step: halves of the running value are swapped under the
/// control of the word's bits.
pub open spec fn fold16_step(w: u16, r: u16) -> u16 {
    ((w & (r >> 8u16)) << 8u16) | (((!w) & (r << 8u16)) >> 8u16)
}

/// The running fold over the first `i` mixed words.
pub open spec fn fold16(block: Seq<u16>, i: int) -> u16
    decreases i,
{
    if i <= 1 {
        fold16_step(block[0], 0xffff)
    } else {
        fold16_step(block[i - 1], fold16(block, i - 1)) ^ block[i - 2]
    }
}

/// One folding step over bytes.
pub open spec fn fold8_step(w: u8, r: u8) -> u8 {
    ((w & (r >> 4u8)) << 4u8) | (((!w) & (r << 4u8)) >> 4u8)
}

/// The running fold over the first `i` mixed bytes.
pub open spec fn fold8(block: Seq<u8>, i: int) -> u8
    decreases i,
{
    if i <= 1 {
        fold8_step(block[0], 0xff)
    } else {
        fold8_step(block[i - 1], fold8(block, i - 1)) ^ block[i - 2]
    }
}

/// The mixed digest words of an id.
pub open spec fn mixed_words(id: u128) -> Seq<u16> {
    Seq::new(16, |k: int| mix16(word_at(sha3_256_of(id_bytes_spec(id)), k)))
}

/// The checksum of an id: the fold over its mixed digest words.
pub open spec fn check_hash_spec(id: u128) -> u16 {
    fold16(mixed_words(id), 16)
}

/// Compute the checksum of an id.
#[verifier::loop_isolation(false)]
pub fn gen_check_hash(id: u128) -> (r: u16)
    ensures
        r == check_hash_spec(id),
{
    let mut block = id_to_hash(id);
    let mut i: usize = 0;
    while i < 16
        invariant
            0 <= i <= 16,
            block@.len() == 16,
            forall|j: int| 0 <= j < i ==> block@[j] == mixed_words(id)[j],
            forall|j: int|
                i <= j < 16 ==> block@[j] == word_at(sha3_256_of(id_bytes_spec(id)), j),
        decreases 16 - i,
    {
        let w = block[i];
        let a = nxor16(rotr16(w, 8), rotl16(w, 4)) ^ (w >> 4u16);
        let m = nxor16(rotl16(a, 8) ^ rotr16(a, 4), a << 4u16);
        block[i] = m;
        i += 1;
    }
    let mut r: u16 = 0xffff;
    r = ((block[0] & (r >> 8u16)) << 8u16) | (((!block[0]) & (r << 8u16)) >> 8u16);
    proof {
        assert(block@ =~= mixed_words(id));
        assert(r == fold16(mixed_words(id), 1));
    }
    let mut i: usize = 1;
    while i < 16
        invariant
            1 <= i <= 16,
            block@ == mixed_words(id),
            r == fold16(mixed_words(id), i as int),
        decreases 16 - i,
    {
        r = (((block[i] & (r >> 8u16)) << 8u16) | (((!block[i]) & (r << 8u16)) >> 8u16)) ^ block[i
            - 1];
        i += 1;
    }
    r
}

/// The eight bytes of a member id, most significant first.
pub open spec fn disco_bytes_spec(id: u64) -> Seq<u8> {
    Seq::new(8, |k: int| (((id >> ((7 - k) * 8) as u64) & 0xff) as u8))
}

/// The mixed bytes of a member id.
pub open spec fn mixed_disco_bytes(id: u64) -> Seq<u8> {
    Seq::new(8, |k: int| mix8(disco_bytes_spec(id)[k]))
}

/// The compressed byte of a member id: the fold over its mixed bytes.
pub open spec fn comp_disco_spec(id: u64) -> u8 {
    fold8(mixed_disco_bytes(id), 8)
}

/// Compress a member id into one byte.
#[verifier::loop_isolation(false)]
pub fn gen_comp_disco_id(id: &u64) -> (r: u8)
    ensures
        r == comp_disco_spec(*id),
{
    let mut block: Vec<u8> = Vec::new();
    let mut k: usize = 0;
    while k < 8
        invariant
            0 <= k <= 8,
            block@ =~= disco_bytes_spec(*id).take(k as int),
        decreases 8 - k,
    {
        let sh: u64 = ((7 - k) as u64) * 8;
        let word = *id >> sh;
        assert(word & 0xff < 256) by (bit_vector);
        block.push((word & 0xff) as u8);
        proof {
            assert(sh == ((7 - k as int) * 8) as u64);
            assert(block@ =~= disco_bytes_spec(*id).take(k + 1));
        }
        k += 1;
    }
    proof {
        assert(disco_bytes_spec(*id).take(8) =~= disco_bytes_spec(*id));
    }
    let mut i: usize = 0;
    while i < 8
        invariant
            0 <= i <= 8,
            block@.len() == 8,
            forall|j: int| 0 <= j < i ==> block@[j] == mixed_disco_bytes(*id)[j],
            forall|j: int| i <= j < 8 ==> block@[j] == disco_bytes_spec(*id)[j],
        decreases 8 - i,
    {
        let w = block[i];
        let a = nxor8(rotr8(w, 4), rotl8(w, 2)) ^ (w >> 2u8);
        let m = nxor8(rotl8(a, 4) ^ rotr8(a, 2), a << 2u8);
        block[i] = m;
        i += 1;
    }
    let mut r: u8 = 0xff;
    r = ((block[0] & (r >> 4u8)) << 4u8) | (((!block[0]) & (r << 4u8)) >> 4u8);
    proof {
        assert(block@ =~= mixed_disco_bytes(*id));
        assert(r == fold8(mixed_disco_bytes(*id), 1));
    }
    let mut i: usize = 1;
    while i < 8
        invariant
            1 <= i <= 8,
            block@ == mixed_disco_bytes(*id),
            r == fold8(mixed_disco_bytes(*id), i as int),
        decreases 8 - i,
    {
        r = (((block[i] & (r >> 4u8)) << 4u8) | (((!block[i]) & (r << 4u8)) >> 4u8)) ^ block[i - 1];
        i += 1;
    }
    r
}

/// The base-36 digit character for `d`.
pub open spec fn digit36(d: u64) -> char {
    if d < 10 {
        crate::chatmsg::dec_digit(d)
    } else if d == 10 {
        'A'
    } else if d == 11 {
        'B'
    } else if d == 12 {
        'C'
    } else if d == 13 {
        'D'
    } else if d == 14 {
        'E'
    } else if d == 15 {
        'F'
    } else if d == 16 {
        'G'
    } else if d == 17 {
        'H'
    } else if d == 18 {
        'I'
    } else if d == 19 {
        'J'
    } else if d == 20 {
        'K'
    } else if d == 21 {
        'L'
    } else if d == 22 {
        'M'
    } else if d == 23 {
        'N'
    } else if d == 24 {
        'O'
    } else if d == 25 {
        'P'
    } else if d == 26 {
        'Q'
    } else if d == 27 {
        'R'
    } else if d == 28 {
        'S'
    } else if d == 29 {
        'T'
    } else if d == 30 {
        'U'
    } else if d == 31 {
        'V'
    } else if d == 32 {
        'W'
    } else if d == 33 {
        'X'
    } else if d == 34 {
        'Y'
    } else {
        'Z'
    }
}

/// The base-36 digits of `n`, most significant first (empty for zero).
pub open spec fn base36_spec(n: u64) -> Seq<char>
    decreases n,
{
    if n == 0 {
        Seq::empty()
    } else {
        base36_spec(n / 36) + seq![digit36(n % 36)]
    }
}

fn digit36_char(d: u64) -> (r: char)
    requires
        d < 36,
    ensures
        r == digit36(d),
{
    if d < 10 {
        crate::chatmsg::digit_char(d)
    } else if d == 10 {
        'A'
    } else if d == 11 {
        'B'
    } else if d == 12 {
        'C'
    } else if d == 13 {
        'D'
    } else if d == 14 {
        'E'
    } else if d == 15 {
        'F'
    } else if d == 16 {
        'G'
    } else if d == 17 {
        'H'
    } else if d == 18 {
        'I'
    } else if d == 19 {
        'J'
    } else if d == 20 {
        'K'
    } else if d == 21 {
        'L'
    } else if d == 22 {
        'M'
    } else if d == 23 {
        'N'
    } else if d == 24 {
        'O'
    } else if d == 25 {
        'P'
    } else if d == 26 {
        'Q'
    } else if d == 27 {
        'R'
    } else if d == 28 {
        'S'
    } else if d == 29 {
        'T'
    } else if d == 30 {
        'U'
    } else if d == 31 {
        'V'
    } else if d == 32 {
        'W'
    } else if d == 33 {
        'X'
    } else if d == 34 {
        'Y'
    } else {
        'Z'
    }
}

/// Append the character for one base-36 digit.
fn push_digit36(s: &mut String, d: u64)
    requires
        d < 36,
    ensures
        final(s)@ == old(s)@ + seq![digit36(d)],
{
    let c = digit36_char(d);
    let mut one: Vec<char> = Vec::new();
    one.push(c);
    let tail = chars_to_string(&one);
    s.append(tail.as_str());
    proof {
        assert(one@ =~= seq![digit36(d)]);
    }
}

/// Build a string from characters.
#[verifier::loop_isolation(false)]
fn chars_to_string(chars: &Vec<char>) -> (r: String)
    ensures
        r@ == chars@,
{
    let mut r = String::new();
    let n = chars.len();
    let mut i: usize = 0;
    while i < n
        invariant
            0 <= i <= n,
            r@ =~= chars@.take(i as int),
        decreases n - i,
    {
        push_char(&mut r, chars[i]);
        i += 1;
    }
    proof {
        assert(chars@.take(n as int) =~= chars@);
    }
    r
}

/// Relies on String::push: appends exactly the one character.
#[verifier::external_body]
fn push_char(s: &mut String, c: char)
    ensures
        final(s)@ == old(s)@.push(c),
{
    s.push(c);
}

/// Render `n` in base 36 (uppercase, empty for zero).
#[verifier::loop_isolation(false)]
pub fn to_string_36(id: u64) -> (r: String)
    ensures
        r@ == base36_spec(id),
{
    let mut digits: Vec<u64> = Vec::new();
    let mut num = id;
    while num > 0
        invariant
            base36_spec(id) =~= base36_spec(num) + digits@.map_values(|d: u64| digit36(d)).reverse(),
            forall|j: int| 0 <= j < digits@.len() ==> (#[trigger] digits@[j]) < 36,
        decreases num,
    {
        let d = num % 36;
        proof {
            let mapped = digits@.map_values(|d2: u64| digit36(d2));
            assert(digits@.push(num as u64 % 36).map_values(|d2: u64| digit36(d2)) =~= mapped.push(
                digit36(num as u64 % 36),
            ));
            assert(mapped.push(digit36(num as u64 % 36)).reverse() =~= seq![
                digit36(num as u64 % 36),
            ] + mapped.reverse());
            assert(base36_spec(num as u64) == base36_spec(num as u64 / 36) + seq![
                digit36(num as u64 % 36),
            ]);
            assert(base36_spec(num as u64 / 36) + seq![digit36(num as u64 % 36)] + mapped.reverse()
                =~= base36_spec(num as u64 / 36) + (seq![digit36(num as u64 % 36)]
                + mapped.reverse()));
        }
        digits.push(d);
        num = num / 36;
    }
    let mut r = String::new();
    let m = digits.len();
    let mut i: usize = 0;
    while i < m
        invariant
            0 <= i <= m,
            m == digits@.len(),
            forall|j: int| 0 <= j < m ==> (#[trigger] digits@[j]) < 36,
            r@ =~= digits@.map_values(|d: u64| digit36(d)).reverse().take(i as int),
        decreases m - i,
    {
        push_digit36(&mut r, digits[m - 1 - i]);
        proof {
            let mapped = digits@.map_values(|d: u64| digit36(d));
            assert(mapped.reverse().take(i + 1) =~= mapped.reverse().take(i as int).push(
                mapped.reverse()[i as int],
            ));
            assert(mapped.reverse()[i as int] == digit36(digits@[m - 1 - i as int]));
        }
        i += 1;
    }
    proof {
        let mapped = digits@.map_values(|d: u64| digit36(d));
        assert(mapped.reverse().take(m as int) =~= mapped.reverse());
        assert(base36_spec(0) + mapped.reverse() =~= mapped.reverse());
    }
    r
}

/// The packed word whose checksum ties an identifier together.
pub open spec fn check_input_spec(discord_id: u64, version: u8, join_unixtime: i64) -> u128 {
    ((((comp_disco_spec(discord_id) as u128) << 120u128) | ((discord_id as u128) << 56u128) | ((((
    join_unixtime as u32) as u128)) << 24u128) | ((version as u128) << 16u128)) >> 16u128)
}

/// The packed identifier word before rendering.
pub open spec fn result_id_spec(discord_id: u64, version: u8, join_unixtime: i64) -> u64 {
    (((comp_disco_spec(discord_id) as u64) << 56u64) | (((join_unixtime as u32) as u64) << 24u64)
        | ((version as u64) << 16u64) | (check_hash_spec(
        check_input_spec(discord_id, version, join_unixtime),
    ) as u64)) ^ discord_id
}

/// The rendered identification string.
pub open spec fn generate_spec(discord_id: u64, version: u8, join_unixtime: i64) -> Seq<char> {
    base36_spec(result_id_spec(discord_id, version, join_unixtime))
}

/// Generate a member's identification string from their id, the bot
/// version tag and the join time (seconds since the epoch, which must
/// fit an unsigned 32-bit count).
pub fn generate(discord_id_: &u64, version: u8, join_unixtime_: i64) -> (r: String)
    requires
        0 <= join_unixtime_ <= u32::MAX,
    ensures
        r@ == generate_spec(*discord_id_, version, join_unixtime_),
{
    let discord_id = *discord_id_;
    let join_unixtime = join_unixtime_ as u32;
    let comp_discord_id = gen_comp_disco_id(discord_id_);

    let mut check_hash_id: u128 = (comp_discord_id as u128) << 120u128;
    check_hash_id = check_hash_id | ((discord_id as u128) << 56u128);
    check_hash_id = check_hash_id | ((join_unixtime as u128) << 24u128);
    check_hash_id = check_hash_id | ((version as u128) << 16u128);
    check_hash_id = check_hash_id >> 16u128;

    let check_hash = gen_check_hash(check_hash_id);

    let mut result_id: u64 = (comp_discord_id as u64) << 56u64;
    result_id = result_id | ((join_unixtime as u64) << 24u64);
    result_id = result_id | ((version as u64) << 16u64);
    result_id = result_id | (check_hash as u64);
    result_id = result_id ^ discord_id;

    to_string_36(result_id)
}

} // verus!
