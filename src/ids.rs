//! Identifiers. Every id of the server is a UUID, held as its 128 bits.
use std::collections::HashMap;
use vstd::prelude::*;
use vstd::arithmetic::power2::pow2;
use vstd::set_lib::{lemma_len_subset, range_set_properties, FiniteRange};

verus! {

/// The lower-case hexadecimal digit for a value below sixteen.
pub open spec fn hex_digit(n: nat) -> char {
    if n < 10 {
        (('0' as nat) + n) as char
    } else {
        (('a' as nat) + n - 10) as char
    }
}

/// The `q`-th hexadecimal digit of an id, the most significant first.
pub open spec fn nibble(id: u128, q: int) -> nat {
    ((id as nat) / pow2((4 * (31 - q)) as nat)) % 16
}

/// The hyphenated lower-case text of the UUID with these bits: its 32
/// hexadecimal digits, most significant first, with a `-` after the 8th,
/// 12th, 16th and 20th.
pub open spec fn uuid_text(id: u128) -> Seq<char> {
    Seq::new(36, |p: int|
        if p == 8 || p == 13 || p == 18 || p == 23 {
            '-'
        } else {
            let q = if p < 8 { p } else if p < 13 { p - 1 } else if p < 18 { p - 2 } else if p < 23 { p - 3 } else { p - 4 };
            hex_digit(nibble(id, q))
        })
}

/// The UUID that a text denotes, if it is one in any of the accepted forms.
pub uninterp spec fn uuid_parse(s: Seq<char>) -> Option<u128>;

/// The version-5 UUID of a name in the DNS namespace.
pub uninterp spec fn name_uuid(name: Seq<char>) -> u128;

/// The version nibble of a UUID is 4 and its variant bits are `10`, as in
/// every random (version 4) UUID.
pub open spec fn is_v4(id: u128) -> bool {
    &&& (id >> 76u128) & 0xfu128 == 4
    &&& (id >> 62u128) & 0x3u128 == 2
}

/// Relies on uuid::Uuid::new_v4: random bits with the version set to 4 and
/// the variant to RFC 4122, taken as a `u128`.
#[verifier::external_body]
pub(crate) fn random_uuid() -> (r: u128)
    ensures
        is_v4(r),
{
    uuid::Uuid::new_v4().as_u128()
}

/// Relies on uuid's `Display` for `Uuid`: the hyphenated form, 36
/// characters, which `Uuid::parse_str` reads back to the same id.
#[verifier::external_body]
fn uuid_to_text(id: u128) -> (r: String)
    ensures
        r@ == uuid_text(id),
        r@.len() == 36,
        uuid_parse(r@) == Some(id),
{
    uuid::Uuid::from_u128(id).to_string()
}

/// Relies on uuid::Uuid::parse_str: `Ok` exactly for the texts it accepts.
#[verifier::external_body]
fn parse_uuid_text(s: &str) -> (r: Option<u128>)
    ensures
        r == uuid_parse(s@),
{
    match uuid::Uuid::parse_str(s) {
        Ok(u) => Some(u.as_u128()),
        Err(_) => None,
    }
}

/// Whether an id carries version 5 (name-based, SHA-1) and the RFC 4122 variant.
pub open spec fn is_v5(id: u128) -> bool {
    &&& (id >> 76u128) & 0xfu128 == 5
    &&& (id >> 62u128) & 0x3u128 == 2
}

/// Relies on uuid::Uuid::new_v5 with the DNS namespace: the id depends on the
/// name alone, and `Builder::from_sha1_bytes` sets version 5 and the RFC 4122 variant.
#[verifier::external_body]
fn name_uuid_bits(name: &str) -> (r: u128)
    ensures
        r == name_uuid(name@),
        is_v5(r),
{
    uuid::Uuid::new_v5(&uuid::Uuid::NAMESPACE_DNS, name.as_bytes()).as_u128()
}

/// `draw` when the table does not hold it, else the smallest id it does not
/// hold. A table of `n` entries leaves one of `0..=n` free, so one is found.
pub fn fresh_id<V>(m: &HashMap<u128, V>, draw: u128) -> (r: u128)
    ensures
        !m@.contains_key(r),
        !m@.contains_key(draw) ==> r == draw,
{
    broadcast use vstd::std_specs::hash::group_hash_axioms;
    if !m.contains_key(&draw) {
        return draw;
    }
    let n = m.len() as u128;
    let mut k: u128 = 0;
    while k <= n
        invariant
            n == m@.len(),
            n <= usize::MAX,
            m@.contains_key(draw),
            k <= n + 1,
            forall|j: u128| j < k ==> m@.contains_key(j),
        decreases n + 1 - k,
    {
        if !m.contains_key(&k) {
            return k;
        }
        k = k + 1;
    }
    proof {
        let all = <u128 as FiniteRange>::range_set(0, k);
        range_set_properties::<u128>(0, k);
        assert(all.subset_of(m@.dom()));
        lemma_len_subset(all, m@.dom());
        assert(false);
    }
    k
}

/// A fresh random id.
pub fn generate_uuid_v4() -> (r: u128)
    ensures
        is_v4(r),
{
    random_uuid()
}

/// The text of a fresh random id.
pub fn generate_uuid_v4_string() -> (r: String)
    ensures
        exists|id: u128| is_v4(id) && r@ == uuid_text(id) && uuid_parse(r@) == Some(id),
        r@.len() == 36,
{
    let id = random_uuid();
    uuid_to_text(id)
}

/// A fresh random id.
pub fn generate_uuid() -> (r: u128)
    ensures
        is_v4(r),
{
    random_uuid()
}

/// The text of a fresh random id.
pub fn generate_uuid_string() -> (r: String)
    ensures
        exists|id: u128| is_v4(id) && r@ == uuid_text(id) && uuid_parse(r@) == Some(id),
        r@.len() == 36,
{
    generate_uuid_v4_string()
}

/// The hyphenated text of an id.
pub fn uuid_string(id: u128) -> (r: String)
    ensures
        r@ == uuid_text(id),
        r@.len() == 36,
        uuid_parse(r@) == Some(id),
{
    uuid_to_text(id)
}

/// The id that a text denotes.
pub fn parse_uuid(s: &str) -> (r: Option<u128>)
    ensures
        r == uuid_parse(s@),
{
    parse_uuid_text(s)
}

/// Whether a text denotes an id.
pub fn is_valid_uuid(s: &str) -> (r: bool)
    ensures
        r == uuid_parse(s@) is Some,
{
    parse_uuid_text(s).is_some()
}

/// The name-based (version 5, DNS namespace) id of a name.
pub fn generate_name_based_uuid(name: &str) -> (r: u128)
    ensures
        r == name_uuid(name@),
        is_v5(r),
{
    name_uuid_bits(name)
}

} // verus!
