//! Entity identifiers: UUIDs held as their 128-bit value.

use vstd::prelude::*;
use vstd::set_lib::{lemma_int_range, lemma_len_subset, set_int_range};

verus! {

/// The lowercase hexadecimal digit for `d` (below 16).
pub open spec fn hex_digit(d: int) -> char {
    if d < 10 {
        ((48 + d) as u8) as char
    } else {
        ((87 + d) as u8) as char
    }
}

/// Number of hyphens that the hyphenated form puts before position `p`.
pub open spec fn hyphens_before(p: int) -> int {
    if p <= 8 {
        0
    } else if p <= 13 {
        1
    } else if p <= 18 {
        2
    } else if p <= 23 {
        3
    } else {
        4
    }
}

/// The `k`-th of the 32 nibbles of `id`, most significant first.
pub open spec fn nibble(id: u128, k: int) -> int {
    ((id >> ((4 * (31 - k)) as u128)) & 15u128) as int
}

/// The hyphenated lowercase text of a UUID: 8-4-4-4-12 hexadecimal digits.
pub open spec fn uuid_text(id: u128) -> Seq<char> {
    Seq::new(
        36,
        |p: int|
            if p == 8 || p == 13 || p == 18 || p == 23 {
                '-'
            } else {
                hex_digit(nibble(id, p - hyphens_before(p)))
            },
    )
}

/// What `uuid::Uuid::parse_str` makes of a text: the UUID's value, or nothing.
pub uninterp spec fn uuid_parsed(s: Seq<char>) -> Option<u128>;

/// Relies on `uuid::Uuid::new_v4`: a random UUID whose version field is 4.
#[verifier::external_body]
fn random_uuid() -> (r: u128)
    ensures
        (r >> 76u128) & 15u128 == 4,
{
    uuid::Uuid::new_v4().as_u128()
}

/// Relies on `uuid::Uuid`'s `Display`: the hyphenated lowercase form.
#[verifier::external_body]
fn uuid_hyphenated(id: u128) -> (r: String)
    ensures
        r@ == uuid_text(id),
{
    uuid::Uuid::from_u128(id).to_string()
}

/// Relies on `uuid::Uuid::parse_str`.
#[verifier::external_body]
fn uuid_parse(s: &str) -> (r: Option<u128>)
    ensures
        r == uuid_parsed(s@),
{
    match uuid::Uuid::parse_str(s) {
        Ok(u) => Some(u.as_u128()),
        Err(_) => None,
    }
}

/// The text of an identifier in messages and file names.
pub fn id_text(id: u128) -> (r: String)
    ensures
        r@ == uuid_text(id),
        r@.len() == 36,
{
    uuid_hyphenated(id)
}

/// The identifier a UUID text stands for.
pub fn parse_id(s: &str) -> (r: Option<u128>)
    ensures
        r == uuid_parsed(s@),
{
    uuid_parse(s)
}

/// A fresh random identifier (version 4).
pub fn new_id() -> (r: u128) {
    random_uuid()
}

/// Whether `x` occurs in `taken`.
pub fn contains_id(taken: &Vec<u128>, x: u128) -> (r: bool)
    ensures
        r == taken@.contains(x),
{
    let mut i: usize = 0;
    while i < taken.len()
        invariant
            i <= taken.len(),
            forall|j: int| 0 <= j < i ==> taken@[j] != x,
        decreases taken.len() - i,
    {
        if taken[i] == x {
            return true;
        }
        i += 1;
    }
    false
}

/// A sequence of `n` identifiers cannot hold every integer from 0 to `n`.
proof fn lemma_some_small_id_missing(taken: Seq<u128>)
    requires
        taken.len() < u128::MAX,
    ensures
        exists|y: int| 0 <= y <= taken.len() && !#[trigger] taken.contains(y as u128),
{
    let n: int = taken.len() as int;
    if forall|y: int| 0 <= y <= n ==> #[trigger] taken.contains(y as u128) {
        let ints = taken.map_values(|x: u128| x as int);
        assert(set_int_range(0, n + 1).subset_of(ints.to_set())) by {
            assert forall|y: int| set_int_range(0, n + 1).contains(y) implies ints.to_set().contains(y) by {
                assert(taken.contains(y as u128));
                let j = choose|j: int| 0 <= j < taken.len() && taken[j] == y as u128;
                assert(ints[j] == y);
            }
        }
        ints.lemma_cardinality_of_set();
        lemma_int_range(0, n + 1);
        lemma_len_subset(set_int_range(0, n + 1), ints.to_set());
    }
}

/// `preferred` when it is not taken; otherwise an identifier that is not
/// taken either, drawn at random where possible.
pub fn fresh_id(taken: &Vec<u128>, preferred: u128) -> (r: u128)
    requires
        taken.len() < u128::MAX,
    ensures
        !taken@.contains(r),
        !taken@.contains(preferred) ==> r == preferred,
{
    if !contains_id(taken, preferred) {
        return preferred;
    }
    let drawn = random_uuid();
    if !contains_id(taken, drawn) {
        return drawn;
    }
    proof {
        lemma_some_small_id_missing(taken@);
    }
    let mut c: u128 = 0;
    while (c as usize) < taken.len()
        invariant
            c <= taken.len(),
            taken.len() < u128::MAX,
            taken@.contains(preferred),
            exists|y: int| c <= y <= taken.len() && !#[trigger] taken@.contains(y as u128),
        decreases taken.len() - c,
    {
        if !contains_id(taken, c) {
            return c;
        }
        c += 1;
    }
    let last = taken.len() as u128;
    if !contains_id(taken, last) {
        return last;
    }
    c
}

} // verus!
