//! Key naming: object keys made of a prefix, a shard label and a unique
//! identifier, and the prefix under which one run keeps its objects.

use crate::text::{decimal_text, hex_pair, is_lower_hex, lemma_hex_pair_injective, push_decimal, push_hex_pair};
use uuid::Uuid;
use vstd::prelude::*;
use vstd::string::*;

verus! {

/// Number of shards over which keys are spread.
pub const SHARDS: u64 = 256;

/// The shard of an ordinal.
pub open spec fn shard_of(ordinal: nat) -> u8 {
    (ordinal % (SHARDS as nat)) as u8
}

/// The key for a prefix, an ordinal and an identifier: the prefix, the shard
/// of the ordinal as two hexadecimal digits, and the identifier, joined by
/// slashes.
pub open spec fn key_text(prefix: Seq<char>, ordinal: nat, suffix: Seq<char>) -> Seq<char> {
    prefix + seq!['/'] + hex_pair(shard_of(ordinal)) + seq!['/'] + suffix
}

/// The shard segment of a key under a prefix of the given length: the two
/// characters behind the prefix and its slash.
pub open spec fn shard_segment(key: Seq<char>, prefix_len: nat) -> Seq<char> {
    key.subrange(prefix_len as int + 1, prefix_len as int + 3)
}

/// The form of a random identifier: 36 characters, hyphens at the positions
/// 8, 13, 18 and 23, lower-case hexadecimal digits elsewhere; among these the
/// digit at position 14 is the version, 4, and the digit at position 19 holds
/// the variant: it is one of 8, 9, a and b.
pub open spec fn is_uuid_text(s: Seq<char>) -> bool {
    &&& s.len() == 36
    &&& forall|i: int|
        0 <= i < 36 ==> if i == 8 || i == 13 || i == 18 || i == 23 {
            #[trigger] s[i] == '-'
        } else {
            is_lower_hex(s[i])
        }
    &&& s[14] == '4'
    &&& s[19] == '8' || s[19] == '9' || s[19] == 'a' || s[19] == 'b'
}

/// `key` is a key under `prefix` for `ordinal`, with a hyphenated identifier.
pub open spec fn is_generated_key(key: Seq<char>, prefix: Seq<char>, ordinal: nat) -> bool {
    exists|suffix: Seq<char>| is_uuid_text(suffix) && key == key_text(prefix, ordinal, suffix)
}

/// The prefix of a run: the base, then the start time and the run's number in
/// decimal, joined by a hyphen, between slashes.
pub open spec fn run_prefix_text(base: Seq<char>, timestamp: nat, run_id: nat) -> Seq<char> {
    base + seq!['/'] + decimal_text(timestamp) + seq!['-'] + decimal_text(run_id) + seq!['/']
}

/// `prefix` is a run prefix under `base` for a run started at `timestamp`.
pub open spec fn is_run_prefix(prefix: Seq<char>, base: Seq<char>, timestamp: nat) -> bool {
    exists|run_id: u64| prefix == run_prefix_text(base, timestamp, run_id as nat)
}

/// The texts of a list of keys.
pub open spec fn key_texts(keys: Seq<String>) -> Seq<Seq<char>> {
    Seq::new(keys.len(), |i: int| keys[i]@)
}

/// `uuid::Uuid::new_v4` and its `to_string`: a random identifier of version
/// 4 in its hyphenated lower-case form.
#[verifier::external_body]
fn fresh_identifier() -> (s: String)
    ensures
        is_uuid_text(s@),
{
    Uuid::new_v4().to_string()
}

/// `rand::random::<u64>`: a random number, of which nothing is known.
#[verifier::external_body]
fn random_run_id() -> u64 {
    rand::random::<u64>()
}

/// Builds the key for a prefix, an ordinal and an identifier.
pub fn format_key(prefix: &str, ordinal: u64, suffix: &str) -> (key: String)
    ensures
        key@ == key_text(prefix@, ordinal as nat, suffix@),
{
    proof {
        reveal_strlit("/");
    }
    let mut key = prefix.to_owned();
    key.append("/");
    push_hex_pair(&mut key, (ordinal % SHARDS) as u8);
    key.append("/");
    key.append(suffix);
    assert(key@ =~= key_text(prefix@, ordinal as nat, suffix@));
    key
}

/// Builds a fresh key under a prefix: its shard is that of the ordinal, its
/// identifier is random.
pub fn generate_key(prefix: &str, ordinal: u64) -> (key: String)
    ensures
        is_generated_key(key@, prefix@, ordinal as nat),
{
    let suffix = fresh_identifier();
    format_key(prefix, ordinal, suffix.as_str())
}

/// Builds the prefix of a run from its base, start time and number.
pub fn format_run_prefix(base: &str, timestamp: u64, run_id: u64) -> (prefix: String)
    ensures
        prefix@ == run_prefix_text(base@, timestamp as nat, run_id as nat),
{
    proof {
        reveal_strlit("/");
        reveal_strlit("-");
    }
    let mut prefix = base.to_owned();
    prefix.append("/");
    push_decimal(&mut prefix, timestamp);
    prefix.append("-");
    push_decimal(&mut prefix, run_id);
    prefix.append("/");
    assert(prefix@ =~= run_prefix_text(base@, timestamp as nat, run_id as nat));
    prefix
}

/// Builds the prefix of a new run, with a random number.
pub fn new_run_prefix(base: &str, timestamp: u64) -> (prefix: String)
    ensures
        is_run_prefix(prefix@, base@, timestamp as nat),
{
    let run_id = random_run_id();
    format_run_prefix(base, timestamp, run_id)
}

/// Law: the shard segment of a key is the shard of its ordinal, in two
/// hexadecimal digits.
pub proof fn lemma_key_shard(prefix: Seq<char>, ordinal: nat, suffix: Seq<char>)
    ensures
        shard_segment(key_text(prefix, ordinal, suffix), prefix.len()) == hex_pair(
            shard_of(ordinal),
        ),
        shard_of(ordinal) == ordinal % 256,
{
    assert(shard_segment(key_text(prefix, ordinal, suffix), prefix.len()) =~= hex_pair(
        shard_of(ordinal),
    ));
}

/// Law: under one prefix, two keys are equal only if their identifiers are
/// equal and their ordinals have the same shard. So keys with distinct
/// identifiers are distinct.
pub proof fn lemma_key_injective(
    prefix: Seq<char>,
    ordinal_a: nat,
    suffix_a: Seq<char>,
    ordinal_b: nat,
    suffix_b: Seq<char>,
)
    requires
        key_text(prefix, ordinal_a, suffix_a) == key_text(prefix, ordinal_b, suffix_b),
    ensures
        suffix_a == suffix_b,
        ordinal_a % 256 == ordinal_b % 256,
{
    let a = key_text(prefix, ordinal_a, suffix_a);
    let b = key_text(prefix, ordinal_b, suffix_b);
    let start = prefix.len() + 4;
    assert(a.len() == start + suffix_a.len());
    assert(b.len() == start + suffix_b.len());
    assert(suffix_a =~= a.subrange(start as int, a.len() as int));
    assert(suffix_b =~= b.subrange(start as int, b.len() as int));
    lemma_key_shard(prefix, ordinal_a, suffix_a);
    lemma_key_shard(prefix, ordinal_b, suffix_b);
    lemma_hex_pair_injective(shard_of(ordinal_a), shard_of(ordinal_b));
}

} // verus!
