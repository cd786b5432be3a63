//! Calls into other crates and into parts of the standard library that carry no
//! contract of their own. Each item states what its callee is relied on for.

use std::collections::hash_map::Keys;

use vstd::prelude::*;
use vstd::std_specs::iter::IteratorSpec;
use vstd::utf8::{decode_utf8, valid_utf8};

verus! {

/// `needle` stands in `haystack` at `at`.
pub open spec fn occurs_at(haystack: Seq<u8>, needle: Seq<u8>, at: int) -> bool {
    0 <= at <= haystack.len() - needle.len()
        && haystack.subrange(at, at + needle.len()) == needle
}

/// `memchr::memmem::find`: the index of the first occurrence of `needle`, or
/// `None` when it occurs nowhere.
#[verifier::external_body]
pub(crate) fn find_bytes(haystack: &[u8], needle: &[u8]) -> (at: Option<usize>)
    ensures
        match at {
            Some(at) => occurs_at(haystack@, needle@, at as int) && forall|i: int|
                0 <= i < at ==> !occurs_at(haystack@, needle@, i),
            None => forall|i: int| !occurs_at(haystack@, needle@, i),
        },
{
    memchr::memmem::find(haystack, needle)
}

/// `memchr::memrchr`: the index of the last byte equal to `needle`, or `None`
/// when there is none.
#[verifier::external_body]
pub(crate) fn find_last_byte(needle: u8, haystack: &[u8]) -> (at: Option<usize>)
    ensures
        match at {
            Some(at) => at < haystack@.len() && haystack@[at as int] == needle && forall|i: int|
                at < i < haystack@.len() ==> haystack@[i] != needle,
            None => !haystack@.contains(needle),
        },
{
    memchr::memrchr(needle, haystack)
}

/// The 64-bit XXH3 digest of `bytes`, with the default secret and seed zero.
pub uninterp spec fn xxh3_digest(bytes: Seq<u8>) -> u64;

/// `xxhash_rust::xxh3::xxh3_64`: a digest that depends on the bytes alone.
#[verifier::external_body]
pub(crate) fn content_digest(bytes: &[u8]) -> (digest: u64)
    ensures
        digest == xxh3_digest(bytes@),
{
    xxhash_rust::xxh3::xxh3_64(bytes)
}

/// The hasher behind `foldhash::HashMap`, carried through as part of that type.
#[verifier::external_type_specification]
#[verifier::external_body]
pub struct ExFoldState(foldhash::fast::RandomState);

/// `foldhash::HashMapExt::new`: a map without entries.
#[verifier::external_body]
pub(crate) fn id_map_new<V>() -> (fresh: foldhash::HashMap<u64, V>)
    ensures
        fresh@.dom() == Set::<u64>::empty(),
{
    foldhash::HashMapExt::new()
}

/// `HashMap::len` on a `foldhash::HashMap`: the number of keys.
#[verifier::external_body]
pub(crate) fn id_map_len<V>(map: &foldhash::HashMap<u64, V>) -> (len: usize)
    ensures
        len == map@.dom().len(),
{
    map.len()
}

/// `HashMap::get` on a `foldhash::HashMap`: the value under `key`, if any.
#[verifier::external_body]
pub(crate) fn id_map_get<V>(map: &foldhash::HashMap<u64, V>, key: u64) -> (value: Option<&V>)
    ensures
        match value {
            Some(value) => map@.dom().contains(key) && *value == map@[key],
            None => !map@.dom().contains(key),
        },
{
    map.get(&key)
}

/// `HashMap::insert` on a `foldhash::HashMap`: `key` now maps to `value`, and
/// every other entry stays.
#[verifier::external_body]
pub(crate) fn id_map_insert<V>(map: &mut foldhash::HashMap<u64, V>, key: u64, value: V)
    ensures
        final(map)@ == old(map)@.insert(key, value),
{
    map.insert(key, value);
}

/// `HashMap::remove` on a `foldhash::HashMap`: the entry under `key` is gone,
/// handed out if there was one, and every other entry stays.
#[verifier::external_body]
pub(crate) fn id_map_remove<V>(map: &mut foldhash::HashMap<u64, V>, key: u64) -> (value: Option<V>)
    ensures
        final(map)@ == old(map)@.remove(key),
        match value {
            Some(value) => old(map)@.dom().contains(key) && value == old(map)@[key],
            None => !old(map)@.dom().contains(key),
        },
{
    map.remove(&key)
}

/// `HashMap::keys` on a `foldhash::HashMap`: an iterator that hands out the keys
/// of the map. In which order is left open.
#[verifier::external_body]
pub(crate) fn id_map_keys<V>(map: &foldhash::HashMap<u64, V>) -> (keys: Keys<'_, u64, V>)
    ensures
        keys.remaining().unref().to_set() == map@.dom(),
{
    map.keys()
}

/// `Iterator::next` on the keys of a map, as the trait promises it: the next of the
/// keys that remain, or `None` once there are none.
pub assume_specification<'a, K, V>[ <Keys<'a, K, V> as Iterator>::next ](
    keys: &mut Keys<'a, K, V>,
) -> (key: Option<&'a K>)
;

/// What a `foldhash::HashMap` from text to slot numbers holds.
pub uninterp spec fn slots(map: foldhash::HashMap<String, usize>) -> Map<Seq<char>, usize>;

/// `foldhash::HashMapExt::new`: a map without entries.
#[verifier::external_body]
pub(crate) fn slot_map_new() -> (fresh: foldhash::HashMap<String, usize>)
    ensures
        slots(fresh).dom() == Set::<Seq<char>>::empty(),
{
    foldhash::HashMapExt::new()
}

/// `HashMap::get` on a `foldhash::HashMap`: the slot under `key`, if any.
#[verifier::external_body]
pub(crate) fn slot_map_get<'map>(
    map: &'map foldhash::HashMap<String, usize>,
    key: &str,
) -> (slot: Option<&'map usize>)
    ensures
        match slot {
            Some(slot) => slots(*map).dom().contains(key@) && *slot == slots(*map)[key@],
            None => !slots(*map).dom().contains(key@),
        },
{
    map.get(key)
}

/// `HashMap::insert` on a `foldhash::HashMap`: `key` now maps to `slot`, and
/// every other entry stays.
#[verifier::external_body]
pub(crate) fn slot_map_insert(map: &mut foldhash::HashMap<String, usize>, key: String, slot: usize)
    ensures
        slots(*final(map)) == slots(*old(map)).insert(key@, slot),
{
    map.insert(key, slot);
}

/// `HashMap::remove` on a `foldhash::HashMap`: the entry under `key` is gone,
/// handed out if there was one, and every other entry stays.
#[verifier::external_body]
pub(crate) fn slot_map_remove(
    map: &mut foldhash::HashMap<String, usize>,
    key: &str,
) -> (slot: Option<usize>)
    ensures
        slots(*final(map)) == slots(*old(map)).remove(key@),
        match slot {
            Some(slot) => slots(*old(map)).dom().contains(key@) && slot == slots(*old(map))[key@],
            None => !slots(*old(map)).dom().contains(key@),
        },
{
    map.remove(key)
}

/// The text of bytes that are not valid UTF-8, with replacement characters where
/// they spell nothing.
pub uninterp spec fn with_replacements(bytes: Seq<u8>) -> Seq<char>;

/// The text that `bytes` spell as UTF-8, with replacement characters where they
/// spell nothing.
pub open spec fn lossy(bytes: Seq<u8>) -> Seq<char> {
    if valid_utf8(bytes) {
        decode_utf8(bytes)
    } else {
        with_replacements(bytes)
    }
}

/// `String::from_utf8_lossy`: bytes that are valid UTF-8 give exactly the text
/// they encode; what others give depends on the bytes alone.
#[verifier::external_body]
pub(crate) fn lossy_text(bytes: &[u8]) -> (text: String)
    ensures
        text@ == (if valid_utf8(bytes@) {
            decode_utf8(bytes@)
        } else {
            with_replacements(bytes@)
        }),
{
    String::from_utf8_lossy(bytes).into_owned()
}

/// `std::str::from_utf8`: the text that `bytes` encode, or `None` when they are
/// not valid UTF-8.
#[verifier::external_body]
pub(crate) fn utf8_text(bytes: &[u8]) -> (text: Option<&str>)
    ensures
        match text {
            Some(text) => valid_utf8(bytes@) && text@ == decode_utf8(bytes@),
            None => !valid_utf8(bytes@),
        },
{
    std::str::from_utf8(bytes).ok()
}

/// `String::push`: the character goes to the end.
pub assume_specification[ String::push ](text: &mut String, character: char)
    ensures
        final(text)@ == old(text)@.push(character),
;

} // verus!
