//! Trusted boundary around the double-array trie of the `crawdad` crate.
//!
//! The trie is modelled by these names: `trie_map`, the finite map from
//! key character sequences to the `u32` values they were built with;
//! `trie_ok`, structural validity of a trie obtained from the crate's own
//! constructors; and `trie_builds`, whether the builder accepts a given
//! record list (its outcome is a deterministic function of the records
//! alone). A serialized image is modelled by `trie_archive`, the key-value
//! map that deserializing the image yields (`None` when the bytes are not
//! an image produced by serialization).
//!
//! One representation detail leaks out of the search: the builder makes
//! the key set prefix-free by appending its terminator character U+FFFF to
//! a key that is a proper prefix of another, and the prefix search will
//! walk that terminator edge when the haystack itself contains U+FFFF.
//! The search contract states this faithfully, and the verified callers
//! discard such terminator hits.

use vstd::prelude::*;

verus! {

#[verifier::external_type_specification]
#[verifier::external_body]
pub struct ExTrie(crawdad::Trie);

#[verifier::external_type_specification]
#[verifier::external_body]
pub struct ExCrawdadError(crawdad::errors::CrawdadError);

/// The key-value map a trie was built with.
pub uninterp spec fn trie_map(t: crawdad::Trie) -> Map<Seq<char>, u32>;

/// Structural validity: the trie came out of the crate's builder or its
/// deserializer applied to a genuine image.
pub uninterp spec fn trie_ok(t: crawdad::Trie) -> bool;

/// Whether the builder accepts a record list (given as key characters and
/// value pairs). The builder's outcome is a deterministic function of the
/// records alone: it rejects an empty list, empty or duplicate keys, keys
/// containing its terminator U+FFFF, and key sets beyond its structural
/// limits.
pub uninterp spec fn trie_builds(records: Seq<(Seq<char>, u32)>) -> bool;

/// The key-value map encoded by a serialized trie image, `None` for bytes
/// that no serialization produced.
pub uninterp spec fn trie_archive(b: Seq<u8>) -> Option<Map<Seq<char>, u32>>;

/// The map described by a record list: later entries override earlier ones.
pub open spec fn records_model(rs: Seq<(String, u32)>) -> Map<Seq<char>, u32>
    decreases rs.len(),
{
    if rs.len() == 0 {
        Map::empty()
    } else {
        records_model(rs.drop_last()).insert(rs.last().0@, rs.last().1)
    }
}

/// The record list by key characters and values.
pub open spec fn records_views(rs: Seq<(String, u32)>) -> Seq<(Seq<char>, u32)> {
    rs.map_values(|p: (String, u32)| (p.0@, p.1))
}

/// The key contains the builder's terminator character U+FFFF.
pub open spec fn has_end_marker(k: Seq<char>) -> bool {
    exists|i: int| 0 <= i < k.len() && k[i] == '\u{ffff}'
}

/// No key of the map contains the builder's terminator character.
pub open spec fn end_marker_free(recs: Map<Seq<char>, u32>) -> bool {
    forall|k: Seq<char>| #[trigger] recs.contains_key(k) ==> !has_end_marker(k)
}

/// Relies on crawdad's `Trie::from_records`: success is a deterministic
/// function of the records, and on success the trie maps exactly the given
/// keys to the given values. The builder returns an error (never panics)
/// on an empty record list, empty or duplicate keys, keys containing its
/// terminator U+FFFF — so the keys of a built trie are terminator-free —
/// or a key set too large for the representation.
#[verifier::external_body]
pub(crate) fn trie_from_records(records: &Vec<(String, u32)>) -> (r: Result<
    crawdad::Trie,
    crawdad::errors::CrawdadError,
>)
    ensures
        r is Ok <==> trie_builds(records_views(records@)),
        r matches Ok(t) ==> trie_ok(t) && trie_map(t) == records_model(records@)
            && end_marker_free(records_model(records@)),
{
    crawdad::Trie::from_records(records.iter().map(|(k, v)| (k.as_str(), *v)))
}

/// Relies on crawdad's `Trie::serialize_to_vec`: the byte image from which
/// `Trie::deserialize_from_slice` reconstructs an equivalent trie.
#[verifier::external_body]
pub(crate) fn trie_serialize(t: &crawdad::Trie) -> (r: Vec<u8>)
    requires
        trie_ok(*t),
    ensures
        trie_archive(r@) == Some(trie_map(*t)),
{
    t.serialize_to_vec()
}

/// Relies on crawdad's `Trie::deserialize_from_slice`, the inverse of
/// `Trie::serialize_to_vec`. It is called only on genuine serialized images
/// (the requires): on other byte strings the crate's deserializer may read
/// out of bounds and panic.
#[verifier::external_body]
pub(crate) fn trie_deserialize(bytes: &Vec<u8>) -> (r: crawdad::Trie)
    requires
        trie_archive(bytes@) is Some,
    ensures
        trie_ok(r),
        Some(trie_map(r)) == trie_archive(bytes@),
{
    let (trie, _) = crawdad::Trie::deserialize_from_slice(bytes);
    trie
}

/// Relies on crawdad's `Trie::common_prefix_search`: it reports, for every
/// key of the trie that occurs as a prefix of the text at `pos`, the key's
/// value and its length in characters, in strictly increasing length
/// order. Each reported hit either spans exactly a key of the trie, or —
/// when the text itself contains the builder's terminator U+FFFF — spans a
/// key plus one trailing terminator character, with that key's value.
#[verifier::external_body]
pub(crate) fn trie_search(t: &crawdad::Trie, text: &str, pos: usize) -> (r: Vec<(u32, usize)>)
    requires
        trie_ok(*t),
        pos <= text@.len(),
    ensures
        forall|j: int|
            #![trigger r@[j]]
            0 <= j < r@.len() ==> {
                let l = r@[j].1 as int;
                &&& 0 < l <= text@.len() - pos
                &&& {
                    ||| trie_map(*t).contains_key(text@.subrange(pos as int, pos + l))
                        && trie_map(*t)[text@.subrange(pos as int, pos + l)] == r@[j].0
                    ||| text@[pos + l - 1] == '\u{ffff}' && trie_map(*t).contains_key(
                        text@.subrange(pos as int, pos + l - 1),
                    ) && trie_map(*t)[text@.subrange(pos as int, pos + l - 1)] == r@[j].0
                }
            },
        forall|k: Seq<char>|
            #![trigger trie_map(*t).contains_key(k)]
            trie_map(*t).contains_key(k) && k.len() > 0 && pos + k.len() <= text@.len() && k
                == text@.subrange(pos as int, pos + k.len()) ==> exists|j: int|
                0 <= j < r@.len() && r@[j].1 == k.len(),
        forall|j1: int, j2: int| 0 <= j1 < j2 < r@.len() ==> r@[j1].1 < r@[j2].1,
{
    t.common_prefix_search(text.chars().skip(pos)).collect()
}

} // verus!
