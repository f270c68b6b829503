//! The dictionary automaton: a word list compiled into a double-array trie
//! keyed by the words' surface forms.
//!
//! The compiled map is `records_of(words)`: each word with a non-empty key
//! is addressed by its index, and when several words share a key the later
//! one wins. Construction therefore never fails merely because of empty or
//! duplicate keys; only the trie builder's own structural limits are
//! reported as errors. Lookups never fail: a miss is `None`.

use vstd::prelude::*;

use crate::dictionary::{spec_current_format_version, PreparedDictionary};
use crate::parser::general_parser::DictionaryWordContainer;
use crate::parser::trie::{end_marker_free, has_end_marker, records_model, records_views,
    trie_archive, trie_builds, trie_deserialize, trie_from_records, trie_map, trie_ok, trie_search,
    trie_serialize};
use crate::parser::Error;

verus! {

/// Some word of the list has a non-empty key, so there is something for
/// the trie to hold.
pub open spec fn has_nonempty_key<WD: DictionaryWordContainer>(ws: Seq<WD>) -> bool {
    exists|i: int| 0 <= i < ws.len() && ws[i].key_view().len() > 0
}

/// The key-to-index map a word list compiles to: every non-empty key maps
/// to the index of the last word bearing it.
pub open spec fn records_of<WD: DictionaryWordContainer>(ws: Seq<WD>) -> Map<Seq<char>, u32>
    decreases ws.len(),
{
    if ws.len() == 0 {
        Map::empty()
    } else {
        let prev = records_of(ws.drop_last());
        let k = ws.last().key_view();
        if k.len() == 0 {
            prev
        } else {
            prev.insert(k, (ws.len() - 1) as u32)
        }
    }
}

/// Word `i` is the one its key addresses: the key is non-empty and no
/// later word bears the same key.
pub open spec fn retained<WD: DictionaryWordContainer>(ws: Seq<WD>, i: int) -> bool {
    &&& 0 <= i < ws.len()
    &&& ws[i].key_view().len() > 0
    &&& forall|j: int| i < j < ws.len() ==> ws[j].key_view() != ws[i].key_view()
}

/// The compiled map restricted to the first `n` words' retained entries.
pub open spec fn records_of_upto<WD: DictionaryWordContainer>(ws: Seq<WD>, n: int) -> Map<
    Seq<char>,
    u32,
>
    decreases n,
{
    if n <= 0 {
        Map::empty()
    } else {
        let prev = records_of_upto(ws, n - 1);
        if retained(ws, n - 1) {
            prev.insert(ws[n - 1].key_view(), (n - 1) as u32)
        } else {
            prev
        }
    }
}

/// The record list handed to the trie builder, restricted to the first
/// `n` words: every retained word's key paired with its index, in index
/// order.
pub open spec fn canonical_records_upto<WD: DictionaryWordContainer>(ws: Seq<WD>, n: int) -> Seq<
    (Seq<char>, u32),
>
    decreases n,
{
    if n <= 0 {
        Seq::empty()
    } else {
        let prev = canonical_records_upto(ws, n - 1);
        if retained(ws, n - 1) {
            prev.push((ws[n - 1].key_view(), (n - 1) as u32))
        } else {
            prev
        }
    }
}

/// The record list a word list compiles through: the canonical, duplicate-
/// free and empty-free form whose acceptance by the trie builder decides
/// whether construction succeeds.
pub open spec fn canonical_records<WD: DictionaryWordContainer>(ws: Seq<WD>) -> Seq<
    (Seq<char>, u32),
> {
    canonical_records_upto(ws, ws.len() as int)
}

/// What `records_of` holds: a key is present exactly when some word bears
/// it non-empty, and it maps to the last such word's index.
pub proof fn lemma_records_of_props<WD: DictionaryWordContainer>(ws: Seq<WD>, k: Seq<char>)
    requires
        ws.len() <= u32::MAX,
    ensures
        records_of(ws).contains_key(k) <==> (exists|i: int|
            0 <= i < ws.len() && ws[i].key_view() == k && k.len() > 0),
        records_of(ws).contains_key(k) ==> {
            let v = records_of(ws)[k] as int;
            &&& 0 <= v < ws.len()
            &&& ws[v].key_view() == k
            &&& forall|j: int| v < j < ws.len() ==> ws[j].key_view() != k
        },
    decreases ws.len(),
{
    if ws.len() > 0 {
        let dl = ws.drop_last();
        lemma_records_of_props(dl, k);
        assert(forall|i: int| 0 <= i < dl.len() ==> dl[i] == ws[i]);
        let lk = ws.last().key_view();
        if lk == k && k.len() > 0 {
            assert(records_of(ws)[k] == (ws.len() - 1) as u32);
            assert(ws[ws.len() - 1].key_view() == k);
        } else {
            if records_of(ws).contains_key(k) {
                let v = records_of(ws)[k] as int;
                assert(ws[v].key_view() == k);
                assert(forall|j: int| v < j < ws.len() - 1 ==> ws[j].key_view() != k);
                assert(ws[ws.len() - 1].key_view() != k);
            }
            if exists|i: int| 0 <= i < ws.len() && ws[i].key_view() == k && k.len() > 0 {
                let i = choose|i: int| 0 <= i < ws.len() && ws[i].key_view() == k && k.len() > 0;
                if i < ws.len() - 1 {
                    assert(dl[i].key_view() == k);
                } else {
                    assert(lk == k && k.len() > 0);
                }
            }
        }
    }
}

/// What `records_of_upto` holds: a key is present exactly when a retained
/// word before `n` bears it, and it maps to that word's index.
pub proof fn lemma_records_of_upto_props<WD: DictionaryWordContainer>(
    ws: Seq<WD>,
    n: int,
    k: Seq<char>,
)
    requires
        0 <= n <= ws.len() <= u32::MAX,
    ensures
        records_of_upto(ws, n).contains_key(k) <==> (exists|i: int|
            0 <= i < n && retained(ws, i) && ws[i].key_view() == k),
        records_of_upto(ws, n).contains_key(k) ==> {
            let v = records_of_upto(ws, n)[k] as int;
            &&& 0 <= v < n
            &&& retained(ws, v)
            &&& ws[v].key_view() == k
        },
    decreases n,
{
    if n > 0 {
        lemma_records_of_upto_props(ws, n - 1, k);
    }
}

/// A non-empty key that occurs in the list occurs at a retained index.
pub proof fn lemma_last_occurrence<WD: DictionaryWordContainer>(ws: Seq<WD>, k: Seq<char>)
    requires
        exists|i: int| 0 <= i < ws.len() && ws[i].key_view() == k,
        k.len() > 0,
    ensures
        exists|i: int| retained(ws, i) && ws[i].key_view() == k,
    decreases ws.len(),
{
    if ws.last().key_view() == k {
        assert(retained(ws, ws.len() - 1));
    } else {
        let dl = ws.drop_last();
        assert(forall|j: int| 0 <= j < dl.len() ==> dl[j] == ws[j]);
        let i0 = choose|i: int| 0 <= i < ws.len() && ws[i].key_view() == k;
        assert(dl[i0].key_view() == k);
        lemma_last_occurrence(dl, k);
        let i = choose|i: int| retained(dl, i) && dl[i].key_view() == k;
        assert(ws[i].key_view() == k);
        assert(forall|j: int| i < j < ws.len() - 1 ==> ws[j].key_view() != k);
        assert(ws[ws.len() - 1].key_view() != k);
        assert(retained(ws, i));
    }
}

/// The retained entries of the whole list are exactly the compiled map.
pub proof fn lemma_records_of_upto_full<WD: DictionaryWordContainer>(ws: Seq<WD>)
    requires
        ws.len() <= u32::MAX,
    ensures
        records_of_upto(ws, ws.len() as int) == records_of(ws),
{
    let n = ws.len() as int;
    let m1 = records_of_upto(ws, n);
    let m2 = records_of(ws);
    assert forall|k: Seq<char>| #[trigger] m1.contains_key(k) implies m2.contains_key(k) && m1[k]
        == m2[k] by {
        lemma_records_of_upto_props(ws, n, k);
        lemma_records_of_props(ws, k);
        let v1 = m1[k] as int;
        let v2 = m2[k] as int;
        assert(retained(ws, v1) && ws[v1].key_view() == k);
        assert(ws[v2].key_view() == k);
        if v1 < v2 {
            assert(ws[v2].key_view() != ws[v1].key_view());
        }
        if v2 < v1 {
            assert(ws[v1].key_view() != k);
        }
    }
    assert forall|k: Seq<char>| #[trigger] m2.contains_key(k) implies m1.contains_key(k) by {
        lemma_records_of_props(ws, k);
        lemma_last_occurrence(ws, k);
        lemma_records_of_upto_props(ws, n, k);
    }
    assert(m1 =~= m2);
}

/// Builds the record list handed to the trie builder: for every retained
/// word, its key paired with its index, in index order.
pub(crate) fn build_records<WD: DictionaryWordContainer>(words: &Vec<WD>) -> (r: Vec<(String, u32)>)
    requires
        words@.len() <= u32::MAX,
    ensures
        records_model(r@) == records_of(words@),
        records_views(r@) == canonical_records(words@),
        r@.len() == 0 <==> !has_nonempty_key(words@),
{
    let n = words.len();
    let mut records: Vec<(String, u32)> = Vec::new();
    proof {
        assert(records_views(records@) =~= canonical_records_upto(words@, 0));
    }
    let mut i: usize = 0;
    while i < n
        invariant
            i <= n,
            n == words@.len(),
            n <= u32::MAX,
            records_model(records@) == records_of_upto(words@, i as int),
            records_views(records@) == canonical_records_upto(words@, i as int),
            records@.len() == 0 <==> (forall|i2: int| 0 <= i2 < i ==> !retained(words@, i2)),
        decreases n - i,
    {
        let key_i = words[i].word().key();
        if !key_i.as_str().is_empty() {
            let mut dup = false;
            let mut j = i + 1;
            while j < n
                invariant
                    i < j <= n,
                    n == words@.len(),
                    i < n,
                    key_i@ == words@[i as int].key_view(),
                    dup <==> (exists|j2: int|
                        i < j2 < j && words@[j2].key_view() == words@[i as int].key_view()),
                decreases n - j,
            {
                let kj = words[j].word().key();
                if *kj == *key_i {
                    dup = true;
                }
                j = j + 1;
            }
            if !dup {
                let ghost old_records = records@;
                records.push((key_i.clone(), i as u32));
                proof {
                    assert(retained(words@, i as int));
                    assert(records@.drop_last() =~= old_records);
                    assert(records@.last().0@ == words@[i as int].key_view());
                    assert(records_model(records@) == records_of_upto(words@, i as int).insert(
                        words@[i as int].key_view(),
                        i as u32,
                    ));
                    assert(records_views(records@) =~= records_views(old_records).push(
                        (words@[i as int].key_view(), i as u32),
                    ));
                }
            } else {
                proof {
                    assert(!retained(words@, i as int));
                }
            }
        } else {
            proof {
                assert(!retained(words@, i as int));
            }
        }
        i = i + 1;
    }
    proof {
        lemma_records_of_upto_full(words@);
        if has_nonempty_key(words@) {
            let i0 = choose|i2: int| 0 <= i2 < words@.len() && words@[i2].key_view().len() > 0;
            lemma_last_occurrence(words@, words@[i0].key_view());
        }
    }
    records
}

/// The word list with its optional compiled trie. The trie is present
/// exactly when some key is non-empty, and then maps every retained key to
/// its word's index.
pub struct DoubleArrayDictionary<WD> where WD: DictionaryWordContainer {
    words: Vec<WD>,
    trie: Option<crawdad::Trie>,
}

/// A dictionary hit of length `l` at `pos`: a key of `recs` spans exactly
/// `s[pos .. pos + l]`.
pub open spec fn hit_at(recs: Map<Seq<char>, u32>, s: Seq<char>, pos: int, l: int) -> bool {
    1 <= l && pos + l <= s.len() && recs.contains_key(s.subrange(pos, pos + l))
}

/// The longest hit of length at most `n`.
pub open spec fn best_hit_upto(recs: Map<Seq<char>, u32>, s: Seq<char>, pos: int, n: int) -> Option<
    int,
>
    decreases n,
{
    if n < 1 {
        None
    } else if hit_at(recs, s, pos, n) {
        Some(n)
    } else {
        best_hit_upto(recs, s, pos, n - 1)
    }
}

/// The longest-prefix lookup at `pos`: the length of the longest key of
/// `recs` that is a prefix of `s` at `pos`, if any.
pub open spec fn spec_lookup(recs: Map<Seq<char>, u32>, s: Seq<char>, pos: int) -> Option<int> {
    best_hit_upto(recs, s, pos, s.len() - pos)
}

pub proof fn lemma_best_hit_props(recs: Map<Seq<char>, u32>, s: Seq<char>, pos: int, n: int)
    ensures
        match best_hit_upto(recs, s, pos, n) {
            Some(l) => 1 <= l <= n && hit_at(recs, s, pos, l) && (forall|l2: int|
                l < l2 <= n ==> !hit_at(recs, s, pos, l2)),
            None => forall|l2: int| 1 <= l2 <= n ==> !hit_at(recs, s, pos, l2),
        },
    decreases n,
{
    if n >= 1 && !hit_at(recs, s, pos, n) {
        lemma_best_hit_props(recs, s, pos, n - 1);
    }
}

pub proof fn lemma_best_hit_exact(recs: Map<Seq<char>, u32>, s: Seq<char>, pos: int, n: int, l: int)
    requires
        1 <= l <= n,
        hit_at(recs, s, pos, l),
        forall|l2: int| l < l2 <= n ==> !hit_at(recs, s, pos, l2),
    ensures
        best_hit_upto(recs, s, pos, n) == Some(l),
    decreases n,
{
    if n > l {
        lemma_best_hit_exact(recs, s, pos, n - 1, l);
    }
}

impl<WD> DoubleArrayDictionary<WD> where WD: DictionaryWordContainer {
    #[verifier::type_invariant]
    spec fn wf(self) -> bool {
        &&& self.words@.len() <= u32::MAX
        &&& match self.trie {
            Some(t) => trie_ok(t) && trie_map(t) == records_of(self.words@) && has_nonempty_key(
                self.words@,
            ) && end_marker_free(records_of(self.words@)),
            None => !has_nonempty_key(self.words@),
        }
    }

    /// The owned word list.
    pub closed spec fn spec_words(&self) -> Seq<WD> {
        self.words@
    }

    /// The compiled key-to-index map.
    pub open spec fn spec_records(&self) -> Map<Seq<char>, u32> {
        records_of(self.spec_words())
    }

    /// Compiles a word list. Construction succeeds exactly when there is
    /// nothing to compile (no non-empty key) or the trie builder accepts
    /// the canonical records, so it never fails merely because of empty or
    /// duplicate keys; a list without non-empty keys yields a valid,
    /// always-missing dictionary.
    pub fn try_new(words: Vec<WD>) -> (r: Result<Self, Error>)
        requires
            words@.len() <= u32::MAX,
        ensures
            r is Ok <==> !has_nonempty_key(words@) || trie_builds(canonical_records(words@)),
            match r {
                Ok(d) => d.spec_words() == words@,
                Err(e) => e matches Error::CreateDictionary(_) && has_nonempty_key(words@),
            },
    {
        let records = build_records(&words);
        if records.is_empty() {
            Ok(Self { words, trie: None })
        } else {
            match trie_from_records(&records) {
                Ok(t) => Ok(Self { words, trie: Some(t) }),
                Err(e) => Err(Error::CreateDictionary(e)),
            }
        }
    }

    /// Serializes the compiled trie alone (not the word list); `None`
    /// exactly when there is no compiled trie.
    pub fn serialize(&self) -> (r: Option<Vec<u8>>)
        ensures
            match r {
                Some(b) => has_nonempty_key(self.spec_words()) && trie_archive(b@) == Some(
                    self.spec_records(),
                ),
                None => !has_nonempty_key(self.spec_words()),
            },
    {
        proof {
            use_type_invariant(self);
        }
        match &self.trie {
            Some(t) => Some(trie_serialize(t)),
            None => None,
        }
    }

    /// The longest-prefix lookup at a character position, with the matched
    /// length: the entry for the longest non-empty key that is a prefix of
    /// `text` at `pos`.
    pub(crate) fn lookup_at<'a>(&'a self, text: &str, pos: usize) -> (r: Option<(&'a WD, usize)>)
        requires
            pos <= text@.len(),
        ensures
            match r {
                Some((w, l)) => {
                    &&& spec_lookup(self.spec_records(), text@, pos as int) == Some(l as int)
                    &&& 0 < l <= text@.len() - pos
                    &&& self.spec_records().contains_key(
                        text@.subrange(pos as int, pos + l),
                    )
                    &&& {
                        let v = self.spec_records()[text@.subrange(pos as int, pos + l)] as int;
                        &&& 0 <= v < self.spec_words().len()
                        &&& *w == self.spec_words()[v]
                    }
                    &&& w.key_view() == text@.subrange(pos as int, pos + l)
                },
                None => spec_lookup(self.spec_records(), text@, pos as int) is None,
            },
    {
        proof {
            use_type_invariant(self);
        }
        let ghost recs = self.spec_records();
        match &self.trie {
            Some(t) => {
                let n = text.unicode_len();
                let hits = trie_search(t, text, pos);
                // Walk the hits from the longest down, discarding spans
                // that end in the builder's terminator U+FFFF: those are
                // prefix-extension artifacts of the trie representation,
                // never keys (no key contains the terminator).
                let mut idx = hits.len();
                #[verifier::loop_isolation(false)]
                while idx > 0
                    invariant
                        idx <= hits@.len(),
                        forall|j: int|
                            idx <= j < hits@.len() ==> text@[pos + (#[trigger] hits@[j]).1 - 1]
                                == '\u{ffff}',
                    decreases idx,
                {
                    let (v, l) = hits[idx - 1];
                    proof {
                        assert(hits@[idx - 1].1 == l);
                        assert(0 < l <= text@.len() - pos);
                    }
                    if text.get_char(pos + l - 1) != '\u{ffff}' {
                        proof {
                            assert(hit_at(recs, text@, pos as int, l as int));
                            assert forall|l2: int|
                                l < l2 <= text@.len() - pos implies !hit_at(
                                recs,
                                text@,
                                pos as int,
                                l2,
                            ) by {
                                if hit_at(recs, text@, pos as int, l2) {
                                    let k2 = text@.subrange(pos as int, pos as int + l2);
                                    assert(recs.contains_key(k2));
                                    assert(trie_map(*t).contains_key(k2));
                                    assert(k2.len() == l2);
                                    assert(k2 == text@.subrange(
                                        pos as int,
                                        pos as int + k2.len(),
                                    ));
                                    let j = choose|j: int|
                                        0 <= j < hits@.len() && hits@[j].1 == l2;
                                    assert(j != idx - 1);
                                    if j < idx - 1 {
                                        assert(hits@[j].1 < hits@[idx - 1].1);
                                    }
                                    assert(idx <= j < hits@.len());
                                    assert(k2[l2 - 1] == '\u{ffff}');
                                    assert(has_end_marker(k2));
                                }
                            }
                            lemma_best_hit_exact(
                                recs,
                                text@,
                                pos as int,
                                text@.len() - pos,
                                l as int,
                            );
                            lemma_records_of_props(
                                self.words@,
                                text@.subrange(pos as int, pos + l),
                            );
                        }
                        return Some((&self.words[v as usize], l));
                    }
                    idx = idx - 1;
                }
                proof {
                    lemma_best_hit_props(recs, text@, pos as int, text@.len() - pos);
                    if spec_lookup(recs, text@, pos as int) is Some {
                        let l = spec_lookup(recs, text@, pos as int).unwrap();
                        assert(hit_at(recs, text@, pos as int, l));
                        let k2 = text@.subrange(pos as int, pos as int + l);
                        assert(recs.contains_key(k2));
                        assert(trie_map(*t).contains_key(k2));
                        assert(k2.len() == l);
                        assert(k2 == text@.subrange(pos as int, pos as int + k2.len()));
                        let j = choose|j: int| 0 <= j < hits@.len() && hits@[j].1 == l;
                        assert(k2[l - 1] == '\u{ffff}');
                        assert(has_end_marker(k2));
                    }
                }
                None
            },
            None => {
                proof {
                    lemma_best_hit_props(recs, text@, pos as int, text@.len() - pos);
                    if spec_lookup(recs, text@, pos as int) is Some {
                        let l = spec_lookup(recs, text@, pos as int).unwrap();
                        lemma_records_of_props(
                            self.words@,
                            text@.subrange(pos as int, pos as int + l),
                        );
                    }
                }
                None
            },
        }
    }

    /// The longest-prefix lookup from the start of `text`: the entry for
    /// the longest key that is a prefix of `text`, or `None` on a miss.
    pub fn get<'a>(&'a self, text: &str) -> (r: Option<&'a WD>)
        ensures
            match r {
                Some(w) => spec_lookup(self.spec_records(), text@, 0) matches Some(l) && {
                    let v = self.spec_records()[text@.subrange(0, l)] as int;
                    &&& 0 <= v < self.spec_words().len()
                    &&& *w == self.spec_words()[v]
                    &&& w.key_view() == text@.subrange(0, l)
                },
                None => spec_lookup(self.spec_records(), text@, 0) is None,
            },
    {
        match self.lookup_at(text, 0) {
            Some((w, _)) => Some(w),
            None => None,
        }
    }

    /// Exact full-key lookup: the entry whose key is the whole of `text`,
    /// or `None` when no key equals it.
    pub fn lookup_exact<'a>(&'a self, text: &str) -> (r: Option<&'a WD>)
        ensures
            match r {
                Some(w) => self.spec_records().contains_key(text@) && {
                    let v = self.spec_records()[text@] as int;
                    &&& 0 <= v < self.spec_words().len()
                    &&& *w == self.spec_words()[v]
                    &&& w.key_view() == text@
                },
                None => !self.spec_records().contains_key(text@),
            },
    {
        proof {
            use_type_invariant(self);
        }
        let ghost recs = self.spec_records();
        let n = text.unicode_len();
        proof {
            if recs.contains_key(text@) {
                assert(text@.subrange(0, text@.len() as int) =~= text@);
                lemma_records_of_props(self.words@, text@);
            }
            lemma_best_hit_props(recs, text@, 0, text@.len() as int);
        }
        match self.lookup_at(text, 0) {
            Some((w, l)) => {
                if l == n {
                    proof {
                        assert(text@.subrange(0, l as int) =~= text@);
                    }
                    Some(w)
                } else {
                    proof {
                        if recs.contains_key(text@) {
                            assert(hit_at(recs, text@, 0, text@.len() as int));
                        }
                    }
                    None
                }
            },
            None => {
                proof {
                    if recs.contains_key(text@) {
                        assert(hit_at(recs, text@, 0, text@.len() as int));
                    }
                }
                None
            },
        }
    }
}

impl<WD> DoubleArrayDictionary<WD> where WD: Clone + DictionaryWordContainer {
    /// Reconstructs a dictionary from a prepared bundle: a bundle of the
    /// current format version is deserialized directly (never failing),
    /// any other version is recompiled from its word list, failing only
    /// when the trie builder rejects the canonical records.
    pub fn try_from(value: PreparedDictionary<WD>) -> (r: Result<Self, Error>)
        ensures
            r is Ok <==> value.spec_format_version() == spec_current_format_version()
                || !has_nonempty_key(value.spec_words()) || trie_builds(
                canonical_records(value.spec_words()),
            ),
            match r {
                Ok(d) => d.spec_words() == value.spec_words(),
                Err(e) => e matches Error::CreateDictionary(_) && value.spec_format_version()
                    != spec_current_format_version(),
            },
    {
        let (version, words, trie_vec) = value.into_parts();
        let mut current = String::new();
        current.append(crate::dictionary::current_format_version());
        if version == current {
            let trie = trie_deserialize(&trie_vec);
            Ok(Self { words, trie: Some(trie) })
        } else {
            Self::try_new(words)
        }
    }
}

/// Idempotent construction: the compiled key map, and with it every
/// lookup's result, is a function of the word list alone, so compiling the
/// same list twice yields dictionaries with identical lookup results on
/// every input.
pub proof fn lemma_lookup_determined_by_words<WD: DictionaryWordContainer>(
    a: DoubleArrayDictionary<WD>,
    b: DoubleArrayDictionary<WD>,
    s: Seq<char>,
    pos: int,
)
    requires
        a.spec_words() == b.spec_words(),
    ensures
        a.spec_records() == b.spec_records(),
        spec_lookup(a.spec_records(), s, pos) == spec_lookup(b.spec_records(), s, pos),
{
}

/// Persisted round-trip: a dictionary reconstructed from a prepared
/// bundle carries the bundle's word list, so it answers every lookup
/// exactly as the originally compiled one; in particular every retained
/// key of the list still addresses its own word.
pub proof fn lemma_prepared_round_trip<WD: DictionaryWordContainer>(
    original: DoubleArrayDictionary<WD>,
    loaded: DoubleArrayDictionary<WD>,
)
    requires
        original.spec_words() == loaded.spec_words(),
        original.spec_words().len() <= u32::MAX,
    ensures
        forall|s: Seq<char>, pos: int| #[trigger]
            spec_lookup(loaded.spec_records(), s, pos) == spec_lookup(
                original.spec_records(),
                s,
                pos,
            ),
        forall|i: int|
            #![trigger retained(loaded.spec_words(), i)]
            retained(loaded.spec_words(), i) ==> loaded.spec_records().contains_key(
                loaded.spec_words()[i].key_view(),
            ) && loaded.spec_records()[loaded.spec_words()[i].key_view()] == i as u32,
{
    let ws = loaded.spec_words();
    assert forall|i: int|
        retained(ws, i) implies loaded.spec_records().contains_key(ws[i].key_view())
        && loaded.spec_records()[ws[i].key_view()] == i as u32 by {
        let k = ws[i].key_view();
        lemma_records_of_props(ws, k);
        let v = loaded.spec_records()[k] as int;
        if v < i {
            assert(ws[i].key_view() != k);
        }
        if i < v {
            assert(ws[v].key_view() != ws[i].key_view());
        }
    }
}

impl<WD> Default for DoubleArrayDictionary<WD> where WD: DictionaryWordContainer {
    /// The empty dictionary: no words, no trie, every lookup misses.
    fn default() -> (r: Self)
        ensures
            r.spec_words() == Seq::<WD>::empty(),
    {
        Self { words: Vec::new(), trie: None }
    }
}

} // verus!
