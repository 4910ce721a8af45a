//! Metadata identity index: a growing map from normalized
//! (artist, track, duration-bucket) keys to the currently best-known
//! retained record's external id and line count. It enforces at most one
//! retained record per musical-identity key, with a longer-lyric-wins
//! tie-break: a later candidate with strictly more lines supersedes the
//! stored record, a candidate with fewer or equal lines is rejected.

use vstd::prelude::*;

verus! {

/// One retained entry: the identity key together with the retained
/// record's external id and line count.
pub struct MetaEntry {
    pub artist: Vec<char>,
    pub track: Vec<char>,
    pub bucket: u64,
    pub id: i64,
    pub lines: usize,
}

/// The identity key of an entry, as plain mathematical values.
pub open spec fn entry_key(e: MetaEntry) -> (Seq<char>, Seq<char>, u64) {
    (e.artist@, e.track@, e.bucket)
}

/// The stored value of an entry: external id and line count.
pub open spec fn entry_val(e: MetaEntry) -> (i64, usize) {
    (e.id, e.lines)
}

/// The map described by the entries from position `i` on, accumulated
/// onto `m`.
pub open spec fn model_from(
    s: Seq<MetaEntry>,
    i: int,
    m: Map<(Seq<char>, Seq<char>, u64), (i64, usize)>,
) -> Map<(Seq<char>, Seq<char>, u64), (i64, usize)>
    decreases s.len() - i,
{
    if i < 0 || i >= s.len() {
        m
    } else {
        model_from(s, i + 1, m.insert(entry_key(s[i]), entry_val(s[i])))
    }
}

/// The map described by a whole entry sequence.
pub open spec fn entries_model(s: Seq<MetaEntry>) -> Map<
    (Seq<char>, Seq<char>, u64),
    (i64, usize),
> {
    model_from(s, 0, Map::empty())
}

/// No key occurs at two positions.
pub open spec fn distinct_keys(s: Seq<MetaEntry>) -> bool {
    forall|p: int, q: int|
        0 <= p < q < s.len() ==> entry_key(s[p]) != entry_key(s[q])
}

/// Where a key is absent from the remaining entries, the accumulated map
/// decides both membership and value for that key.
proof fn lemma_model_absent(
    s: Seq<MetaEntry>,
    i: int,
    m: Map<(Seq<char>, Seq<char>, u64), (i64, usize)>,
    k: (Seq<char>, Seq<char>, u64),
)
    requires
        0 <= i <= s.len(),
        forall|j: int| i <= j < s.len() ==> entry_key(s[j]) != k,
    ensures
        model_from(s, i, m).dom().contains(k) == m.dom().contains(k),
        m.dom().contains(k) ==> model_from(s, i, m)[k] == m[k],
    decreases s.len() - i,
{
    if i < s.len() {
        lemma_model_absent(s, i + 1, m.insert(entry_key(s[i]), entry_val(s[i])), k);
    }
}

/// The entry holding a key decides that key's value in the model.
proof fn lemma_model_found(
    s: Seq<MetaEntry>,
    i: int,
    p: int,
    m: Map<(Seq<char>, Seq<char>, u64), (i64, usize)>,
)
    requires
        0 <= i <= p < s.len(),
        distinct_keys(s),
    ensures
        model_from(s, i, m).dom().contains(entry_key(s[p])),
        model_from(s, i, m)[entry_key(s[p])] == entry_val(s[p]),
    decreases p - i,
{
    let k = entry_key(s[p]);
    if i == p {
        lemma_model_absent(s, p + 1, m.insert(k, entry_val(s[p])), k);
    } else {
        lemma_model_found(s, i + 1, p, m.insert(entry_key(s[i]), entry_val(s[i])));
    }
}

/// The model only reads the entries from position `i` on.
proof fn lemma_model_congruence(
    s1: Seq<MetaEntry>,
    s2: Seq<MetaEntry>,
    i: int,
    m: Map<(Seq<char>, Seq<char>, u64), (i64, usize)>,
)
    requires
        s1.len() == s2.len(),
        0 <= i <= s1.len(),
        forall|j: int| i <= j < s1.len() ==> s1[j] == s2[j],
    ensures
        model_from(s1, i, m) == model_from(s2, i, m),
    decreases s1.len() - i,
{
    if i < s1.len() {
        lemma_model_congruence(s1, s2, i + 1, m.insert(entry_key(s1[i]), entry_val(s1[i])));
    }
}

/// Inserting a key that the remaining entries do not hold commutes with
/// folding those entries into the map.
proof fn lemma_model_insert_commutes(
    s: Seq<MetaEntry>,
    i: int,
    m: Map<(Seq<char>, Seq<char>, u64), (i64, usize)>,
    k: (Seq<char>, Seq<char>, u64),
    v: (i64, usize),
)
    requires
        0 <= i <= s.len(),
        forall|j: int| i <= j < s.len() ==> entry_key(s[j]) != k,
    ensures
        model_from(s, i, m.insert(k, v)) == model_from(s, i, m).insert(k, v),
    decreases s.len() - i,
{
    if i < s.len() {
        let ki = entry_key(s[i]);
        let vi = entry_val(s[i]);
        assert(m.insert(k, v).insert(ki, vi) =~= m.insert(ki, vi).insert(k, v));
        lemma_model_insert_commutes(s, i + 1, m.insert(ki, vi), k, v);
    }
}

/// Appending an entry inserts its key into the model.
proof fn lemma_model_push(
    s: Seq<MetaEntry>,
    e: MetaEntry,
    i: int,
    m: Map<(Seq<char>, Seq<char>, u64), (i64, usize)>,
)
    requires
        0 <= i <= s.len(),
    ensures
        model_from(s.push(e), i, m) == model_from(s, i, m).insert(entry_key(e), entry_val(e)),
    decreases s.len() - i,
{
    if i < s.len() {
        assert(s.push(e)[i] == s[i]);
        lemma_model_push(s, e, i + 1, m.insert(entry_key(s[i]), entry_val(s[i])));
    } else {
        assert(s.push(e)[s.len() as int] == e);
        assert(model_from(s.push(e), i, m) == model_from(
            s.push(e),
            i + 1,
            m.insert(entry_key(e), entry_val(e)),
        ));
        assert(model_from(s.push(e), i + 1, m.insert(entry_key(e), entry_val(e))) == m.insert(
            entry_key(e),
            entry_val(e),
        ));
    }
}

/// Replacing the one entry that holds a key updates that key's value in
/// the model.
proof fn lemma_model_update(
    s: Seq<MetaEntry>,
    p: int,
    e: MetaEntry,
    i: int,
    m: Map<(Seq<char>, Seq<char>, u64), (i64, usize)>,
)
    requires
        0 <= i <= p < s.len(),
        distinct_keys(s),
        entry_key(e) == entry_key(s[p]),
    ensures
        model_from(s.update(p, e), i, m) == model_from(s, i, m).insert(
            entry_key(e),
            entry_val(e),
        ),
    decreases p - i,
{
    let k = entry_key(e);
    let su = s.update(p, e);
    if i == p {
        assert(su[p] == e);
        lemma_model_congruence(su, s, p + 1, m.insert(k, entry_val(e)));
        assert(forall|j: int| p + 1 <= j < s.len() ==> entry_key(s[j]) != k);
        lemma_model_insert_commutes(s, p + 1, m, k, entry_val(e));
        lemma_model_insert_commutes(s, p + 1, m, k, entry_val(s[p]));
        assert(model_from(s, p + 1, m).insert(k, entry_val(s[p])).insert(k, entry_val(e)) =~= model_from(
            s,
            p + 1,
            m,
        ).insert(k, entry_val(e)));
    } else {
        assert(su[i] == s[i]);
        assert(entry_key(s[i]) != k);
        lemma_model_update(s, p, e, i + 1, m.insert(entry_key(s[i]), entry_val(s[i])));
    }
}

/// Compare two character vectors.
fn chars_eq(a: &Vec<char>, b: &Vec<char>) -> (r: bool)
    ensures
        r == (a@ == b@),
{
    if a.len() != b.len() {
        return false;
    }
    let n = a.len();
    let mut i: usize = 0;
    while i < n
        invariant
            n == a@.len() == b@.len(),
            i <= n,
            forall|j: int| 0 <= j < i ==> a@[j] == b@[j],
        decreases n - i,
    {
        if a[i] != b[i] {
            return false;
        }
        i = i + 1;
    }
    proof {
        assert(a@ =~= b@);
    }
    true
}

/// The outcome of resolving a candidate against the index.
#[derive(Clone, Copy, Debug, PartialEq, Eq)]
pub enum MetaOutcome {
    /// The key was absent; the candidate is now its retained record.
    Insert,
    /// The key was present with fewer lines; the candidate replaces the
    /// retained record, whose external id is carried for deletion.
    Supersede(i64),
    /// The key was present with at least as many lines; the candidate is
    /// dropped.
    RejectAsShorter,
}

/// The growing metadata identity index of a run.
pub struct MetaIndex {
    entries: Vec<MetaEntry>,
}

impl MetaIndex {
    /// The map this index holds: identity key to (id, line count).
    pub closed spec fn model(&self) -> Map<(Seq<char>, Seq<char>, u64), (i64, usize)> {
        entries_model(self.entries@)
    }

    /// Internal shape: no identity key is stored twice.
    pub closed spec fn wf(&self) -> bool {
        distinct_keys(self.entries@)
    }

    /// An empty index.
    pub fn new() -> (idx: MetaIndex)
        ensures
            idx.wf(),
            idx.model() == Map::<(Seq<char>, Seq<char>, u64), (i64, usize)>::empty(),
    {
        MetaIndex { entries: Vec::new() }
    }

    /// Resolve a candidate record against the index, applying the
    /// longer-lyric-wins policy for its identity key.
    pub fn resolve(
        &mut self,
        artist: Vec<char>,
        track: Vec<char>,
        bucket: u64,
        id: i64,
        lines: usize,
    ) -> (o: MetaOutcome)
        requires
            old(self).wf(),
        ensures
            final(self).wf(),
            ({
                let k = (artist@, track@, bucket);
                let m = old(self).model();
                if !m.dom().contains(k) {
                    o == MetaOutcome::Insert && final(self).model() == m.insert(k, (id, lines))
                } else if m[k].1 >= lines {
                    o == MetaOutcome::RejectAsShorter && final(self).model() == m
                } else {
                    o == MetaOutcome::Supersede(m[k].0) && final(self).model() == m.insert(
                        k,
                        (id, lines),
                    )
                }
            }),
    {
        let ghost k = (artist@, track@, bucket);
        let ghost s0 = self.entries@;
        let n = self.entries.len();
        let mut p: usize = 0;
        while p < n
            invariant
                self.entries@ == s0,
                n == s0.len(),
                p <= n,
                forall|j: int| 0 <= j < p ==> entry_key(s0[j]) != k,
                k == (artist@, track@, bucket),
                s0 == old(self).entries@,
                distinct_keys(s0),
            decreases n - p,
        {
            let hit = chars_eq(&self.entries[p].artist, &artist) && chars_eq(
                &self.entries[p].track,
                &track,
            ) && self.entries[p].bucket == bucket;
            if hit {
                assert(entry_key(s0[p as int]) == k);
                proof {
                    lemma_model_found(s0, 0, p as int, Map::empty());
                }
                let prev_id = self.entries[p].id;
                let prev_lines = self.entries[p].lines;
                if prev_lines >= lines {
                    return MetaOutcome::RejectAsShorter;
                }
                // The candidate has strictly more lines: supersede.
                self.entries[p].id = id;
                self.entries[p].lines = lines;
                proof {
                    let e = self.entries@[p as int];
                    assert(self.entries@ =~= s0.update(p as int, e));
                    assert(entry_key(e) == k);
                    lemma_model_update(s0, p as int, e, 0, Map::empty());
                    assert(forall|q1: int, q2: int|
                        0 <= q1 < q2 < self.entries@.len() ==> entry_key(self.entries@[q1])
                            != entry_key(self.entries@[q2])) by {
                        assert(forall|q: int|
                            0 <= q < s0.len() && q != p ==> entry_key(self.entries@[q])
                                == entry_key(s0[q]));
                    }
                }
                return MetaOutcome::Supersede(prev_id);
            }
            p = p + 1;
        }
        // Key absent: insert the candidate.
        proof {
            lemma_model_absent(s0, 0, Map::empty(), k);
        }
        let e = MetaEntry { artist, track, bucket, id, lines };
        assert(entry_key(e) == k);
        self.entries.push(e);
        proof {
            lemma_model_push(s0, e, 0, Map::empty());
            assert(forall|q1: int, q2: int|
                0 <= q1 < q2 < self.entries@.len() ==> entry_key(self.entries@[q1]) != entry_key(
                    self.entries@[q2],
                )) by {
                assert(forall|q: int| 0 <= q < s0.len() ==> self.entries@[q] == s0[q]);
                assert(self.entries@[s0.len() as int] == e);
            }
        }
        MetaOutcome::Insert
    }
}

} // verus!
