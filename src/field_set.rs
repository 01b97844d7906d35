use vstd::prelude::*;

use crate::error::GenerationError;
use crate::tag::NoiseTag;

verus! {

/// What a sequence of `(tag, field)` entries holds, as plain values.
pub open spec fn entries_view<T>(entries: Seq<(NoiseTag, Vec<T>)>) -> Seq<(Seq<char>, Seq<T>)> {
    entries.map_values(|e: (NoiseTag, Vec<T>)| (e.0@, e.1@))
}

/// Where the first entry tagged `k` stands, if one is.
pub open spec fn tag_index<T>(es: Seq<(Seq<char>, Seq<T>)>, k: Seq<char>) -> int {
    choose|i: int| 0 <= i < es.len() && es[i].0 == k
}

/// The fields of a sequence of entries, keyed by tag.
pub open spec fn field_map<T>(es: Seq<(Seq<char>, Seq<T>)>) -> Map<Seq<char>, Seq<T>> {
    Map::new(
        |k: Seq<char>| exists|i: int| 0 <= i < es.len() && es[i].0 == k,
        |k: Seq<char>| es[tag_index(es, k)].1,
    )
}

/// Entry `i` has the expected length and a tag that no earlier entry has.
pub open spec fn entry_ok<T>(es: Seq<(Seq<char>, Seq<T>)>, i: int, n: nat) -> bool {
    &&& es[i].1.len() == n
    &&& forall|j: int| 0 <= j < i ==> es[j].0 != es[i].0
}

/// Every entry has the expected length and the tags are pairwise distinct.
pub open spec fn entries_ok<T>(es: Seq<(Seq<char>, Seq<T>)>, n: nat) -> bool {
    forall|i: int| 0 <= i < es.len() ==> entry_ok(es, i, n)
}

/// Entry `i` is the first one that breaks `entry_ok`, and `e` is the error it gives.
pub open spec fn first_bad_entry<T>(es: Seq<(Seq<char>, Seq<T>)>, n: nat, i: int, e: GenerationError) -> bool {
    &&& 0 <= i < es.len()
    &&& !entry_ok(es, i, n)
    &&& forall|j: int| 0 <= j < i ==> entry_ok(es, j, n)
    &&& if exists|j: int| 0 <= j < i && es[j].0 == es[i].0 {
        e matches GenerationError::DuplicateTag { tag } && tag@ == es[i].0
    } else {
        e == (GenerationError::ShapeMismatch { expected: n as usize, found: es[i].1.len() as usize })
    }
}

/// `e` is the error that the first bad entry gives.
pub open spec fn entries_error<T>(es: Seq<(Seq<char>, Seq<T>)>, n: nat, e: GenerationError) -> bool {
    exists|i: int| first_bad_entry(es, n, i, e)
}

/// The base field set of one generation call: one field per tag, every field of the
/// same length, no tag twice.
pub struct BaseFieldSet<T> {
    entries: Vec<(NoiseTag, Vec<T>)>,
    sample_count: usize,
}

impl<T> BaseFieldSet<T> {
    pub closed spec fn entry_seq(&self) -> Seq<(Seq<char>, Seq<T>)> {
        entries_view(self.entries@)
    }

    /// The length that every field has.
    pub closed spec fn samples(&self) -> nat {
        self.sample_count as nat
    }

    pub closed spec fn wf(&self) -> bool {
        entries_ok(self.entry_seq(), self.samples())
    }

    /// The fields, keyed by tag.
    pub open spec fn view(&self) -> Map<Seq<char>, Seq<T>> {
        field_map(self.entry_seq())
    }

    /// Checks that the tags are distinct and that every field holds `sample_count`
    /// samples, and keeps the entries as the field set.
    pub fn build(entries: Vec<(NoiseTag, Vec<T>)>, sample_count: usize) -> (r: Result<Self, GenerationError>)
        ensures
            r is Ok <==> entries_ok(entries_view(entries@), sample_count as nat),
            r matches Ok(s) ==> {
                &&& s.wf()
                &&& s.samples() == sample_count
                &&& s@ == field_map(entries_view(entries@))
                &&& forall|k: Seq<char>| s@.contains_key(k) <==> exists|i: int| 0 <= i < entries@.len() && entries@[i].0@ == k
                &&& forall|i: int| 0 <= i < entries@.len() ==> s@[entries@[i].0@] == entries@[i].1@
            },
            r matches Err(e) ==> entries_error(entries_view(entries@), sample_count as nat, e),
    {
        let ghost es = entries_view(entries@);
        let mut i: usize = 0;
        while i < entries.len()
            invariant
                es == entries_view(entries@),
                es.len() == entries@.len(),
                forall|k: int| 0 <= k < es.len() ==> #[trigger] es[k] == (entries@[k].0@, entries@[k].1@),
                0 <= i <= entries.len(),
                forall|k: int| 0 <= k < i ==> entry_ok(es, k, sample_count as nat),
            decreases entries.len() - i,
        {
            let mut j: usize = 0;
            while j < i
                invariant
                    es == entries_view(entries@),
                    es.len() == entries@.len(),
                    forall|k: int| 0 <= k < es.len() ==> #[trigger] es[k] == (entries@[k].0@, entries@[k].1@),
                    0 <= j <= i < entries.len(),
                    forall|k: int| 0 <= k < i ==> entry_ok(es, k, sample_count as nat),
                    forall|k: int| 0 <= k < j ==> es[k].0 != es[i as int].0,
                decreases i - j,
            {
                if entries[j].0.same_as(&entries[i].0) {
                    let tag = entries[i].0.0.clone();
                    let e = GenerationError::DuplicateTag { tag };
                    assert(es[j as int].0 == es[i as int].0);
                    assert(first_bad_entry(es, sample_count as nat, i as int, e));
                    return Err(e);
                }
                j = j + 1;
            }
            if entries[i].1.len() != sample_count {
                let e = GenerationError::ShapeMismatch { expected: sample_count, found: entries[i].1.len() };
                assert(first_bad_entry(es, sample_count as nat, i as int, e));
                return Err(e);
            }
            i = i + 1;
        }
        let s = BaseFieldSet { entries, sample_count };
        proof {
            assert(s.entry_seq() == es);
            assert forall|k: Seq<char>| s@.contains_key(k) <==> exists|i: int| 0 <= i < entries@.len() && entries@[i].0@ == k by {
                if s@.contains_key(k) {
                    let i = choose|i: int| 0 <= i < es.len() && es[i].0 == k;
                    assert(entries@[i].0@ == k);
                }
                if exists|i: int| 0 <= i < entries@.len() && entries@[i].0@ == k {
                    let i = choose|i: int| 0 <= i < entries@.len() && entries@[i].0@ == k;
                    assert(es[i].0 == k);
                }
            }
            assert forall|i: int| 0 <= i < entries@.len() implies s@[entries@[i].0@] == entries@[i].1@ by {
                let k = entries@[i].0@;
                assert(s.entry_seq()[i].0 == k);
                assert(s@.contains_key(k));
                let c = tag_index(es, k);
                if c < i {
                    assert(!entry_ok(es, i, sample_count as nat));
                } else if c > i {
                    assert(!entry_ok(es, c, sample_count as nat));
                }
            }
        }
        Ok(s)
    }

    /// The field computed for `tag`, if the set holds one.
    pub fn get(&self, tag: &NoiseTag) -> (r: Option<&Vec<T>>)
        requires
            self.wf(),
        ensures
            r is Some <==> self@.contains_key(tag@),
            r matches Some(f) ==> f@ == self@[tag@] && f@.len() == self.samples(),
    {
        let mut i: usize = 0;
        while i < self.entries.len()
            invariant
                self.wf(),
                0 <= i <= self.entries.len(),
                forall|k: int| 0 <= k < i ==> self.entry_seq()[k].0 != tag@,
                self.entry_seq().len() == self.entries@.len(),
                forall|k: int| 0 <= k < self.entry_seq().len() ==> #[trigger] self.entry_seq()[k] == (self.entries@[k].0@, self.entries@[k].1@),
            decreases self.entries.len() - i,
        {
            if self.entries[i].0.same_as(tag) {
                proof {
                    assert(self.entry_seq()[i as int] == (self.entries@[i as int].0@, self.entries@[i as int].1@));
                    assert(self.entry_seq()[i as int].0 == tag@);
                    assert(self@.contains_key(tag@));
                    let c = tag_index(self.entry_seq(), tag@);
                    if c < i {
                        assert(false);
                    } else if c > i {
                        assert(!entry_ok(self.entry_seq(), c, self.samples()));
                    }
                    assert(self@[tag@] == self.entry_seq()[i as int].1);
                    assert(entry_ok(self.entry_seq(), i as int, self.samples()));
                }
                return Some(&self.entries[i].1);
            }
            i = i + 1;
        }
        None
    }
}

} // verus!
