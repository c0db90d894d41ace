use vstd::prelude::*;
use vstd::string::*;

use crate::diagnostic::Level;
use crate::order::{
    lemma_text_less_irreflexive, lemma_text_less_total, lemma_text_less_transitive, text_before,
    text_less,
};

verus! {

/// Entries ordered strictly by key, as strings order.
pub open spec fn keys_sorted(entries: Seq<(Seq<char>, Level)>) -> bool {
    forall|i: int, j: int| 0 <= i < j < entries.len() ==> text_less(entries[i].0, entries[j].0)
}

/// The level stored for `key`, if any.
pub open spec fn lookup(entries: Seq<(Seq<char>, Level)>, key: Seq<char>) -> Option<Level>
    decreases entries.len(),
{
    if entries.len() == 0 {
        None
    } else if entries.last().0 == key {
        Some(entries.last().1)
    } else {
        lookup(entries.drop_last(), key)
    }
}

/// How many entries have a key that orders before `key`.
pub open spec fn count_before(entries: Seq<(Seq<char>, Level)>, key: Seq<char>) -> nat
    decreases entries.len(),
{
    if entries.len() == 0 {
        0
    } else {
        count_before(entries.drop_last(), key) + if text_less(entries.last().0, key) {
            1nat
        } else {
            0nat
        }
    }
}

/// Position `p` separates the entries ordered before `key` from the rest.
pub open spec fn splits_at(entries: Seq<(Seq<char>, Level)>, key: Seq<char>, p: int) -> bool {
    &&& 0 <= p <= entries.len()
    &&& forall|k: int| 0 <= k < p ==> text_less(#[trigger] entries[k].0, key)
    &&& forall|k: int| p <= k < entries.len() ==> !text_less(#[trigger] entries[k].0, key)
}

/// The entries after setting `key` to `level`: an existing entry for the key
/// is replaced in place, otherwise a new entry goes where the order puts it.
pub open spec fn insert_entry(entries: Seq<(Seq<char>, Level)>, key: Seq<char>, level: Level) -> Seq<
    (Seq<char>, Level),
> {
    let i = count_before(entries, key) as int;
    if i < entries.len() && entries[i].0 == key {
        entries.update(i, (key, level))
    } else {
        entries.insert(i, (key, level))
    }
}

proof fn lemma_count_before_prefix(entries: Seq<(Seq<char>, Level)>, key: Seq<char>, p: int)
    requires
        0 <= p <= entries.len(),
        forall|k: int| 0 <= k < p ==> text_less(#[trigger] entries[k].0, key),
        forall|k: int| p <= k < entries.len() ==> !text_less(#[trigger] entries[k].0, key),
    ensures
        count_before(entries, key) == p,
    decreases entries.len(),
{
    if entries.len() > 0 {
        let rest = entries.drop_last();
        if p == entries.len() {
            assert(text_less(entries[entries.len() - 1].0, key));
            lemma_count_before_prefix(rest, key, p - 1);
        } else {
            assert(!text_less(entries[entries.len() - 1].0, key));
            lemma_count_before_prefix(rest, key, p);
        }
    }
}

proof fn lemma_lookup_at(entries: Seq<(Seq<char>, Level)>, i: int)
    requires
        keys_sorted(entries),
        0 <= i < entries.len(),
    ensures
        lookup(entries, entries[i].0) == Some(entries[i].1),
    decreases entries.len(),
{
    if i < entries.len() - 1 {
        assert(text_less(entries[i].0, entries[entries.len() - 1].0));
        lemma_text_less_irreflexive(entries[i].0);
        lemma_lookup_at(entries.drop_last(), i);
    }
}

proof fn lemma_lookup_missing(entries: Seq<(Seq<char>, Level)>, key: Seq<char>)
    requires
        forall|k: int| 0 <= k < entries.len() ==> #[trigger] entries[k].0 != key,
    ensures
        lookup(entries, key) == None::<Level>,
    decreases entries.len(),
{
    if entries.len() > 0 {
        assert(entries[entries.len() - 1].0 != key);
        lemma_lookup_missing(entries.drop_last(), key);
    }
}

/// Looking a key up in sorted entries finds it exactly where it is stored.
proof fn lemma_lookup_sorted(entries: Seq<(Seq<char>, Level)>, key: Seq<char>)
    requires
        keys_sorted(entries),
    ensures
        lookup(entries, key) == if exists|k: int| 0 <= k < entries.len() && entries[k].0 == key {
            Some(entries[choose|k: int| 0 <= k < entries.len() && entries[k].0 == key].1)
        } else {
            None
        },
{
    if exists|k: int| 0 <= k < entries.len() && entries[k].0 == key {
        let k = choose|k: int| 0 <= k < entries.len() && entries[k].0 == key;
        lemma_lookup_at(entries, k);
    } else {
        lemma_lookup_missing(entries, key);
    }
}

/// Setting a level keeps the entries sorted, makes the key map to the new
/// level, and leaves every other key as it was: the semantics of an ordered
/// map's `insert`.
pub proof fn lemma_insert_entry(
    entries: Seq<(Seq<char>, Level)>,
    key: Seq<char>,
    level: Level,
    other: Seq<char>,
)
    requires
        keys_sorted(entries),
    ensures
        keys_sorted(insert_entry(entries, key, level)),
        lookup(insert_entry(entries, key, level), key) == Some(level),
        other != key ==> lookup(insert_entry(entries, key, level), other) == lookup(
            entries,
            other,
        ),
{
    let n = entries.len() as int;
    lemma_sorted_split(entries, key);
    // The position where the key belongs splits the entries in two.
    let p = choose|p: int| splits_at(entries, key, p);
    lemma_count_before_prefix(entries, key, p);
    let result = insert_entry(entries, key, level);
    if p < n && entries[p].0 == key {
        assert forall|i: int, j: int| 0 <= i < j < result.len() implies text_less(
            result[i].0,
            result[j].0,
        ) by {
            assert(result[i].0 == entries[i].0);
            assert(result[j].0 == entries[j].0);
        }
        lemma_lookup_at(result, p);
        if other != key {
            lemma_lookup_sorted(entries, other);
            lemma_lookup_sorted(result, other);
            if exists|k: int| 0 <= k < n && entries[k].0 == other {
                let k = choose|k: int| 0 <= k < n && entries[k].0 == other;
                assert(result[k].0 == other);
                lemma_lookup_at(result, k);
                lemma_lookup_at(entries, k);
            } else {
                assert forall|k: int| 0 <= k < result.len() implies #[trigger] result[k].0
                    != other by {
                    assert(result[k].0 == entries[k].0 || k == p);
                }
                lemma_lookup_missing(result, other);
            }
        }
    } else {
        if p < n {
            lemma_text_less_total(entries[p].0, key);
        }
        assert(result.len() == n + 1);
        assert forall|i: int, j: int| 0 <= i < j < result.len() implies text_less(
            result[i].0,
            result[j].0,
        ) by {
            if j < p {
                assert(result[i] == entries[i]);
                assert(result[j] == entries[j]);
            } else if j == p {
                assert(result[i] == entries[i]);
                assert(result[j].0 == key);
            } else if i < p {
                assert(result[i] == entries[i]);
                assert(result[j] == entries[j - 1]);
                assert(text_less(entries[i].0, key));
                assert(text_less(key, entries[p].0));
                lemma_text_less_transitive(entries[i].0, key, entries[p].0);
                if j - 1 > p {
                    lemma_text_less_transitive(entries[i].0, entries[p].0, entries[j - 1].0);
                }
            } else if i == p {
                assert(result[i].0 == key);
                assert(result[j] == entries[j - 1]);
                if j - 1 > p {
                    lemma_text_less_transitive(key, entries[p].0, entries[j - 1].0);
                }
            } else {
                assert(result[i] == entries[i - 1]);
                assert(result[j] == entries[j - 1]);
            }
        }
        assert(result[p] == (key, level));
        lemma_lookup_at(result, p);
        if other != key {
            if exists|k: int| 0 <= k < n && entries[k].0 == other {
                let k = choose|k: int| 0 <= k < n && entries[k].0 == other;
                lemma_lookup_at(entries, k);
                if k < p {
                    assert(result[k] == entries[k]);
                    lemma_lookup_at(result, k);
                } else {
                    assert(result[k + 1] == entries[k]);
                    lemma_lookup_at(result, k + 1);
                }
            } else {
                lemma_lookup_missing(entries, other);
                assert forall|k: int| 0 <= k < result.len() implies #[trigger] result[k].0
                    != other by {
                    if k < p {
                        assert(result[k] == entries[k]);
                    } else if k > p {
                        assert(result[k] == entries[k - 1]);
                    }
                }
                lemma_lookup_missing(result, other);
            }
        }
    }
}

/// Sorted entries split into those ordered before `key` and the rest.
proof fn lemma_sorted_split(entries: Seq<(Seq<char>, Level)>, key: Seq<char>)
    requires
        keys_sorted(entries),
    ensures
        exists|p: int| #[trigger] splits_at(entries, key, p),
    decreases entries.len(),
{
    let n = entries.len() as int;
    if n == 0 {
        assert(splits_at(entries, key, 0));
    } else {
        let rest = entries.drop_last();
        assert(forall|k: int| 0 <= k < n - 1 ==> rest[k] == #[trigger] entries[k]);
        lemma_sorted_split(rest, key);
        let q = choose|p: int| splits_at(rest, key, p);
        if text_less(entries[n - 1].0, key) {
            assert forall|k: int| 0 <= k < n implies text_less(#[trigger] entries[k].0, key) by {
                if k < n - 1 {
                    lemma_text_less_transitive(entries[k].0, entries[n - 1].0, key);
                }
            }
            assert(splits_at(entries, key, n));
        } else {
            assert forall|k: int| 0 <= k < q implies text_less(#[trigger] entries[k].0, key) by {
                assert(entries[k] == rest[k]);
            }
            assert forall|k: int| q <= k < n implies !text_less(#[trigger] entries[k].0, key) by {
                if k < n - 1 {
                    assert(entries[k] == rest[k]);
                }
            }
            assert(splits_at(entries, key, q));
        }
    }
}

/// Per-lint levels, ordered by lint name.
pub struct LintLevels {
    entries: Vec<(String, Level)>,
}

impl View for LintLevels {
    type V = Seq<(Seq<char>, Level)>;

    closed spec fn view(&self) -> Seq<(Seq<char>, Level)> {
        self.entries@.map_values(|entry: (String, Level)| (entry.0@, entry.1))
    }
}

impl LintLevels {
    #[verifier::type_invariant]
    spec fn inv(self) -> bool {
        keys_sorted(self@)
    }

    /// No per-lint levels.
    pub fn new() -> (levels: Self)
        ensures
            levels@ == Seq::<(Seq<char>, Level)>::empty(),
    {
        let levels = LintLevels { entries: Vec::new() };
        assert(levels@ =~= Seq::<(Seq<char>, Level)>::empty());
        levels
    }

    /// Number of configured lints; the entries are ordered strictly by name.
    pub fn len(&self) -> (count: usize)
        ensures
            count == self@.len(),
            keys_sorted(self@),
    {
        proof {
            use_type_invariant(self);
        }
        self.entries.len()
    }

    /// The lint name and level at position `index` in name order.
    pub fn entry(&self, index: usize) -> (entry: (&str, Level))
        requires
            index < self@.len(),
        ensures
            entry.0@ == self@[index as int].0,
            entry.1 == self@[index as int].1,
    {
        let pair = &self.entries[index];
        (pair.0.as_str(), pair.1)
    }

    /// Sets the level of `lint`, returning the level it had before.
    pub fn insert(&mut self, lint: String, level: Level) -> (previous: Option<Level>)
        ensures
            final(self)@ == insert_entry(old(self)@, lint@, level),
            previous == lookup(old(self)@, lint@),
    {
        proof {
            use_type_invariant(&*self);
            lemma_sorted_split(self@, lint@);
            lemma_lookup_sorted(self@, lint@);
        }
        let ghost before = self@;
        let mut index: usize = 0;
        while index < self.entries.len() && text_before(self.entries[index].0.as_str(), lint.as_str())
            invariant
                index <= self.entries@.len(),
                self@ == before,
                keys_sorted(before),
                forall|k: int| 0 <= k < index ==> text_less(#[trigger] before[k].0, lint@),
            decreases self.entries@.len() - index,
        {
            index = index + 1;
        }
        proof {
            assert forall|k: int| index <= k < before.len() implies !text_less(
                #[trigger] before[k].0,
                lint@,
            ) by {
                if k > index {
                    if text_less(before[k].0, lint@) {
                        lemma_text_less_transitive(before[index as int].0, before[k].0, lint@);
                    }
                }
            }
            lemma_count_before_prefix(before, lint@, index as int);
        }
        if index < self.entries.len() && self.entries[index].0 == lint {
            let previous = self.entries[index].1;
            proof {
                lemma_lookup_at(before, index as int);
            }
            proof {
                lemma_insert_entry(before, lint@, level, lint@);
            }
            let ghost lint_view = lint@;
            let mut entries: Vec<(String, Level)> = Vec::new();
            std::mem::swap(&mut entries, &mut self.entries);
            entries.set(index, (lint, level));
            proof {
                assert(entries@.map_values(|entry: (String, Level)| (entry.0@, entry.1))
                    =~= insert_entry(before, lint_view, level));
            }
            self.entries = entries;
            Some(previous)
        } else {
            proof {
                if index < before.len() {
                    lemma_text_less_total(before[index as int].0, lint@);
                }
                assert forall|k: int| 0 <= k < before.len() implies #[trigger] before[k].0 != lint@ by {
                    if k < index {
                        lemma_text_less_irreflexive(lint@);
                    } else if k > index {
                        lemma_text_less_transitive(lint@, before[index as int].0, before[k].0);
                        lemma_text_less_irreflexive(lint@);
                    }
                }
                lemma_lookup_missing(before, lint@);
            }
            let ghost lint_view = lint@;
            proof {
                lemma_insert_entry(before, lint_view, level, lint_view);
            }
            let mut entries: Vec<(String, Level)> = Vec::new();
            std::mem::swap(&mut entries, &mut self.entries);
            entries.insert(index, (lint, level));
            proof {
                assert(entries@.map_values(|entry: (String, Level)| (entry.0@, entry.1))
                    =~= insert_entry(before, lint_view, level));
            }
            self.entries = entries;
            None
        }
    }
}

} // verus!
