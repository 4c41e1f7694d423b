//! How often each command was used in this session: the counter that the
//! `before` hook bumps and the `commands` command reads.

use vstd::prelude::*;
use vstd::multiset::Multiset;

verus! {

/// How often `name` was recorded in `counts`; a name never recorded has
/// been used zero times.
pub open spec fn uses_of(counts: Map<Seq<char>, u64>, name: Seq<char>) -> nat {
    if counts.contains_key(name) {
        counts[name] as nat
    } else {
        0
    }
}

/// `counts` after one more use of `name`.
pub open spec fn recorded(counts: Map<Seq<char>, u64>, name: Seq<char>) -> Map<Seq<char>, u64> {
    counts.insert(name, (uses_of(counts, name) + 1) as u64)
}

/// `counts` after recording each of `names` in order.
pub open spec fn recorded_all(counts: Map<Seq<char>, u64>, names: Seq<Seq<char>>) -> Map<
    Seq<char>,
    u64,
>
    decreases names.len(),
{
    if names.len() == 0 {
        counts
    } else {
        recorded(recorded_all(counts, names.drop_last()), names.last())
    }
}

/// How many of `names` equal `name`.
pub open spec fn occurrences(names: Seq<Seq<char>>, name: Seq<char>) -> nat
    decreases names.len(),
{
    if names.len() == 0 {
        0
    } else {
        occurrences(names.drop_last(), name) + if names.last() == name {
            1nat
        } else {
            0nat
        }
    }
}

/// Names with their counts, each name once, beside the map they stand for.
struct Tally {
    entries: Vec<(String, u64)>,
    counts: Ghost<Map<Seq<char>, u64>>,
}

impl View for Tally {
    type V = Map<Seq<char>, u64>;

    closed spec fn view(&self) -> Map<Seq<char>, u64> {
        self.counts@
    }
}

impl Tally {
    /// The entries hold each name once, and they are exactly the map that
    /// the tally stands for.
    spec fn wf(&self) -> bool {
        &&& forall|i: int, j: int|
            0 <= i < j < self.entries@.len() ==> #[trigger] self.entries@[i].0@
                != #[trigger] self.entries@[j].0@
        &&& forall|i: int|
            0 <= i < self.entries@.len() ==> {
                &&& self.counts@.contains_key(#[trigger] self.entries@[i].0@)
                &&& self.counts@[self.entries@[i].0@] == self.entries@[i].1
            }
        &&& forall|k: Seq<char>|
            #[trigger] self.counts@.contains_key(k) ==> exists|i: int|
                0 <= i < self.entries@.len() && #[trigger] self.entries@[i].0@ == k
    }

    fn new() -> (c: Tally)
        ensures
            c.wf(),
            c@ == Map::<Seq<char>, u64>::empty(),
    {
        Tally { entries: Vec::new(), counts: Ghost(Map::empty()) }
    }

    /// Where `key` stands among the entries.
    fn position(&self, key: &String) -> (r: Option<usize>)
        requires
            self.wf(),
        ensures
            match r {
                Some(i) => i < self.entries@.len() && self.entries@[i as int].0@ == key@,
                None => forall|i: int|
                    0 <= i < self.entries@.len() ==> self.entries@[i].0@ != key@,
            },
    {
        let mut i: usize = 0;
        while i < self.entries.len()
            invariant
                i <= self.entries@.len(),
                forall|j: int| 0 <= j < i ==> self.entries@[j].0@ != key@,
            decreases self.entries@.len() - i,
        {
            if self.entries[i].0 == *key {
                return Some(i);
            }
            i = i + 1;
        }
        None
    }

    fn count(&self, name: &str) -> (n: u64)
        requires
            self.wf(),
        ensures
            n == uses_of(self@, name@),
    {
        let key = String::from_str(name);
        match self.position(&key) {
            Some(i) => self.entries[i].1,
            None => {
                proof {
                    if self.counts@.contains_key(name@) {
                        let i = choose|i: int|
                            0 <= i < self.entries@.len() && #[trigger] self.entries@[i].0@
                                == name@;
                        assert(self.entries@[i].0@ == key@);
                    }
                }
                0
            },
        }
    }

    fn record(&mut self, name: &str)
        requires
            old(self).wf(),
            uses_of(old(self)@, name@) < u64::MAX,
        ensures
            final(self).wf(),
            final(self)@ == recorded(old(self)@, name@),
    {
        let key = String::from_str(name);
        match self.position(&key) {
            Some(i) => {
                let c = self.entries[i].1;
                self.entries.set(i, (key, c + 1));
                self.counts = Ghost(self.counts@.insert(name@, (c + 1) as u64));
                assert forall|k: Seq<char>| #[trigger] self.counts@.contains_key(k) implies exists|
                    j: int,
                |
                    0 <= j < self.entries@.len() && #[trigger] self.entries@[j].0@ == k by {
                    if k != name@ {
                        let j = choose|j: int|
                            0 <= j < old(self).entries@.len() && #[trigger] old(
                                self,
                            ).entries@[j].0@ == k;
                        assert(self.entries@[j].0@ == k);
                    } else {
                        assert(self.entries@[i as int].0@ == k);
                    }
                }
            },
            None => {
                proof {
                    if self.counts@.contains_key(name@) {
                        let j = choose|j: int|
                            0 <= j < self.entries@.len() && #[trigger] self.entries@[j].0@
                                == name@;
                        assert(self.entries@[j].0@ == key@);
                    }
                }
                self.entries.push((key, 1));
                self.counts = Ghost(self.counts@.insert(name@, 1));
                assert forall|k: Seq<char>| #[trigger] self.counts@.contains_key(k) implies exists|
                    j: int,
                |
                    0 <= j < self.entries@.len() && #[trigger] self.entries@[j].0@ == k by {
                    if k != name@ {
                        let j = choose|j: int|
                            0 <= j < old(self).entries@.len() && #[trigger] old(
                                self,
                            ).entries@[j].0@ == k;
                        assert(self.entries@[j].0@ == k);
                    } else {
                        assert(self.entries@[self.entries@.len() - 1].0@ == k);
                    }
                }
            },
        }
    }
}

/// The number of uses of each command name in this session.
pub struct CommandCounter {
    tally: Tally,
}

impl View for CommandCounter {
    type V = Map<Seq<char>, u64>;

    closed spec fn view(&self) -> Map<Seq<char>, u64> {
        self.tally@
    }
}

impl CommandCounter {
    #[verifier::type_invariant]
    spec fn tally_wf(&self) -> bool {
        self.tally.wf()
    }

    /// A counter in which no command has been used.
    pub fn new() -> (c: CommandCounter)
        ensures
            c@ == Map::<Seq<char>, u64>::empty(),
    {
        CommandCounter { tally: Tally::new() }
    }

    /// How often `name` was used.
    pub fn count(&self, name: &str) -> (n: u64)
        ensures
            n == uses_of(self@, name@),
    {
        proof {
            use_type_invariant(self);
        }
        self.tally.count(name)
    }

    /// Records one more use of `name`, as the `before` hook does for each
    /// command it lets through.
    pub fn record(&mut self, name: &str)
        requires
            uses_of(old(self)@, name@) < u64::MAX,
        ensures
            final(self)@ == recorded(old(self)@, name@),
    {
        proof {
            use_type_invariant(&*self);
        }
        let mut tally = Tally::new();
        std::mem::swap(&mut tally, &mut self.tally);
        tally.record(name);
        self.tally = tally;
    }
}

/// A fresh counter reports zero uses of every command.
pub proof fn lemma_new_counts_nothing(name: Seq<char>)
    ensures
        uses_of(Map::<Seq<char>, u64>::empty(), name) == 0,
{
}

/// Recording `name` adds one use of `name` and leaves every other command's
/// count as it was.
pub proof fn lemma_record_counts_one(counts: Map<Seq<char>, u64>, name: Seq<char>, other: Seq<char>)
    requires
        uses_of(counts, name) < u64::MAX,
    ensures
        uses_of(recorded(counts, name), name) == uses_of(counts, name) + 1,
        other != name ==> uses_of(recorded(counts, other), name) == uses_of(counts, name),
        other != name ==> uses_of(recorded(counts, name), other) == uses_of(counts, other),
{
}

/// Starting from a fresh counter and recording the commands `names` in
/// order, the count of each command is the number of times it was
/// recorded.
pub proof fn lemma_counts_are_occurrences(names: Seq<Seq<char>>, name: Seq<char>)
    requires
        names.len() < u64::MAX,
    ensures
        uses_of(recorded_all(Map::empty(), names), name) == occurrences(names, name),
    decreases names.len(),
{
    if names.len() > 0 {
        let prefix = names.drop_last();
        lemma_counts_are_occurrences(prefix, names.last());
        lemma_counts_are_occurrences(prefix, name);
        lemma_occurrences_bounded(prefix, names.last());
    }
}

proof fn lemma_occurrences_multiset(names: Seq<Seq<char>>, name: Seq<char>)
    ensures
        occurrences(names, name) == names.to_multiset().count(name),
    decreases names.len(),
{
    broadcast use vstd::seq_lib::group_to_multiset_ensures;

    if names.len() == 0 {
        assert(names.to_multiset() =~= Multiset::<Seq<char>>::empty());
    } else {
        let prefix = names.drop_last();
        lemma_occurrences_multiset(prefix, name);
        assert(names == prefix.push(names.last()));
    }
}

/// Starting from a fresh counter and recording the commands `names`, the
/// counter holds exactly the commands that were recorded, each with the
/// number of times it was, whatever the order of the calls: two orders of
/// the same commands leave the same counts.
pub proof fn lemma_counts_ignore_order(names: Seq<Seq<char>>, others: Seq<Seq<char>>)
    requires
        names.len() < u64::MAX,
        names.to_multiset() == others.to_multiset(),
    ensures
        recorded_all(Map::empty(), names).dom() == names.to_set(),
        recorded_all(Map::empty(), names) == recorded_all(Map::empty(), others),
{
    broadcast use vstd::seq_lib::group_to_multiset_ensures;

    names.to_multiset_ensures();
    others.to_multiset_ensures();
    assert(others.len() == names.len());
    let a = recorded_all(Map::<Seq<char>, u64>::empty(), names);
    let b = recorded_all(Map::<Seq<char>, u64>::empty(), others);
    assert forall|k: Seq<char>| #![trigger a.contains_key(k)] #![trigger b.contains_key(k)]
        (a.contains_key(k) <==> names.contains(k)) && (b.contains_key(k) <==> names.contains(k))
        && (a.contains_key(k) ==> a[k] == b[k]) by {
        lemma_counts_are_occurrences(names, k);
        lemma_counts_are_occurrences(others, k);
        lemma_occurrences_multiset(names, k);
        lemma_occurrences_multiset(others, k);
        lemma_recorded_keys(names, k);
        lemma_recorded_keys(others, k);
    }
    assert(a.dom() =~= names.to_set());
    assert(a =~= b);
}

proof fn lemma_recorded_keys(names: Seq<Seq<char>>, name: Seq<char>)
    ensures
        recorded_all(Map::empty(), names).contains_key(name) <==> occurrences(names, name) > 0,
    decreases names.len(),
{
    if names.len() > 0 {
        lemma_recorded_keys(names.drop_last(), name);
    }
}

proof fn lemma_occurrences_bounded(names: Seq<Seq<char>>, name: Seq<char>)
    ensures
        occurrences(names, name) <= names.len(),
    decreases names.len(),
{
    if names.len() > 0 {
        lemma_occurrences_bounded(names.drop_last(), name);
    }
}

} // verus!
