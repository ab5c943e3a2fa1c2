//! The states of the feeds, by name.

use vstd::prelude::*;

use crate::text::{lemma_text_less, same_text, text_before, text_less};
use crate::types::FeedStatus;

verus! {

/// A map from the names of feeds to their states, in the order of the names.
#[derive(Debug)]
pub struct FeedStatusMap {
    entries: Vec<(String, FeedStatus)>,
}

/// Whether a name stands in the list.
pub open spec fn listed(entries: Seq<(String, FeedStatus)>, name: Seq<char>) -> bool {
    exists|i: int| 0 <= i < entries.len() && (#[trigger] entries[i]).0@ == name
}

/// Where a name stands in the list.
pub open spec fn place(entries: Seq<(String, FeedStatus)>, name: Seq<char>) -> int {
    choose|i: int| 0 <= i < entries.len() && (#[trigger] entries[i]).0@ == name
}

/// Whether the names in a list are in their order, each of them once.
pub open spec fn sorted_names(entries: Seq<(String, FeedStatus)>) -> bool {
    forall|i: int, j: int|
        0 <= i < j < entries.len() ==> text_less(
            (#[trigger] entries[i]).0@,
            (#[trigger] entries[j]).0@,
        )
}

/// Whether feeds are listed by name, each of them once.
pub open spec fn by_name(listing: Seq<(Seq<char>, FeedStatus)>) -> bool {
    forall|i: int, j: int|
        0 <= i < j < listing.len() ==> text_less(
            (#[trigger] listing[i]).0,
            (#[trigger] listing[j]).0,
        )
}

/// Whether a list is that of the feeds in a map: all of them and no others, with
/// their states, by name.
pub open spec fn lists(
    listing: Seq<(Seq<char>, FeedStatus)>,
    feeds: Map<Seq<char>, FeedStatus>,
) -> bool {
    &&& by_name(listing)
    &&& forall|i: int|
        0 <= i < listing.len() ==> feeds.contains_key((#[trigger] listing[i]).0)
            && feeds[listing[i].0] == listing[i].1
    &&& forall|name: Seq<char>| #[trigger]
        feeds.contains_key(name) ==> exists|i: int|
            0 <= i < listing.len() && (#[trigger] listing[i]).0 == name
}

proof fn lemma_sorted_names_differ(entries: Seq<(String, FeedStatus)>)
    requires
        sorted_names(entries),
    ensures
        forall|i: int, j: int|
            0 <= i < entries.len() && 0 <= j < entries.len() && (#[trigger] entries[i]).0@ == (
            #[trigger] entries[j]).0@ ==> i == j,
{
    assert forall|i: int, j: int|
        0 <= i < entries.len() && 0 <= j < entries.len() && (#[trigger] entries[i]).0@ == (
        #[trigger] entries[j]).0@ implies i == j by {
        lemma_text_less(entries[i].0@, entries[j].0@, entries[i].0@);
        lemma_text_less(entries[j].0@, entries[i].0@, entries[i].0@);
    }
}

/// The feeds of a map have one list.
pub proof fn listings_are_unique(
    a: Seq<(Seq<char>, FeedStatus)>,
    b: Seq<(Seq<char>, FeedStatus)>,
    feeds: Map<Seq<char>, FeedStatus>,
)
    requires
        lists(a, feeds),
        lists(b, feeds),
    ensures
        a == b,
    decreases a.len(),
{
    if a.len() == 0 {
        if b.len() > 0 {
            assert(feeds.contains_key(b[0].0));
        }
        assert(a =~= b);
    } else if b.len() == 0 {
        assert(feeds.contains_key(a[0].0));
    } else {
        let x = a.last();
        let y = b.last();
        assert(a[a.len() - 1] == x && b[b.len() - 1] == y);
        let p = choose|p: int| 0 <= p < b.len() && (#[trigger] b[p]).0 == x.0;
        let q = choose|q: int| 0 <= q < a.len() && (#[trigger] a[q]).0 == y.0;
        lemma_text_less(x.0, y.0, x.0);
        lemma_text_less(y.0, x.0, x.0);
        if p < b.len() - 1 {
            assert(text_less(b[p].0, b[b.len() - 1].0));
        }
        if q < a.len() - 1 {
            assert(text_less(a[q].0, a[a.len() - 1].0));
        }
        assert(x == y);
        lemma_list_without_last(a, feeds);
        lemma_list_without_last(b, feeds);
        listings_are_unique(a.drop_last(), b.drop_last(), feeds.remove(x.0));
        assert(a =~= a.drop_last().push(x));
        assert(b =~= b.drop_last().push(y));
    }
}

proof fn lemma_list_without_last(
    a: Seq<(Seq<char>, FeedStatus)>,
    feeds: Map<Seq<char>, FeedStatus>,
)
    requires
        a.len() > 0,
        lists(a, feeds),
    ensures
        lists(a.drop_last(), feeds.remove(a.last().0)),
{
    let rest = a.drop_last();
    let less = feeds.remove(a.last().0);
    assert forall|i: int, j: int| 0 <= i < j < rest.len() implies text_less(
        (#[trigger] rest[i]).0,
        (#[trigger] rest[j]).0,
    ) by {
        assert(rest[i] == a[i] && rest[j] == a[j]);
    }
    assert forall|i: int| 0 <= i < rest.len() implies less.contains_key((#[trigger] rest[i]).0)
        && less[rest[i].0] == rest[i].1 by {
        assert(rest[i] == a[i]);
        assert(text_less(a[i].0, a[a.len() - 1].0));
        lemma_text_less(a[i].0, a[a.len() - 1].0, a[i].0);
    }
    assert forall|name: Seq<char>| #[trigger] less.contains_key(name) implies exists|i: int|
        0 <= i < rest.len() && (#[trigger] rest[i]).0 == name by {
        assert(feeds.contains_key(name));
        let i = choose|i: int| 0 <= i < a.len() && (#[trigger] a[i]).0 == name;
        assert(i < a.len() - 1);
        assert(rest[i] == a[i]);
    }
}

impl View for FeedStatusMap {
    type V = Map<Seq<char>, FeedStatus>;

    closed spec fn view(&self) -> Map<Seq<char>, FeedStatus> {
        Map::new(
            |name: Seq<char>| listed(self.entries@, name),
            |name: Seq<char>| self.entries@[place(self.entries@, name)].1,
        )
    }
}

impl FeedStatusMap {
    #[verifier::type_invariant]
    spec fn names_are_sorted(self) -> bool {
        sorted_names(self.entries@)
    }

    /// The feeds in the order of their names.
    pub closed spec fn listing(&self) -> Seq<(Seq<char>, FeedStatus)> {
        Seq::new(self.entries@.len(), |i: int| (self.entries@[i].0@, self.entries@[i].1))
    }

    proof fn lemma_listing(&self)
        requires
            sorted_names(self.entries@),
        ensures
            lists(self.listing(), self@),
    {
        let entries = self.entries@;
        let listing = self.listing();
        lemma_sorted_names_differ(entries);
        assert forall|i: int| 0 <= i < listing.len() implies self@.contains_key(
            (#[trigger] listing[i]).0,
        ) && self@[listing[i].0] == listing[i].1 by {
            assert(entries[i].0@ == listing[i].0);
            assert(listed(entries, listing[i].0));
            assert(place(entries, listing[i].0) == i);
        }
        assert forall|name: Seq<char>| #[trigger] self@.contains_key(name) implies exists|i: int|
            0 <= i < listing.len() && (#[trigger] listing[i]).0 == name by {
            let i = place(entries, name);
            assert(entries[i].0@ == name);
            assert(listing[i].0 == name);
        }
    }

    /// A map without feeds.
    pub fn new() -> (r: Self)
        ensures
            r@ == Map::<Seq<char>, FeedStatus>::empty(),
            r.listing() == Seq::<(Seq<char>, FeedStatus)>::empty(),
    {
        let r = FeedStatusMap { entries: Vec::new() };
        assert(r@ =~= Map::<Seq<char>, FeedStatus>::empty());
        assert(r.listing() =~= Seq::<(Seq<char>, FeedStatus)>::empty());
        r
    }

    /// Sets the state of a feed.
    pub fn insert(&mut self, name: String, status: FeedStatus)
        ensures
            final(self)@ == old(self)@.insert(name@, status),
            lists(final(self).listing(), final(self)@),
    {
        proof {
            use_type_invariant(&*self);
        }
        let ghost before = self.entries@;
        let mut entries: Vec<(String, FeedStatus)> = Vec::new();
        core::mem::swap(&mut entries, &mut self.entries);
        let mut i: usize = 0;
        while i < entries.len() && text_before(entries[i].0.as_str(), name.as_str())
            invariant
                i <= entries@.len(),
                entries@ == before,
                forall|j: int| 0 <= j < i ==> text_less((#[trigger] before[j]).0@, name@),
            decreases entries@.len() - i,
        {
            i = i + 1;
        }
        let known = i < entries.len() && same_text(entries[i].0.as_str(), name.as_str());
        proof {
            lemma_sorted_names_differ(before);
            lemma_names_behind(before, name@, i as int, known);
        }
        if known {
            let kept = entries[i].0.clone();
            entries.set(i, (kept, status));
        } else {
            entries.insert(i, (name, status));
        }
        let ghost after = entries@;
        proof {
            lemma_still_sorted(before, after, name@, i as int, known);
            lemma_sorted_names_differ(after);
        }
        assert forall|other: Seq<char>| listed(after, other) == (other == name@ || listed(
            before,
            other,
        )) by {
            if listed(before, other) {
                let p = place(before, other);
                assert(after[shifted(p, i as int, known)].0@ == other);
            }
            if other == name@ {
                assert(after[i as int].0@ == name@);
            }
            if listed(after, other) && other != name@ {
                let p = place(after, other);
                assert(before[if known || p < i { p } else { p - 1 }].0@ == other);
            }
        }
        assert forall|other: Seq<char>| listed(after, other) implies after[place(after, other)].1
            == (if other == name@ {
            status
        } else {
            before[place(before, other)].1
        }) by {
            let p = place(after, other);
            if other == name@ {
                assert(after[i as int].0@ == name@);
                assert(p == i);
            } else {
                let q = place(before, other);
                assert(after[shifted(q, i as int, known)].0@ == other);
                assert(p == shifted(q, i as int, known));
            }
        }
        self.entries = entries;
        assert(self@ =~= old(self)@.insert(name@, status));
        proof {
            self.lemma_listing();
        }
    }

    /// The state of a feed.
    pub fn get(&self, name: &str) -> (r: Option<FeedStatus>)
        ensures
            r == if self@.contains_key(name@) {
                Some(self@[name@])
            } else {
                None
            },
    {
        proof {
            use_type_invariant(self);
            lemma_sorted_names_differ(self.entries@);
        }
        let mut i: usize = 0;
        while i < self.entries.len()
            invariant
                i <= self.entries@.len(),
                forall|j: int| 0 <= j < i ==> (#[trigger] self.entries@[j]).0@ != name@,
                forall|j: int, k: int|
                    0 <= j < self.entries@.len() && 0 <= k < self.entries@.len() && (
                    #[trigger] self.entries@[j]).0@ == (#[trigger] self.entries@[k]).0@ ==> j == k,
            decreases self.entries@.len() - i,
        {
            if same_text(self.entries[i].0.as_str(), name) {
                assert(self.entries@[i as int].0@ == name@);
                assert(listed(self.entries@, name@));
                return Some(self.entries[i].1);
            }
            i = i + 1;
        }
        None
    }

    /// The number of feeds.
    pub fn len(&self) -> (r: usize)
        ensures
            r == self.listing().len(),
            lists(self.listing(), self@),
    {
        proof {
            use_type_invariant(self);
            self.lemma_listing();
        }
        self.entries.len()
    }

    /// The name and state of the feed at `index` in the order of the names.
    pub fn entry(&self, index: usize) -> (r: (String, FeedStatus))
        requires
            index < self.listing().len(),
        ensures
            (r.0@, r.1) == self.listing()[index as int],
            lists(self.listing(), self@),
    {
        proof {
            use_type_invariant(self);
            self.lemma_listing();
        }
        (self.entries[index].0.clone(), self.entries[index].1)
    }

    /// Whether every feed is live.
    pub fn all_live(&self) -> (r: bool)
        ensures
            r == forall|name: Seq<char>| #[trigger]
                self@.contains_key(name) ==> self@[name] == FeedStatus::Live,
    {
        proof {
            use_type_invariant(self);
            self.lemma_listing();
        }
        let mut i: usize = 0;
        while i < self.entries.len()
            invariant
                i <= self.entries@.len(),
                forall|j: int| 0 <= j < i ==> (#[trigger] self.entries@[j]).1 == FeedStatus::Live,
                lists(self.listing(), self@),
            decreases self.entries@.len() - i,
        {
            if self.entries[i].1 != FeedStatus::Live {
                proof {
                    let name = self.listing()[i as int].0;
                    assert(self@.contains_key(name) && self@[name] != FeedStatus::Live);
                }
                return false;
            }
            i = i + 1;
        }
        assert forall|name: Seq<char>| #[trigger] self@.contains_key(name) implies self@[name]
            == FeedStatus::Live by {
            let k = choose|k: int|
                0 <= k < self.listing().len() && (#[trigger] self.listing()[k]).0 == name;
            assert(self.entries@[k].1 == FeedStatus::Live);
        }
        true
    }
}

/// Where an entry goes when another comes in at `at`, or takes the place there.
spec fn shifted(p: int, at: int, known: bool) -> int {
    if known || p < at {
        p
    } else {
        p + 1
    }
}

proof fn lemma_names_behind(
    before: Seq<(String, FeedStatus)>,
    name: Seq<char>,
    at: int,
    known: bool,
)
    requires
        sorted_names(before),
        0 <= at <= before.len(),
        at < before.len() ==> !text_less(before[at].0@, name),
        known == (at < before.len() && before[at].0@ == name),
    ensures
        forall|j: int|
            at <= j < before.len() && !(known && j == at) ==> text_less(
                name,
                (#[trigger] before[j]).0@,
            ),
{
    if at < before.len() {
        let here = before[at].0@;
        lemma_text_less(here, name, here);
        assert forall|j: int| at <= j < before.len() && !(known && j == at) implies text_less(
            name,
            (#[trigger] before[j]).0@,
        ) by {
            if j > at {
                assert(text_less(before[at].0@, before[j].0@));
                lemma_text_less(name, here, before[j].0@);
            }
        }
    }
}

proof fn lemma_still_sorted(
    before: Seq<(String, FeedStatus)>,
    after: Seq<(String, FeedStatus)>,
    name: Seq<char>,
    at: int,
    known: bool,
)
    requires
        sorted_names(before),
        0 <= at <= before.len(),
        known ==> at < before.len() && after.len() == before.len(),
        !known ==> after.len() == before.len() + 1,
        after[at].0@ == name,
        forall|p: int|
            0 <= p < before.len() && !(known && p == at) ==> after[shifted(p, at, known)]
                == #[trigger] before[p],
        forall|j: int| 0 <= j < at ==> text_less((#[trigger] before[j]).0@, name),
        forall|j: int|
            at <= j < before.len() && !(known && j == at) ==> text_less(
                name,
                (#[trigger] before[j]).0@,
            ),
    ensures
        sorted_names(after),
{
    assert forall|i: int, j: int| 0 <= i < j < after.len() implies text_less(
        (#[trigger] after[i]).0@,
        (#[trigger] after[j]).0@,
    ) by {
        let p = if known || i < at {
            i
        } else {
            i - 1
        };
        let q = if known || j < at {
            j
        } else {
            j - 1
        };
        if i != at {
            assert(after[shifted(p, at, known)] == before[p]);
        }
        if j != at {
            assert(after[shifted(q, at, known)] == before[q]);
        }
    }
}

impl Clone for FeedStatusMap {
    fn clone(&self) -> (r: Self)
        ensures
            r@ == self@,
            r.listing() == self.listing(),
    {
        proof {
            use_type_invariant(self);
        }
        let mut entries: Vec<(String, FeedStatus)> = Vec::new();
        let mut i: usize = 0;
        while i < self.entries.len()
            invariant
                i <= self.entries@.len(),
                entries@.len() == i,
                forall|j: int| 0 <= j < i ==> #[trigger] entries@[j] == self.entries@[j],
            decreases self.entries@.len() - i,
        {
            entries.push((self.entries[i].0.clone(), self.entries[i].1));
            i = i + 1;
        }
        assert(entries@ =~= self.entries@);
        FeedStatusMap { entries }
    }
}

} // verus!
