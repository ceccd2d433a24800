//! The headers of a reply, by name.

use crate::text::same_text;
use vstd::prelude::*;

verus! {

/// Names with a value each; no name stands twice.
#[derive(Debug)]
pub struct ResponseHeaders {
    entries: Vec<(String, String)>,
}

/// The row of entries lists the map: no name twice, and each with its value.
pub open spec fn lists(entries: Seq<(Seq<char>, Seq<char>)>, map: Map<Seq<char>, Seq<char>>) -> bool {
    &&& forall|i: int, j: int|
        0 <= i < j < entries.len() ==> (#[trigger] entries[i]).0 != (#[trigger] entries[j]).0
    &&& forall|i: int|
        0 <= i < entries.len() ==> map.contains_pair(
            (#[trigger] entries[i]).0,
            entries[i].1,
        )
    &&& forall|name: Seq<char>| #[trigger]
        map.contains_key(name) ==> exists|i: int|
            0 <= i < entries.len() && (#[trigger] entries[i]).0 == name
}

/// The map that a row of entries makes; where a name stands twice the last counts.
pub open spec fn entries_map(entries: Seq<(Seq<char>, Seq<char>)>) -> Map<Seq<char>, Seq<char>>
    decreases entries.len(),
{
    if entries.len() == 0 {
        Map::empty()
    } else {
        entries_map(entries.drop_last()).insert(entries.last().0, entries.last().1)
    }
}

/// Where no name stands twice, the row lists the map that it makes.
proof fn lemma_lists(entries: Seq<(Seq<char>, Seq<char>)>)
    requires
        forall|i: int, j: int|
            0 <= i < j < entries.len() ==> (#[trigger] entries[i]).0 != (#[trigger] entries[j]).0,
    ensures
        lists(entries, entries_map(entries)),
    decreases entries.len(),
{
    if entries.len() > 0 {
        let before = entries.drop_last();
        lemma_lists(before);
        let map = entries_map(entries);
        let last = entries.len() - 1;
        assert forall|i: int| 0 <= i < entries.len() implies map.contains_pair(
            (#[trigger] entries[i]).0,
            entries[i].1,
        ) by {
            if i < last {
                assert(before[i] == entries[i]);
                assert(entries[i].0 != entries[last].0);
            }
        }
        assert forall|name: Seq<char>| #[trigger] map.contains_key(name) implies exists|i: int|
            0 <= i < entries.len() && (#[trigger] entries[i]).0 == name by {
            if name == entries[last].0 {
                assert(entries[last].0 == name);
            } else {
                assert(entries_map(before).contains_key(name));
                let i = choose|i: int|
                    0 <= i < before.len() && (#[trigger] before[i]).0 == name;
                assert(entries[i].0 == name);
            }
        }
    }
}

/// A row that lists a map determines it.
proof fn lemma_lists_unique(
    entries: Seq<(Seq<char>, Seq<char>)>,
    a: Map<Seq<char>, Seq<char>>,
    b: Map<Seq<char>, Seq<char>>,
)
    requires
        lists(entries, a),
        lists(entries, b),
    ensures
        a == b,
{
    assert forall|name: Seq<char>| a.contains_key(name) <==> b.contains_key(name) by {
        if a.contains_key(name) {
            let i = choose|i: int| 0 <= i < entries.len() && (#[trigger] entries[i]).0 == name;
            assert(b.contains_pair(entries[i].0, entries[i].1));
        }
        if b.contains_key(name) {
            let i = choose|i: int| 0 <= i < entries.len() && (#[trigger] entries[i]).0 == name;
            assert(a.contains_pair(entries[i].0, entries[i].1));
        }
    }
    assert forall|name: Seq<char>| a.contains_key(name) implies a[name] == b[name] by {
        let i = choose|i: int| 0 <= i < entries.len() && (#[trigger] entries[i]).0 == name;
        assert(a.contains_pair(entries[i].0, entries[i].1));
        assert(b.contains_pair(entries[i].0, entries[i].1));
    }
    assert(a =~= b);
}

impl View for ResponseHeaders {
    type V = Map<Seq<char>, Seq<char>>;

    closed spec fn view(&self) -> Map<Seq<char>, Seq<char>> {
        entries_map(self.entries.deep_view())
    }
}

/// Where `name` stands in a row of entries, if it does.
fn position(entries: &Vec<(String, String)>, name: &str) -> (position: Option<usize>)
    ensures
        match position {
            Some(i) => i < entries@.len() && entries.deep_view()[i as int].0 == name@,
            None => forall|j: int|
                0 <= j < entries@.len() ==> (#[trigger] entries.deep_view()[j]).0 != name@,
        },
{
    let ghost all = entries.deep_view();
    let mut i: usize = 0;
    while i < entries.len()
        invariant
            i <= entries@.len(),
            all == entries.deep_view(),
            forall|j: int| 0 <= j < i ==> (#[trigger] all[j]).0 != name@,
        decreases entries@.len() - i,
    {
        assert(all[i as int] == (entries@[i as int].0@, entries@[i as int].1@));
        if same_text(entries[i].0.as_str(), name) {
            return Some(i);
        }
        i += 1;
    }
    None
}

impl ResponseHeaders {
    /// No name stands twice.
    #[verifier::type_invariant]
    closed spec fn distinct(&self) -> bool {
        lists(self.entries.deep_view(), entries_map(self.entries.deep_view()))
    }

    /// No headers.
    pub fn new() -> (headers: ResponseHeaders)
        ensures
            headers@ == Map::<Seq<char>, Seq<char>>::empty(),
    {
        let entries: Vec<(String, String)> = Vec::new();
        assert(entries.deep_view() =~= seq![]);
        proof {
            lemma_lists(entries.deep_view());
        }
        ResponseHeaders { entries }
    }

    /// Gives `name` the value `value`, in place of any before it.
    pub fn insert(&mut self, name: String, value: String)
        ensures
            final(self)@ == old(self)@.insert(name@, value@),
    {
        proof {
            use_type_invariant(&*self);
        }
        let ghost before = self.entries.deep_view();
        let ghost map = entries_map(before);
        let ghost added = (name@, value@);
        let mut entries: Vec<(String, String)> = Vec::new();
        proof {
            assert(entries.deep_view() =~= seq![]);
            lemma_lists(entries.deep_view());
        }
        std::mem::swap(&mut self.entries, &mut entries);
        match position(&entries, name.as_str()) {
            Some(i) => {
                entries.set(i, (name, value));
                proof {
                    assert(entries.deep_view() =~= before.update(i as int, added));
                    lemma_replaced(before, map, i as int, added.1);
                }
            },
            None => {
                entries.push((name, value));
                proof {
                    let after = entries.deep_view();
                    assert(after =~= before.push(added));
                    assert(after.drop_last() =~= before);
                    lemma_lists(after);
                }
            },
        }
        self.entries = entries;
    }

    /// The value of `name`, if there is one.
    pub fn get(&self, name: &str) -> (value: Option<&String>)
        ensures
            match value {
                Some(v) => self@.contains_pair(name@, v@),
                None => !self@.contains_key(name@),
            },
    {
        proof {
            use_type_invariant(self);
        }
        let ghost all = self.entries.deep_view();
        match position(&self.entries, name) {
            Some(i) => {
                assert(all[i as int] == (self.entries@[i as int].0@, self.entries@[i as int].1@));
                Some(&self.entries[i].1)
            },
            None => None,
        }
    }

    /// The names with their values, in no order that counts.
    pub fn into_entries(self) -> (entries: Vec<(String, String)>)
        ensures
            lists(entries.deep_view(), self@),
    {
        proof {
            use_type_invariant(&self);
        }
        self.entries
    }
}

/// Giving a name of a row another value gives it that value in the map.
proof fn lemma_replaced(
    entries: Seq<(Seq<char>, Seq<char>)>,
    map: Map<Seq<char>, Seq<char>>,
    i: int,
    value: Seq<char>,
)
    requires
        0 <= i < entries.len(),
        lists(entries, map),
    ensures
        ({
            let after = entries.update(i, (entries[i].0, value));
            &&& entries_map(after) == map.insert(entries[i].0, value)
            &&& lists(after, entries_map(after))
        }),
{
    let after = entries.update(i, (entries[i].0, value));
    let changed = map.insert(entries[i].0, value);
    assert forall|j: int, k: int| 0 <= j < k < after.len() implies (#[trigger] after[j]).0 != (
    #[trigger] after[k]).0 by {
        assert(after[j].0 == entries[j].0);
        assert(after[k].0 == entries[k].0);
    }
    lemma_lists(after);
    assert forall|j: int| 0 <= j < after.len() implies changed.contains_pair(
        (#[trigger] after[j]).0,
        after[j].1,
    ) by {
        if j != i {
            assert(after[j] == entries[j]);
            assert(map.contains_pair(entries[j].0, entries[j].1));
            assert(entries[j].0 != entries[i].0);
        }
    }
    assert forall|name: Seq<char>| #[trigger] changed.contains_key(name) implies exists|j: int|
        0 <= j < after.len() && (#[trigger] after[j]).0 == name by {
        if name == entries[i].0 {
            assert(after[i].0 == name);
        } else {
            assert(map.contains_key(name));
            let j = choose|j: int| 0 <= j < entries.len() && (#[trigger] entries[j]).0 == name;
            assert(after[j].0 == name);
        }
    }
    lemma_lists_unique(after, entries_map(after), changed);
}

/// A row that lists headers leaves none out and adds none: a name stands in it exactly once where
/// it has a value, with that value, and nowhere otherwise.
pub proof fn theorem_lists_are_complete(
    entries: Seq<(Seq<char>, Seq<char>)>,
    map: Map<Seq<char>, Seq<char>>,
    name: Seq<char>,
)
    requires
        lists(entries, map),
    ensures
        map.contains_key(name) <==> exists|i: int|
            0 <= i < entries.len() && (#[trigger] entries[i]).0 == name,
        forall|i: int|
            0 <= i < entries.len() && (#[trigger] entries[i]).0 == name ==> map.contains_key(name)
                && map[name] == entries[i].1,
        forall|i: int, j: int|
            0 <= i < entries.len() && 0 <= j < entries.len() && (#[trigger] entries[i]).0 == name && (
            #[trigger] entries[j]).0 == name ==> i == j,
{
    if exists|i: int| 0 <= i < entries.len() && (#[trigger] entries[i]).0 == name {
        let k = choose|k: int| 0 <= k < entries.len() && (#[trigger] entries[k]).0 == name;
        assert(map.contains_pair(entries[k].0, entries[k].1));
    }
}

/// A row makes the map of its entries: one more entry gives its name its value and leaves all other
/// names as they were.
pub proof fn theorem_entries_make_their_map(
    entries: Seq<(Seq<char>, Seq<char>)>,
    name: Seq<char>,
    value: Seq<char>,
)
    ensures
        entries_map(Seq::empty()) == Map::<Seq<char>, Seq<char>>::empty(),
        entries_map(entries.push((name, value))) == entries_map(entries).insert(name, value),
{
    assert(entries.push((name, value)).drop_last() =~= entries);
}

} // verus!
