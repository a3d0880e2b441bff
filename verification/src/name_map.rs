//! A map from names to values, walked in the order of the names.

use vstd::prelude::*;

use crate::text::precedes;
use crate::text::precedes_is_irreflexive;
use crate::text::precedes_is_total;
use crate::text::precedes_is_transitive;
use crate::text::same_text;
use crate::text::text_precedes;

verus! {

/// Each name comes strictly before the next, so no name occurs twice.
pub open spec fn ascending<U>(entries: Seq<(Seq<char>, U)>) -> bool {
    forall|i: int, j: int|
        0 <= i < j < entries.len() ==> precedes(#[trigger] entries[i].0, #[trigger] entries[j].0)
}

/// What `entries` say of each name. Of two entries under one name the later counts.
pub open spec fn by_name<U>(entries: Seq<(Seq<char>, U)>) -> Map<Seq<char>, U>
    decreases entries.len(),
{
    if entries.len() == 0 {
        Map::empty()
    } else {
        by_name(entries.drop_last()).insert(entries.last().0, entries.last().1)
    }
}

/// The names and values of `pairs`.
pub open spec fn pairs_view<T: View>(pairs: Seq<(String, T)>) -> Seq<(Seq<char>, T::V)> {
    pairs.map_values(|pair: (String, T)| (pair.0@, pair.1@))
}

/// A map from names to values. Its view lists the entries in the order of the names.
#[derive(Debug, PartialEq)]
pub struct NameMap<T: View> {
    entries: Vec<(String, T)>,
}

impl<T: View> View for NameMap<T> {
    type V = Seq<(Seq<char>, T::V)>;

    closed spec fn view(&self) -> Seq<(Seq<char>, T::V)> {
        pairs_view(self.entries@)
    }
}

/// A name is in the map exactly if an entry bears it.
pub proof fn by_name_contains<U>(entries: Seq<(Seq<char>, U)>, name: Seq<char>)
    ensures
        by_name(entries).contains_key(name) <==> exists|i: int|
            0 <= i < entries.len() && #[trigger] entries[i].0 == name,
    decreases entries.len(),
{
    if entries.len() > 0 {
        let rest = entries.drop_last();
        by_name_contains(rest, name);
        if by_name(entries).contains_key(name) && entries.last().0 != name {
            let i = choose|i: int| 0 <= i < rest.len() && #[trigger] rest[i].0 == name;
            assert(entries[i].0 == name);
        }
        if exists|i: int| 0 <= i < entries.len() && #[trigger] entries[i].0 == name {
            let i = choose|i: int| 0 <= i < entries.len() && #[trigger] entries[i].0 == name;
            if i < rest.len() {
                assert(rest[i].0 == name);
            }
        }
    }
}

/// In an ascending list the map holds what each entry says.
pub proof fn by_name_of_ascending<U>(entries: Seq<(Seq<char>, U)>, i: int)
    requires
        ascending(entries),
        0 <= i < entries.len(),
    ensures
        by_name(entries).contains_key(entries[i].0),
        by_name(entries)[entries[i].0] == entries[i].1,
    decreases entries.len(),
{
    let rest = entries.drop_last();
    if i < rest.len() {
        assert(ascending(rest)) by {
            assert forall|a: int, b: int| 0 <= a < b < rest.len() implies precedes(
                #[trigger] rest[a].0,
                #[trigger] rest[b].0,
            ) by {
                assert(precedes(entries[a].0, entries[b].0));
            }
        }
        by_name_of_ascending(rest, i);
        assert(rest[i] == entries[i]);
        assert(precedes(entries[i].0, entries[entries.len() - 1].0));
        precedes_is_irreflexive(entries[i].0);
    }
}

/// The value at each place is the one that the map is seen to hold there.
pub proof fn value_is_the_one_in_view<T: View>(map: NameMap<T>, index: int)
    requires
        0 <= index < map@.len(),
    ensures
        map.value(index)@ == map@[index].1,
{
}

/// An ascending list is the only one, in its order, of the map that it makes up.
proof fn by_name_is<U>(entries: Seq<(Seq<char>, U)>, map: Map<Seq<char>, U>)
    requires
        ascending(entries),
        forall|name: Seq<char>| #[trigger]
            map.contains_key(name) <==> exists|i: int|
                0 <= i < entries.len() && #[trigger] entries[i].0 == name,
        forall|i: int| 0 <= i < entries.len() ==> map[#[trigger] entries[i].0] == entries[i].1,
    ensures
        by_name(entries) == map,
{
    assert forall|name: Seq<char>| #[trigger]
        by_name(entries).contains_key(name) == map.contains_key(name) && (map.contains_key(name)
            ==> by_name(entries)[name] == map[name]) by {
        by_name_contains(entries, name);
        if map.contains_key(name) {
            let i = choose|i: int| 0 <= i < entries.len() && #[trigger] entries[i].0 == name;
            by_name_of_ascending(entries, i);
        }
    }
    assert(by_name(entries) =~= map);
}

/// The entries of the map that `pairs` make up, in the order of the names.
pub open spec fn in_name_order<U>(pairs: Seq<(Seq<char>, U)>) -> Seq<(Seq<char>, U)> {
    choose|entries: Seq<(Seq<char>, U)>| #[trigger]
        ascending(entries) && by_name(entries) == by_name(pairs)
}

/// A map has one list of entries in the order of the names.
pub proof fn ascending_is_unique<U>(a: Seq<(Seq<char>, U)>, b: Seq<(Seq<char>, U)>)
    requires
        ascending(a),
        ascending(b),
        by_name(a) == by_name(b),
    ensures
        a == b,
    decreases a.len(),
{
    if a.len() == 0 {
        if b.len() > 0 {
            assert(by_name(b).contains_key(b.last().0));
        }
        assert(a == b);
    } else {
        let name = a.last().0;
        assert(by_name(b).contains_key(name));
        by_name_contains(b, name);
        let j = choose|j: int| 0 <= j < b.len() && #[trigger] b[j].0 == name;
        by_name_contains(a, b.last().0);
        assert(by_name(b).contains_key(b.last().0));
        let i = choose|i: int| 0 <= i < a.len() && #[trigger] a[i].0 == b.last().0;
        if name != b.last().0 {
            assert(precedes(b[j].0, b[b.len() - 1].0));
            assert(precedes(a[i].0, a[a.len() - 1].0));
            precedes_is_transitive(name, b.last().0, name);
            precedes_is_irreflexive(name);
        }
        assert(b.len() > 0 && name == b.last().0);
        assert(by_name(a)[name] == a.last().1);
        assert(by_name(b)[name] == b.last().1);
        assert(a.last() == b.last());
        dropped_last(a);
        dropped_last(b);
        ascending_is_unique(a.drop_last(), b.drop_last());
        assert(a == a.drop_last().push(a.last()));
        assert(b == b.drop_last().push(b.last()));
    }
}

/// An ascending list can take in one more name, or another value under one of its names.
proof fn can_take_in<U>(entries: Seq<(Seq<char>, U)>, name: Seq<char>, value: U) -> (grown: Seq<
    (Seq<char>, U),
>)
    requires
        ascending(entries),
    ensures
        ascending(grown),
        by_name(grown) == by_name(entries).insert(name, value),
    decreases entries.len(),
{
    if entries.len() == 0 {
        let grown = entries.push((name, value));
        assert(grown.drop_last() == entries);
        grown
    } else {
        let rest = entries.drop_last();
        let last = entries.last();
        dropped_last(entries);
        precedes_is_total(last.0, name);
        if last.0 == name {
            let grown = rest.push((name, value));
            assert(grown.drop_last() == rest);
            assert forall|a: int, b: int| 0 <= a < b < grown.len() implies precedes(
                #[trigger] grown[a].0,
                #[trigger] grown[b].0,
            ) by {
                assert(precedes(entries[a].0, entries[b].0));
            }
            assert(by_name(grown) =~= by_name(entries).insert(name, value));
            grown
        } else if precedes(last.0, name) {
            let grown = entries.push((name, value));
            assert(grown.drop_last() == entries);
            assert forall|a: int, b: int| 0 <= a < b < grown.len() implies precedes(
                #[trigger] grown[a].0,
                #[trigger] grown[b].0,
            ) by {
                if b < entries.len() {
                    assert(precedes(entries[a].0, entries[b].0));
                } else if a < entries.len() - 1 {
                    assert(precedes(entries[a].0, entries[entries.len() - 1].0));
                    precedes_is_transitive(entries[a].0, last.0, name);
                }
            }
            grown
        } else {
            let below = can_take_in(rest, name, value);
            let grown = below.push(last);
            assert(grown.drop_last() == below);
            assert forall|a: int, b: int| 0 <= a < b < grown.len() implies precedes(
                #[trigger] grown[a].0,
                #[trigger] grown[b].0,
            ) by {
                if b < below.len() {
                    assert(precedes(below[a].0, below[b].0));
                } else if below[a].0 != name {
                    by_name_contains(below, below[a].0);
                    by_name_contains(rest, below[a].0);
                    let k = choose|k: int| 0 <= k < rest.len() && #[trigger] rest[k].0 == below[a].0;
                    assert(precedes(entries[k].0, entries[entries.len() - 1].0));
                }
            }
            assert(by_name(grown) =~= by_name(entries).insert(name, value));
            grown
        }
    }
}

/// Any pairs can be listed in the order of their names.
pub proof fn name_order_exists<U>(pairs: Seq<(Seq<char>, U)>)
    ensures
        ascending(in_name_order(pairs)),
        by_name(in_name_order(pairs)) == by_name(pairs),
    decreases pairs.len(),
{
    if pairs.len() == 0 {
        assert(ascending(pairs));
    } else {
        name_order_exists(pairs.drop_last());
        let listed = can_take_in(
            in_name_order(pairs.drop_last()),
            pairs.last().0,
            pairs.last().1,
        );
        assert(ascending(listed) && by_name(listed) == by_name(pairs));
    }
}

/// Without its last entry an ascending list makes up the map without that name.
proof fn dropped_last<U>(entries: Seq<(Seq<char>, U)>)
    requires
        ascending(entries),
        entries.len() > 0,
    ensures
        ascending(entries.drop_last()),
        by_name(entries.drop_last()) == by_name(entries).remove(entries.last().0),
{
    let rest = entries.drop_last();
    assert forall|a: int, b: int| 0 <= a < b < rest.len() implies precedes(
        #[trigger] rest[a].0,
        #[trigger] rest[b].0,
    ) by {
        assert(precedes(entries[a].0, entries[b].0));
    }
    by_name_contains(rest, entries.last().0);
    if by_name(rest).contains_key(entries.last().0) {
        let i = choose|i: int| 0 <= i < rest.len() && #[trigger] rest[i].0 == entries.last().0;
        assert(precedes(entries[i].0, entries[entries.len() - 1].0));
        precedes_is_irreflexive(entries.last().0);
    }
    assert(by_name(rest) =~= by_name(entries).remove(entries.last().0));
}

/// A new name put at its place keeps the order and adds one entry to the map.
proof fn by_name_of_inserted<U>(entries: Seq<(Seq<char>, U)>, at: int, name: Seq<char>, value: U)
    requires
        ascending(entries),
        0 <= at <= entries.len(),
        forall|i: int| 0 <= i < at ==> precedes(#[trigger] entries[i].0, name),
        at < entries.len() ==> precedes(name, entries[at].0),
    ensures
        ascending(entries.insert(at, (name, value))),
        !by_name(entries).contains_key(name),
        by_name(entries.insert(at, (name, value))) == by_name(entries).insert(name, value),
{
    let grown = entries.insert(at, (name, value));
    assert forall|i: int| at <= i < entries.len() implies precedes(
        name,
        #[trigger] entries[i].0,
    ) by {
        if i > at {
            precedes_is_transitive(name, entries[at].0, entries[i].0);
        }
    }
    assert forall|i: int, j: int| 0 <= i < j < grown.len() implies precedes(
        #[trigger] grown[i].0,
        #[trigger] grown[j].0,
    ) by {
        let a = if i < at { i } else { i - 1 };
        let b = if j < at { j } else { j - 1 };
        if i != at {
            assert(grown[i] == entries[a]);
        }
        if j != at {
            assert(grown[j] == entries[b]);
        }
    }
    precedes_is_irreflexive(name);
    by_name_contains(entries, name);
    let map = by_name(entries).insert(name, value);
    assert forall|other: Seq<char>| #[trigger] map.contains_key(other) <==> exists|i: int|
        0 <= i < grown.len() && #[trigger] grown[i].0 == other by {
        by_name_contains(entries, other);
        if map.contains_key(other) {
            if other == name {
                assert(grown[at].0 == other);
            } else {
                let i = choose|i: int| 0 <= i < entries.len() && #[trigger] entries[i].0 == other;
                let k = if i < at { i } else { i + 1 };
                assert(grown[k] == entries[i]);
            }
        }
        if exists|i: int| 0 <= i < grown.len() && #[trigger] grown[i].0 == other {
            let i = choose|i: int| 0 <= i < grown.len() && #[trigger] grown[i].0 == other;
            if i != at {
                let k = if i < at { i } else { i - 1 };
                assert(grown[i] == entries[k]);
            }
        }
    }
    assert forall|i: int| 0 <= i < grown.len() implies map[#[trigger] grown[i].0] == grown[i].1 by {
        if i != at {
            let k = if i < at { i } else { i - 1 };
            assert(grown[i] == entries[k]);
            by_name_of_ascending(entries, k);
        }
    }
    by_name_is(grown, map);
}

impl<T: View> NameMap<T> {
    /// The value under the name at `index` in the order of the names.
    pub closed spec fn value(self, index: int) -> T {
        self.entries@[index].1
    }

    #[verifier::type_invariant]
    spec fn in_order(self) -> bool {
        ascending(self@)
    }

    /// The map that `pairs` make up. Of two pairs under one name the later counts.
    pub fn from_pairs(pairs: Vec<(String, T)>) -> (map: Self)
        ensures
            map@ == in_name_order(pairs_view(pairs@)),
            ascending(map@),
            by_name(map@) == by_name(pairs_view(pairs@)),
    {
        let mut left = pairs;
        let mut entries: Vec<(String, T)> = Vec::new();
        assert(by_name(pairs_view(left@)).union_prefer_right(by_name(pairs_view(entries@)))
            =~= by_name(pairs_view(pairs@)));
        while left.len() > 0
            invariant
                ascending(pairs_view(entries@)),
                by_name(pairs_view(left@)).union_prefer_right(by_name(pairs_view(entries@)))
                    == by_name(pairs_view(pairs@)),
            decreases left@.len(),
        {
            let ghost before = left@;
            let ghost kept = pairs_view(entries@);
            let (name, value) = left.pop().unwrap();
            proof {
                assert(pairs_view(before).drop_last() == pairs_view(left@));
                assert(pairs_view(before).last() == (name@, value@));
            }
            let mut at: usize = 0;
            while at < entries.len() && text_precedes(entries[at].0.as_str(), name.as_str())
                invariant
                    at <= entries@.len(),
                    kept == pairs_view(entries@),
                    forall|i: int| 0 <= i < at ==> precedes(#[trigger] kept[i].0, name@),
                decreases entries@.len() - at,
            {
                assert(kept[at as int].0 == entries@[at as int].0@);
                at = at + 1;
            }
            if at < entries.len() && same_text(entries[at].0.as_str(), name.as_str()) {
                proof {
                    assert(kept[at as int].0 == name@);
                    by_name_contains(kept, name@);
                    assert(by_name(pairs_view(left@)).union_prefer_right(by_name(kept))
                        =~= by_name(pairs_view(before)).union_prefer_right(by_name(kept)));
                }
            } else {
                proof {
                    if at < entries.len() {
                        assert(kept[at as int].0 == entries@[at as int].0@);
                        precedes_is_total(kept[at as int].0, name@);
                    }
                    by_name_of_inserted(kept, at as int, name@, value@);
                    assert(pairs_view(entries@.insert(at as int, (name, value))) == kept.insert(
                        at as int,
                        (name@, value@),
                    ));
                    assert(by_name(pairs_view(left@)).union_prefer_right(
                        by_name(kept).insert(name@, value@),
                    ) =~= by_name(pairs_view(before)).union_prefer_right(by_name(kept)));
                }
                entries.insert(at, (name, value));
            }
        }
        proof {
            assert(by_name(pairs_view(left@)).union_prefer_right(by_name(pairs_view(entries@)))
                =~= by_name(pairs_view(entries@)));
            assert(ascending(pairs_view(entries@)));
            ascending_is_unique(pairs_view(entries@), in_name_order(pairs_view(pairs@)));
        }
        NameMap { entries }
    }

    /// How many names are in the map.
    pub fn len(&self) -> (len: usize)
        ensures
            len == self@.len(),
            ascending(self@),
    {
        proof {
            use_type_invariant(self);
        }
        self.entries.len()
    }

    /// The name at `index` in the order of the names.
    pub fn name_at(&self, index: usize) -> (name: &String)
        requires
            index < self@.len(),
        ensures
            name@ == self@[index as int].0,
    {
        &self.entries[index].0
    }

    /// The value under the name at `index` in the order of the names.
    pub fn value_at(&self, index: usize) -> (value: &T)
        requires
            index < self@.len(),
        ensures
            *value == self.value(index as int),
            value@ == self@[index as int].1,
    {
        &self.entries[index].1
    }

    /// The value under `name`.
    pub fn get(&self, name: &str) -> (value: Option<&T>)
        ensures
            match value {
                Some(found) => by_name(self@).contains_key(name@) && by_name(self@)[name@]
                    == found@,
                None => !by_name(self@).contains_key(name@),
            },
    {
        proof {
            use_type_invariant(self);
        }
        let mut i: usize = 0;
        while i < self.entries.len()
            invariant
                i <= self@.len(),
                self@ == pairs_view(self.entries@),
                ascending(self@),
                forall|j: int| 0 <= j < i ==> #[trigger] self@[j].0 != name@,
            decreases self@.len() - i,
        {
            if same_text(self.entries[i].0.as_str(), name) {
                proof {
                    by_name_of_ascending(self@, i as int);
                }
                return Some(&self.entries[i].1);
            }
            i = i + 1;
        }
        proof {
            by_name_contains(self@, name@);
        }
        None
    }
}

impl<T: View + Clone> Clone for NameMap<T> {
    fn clone(&self) -> (copy: Self)
        ensures
            copy@.len() == self@.len(),
            forall|i: int|
                0 <= i < self@.len() ==> (#[trigger] copy@[i]).0 == self@[i].0,
            forall|i: int|
                0 <= i < self@.len() ==> cloned::<T>(self.value(i), #[trigger] copy.value(i)),
    {
        proof {
            use_type_invariant(self);
        }
        let mut entries: Vec<(String, T)> = Vec::new();
        let mut i: usize = 0;
        while i < self.entries.len()
            invariant
                i <= self.entries@.len(),
                entries@.len() == i,
                forall|j: int|
                    0 <= j < i ==> (#[trigger] entries@[j]).0@ == self.entries@[j].0@ && cloned::<T>(
                        self.entries@[j].1,
                        entries@[j].1,
                    ),
            decreases self.entries@.len() - i,
        {
            entries.push((self.entries[i].0.clone(), self.entries[i].1.clone()));
            i = i + 1;
        }
        proof {
            let names = pairs_view(entries@);
            assert forall|a: int, b: int| 0 <= a < b < names.len() implies precedes(
                #[trigger] names[a].0,
                #[trigger] names[b].0,
            ) by {
                assert(names[a].0 == self@[a].0);
                assert(names[b].0 == self@[b].0);
            }
        }
        NameMap { entries }
    }
}

} // verus!
