//! The character figures on stage at one block of the story.
use vstd::prelude::*;
use vstd::string::*;

verus! {

/// The map from keys to values that a list of distinct keyed entries stands for.
pub open spec fn entries_map<C>(s: Seq<(String, C)>) -> Map<Seq<char>, C> {
    Map::new(
        |k: Seq<char>| exists|i: int| 0 <= i < s.len() && #[trigger] s[i].0@ == k,
        |k: Seq<char>| s[choose|i: int| 0 <= i < s.len() && #[trigger] s[i].0@ == k].1,
    )
}

/// No key occurs twice among the entries.
pub open spec fn distinct_keys<C>(s: Seq<(String, C)>) -> bool {
    forall|i: int, j: int| 0 <= i < j < s.len() ==> #[trigger] s[i].0@ != #[trigger] s[j].0@
}

/// The place of the figure is the distance followed by the position.
pub open spec fn figure_key(distance: Seq<char>, position: Seq<char>) -> Seq<char> {
    distance + position
}

/// The place of a figure is spelled by its distance followed by its position: the key is
/// as long as both together, starts with the distance and ends with the position.
pub proof fn law_figure_key_is_distance_then_position(distance: Seq<char>, position: Seq<char>)
    ensures
        figure_key(distance, position).len() == distance.len() + position.len(),
        figure_key(distance, position).subrange(0, distance.len() as int) == distance,
        figure_key(distance, position).subrange(
            distance.len() as int,
            figure_key(distance, position).len() as int,
        ) == position,
{
    let k = figure_key(distance, position);
    assert(k.subrange(0, distance.len() as int) =~= distance);
    assert(k.subrange(distance.len() as int, k.len() as int) =~= position);
}

/// Two places are the same only when both their distances and their positions are: figures
/// at the same position but at different distances never share a place.
pub proof fn law_distinct_distances_distinct_places(
    d1: Seq<char>,
    d2: Seq<char>,
    position: Seq<char>,
)
    requires
        d1 != d2,
    ensures
        figure_key(d1, position) != figure_key(d2, position),
{
    law_figure_key_is_distance_then_position(d1, position);
    law_figure_key_is_distance_then_position(d2, position);
    if figure_key(d1, position) == figure_key(d2, position) {
        assert(d1.len() == d2.len());
    }
}

/// With distinct keys, the entry at `i` is what the map holds for its key.
proof fn lemma_entries_map_at<C>(s: Seq<(String, C)>, i: int)
    requires
        distinct_keys(s),
        0 <= i < s.len(),
    ensures
        entries_map(s).contains_key(s[i].0@),
        entries_map(s)[s[i].0@] == s[i].1,
{
    let k = s[i].0@;
    assert(0 <= i < s.len() && s[i].0@ == k);
    let j = choose|j: int| 0 <= j < s.len() && #[trigger] s[j].0@ == k;
    assert(j == i);
}

/// Replacing the value of the entry at `i` replaces what the map holds for its key.
proof fn lemma_entries_map_update<C>(s: Seq<(String, C)>, i: int, e: (String, C))
    requires
        distinct_keys(s),
        0 <= i < s.len(),
        e.0@ == s[i].0@,
    ensures
        distinct_keys(s.update(i, e)),
        entries_map(s.update(i, e)) == entries_map(s).insert(e.0@, e.1),
{
    let t = s.update(i, e);
    assert(distinct_keys(t)) by {
        assert forall|a: int, b: int| 0 <= a < b < t.len() implies #[trigger] t[a].0@
            != #[trigger] t[b].0@ by {
            assert(s[a].0@ != s[b].0@);
        }
    }
    let m = entries_map(s).insert(e.0@, e.1);
    assert forall|k: Seq<char>| #[trigger] entries_map(t).contains_key(k) <==> m.contains_key(k) by {
        if entries_map(t).contains_key(k) {
            let j = choose|j: int| 0 <= j < t.len() && #[trigger] t[j].0@ == k;
            if j != i {
                assert(s[j].0@ == k);
            }
        }
        if m.contains_key(k) && k != e.0@ {
            let j = choose|j: int| 0 <= j < s.len() && #[trigger] s[j].0@ == k;
            assert(t[j].0@ == k);
        }
        if k == e.0@ {
            assert(t[i].0@ == k);
        }
    }
    assert forall|k: Seq<char>| #[trigger] entries_map(t).contains_key(k) implies entries_map(
        t,
    )[k] == m[k] by {
        let j = choose|j: int| 0 <= j < t.len() && #[trigger] t[j].0@ == k;
        lemma_entries_map_at(t, j);
        if j != i {
            lemma_entries_map_at(s, j);
        }
    }
    assert(entries_map(t) =~= m);
}

/// Appending an entry with a new key adds that key to the map.
proof fn lemma_entries_map_push<C>(s: Seq<(String, C)>, e: (String, C))
    requires
        distinct_keys(s),
        !entries_map(s).contains_key(e.0@),
    ensures
        distinct_keys(s.push(e)),
        entries_map(s.push(e)) == entries_map(s).insert(e.0@, e.1),
{
    let t = s.push(e);
    assert(distinct_keys(t)) by {
        assert forall|a: int, b: int| 0 <= a < b < t.len() implies #[trigger] t[a].0@
            != #[trigger] t[b].0@ by {
            if b == s.len() {
                if t[a].0@ == e.0@ {
                    assert(s[a].0@ == e.0@);
                }
            } else {
                assert(s[a].0@ != s[b].0@);
            }
        }
    }
    let m = entries_map(s).insert(e.0@, e.1);
    assert forall|k: Seq<char>| #[trigger] entries_map(t).contains_key(k) <==> m.contains_key(k) by {
        if entries_map(t).contains_key(k) {
            let j = choose|j: int| 0 <= j < t.len() && #[trigger] t[j].0@ == k;
            if j < s.len() {
                assert(s[j].0@ == k);
            }
        }
        if m.contains_key(k) && k != e.0@ {
            let j = choose|j: int| 0 <= j < s.len() && #[trigger] s[j].0@ == k;
            assert(t[j].0@ == k);
        }
        if k == e.0@ {
            assert(t[s.len() as int].0@ == k);
        }
    }
    assert forall|k: Seq<char>| #[trigger] entries_map(t).contains_key(k) implies entries_map(
        t,
    )[k] == m[k] by {
        let j = choose|j: int| 0 <= j < t.len() && #[trigger] t[j].0@ == k;
        lemma_entries_map_at(t, j);
        if j < s.len() {
            lemma_entries_map_at(s, j);
        }
    }
    assert(entries_map(t) =~= m);
}

/// Taking out the entry at `i` takes its key out of the map.
proof fn lemma_entries_map_remove<C>(s: Seq<(String, C)>, i: int)
    requires
        distinct_keys(s),
        0 <= i < s.len(),
    ensures
        distinct_keys(s.remove(i)),
        entries_map(s.remove(i)) == entries_map(s).remove(s[i].0@),
{
    let t = s.remove(i);
    let key = s[i].0@;
    assert(distinct_keys(t)) by {
        assert forall|a: int, b: int| 0 <= a < b < t.len() implies #[trigger] t[a].0@
            != #[trigger] t[b].0@ by {
            let a2 = if a < i { a } else { a + 1 };
            let b2 = if b < i { b } else { b + 1 };
            assert(t[a] == s[a2]);
            assert(t[b] == s[b2]);
            assert(s[a2].0@ != s[b2].0@);
        }
    }
    let m = entries_map(s).remove(key);
    assert forall|k: Seq<char>| #[trigger] entries_map(t).contains_key(k) <==> m.contains_key(k) by {
        if entries_map(t).contains_key(k) {
            let j = choose|j: int| 0 <= j < t.len() && #[trigger] t[j].0@ == k;
            let j2 = if j < i { j } else { j + 1 };
            assert(t[j] == s[j2]);
            assert(s[j2].0@ == k);
            assert(j2 != i);
            assert(s[j2].0@ != s[i].0@);
        }
        if m.contains_key(k) {
            let j = choose|j: int| 0 <= j < s.len() && #[trigger] s[j].0@ == k;
            assert(j != i);
            let j2 = if j < i { j } else { j - 1 };
            assert(t[j2] == s[j]);
            assert(t[j2].0@ == k);
        }
    }
    assert forall|k: Seq<char>| #[trigger] entries_map(t).contains_key(k) implies entries_map(
        t,
    )[k] == m[k] by {
        let j = choose|j: int| 0 <= j < t.len() && #[trigger] t[j].0@ == k;
        lemma_entries_map_at(t, j);
        let j2 = if j < i { j } else { j + 1 };
        assert(t[j] == s[j2]);
        lemma_entries_map_at(s, j2);
    }
    assert(entries_map(t) =~= m);
}

/// The figures on stage, each under its place (distance then position).
pub struct Figure<C> {
    entries: Vec<(String, C)>,
}

impl<C> View for Figure<C> {
    type V = Map<Seq<char>, C>;

    closed spec fn view(&self) -> Map<Seq<char>, C> {
        entries_map(self.entries@)
    }
}

impl<C> Figure<C> {
    /// Each place holds one figure.
    pub closed spec fn wf(&self) -> bool {
        distinct_keys(self.entries@)
    }

    /// No figures.
    pub fn new() -> (r: Self)
        ensures
            r.wf(),
            r@ == Map::<Seq<char>, C>::empty(),
    {
        let r = Figure { entries: Vec::new() };
        assert(r@ =~= Map::<Seq<char>, C>::empty());
        r
    }

    /// Where the entry for `key` stands, if there is one.
    fn find(&self, key: &String) -> (r: Option<usize>)
        requires
            self.wf(),
        ensures
            match r {
                Some(i) => i < self.entries@.len() && self.entries@[i as int].0@ == key@,
                None => !self@.contains_key(key@),
            },
    {
        let n = self.entries.len();
        let mut i: usize = 0;
        while i < n
            invariant
                n == self.entries@.len(),
                i <= n,
                forall|j: int| 0 <= j < i ==> #[trigger] self.entries@[j].0@ != key@,
            decreases n - i,
        {
            if self.entries[i].0 == *key {
                return Some(i);
            }
            i = i + 1;
        }
        proof {
            if self@.contains_key(key@) {
                let j = choose|j: int|
                    0 <= j < self.entries@.len() && #[trigger] self.entries@[j].0@ == key@;
                assert(self.entries@[j].0@ != key@);
            }
        }
        None
    }

    /// Whether a figure stands at `key`.
    pub fn contains_key(&self, key: &String) -> (r: bool)
        requires
            self.wf(),
        ensures
            r == self@.contains_key(key@),
    {
        match self.find(key) {
            Some(i) => {
                proof {
                    lemma_entries_map_at(self.entries@, i as int);
                }
                true
            },
            None => false,
        }
    }

    /// The figure at `key`, if there is one.
    pub fn get(&self, key: &String) -> (r: Option<&C>)
        requires
            self.wf(),
        ensures
            match r {
                Some(c) => self@.contains_key(key@) && *c == self@[key@],
                None => !self@.contains_key(key@),
            },
    {
        match self.find(key) {
            Some(i) => {
                proof {
                    lemma_entries_map_at(self.entries@, i as int);
                }
                Some(&self.entries[i].1)
            },
            None => None,
        }
    }

    /// Puts `command` at `key`, in place of what stood there.
    pub fn insert(&mut self, key: String, command: C)
        requires
            old(self).wf(),
        ensures
            final(self).wf(),
            final(self)@ == old(self)@.insert(key@, command),
    {
        match self.find(&key) {
            Some(i) => {
                proof {
                    lemma_entries_map_update(self.entries@, i as int, (key, command));
                }
                self.entries.set(i, (key, command));
            },
            None => {
                proof {
                    lemma_entries_map_push(self.entries@, (key, command));
                }
                self.entries.push((key, command));
            },
        }
    }

    /// Puts `command` at the place made of `distance` and `position`.
    pub fn push(&mut self, distance: &str, position: &str, command: C)
        requires
            old(self).wf(),
        ensures
            final(self).wf(),
            final(self)@ == old(self)@.insert(figure_key(distance@, position@), command),
    {
        let front: String = distance.to_owned();
        let key: String = front.concat(position);
        self.insert(key, command);
    }

    /// Takes the figure at `key` off the stage and hands it back.
    pub fn remove(&mut self, key: &String) -> (r: Option<C>)
        requires
            old(self).wf(),
        ensures
            final(self).wf(),
            final(self)@ == old(self)@.remove(key@),
            match r {
                Some(c) => old(self)@.contains_key(key@) && c == old(self)@[key@],
                None => !old(self)@.contains_key(key@),
            },
    {
        match self.find(key) {
            Some(i) => {
                proof {
                    lemma_entries_map_at(self.entries@, i as int);
                    lemma_entries_map_remove(self.entries@, i as int);
                }
                let (_, c) = self.entries.remove(i);
                Some(c)
            },
            None => {
                proof {
                    assert(self@.remove(key@) =~= self@);
                }
                None
            },
        }
    }
}

/// `b` holds, under the same places as `a`, a clone of each of `a`'s figures.
pub open spec fn figures_cloned<C: Clone>(a: Map<Seq<char>, C>, b: Map<Seq<char>, C>) -> bool {
    &&& a.dom() == b.dom()
    &&& forall|k: Seq<char>| #[trigger] a.contains_key(k) ==> cloned(a[k], b[k])
}

impl<C: Clone> Clone for Figure<C> {
    /// Clones each figure, keeping its place.
    fn clone(&self) -> (r: Self)
        ensures
            self.wf() ==> r.wf(),
            self.wf() ==> figures_cloned(self@, r@),
    {
        let n = self.entries.len();
        let mut entries: Vec<(String, C)> = Vec::new();
        let mut i: usize = 0;
        while i < n
            invariant
                n == self.entries@.len(),
                i <= n,
                entries@.len() == i,
                forall|j: int|
                    0 <= j < i ==> #[trigger] entries@[j].0 == self.entries@[j].0 && cloned(
                        self.entries@[j].1,
                        entries@[j].1,
                    ),
            decreases n - i,
        {
            let key: String = self.entries[i].0.clone();
            let value: C = self.entries[i].1.clone();
            entries.push((key, value));
            i = i + 1;
        }
        let r = Figure { entries };
        proof {
            if self.wf() {
                let s = self.entries@;
                let t = r.entries@;
                assert forall|a: int, b: int| 0 <= a < b < t.len() implies #[trigger] t[a].0@
                    != #[trigger] t[b].0@ by {
                    assert(t[a].0 == s[a].0);
                    assert(t[b].0 == s[b].0);
                    assert(s[a].0@ != s[b].0@);
                }
                assert forall|k: Seq<char>| #[trigger] self@.contains_key(k) <==> r@.contains_key(
                    k,
                ) by {
                    if self@.contains_key(k) {
                        let j = choose|j: int| 0 <= j < s.len() && #[trigger] s[j].0@ == k;
                        assert(t[j].0 == s[j].0);
                        assert(t[j].0@ == k);
                    }
                    if r@.contains_key(k) {
                        let j = choose|j: int| 0 <= j < t.len() && #[trigger] t[j].0@ == k;
                        assert(t[j].0 == s[j].0);
                        assert(s[j].0@ == k);
                    }
                }
                assert(self@.dom() =~= r@.dom());
                assert forall|k: Seq<char>| #[trigger] self@.contains_key(k) implies cloned(
                    self@[k],
                    r@[k],
                ) by {
                    let j = choose|j: int| 0 <= j < s.len() && #[trigger] s[j].0@ == k;
                    assert(t[j].0 == s[j].0);
                    lemma_entries_map_at(s, j);
                    lemma_entries_map_at(t, j);
                }
            }
        }
        r
    }
}

} // verus!
