use vstd::prelude::*;

verus! {

/// The name/value pairs of an action, as sequences of characters.
pub open spec fn entries_of(pairs: Seq<(String, String)>) -> Seq<(Seq<char>, Seq<char>)> {
    pairs.map_values(|p: (String, String)| (p.0@, p.1@))
}

/// No name occurs twice.
pub open spec fn distinct_names(e: Seq<(Seq<char>, Seq<char>)>) -> bool {
    forall|i: int, j: int| 0 <= i < j < e.len() ==> e[i].0 != e[j].0
}

/// The mapping that a list of name/value pairs stands for.
pub open spec fn map_of(e: Seq<(Seq<char>, Seq<char>)>) -> Map<Seq<char>, Seq<char>>
    decreases e.len(),
{
    if e.len() == 0 {
        Map::empty()
    } else {
        map_of(e.drop_last()).insert(e.last().0, e.last().1)
    }
}

/// Replacing the value of an entry changes the mapping at that name only.
proof fn lemma_map_of_update(e: Seq<(Seq<char>, Seq<char>)>, i: int, v: Seq<char>)
    requires
        distinct_names(e),
        0 <= i < e.len(),
    ensures
        map_of(e.update(i, (e[i].0, v))) == map_of(e).insert(e[i].0, v),
    decreases e.len(),
{
    let u = e.update(i, (e[i].0, v));
    if i == e.len() - 1 {
        assert(u.drop_last() =~= e.drop_last());
        assert(map_of(u) =~= map_of(e).insert(e[i].0, v));
    } else {
        let d = e.drop_last();
        assert(u.drop_last() =~= d.update(i, (d[i].0, v)));
        lemma_map_of_update(d, i, v);
        assert(e.last().0 != e[i].0);
        assert(map_of(u) =~= map_of(e).insert(e[i].0, v));
    }
}

/// With distinct names, the mapping holds exactly the names of the pairs,
/// each bound to its pair's value.
proof fn lemma_map_of_distinct(e: Seq<(Seq<char>, Seq<char>)>)
    requires
        distinct_names(e),
    ensures
        forall|k: Seq<char>|
            #[trigger] map_of(e).contains_key(k) <==> exists|i: int| 0 <= i < e.len() && e[i].0 == k,
        forall|i: int| 0 <= i < e.len() ==> map_of(e)[#[trigger] e[i].0] == e[i].1,
    decreases e.len(),
{
    if e.len() > 0 {
        let d = e.drop_last();
        lemma_map_of_distinct(d);
        assert forall|k: Seq<char>| #[trigger] map_of(e).contains_key(k) implies exists|i: int|
            0 <= i < e.len() && e[i].0 == k by {
            if k != e.last().0 {
                assert(map_of(d).contains_key(k));
                let i = choose|i: int| 0 <= i < d.len() && d[i].0 == k;
                assert(e[i] == d[i]);
            } else {
                assert(e[e.len() - 1].0 == k);
            }
        }
        assert forall|i: int| 0 <= i < e.len() implies map_of(e)[#[trigger] e[i].0] == e[i].1 by {
            if i < e.len() - 1 {
                assert(e[i] == d[i]);
            }
        }
        assert forall|k: Seq<char>|
            (exists|i: int| 0 <= i < e.len() && e[i].0 == k) implies #[trigger] map_of(
            e,
        ).contains_key(k) by {
            let i = choose|i: int| 0 <= i < e.len() && e[i].0 == k;
            if i < e.len() - 1 {
                assert(d[i].0 == k);
            }
        }
    }
}

/// Lists of pairs with distinct names that hold the same pairs, in whatever
/// order, stand for the same mapping.
pub proof fn lemma_map_of_order_free(
    p: Seq<(Seq<char>, Seq<char>)>,
    q: Seq<(Seq<char>, Seq<char>)>,
)
    requires
        distinct_names(p),
        distinct_names(q),
        forall|x: (Seq<char>, Seq<char>)| p.contains(x) <==> q.contains(x),
    ensures
        map_of(p) == map_of(q),
{
    lemma_map_of_distinct(p);
    lemma_map_of_distinct(q);
    assert forall|k: Seq<char>| map_of(p).contains_key(k) implies map_of(q).contains_key(k)
        && map_of(q)[k] == map_of(p)[k] by {
        let i = choose|i: int| 0 <= i < p.len() && p[i].0 == k;
        assert(q.contains(p[i]));
        let j = choose|j: int| 0 <= j < q.len() && q[j] == p[i];
        assert(q[j].0 == k);
    }
    assert forall|k: Seq<char>| map_of(q).contains_key(k) implies map_of(p).contains_key(k) by {
        let j = choose|j: int| 0 <= j < q.len() && q[j].0 == k;
        assert(p.contains(q[j]));
        let i = choose|i: int| 0 <= i < p.len() && p[i] == q[j];
        assert(p[i].0 == k);
    }
    assert(map_of(p) =~= map_of(q));
}

/// An event sent by a client: a tag that the application declares, and
/// auxiliary data keyed by name.
pub struct Action<Tag> {
    pub tag: Tag,
    /// Name/value pairs in the order of first insertion; no name occurs twice.
    pub associated: Vec<(String, String)>,
}

impl<Tag> Action<Tag> {
    /// The auxiliary data as name/value pairs.
    pub open spec fn entries(&self) -> Seq<(Seq<char>, Seq<char>)> {
        entries_of(self.associated@)
    }

    /// The auxiliary data as a mapping from name to value.
    pub open spec fn data(&self) -> Map<Seq<char>, Seq<char>> {
        map_of(self.entries())
    }

    pub open spec fn well_formed(&self) -> bool {
        distinct_names(self.entries())
    }

    /// An action with the given tag and no auxiliary data.
    pub fn new(tag: Tag) -> (r: Action<Tag>)
        ensures
            r.tag == tag,
            r.associated@.len() == 0,
            r.data() == Map::<Seq<char>, Seq<char>>::empty(),
            r.well_formed(),
    {
        Action { tag, associated: Vec::new() }
    }

    /// An action with the given tag and the given pairs, a later pair of a
    /// name replacing an earlier one.
    pub fn with_pairs(tag: Tag, pairs: &Vec<(String, String)>) -> (r: Action<Tag>)
        ensures
            r.tag == tag,
            r.well_formed(),
            r.data() == map_of(entries_of(pairs@)),
    {
        let mut a = Action::new(tag);
        let mut i: usize = 0;
        while i < pairs.len()
            invariant
                0 <= i <= pairs@.len(),
                a.tag == tag,
                a.well_formed(),
                a.data() == map_of(entries_of(pairs@.take(i as int))),
            decreases pairs@.len() - i,
        {
            let ghost prefix = entries_of(pairs@.take(i as int + 1));
            assert(prefix.drop_last() =~= entries_of(pairs@.take(i as int)));
            let name = pairs[i].0.clone();
            let prop = pairs[i].1.clone();
            a = a.associate(name, prop);
            i = i + 1;
        }
        assert(pairs@.take(i as int) =~= pairs@);
        a
    }

    /// The action with `name` bound to `prop`, replacing an earlier value of
    /// that name.
    pub fn associate(self, name: String, prop: String) -> (r: Action<Tag>)
        requires
            self.well_formed(),
        ensures
            r.tag == self.tag,
            r.well_formed(),
            r.data() == self.data().insert(name@, prop@),
    {
        let mut a = self;
        let n = a.associated.len();
        let mut i: usize = 0;
        while i < n
            invariant
                n == a.associated@.len(),
                a == self,
                self.well_formed(),
                0 <= i <= n,
                forall|j: int| 0 <= j < i ==> a.associated@[j].0@ != name@,
            decreases n - i,
        {
            if a.associated[i].0 == name {
                let ghost e = a.entries();
                proof {
                    lemma_map_of_update(e, i as int, prop@);
                }
                a.associated.set(i, (name, prop));
                assert(a.entries() =~= e.update(i as int, (e[i as int].0, prop@)));
                assert forall|j: int, k: int| 0 <= j < k < a.entries().len() implies a.entries()[j].0
                    != a.entries()[k].0 by {
                    assert(a.entries()[j].0 == e[j].0);
                    assert(a.entries()[k].0 == e[k].0);
                }
                return a;
            }
            i = i + 1;
        }
        let ghost e = a.entries();
        a.associated.push((name, prop));
        assert(a.entries().drop_last() =~= e);
        assert forall|j: int, k: int| 0 <= j < k < a.entries().len() implies a.entries()[j].0
            != a.entries()[k].0 by {
            if k == e.len() {
                assert(a.entries()[j].0 == a.associated@[j].0@);
            } else {
                assert(a.entries()[j] == e[j]);
                assert(a.entries()[k] == e[k]);
            }
        }
        a
    }
}

/// An action rebuilt from its own pairs, listed in whatever order (as a
/// decoder meets the names of a JSON object), has the same data.
pub proof fn lemma_rebuilt_data<Tag>(a: Action<Tag>, pairs: Seq<(String, String)>)
    requires
        a.well_formed(),
        distinct_names(entries_of(pairs)),
        forall|x: (Seq<char>, Seq<char>)| entries_of(pairs).contains(x) <==> a.entries().contains(x),
    ensures
        map_of(entries_of(pairs)) == a.data(),
{
    lemma_map_of_order_free(entries_of(pairs), a.entries());
}

} // verus!
