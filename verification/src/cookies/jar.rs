//! The cookie jar: cookie names mapped to their values.

use vstd::prelude::*;

use crate::text::str_eq;

verus! {

/// A cookie as plain text: its name and its value.
pub type CookiePair = (Seq<char>, Seq<char>);

/// `m` after inserting `pairs` in order, a later pair replacing an earlier
/// value under the same name.
pub open spec fn insert_pairs(
    m: Map<Seq<char>, Seq<char>>,
    pairs: Seq<CookiePair>,
) -> Map<Seq<char>, Seq<char>>
    decreases pairs.len(),
{
    if pairs.len() == 0 {
        m
    } else {
        insert_pairs(m, pairs.drop_last()).insert(pairs.last().0, pairs.last().1)
    }
}

/// The map obtained by inserting `pairs` in order into an empty map.
pub open spec fn pairs_to_map(pairs: Seq<CookiePair>) -> Map<Seq<char>, Seq<char>> {
    insert_pairs(Map::empty(), pairs)
}

/// Inserting `a` and then `b` is inserting `a + b`.
pub proof fn lemma_insert_pairs_concat(
    m: Map<Seq<char>, Seq<char>>,
    a: Seq<CookiePair>,
    b: Seq<CookiePair>,
)
    ensures
        insert_pairs(insert_pairs(m, a), b) == insert_pairs(m, a + b),
    decreases b.len(),
{
    if b.len() == 0 {
        assert(a + b =~= a);
    } else {
        lemma_insert_pairs_concat(m, a, b.drop_last());
        assert((a + b).drop_last() =~= a + b.drop_last());
        assert((a + b).last() == b.last());
    }
}

/// A name is in the map built from `pairs` exactly when some pair has it.
pub proof fn lemma_map_keys(pairs: Seq<CookiePair>, k: Seq<char>)
    ensures
        pairs_to_map(pairs).contains_key(k) == exists|i: int| 0 <= i < pairs.len() && #[trigger] pairs[i].0 == k,
    decreases pairs.len(),
{
    if pairs.len() > 0 {
        let init = pairs.drop_last();
        lemma_map_keys(init, k);
        if exists|i: int| 0 <= i < init.len() && #[trigger] init[i].0 == k {
            let i = choose|i: int| 0 <= i < init.len() && #[trigger] init[i].0 == k;
            assert(pairs[i] == init[i]);
        }
        if exists|i: int| 0 <= i < pairs.len() && #[trigger] pairs[i].0 == k {
            let i = choose|i: int| 0 <= i < pairs.len() && #[trigger] pairs[i].0 == k;
            if i < pairs.len() - 1 {
                assert(init[i] == pairs[i]);
            }
        }
    }
}

/// Every value in `pairs` is non-empty.
pub open spec fn values_nonempty(pairs: Seq<CookiePair>) -> bool {
    forall|i: int| 0 <= i < pairs.len() ==> (#[trigger] pairs[i]).1.len() > 0
}

/// A map built from pairs with non-empty values holds only non-empty
/// values.
pub proof fn lemma_map_values_nonempty(pairs: Seq<CookiePair>)
    requires
        values_nonempty(pairs),
    ensures
        forall|k: Seq<char>| #[trigger] pairs_to_map(pairs).contains_key(k) ==> pairs_to_map(
            pairs,
        )[k].len() > 0,
    decreases pairs.len(),
{
    if pairs.len() > 0 {
        let init = pairs.drop_last();
        assert forall|i: int| 0 <= i < init.len() implies (#[trigger] init[i]).1.len() > 0 by {
            assert(init[i] == pairs[i]);
        }
        lemma_map_values_nonempty(init);
        assert(pairs.last() == pairs[pairs.len() - 1]);
        assert(pairs_to_map(pairs) == pairs_to_map(init).insert(pairs.last().0, pairs.last().1));
        assert forall|k: Seq<char>| #[trigger] pairs_to_map(pairs).contains_key(k) implies pairs_to_map(
            pairs,
        )[k].len() > 0 by {
            if k != pairs.last().0 {
                assert(pairs_to_map(init).contains_key(k));
            }
        }
    }
}

/// No name occurs twice in `pairs`.
pub open spec fn names_distinct(pairs: Seq<CookiePair>) -> bool {
    forall|i: int, j: int| 0 <= i < j < pairs.len() ==> pairs[i].0 != pairs[j].0
}

/// Cookies keyed by name; inserting an existing name replaces its value.
pub struct CookieJar {
    entries: Vec<(String, String)>,
}

impl CookieJar {
    /// The cookies in the order in which their names were first inserted.
    pub closed spec fn pairs(self) -> Seq<CookiePair> {
        self.entries@.map_values(|e: (String, String)| (e.0@, e.1@))
    }

    #[verifier::type_invariant]
    closed spec fn inv(self) -> bool {
        names_distinct(self.pairs())
    }
}

impl View for CookieJar {
    type V = Map<Seq<char>, Seq<char>>;

    open spec fn view(&self) -> Map<Seq<char>, Seq<char>> {
        pairs_to_map(self.pairs())
    }
}

proof fn lemma_map_of_distinct(pairs: Seq<CookiePair>)
    requires
        names_distinct(pairs),
    ensures
        forall|i: int| #![trigger pairs[i]] 0 <= i < pairs.len() ==> {
            &&& pairs_to_map(pairs).contains_key(pairs[i].0)
            &&& pairs_to_map(pairs)[pairs[i].0] == pairs[i].1
        },
        forall|k: Seq<char>| #[trigger] pairs_to_map(pairs).contains_key(k) ==>
            exists|i: int| 0 <= i < pairs.len() && pairs[i].0 == k,
    decreases pairs.len(),
{
    if pairs.len() > 0 {
        let init = pairs.drop_last();
        assert(names_distinct(init));
        lemma_map_of_distinct(init);
        assert forall|i: int| #![trigger pairs[i]] 0 <= i < pairs.len() implies {
            &&& pairs_to_map(pairs).contains_key(pairs[i].0)
            &&& pairs_to_map(pairs)[pairs[i].0] == pairs[i].1
        } by {
            if i < pairs.len() - 1 {
                assert(init[i] == pairs[i]);
                assert(pairs[i].0 != pairs.last().0);
            }
        }
        assert forall|k: Seq<char>| #[trigger] pairs_to_map(pairs).contains_key(k) implies
            exists|i: int| 0 <= i < pairs.len() && pairs[i].0 == k by {
            if k != pairs.last().0 {
                assert(pairs_to_map(init).contains_key(k));
                let i = choose|i: int| 0 <= i < init.len() && init[i].0 == k;
                assert(pairs[i].0 == k);
            }
        }
    }
}

proof fn lemma_map_of_update(pairs: Seq<CookiePair>, i: int, v: Seq<char>)
    requires
        names_distinct(pairs),
        0 <= i < pairs.len(),
    ensures
        pairs_to_map(pairs.update(i, (pairs[i].0, v))) == pairs_to_map(pairs).insert(pairs[i].0, v),
    decreases pairs.len(),
{
    let k = pairs[i].0;
    let upd = pairs.update(i, (k, v));
    if i == pairs.len() - 1 {
        assert(upd.drop_last() =~= pairs.drop_last());
        assert(pairs_to_map(upd) =~= pairs_to_map(pairs).insert(k, v));
    } else {
        let init = pairs.drop_last();
        assert(names_distinct(init));
        lemma_map_of_update(init, i, v);
        assert(upd.drop_last() =~= init.update(i, (k, v)));
        assert(pairs.last().0 != k);
        assert(pairs_to_map(upd) =~= pairs_to_map(pairs).insert(k, v));
    }
}

impl CookieJar {
    /// An empty jar.
    pub fn new() -> (jar: CookieJar)
        ensures
            jar@ == Map::<Seq<char>, Seq<char>>::empty(),
            jar.pairs() == Seq::<CookiePair>::empty(),
    {
        let jar = CookieJar { entries: Vec::new() };
        assert(jar.pairs() =~= Seq::<CookiePair>::empty());
        jar
    }

    /// Number of cookies in the jar.
    pub fn len(&self) -> (n: usize)
        ensures
            n == self.pairs().len(),
            n == self@.len(),
    {
        proof {
            use_type_invariant(self);
            self.lemma_len();
        }
        self.entries.len()
    }

    proof fn lemma_len(self)
        requires
            names_distinct(self.pairs()),
        ensures
            self@.len() == self.pairs().len(),
            self@.dom().finite(),
    {
        lemma_pairs_len(self.pairs());
    }

    /// The `i`-th cookie in insertion order.
    pub fn entry(&self, i: usize) -> (e: (&String, &String))
        requires
            i < self.pairs().len(),
        ensures
            (e.0@, e.1@) == self.pairs()[i as int],
    {
        let e = &self.entries[i];
        (&e.0, &e.1)
    }

    fn position(&self, name: &str) -> (r: Option<usize>)
        ensures
            match r {
                Some(i) => i < self.pairs().len() && self.pairs()[i as int].0 == name@,
                None => forall|i: int| 0 <= i < self.pairs().len() ==> self.pairs()[i].0 != name@,
            },
    {
        let mut i: usize = 0;
        while i < self.entries.len()
            invariant
                0 <= i <= self.entries.len(),
                self.pairs().len() == self.entries.len(),
                forall|j: int| 0 <= j < i ==> self.pairs()[j].0 != name@,
            decreases self.entries.len() - i,
        {
            if str_eq(self.entries[i].0.as_str(), name) {
                return Some(i);
            }
            i = i + 1;
        }
        None
    }

    /// The value stored under `name`, if any.
    pub fn get(&self, name: &str) -> (r: Option<&String>)
        ensures
            r is Some == self@.contains_key(name@),
            r matches Some(v) ==> v@ == self@[name@],
    {
        proof {
            use_type_invariant(self);
            lemma_map_of_distinct(self.pairs());
        }
        match self.position(name) {
            Some(i) => {
                assert(self.pairs()[i as int].0 == name@);
                Some(&self.entries[i].1)
            },
            None => None,
        }
    }

    /// Whether a cookie called `name` is in the jar.
    pub fn contains_key(&self, name: &str) -> (r: bool)
        ensures
            r == self@.contains_key(name@),
    {
        self.get(name).is_some()
    }

    /// Stores `value` under `name`, replacing any earlier value; a new name
    /// goes after all the others.
    pub fn insert(&mut self, name: String, value: String)
        ensures
            final(self)@ == old(self)@.insert(name@, value@),
            old(self)@.contains_key(name@) ==> exists|i: int|
                0 <= i < old(self).pairs().len() && old(self).pairs()[i].0 == name@
                    && final(self).pairs() == old(self).pairs().update(i, (name@, value@)),
            !old(self)@.contains_key(name@) ==> final(self).pairs() == old(self).pairs().push(
                (name@, value@),
            ),
    {
        proof {
            use_type_invariant(&*self);
            lemma_map_of_distinct(self.pairs());
        }
        let ghost old_pairs = self.pairs();
        match self.position(name.as_str()) {
            Some(i) => {
                proof {
                    lemma_map_of_update(old_pairs, i as int, value@);
                }
                let mut entries: Vec<(String, String)> = Vec::new();
                std::mem::swap(&mut entries, &mut self.entries);
                entries.set(i, (name, value));
                proof {
                    let np = entries@.map_values(|e: (String, String)| (e.0@, e.1@));
                    assert(np =~= old_pairs.update(i as int, (old_pairs[i as int].0, value@)));
                    assert(names_distinct(np));
                }
                self.entries = entries;
                assert(self.pairs() =~= old_pairs.update(i as int, (old_pairs[i as int].0, value@)));
            },
            None => {
                proof {
                    assert(!old(self)@.contains_key(name@));
                }
                let mut entries: Vec<(String, String)> = Vec::new();
                std::mem::swap(&mut entries, &mut self.entries);
                entries.push((name, value));
                proof {
                    let np = entries@.map_values(|e: (String, String)| (e.0@, e.1@));
                    assert(np =~= old_pairs.push((name@, value@)));
                    assert(names_distinct(np));
                }
                self.entries = entries;
                assert(self.pairs() =~= old_pairs.push((name@, value@)));
                assert(self.pairs().drop_last() =~= old_pairs);
            },
        }
    }
}

/// Reading a cookie back after storing it gives the stored value, and
/// storing a cookie leaves every other cookie as it was (the jar after
/// [`CookieJar::insert`] is `jar@.insert(name, value)`).
pub proof fn law_get_after_insert(jar: CookieJar, name: Seq<char>, value: Seq<char>, other: Seq<char>)
    ensures
        jar@.insert(name, value).contains_key(name),
        jar@.insert(name, value)[name] == value,
        other != name ==> jar@.insert(name, value).contains_key(other) == jar@.contains_key(other),
        other != name && jar@.contains_key(other) ==> jar@.insert(name, value)[other] == jar@[other],
{
}

proof fn lemma_pairs_len(pairs: Seq<CookiePair>)
    requires
        names_distinct(pairs),
    ensures
        pairs_to_map(pairs).len() == pairs.len(),
        pairs_to_map(pairs).dom().finite(),
    decreases pairs.len(),
{
    if pairs.len() > 0 {
        let init = pairs.drop_last();
        assert(names_distinct(init));
        lemma_pairs_len(init);
        lemma_map_of_distinct(init);
        let k = pairs.last().0;
        if pairs_to_map(init).contains_key(k) {
            let i = choose|i: int| 0 <= i < init.len() && init[i].0 == k;
            assert(pairs[i].0 == pairs[pairs.len() - 1].0);
        }
        assert(pairs_to_map(pairs).dom() =~= pairs_to_map(init).dom().insert(k));
    }
}

} // verus!
