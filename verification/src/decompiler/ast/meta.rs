use vstd::prelude::*;

verus! {

/// The abstract value of a list of key-value properties.
pub open spec fn property_views(p: Seq<(String, String)>) -> Seq<(Seq<char>, Seq<char>)> {
    p.map_values(|e: (String, String)| (e.0@, e.1@))
}

/// The position of the property named `key`.
pub open spec fn property_index(p: Seq<(Seq<char>, Seq<char>)>, key: Seq<char>) -> Option<nat>
    decreases p.len(),
{
    if p.len() == 0 {
        None
    } else if p.last().0 == key {
        Some((p.len() - 1) as nat)
    } else {
        property_index(p.drop_last(), key)
    }
}

/// Metadata of an AST node: comments, and properties keyed by name, each name once.
#[derive(Debug)]
pub struct Metadata {
    /// The comments, in the order they were added.
    pub comments: Vec<String>,
    /// The properties, in the order their names were first set.
    pub properties: Vec<(String, String)>,
}

impl Metadata {
    /// The comments, as sequences of characters.
    pub open spec fn comment_views(&self) -> Seq<Seq<char>> {
        self.comments@.map_values(|c: String| c@)
    }

    /// The metadata of a node that has none.
    pub open spec fn is_empty(&self) -> bool {
        self.comments@.len() == 0 && self.properties@.len() == 0
    }

    /// Returns the comments.
    pub fn comments(&self) -> (c: &Vec<String>)
        ensures
            c == &self.comments,
    {
        &self.comments
    }

    /// Adds a comment.
    pub fn add_comment(&mut self, comment: String)
        ensures
            final(self).comments@ == old(self).comments@.push(comment),
            final(self).properties == old(self).properties,
    {
        self.comments.push(comment);
    }

    fn position(&self, key: &str) -> (r: Option<usize>)
        ensures
            match property_index(property_views(self.properties@), key@) {
                Some(i) => r is Some && r.unwrap() == i,
                None => r is None,
            },
    {
        let ghost v = property_views(self.properties@);
        let mut i: usize = self.properties.len();
        assert(v.take(i as int) =~= v);
        while i > 0
            invariant
                v == property_views(self.properties@),
                i <= self.properties@.len(),
                property_index(v, key@) == property_index(v.take(i as int), key@),
            decreases i,
        {
            proof {
                assert(v.take(i as int).drop_last() =~= v.take(i - 1));
            }
            if crate::text::str_eq(self.properties[i - 1].0.as_str(), key) {
                return Some(i - 1);
            }
            i = i - 1;
        }
        None
    }

    /// Sets a property; a property of the same name takes the new value in place.
    pub fn add_property(&mut self, key: String, value: String)
        ensures
            final(self).comments == old(self).comments,
            property_views(final(self).properties@) == match property_index(property_views(old(self).properties@), key@) {
                Some(i) => property_views(old(self).properties@).update(i as int, (key@, value@)),
                None => property_views(old(self).properties@).push((key@, value@)),
            },
    {
        let ghost kv = (key@, value@);
        match self.position(key.as_str()) {
            Some(i) => {
                proof {
                    lemma_property_index_bound(property_views(self.properties@), key@);
                }
                let ghost before = self.properties@;
                self.properties.set(i, (key, value));
                proof {
                    assert(property_views(self.properties@) =~= property_views(before).update(i as int, kv));
                }
            },
            None => {
                let ghost before = self.properties@;
                self.properties.push((key, value));
                proof {
                    assert(property_views(self.properties@) =~= property_views(before).push(kv));
                }
            },
        }
    }

    /// The value of the property named `key`.
    pub fn get_property(&self, key: &str) -> (r: Option<&String>)
        ensures
            match property_index(property_views(self.properties@), key@) {
                Some(i) => r matches Some(v) && v@ == property_views(self.properties@)[i as int].1,
                None => r is None,
            },
    {
        proof {
            lemma_property_index_bound(property_views(self.properties@), key@);
        }
        match self.position(key) {
            Some(i) => Some(&self.properties[i].1),
            None => None,
        }
    }

    /// Returns the properties.
    pub fn properties(&self) -> (p: &Vec<(String, String)>)
        ensures
            p == &self.properties,
    {
        &self.properties
    }
}

/// The position of a property lies within the list.
pub proof fn lemma_property_index_bound(p: Seq<(Seq<char>, Seq<char>)>, key: Seq<char>)
    ensures
        property_index(p, key) matches Some(i) ==> i < p.len() && p[i as int].0 == key,
    decreases p.len(),
{
    if p.len() > 0 && p.last().0 != key {
        lemma_property_index_bound(p.drop_last(), key);
    }
}

/// Replacing the entry at `i` by one of the same key keeps the positions of keys.
proof fn lemma_property_index_update(p: Seq<(Seq<char>, Seq<char>)>, i: int, value: Seq<char>, key: Seq<char>)
    requires
        0 <= i < p.len(),
    ensures
        property_index(p.update(i, (p[i].0, value)), key) == property_index(p, key),
    decreases p.len(),
{
    let u = p.update(i, (p[i].0, value));
    if i < p.len() - 1 {
        assert(u.drop_last() =~= p.drop_last().update(i, (p[i].0, value)));
        lemma_property_index_update(p.drop_last(), i, value, key);
    } else {
        assert(u.drop_last() =~= p.drop_last());
    }
}

/// The properties after `key` is set to `value`, as `add_property` leaves them.
pub open spec fn property_set(p: Seq<(Seq<char>, Seq<char>)>, key: Seq<char>, value: Seq<char>) -> Seq<
    (Seq<char>, Seq<char>),
> {
    match property_index(p, key) {
        Some(i) => p.update(i as int, (key, value)),
        None => p.push((key, value)),
    }
}

/// Reading a property gives the value it was last set to; setting it leaves the other
/// properties as they were.
pub proof fn law_property_read_after_write(
    p: Seq<(Seq<char>, Seq<char>)>,
    key: Seq<char>,
    value: Seq<char>,
    other: Seq<char>,
)
    ensures
        property_index(property_set(p, key, value), key) matches Some(i) && property_set(p, key, value)[i as int].1
            == value,
        other != key ==> property_index(property_set(p, key, value), other) == property_index(p, other),
{
    lemma_property_index_bound(p, key);
    match property_index(p, key) {
        Some(i) => {
            lemma_property_index_update(p, i as int, value, key);
            lemma_property_index_update(p, i as int, value, other);
            assert(p.update(i as int, (p[i as int].0, value)) == p.update(i as int, (key, value)));
        },
        None => {
            let w = p.push((key, value));
            assert(w.drop_last() =~= p);
        },
    }
}

impl Default for Metadata {
    fn default() -> (m: Self)
        ensures
            m.is_empty(),
    {
        Metadata { comments: Vec::new(), properties: Vec::new() }
    }
}

} // verus!
