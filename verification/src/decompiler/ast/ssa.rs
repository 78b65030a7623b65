use vstd::prelude::*;

use crate::text::{dec_chars, push_dec};

verus! {

/// Represents the SSA version of a variable.
#[derive(Debug, Clone, Copy, PartialEq, Eq, Hash, Structural)]
pub struct SsaVersion(pub usize);

impl SsaVersion {
    /// The version's number in decimal.
    pub fn to_string(&self) -> (s: String)
        ensures
            s@ == dec_chars(self.0 as nat),
    {
        let mut s = String::new();
        push_dec(&mut s, self.0 as u64);
        s
    }
}

/// The abstract value of the current versions: each variable name with its version.
pub open spec fn version_views(v: Seq<(String, SsaVersion)>) -> Seq<(Seq<char>, SsaVersion)> {
    v.map_values(|e: (String, SsaVersion)| (e.0@, e.1))
}

/// The position of the entry for `name`, looking from the back.
pub open spec fn version_index(v: Seq<(Seq<char>, SsaVersion)>, name: Seq<char>) -> Option<nat>
    decreases v.len(),
{
    if v.len() == 0 {
        None
    } else if v.last().0 == name {
        Some((v.len() - 1) as nat)
    } else {
        version_index(v.drop_last(), name)
    }
}

/// The current version of `name`.
pub open spec fn version_of(v: Seq<(Seq<char>, SsaVersion)>, name: Seq<char>) -> Option<SsaVersion> {
    match version_index(v, name) {
        Some(i) => Some(v[i as int].1),
        None => None,
    }
}

/// The current versions after `name` gets `version`: the entry for `name` changes in place, or
/// a new entry goes at the end.
pub open spec fn version_set(v: Seq<(Seq<char>, SsaVersion)>, name: Seq<char>, version: SsaVersion) -> Seq<(Seq<char>, SsaVersion)> {
    match version_index(v, name) {
        Some(i) => v.update(i as int, (name, version)),
        None => v.push((name, version)),
    }
}

/// Context for the SSA transformation: the current version of each variable, and the next
/// version to hand out.
#[derive(Debug, Clone)]
pub struct SsaContext {
    /// The current versions of variables, each name once.
    pub current_versions: Vec<(String, SsaVersion)>,
    /// The next version to assign.
    pub next_version: SsaVersion,
}

/// What `version_index` gives lies within the entries and names `name`.
pub proof fn lemma_version_index(v: Seq<(Seq<char>, SsaVersion)>, name: Seq<char>)
    ensures
        version_index(v, name) matches Some(i) ==> i < v.len() && v[i as int].0 == name,
    decreases v.len(),
{
    if v.len() > 0 && v.last().0 != name {
        lemma_version_index(v.drop_last(), name);
    }
}

/// Replacing the entry at `i` by one of the same name keeps the positions of names.
proof fn lemma_version_index_update(v: Seq<(Seq<char>, SsaVersion)>, i: int, version: SsaVersion, name: Seq<char>)
    requires
        0 <= i < v.len(),
    ensures
        version_index(v.update(i, (v[i].0, version)), name) == version_index(v, name),
    decreases v.len(),
{
    let u = v.update(i, (v[i].0, version));
    if i < v.len() - 1 {
        assert(u.drop_last() =~= v.drop_last().update(i, (v[i].0, version)));
        lemma_version_index_update(v.drop_last(), i, version, name);
    } else {
        assert(u.drop_last() =~= v.drop_last());
    }
}

/// Once a location gets a version, that is its current version, and the current versions of
/// the other locations do not change.
pub proof fn law_ssa_version_read_after_set(
    v: Seq<(Seq<char>, SsaVersion)>,
    name: Seq<char>,
    version: SsaVersion,
    other: Seq<char>,
)
    ensures
        version_of(version_set(v, name, version), name) == Some(version),
        other != name ==> version_of(version_set(v, name, version), other) == version_of(v, other),
{
    lemma_version_index(v, name);
    lemma_version_index(v, other);
    match version_index(v, name) {
        Some(i) => {
            lemma_version_index_update(v, i as int, version, name);
            lemma_version_index_update(v, i as int, version, other);
            assert(v.update(i as int, (v[i as int].0, version)) == v.update(i as int, (name, version)));
        },
        None => {
            let w = v.push((name, version));
            assert(w.drop_last() =~= v);
        },
    }
}

impl SsaContext {
    /// The current versions, as names and versions.
    pub open spec fn versions(&self) -> Seq<(Seq<char>, SsaVersion)> {
        version_views(self.current_versions@)
    }

    /// Creates a context without versions, whose next version is 0.
    pub fn new() -> (c: Self)
        ensures
            c.versions() == Seq::<(Seq<char>, SsaVersion)>::empty(),
            c.next_version == SsaVersion(0),
    {
        let c = SsaContext { current_versions: Vec::new(), next_version: SsaVersion(0) };
        assert(c.versions() =~= Seq::<(Seq<char>, SsaVersion)>::empty());
        c
    }

    fn position(&self, location: &str) -> (r: Option<usize>)
        ensures
            match version_index(self.versions(), location@) {
                Some(i) => r is Some && r.unwrap() == i,
                None => r is None,
            },
    {
        let ghost v = self.versions();
        let mut i: usize = self.current_versions.len();
        assert(v.take(i as int) =~= v);
        while i > 0
            invariant
                v == self.versions(),
                i <= self.current_versions@.len(),
                version_index(v, location@) == version_index(v.take(i as int), location@),
            decreases i,
        {
            proof {
                assert(v.take(i as int).drop_last() =~= v.take(i - 1));
            }
            if crate::text::str_eq(self.current_versions[i - 1].0.as_str(), location) {
                return Some(i - 1);
            }
            i = i - 1;
        }
        None
    }

    /// Hands out the next version for `location`, which becomes its current version.
    pub fn new_ssa_version_for(&mut self, location: &str) -> (v: SsaVersion)
        requires
            old(self).next_version.0 < usize::MAX,
        ensures
            v == old(self).next_version,
            final(self).next_version == SsaVersion((v.0 + 1) as usize),
            final(self).versions() == version_set(old(self).versions(), location@, v),
    {
        let version = self.next_version;
        self.next_version = SsaVersion(version.0 + 1);
        let name = String::from_str(location);
        let ghost before = self.current_versions@;
        match self.position(location) {
            Some(i) => {
                proof {
                    lemma_version_index(version_views(before), location@);
                }
                self.current_versions.set(i, (name, version));
                proof {
                    assert(self.versions() =~= version_views(before).update(i as int, (location@, version)));
                }
            },
            None => {
                self.current_versions.push((name, version));
                proof {
                    assert(self.versions() =~= version_views(before).push((location@, version)));
                }
            },
        }
        version
    }

    /// The current version of `location`.
    pub fn current_version_of(&self, location: &str) -> (v: Option<SsaVersion>)
        ensures
            v == version_of(self.versions(), location@),
    {
        proof {
            lemma_version_index(self.versions(), location@);
        }
        match self.position(location) {
            Some(i) => Some(self.current_versions[i].1),
            None => None,
        }
    }

    /// The current version of `location`, or, when it has none, the next version, handed out
    /// to it.
    pub fn current_version_of_or_new(&mut self, location: &str) -> (v: SsaVersion)
        requires
            version_of(old(self).versions(), location@) is Some || old(self).next_version.0 < usize::MAX,
        ensures
            (v, final(self).versions(), final(self).next_version) == version_or_new(
                old(self).versions(),
                old(self).next_version,
                location@,
            ),
            match version_of(old(self).versions(), location@) {
                Some(c) => v == c && *final(self) == *old(self),
                None => v == old(self).next_version && final(self).next_version == SsaVersion((v.0 + 1) as usize)
                    && final(self).versions() == version_set(old(self).versions(), location@, v),
            },
    {
        match self.current_version_of(location) {
            Some(v) => v,
            None => self.new_ssa_version_for(location),
        }
    }
}

/// What `current_version_of_or_new` does to versions `v` with next version `next`: the
/// version of `location`, then the versions and the next version after.
pub open spec fn version_or_new(v: Seq<(Seq<char>, SsaVersion)>, next: SsaVersion, location: Seq<char>) -> (
    SsaVersion,
    Seq<(Seq<char>, SsaVersion)>,
    SsaVersion,
) {
    match version_of(v, location) {
        Some(c) => (c, v, next),
        None => (next, version_set(v, location, next), SsaVersion((next.0 + 1) as usize)),
    }
}

/// Asking twice for the version of a location, handing out a new one when it has none, gives
/// the same version both times, and the second time changes nothing.
pub proof fn law_version_or_new_twice(v: Seq<(Seq<char>, SsaVersion)>, next: SsaVersion, location: Seq<char>)
    ensures
        ({
            let (x, v1, n1) = version_or_new(v, next, location);
            version_or_new(v1, n1, location) == (x, v1, n1)
        }),
{
    law_ssa_version_read_after_set(v, location, next, location);
}

impl Default for SsaContext {
    fn default() -> (c: Self)
        ensures
            c.versions() == Seq::<(Seq<char>, SsaVersion)>::empty(),
            c.next_version == SsaVersion(0),
    {
        SsaContext::new()
    }
}

} // verus!
