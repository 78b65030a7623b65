use vstd::prelude::*;

use vstd::std_specs::cmp::PartialEqSpec;

use crate::decompiler::ast::meta::Metadata;
use crate::decompiler::ast::node_id::NodeId;

verus! {

/// An owned pointer to an AST node, which carries the node's identifier and metadata.
#[derive(Debug)]
pub struct P<T> {
    /// The node.
    pub ptr: Box<T>,
    /// The node's identifier.
    pub node_id: NodeId,
    /// The node's metadata.
    pub metadata: Metadata,
}

/// Constructs a `P<T>` from a `T` value, with identifier 0 and no metadata.
#[allow(non_snake_case)]
pub fn P<T>(value: T) -> (p: P<T>)
    ensures
        *p.ptr == value,
        p.node_id == NodeId(0),
        p.metadata.is_empty(),
        p.metadata.comment_views() == Seq::<Seq<char>>::empty(),
{
    let p = P { ptr: Box::new(value), node_id: NodeId(0), metadata: Metadata::default() };
    assert(p.metadata.comment_views() =~= Seq::<Seq<char>>::empty());
    p
}

impl<T> P<T> {
    /// Moves out of the pointer and applies `f`.
    pub fn and_then<U, F: FnOnce(T) -> U>(self, f: F) -> (u: U)
        requires
            f.requires((*self.ptr,)),
        ensures
            f.ensures((*self.ptr,), u),
    {
        f(*self.ptr)
    }

    /// Moves the node out of the pointer.
    pub fn into_inner(self) -> (t: T)
        ensures
            t == *self.ptr,
    {
        *self.ptr
    }

    /// Replaces the node by `f` applied to it, keeping the identifier and metadata.
    pub fn map<F: FnOnce(T) -> T>(self, f: F) -> (p: P<T>)
        requires
            f.requires((*self.ptr,)),
        ensures
            f.ensures((*self.ptr,), *p.ptr),
            p.node_id == self.node_id,
            p.metadata == self.metadata,
    {
        let P { ptr, node_id, metadata } = self;
        let x = f(*ptr);
        P { ptr: Box::new(x), node_id, metadata }
    }

    /// Replaces the node by what `f` gives for it, if anything, keeping the identifier and
    /// metadata.
    pub fn filter_map<F: FnOnce(T) -> Option<T>>(self, f: F) -> (p: Option<P<T>>)
        requires
            f.requires((*self.ptr,)),
        ensures
            exists|r: Option<T>| #[trigger] f.ensures((*self.ptr,), r) && match r {
                Some(x) => p matches Some(q) && *q.ptr == x && q.node_id == self.node_id && q.metadata == self.metadata,
                None => p is None,
            },
    {
        let P { ptr, node_id, metadata } = self;
        match f(*ptr) {
            Some(x) => Some(P { ptr: Box::new(x), node_id, metadata }),
            None => None,
        }
    }

    /// Gets the node's identifier.
    pub fn node_id(&self) -> (n: NodeId)
        ensures
            n == self.node_id,
    {
        self.node_id
    }

    /// Gets the metadata.
    pub fn metadata(&self) -> (m: &Metadata)
        ensures
            *m == self.metadata,
    {
        &self.metadata
    }

    /// Gets the metadata, for modification.
    pub fn metadata_mut(&mut self) -> (m: &mut Metadata)
        ensures
            *m == old(self).metadata,
            final(self).metadata == *final(m),
            final(self).ptr == old(self).ptr,
            final(self).node_id == old(self).node_id,
    {
        &mut self.metadata
    }

    /// Gets the node.
    pub fn as_ref(&self) -> (t: &T)
        ensures
            *t == *self.ptr,
    {
        &self.ptr
    }
}

impl<T> P<Vec<T>> {
    /// An empty list, with identifier 0 and no metadata.
    pub fn new() -> (p: P<Vec<T>>)
        ensures
            p.ptr@.len() == 0,
            p.node_id == NodeId(0),
            p.metadata.is_empty(),
    {
        P(Vec::new())
    }

    /// The list of `v`, with identifier 0 and no metadata.
    pub fn from_vec(v: Vec<T>) -> (p: P<Vec<T>>)
        ensures
            p.ptr@ == v@,
            p.node_id == NodeId(0),
            p.metadata.is_empty(),
    {
        P(v)
    }

    /// The list held.
    pub fn into_vec(self) -> (v: Vec<T>)
        ensures
            v@ == self.ptr@,
    {
        *self.ptr
    }
}

impl<T: PartialEq> PartialEq for P<T> {
    fn eq(&self, other: &Self) -> (r: bool) {
        *self.ptr == *other.ptr
    }
}

impl<T: PartialEq> vstd::std_specs::cmp::PartialEqSpecImpl for P<T> {
    open spec fn obeys_eq_spec() -> bool {
        <T as PartialEqSpec>::obeys_eq_spec()
    }

    open spec fn eq_spec(&self, other: &Self) -> bool {
        PartialEqSpec::eq_spec(&*self.ptr, &*other.ptr)
    }
}

impl<T: Eq> Eq for P<T> {}

impl<T> std::ops::Deref for P<T> {
    type Target = T;

    fn deref(&self) -> &T {
        &self.ptr
    }
}

} // verus!
