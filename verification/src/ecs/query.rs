//! Component sets: the description of a query.
//!
//! A query names the component types that an entity must hold. The set is a
//! list of type tags that is built once and then handed to the world; a set
//! of any size is built with the same two functions.

use vstd::prelude::*;
use crate::ecs::tag::TypeTag;

verus! {

/// A non-empty list of distinct type tags, in the order in which they were
/// named.
pub struct ComponentSet {
    tags: Vec<TypeTag>,
}

impl ComponentSet {
    /// The tags of the set, in order.
    pub closed spec fn view(&self) -> Seq<TypeTag> {
        self.tags@
    }

    /// A set names at least one tag and names no tag twice.
    pub open spec fn wf(&self) -> bool {
        self@.len() >= 1 && self@.no_duplicates()
    }

    /// The set that names `first` alone.
    pub fn of(first: TypeTag) -> (set: ComponentSet)
        ensures
            set.wf(),
            set@ == seq![first],
    {
        let mut tags: Vec<TypeTag> = Vec::new();
        tags.push(first);
        ComponentSet { tags }
    }

    /// The set that names `next` as well. A tag that the set names already
    /// is not added again.
    pub fn and(self, next: TypeTag) -> (set: ComponentSet)
        ensures
            self.wf() ==> set.wf(),
            set@ == if self@.contains(next) {
                self@
            } else {
                self@.push(next)
            },
    {
        let mut set = self;
        if !set.names(next) {
            set.tags.push(next);
        }
        set
    }

    /// Whether the set names `tag`.
    pub fn names(&self, tag: TypeTag) -> (r: bool)
        ensures
            r == self@.contains(tag),
    {
        let mut i: usize = 0;
        while i < self.tags.len()
            invariant
                i <= self.tags@.len(),
                forall|j: int| 0 <= j < i ==> self.tags@[j] != tag,
            decreases self.tags@.len() - i,
        {
            if self.tags[i] == tag {
                return true;
            }
            i = i + 1;
        }
        false
    }

    /// The tags of the set as a list of their own, in order.
    pub fn type_ids(&self) -> (ids: Vec<TypeTag>)
        ensures
            ids@ == self@,
    {
        let mut ids: Vec<TypeTag> = Vec::new();
        let mut i: usize = 0;
        while i < self.tags.len()
            invariant
                i <= self.tags@.len(),
                ids@ == self.tags@.take(i as int),
            decreases self.tags@.len() - i,
        {
            ids.push(self.tags[i]);
            i = i + 1;
        }
        ids
    }
}

} // verus!
