//! Tagged storage.
//!
//! A table holds at most one value per type tag. Each stored value keeps its
//! tag beside it, and every lookup compares the requested tag with the tag
//! that is stored with the value.

use vstd::prelude::*;
use crate::ecs::tag::TypeTag;

verus! {

/// A stored value together with the tag it was stored under.
pub struct Tagged<V> {
    pub tag: TypeTag,
    pub value: V,
}

/// A map from type tags to owned values, kept as a list of tagged values in
/// which no tag occurs twice.
pub struct Table<V> {
    cells: Vec<Tagged<V>>,
}

/// Whether no tag occurs in two cells.
pub open spec fn distinct_tags<V>(cells: Seq<Tagged<V>>) -> bool {
    forall|i: int, j: int|
        0 <= i < cells.len() && 0 <= j < cells.len() && i != j ==> cells[i].tag != cells[j].tag
}

/// Whether some cell carries `tag`.
pub open spec fn holds_tag<V>(cells: Seq<Tagged<V>>, tag: TypeTag) -> bool {
    exists|i: int| 0 <= i < cells.len() && cells[i].tag == tag
}

/// The position of a cell that carries `tag`.
pub open spec fn slot_of<V>(cells: Seq<Tagged<V>>, tag: TypeTag) -> int {
    choose|i: int| 0 <= i < cells.len() && cells[i].tag == tag
}

/// The map that a list of cells stands for.
pub open spec fn cells_map<V>(cells: Seq<Tagged<V>>) -> Map<TypeTag, V> {
    Map::new(|t: TypeTag| holds_tag(cells, t), |t: TypeTag| cells[slot_of(cells, t)].value)
}

/// In a list with distinct tags, the cell at `i` is what the map holds under
/// that cell's tag.
pub proof fn lemma_position_in_map<V>(cells: Seq<Tagged<V>>, i: int)
    requires
        distinct_tags(cells),
        0 <= i < cells.len(),
    ensures
        cells_map(cells).contains_key(cells[i].tag),
        cells_map(cells)[cells[i].tag] == cells[i].value,
        slot_of(cells, cells[i].tag) == i,
{
    assert(holds_tag(cells, cells[i].tag));
}

/// A tag that no cell carries is not a key of the map.
pub proof fn lemma_absent_from_map<V>(cells: Seq<Tagged<V>>, tag: TypeTag)
    requires
        forall|i: int| 0 <= i < cells.len() ==> cells[i].tag != tag,
    ensures
        !cells_map(cells).contains_key(tag),
{
}

/// Appending a cell under a tag that no cell carries keeps the tags distinct
/// and adds the pair to the map.
pub proof fn lemma_push_value<V>(cells: Seq<Tagged<V>>, tag: TypeTag, value: V)
    requires
        distinct_tags(cells),
        forall|i: int| 0 <= i < cells.len() ==> cells[i].tag != tag,
    ensures
        distinct_tags(cells.push(Tagged { tag, value })),
        cells_map(cells.push(Tagged { tag, value })) == cells_map(cells).insert(tag, value),
{
    let after = cells.push(Tagged { tag, value });
    assert forall|t: TypeTag| holds_tag(after, t) <==> (t == tag || holds_tag(cells, t)) by {
        if t == tag {
            assert(after[cells.len() as int].tag == t);
        }
        if holds_tag(after, t) && t != tag {
            assert(cells[slot_of(after, t)].tag == t);
        }
        if holds_tag(cells, t) {
            assert(after[slot_of(cells, t)].tag == t);
        }
    }
    assert forall|t: TypeTag| holds_tag(after, t) implies #[trigger] cells_map(after)[t]
        == cells_map(cells).insert(tag, value)[t] by {
        let k = slot_of(after, t);
        lemma_position_in_map(after, k);
        if k < cells.len() {
            lemma_position_in_map(cells, k);
        }
    }
    assert(cells_map(after) =~= cells_map(cells).insert(tag, value));
}

/// Taking the cell at `i` out keeps the tags distinct and removes that
/// cell's tag from the map.
pub proof fn lemma_remove_position<V>(cells: Seq<Tagged<V>>, i: int)
    requires
        distinct_tags(cells),
        0 <= i < cells.len(),
    ensures
        distinct_tags(cells.remove(i)),
        cells_map(cells.remove(i)) == cells_map(cells).remove(cells[i].tag),
{
    let tag = cells[i].tag;
    let after = cells.remove(i);
    // The cell at `k` of the shorter list was at `k` or at `k + 1` before.
    let origin = |k: int| if k < i { k } else { k + 1 };
    assert forall|k: int| 0 <= k < after.len() implies #[trigger] after[k] == cells[origin(k)] by {}
    assert(distinct_tags(after)) by {
        assert forall|a: int, b: int|
            0 <= a < after.len() && 0 <= b < after.len() && a != b implies after[a].tag
            != after[b].tag by {
            assert(after[a] == cells[origin(a)] && after[b] == cells[origin(b)]);
        }
    }
    assert forall|t: TypeTag| holds_tag(after, t) <==> (t != tag && holds_tag(cells, t)) by {
        if holds_tag(after, t) {
            let k = slot_of(after, t);
            assert(cells[origin(k)].tag == t);
        }
        if t != tag && holds_tag(cells, t) {
            let k = slot_of(cells, t);
            let k1 = if k < i { k } else { k - 1 };
            assert(after[k1] == cells[k]);
        }
    }
    assert forall|t: TypeTag| holds_tag(after, t) implies #[trigger] cells_map(after)[t]
        == cells_map(cells).remove(tag)[t] by {
        let k = slot_of(after, t);
        lemma_position_in_map(after, k);
        lemma_position_in_map(cells, origin(k));
    }
    assert(cells_map(after) =~= cells_map(cells).remove(tag));
}

/// Replacing the value of the cell at `i` keeps the tags distinct and stores
/// the new value under that cell's tag.
pub proof fn lemma_update_value<V>(cells: Seq<Tagged<V>>, i: int, value: V)
    requires
        distinct_tags(cells),
        0 <= i < cells.len(),
    ensures
        distinct_tags(cells.update(i, Tagged { tag: cells[i].tag, value })),
        cells_map(cells.update(i, Tagged { tag: cells[i].tag, value })) == cells_map(cells).insert(
            cells[i].tag,
            value,
        ),
{
    let tag = cells[i].tag;
    let after = cells.update(i, Tagged { tag, value });
    assert forall|t: TypeTag| holds_tag(after, t) <==> holds_tag(cells, t) by {
        if holds_tag(after, t) {
            assert(cells[slot_of(after, t)].tag == t);
        }
        if holds_tag(cells, t) {
            assert(after[slot_of(cells, t)].tag == t);
        }
    }
    assert forall|t: TypeTag| holds_tag(after, t) implies #[trigger] cells_map(after)[t]
        == cells_map(cells).insert(tag, value)[t] by {
        let k = slot_of(after, t);
        lemma_position_in_map(after, k);
        lemma_position_in_map(cells, k);
    }
    assert(cells_map(after) =~= cells_map(cells).insert(tag, value));
}

impl<V> Table<V> {
    /// The invariant of the representation: no tag is stored twice.
    pub closed spec fn wf(&self) -> bool {
        distinct_tags(self.cells@)
    }

    /// The map from tags to values that the table stands for.
    pub closed spec fn view(&self) -> Map<TypeTag, V> {
        cells_map(self.cells@)
    }

    /// An empty table.
    pub fn new() -> (t: Table<V>)
        ensures
            t.wf(),
            t@ == Map::<TypeTag, V>::empty(),
    {
        let t = Table { cells: Vec::new() };
        assert(t@ =~= Map::<TypeTag, V>::empty());
        t
    }

    /// The position of the cell stored under `tag`, if there is one.
    fn find(&self, tag: TypeTag) -> (r: Option<usize>)
        requires
            self.wf(),
        ensures
            match r {
                Some(i) => {
                    &&& i < self.cells@.len()
                    &&& self.cells@[i as int].tag == tag
                    &&& self@.contains_key(tag)
                    &&& self@[tag] == self.cells@[i as int].value
                },
                None => {
                    &&& !self@.contains_key(tag)
                    &&& forall|i: int| 0 <= i < self.cells@.len() ==> self.cells@[i].tag != tag
                },
            },
    {
        let mut i: usize = 0;
        while i < self.cells.len()
            invariant
                self.wf(),
                i <= self.cells@.len(),
                forall|j: int| 0 <= j < i ==> self.cells@[j].tag != tag,
            decreases self.cells@.len() - i,
        {
            if self.cells[i].tag == tag {
                proof {
                    lemma_position_in_map(self.cells@, i as int);
                }
                return Some(i);
            }
            i = i + 1;
        }
        proof {
            lemma_absent_from_map(self.cells@, tag);
        }
        None
    }

    /// Mutable access to the value of the cell at `i`.
    fn value_at_mut(&mut self, i: usize) -> (r: &mut V)
        requires
            old(self).wf(),
            i < old(self).cells@.len(),
        ensures
            final(self).wf(),
            *r == old(self).cells@[i as int].value,
            final(self)@ == old(self)@.insert(old(self).cells@[i as int].tag, *final(r)),
    {
        let ghost before = self.cells@;
        let r = &mut self.cells[i].value;
        proof {
            lemma_update_value(before, i as int, *final(r));
        }
        r
    }

    /// Whether a value is stored under `tag`.
    pub fn contains(&self, tag: TypeTag) -> (r: bool)
        requires
            self.wf(),
        ensures
            r == self@.contains_key(tag),
    {
        self.find(tag).is_some()
    }

    /// Whether a value is stored under every tag of `tags`.
    pub fn contains_all(&self, tags: &Vec<TypeTag>) -> (r: bool)
        requires
            self.wf(),
        ensures
            r == forall|i: int| 0 <= i < tags@.len() ==> self@.contains_key(#[trigger] tags@[i]),
    {
        let mut i: usize = 0;
        while i < tags.len()
            invariant
                self.wf(),
                i <= tags@.len(),
                forall|j: int| 0 <= j < i ==> self@.contains_key(#[trigger] tags@[j]),
            decreases tags@.len() - i,
        {
            if !self.contains(tags[i]) {
                return false;
            }
            i = i + 1;
        }
        true
    }

    /// The value stored under `tag`.
    pub fn get(&self, tag: TypeTag) -> (r: Option<&V>)
        requires
            self.wf(),
        ensures
            match r {
                Some(v) => self@.contains_key(tag) && *v == self@[tag],
                None => !self@.contains_key(tag),
            },
    {
        match self.find(tag) {
            Some(i) => Some(&self.cells[i].value),
            None => None,
        }
    }

    /// Mutable access to the value stored under `tag`. Whatever the caller
    /// writes through the reference becomes the value under `tag`; nothing
    /// else changes.
    pub fn get_mut(&mut self, tag: TypeTag) -> (r: Option<&mut V>)
        requires
            old(self).wf(),
        ensures
            final(self).wf(),
            match r {
                Some(v) => {
                    &&& old(self)@.contains_key(tag)
                    &&& *v == old(self)@[tag]
                    &&& final(self)@ == old(self)@.insert(tag, *final(v))
                },
                None => !old(self)@.contains_key(tag) && final(self)@ == old(self)@,
            },
    {
        match self.find(tag) {
            Some(i) => Some(self.value_at_mut(i)),
            None => None,
        }
    }

    /// Stores `value` under `tag`, replacing what was stored there, and
    /// returns the value that was replaced.
    pub fn insert(&mut self, tag: TypeTag, value: V) -> (r: Option<V>)
        requires
            old(self).wf(),
        ensures
            final(self).wf(),
            final(self)@ == old(self)@.insert(tag, value),
            match r {
                Some(previous) => old(self)@.contains_key(tag) && previous == old(self)@[tag],
                None => !old(self)@.contains_key(tag),
            },
    {
        match self.find(tag) {
            Some(i) => {
                let mut held = value;
                let slot = self.value_at_mut(i);
                std::mem::swap(slot, &mut held);
                Some(held)
            },
            None => {
                proof {
                    lemma_push_value(self.cells@, tag, value);
                }
                self.cells.push(Tagged { tag, value });
                None
            },
        }
    }

    /// Takes the value stored under `tag` out of the table and returns it.
    pub fn remove(&mut self, tag: TypeTag) -> (r: Option<V>)
        requires
            old(self).wf(),
        ensures
            final(self).wf(),
            final(self)@ == old(self)@.remove(tag),
            match r {
                Some(taken) => old(self)@.contains_key(tag) && taken == old(self)@[tag],
                None => !old(self)@.contains_key(tag),
            },
    {
        match self.find(tag) {
            Some(i) => {
                proof {
                    lemma_remove_position(self.cells@, i as int);
                }
                let cell = self.cells.remove(i);
                Some(cell.value)
            },
            None => {
                assert(self@.remove(tag) =~= self@);
                None
            },
        }
    }
}

} // verus!
