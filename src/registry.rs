//! The entity registry: owns every entity and its components.
use vstd::prelude::*;

use crate::components::{HPComponent, PositionComponent};
use crate::entity::{Component, ComponentKind, ComponentSet, EntityId, EntityRecord};
use crate::systems::{all_wf, ids_increasing, tick, tick_records};

verus! {

/// Errors of the simulation core.
#[derive(Clone, Copy, Debug, PartialEq, Eq, Structural)]
pub enum SimError {
    /// The identifier names no live entity.
    UnknownEntity,
    /// A tick was started while another was still running.
    ReentrantTick,
}

/// What a registry holds: the next identifier to hand out, and the live entities
/// in increasing identifier order.
pub struct RegistryModel {
    pub next_id: nat,
    pub records: Seq<EntityRecord>,
}

/// Some live record has identifier `id`.
pub open spec fn contains_id(s: Seq<EntityRecord>, id: EntityId) -> bool {
    exists|i: int| 0 <= i < s.len() && (#[trigger] s[i]).id == id
}

/// The index of the record with identifier `id`.
pub open spec fn index_of(s: Seq<EntityRecord>, id: EntityId) -> int {
    choose|i: int| 0 <= i < s.len() && (#[trigger] s[i]).id == id
}

/// The identifiers of the records holding every component of `set`, in order.
pub open spec fn ids_with(s: Seq<EntityRecord>, set: ComponentSet) -> Seq<EntityId>
    decreases s.len(),
{
    if s.len() == 0 {
        Seq::empty()
    } else {
        let rest = ids_with(s.drop_last(), set);
        if s.last().has_all(set) {
            rest.push(s.last().id)
        } else {
            rest
        }
    }
}

/// The registry's invariant.
pub open spec fn registry_wf(m: RegistryModel) -> bool {
    &&& ids_increasing(m.records)
    &&& all_wf(m.records)
    &&& forall|i: int| 0 <= i < m.records.len() ==> (#[trigger] m.records[i]).id.0 < m.next_id
    &&& 1 <= m.next_id <= u64::MAX
}

/// Owns all entities and their components.
pub struct Registry {
    next_id: u64,
    records: Vec<EntityRecord>,
}

impl View for Registry {
    type V = RegistryModel;

    closed spec fn view(&self) -> RegistryModel {
        RegistryModel { next_id: self.next_id as nat, records: self.records@ }
    }
}

impl Registry {
    pub open spec fn wf(&self) -> bool {
        registry_wf(self@)
    }

    /// An empty registry; the first identifier it hands out is 1.
    pub fn new() -> (g: Registry)
        ensures
            g@.next_id == 1,
            g@.records == Seq::<EntityRecord>::empty(),
            g.wf(),
    {
        Registry { next_id: 1, records: Vec::new() }
    }

    /// The index of the entity `id`, if it is live.
    fn find(&self, id: EntityId) -> (r: Option<usize>)
        requires
            self.wf(),
        ensures
            r matches Some(i) ==> contains_id(self@.records, id) && i as int == index_of(
                self@.records,
                id,
            ) && i < self@.records.len(),
            r is None ==> !contains_id(self@.records, id),
    {
        let mut i: usize = 0;
        while i < self.records.len()
            invariant
                self.wf(),
                i <= self@.records.len(),
                self@.records == self.records@,
                forall|k: int| 0 <= k < i ==> (#[trigger] self@.records[k]).id != id,
            decreases self@.records.len() - i,
        {
            if self.records[i].id == id {
                proof {
                    let s = self@.records;
                    let c = index_of(s, id);
                    assert(s[i as int].id == id);
                    if c != i as int {
                        if c < i {
                            assert(s[c].id.0 < s[i as int].id.0);
                        } else {
                            assert(s[i as int].id.0 < s[c].id.0);
                        }
                    }
                }
                return Some(i);
            }
            i = i + 1;
        }
        None
    }

    /// Allocates a fresh entity with no components.
    pub fn create(&mut self) -> (id: EntityId)
        requires
            old(self).wf(),
            old(self)@.next_id < u64::MAX,
        ensures
            id.0 == old(self)@.next_id,
            final(self)@.next_id == old(self)@.next_id + 1,
            final(self)@.records == old(self)@.records.push(EntityRecord::bare(id)),
            contains_id(final(self)@.records, id),
            index_of(final(self)@.records, id) == old(self)@.records.len(),
            final(self).wf(),
    {
        let id = EntityId(self.next_id);
        self.records.push(EntityRecord::new_bare(id));
        self.next_id = self.next_id + 1;
        proof {
            let s = self@.records;
            let n = s.len() - 1;
            assert(s[n].id == id);
            let c = index_of(s, id);
            if c != n {
                assert(s[c].id.0 < s[n].id.0);
            }
        }
        id
    }

    /// Adds `c` to the entity `id`, or replaces the component of its kind.
    pub fn attach(&mut self, id: EntityId, c: Component) -> (r: Result<(), SimError>)
        requires
            old(self).wf(),
            c.wf(),
            contains_id(old(self)@.records, id) ==> old(self)@.records[index_of(
                old(self)@.records,
                id,
            )].with_component(c).wf(),
        ensures
            final(self).wf(),
            final(self)@.next_id == old(self)@.next_id,
            r is Ok <==> contains_id(old(self)@.records, id),
            r is Ok ==> final(self)@.records == old(self)@.records.update(
                index_of(old(self)@.records, id),
                old(self)@.records[index_of(old(self)@.records, id)].with_component(c),
            ),
            r is Err ==> r == Err::<(), SimError>(SimError::UnknownEntity) && final(self)@.records
                == old(self)@.records,
    {
        match self.find(id) {
            Some(i) => {
                let mut rec = self.records[i];
                rec.attach(c);
                self.records.set(i, rec);
                Ok(())
            },
            None => Err(SimError::UnknownEntity),
        }
    }

    /// Whether `attach(id, c)` may be called: `c` is valid, and a live entity `id`
    /// stays valid with it (a moving entity needs a goal whose q is below the
    /// largest 32-bit value).
    pub fn can_attach(&self, id: EntityId, c: &Component) -> (b: bool)
        requires
            self.wf(),
        ensures
            b == (c.wf() && (contains_id(self@.records, id) ==> self@.records[index_of(
                self@.records,
                id,
            )].with_component(*c).wf())),
    {
        let valid = c.valid();
        match self.find(id) {
            Some(i) => {
                let mut rec = self.records[i];
                rec.attach(*c);
                valid && rec.valid()
            },
            None => valid,
        }
    }

    /// The component of kind `k` on entity `id`; `None` where the entity is not
    /// live or lacks it.
    pub fn get(&self, id: EntityId, k: ComponentKind) -> (c: Option<Component>)
        requires
            self.wf(),
        ensures
            c == if contains_id(self@.records, id) {
                self@.records[index_of(self@.records, id)].component(k)
            } else {
                None::<Component>
            },
    {
        match self.find(id) {
            Some(i) => self.records[i].get(k),
            None => None,
        }
    }

    /// The position of entity `id`, if it is live and has one.
    pub fn position_of(&self, id: EntityId) -> (p: Option<PositionComponent>)
        requires
            self.wf(),
        ensures
            p == if contains_id(self@.records, id) {
                self@.records[index_of(self@.records, id)].position
            } else {
                None::<PositionComponent>
            },
    {
        match self.find(id) {
            Some(i) => self.records[i].position,
            None => None,
        }
    }

    /// The hit points of entity `id`, if it is live and has them.
    pub fn hp_of(&self, id: EntityId) -> (h: Option<HPComponent>)
        requires
            self.wf(),
        ensures
            h == if contains_id(self@.records, id) {
                self@.records[index_of(self@.records, id)].hp
            } else {
                None::<HPComponent>
            },
    {
        match self.find(id) {
            Some(i) => self.records[i].hp,
            None => None,
        }
    }

    /// Whether `id` names a live entity.
    pub fn contains(&self, id: EntityId) -> (b: bool)
        requires
            self.wf(),
        ensures
            b == contains_id(self@.records, id),
    {
        self.find(id).is_some()
    }

    /// Removes entity `id` with all its components. Removing an entity that is not
    /// live changes nothing; the result tells whether one was removed.
    pub fn destroy(&mut self, id: EntityId) -> (removed: bool)
        requires
            old(self).wf(),
        ensures
            final(self).wf(),
            final(self)@.next_id == old(self)@.next_id,
            removed == contains_id(old(self)@.records, id),
            removed ==> final(self)@.records == old(self)@.records.remove(
                index_of(old(self)@.records, id),
            ),
            !removed ==> final(self)@.records == old(self)@.records,
    {
        match self.find(id) {
            Some(i) => {
                let ghost s = self@.records;
                self.records.remove(i);
                proof {
                    let t = self@.records;
                    assert forall|a: int, b: int| 0 <= a < b < t.len() implies t[a].id.0
                        < t[b].id.0 by {
                        let a0 = if a < i { a } else { a + 1 };
                        let b0 = if b < i { b } else { b + 1 };
                        assert(t[a] == s[a0]);
                        assert(t[b] == s[b0]);
                    }
                    assert forall|a: int| 0 <= a < t.len() implies (#[trigger] t[a]).wf() && t[a].id.0
                        < self@.next_id by {
                        let a0 = if a < i { a } else { a + 1 };
                        assert(t[a] == s[a0]);
                    }
                }
                true
            },
            None => false,
        }
    }

    /// The identifiers of the live entities holding every component of `set`, in
    /// increasing order.
    pub fn iterate_with(&self, set: ComponentSet) -> (ids: Vec<EntityId>)
        ensures
            ids@ == ids_with(self@.records, set),
    {
        let ghost s = self@.records;
        let mut ids: Vec<EntityId> = Vec::new();
        let mut i: usize = 0;
        while i < self.records.len()
            invariant
                s == self@.records,
                s == self.records@,
                i <= s.len(),
                ids@ == ids_with(s.subrange(0, i as int), set),
            decreases s.len() - i,
        {
            assert(s.subrange(0, i + 1).drop_last() =~= s.subrange(0, i as int));
            if self.records[i].holds_all(&set) {
                ids.push(self.records[i].id);
            }
            i = i + 1;
        }
        assert(s.subrange(0, s.len() as int) =~= s);
        ids
    }

    /// The number of live entities.
    pub fn len(&self) -> (n: usize)
        ensures
            n == self@.records.len(),
    {
        self.records.len()
    }

    /// Runs one tick over all entities.
    pub fn run_tick(&mut self)
        requires
            old(self).wf(),
        ensures
            final(self).wf(),
            final(self)@.next_id == old(self)@.next_id,
            final(self)@.records == tick(old(self)@.records),
    {
        let out = tick_records(&self.records);
        proof {
            let s = self@.records;
            assert forall|k: int| 0 <= k < out@.len() implies (#[trigger] out@[k]).id.0
                < self.next_id by {
                let m = choose|m: int| 0 <= m < s.len() && out@[k].id == s[m].id;
                assert(s[m].id.0 < self.next_id);
            }
        }
        self.records = out;
    }
}

} // verus!
