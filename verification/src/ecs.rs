//! Entities and component storage.
//!
//! An `EntityManager` hands out entity ids and recycles destroyed ones; a
//! `ComponentArray<T>` stores one component of type `T` per entity, densely,
//! with the entity-to-slot mapping kept alongside.

use vstd::prelude::*;

verus! {

/// An entity id.
#[derive(Eq, PartialEq, Hash, Copy, Clone, Debug, Structural)]
pub struct Entity(usize);

impl Entity {
    /// The underlying index value of this id.
    pub closed spec fn id_spec(&self) -> int {
        self.0 as int
    }

    /// Converts the entity id to its underlying index.
    pub fn index(&self) -> (r: usize)
        ensures
            r == self.id_spec(),
    {
        self.0
    }
}

/// Handles and distributes entity ids.
/// Does not keep track of the components associated to entities; that is the
/// job of the component storage.
pub struct EntityManager {
    alive_count: usize,
    /// Recently freed entity ids available for reuse. When this list is
    /// empty there are no holes, and new ids are taken numerically.
    free_ids: Vec<Entity>,
}

impl EntityManager {
    pub closed spec fn alive_spec(&self) -> int {
        self.alive_count as int
    }

    pub closed spec fn free_spec(&self) -> Seq<Entity> {
        self.free_ids@
    }

    /// Every recycled id was handed out before.
    pub open spec fn wf(&self) -> bool {
        forall|i: int|
            0 <= i < self.free_spec().len() ==> (#[trigger] self.free_spec()[i]).id_spec()
                < self.alive_spec()
    }

    /// Creates a new entity manager.
    /// Only one should exist in the whole application, so that the ids it
    /// distributes are valid everywhere.
    pub fn new() -> (r: EntityManager)
        ensures
            r.wf(),
            r.alive_spec() == 0,
            r.free_spec() == Seq::<Entity>::empty(),
    {
        let r = EntityManager { alive_count: 0, free_ids: Vec::new() };
        proof {
            assert(r.free_spec() =~= Seq::<Entity>::empty());
        }
        r
    }

    /// Creates a new entity and returns its id: a recycled id when one is
    /// free, the next numerical id otherwise.
    pub fn create_entity(&mut self) -> (e: Entity)
        requires
            old(self).wf(),
            old(self).alive_spec() < usize::MAX,
        ensures
            final(self).wf(),
            old(self).free_spec().len() > 0 ==> ({
                &&& e == old(self).free_spec().last()
                &&& final(self).free_spec() == old(self).free_spec().drop_last()
                &&& final(self).alive_spec() == old(self).alive_spec()
            }),
            old(self).free_spec().len() == 0 ==> ({
                &&& e.id_spec() == old(self).alive_spec()
                &&& final(self).free_spec() == old(self).free_spec()
                &&& final(self).alive_spec() == old(self).alive_spec() + 1
            }),
            e.id_spec() < final(self).alive_spec(),
    {
        match self.free_ids.pop() {
            Some(id) => id,
            None => {
                let id = self.alive_count;
                self.alive_count += 1;
                Entity(id)
            },
        }
    }

    /// Destroys an entity, making its id available for reuse. An id this
    /// manager never handed out is rejected and nothing changes.
    pub fn destroy_entity(&mut self, entity: Entity) -> (accepted: bool)
        requires
            old(self).wf(),
        ensures
            final(self).wf(),
            accepted == (entity.id_spec() < old(self).alive_spec()),
            accepted ==> final(self).free_spec() == old(self).free_spec().push(entity),
            !accepted ==> final(self).free_spec() == old(self).free_spec(),
            final(self).alive_spec() == old(self).alive_spec(),
    {
        if entity.0 >= self.alive_count {
            return false;
        }
        self.free_ids.push(entity);
        proof {
            let s = self.free_spec();
            assert forall|i: int|
                0 <= i < s.len() implies (#[trigger] s[i]).id_spec() < self.alive_spec() by {
                if i < s.len() - 1 {
                    assert(old(self).free_spec()[i].id_spec() < old(self).alive_spec());
                }
            }
        }
        true
    }
}

/// Whether some slot of `s` holds entity `e`.
pub open spec fn seq_contains_entity(s: Seq<Entity>, e: Entity) -> bool {
    exists|i: int| 0 <= i < s.len() && #[trigger] s[i] == e
}

/// The slot of `s` holding entity `e`.
pub open spec fn seq_slot_of(s: Seq<Entity>, e: Entity) -> int {
    choose|i: int| 0 <= i < s.len() && #[trigger] s[i] == e
}

/// Represents an array that holds components of type `T` associated to
/// entities. The components live densely in one vector; the entity of the
/// component at slot `i` is `entities[i]`.
pub struct ComponentArray<T> {
    entities: Vec<Entity>,
    components: Vec<T>,
}

impl<T> ComponentArray<T> {
    pub closed spec fn entities_spec(&self) -> Seq<Entity> {
        self.entities@
    }

    pub closed spec fn components_spec(&self) -> Seq<T> {
        self.components@
    }

    pub open spec fn contains_entity(&self, e: Entity) -> bool {
        seq_contains_entity(self.entities_spec(), e)
    }

    /// The slot of the component associated to `e`.
    pub open spec fn slot_of(&self, e: Entity) -> int {
        seq_slot_of(self.entities_spec(), e)
    }

    /// One slot per entity, and a component for every slot.
    pub open spec fn wf(&self) -> bool {
        &&& self.components_spec().len() == self.entities_spec().len()
        &&& forall|i: int, j: int|
            0 <= i < j < self.entities_spec().len() ==> #[trigger] self.entities_spec()[i] != (
            #[trigger] self.entities_spec()[j])
    }

    /// With one slot per entity, any slot holding `e` is the slot `slot_of`
    /// picks.
    pub proof fn lemma_slot_unique(&self, e: Entity, i: int)
        requires
            self.wf(),
            0 <= i < self.entities_spec().len(),
            self.entities_spec()[i] == e,
        ensures
            self.slot_of(e) == i,
            self.contains_entity(e),
    {
        assert(self.contains_entity(e));
        let j = self.slot_of(e);
        if i != j {
            assert(self.entities_spec()[i] != self.entities_spec()[j]);
        }
    }

    /// Creates a new empty component array.
    pub fn new() -> (r: ComponentArray<T>)
        ensures
            r.wf(),
            r.entities_spec() == Seq::<Entity>::empty(),
            r.components_spec() == Seq::<T>::empty(),
    {
        let r = ComponentArray { entities: Vec::new(), components: Vec::new() };
        proof {
            assert(r.entities_spec() =~= Seq::<Entity>::empty());
            assert(r.components_spec() =~= Seq::<T>::empty());
        }
        r
    }

    /// Creates a new empty component array sized for the given number of
    /// entities.
    pub fn with_capacity(capacity: usize) -> (r: ComponentArray<T>)
        ensures
            r.wf(),
            r.entities_spec() == Seq::<Entity>::empty(),
            r.components_spec() == Seq::<T>::empty(),
    {
        let r = ComponentArray {
            entities: Vec::with_capacity(capacity),
            components: Vec::with_capacity(capacity),
        };
        proof {
            assert(r.entities_spec() =~= Seq::<Entity>::empty());
            assert(r.components_spec() =~= Seq::<T>::empty());
        }
        r
    }

    /// The slot holding the component of `entity`, if any.
    fn find_slot(&self, entity: Entity) -> (r: Option<usize>)
        requires
            self.wf(),
        ensures
            r is Some <==> self.contains_entity(entity),
            r matches Some(i) ==> i == self.slot_of(entity) && i < self.entities_spec().len()
                && self.entities_spec()[i as int] == entity,
    {
        let n = self.entities.len();
        let mut i: usize = 0;
        while i < n
            invariant
                self.wf(),
                n == self.entities_spec().len(),
                0 <= i <= n,
                forall|j: int| 0 <= j < i ==> #[trigger] self.entities_spec()[j] != entity,
            decreases n - i,
        {
            if self.entities[i].index() == entity.index() {
                proof {
                    self.lemma_slot_unique(entity, i as int);
                }
                return Some(i);
            }
            i += 1;
        }
        None
    }

    /// Returns the component for an entity.
    /// Returns `None` if no component exists for the entity.
    pub fn get_component(&self, entity: Entity) -> (r: Option<&T>)
        requires
            self.wf(),
        ensures
            r is Some <==> self.contains_entity(entity),
            r matches Some(c) ==> *c == self.components_spec()[self.slot_of(entity)],
    {
        match self.find_slot(entity) {
            Some(i) => Some(&self.components[i]),
            None => None,
        }
    }

    /// Returns a mutable component for an entity.
    /// Returns `None` if no component exists for the entity.
    pub fn get_component_mut(&mut self, entity: Entity) -> (r: Option<&mut T>)
        requires
            old(self).wf(),
        ensures
            r is Some <==> old(self).contains_entity(entity),
            final(self).entities_spec() == old(self).entities_spec(),
            r matches Some(c) ==> ({
                let i = old(self).slot_of(entity);
                &&& *c == old(self).components_spec()[i]
                &&& final(self).components_spec() == old(self).components_spec().update(
                    i,
                    *final(c),
                )
            }),
            r is None ==> final(self).components_spec() == old(self).components_spec(),
            final(self).wf(),
    {
        match self.find_slot(entity) {
            Some(i) => {
                let ghost pre = self.components@;
                let c = &mut self.components[i];
                Some(c)
            },
            None => None,
        }
    }

    /// Inserts a component for an entity.
    /// If a component already exists for the entity, it is replaced and the
    /// old one returned.
    pub fn insert_component(&mut self, entity: Entity, component: T) -> (r: Option<T>)
        requires
            old(self).wf(),
        ensures
            final(self).wf(),
            r is Some <==> old(self).contains_entity(entity),
            old(self).contains_entity(entity) ==> ({
                let i = old(self).slot_of(entity);
                &&& r == Some(old(self).components_spec()[i])
                &&& final(self).entities_spec() == old(self).entities_spec()
                &&& final(self).components_spec() == old(self).components_spec().update(
                    i,
                    component,
                )
            }),
            !old(self).contains_entity(entity) ==> ({
                &&& final(self).entities_spec() == old(self).entities_spec().push(entity)
                &&& final(self).components_spec() == old(self).components_spec().push(component)
            }),
    {
        match self.find_slot(entity) {
            Some(i) => {
                let mut component = component;
                core::mem::swap(&mut self.components[i], &mut component);
                proof {
                    assert(self.components@ =~= old(self).components@.update(
                        i as int,
                        self.components@[i as int],
                    ));
                }
                Some(component)
            },
            None => {
                self.entities.push(entity);
                self.components.push(component);
                proof {
                    let s = self.entities_spec();
                    assert forall|a: int, b: int|
                        0 <= a < b < s.len() implies #[trigger] s[a] != (#[trigger] s[b]) by {
                        if b == s.len() - 1 {
                            if s[a] == s[b] {
                                assert(old(self).contains_entity(entity));
                            }
                        } else {
                            assert(old(self).entities_spec()[a] != old(self).entities_spec()[b]);
                        }
                    }
                }
                None
            },
        }
    }

    /// Inserts several components at once, in order: a later pair for the
    /// same entity replaces an earlier one.
    pub fn insert_components(&mut self, components: Vec<(Entity, T)>)
        requires
            old(self).wf(),
        ensures
            final(self).wf(),
            (final(self).entities_spec(), final(self).components_spec()) == after_inserts(
                old(self).entities_spec(),
                old(self).components_spec(),
                components@,
            ),
    {
        let mut items = components;
        while items.len() > 0
            invariant
                self.wf(),
                after_inserts(self.entities_spec(), self.components_spec(), items@)
                    == after_inserts(
                    old(self).entities_spec(),
                    old(self).components_spec(),
                    components@,
                ),
            decreases items@.len(),
        {
            let ghost pre = items@;
            let (entity, component) = items.remove(0);
            proof {
                assert(items@ =~= pre.drop_first());
            }
            self.insert_component(entity, component);
        }
    }

    /// Removes and returns the component associated to an entity, if any.
    pub fn remove_component(&mut self, entity: Entity) -> (r: Option<T>)
        requires
            old(self).wf(),
        ensures
            final(self).wf(),
            r is Some <==> old(self).contains_entity(entity),
            old(self).contains_entity(entity) ==> ({
                let i = old(self).slot_of(entity);
                &&& r == Some(old(self).components_spec()[i])
                &&& final(self).entities_spec() == old(self).entities_spec().remove(i)
                &&& final(self).components_spec() == old(self).components_spec().remove(i)
            }),
            !old(self).contains_entity(entity) ==> ({
                &&& final(self).entities_spec() == old(self).entities_spec()
                &&& final(self).components_spec() == old(self).components_spec()
            }),
    {
        match self.find_slot(entity) {
            Some(i) => {
                let _ = self.entities.remove(i);
                let c = self.components.remove(i);
                proof {
                    let s = self.entities_spec();
                    let pre = old(self).entities_spec();
                    assert forall|a: int, b: int|
                        0 <= a < b < s.len() implies #[trigger] s[a] != (#[trigger] s[b]) by {
                        let a2 = if a < i {
                            a
                        } else {
                            a + 1
                        };
                        let b2 = if b < i {
                            b
                        } else {
                            b + 1
                        };
                        assert(s[a] == pre[a2] && s[b] == pre[b2]);
                        assert(pre[a2] != pre[b2]);
                    }
                }
                Some(c)
            },
            None => None,
        }
    }

    /// The number of stored components.
    pub fn len(&self) -> (n: usize)
        requires
            self.wf(),
        ensures
            n == self.components_spec().len(),
    {
        self.components.len()
    }

    /// Read access to the component at a slot.
    pub fn component_at(&self, i: usize) -> (r: &T)
        requires
            self.wf(),
            i < self.components_spec().len(),
        ensures
            *r == self.components_spec()[i as int],
    {
        &self.components[i]
    }

    /// The entity owning the component at a slot.
    pub fn entity_at(&self, i: usize) -> (r: Entity)
        requires
            self.wf(),
            i < self.entities_spec().len(),
        ensures
            r == self.entities_spec()[i as int],
    {
        self.entities[i]
    }
}

/// The entity and component lists after inserting the given pairs in order,
/// each pair replacing the entity's component or appending a new slot.
pub open spec fn after_inserts<T>(
    entities: Seq<Entity>,
    components: Seq<T>,
    items: Seq<(Entity, T)>,
) -> (Seq<Entity>, Seq<T>)
    decreases items.len(),
{
    if items.len() == 0 {
        (entities, components)
    } else {
        let e = items[0].0;
        let c = items[0].1;
        if seq_contains_entity(entities, e) {
            let i = seq_slot_of(entities, e);
            after_inserts(entities, components.update(i, c), items.drop_first())
        } else {
            after_inserts(entities.push(e), components.push(c), items.drop_first())
        }
    }
}

} // verus!
