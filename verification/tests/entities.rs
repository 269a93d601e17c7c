use sprocket::ecs::{ComponentArray, EntityManager};

#[test]
fn component_insert_get_replace_remove() {
    let mut em = EntityManager::new();
    let a = em.create_entity();
    let b = em.create_entity();

    let mut arr: ComponentArray<u32> = ComponentArray::new();
    assert!(arr.get_component(a).is_none());
    assert!(arr.insert_component(a, 10).is_none());
    assert!(arr.insert_component(b, 20).is_none());
    assert_eq!(arr.len(), 2);
    assert_eq!(*arr.get_component(a).unwrap(), 10);

    // Replacing returns the old component.
    assert_eq!(arr.insert_component(a, 11), Some(10));
    assert_eq!(arr.len(), 2);
    assert_eq!(*arr.get_component(a).unwrap(), 11);

    assert_eq!(arr.remove_component(a), Some(11));
    assert!(arr.get_component(a).is_none());
    assert_eq!(*arr.get_component(b).unwrap(), 20);
    assert!(arr.remove_component(a).is_none());
}

#[test]
fn component_mutation_through_borrow() {
    let mut em = EntityManager::new();
    let e = em.create_entity();
    let mut arr: ComponentArray<i64> = ComponentArray::with_capacity(4);
    arr.insert_component(e, 1);
    if let Some(c) = arr.get_component_mut(e) {
        *c = 99;
    }
    assert_eq!(*arr.get_component(e).unwrap(), 99);
}

#[test]
fn batch_insert_later_pairs_win() {
    let mut em = EntityManager::new();
    let a = em.create_entity();
    let b = em.create_entity();
    let mut arr: ComponentArray<u32> = ComponentArray::new();
    arr.insert_components(vec![(a, 1), (b, 2), (a, 3)]);
    assert_eq!(arr.len(), 2);
    assert_eq!(*arr.get_component(a).unwrap(), 3);
    assert_eq!(*arr.get_component(b).unwrap(), 2);
}

#[test]
fn entity_ids_are_recycled() {
    let mut em = EntityManager::new();
    let a = em.create_entity();
    let b = em.create_entity();
    assert_ne!(a.index(), b.index());
    assert!(em.destroy_entity(a));
    let c = em.create_entity();
    assert_eq!(c.index(), a.index());
    let d = em.create_entity();
    assert_eq!(d.index(), 2);
}

#[test]
fn destroying_a_never_issued_id_is_rejected() {
    let mut em = EntityManager::new();
    let a = em.create_entity();
    // A manager that never handed out this id rejects it and is unchanged.
    let mut fresh = EntityManager::new();
    assert!(!fresh.destroy_entity(a));
    let first = fresh.create_entity();
    assert_eq!(first.index(), 0);
    // The issuing manager accepts it.
    assert!(em.destroy_entity(a));
}
