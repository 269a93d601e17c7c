use sprocket::manager::ResourceManager;
use sprocket::error::Error;
use sprocket::texture::Texture;

fn manager_with_texture(path: &str) -> ResourceManager {
    let mut mgr = ResourceManager::new();
    mgr.register_texture_source(String::from(path), Texture::new(64, 64, 50));
    mgr
}

#[test]
fn cache_identity_same_handle_twice() {
    let mut mgr = manager_with_texture("grid.bmp");
    let first = mgr.load_texture("grid.bmp").unwrap();
    let live_after_first = mgr.textures.len();
    let second = mgr.load_texture("grid.bmp").unwrap();
    assert_eq!(first, second);
    assert_eq!(mgr.textures.len(), live_after_first);
    // Cache holds one reference, the two handles two more.
    let info = mgr.info();
    assert_eq!(info.len(), 1);
    assert_eq!(info[0].strong_refs, 3);
    assert_eq!(info[0].weak_refs, 0);
    assert_eq!(info[0].name, "grid.bmp");
}

#[test]
fn eviction_counts_down_exactly() {
    let mut mgr = manager_with_texture("grid.bmp");
    let h = mgr.load_texture("grid.bmp").unwrap();
    assert!(mgr.release_texture(h));

    // First pass: no outside holder, so the entry moves to garbage with two
    // cycles of grace.
    mgr.collect_garbage(2);
    assert!(!mgr.textures.contains("grid.bmp"));
    assert_eq!(mgr.textures.garbage_len(), 1);

    // One further pass: still pending, one cycle left.
    mgr.collect_garbage(2);
    assert_eq!(mgr.textures.garbage_len(), 1);

    // Exactly the second further pass destroys it.
    mgr.collect_garbage(2);
    assert_eq!(mgr.textures.garbage_len(), 0);
}

#[test]
fn no_eviction_under_external_hold() {
    let mut mgr = manager_with_texture("grid.bmp");
    let h = mgr.load_texture("grid.bmp").unwrap();
    for _ in 0..10 {
        mgr.collect_garbage(2);
        assert!(mgr.textures.contains("grid.bmp"));
        assert_eq!(mgr.textures.garbage_len(), 0);
    }
    // The handle is still the live entry's.
    let again = mgr.get_texture("grid.bmp").unwrap();
    assert_eq!(again, h);
}

#[test]
fn missing_source_fails_without_mutation() {
    let mut mgr = ResourceManager::new();
    match mgr.load_texture("absent.bmp") {
        Err(Error::MissingResource(p)) => assert_eq!(p, "absent.bmp"),
        other => panic!("expected a missing-resource error, got {:?}", other),
    }
    assert_eq!(mgr.textures.len(), 0);
}

#[test]
fn reload_after_eviction_gets_fresh_identity() {
    let mut mgr = manager_with_texture("grid.bmp");
    let first = mgr.load_texture("grid.bmp").unwrap();
    mgr.release_texture(first);
    mgr.collect_garbage(0);
    assert!(!mgr.textures.contains("grid.bmp"));
    let second = mgr.load_texture("grid.bmp").unwrap();
    assert_ne!(first, second);
}

#[test]
fn release_of_unknown_handle_is_rejected() {
    let mut mgr = manager_with_texture("grid.bmp");
    let h = mgr.load_texture("grid.bmp").unwrap();
    assert!(!mgr.release_texture(h + 1000));
    assert!(mgr.textures.contains("grid.bmp"));
}

#[test]
fn garbage_entry_constructor_keeps_fields() {
    let g = sprocket::resources::Garbage::new(Texture::new(1, 2, 3), 5);
    assert_eq!(g.cycles_remaining, 5);
    assert_eq!(g.resource, Texture::new(1, 2, 3));
}
