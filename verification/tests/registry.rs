use bevy::asset::{Handle, UntypedHandle};
use bevy_slang::registry::SlangRegistry;

fn handle(id: u128) -> UntypedHandle {
    Handle::<()>::weak_from_u128(id).untyped()
}

#[test]
fn new_registry_is_empty() {
    let registry = SlangRegistry::new();
    assert_eq!(registry.len(), 0);
    assert!(registry.is_empty());
    assert_eq!(registry.handle("shaders/tri.slang"), None);
    assert!(SlangRegistry::default().is_empty());
}

#[test]
fn load_returns_the_binary_path() {
    let mut registry = SlangRegistry::new();
    assert_eq!(registry.load("shaders/tri.slang", handle(1)), "shaders/tri.spv");
    assert_eq!(registry.load("shaders/blur.slang", handle(2)), "shaders/blur.spv");
    assert_eq!(registry.load("tri.slang", handle(3)), "tri.spv");
}

#[test]
fn load_records_the_handle_under_the_source_path() {
    let mut registry = SlangRegistry::new();
    registry.load("shaders/tri.slang", handle(7));
    assert_eq!(registry.len(), 1);
    assert!(!registry.is_empty());
    assert_eq!(registry.handle("shaders/tri.slang"), Some(&handle(7)));
    assert_eq!(registry.handle("shaders/tri.spv"), None);
    assert_eq!(registry.handle("tri.slang"), None);
}

#[test]
fn loading_a_path_again_overwrites_its_entry() {
    let mut registry = SlangRegistry::new();
    for id in 1..=5 {
        let binary = registry.load("shaders/tri.slang", handle(id));
        assert_eq!(binary, "shaders/tri.spv");
        assert_eq!(registry.len(), 1);
        assert_eq!(registry.handle("shaders/tri.slang"), Some(&handle(id)));
    }
}

#[test]
fn loading_two_paths_gives_two_entries() {
    let mut registry = SlangRegistry::new();
    let first = registry.load("shaders/tri.slang", handle(1));
    let second = registry.load("shaders/blur.slang", handle(2));
    assert_eq!(registry.len(), 2);
    assert_eq!(registry.handle("shaders/tri.slang"), Some(&handle(1)));
    assert_eq!(registry.handle("shaders/blur.slang"), Some(&handle(2)));
    assert_eq!(first, "shaders/tri.spv");
    assert_eq!(second, "shaders/blur.spv");
}

#[test]
fn loading_a_path_again_keeps_the_other_entries() {
    let mut registry = SlangRegistry::new();
    registry.load("a.slang", handle(1));
    registry.load("b.slang", handle(2));
    registry.load("a.slang", handle(3));
    assert_eq!(registry.len(), 2);
    assert_eq!(registry.handle("a.slang"), Some(&handle(3)));
    assert_eq!(registry.handle("b.slang"), Some(&handle(2)));
}

#[test]
fn registries_are_independent() {
    let mut main = SlangRegistry::new();
    let render = SlangRegistry::new();
    main.load("a.slang", handle(1));
    assert_eq!(main.len(), 1);
    assert_eq!(render.len(), 0);
}
