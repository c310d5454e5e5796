use price_keeper::tasks::TaskRegistry;

#[test]
fn replace_hands_back_the_earlier_handle() {
    let mut registry: TaskRegistry<u64> = TaskRegistry::new();
    assert_eq!(registry.len(), 0);
    assert_eq!(registry.replace(42, 1), None);
    assert_eq!(registry.replace(42, 2), Some(1));
    assert_eq!(registry.replace(43, 3), None);
    assert_eq!(registry.len(), 2);
    assert!(registry.contains(42));
    assert!(!registry.contains(44));
}

#[test]
fn drop_takes_the_handle_out() {
    let mut registry: TaskRegistry<&str> = TaskRegistry::new();
    registry.replace(1, "a");
    assert_eq!(registry.drop(1), Some("a"));
    assert_eq!(registry.drop(1), None);
    assert!(!registry.contains(1));
    assert_eq!(registry.len(), 0);
}

#[test]
fn one_handle_per_product_after_many_operations() {
    let mut registry: TaskRegistry<u64> = TaskRegistry::new();
    let mut live: Vec<u64> = Vec::new();
    let mut next: u64 = 0;
    for round in 0..50 {
        let id = (round * 7) % 5;
        let cancelled = if round % 3 == 2 {
            registry.drop(id)
        } else {
            next += 1;
            live.push(next);
            registry.replace(id, next)
        };
        if let Some(handle) = cancelled {
            live.retain(|h| *h != handle);
        }
        assert_eq!(registry.len(), live.len());
    }
}

#[test]
fn drop_all_hands_back_each_handle_once() {
    let mut registry: TaskRegistry<u64> = TaskRegistry::new();
    registry.replace(1, 10);
    registry.replace(2, 20);
    registry.replace(3, 30);
    let cancelled = registry.drop_all(&vec![3, 5, 1, 3]);
    assert_eq!(cancelled, vec![30, 10]);
    assert_eq!(registry.len(), 1);
    assert!(registry.contains(2));
    assert_eq!(registry.drop_all(&vec![]), Vec::<u64>::new());
}
