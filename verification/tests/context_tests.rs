use ssh_colony::context::Context;

#[test]
fn cancel_parent_test() {
    let r = Context::new();
    let c: Context = r.child();

    assert_eq!(c.is_alive(), true);
    r.cancel();
    assert_eq!(r.is_alive(), false);
    assert_eq!(c.is_alive(), false);
}

#[test]
fn cancel_grandparent_test() {
    let r = Context::new();
    let c = r.child();
    let gc = c.child();

    assert_eq!(gc.is_alive(), true);
    r.cancel();
    assert_eq!(r.is_alive(), false);
    assert_eq!(c.is_alive(), false);
    assert_eq!(gc.is_alive(), false);
}

#[test]
fn cancel_child_leaves_parent_alive() {
    let r = Context::new();
    let c = r.child();
    c.cancel();
    assert!(r.is_alive());
    assert!(!c.is_alive());
}

#[test]
fn fresh_descendants_are_alive() {
    let r = Context::new();
    let c = r.child();
    let gc = c.child();
    assert!(gc.is_alive());
    assert!(c.is_alive());
}

/// Waits `ms` milliseconds without giving up the thread.
fn wait_ms(ms: u64) {
    let start = std::time::Instant::now();
    while start.elapsed() < std::time::Duration::from_millis(ms) {}
}

#[test]
fn duration_test() {
    let r = Context::new_with_duration(std::time::Duration::from_millis(20));
    assert_eq!(r.is_alive(), true);
    wait_ms(25);
    assert_eq!(r.is_alive(), false);
}

#[test]
fn duration_child_test() {
    let r = Context::new_with_duration(std::time::Duration::from_millis(20));
    let c = r.child();
    assert_eq!(c.is_alive(), true);
    wait_ms(25);
    assert_eq!(c.is_alive(), false);
}

#[test]
fn child_with_own_duration_expires_alone() {
    let r = Context::new();
    let c = r.with_duration(std::time::Duration::from_millis(5));
    wait_ms(10);
    assert!(!c.is_alive());
    assert!(r.is_alive());
}

#[test]
fn dropped_parent_ends_descendants() {
    let r = Context::new();
    let c = r.child();
    let gc = c.child();
    assert!(gc.is_alive());
    drop(r);
    assert!(!c.is_alive());
    assert!(!gc.is_alive());
}

#[test]
fn dropped_child_leaves_parent_alive() {
    let r = Context::new();
    let c = r.with_duration(std::time::Duration::from_secs(60));
    drop(c);
    assert!(r.is_alive());
}
