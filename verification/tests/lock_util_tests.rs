use sonify_health::lock_util::RecoverPoison;
use std::sync::{Mutex, RwLock};

#[test]
fn healthy_lock_returns_guard_normally() {
    let rw = RwLock::new(10);
    let guard = rw.read().unwrap_or_recover();
    assert_eq!(*guard, 10);
    drop(guard);

    let mut guard = rw.write().unwrap_or_recover();
    *guard = 20;
    assert_eq!(*guard, 20);
    drop(guard);

    let mtx = Mutex::new(30);
    let guard = mtx.lock().unwrap_or_recover();
    assert_eq!(*guard, 30);
}

