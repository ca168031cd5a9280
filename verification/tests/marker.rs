use edict::marker::{Marker, NoSend, Send};

#[test]
fn test_send() {
    fn test_send<T: core::marker::Send>() {}
    test_send::<Send>();
}

#[test]
fn test_sync() {
    fn test_sync<T: core::marker::Sync>() {}
    test_sync::<Send>();
    test_sync::<NoSend>();
}

#[test]
fn test_self() {
    fn is_marker<T: Marker<T>>() {}
    is_marker::<Send>();
    is_marker::<NoSend>();
}

#[test]
fn marker_bounds_follow_send() {
    fn needs<M, T: Marker<M>>() {}
    needs::<Send, u32>();
    needs::<NoSend, std::rc::Rc<u32>>();
    let _ = NoSend::new();
}
