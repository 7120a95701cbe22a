use lidar_sequence_viewer::request::{DialogRequest, ToggleRequest};

#[test]
fn toggle_flips_only_on_request() {
    let mut t = ToggleRequest::default();
    assert!(!t.get_state());
    assert_eq!(t.on_request(), None);
    assert!(!t.get_state());
    t.request();
    assert_eq!(t.on_request(), Some(true));
    assert!(t.get_state());
    // the request is consumed
    assert_eq!(t.on_request(), None);
    t.request();
    assert_eq!(t.on_request(), Some(false));
    assert!(!t.get_state());
}

#[test]
fn dialog_opens_once_until_closed() {
    let mut d = DialogRequest::default();
    assert!(!d.is_open());
    assert!(!d.on_request());
    d.request();
    assert!(d.on_request());
    assert!(d.is_open());
    // while open, further requests are ignored
    d.request();
    assert!(!d.on_request());
    assert!(d.is_open());
    d.closed();
    assert!(!d.is_open());
    d.request();
    assert!(d.on_request());
}
