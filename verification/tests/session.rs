use prisme::session::Book;

#[test]
fn loading_a_state_of_this_session_restores_its_frame() {
    let mut b = Book::new();
    b.stepped(10);
    b.saved("s.state");
    assert!(b.at_saved_state());
    assert_eq!(b.frame_of("s.state"), Some(10));
    b.stepped(5);
    assert!(!b.at_saved_state());
    assert_eq!(b.frame(), 15);
    assert!(b.loaded("s.state"));
    assert_eq!(b.frame(), 10);
    assert!(b.at_saved_state());
}

#[test]
fn a_foreign_state_leaves_the_counter_running() {
    let mut b = Book::new();
    b.stepped(7);
    assert!(!b.loaded("other.state"));
    assert_eq!(b.frame(), 7);
    assert_eq!(b.last_state().map(|s| s.as_str()), Some("other.state"));
}

#[test]
fn load_without_a_path_uses_the_last_state() {
    let mut b = Book::new();
    assert!(b.load_target(None).is_err());
    b.saved("a.state");
    b.stepped(3);
    b.saved("a.state");
    assert_eq!(b.frame_of("a.state"), Some(3));
    assert_eq!(b.load_target(None), Ok("a.state".to_string()));
    assert_eq!(b.load_target(Some("b.state")), Ok("b.state".to_string()));
    b.memory_written();
    assert!(!b.at_saved_state());
    b.stepped(0);
    assert_eq!(b.frame(), 3);
}
