use prisme::net::{encode_segment, Error, status_error};

#[test]
fn a_path_segment_escapes_everything_a_game_name_can_hold() {
    assert_eq!(encode_segment("Super Mario Kart (Europe).png"), "Super%20Mario%20Kart%20%28Europe%29.png");
    assert_eq!(encode_segment("Yoshi's Island (En,Fr,De)"), "Yoshi%27s%20Island%20%28En%2CFr%2CDe%29");
    assert_eq!(encode_segment("aZ0-_.~"), "aZ0-_.~");
    assert_eq!(encode_segment("a/b"), "a%2Fb");
    assert_eq!(encode_segment("é"), "%C3%A9");
    assert_eq!(encode_segment(""), "");
}

#[test]
fn a_missing_page_is_told_apart_from_a_broken_one() {
    assert_eq!(Error::NotFound.to_text(), "not found");
    assert_ne!(Error::NotFound, Error::Failed("not found".to_string()));
    assert_eq!(Error::Failed("boom".to_string()).to_text(), "boom");
}

#[test]
fn a_missing_page_is_told_apart_from_a_broken_one_by_its_status() {
    assert_eq!(status_error("https://x/y", 200), None);
    assert_eq!(status_error("https://x/y", 204), None);
    assert_eq!(status_error("https://x/y", 404), Some(Error::NotFound));
    assert_eq!(status_error("https://x/y", 410), Some(Error::NotFound));
    assert_eq!(status_error("https://x/y", 500), Some(Error::Failed("https://x/y: HTTP 500".to_string())));
    assert_eq!(status_error("u", 301), Some(Error::Failed("u: HTTP 301".to_string())));
}
