use prisme::input::Joypad;
use prisme::agent::{parse, Request};
use prisme::live::{Action, Channel, Done, Pending};

#[test]
fn the_pending_command_counts_frames_and_nothing_else() {
    let mut p = Pending::new(Vec::new(), 3, 0).expect("a step");
    assert_eq!(p.pad(), Joypad::default());
    assert_eq!(p.frame_elapsed(1), None);
    assert_eq!(p.frame_elapsed(2), None);
    let answer = p.frame_elapsed(3).expect("answered on the third frame");
    assert_eq!(answer, Done::Step { frame: 3, frames: 3 });
    assert!(!p.owes_frames());

    // A press: held, then released, then answered.
    let mut p = Pending::new(vec!["A".into()], 2, 2).expect("a press");
    let held = p.pad();
    assert_ne!(held, Joypad::default());
    assert_eq!(held, Joypad { a: true, ..Joypad::default() });
    assert_eq!(p.frame_elapsed(1), None);
    assert_eq!(p.pad(), held, "still held on the second frame");
    assert_eq!(p.frame_elapsed(2), None);
    assert_eq!(p.pad(), Joypad::default(), "let go for the release");
    assert_eq!(p.frame_elapsed(3), None);
    let answer = p.frame_elapsed(4).expect("answered after 2+2 frames");
    assert_eq!(answer, Done::Press { frame: 4, buttons: vec!["A".to_string()], frames: 2, release: 2 });

    // An unknown button never becomes a pending command.
    assert_eq!(
        Pending::new(vec!["A".into(), "Turbo".into()], 1, 0).err(),
        Some("unknown button name: Turbo".to_string())
    );
}

#[test]
fn a_command_that_asks_for_no_frame_is_answered_at_once() {
    let p = Pending::new(Vec::new(), 0, 0).expect("a step of nothing");
    assert!(!p.owes_frames());
    assert_eq!(p.body(17), Done::Step { frame: 17, frames: 0 });
}

#[test]
fn the_channel_routes_each_request_and_answers_after_the_frames() {
    let mut c = Channel::new();
    assert!(c.accepts());
    assert!(matches!(c.handle(parse(r#"{"cmd":"fly"}"#).1), Action::Fail(_)));
    assert!(matches!(c.handle(parse(r#"{"cmd":"ping"}"#).1), Action::Exec(Request::Ping)));
    // A step of no frame is answered on the spot.
    assert!(matches!(c.handle(parse(r#"{"cmd":"step","frames":0}"#).1), Action::Answer(Done::Step { frame: 0, frames: 0 })));
    // An unknown button is refused with the known list.
    match c.handle(parse(r#"{"cmd":"press","buttons":["Turbo"],"frames":1}"#).1) {
        Action::Fail(e) => assert_eq!(e, "unknown button name: Turbo (known: A B X Y L R Start Select Up Down Left Right)"),
        other => panic!("{other:?}"),
    }
    // A press waits for its frames, holding its buttons, then answers.
    assert!(matches!(c.handle(parse(r#"{"cmd":"press","buttons":["B"],"frames":1,"release":1}"#).1), Action::Wait));
    assert!(!c.accepts());
    assert_eq!(c.pad(), Some(Joypad { b: true, ..Joypad::default() }));
    assert_eq!(c.frame_elapsed(), None);
    assert_eq!(c.pad(), Some(Joypad::default()));
    assert_eq!(c.frame_elapsed(), Some(Done::Press { frame: 2, buttons: vec!["B".to_string()], frames: 1, release: 1 }));
    assert!(c.accepts());
    assert_eq!(c.pad(), None);
    // Quit answers with the frame and closes the channel.
    assert!(matches!(c.handle(parse(r#"{"cmd":"quit"}"#).1), Action::Close(2)));
    assert!(c.closed());
    assert!(!c.accepts());
}
