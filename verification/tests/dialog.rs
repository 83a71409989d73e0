use prisme::dialog::{answer_for, Answer, Dialogs, Request};
use std::path::Path;

#[test]
fn a_second_request_is_dropped_while_one_is_pending() {
    let mut dialogs = Dialogs::new();
    assert!(!dialogs.is_busy());
    dialogs.request(Request::Rom { start: "roms".to_string() });
    assert!(dialogs.is_busy());
    dialogs.request(Request::LibraryDir { current: "/other".to_string() });
    assert_eq!(dialogs.queued(), Some(&Request::Rom { start: "roms".to_string() }));
    assert_eq!(dialogs.poll(None), None, "nothing has been answered yet");
}

#[test]
fn an_answer_clears_the_pending_state_exactly_once() {
    let mut dialogs = Dialogs::new();
    dialogs.request(Request::LibraryDir { current: "/roms".to_string() });
    assert_eq!(dialogs.pump(), Some(Request::LibraryDir { current: "/roms".to_string() }));
    assert!(dialogs.is_busy(), "on screen until answered");
    assert_eq!(dialogs.pump(), None, "one panel at a time");
    assert_eq!(
        dialogs.poll(Some(Answer::LibraryDir("/games".to_string()))),
        Some(Answer::LibraryDir("/games".to_string()))
    );
    assert!(!dialogs.is_busy(), "the shell must be free to ask again");
    assert_eq!(dialogs.poll(None), None);
}

#[test]
fn every_request_maps_to_its_own_answer_variant() {
    let answers = [
        Answer::Rom("/roms/a.sfc".to_string()),
        Answer::LibraryDir("/roms".to_string()),
        Answer::ScreenshotDir("/shots".to_string()),
        Answer::SaveDir("/saves".to_string()),
        Answer::Cancelled,
    ];
    let mut seen = 0;
    for answer in &answers {
        match answer {
            Answer::Rom(p) => assert!(Path::new(p).extension().is_some()),
            Answer::LibraryDir(p) | Answer::ScreenshotDir(p) | Answer::SaveDir(p) => {
                assert!(Path::new(p).is_absolute() || p == "roms");
            }
            Answer::Cancelled => {}
        }
        seen += 1;
    }
    assert_eq!(seen, answers.len());
    let requests = [
        Request::Rom { start: "roms".to_string() },
        Request::LibraryDir { current: "/roms".to_string() },
        Request::ScreenshotDir { current: "/shots".to_string() },
        Request::SaveDir { current: "/saves".to_string() },
    ];
    for (request, expected) in requests.iter().zip(answers.iter()) {
        let chosen = match expected {
            Answer::Rom(p) | Answer::LibraryDir(p) | Answer::ScreenshotDir(p) | Answer::SaveDir(p) => p.clone(),
            Answer::Cancelled => unreachable!(),
        };
        assert_eq!(&answer_for(request, Some(chosen)), expected);
        assert_eq!(answer_for(request, None), Answer::Cancelled);
    }
}
