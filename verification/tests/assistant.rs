use prisme::assistant::{find_tool, prompt, tool_candidates, Request, Task};

fn request(task: Task) -> Request {
    Request {
        task,
        wish: "des vies infinies".to_string(),
        emulator: "/Applications/Prisme.app/Contents/MacOS/prisme".to_string(),
        rom: "/Users/vous/Jeux/Super Mario World.zip".to_string(),
        state: "/tmp/session.state".to_string(),
        cheats: "/tmp/game.cheats.json".to_string(),
        model: None,
    }
}

#[test]
fn the_prompt_carries_the_wish_verbatim_and_the_exact_command() {
    let p = prompt(&request(Task::Cheat));
    assert!(p.contains("des vies infinies"), "{p}");
    assert!(p.contains("--agent --load-state"), "{p}");
    assert!(p.contains("/tmp/session.state"), "{p}");
    assert!(p.contains("/tmp/game.cheats.json"), "{p}");
}

#[test]
fn each_task_is_told_what_to_leave_behind() {
    let cheat = prompt(&request(Task::Cheat));
    assert!(cheat.contains("cheat-add"), "a cheat run must persist its find");
    assert!(!cheat.contains("docs/CHEATS.md"), "a deployed app cannot read that file");
    assert!(cheat.contains("successive intersection"), "the method must be in the prompt");
    assert!(cheat.contains("copies"), "and the trap that costs a whole search");
}

#[test]
fn the_assistant_is_told_not_to_claim_what_it_did_not_verify() {
    let p = prompt(&request(Task::Cheat));
    assert!(p.contains("Do not claim a result you did not verify"), "{p}");
    assert!(p.contains("say so plainly"), "{p}");
}

#[test]
fn an_absent_tool_is_absent_and_a_named_path_is_not_second_guessed() {
    assert_eq!(find_tool("helper", Some("/definitely/not/here"), &[], &[]), None);
    let dirs = vec!["/usr/bin".to_string(), "/home/u/.local/bin".to_string()];
    assert_eq!(tool_candidates("helper", Some("/opt/helper"), &dirs), vec!["/opt/helper".to_string()]);
    assert_eq!(
        tool_candidates("helper", None, &dirs),
        vec!["/usr/bin/helper".to_string(), "/home/u/.local/bin/helper".to_string()]
    );
    let runnable = vec!["/home/u/.local/bin/helper".to_string()];
    assert_eq!(find_tool("helper", None, &dirs, &runnable), Some("/home/u/.local/bin/helper".to_string()));
    assert_eq!(find_tool("helper", Some("/opt/helper"), &dirs, &runnable), None);
}

#[test]
fn the_start_command_reads_the_saved_state() {
    let p = prompt(&request(Task::Cheat));
    assert!(p.contains(
        "  /Applications/Prisme.app/Contents/MacOS/prisme \"/Users/vous/Jeux/Super Mario World.zip\" --agent --load-state \"/tmp/session.state\"\n"
    ));
}
