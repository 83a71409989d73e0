use prisme::guide::{candidates, MAX_ANCESTORS, RELATIVE_PATH};
use std::path::{Path, PathBuf};

fn joined(p: &Path) -> String {
    p.join(RELATIVE_PATH).to_string_lossy().into_owned()
}

#[test]
fn the_executable_directory_is_searched_before_the_working_directory() {
    let exe = Path::new("/opt/app/bin");
    let cwd = Path::new("/home/user/repo");
    let list = candidates(Some("/opt/app/bin"), "/home/user/repo");
    let from_exe: Vec<String> = exe.ancestors().take(MAX_ANCESTORS).map(joined).collect();
    assert_eq!(&list[..from_exe.len()], from_exe.as_slice(), "{list:?}");
    let first_cwd = list
        .iter()
        .position(|p| *p == joined(cwd))
        .expect("the working directory must be searched too");
    assert!(first_cwd >= from_exe.len(), "{list:?}");
}

#[test]
fn a_cargo_target_layout_reaches_the_repository_root() {
    let list = candidates(Some("/repo/target/release"), "/elsewhere");
    assert!(list.contains(&joined(&PathBuf::from("/repo"))), "{list:?}");
}

#[test]
fn candidates_are_deduplicated_and_bounded() {
    let dir = "/a/b/c/d/e/f/g/h";
    let list = candidates(Some(dir), dir);
    assert_eq!(list.len(), MAX_ANCESTORS, "{list:?}");
    let mut sorted = list.clone();
    sorted.sort();
    sorted.dedup();
    assert_eq!(sorted.len(), list.len());
}
