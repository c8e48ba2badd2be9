use pointer_horror::launcher::{
    demo_dir, demos, echo_key, ends_wait, key_char, launcher_step, menu_body, menu_entry,
    project_root, should_run, try_demo_dir, BuildOutcome, Key, KeyInput, Lang, LauncherAction,
    TermEvent, CTRL_C, ESC,
};

fn press(key: Key, ctrl: bool) -> TermEvent {
    TermEvent::Key(KeyInput { key, ctrl, pressed: true })
}

#[test]
fn registry_lists_ten_demos() {
    let ds = demos();
    assert_eq!(ds.len(), 10);
    let keys: String = ds.iter().map(|d| d.key).collect();
    assert_eq!(keys, "123456789b");
    assert_eq!(ds[5].note, Some("--release"));
    assert_eq!(ds[5].run.prog, "./target/release/part3");
    assert_eq!(ds[3].build.as_ref().unwrap().args, vec!["build", "--bin", "array-horror-rs"]);
    assert!(ds[6].build.is_none());
    assert_eq!(ds[9].lang, Lang::C);
}

#[test]
fn each_demo_key_launches_its_demo() {
    let ds = demos();
    for (i, d) in ds.iter().enumerate() {
        assert_eq!(launcher_step(&ds, d.key), LauncherAction::Launch(i));
    }
}

#[test]
fn quit_and_ignored_keys() {
    let ds = demos();
    assert_eq!(launcher_step(&ds, 'q'), LauncherAction::Quit);
    assert_eq!(launcher_step(&ds, 'Q'), LauncherAction::Quit);
    assert_eq!(launcher_step(&ds, CTRL_C), LauncherAction::Quit);
    assert_eq!(launcher_step(&ds, ESC), LauncherAction::Ignore);
    assert_eq!(launcher_step(&ds, 'x'), LauncherAction::Ignore);
    assert_eq!(launcher_step(&ds, '0'), LauncherAction::Ignore);
    assert_eq!(launcher_step(&ds, '\n'), LauncherAction::Ignore);
}

#[test]
fn echo_all_but_line_ends() {
    assert!(echo_key('4'));
    assert!(!echo_key('\n'));
    assert!(!echo_key('\r'));
}

#[test]
fn key_events_map_to_characters() {
    assert_eq!(key_char(press(Key::Char('c'), true)), Some(CTRL_C));
    assert_eq!(key_char(press(Key::Char('c'), false)), Some('c'));
    assert_eq!(key_char(press(Key::Char('7'), true)), Some('7'));
    assert_eq!(key_char(press(Key::Esc, false)), Some(ESC));
    assert_eq!(key_char(press(Key::Enter, false)), Some('\n'));
    assert_eq!(key_char(press(Key::Other, false)), None);
    assert_eq!(key_char(TermEvent::Key(KeyInput { key: Key::Char('q'), ctrl: false, pressed: false })), None);
    assert_eq!(key_char(TermEvent::Other), None);
}

#[test]
fn ctrl_c_event_leaves_launcher() {
    let ds = demos();
    let key = key_char(press(Key::Char('c'), true)).unwrap();
    assert_eq!(launcher_step(&ds, key), LauncherAction::Quit);
}

#[test]
fn waiting_for_any_key() {
    assert!(ends_wait(None));
    assert!(ends_wait(Some(press(Key::Other, false))));
    assert!(!ends_wait(Some(TermEvent::Other)));
    assert!(!ends_wait(Some(TermEvent::Key(KeyInput { key: Key::Enter, ctrl: false, pressed: false }))));
}

#[test]
fn build_outcome_decides_run() {
    assert!(should_run(BuildOutcome::NotNeeded));
    assert!(should_run(BuildOutcome::Succeeded));
    assert!(!should_run(BuildOutcome::Failed));
    assert!(!should_run(BuildOutcome::CouldNotStart));
}

#[test]
fn menu_entry_text() {
    let ds = demos();
    assert_eq!(
        menu_entry(&ds[0]),
        "    \x1b[96m1)\x1b[0m  \x1b[91mC          ·  Part 1 — Array access horrors\x1b[0m"
    );
    assert_eq!(
        menu_entry(&ds[5]),
        "    \x1b[96m6)\x1b[0m  \x1b[92mRust       ·  Part 3 — Performance & verbosity\x1b[0m  \x1b[2m(--release)\x1b[0m"
    );
}

#[test]
fn menu_groups_by_language() {
    let ds = demos();
    let body = menu_body(&ds);
    let lines: Vec<&str> = body.split('\n').collect();
    // 10 entries, 3 separators, and the empty piece after the final newline.
    assert_eq!(lines.len(), 14);
    let blanks: Vec<usize> = lines.iter().enumerate().filter(|(_, l)| l.is_empty()).map(|(i, _)| i).collect();
    assert_eq!(blanks, vec![3, 7, 11, 13]);
    assert_eq!(lines[12], menu_entry(&ds[9]));
}

#[test]
fn project_paths() {
    assert_eq!(project_root("/home/u/pointer-horror/rust"), "/home/u/pointer-horror");
    assert_eq!(demo_dir("/home/u/pointer-horror/rust", "c"), "/home/u/pointer-horror/c");
    assert_eq!(demo_dir("/p/rust", "typescript"), "/p/typescript");
    assert_eq!(try_demo_dir("/p/rust", "c"), Some("/p/c".to_string()));
    assert_eq!(try_demo_dir("", "c"), None);
    assert_eq!(try_demo_dir("/", "c"), None);
}
