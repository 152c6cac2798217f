//! Commands as words: how they are split, recognised and aimed.
use yabai::commands::{
    contains_word, is_daemon_flag, is_opacity_config, is_window_close,
    is_window_focus, is_window_minimize, is_window_native_fullscreen, is_window_query,
    names_mouse_window, resolve_config_path, split_action_commands, standalone_native_fullscreen,
    tile_config_tokens, window_deminimize_target, window_fullscreen_exit_target, ConfigPath,
};
use yabai::config::{ConfigOp, ConfigValue};
use yabai::dispatch::WindowAction;
use yabai::spaces::resolve_space_target;
use yabai::types::Selector;

fn toks(parts: &[&str]) -> Vec<String> {
    parts.iter().map(|s| s.to_string()).collect()
}

fn selector(word: &str) -> Selector {
    match word {
        "first" => Selector::First,
        "last" => Selector::Last,
        "next" => Selector::Next,
        _ => match word.parse::<u32>() {
            Ok(n) => Selector::Index(n),
            Err(_) => Selector::Label(word.to_string()),
        },
    }
}

/// A `window` command with a single action.
fn window(words: &[String]) -> (Option<Selector>, Vec<WindowAction>) {
    let mut target = None;
    let mut rest = &words[1..];
    if !rest[0].starts_with("--") {
        target = Some(selector(&rest[0]));
        rest = &rest[1..];
    }
    let argument = rest.get(1).map(|w| selector(w));
    let action = match rest[0].as_str() {
        "--close" => WindowAction::Close(argument),
        "--minimize" => WindowAction::Minimize(argument),
        "--deminimize" => WindowAction::Deminimize(argument),
        "--focus" => WindowAction::Focus(argument),
        _ => WindowAction::Toggle(rest[1].clone()),
    };
    (target, vec![action])
}

fn closes(words: &[String]) -> bool {
    is_window_close(&window(words).1)
}

fn deminimized(words: &[String], ids: &[u32]) -> Option<Result<u32, String>> {
    let (target, actions) = window(words);
    window_deminimize_target(&target, &actions, &ids.to_vec())
}

fn exits(words: &[String], ids: &[u32]) -> Option<Option<u32>> {
    let at = standalone_native_fullscreen(&words.to_vec())?;
    let target = at.map(|i| selector(&words[i]));
    Some(window_fullscreen_exit_target(target.as_ref(), &ids.to_vec()))
}

#[test]
fn resolve_space_target_by_index_and_ends() {
    let spaces = vec![10, 20, 30];
    assert_eq!(
        resolve_space_target(&spaces, Some(20), &Selector::Index(1)),
        Ok(10)
    );
    assert_eq!(
        resolve_space_target(&spaces, Some(20), &Selector::First),
        Ok(10)
    );
    assert_eq!(
        resolve_space_target(&spaces, Some(20), &Selector::Last),
        Ok(30)
    );
    assert!(resolve_space_target(&spaces, Some(20), &Selector::Index(4)).is_err());
    assert!(resolve_space_target(&spaces, Some(20), &Selector::Index(0)).is_err());
}

#[test]
fn resolve_space_target_relative_does_not_wrap() {
    let spaces = vec![10, 20, 30];
    assert_eq!(
        resolve_space_target(&spaces, Some(20), &Selector::Prev),
        Ok(10)
    );
    assert_eq!(
        resolve_space_target(&spaces, Some(20), &Selector::Next),
        Ok(30)
    );
    assert!(resolve_space_target(&spaces, Some(10), &Selector::Prev).is_err());
    assert!(resolve_space_target(&spaces, Some(30), &Selector::Next).is_err());
}

#[test]
fn resolve_space_target_rejects_unsupported_selectors() {
    let spaces = vec![10, 20, 30];
    assert!(resolve_space_target(&spaces, Some(20), &Selector::Recent).is_err());
    assert!(resolve_space_target(&spaces, Some(20), &Selector::Mouse).is_err());
    assert!(resolve_space_target(&spaces, None, &Selector::Next).is_err());
}

#[test]
fn detects_window_close_messages() {
    assert!(closes(&toks(&["window", "--close"])));
    assert!(closes(&toks(&["window", "42", "--close"])));
    assert!(!closes(&toks(&["window", "--minimize"])));
}

#[test]
fn window_deminimize_target_resolves_supported_selectors() {
    let target = deminimized(
        &["window".into(), "42".into(), "--deminimize".into()],
        &[7, 9],
    )
    .unwrap();
    assert_eq!(target, Ok(42));

    let first = deminimized(
        &["window".into(), "first".into(), "--deminimize".into()],
        &[7, 9],
    )
    .unwrap();
    assert_eq!(first, Ok(7));

    let trailing_first = deminimized(
        &["window".into(), "--deminimize".into(), "first".into()],
        &[7, 9],
    )
    .unwrap();
    assert_eq!(trailing_first, Ok(7));

    let last = deminimized(
        &["window".into(), "last".into(), "--deminimize".into()],
        &[7, 9],
    )
    .unwrap();
    assert_eq!(last, Ok(9));

    let missing = deminimized(&["window".into(), "--deminimize".into()], &[]).unwrap();
    assert!(missing.unwrap_err().contains("requires a window id"));

    let empty_first = deminimized(
        &["window".into(), "first".into(), "--deminimize".into()],
        &[],
    )
    .unwrap();
    assert!(empty_first.unwrap_err().contains("minimized window"));

    let unsupported = deminimized(
        &["window".into(), "next".into(), "--deminimize".into()],
        &[7, 9],
    )
    .unwrap();
    assert!(unsupported.unwrap_err().contains("not yet supported"));
}

fn fs_toggle(sel: Option<&str>) -> Vec<String> {
    let mut tokens = vec!["window".to_string()];
    if let Some(sel) = sel {
        tokens.push(sel.to_string());
    }
    tokens.push("--toggle".to_string());
    tokens.push("native-fullscreen".to_string());
    tokens
}

fn fs_toggle_trailing(sel: &str) -> Vec<String> {
    toks(&["window", "--toggle", "native-fullscreen", sel])
}

#[test]
fn fullscreen_exit_target_resolves_only_registered_windows() {
    let other = ["window".to_string(), "--toggle".into(), "float".into()];
    assert_eq!(exits(&other, &[7]), None);

    // Without a window in fullscreen the toggle is a request to enter it.
    assert_eq!(exits(&fs_toggle(None), &[]), Some(None));
    assert_eq!(
        exits(&fs_toggle(Some("42")), &[7, 9]),
        Some(None),
        "id not in the fullscreen set is an enter request"
    );

    assert_eq!(exits(&fs_toggle(Some("9")), &[7, 9]), Some(Some(9)));
    assert_eq!(exits(&fs_toggle_trailing("9"), &[7, 9]), Some(Some(9)));
    assert_eq!(exits(&fs_toggle(Some("first")), &[7, 9]), Some(Some(7)));
    assert_eq!(exits(&fs_toggle(Some("last")), &[7, 9]), Some(Some(9)));
    assert_eq!(exits(&fs_toggle(None), &[5]), Some(Some(5)));
    assert_eq!(exits(&fs_toggle(None), &[5, 6]), Some(None));
}

#[test]
fn split_action_commands_splits_chained_window_actions() {
    let out = split_action_commands(&toks(&[
        "window",
        "--toggle",
        "float",
        "--grid",
        "4:4:1:1:2:2",
    ]));
    assert_eq!(
        out,
        vec![
            toks(&["window", "--toggle", "float"]),
            toks(&["window", "--grid", "4:4:1:1:2:2"]),
        ]
    );
}

#[test]
fn split_action_commands_preserves_the_shared_target_selector() {
    let out = split_action_commands(&toks(&[
        "window", "0x1F", "--focus", "east", "--swap", "west",
    ]));
    assert_eq!(
        out,
        vec![
            toks(&["window", "0x1F", "--focus", "east"]),
            toks(&["window", "0x1F", "--swap", "west"]),
        ]
    );
}

#[test]
fn split_action_commands_leaves_single_action_and_non_mutation_domains() {
    assert_eq!(
        split_action_commands(&toks(&["window", "--focus", "east"])),
        vec![toks(&["window", "--focus", "east"])]
    );
    // A query narrows its scope with a second option: that is no second action.
    assert_eq!(
        split_action_commands(&toks(&["query", "--spaces", "--space"])),
        vec![toks(&["query", "--spaces", "--space"])]
    );
    assert_eq!(
        split_action_commands(&toks(&["config", "layout", "bsp"])),
        vec![toks(&["config", "layout", "bsp"])]
    );
}

#[test]
fn splitting_keeps_every_word() {
    let words = toks(&["space", "2", "--rotate", "90", "--balance", "--gap", "abs:4"]);
    let parts = split_action_commands(&words);
    assert_eq!(parts.len(), 3);
    let mut back = toks(&["space", "2"]);
    for part in &parts {
        assert_eq!(&part[..2], &words[..2]);
        back.extend_from_slice(&part[2..]);
    }
    assert_eq!(back, words);
}

#[test]
fn an_empty_command_splits_into_itself() {
    assert_eq!(split_action_commands(&Vec::new()), vec![Vec::<String>::new()]);
}

#[test]
fn queries_are_recognised_by_their_words() {
    assert!(is_window_query(&toks(&["query", "--windows", "id"])));
    assert!(!is_window_query(&toks(&["query", "--spaces"])));
    assert!(!is_window_query(&toks(&["window", "--windows"])));
    assert!(names_mouse_window(&toks(&["window", "mouse", "--focus"])));
    assert!(!names_mouse_window(&toks(&["space", "--focus", "mouse"])));
    assert!(contains_word(&toks(&["a", "b"]), "b"));
    assert!(!contains_word(&toks(&["a", "b"]), "c"));
}

#[test]
fn daemon_flags_and_tiling_words() {
    assert!(is_daemon_flag("--verbose"));
    assert!(is_daemon_flag("-V"));
    assert!(is_daemon_flag("--config"));
    assert!(is_daemon_flag("-c"));
    assert!(!is_daemon_flag("--message"));
    assert_eq!(
        tile_config_tokens(12, -3),
        toks(&[
            "config",
            "window_gap",
            "12",
            "top_padding",
            "-3",
            "bottom_padding",
            "-3",
            "left_padding",
            "-3",
            "right_padding",
            "-3",
        ])
    );
}

#[test]
fn the_configuration_file_is_given_or_looked_for() {
    match resolve_config_path(&toks(&["--config", "/tmp/rc"]), None, Some("/home/u")) {
        ConfigPath::Given(path) => assert_eq!(path, Some("/tmp/rc".to_string())),
        other => panic!("{other:?}"),
    }
    match resolve_config_path(&toks(&["-c"]), None, Some("/home/u")) {
        ConfigPath::Given(path) => assert_eq!(path, None),
        other => panic!("{other:?}"),
    }
    match resolve_config_path(&Vec::new(), Some("/xdg"), Some("/home/u")) {
        ConfigPath::FirstOf(paths) => assert_eq!(
            paths,
            toks(&["/xdg/yabai/yabairc", "/home/u/.config/yabai/yabairc", "/home/u/.yabairc"])
        ),
        other => panic!("{other:?}"),
    }
    match resolve_config_path(&Vec::new(), None, None) {
        ConfigPath::FirstOf(paths) => assert!(paths.is_empty()),
        other => panic!("{other:?}"),
    }
}

#[test]
fn window_actions_are_recognised() {
    let (target, actions) = window(&toks(&["window", "--focus", "first"]));
    assert!(is_window_focus(&target, &actions));
    assert!(!is_window_minimize(&actions));
    let (_, actions) = window(&toks(&["window", "--minimize"]));
    assert!(is_window_minimize(&actions));
    let (_, actions) = window(&fs_toggle(None));
    assert!(is_window_native_fullscreen(&actions));
    let (_, actions) = window(&toks(&["window", "--toggle", "float"]));
    assert!(!is_window_native_fullscreen(&actions));
}

#[test]
fn opacity_settings_are_recognised() {
    let on = ConfigOp::Put("window_opacity".to_string(), ConfigValue::Bool(true));
    assert!(is_opacity_config(&vec![on]));
    let read = ConfigOp::Get("window_opacity".to_string());
    let gap = ConfigOp::Put("window_gap".to_string(), ConfigValue::Int(3));
    assert!(!is_opacity_config(&vec![read, gap]));
}
