//! The launch agent and its commands.
use yabai::service::{
    domain_target, first_step, plan_launch, plist_contents, plist_path, restart_call,
    service_target, start_error, ServiceCommand, ServiceStep,
};

fn words(calls: Vec<Vec<String>>) -> Vec<String> {
    calls.into_iter().map(|call| call.join(" ")).collect()
}

#[test]
fn the_property_list_is_in_the_home_directory() {
    let path = "/Users/u/Library/LaunchAgents/com.asmvik.yabai.plist";
    assert_eq!(plist_path(Some("/Users/u")).as_deref(), Some(path));
    assert_eq!(plist_path(Some("/Users/u/")).as_deref(), Some(path));
    assert_eq!(plist_path(Some("")), None);
    assert_eq!(plist_path(None), None);
}

#[test]
fn the_property_list_names_the_program() {
    let text = plist_contents(Some("eric"), Some("/bin:/usr/bin"), Some("/opt/yabai")).unwrap();
    assert!(text.starts_with("<?xml version=\"1.0\" encoding=\"UTF-8\"?>\n<!DOCTYPE plist"));
    assert!(text.contains("    <array>\n        <string>/opt/yabai</string>\n    </array>"));
    assert!(text.contains("        <key>PATH</key>\n        <string>/bin:/usr/bin</string>\n"));
    assert!(text.contains("<string>/tmp/yabai_eric.out.log</string>"));
    assert!(text.contains("<string>/tmp/yabai_eric.err.log</string>"));
    assert!(text.ends_with("<integer>-20</integer>\n</dict>\n</plist>"));
    let bare = plist_contents(Some("eric"), None, Some("/opt/yabai")).unwrap();
    assert!(bare.contains("<key>PATH</key>\n        <string></string>"));
    assert_eq!(plist_contents(None, None, Some("/opt/yabai")), None);
    assert_eq!(plist_contents(Some(""), None, Some("/opt/yabai")), None);
    assert_eq!(plist_contents(Some("eric"), None, None), None);
}

#[test]
fn launchd_names() {
    assert_eq!(domain_target(501), "gui/501");
    assert_eq!(service_target(501), "gui/501/com.asmvik.yabai");
}

#[test]
fn commands_are_refused_where_the_file_is_wrong() {
    let refusal = |command, path, exists| match first_step(command, path, exists) {
        ServiceStep::Refuse(complaint) => complaint,
        other => panic!("{other:?}"),
    };
    assert_eq!(
        refusal(ServiceCommand::Install, None, false).unwrap(),
        "yabai: could not resolve LaunchAgents path (env HOME not set)!"
    );
    assert_eq!(refusal(ServiceCommand::Start, None, false), None);
    assert_eq!(
        refusal(ServiceCommand::Install, Some("/p"), true).unwrap(),
        "yabai: service file '/p' is already installed!"
    );
    for command in [ServiceCommand::Uninstall, ServiceCommand::Restart, ServiceCommand::Stop] {
        assert_eq!(
            refusal(command, Some("/p"), false).unwrap(),
            "yabai: service file '/p' is not installed!"
        );
    }
    assert_eq!(start_error("/p"), "yabai: service file '/p' could not be installed!");
}

#[test]
fn commands_take_their_first_step() {
    let step = |command, exists| first_step(command, Some("/p"), exists);
    assert!(matches!(step(ServiceCommand::Install, false), ServiceStep::WritePlist));
    assert!(matches!(step(ServiceCommand::Start, false), ServiceStep::WritePlist));
    assert!(matches!(step(ServiceCommand::Start, true), ServiceStep::Probe));
    assert!(matches!(step(ServiceCommand::Uninstall, true), ServiceStep::RemovePlist));
    assert!(matches!(step(ServiceCommand::Restart, true), ServiceStep::Kickstart));
    assert!(matches!(step(ServiceCommand::Stop, true), ServiceStep::Probe));
}

#[test]
fn launchctl_is_called_by_what_is_loaded() {
    let s = "gui/501/com.asmvik.yabai";
    assert_eq!(
        words(plan_launch(true, false, 501, "/p")),
        vec![format!("enable {s}"), "bootstrap gui/501 /p".to_string()]
    );
    assert_eq!(words(plan_launch(true, true, 501, "/p")), vec![format!("kickstart {s}")]);
    assert_eq!(words(plan_launch(false, false, 501, "/p")), vec![format!("kill SIGTERM {s}")]);
    assert_eq!(
        words(plan_launch(false, true, 501, "/p")),
        vec!["bootout gui/501 /p".to_string(), format!("disable {s}")]
    );
    assert_eq!(restart_call(501).join(" "), format!("kickstart -k {s}"));
}
