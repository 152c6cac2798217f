//! Installing and loading the scripting addition.
use yabai::loader::{
    allows_arm64e, digest_word, find_arm64e_caps, first_install_step, is_arm64e_enabled,
    is_sip_friendly, next_install_step, next_sudoers_step, patch_loader, paths, plan_load,
    plan_sudoers, plan_uninstall, plist_string_value, report_sudoers_removal, sa_bundle_plist,
    sa_plist, sudoers_installed, sudoers_rule, validate, version_is_current, InstallStep,
    LoadPlan, RemovalPlan, SudoersPlan, SudoersRemoval, SudoersStep,
};

/// A thin binary for arm64e with a capability byte.
fn thin(caps: u8) -> Vec<u8> {
    let mut out = Vec::new();
    out.extend_from_slice(&0xfeed_facfu32.to_le_bytes());
    out.extend_from_slice(&16_777_228u32.to_le_bytes());
    out.extend_from_slice(&[2, 0, 0, caps]);
    out.extend_from_slice(&[9; 8]);
    out
}

/// A fat binary with a slice for another processor and one for arm64e.
fn fat(caps: u8) -> Vec<u8> {
    let mut out = Vec::new();
    out.extend_from_slice(&0xcafe_babeu32.to_be_bytes());
    out.extend_from_slice(&2u32.to_be_bytes());
    for (cpu, sub, offset) in [(7u32, 3u32, 48u32), (16_777_228, ((caps as u32) << 24) | 2, 64)] {
        out.extend_from_slice(&cpu.to_be_bytes());
        out.extend_from_slice(&sub.to_be_bytes());
        out.extend_from_slice(&offset.to_be_bytes());
        out.extend_from_slice(&[0; 8]);
    }
    out.resize(64, 0);
    out.extend_from_slice(&thin(caps));
    out
}

#[test]
fn capability_bytes_are_found() {
    assert_eq!(find_arm64e_caps(&thin(0x81)), Some((0x81, None, Some(11))));
    assert_eq!(find_arm64e_caps(&fat(0x80)), Some((0x80, Some(8 + 20 + 4), Some(64 + 11))));
    assert_eq!(find_arm64e_caps(&Vec::new()), None);
    assert_eq!(find_arm64e_caps(&vec![0; 64]), None);
    let mut other = thin(0);
    other[8] = 1;
    assert_eq!(find_arm64e_caps(&other), None);
}

#[test]
fn a_loader_gets_the_bytes_of_the_dock() {
    let patched = patch_loader(&thin(0x80), fat(0)).unwrap();
    assert_eq!(patched, fat(0x80));
    // A loader that was patched needs no other patch.
    assert_eq!(patch_loader(&thin(0x80), patched), None);
    assert_eq!(patch_loader(&vec![1, 2, 3], fat(0)), None);
    assert_eq!(patch_loader(&thin(0x80), vec![1, 2, 3]), None);
}

/// A fat binary of three entries whose last one names a slice inside the table, so
/// that the capability byte of the slice lies in the entry before it.
fn overlapping(cpu: u32) -> Vec<u8> {
    let mut out = vec![0; 120];
    out[0..4].copy_from_slice(&0xcafe_babeu32.to_be_bytes());
    out[4..8].copy_from_slice(&3u32.to_be_bytes());
    out[28..32].copy_from_slice(&cpu.to_be_bytes());
    out[32..36].copy_from_slice(&2u32.to_be_bytes());
    out[36..40].copy_from_slice(&80u32.to_be_bytes());
    out[48..52].copy_from_slice(&16_777_228u32.to_be_bytes());
    out[52..56].copy_from_slice(&2u32.to_be_bytes());
    out[56..60].copy_from_slice(&17u32.to_be_bytes());
    out[17..28].copy_from_slice(&thin(0)[..11]);
    out[80..92].copy_from_slice(&thin(0)[..12]);
    out
}

#[test]
fn a_patch_is_final_unless_it_moves_the_places() {
    let loader = overlapping(0x0000_000c);
    assert_eq!(find_arm64e_caps(&loader), Some((0, Some(52), Some(28))));
    let patched = patch_loader(&thin(0x80), loader).unwrap();
    assert_eq!((patched[52], patched[28]), (0x80, 0x80));
    assert_eq!(patch_loader(&thin(0x80), patched), None);

    // With this byte the entry before becomes one for arm64e.
    let moved = patch_loader(&thin(1), overlapping(0x0000_000c)).unwrap();
    assert_eq!(find_arm64e_caps(&moved), Some((0, Some(32), Some(91))));
    assert!(patch_loader(&thin(1), moved).is_some());
}

#[test]
fn the_bundle_has_its_places() {
    let p = paths();
    assert_eq!(p.info_plist, "/Library/ScriptingAdditions/yabai.osax/Contents/Info.plist");
    assert_eq!(p.bin_loader, "/Library/ScriptingAdditions/yabai.osax/Contents/MacOS/loader");
    assert_eq!(
        p.bin_payload,
        "/Library/ScriptingAdditions/yabai.osax/Contents/Resources/payload.bundle/Contents/MacOS/payload"
    );
}

#[test]
fn property_lists_read_back() {
    for text in [sa_plist("2.1.30"), sa_bundle_plist("2.1.30")] {
        assert_eq!(plist_string_value(&text, "CFBundleVersion").as_deref(), Some("2.1.30"));
        assert!(text.contains("Copyright © 2019 Åsmund Vikane. All rights reserved."));
        assert!(version_is_current(Some(&text), "2.1.30"));
        assert!(!version_is_current(Some(&text), "2.1.31"));
    }
    assert_eq!(
        plist_string_value(&sa_plist("1"), "CFBundleExecutable").as_deref(),
        Some("loader")
    );
    assert_eq!(
        plist_string_value(&sa_bundle_plist("1"), "CFBundleExecutable").as_deref(),
        Some("payload")
    );
    assert_eq!(plist_string_value(&sa_plist("1"), "NoSuchKey"), None);
    assert_eq!(plist_string_value(&sa_bundle_plist("1"), "OSAXHandlers"), None);
    // A version is cut at the text that ends a value.
    assert_eq!(
        plist_string_value(&sa_plist("1</string>2"), "CFBundleVersion").as_deref(),
        Some("1")
    );
    let tricky = "<key>CFBundleVersion</key>1";
    assert_eq!(
        plist_string_value(&sa_plist(tricky), "CFBundleVersion").as_deref(),
        Some(tricky)
    );
    assert_eq!(plist_string_value("<key>a</key><string>b", "a"), None);
    assert!(!version_is_current(None, "1"));
}

#[test]
fn the_system_has_to_allow_it() {
    assert!(is_sip_friendly(0x06));
    assert!(!is_sip_friendly(0x02));
    assert!(!is_sip_friendly(0x04));
    assert!(is_sip_friendly(0xff));
    assert!(is_arm64e_enabled(Some(&b"-v -arm64e_preview_abi\0".to_vec())));
    assert!(is_arm64e_enabled(Some(&b"\xff-arm64e_preview_abi".to_vec())));
    assert!(!is_arm64e_enabled(Some(&b"-v".to_vec())));
    assert!(!is_arm64e_enabled(None));
    assert!(allows_arm64e("-arm64e_preview_abi"));
}

#[test]
fn an_installation_runs_to_its_end() {
    let mut step = first_install_step(true);
    let mut steps = 0;
    while !matches!(step, InstallStep::Finished(_)) {
        step = next_install_step(step, true);
        steps += 1;
        assert!(steps < 20);
    }
    assert_eq!(step, InstallStep::Finished(0));
    assert_eq!(first_install_step(true), InstallStep::RemoveOld);
    assert_eq!(next_install_step(InstallStep::RemoveOld, false), InstallStep::Finished(1));
    let failed = next_install_step(first_install_step(false), false);
    assert_eq!(failed, InstallStep::CleanUp);
    assert_eq!(next_install_step(failed, true), InstallStep::Finished(2));
}

#[test]
fn loading_is_planned() {
    let refusal = |plan| match plan {
        LoadPlan::Refuse(text) => text,
        other => panic!("{other:?}"),
    };
    assert_eq!(
        refusal(plan_load(false, true, true, true, true, true)),
        "yabai: scripting-addition must be loaded as root!"
    );
    assert!(refusal(plan_load(true, false, true, true, true, true))
        .contains("System Integrity Protection"));
    assert!(matches!(plan_load(true, true, false, true, true, true), LoadPlan::Install));
    assert!(matches!(plan_load(true, true, true, false, true, true), LoadPlan::Install));
    assert!(refusal(plan_load(true, true, true, true, true, false))
        .contains("-arm64e_preview_abi"));
    assert!(matches!(
        plan_load(true, true, true, true, true, true),
        LoadPlan::Inject { check_caps: true }
    ));
    assert!(matches!(
        plan_load(true, true, true, true, false, false),
        LoadPlan::Inject { check_caps: false }
    ));
}

#[test]
fn a_payload_is_validated() {
    let ok = validate(Some(("2", 7)), "2", 3, false);
    assert_eq!((ok.code, ok.restart_dock, ok.complaint), (0, false, None));
    let lacking = validate(Some(("2", 1)), "2", 3, false);
    assert_eq!(lacking.code, 1);
    assert_eq!(
        lacking.complaint.as_deref(),
        Some("yabai: scripting-addition payload (0x1) doesn't support this macOS version!")
    );
    let old = validate(Some(("1", 3)), "2", 3, true);
    assert_eq!((old.code, old.restart_dock), (0, true));
    assert_eq!(validate(None, "2", 3, false).code, 1);
}

#[test]
fn removal_is_planned() {
    assert!(matches!(plan_uninstall(true, true, true), RemovalPlan::Remove));
    assert!(matches!(plan_uninstall(true, true, false), RemovalPlan::Nothing));
    match plan_uninstall(false, true, true) {
        RemovalPlan::Refuse(text) => {
            assert_eq!(text, "yabai: scripting-addition must be uninstalled as root!")
        }
        other => panic!("{other:?}"),
    }
}

#[test]
fn a_rule_for_sudo_pins_the_digest() {
    let digest = "a".repeat(64);
    assert_eq!(
        sudoers_rule("eric", &digest, "/opt/yabai"),
        format!("eric ALL=(root) NOPASSWD: sha256:{digest} /opt/yabai --load-sa\n")
    );
    assert_eq!(digest_word(&format!("{digest}  /opt/yabai\n")), Some(digest.clone()));
    assert_eq!(digest_word("short  /opt/yabai"), None);
    assert_eq!(digest_word(&"g".repeat(64)), None);
    assert_eq!(digest_word("   "), None);
    let spaced = format!("\u{2003}\u{a0}{digest}\u{3000}/opt/yabai");
    assert_eq!(digest_word(&spaced), Some(digest.clone()));
    // A zero-width space is no white space.
    assert_eq!(digest_word(&format!("\u{200b}{digest} /opt/yabai")), None);
    match plan_sudoers(true, Some("eric"), Some("/opt/yabai"), Some(&digest)) {
        SudoersPlan::Write(rule) => assert!(rule.starts_with("eric ALL=")),
        other => panic!("{other:?}"),
    }
    let refusal = |plan| match plan {
        SudoersPlan::Refuse(text) => text,
        other => panic!("{other:?}"),
    };
    assert!(refusal(plan_sudoers(false, Some("e"), None, None)).contains("installed as root"));
    assert!(refusal(plan_sudoers(true, None, None, None)).contains("SUDO_USER"));
    assert!(refusal(plan_sudoers(true, Some("e"), None, None)).contains("path of executable"));
    assert!(refusal(plan_sudoers(true, Some("e"), Some("/x"), None)).contains("sha256 of '/x'"));
}

#[test]
fn a_rule_for_sudo_is_checked_before_it_is_moved() {
    let mut steps = vec![SudoersStep::Write];
    while steps.last() != Some(&SudoersStep::Finished) {
        steps.push(next_sudoers_step(*steps.last().unwrap(), true).unwrap());
    }
    assert_eq!(
        steps,
        vec![
            SudoersStep::Write,
            SudoersStep::Restrict,
            SudoersStep::Check,
            SudoersStep::Move,
            SudoersStep::Finished,
        ]
    );
    let tmp = "/private/etc/sudoers.d/yabai.tmp";
    assert_eq!(
        next_sudoers_step(SudoersStep::Write, false),
        Err((format!("yabai: failed to write '{tmp}'!"), false))
    );
    assert_eq!(
        next_sudoers_step(SudoersStep::Restrict, false),
        Err((format!("yabai: failed to set permissions on '{tmp}'!"), true))
    );
    assert!(next_sudoers_step(SudoersStep::Check, false).unwrap_err().0.contains("visudo -c"));
    assert_eq!(
        next_sudoers_step(SudoersStep::Move, false).unwrap_err().0,
        "yabai: failed to move sudoers rule into place at '/private/etc/sudoers.d/yabai'!"
    );
    assert_eq!(next_sudoers_step(SudoersStep::Finished, false), Ok(SudoersStep::Finished));
    assert_eq!(
        sudoers_installed("eric"),
        "yabai: installed passwordless '--load-sa' sudoers rule at '/private/etc/sudoers.d/yabai' for user 'eric'"
    );
}

#[test]
fn removing_a_rule_for_sudo_is_reported() {
    assert_eq!(
        report_sudoers_removal(SudoersRemoval::Removed),
        ("yabai: removed sudoers rule at '/private/etc/sudoers.d/yabai'".to_string(), true)
    );
    assert_eq!(
        report_sudoers_removal(SudoersRemoval::Missing),
        ("yabai: no sudoers rule installed at '/private/etc/sudoers.d/yabai'".to_string(), true)
    );
    assert_eq!(
        report_sudoers_removal(SudoersRemoval::Failed),
        ("yabai: failed to remove '/private/etc/sudoers.d/yabai'!".to_string(), false)
    );
    let (text, well) = report_sudoers_removal(SudoersRemoval::Forbidden);
    assert!(text.contains("uninstalled as root") && !well);
}
