//! Settings: defaults, changes, and how they are printed.
use yabai::config::{ConfigOp, ConfigValue};
use yabai::types::{
    DisplayArrangementOrder, ExternalBar, ExternalBarMode, FfmMode, MouseAction, MouseModifier,
    Real, WindowOriginMode,
};
use yabai::Config;

fn set(config: &mut Config, words: &[&str]) {
    let value = match words[0] {
        "display_arrangement_order" => {
            ConfigValue::ArrangementOrder(DisplayArrangementOrder::Horizontal)
        }
        "window_origin_display" => ConfigValue::WindowOrigin(WindowOriginMode::Focused),
        "window_animation_easing" => {
            assert_eq!(words[1], "ease_in_sine");
            ConfigValue::AnimationEasing(0)
        }
        "insert_feedback_color" => ConfigValue::Color(
            u32::from_str_radix(words[1].strip_prefix("0x").unwrap(), 16).unwrap(),
        ),
        "external_bar" => {
            let parts: Vec<&str> = words[1].split(':').collect();
            assert_eq!(parts[0], "main");
            ConfigValue::ExternalBar(ExternalBar {
                mode: ExternalBarMode::Main,
                top: parts[1].parse().unwrap(),
                bottom: parts[2].parse().unwrap(),
            })
        }
        _ => ConfigValue::Bool(words[1] == "on"),
    };
    let done = config.apply(&ConfigOp::Put(words[0].to_string(), value));
    assert_eq!(done, Ok(None));
}

fn get(config: &mut Config, key: &str) -> String {
    config
        .apply(&ConfigOp::Get(key.to_string()))
        .unwrap()
        .unwrap()
}

#[test]
fn extended_config_keys_round_trip() {
    let mut config = Config::default();

    assert_eq!(get(&mut config, "display_arrangement_order"), "default");
    assert_eq!(get(&mut config, "window_origin_display"), "default");
    assert_eq!(get(&mut config, "window_animation_easing"), "ease_out_circ");
    assert_eq!(get(&mut config, "insert_feedback_color"), "0xffd75f5f");
    assert_eq!(get(&mut config, "external_bar"), "off:0:0");
    assert_eq!(get(&mut config, "skip_window_focus_animation"), "off");

    set(&mut config, &["display_arrangement_order", "horizontal"]);
    assert_eq!(get(&mut config, "display_arrangement_order"), "horizontal");
    set(&mut config, &["window_origin_display", "focused"]);
    assert_eq!(get(&mut config, "window_origin_display"), "focused");
    set(&mut config, &["window_animation_easing", "ease_in_sine"]);
    assert_eq!(get(&mut config, "window_animation_easing"), "ease_in_sine");
    set(&mut config, &["insert_feedback_color", "0x11223344"]);
    assert_eq!(get(&mut config, "insert_feedback_color"), "0x11223344");
    set(&mut config, &["external_bar", "main:28:4"]);
    assert_eq!(get(&mut config, "external_bar"), "main:28:4");
    set(&mut config, &["skip_window_focus_animation", "on"]);
    assert_eq!(get(&mut config, "skip_window_focus_animation"), "on");
}

#[test]
fn a_change_is_read_back_and_leaves_the_rest() {
    let mut config = Config::default();
    let before: Vec<String> = KEYS.iter().map(|k| get(&mut config, k)).collect();
    let ratio = Real { bits: 0.25f32.to_bits(), text: "0.2500".to_string() };
    assert_eq!(config.set("split_ratio", &ConfigValue::Float(ratio)), Ok(()));
    assert_eq!(config.get("split_ratio"), Ok("0.2500".to_string()));
    for (key, value) in KEYS.iter().zip(before) {
        if *key != "split_ratio" {
            assert_eq!(get(&mut config, key), value);
        }
    }
}

const KEYS: [&str; 9] = [
    "mouse_modifier",
    "mouse_action1",
    "mouse_action2",
    "mouse_drop_action",
    "layout",
    "split_type",
    "split_ratio",
    "window_placement",
    "window_insertion_point",
];

#[test]
fn enumerations_print_their_words() {
    let mut config = Config::default();
    assert_eq!(config.set("mouse_modifier", &ConfigValue::MouseMod(MouseModifier::Cmd)), Ok(()));
    assert_eq!(get(&mut config, "mouse_modifier"), "cmd");
    assert_eq!(config.set("mouse_action1", &ConfigValue::MouseAction(MouseAction::Resize)), Ok(()));
    assert_eq!(get(&mut config, "mouse_action1"), "resize");
    assert_eq!(config.set("focus_follows_mouse", &ConfigValue::Ffm(FfmMode::Autoraise)), Ok(()));
    assert_eq!(get(&mut config, "focus_follows_mouse"), "autoraise");
}

#[test]
fn unknown_keys_and_wrong_values_are_refused() {
    let mut config = Config::default();
    assert_eq!(
        config.get("no_such_key"),
        Err("unsupported config key 'no_such_key'".to_string())
    );
    assert!(config.set("no_such_key", &ConfigValue::Bool(true)).is_err());
    assert!(config.set("window_gap", &ConfigValue::Bool(true)).is_err());
    assert_eq!(get(&mut config, "window_gap"), "0");
}
