//! Rules and signals: what matches, what wins, what is listed.
use yabai::pattern::{check_pattern, filter_ok, filter_says, pattern_outcome};
use yabai::rules::{
    add_rule, combine_effects, compile_rule, drop_spent, matched_effects, serialize_rule, Rule,
    RuleEffects,
};
use yabai::selectors::{quoted_label, selector_string};
use yabai::signals::{
    add_signal, compile_signal, serialize_signals, signal_actions_for_context, signal_order,
    Signal, SignalEvent,
};
use yabai::types::{Direction, Layer, Real, Selector};

fn rule(label: Option<&str>, app: Option<&str>) -> Rule {
    Rule {
        label: label.map(|s| s.to_string()),
        app: app.map(|s| s.to_string()),
        title: None,
        role: None,
        subrole: None,
        app_exclude: false,
        title_exclude: false,
        role_exclude: false,
        subrole_exclude: false,
        one_shot: false,
        effects: RuleEffects::new(),
    }
}

fn signal(event: SignalEvent, action: &str, label: Option<&str>) -> Signal {
    Signal {
        event,
        action: action.to_string(),
        label: label.map(|s| s.to_string()),
        app: None,
        app_exclude: false,
        title: None,
        title_exclude: false,
        active: None,
    }
}

#[test]
fn patterns_are_searched_for() {
    let p = Some("^Fin.*r$".to_string());
    assert!(filter_ok(&p, false, "Finder"));
    assert!(!filter_ok(&p, true, "Finder"));
    assert!(!filter_ok(&p, false, "a Finder"));
    assert!(filter_ok(&None, false, "anything"));
    assert!(filter_ok(&Some("ind".to_string()), false, "Finder"));
    assert!(filter_says(true, false));
    assert!(!filter_says(true, true));
}

#[test]
fn patterns_that_do_not_compile_are_refused() {
    assert_eq!(check_pattern(&Some("a+".to_string()), "app"), Ok(()));
    assert_eq!(check_pattern(&None, "app"), Ok(()));
    let text = "invalid regex pattern '(' for key 'title'\n".to_string();
    assert_eq!(check_pattern(&Some("(".to_string()), "title"), Err(text.clone()));
    assert_eq!(pattern_outcome("(", "title", false), Err(text));
    assert_eq!(pattern_outcome("(", "title", true), Ok(()));
    assert!(compile_rule(rule(None, Some("["))).is_err());
    let mut bad = signal(SignalEvent::WindowFocused, "x", None);
    bad.title = Some("*".to_string());
    assert!(compile_signal(bad).is_err());
}

#[test]
fn the_later_rule_wins() {
    let mut first = rule(None, Some("A"));
    first.effects.manage = Some(false);
    first.effects.layer = Some(Layer::Above);
    let mut second = rule(None, Some("A"));
    second.effects.manage = Some(true);
    let rules = vec![first, second];
    let effects = matched_effects(&rules, "A", "", "", "", true).unwrap();
    assert_eq!(effects.manage, Some(true));
    assert_eq!(effects.layer, Some(Layer::Above));
    assert!(matched_effects(&rules, "B", "", "", "", true).is_none());
    let mut result = RuleEffects::new();
    combine_effects(&effects, &mut result);
    assert_eq!(result.manage, Some(true));
}

#[test]
fn a_label_names_one_rule() {
    let mut rules = vec![rule(Some("a"), None), rule(None, None), rule(Some("b"), None)];
    let mut again = rule(Some("a"), Some("X"));
    again.effects.sticky = Some(true);
    add_rule(&mut rules, again);
    let labels: Vec<Option<&str>> = rules.iter().map(|r| r.label.as_deref()).collect();
    assert_eq!(labels.iter().filter(|l| **l == Some("a")).count(), 1);
    assert_eq!(labels.len(), 3);
}

#[test]
fn one_shot_rules_are_spent() {
    let mut once = rule(None, Some("^A$"));
    once.one_shot = true;
    let mut rules = vec![once, rule(None, Some("^A$"))];
    drop_spent(&mut rules, "B", "", "", "");
    assert_eq!(rules.len(), 2);
    drop_spent(&mut rules, "A", "", "", "");
    assert_eq!(rules.len(), 1);
    assert!(!rules[0].one_shot);
}

#[test]
fn a_rule_is_listed_with_its_effects() {
    let mut r = rule(Some("a"), Some("^A$"));
    r.effects.opacity = Some(Real { bits: 0.5f32.to_bits(), text: "0.5000".to_string() });
    r.effects.grid = Some([1, 2, 3, 4, 5, 6]);
    let text = serialize_rule(&r, 3);
    assert!(text.contains("\"index\":3"));
    assert!(text.contains("\"opacity\":0.5000"));
    assert!(text.contains("\"grid\":\"1:2:3:4:5:6\""));
    assert!(text.contains("\"manage\":null"));
}

#[test]
fn a_label_names_one_signal_and_events_are_grouped() {
    let mut signals = Vec::new();
    add_signal(&mut signals, signal(SignalEvent::SystemWoke, "one", Some("a")));
    add_signal(&mut signals, signal(SignalEvent::ApplicationLaunched, "two", None));
    add_signal(&mut signals, signal(SignalEvent::WindowCreated, "three", Some("a")));
    assert_eq!(signals.len(), 2);
    assert_eq!(signal_order(&signals), vec![0, 1]);
    assert_eq!(signals[0].action, "two");
    add_signal(&mut signals, signal(SignalEvent::ApplicationLaunched, "four", None));
    assert_eq!(signal_order(&signals), vec![0, 2, 1]);
    let text = serialize_signals(&signals);
    let (two, four, three) =
        (text.find("two").unwrap(), text.find("four").unwrap(), text.find("three").unwrap());
    assert!(two < four && four < three);
    assert_eq!(
        signal_actions_for_context(&signals, SignalEvent::ApplicationLaunched, None, None, None),
        vec!["two".to_string(), "four".to_string()]
    );
}

#[test]
fn selectors_are_shown_in_complaints() {
    assert_eq!(selector_string(&Selector::Index(7)), "Index(7)");
    assert_eq!(selector_string(&Selector::Direction(Direction::West)), "Direction(West)");
    assert_eq!(selector_string(&Selector::Label("a\"b".to_string())), "Label(\"a\\\"b\")");
    assert_eq!(quoted_label("\"x\""), "Label(\"x\")");
    for s in [Selector::First, Selector::Last, Selector::Next, Selector::Mouse] {
        assert_eq!(selector_string(&s), format!("{s:?}"));
    }
}
