//! Window rules: which windows a rule matches, what it does to them, and how
//! rules are listed.
use vstd::prelude::*;

use crate::pattern;
use crate::text;
use crate::types;
use crate::types::{Layer, Real};

verus! {

/// What a rule does to the windows it matches.
#[derive(Debug)]
pub struct RuleEffects {
    pub manage: Option<bool>,
    pub sticky: Option<bool>,
    pub mff: Option<bool>,
    pub fullscreen: Option<bool>,
    pub opacity: Option<Real>,
    pub layer: Option<Layer>,
    pub grid: Option<[u32; 6]>,
    pub scratchpad: Option<String>,
    pub display: Option<String>,
    pub space: Option<String>,
    pub follow_space: bool,
}

/// A window rule.
#[derive(Debug)]
pub struct Rule {
    pub label: Option<String>,
    pub app: Option<String>,
    pub title: Option<String>,
    pub role: Option<String>,
    pub subrole: Option<String>,
    pub app_exclude: bool,
    pub title_exclude: bool,
    pub role_exclude: bool,
    pub subrole_exclude: bool,
    pub one_shot: bool,
    pub effects: RuleEffects,
}

/// A duplicate of an optional text.
pub fn copy_text(value: &Option<String>) -> (r: Option<String>)
    ensures
        r == *value,
{
    match value {
        Some(s) => Some(s.clone()),
        None => None,
    }
}

/// A duplicate of an optional number.
fn copy_real(value: &Option<Real>) -> (r: Option<Real>)
    ensures
        r == *value,
{
    match value {
        Some(x) => Some(x.copy()),
        None => None,
    }
}

/// The later of two optional values, if it is set.
pub open spec fn overlay<T>(base: Option<T>, over: Option<T>) -> Option<T> {
    if over is Some {
        over
    } else {
        base
    }
}

impl RuleEffects {
    /// No effect at all.
    pub open spec fn none() -> RuleEffects {
        RuleEffects {
            manage: None,
            sticky: None,
            mff: None,
            fullscreen: None,
            opacity: None,
            layer: None,
            grid: None,
            scratchpad: None,
            display: None,
            space: None,
            follow_space: false,
        }
    }

    /// These effects overlaid by later ones: each effect that the later rule
    /// sets wins; whether to follow goes with the display or the space.
    pub open spec fn overlaid(self, over: RuleEffects) -> RuleEffects {
        RuleEffects {
            manage: overlay(self.manage, over.manage),
            sticky: overlay(self.sticky, over.sticky),
            mff: overlay(self.mff, over.mff),
            fullscreen: overlay(self.fullscreen, over.fullscreen),
            opacity: overlay(self.opacity, over.opacity),
            layer: overlay(self.layer, over.layer),
            grid: overlay(self.grid, over.grid),
            scratchpad: overlay(self.scratchpad, over.scratchpad),
            display: overlay(self.display, over.display),
            space: overlay(self.space, over.space),
            follow_space: if over.display is Some || over.space is Some {
                over.follow_space
            } else {
                self.follow_space
            },
        }
    }

    pub fn new() -> (r: Self)
        ensures
            r == RuleEffects::none(),
    {
        RuleEffects {
            manage: None,
            sticky: None,
            mff: None,
            fullscreen: None,
            opacity: None,
            layer: None,
            grid: None,
            scratchpad: None,
            display: None,
            space: None,
            follow_space: false,
        }
    }

    pub fn copy(&self) -> (r: Self)
        ensures
            r == *self,
    {
        RuleEffects {
            manage: self.manage,
            sticky: self.sticky,
            mff: self.mff,
            fullscreen: self.fullscreen,
            opacity: copy_real(&self.opacity),
            layer: self.layer,
            grid: self.grid,
            scratchpad: copy_text(&self.scratchpad),
            display: copy_text(&self.display),
            space: copy_text(&self.space),
            follow_space: self.follow_space,
        }
    }
}

/// Merge one rule's effects into what earlier rules gave.
pub fn combine_effects(effects: &RuleEffects, result: &mut RuleEffects)
    ensures
        *final(result) == old(result).overlaid(*effects),
{
    if effects.manage.is_some() {
        result.manage = effects.manage;
    }
    if effects.sticky.is_some() {
        result.sticky = effects.sticky;
    }
    if effects.mff.is_some() {
        result.mff = effects.mff;
    }
    if effects.fullscreen.is_some() {
        result.fullscreen = effects.fullscreen;
    }
    if effects.opacity.is_some() {
        result.opacity = copy_real(&effects.opacity);
    }
    if effects.layer.is_some() {
        result.layer = effects.layer;
    }
    if effects.grid.is_some() {
        result.grid = effects.grid;
    }
    if effects.scratchpad.is_some() {
        result.scratchpad = copy_text(&effects.scratchpad);
    }
    if effects.display.is_some() {
        result.display = copy_text(&effects.display);
        result.follow_space = effects.follow_space;
    }
    if effects.space.is_some() {
        result.space = copy_text(&effects.space);
        result.follow_space = effects.follow_space;
    }
}

/// What a rule is held against: a window's application, title, role and
/// subrole.
pub ghost struct Traits {
    pub app: Seq<char>,
    pub title: Seq<char>,
    pub role: Seq<char>,
    pub subrole: Seq<char>,
}

impl Rule {
    /// Whether every filter of the rule passes.
    pub open spec fn passes(self, w: Traits) -> bool {
        &&& pattern::filter_passes(self.app, self.app_exclude, w.app)
        &&& pattern::filter_passes(self.title, self.title_exclude, w.title)
        &&& pattern::filter_passes(self.role, self.role_exclude, w.role)
        &&& pattern::filter_passes(self.subrole, self.subrole_exclude, w.subrole)
    }

    /// Whether every pattern of the rule compiles.
    pub open spec fn compiles(self) -> bool {
        &&& pattern::usable(self.app)
        &&& pattern::usable(self.title)
        &&& pattern::usable(self.role)
        &&& pattern::usable(self.subrole)
    }

    /// The complaint about the first pattern that does not compile.
    pub open spec fn complaint(self) -> Seq<char> {
        if !pattern::usable(self.app) {
            pattern::bad_pattern(self.app->0@, "app"@)
        } else if !pattern::usable(self.title) {
            pattern::bad_pattern(self.title->0@, "title"@)
        } else if !pattern::usable(self.role) {
            pattern::bad_pattern(self.role->0@, "role"@)
        } else {
            pattern::bad_pattern(self.subrole->0@, "subrole"@)
        }
    }

    /// Whether the rule matches a window.
    pub fn matches(&self, app: &str, title: &str, role: &str, subrole: &str) -> (r: bool)
        ensures
            r == self.passes(
                Traits { app: app@, title: title@, role: role@, subrole: subrole@ },
            ),
    {
        pattern::filter_ok(&self.app, self.app_exclude, app) && pattern::filter_ok(
            &self.title,
            self.title_exclude,
            title,
        ) && pattern::filter_ok(&self.role, self.role_exclude, role) && pattern::filter_ok(
            &self.subrole,
            self.subrole_exclude,
            subrole,
        )
    }
}

/// Check the patterns of a rule.
pub fn check_patterns(rule: &Rule) -> (r: Result<(), String>)
    ensures
        match r {
            Ok(_) => rule.compiles(),
            Err(error) => !rule.compiles() && error@ == rule.complaint(),
        },
{
    if let Err(error) = pattern::check_pattern(&rule.app, "app") {
        return Err(error);
    }
    if let Err(error) = pattern::check_pattern(&rule.title, "title") {
        return Err(error);
    }
    if let Err(error) = pattern::check_pattern(&rule.role, "role") {
        return Err(error);
    }
    if let Err(error) = pattern::check_pattern(&rule.subrole, "subrole") {
        return Err(error);
    }
    Ok(())
}

/// Check the patterns of a rule; the rule is handed back if all compile.
pub fn compile_rule(rule: Rule) -> (r: Result<Rule, String>)
    ensures
        match r {
            Ok(checked) => rule.compiles() && checked == rule,
            Err(error) => !rule.compiles() && error@ == rule.complaint(),
        },
{
    match check_patterns(&rule) {
        Ok(()) => Ok(rule),
        Err(error) => Err(error),
    }
}

/// Whether a rule takes part: one-shot rules only where they are asked for.
pub open spec fn takes_part(rule: Rule, w: Traits, include_one_shot: bool) -> bool {
    (include_one_shot || !rule.one_shot) && rule.passes(w)
}

/// The effects of all rules that take part, later ones overlaying earlier ones.
pub open spec fn combined(rules: Seq<Rule>, w: Traits, include_one_shot: bool) -> RuleEffects
    decreases rules.len(),
{
    if rules.len() == 0 {
        RuleEffects::none()
    } else {
        let earlier = combined(rules.drop_last(), w, include_one_shot);
        if takes_part(rules.last(), w, include_one_shot) {
            earlier.overlaid(rules.last().effects)
        } else {
            earlier
        }
    }
}

/// Whether any rule takes part.
pub open spec fn any_takes_part(rules: Seq<Rule>, w: Traits, include_one_shot: bool) -> bool {
    exists|i: int| 0 <= i < rules.len() && takes_part(#[trigger] rules[i], w, include_one_shot)
}

/// The combined effects of the rules that take part, or nothing if none does.
pub fn matched_effects(
    rules: &Vec<Rule>,
    app: &str,
    title: &str,
    role: &str,
    subrole: &str,
    include_one_shot: bool,
) -> (r: Option<RuleEffects>)
    ensures
        r == ({
            let w = Traits { app: app@, title: title@, role: role@, subrole: subrole@ };
            if any_takes_part(rules@, w, include_one_shot) {
                Some(combined(rules@, w, include_one_shot))
            } else {
                None
            }
        }),
        !any_takes_part(
            rules@,
            Traits { app: app@, title: title@, role: role@, subrole: subrole@ },
            include_one_shot,
        ) ==> combined(
            rules@,
            Traits { app: app@, title: title@, role: role@, subrole: subrole@ },
            include_one_shot,
        ) == RuleEffects::none(),
{
    let ghost w = Traits { app: app@, title: title@, role: role@, subrole: subrole@ };
    let mut result = RuleEffects::new();
    let mut matched = false;
    let mut i: usize = 0;
    while i < rules.len()
        invariant
            i <= rules.len(),
            w == (Traits { app: app@, title: title@, role: role@, subrole: subrole@ }),
            result == combined(rules@.take(i as int), w, include_one_shot),
            matched == (exists|j: int|
                0 <= j < i && takes_part(#[trigger] rules@[j], w, include_one_shot)),
            !matched ==> result == RuleEffects::none(),
        decreases rules.len() - i,
    {
        proof {
            assert(rules@.take(i + 1).drop_last() =~= rules@.take(i as int));
        }
        let rule = &rules[i];
        if (include_one_shot || !rule.one_shot) && rule.matches(app, title, role, subrole) {
            matched = true;
            combine_effects(&rule.effects, &mut result);
            assert(takes_part(rules@[i as int], w, include_one_shot));
        }
        i += 1;
    }
    assert(rules@.take(rules@.len() as int) =~= rules@);
    if matched {
        Some(result)
    } else {
        None
    }
}

/// The rules that stay after a window was discovered: a one-shot rule that
/// matched it is spent.
pub open spec fn unspent(rules: Seq<Rule>, w: Traits) -> Seq<Rule> {
    rules.filter(|rule: Rule| !(rule.one_shot && rule.passes(w)))
}

/// Filtering one element more.
pub proof fn lemma_filter_step<A>(s: Seq<A>, k: int, keep: spec_fn(A) -> bool)
    requires
        0 <= k < s.len(),
    ensures
        s.take(k + 1).filter(keep) == if keep(s[k]) {
            s.take(k).filter(keep).push(s[k])
        } else {
            s.take(k).filter(keep)
        },
{
    reveal(Seq::filter);
    assert(s.take(k + 1).drop_last() =~= s.take(k));
    assert(s.take(k + 1).last() == s[k]);
}

/// Drop the one-shot rules that match a window.
pub fn drop_spent(rules: &mut Vec<Rule>, app: &str, title: &str, role: &str, subrole: &str)
    ensures
        final(rules)@ == unspent(
            old(rules)@,
            Traits { app: app@, title: title@, role: role@, subrole: subrole@ },
        ),
{
    let ghost w = Traits { app: app@, title: title@, role: role@, subrole: subrole@ };
    let ghost pre = rules@;
    let ghost keep = |rule: Rule| !(rule.one_shot && rule.passes(w));
    let ghost mut k: int = 0;
    let mut i: usize = 0;
    proof {
        reveal(Seq::filter);
        assert(pre.take(0).filter(keep) =~= Seq::<Rule>::empty());
        assert(pre.skip(0) =~= pre);
    }
    while i < rules.len()
        invariant
            w == (Traits { app: app@, title: title@, role: role@, subrole: subrole@ }),
            keep == (|rule: Rule| !(rule.one_shot && rule.passes(w))),
            0 <= k <= pre.len(),
            i <= rules@.len(),
            i == pre.take(k).filter(keep).len(),
            rules@ == pre.take(k).filter(keep) + pre.skip(k),
        decreases rules.len() - i,
    {
        proof {
            assert(rules@[i as int] == pre.skip(k)[0]);
            assert(pre.skip(k)[0] == pre[k]);
            lemma_filter_step(pre, k, keep);
        }
        let ghost front = pre.take(k).filter(keep);
        let ghost now = rules@;
        let rule = &rules[i];
        if rule.one_shot && rule.matches(app, title, role, subrole) {
            let _ = rules.remove(i);
            assert(rules@ =~= front + pre.skip(k + 1));
        } else {
            assert(rules@ =~= front.push(pre[k]) + pre.skip(k + 1));
            i += 1;
        }
        proof {
            k = k + 1;
        }
    }
    proof {
        assert(pre.skip(k).len() == 0);
        assert(pre.take(k) =~= pre);
        assert(rules@ =~= pre.filter(keep));
    }
}

/// Whether a rule carries a label.
pub open spec fn is_labelled(rule: Rule, label: Seq<char>) -> bool {
    rule.label is Some && rule.label->0@ == label
}

/// The position of the first rule with a label.
pub open spec fn first_labelled(rules: Seq<Rule>, label: Seq<char>) -> Option<int>
    decreases rules.len(),
{
    if rules.len() == 0 {
        None
    } else {
        match first_labelled(rules.drop_last(), label) {
            Some(i) => Some(i),
            None => if is_labelled(rules.last(), label) {
                Some(rules.len() - 1)
            } else {
                None
            },
        }
    }
}

/// Whether an optional label is the given text.
pub fn label_is(label: &Option<String>, text: &str) -> (r: bool)
    ensures
        r == (label is Some && label->0@ == text@),
{
    match label {
        Some(l) => text::same(l.as_str(), text),
        None => false,
    }
}

/// The position of the first rule with a label.
pub fn rule_index_by_label(rules: &Vec<Rule>, label: &str) -> (r: Option<usize>)
    ensures
        match r {
            Some(i) => first_labelled(rules@, label@) == Some(i as int) && i < rules@.len(),
            None => first_labelled(rules@, label@) is None,
        },
{
    let mut found: Option<usize> = None;
    let mut i: usize = 0;
    while i < rules.len()
        invariant
            i <= rules.len(),
            match found {
                Some(j) => first_labelled(rules@.take(i as int), label@) == Some(j as int) && j < i,
                None => first_labelled(rules@.take(i as int), label@) is None,
            },
        decreases rules.len() - i,
    {
        proof {
            assert(rules@.take(i + 1).drop_last() =~= rules@.take(i as int));
        }
        if found.is_none() && label_is(&rules[i].label, label) {
            found = Some(i);
        }
        i += 1;
    }
    assert(rules@.take(rules@.len() as int) =~= rules@);
    found
}

/// The rules after a new one is added: it replaces any that carries its label.
pub open spec fn with_rule(rules: Seq<Rule>, rule: Rule) -> Seq<Rule> {
    if rule.label is Some {
        rules.filter(|other: Rule| !is_labelled(other, rule.label->0@)).push(rule)
    } else {
        rules.push(rule)
    }
}

/// Add a rule; it replaces any that carries its label.
pub fn add_rule(rules: &mut Vec<Rule>, rule: Rule)
    ensures
        final(rules)@ == with_rule(old(rules)@, rule),
{
    if let Some(label) = &rule.label {
        let ghost pre = rules@;
        let ghost name = label@;
        let ghost keep = |other: Rule| !is_labelled(other, name);
        let ghost mut k: int = 0;
        let mut i: usize = 0;
        proof {
            reveal(Seq::filter);
            assert(pre.take(0).filter(keep) =~= Seq::<Rule>::empty());
            assert(pre.skip(0) =~= pre);
        }
        while i < rules.len()
            invariant
                name == label@,
                keep == (|other: Rule| !is_labelled(other, name)),
                0 <= k <= pre.len(),
                i <= rules@.len(),
                i == pre.take(k).filter(keep).len(),
                rules@ == pre.take(k).filter(keep) + pre.skip(k),
            decreases rules.len() - i,
        {
            proof {
                assert(rules@[i as int] == pre.skip(k)[0]);
                assert(pre.skip(k)[0] == pre[k]);
                lemma_filter_step(pre, k, keep);
            }
            let ghost front = pre.take(k).filter(keep);
            if label_is(&rules[i].label, label.as_str()) {
                let _ = rules.remove(i);
                assert(rules@ =~= front + pre.skip(k + 1));
            } else {
                assert(rules@ =~= front.push(pre[k]) + pre.skip(k + 1));
                i += 1;
            }
            proof {
                k = k + 1;
            }
        }
        proof {
            assert(pre.skip(k).len() == 0);
            assert(pre.take(k) =~= pre);
            assert(rules@ =~= pre.filter(keep));
        }
    }
    rules.push(rule);
}

/// A flag's weight if it is set.
#[verifier::opaque]
pub open spec fn flag(on: bool, weight: nat) -> nat {
    if on {
        weight
    } else {
        0
    }
}

fn flag_value(on: bool, weight: u32) -> (r: u32)
    ensures
        r == flag(on, weight as nat),
        r <= weight,
{
    reveal(flag);
    if on {
        weight
    } else {
        0
    }
}

/// The flag word of a rule: the low half tells which filters are set and which
/// exclude, and whether the rule is one-shot; the high half tells which effects
/// are set.
pub open spec fn rule_flags(rule: Rule) -> nat {
    flag(rule.app is Some, 0x1) + flag(rule.title is Some, 0x2) + flag(rule.role is Some, 0x4)
        + flag(rule.subrole is Some, 0x8) + flag(rule.app_exclude, 0x10) + flag(
        rule.title_exclude,
        0x20,
    ) + flag(rule.role_exclude, 0x40) + flag(rule.subrole_exclude, 0x80) + flag(
        rule.one_shot,
        0x100,
    ) + flag(rule.effects.follow_space, 0x1_0000) + flag(rule.effects.opacity is Some, 0x2_0000)
        + flag(rule.effects.layer is Some, 0x4_0000)
}

/// A grid in decimal, separated by colons.
pub open spec fn grid_text(grid: Option<[u32; 6]>) -> Seq<char> {
    match grid {
        Some(g) => text::decimal(g[0] as nat) + ":"@ + text::decimal(g[1] as nat) + ":"@
            + text::decimal(g[2] as nat) + ":"@ + text::decimal(g[3] as nat) + ":"@ + text::decimal(
            g[4] as nat,
        ) + ":"@ + text::decimal(g[5] as nat),
        None => "0:0:0:0:0:0"@,
    }
}

/// The filters of a rule as they are listed.
pub open spec fn rule_filters_text(rule: Rule, index: nat) -> Seq<char> {
    "{\n\t\"index\":"@ + text::decimal(index) + ",\n\t\"label\":\""@ + text::json_escaped(
        text::text_or_empty(rule.label),
    ) + "\",\n\t\"app\":\""@ + text::json_escaped(text::text_or_empty(rule.app))
        + "\",\n\t\"title\":\""@ + text::json_escaped(text::text_or_empty(rule.title))
        + "\",\n\t\"role\":\""@ + text::json_escaped(text::text_or_empty(rule.role))
        + "\",\n\t\"subrole\":\""@ + text::json_escaped(text::text_or_empty(rule.subrole))
}

/// An optional opacity as it is listed.
pub open spec fn opacity_text(opacity: Option<Real>) -> Seq<char> {
    match opacity {
        Some(x) => x.text@,
        None => "0.0000"@,
    }
}

/// An optional layer as it is listed.
pub open spec fn layer_or_empty(layer: Option<Layer>) -> Seq<char> {
    match layer {
        Some(l) => types::layer_text(l),
        None => ""@,
    }
}

/// The switches of a rule's effects as they are listed.
pub open spec fn rule_switches_text(effects: RuleEffects) -> Seq<char> {
    "\",\n\t\"display\":0,\n\t\"space\":0,\n\t\"follow_space\":"@ + text::json_bool_text(
        effects.follow_space,
    ) + ",\n\t\"opacity\":"@ + opacity_text(effects.opacity) + ",\n\t\"manage\":"@
        + text::optional_bool_text(effects.manage) + ",\n\t\"sticky\":"@
        + text::optional_bool_text(effects.sticky) + ",\n\t\"mouse_follows_focus\":"@
        + text::optional_bool_text(effects.mff)
}

/// The rest of a rule as it is listed.
pub open spec fn rule_rest_text(rule: Rule) -> Seq<char> {
    ",\n\t\"sub-layer\":\""@ + layer_or_empty(rule.effects.layer)
        + "\",\n\t\"native-fullscreen\":"@ + text::optional_bool_text(rule.effects.fullscreen)
        + ",\n\t\"grid\":\""@ + grid_text(rule.effects.grid) + "\",\n\t\"scratchpad\":\""@
        + text::json_escaped(text::text_or_empty(rule.effects.scratchpad))
        + "\",\n\t\"one-shot\":"@ + text::json_bool_text(rule.one_shot) + ",\n\t\"flags\":\"0x"@
        + text::hex_padded(rule_flags(rule), 8) + "\"\n}"@
}

/// A rule as it is listed.
pub open spec fn rule_text(rule: Rule, index: nat) -> Seq<char> {
    rule_filters_text(rule, index) + rule_switches_text(rule.effects) + rule_rest_text(rule)
}

fn grid_string(grid: Option<[u32; 6]>) -> (r: String)
    ensures
        r@ == grid_text(grid),
{
    match grid {
        Some(g) => {
            let mut out = text::decimal_string(g[0] as u64);
            out.append(":");
            text::push_decimal(&mut out, g[1] as u64);
            out.append(":");
            text::push_decimal(&mut out, g[2] as u64);
            out.append(":");
            text::push_decimal(&mut out, g[3] as u64);
            out.append(":");
            text::push_decimal(&mut out, g[4] as u64);
            out.append(":");
            text::push_decimal(&mut out, g[5] as u64);
            out
        },
        None => "0:0:0:0:0:0".to_owned(),
    }
}

/// Append an escaped optional text.
pub fn push_escaped(out: &mut String, value: &Option<String>)
    ensures
        final(out)@ == old(out)@ + text::json_escaped(text::text_or_empty(*value)),
{
    let escaped = text::json_escape(text::or_empty(value));
    out.append(escaped.as_str());
}

fn rule_filters(rule: &Rule, index: usize) -> (r: String)
    ensures
        r@ == rule_filters_text(*rule, index as nat),
{
    let mut out = "{\n\t\"index\":".to_owned();
    text::push_decimal(&mut out, index as u64);
    out.append(",\n\t\"label\":\"");
    push_escaped(&mut out, &rule.label);
    out.append("\",\n\t\"app\":\"");
    push_escaped(&mut out, &rule.app);
    out.append("\",\n\t\"title\":\"");
    push_escaped(&mut out, &rule.title);
    out.append("\",\n\t\"role\":\"");
    push_escaped(&mut out, &rule.role);
    out.append("\",\n\t\"subrole\":\"");
    push_escaped(&mut out, &rule.subrole);
    out
}

fn opacity_str(opacity: &Option<Real>) -> (r: &str)
    ensures
        r@ == opacity_text(*opacity),
{
    match opacity {
        Some(x) => x.text.as_str(),
        None => "0.0000",
    }
}

fn layer_str_or_empty(layer: Option<Layer>) -> (r: &'static str)
    ensures
        r@ == layer_or_empty(layer),
{
    match layer {
        Some(l) => types::layer_str(l),
        None => "",
    }
}

fn rule_switches(effects: &RuleEffects) -> (r: String)
    ensures
        r@ == rule_switches_text(*effects),
{
    let mut out = "\",\n\t\"display\":0,\n\t\"space\":0,\n\t\"follow_space\":".to_owned();
    out.append(text::json_bool(effects.follow_space));
    out.append(",\n\t\"opacity\":");
    out.append(opacity_str(&effects.opacity));
    out.append(",\n\t\"manage\":");
    out.append(text::optional_bool(effects.manage));
    out.append(",\n\t\"sticky\":");
    out.append(text::optional_bool(effects.sticky));
    out.append(",\n\t\"mouse_follows_focus\":");
    out.append(text::optional_bool(effects.mff));
    out
}

fn flag_word(rule: &Rule) -> (r: u32)
    ensures
        r == rule_flags(*rule),
{
    flag_value(rule.app.is_some(), 0x1) + flag_value(rule.title.is_some(), 0x2) + flag_value(
        rule.role.is_some(),
        0x4,
    ) + flag_value(rule.subrole.is_some(), 0x8) + flag_value(rule.app_exclude, 0x10) + flag_value(
        rule.title_exclude,
        0x20,
    ) + flag_value(rule.role_exclude, 0x40) + flag_value(rule.subrole_exclude, 0x80) + flag_value(
        rule.one_shot,
        0x100,
    ) + flag_value(rule.effects.follow_space, 0x1_0000) + flag_value(
        rule.effects.opacity.is_some(),
        0x2_0000,
    ) + flag_value(rule.effects.layer.is_some(), 0x4_0000)
}

fn rule_rest(rule: &Rule) -> (r: String)
    ensures
        r@ == rule_rest_text(*rule),
{
    let flags = flag_word(rule);
    let mut out = ",\n\t\"sub-layer\":\"".to_owned();
    out.append(layer_str_or_empty(rule.effects.layer));
    out.append("\",\n\t\"native-fullscreen\":");
    out.append(text::optional_bool(rule.effects.fullscreen));
    out.append(",\n\t\"grid\":\"");
    out.append(grid_string(rule.effects.grid).as_str());
    out.append("\",\n\t\"scratchpad\":\"");
    push_escaped(&mut out, &rule.effects.scratchpad);
    out.append("\",\n\t\"one-shot\":");
    out.append(text::json_bool(rule.one_shot));
    out.append(",\n\t\"flags\":\"0x");
    text::push_hex_padded(&mut out, flags, 8);
    out.append("\"\n}");
    out
}

/// List one rule.
pub fn serialize_rule(rule: &Rule, index: usize) -> (r: String)
    ensures
        r@ == rule_text(*rule, index as nat),
{
    let mut out = rule_filters(rule, index);
    out.append(rule_switches(&rule.effects).as_str());
    out.append(rule_rest(rule).as_str());
    out
}

/// Rules as they are listed, separated by commas.
pub open spec fn rule_texts(rules: Seq<Rule>) -> Seq<Seq<char>> {
    Seq::new(rules.len(), |i: int| rule_text(rules[i], i as nat))
}

/// The listing of all rules.
pub open spec fn listing(rules: Seq<Rule>) -> Seq<char> {
    "["@ + text::joined(rule_texts(rules), ","@) + "]\n"@
}

/// List all rules.
pub fn serialize_rules(rules: &Vec<Rule>) -> (r: String)
    ensures
        r@ == listing(rules@),
{
    let mut parts: Vec<String> = Vec::new();
    let mut i: usize = 0;
    while i < rules.len()
        invariant
            i <= rules.len(),
            parts@.len() == i,
            forall|j: int|
                0 <= j < i ==> (#[trigger] parts@[j])@ == rule_text(rules@[j], j as nat),
        decreases rules.len() - i,
    {
        parts.push(serialize_rule(&rules[i], i));
        i += 1;
    }
    assert(text::texts(parts@) =~= rule_texts(rules@));
    let mut out = "[".to_owned();
    text::push_joined(&mut out, &parts, ",");
    out.append("]\n");
    out
}

/// A later rule that sets an effect decides it.
pub proof fn law_later_rule_wins(earlier: RuleEffects, later: RuleEffects)
    ensures
        later.manage is Some ==> earlier.overlaid(later).manage == later.manage,
        later.sticky is Some ==> earlier.overlaid(later).sticky == later.sticky,
        later.opacity is Some ==> earlier.overlaid(later).opacity == later.opacity,
        later.layer is Some ==> earlier.overlaid(later).layer == later.layer,
        later.grid is Some ==> earlier.overlaid(later).grid == later.grid,
        later.scratchpad is Some ==> earlier.overlaid(later).scratchpad == later.scratchpad,
        later.display is Some ==> earlier.overlaid(later).display == later.display,
        later.space is Some ==> earlier.overlaid(later).space == later.space,
        later == RuleEffects::none() ==> earlier.overlaid(later) == earlier,
{
}

/// Overlaying effects is associative.
pub proof fn law_overlay_is_associative(a: RuleEffects, b: RuleEffects, c: RuleEffects)
    ensures
        a.overlaid(b).overlaid(c) == a.overlaid(b.overlaid(c)),
{
}

/// After a rule with a label is added it is the only one that carries it.
pub proof fn law_rule_labels_are_unique(rules: Seq<Rule>, rule: Rule, i: int)
    requires
        rule.label is Some,
        0 <= i < with_rule(rules, rule).len(),
        is_labelled(with_rule(rules, rule)[i], rule.label->0@),
    ensures
        i == with_rule(rules, rule).len() - 1,
        with_rule(rules, rule)[i] == rule,
{
    let keep = |other: Rule| !is_labelled(other, rule.label->0@);
    let kept = rules.filter(keep);
    if i < kept.len() {
        rules.lemma_filter_pred(keep, i);
    }
}

/// No one-shot rule that matched a window survives its discovery.
pub proof fn law_one_shot_rules_are_spent(rules: Seq<Rule>, w: Traits, i: int)
    requires
        0 <= i < unspent(rules, w).len(),
    ensures
        !(unspent(rules, w)[i].one_shot && unspent(rules, w)[i].passes(w)),
{
    let keep = |rule: Rule| !(rule.one_shot && rule.passes(w));
    rules.lemma_filter_pred(keep, i);
}

/// A rule matches a window exactly if each of its patterns is found in the part of
/// the window that it is for, or, where it excludes, is not found there. A pattern
/// that does not compile is found nowhere, and an absent one rejects nothing.
pub proof fn law_rule_matches_by_every_filter(rule: Rule, w: Traits)
    ensures
        rule.passes(w) ==> {
            &&& rule.app is Some && !rule.app_exclude ==> pattern::regex_compiles(
                rule.app->0@,
                usize::BITS,
            ) && pattern::regex_is_match(rule.app->0@, w.app)
            &&& rule.title is Some && !rule.title_exclude ==> pattern::regex_compiles(
                rule.title->0@,
                usize::BITS,
            ) && pattern::regex_is_match(rule.title->0@, w.title)
            &&& rule.role is Some && !rule.role_exclude ==> pattern::regex_compiles(
                rule.role->0@,
                usize::BITS,
            ) && pattern::regex_is_match(rule.role->0@, w.role)
            &&& rule.subrole is Some && !rule.subrole_exclude ==> pattern::regex_compiles(
                rule.subrole->0@,
                usize::BITS,
            ) && pattern::regex_is_match(rule.subrole->0@, w.subrole)
            &&& rule.app is Some && rule.app_exclude ==> !(pattern::regex_compiles(
                rule.app->0@,
                usize::BITS,
            ) && pattern::regex_is_match(rule.app->0@, w.app))
            &&& rule.title is Some && rule.title_exclude ==> !(pattern::regex_compiles(
                rule.title->0@,
                usize::BITS,
            ) && pattern::regex_is_match(rule.title->0@, w.title))
            &&& rule.role is Some && rule.role_exclude ==> !(pattern::regex_compiles(
                rule.role->0@,
                usize::BITS,
            ) && pattern::regex_is_match(rule.role->0@, w.role))
            &&& rule.subrole is Some && rule.subrole_exclude ==> !(pattern::regex_compiles(
                rule.subrole->0@,
                usize::BITS,
            ) && pattern::regex_is_match(rule.subrole->0@, w.subrole))
        },
        !rule.passes(w) ==> {
            ||| rule.app is Some && (pattern::regex_compiles(rule.app->0@, usize::BITS)
                && pattern::regex_is_match(rule.app->0@, w.app)) == rule.app_exclude
            ||| rule.title is Some && (pattern::regex_compiles(rule.title->0@, usize::BITS)
                && pattern::regex_is_match(rule.title->0@, w.title)) == rule.title_exclude
            ||| rule.role is Some && (pattern::regex_compiles(rule.role->0@, usize::BITS)
                && pattern::regex_is_match(rule.role->0@, w.role)) == rule.role_exclude
            ||| rule.subrole is Some && (pattern::regex_compiles(rule.subrole->0@, usize::BITS)
                && pattern::regex_is_match(rule.subrole->0@, w.subrole)) == rule.subrole_exclude
        },
{
}

/// Turning the one filter of a rule round turns round which windows it matches.
pub proof fn law_exclusion_is_the_complement(rule: Rule, turned: Rule, w: Traits)
    requires
        ({
            ||| rule.app is Some && rule.title is None && rule.role is None && rule.subrole is None
                && turned == (Rule { app_exclude: !rule.app_exclude, ..rule })
            ||| rule.app is None && rule.title is Some && rule.role is None && rule.subrole is None
                && turned == (Rule { title_exclude: !rule.title_exclude, ..rule })
            ||| rule.app is None && rule.title is None && rule.role is Some && rule.subrole is None
                && turned == (Rule { role_exclude: !rule.role_exclude, ..rule })
            ||| rule.app is None && rule.title is None && rule.role is None && rule.subrole is Some
                && turned == (Rule { subrole_exclude: !rule.subrole_exclude, ..rule })
        }),
    ensures
        turned.passes(w) == !rule.passes(w),
{
}

/// A rule takes part if it matches, and, being one-shot, only where one-shot rules
/// are asked for.
pub proof fn law_who_takes_part(rule: Rule, w: Traits, include_one_shot: bool)
    ensures
        takes_part(rule, w, include_one_shot) ==> rule.passes(w),
        takes_part(rule, w, include_one_shot) && rule.one_shot ==> include_one_shot,
        rule.passes(w) && !rule.one_shot ==> takes_part(rule, w, include_one_shot),
        rule.passes(w) && include_one_shot ==> takes_part(rule, w, include_one_shot),
{
}

/// A rule is refused exactly if one of its patterns does not compile, and the
/// complaint names that pattern and its key, the first in the order application,
/// title, role, subrole.
pub proof fn law_refused_rule(rule: Rule)
    ensures
        rule.compiles() == ((rule.app is Some ==> pattern::regex_compiles(
            rule.app->0@,
            usize::BITS,
        )) && (rule.title is Some ==> pattern::regex_compiles(rule.title->0@, usize::BITS)) && (
        rule.role is Some ==> pattern::regex_compiles(rule.role->0@, usize::BITS)) && (
        rule.subrole is Some ==> pattern::regex_compiles(rule.subrole->0@, usize::BITS))),
        ({
            let app_ok = rule.app is Some ==> pattern::regex_compiles(rule.app->0@, usize::BITS);
            let title_ok = rule.title is Some ==> pattern::regex_compiles(
                rule.title->0@,
                usize::BITS,
            );
            let role_ok = rule.role is Some ==> pattern::regex_compiles(
                rule.role->0@,
                usize::BITS,
            );
            let subrole_ok = rule.subrole is Some ==> pattern::regex_compiles(
                rule.subrole->0@,
                usize::BITS,
            );
            &&& !app_ok ==> rule.complaint() == "invalid regex pattern '"@ + rule.app->0@
                + "' for key '"@ + "app"@ + "'\n"@
            &&& app_ok && !title_ok ==> rule.complaint() == "invalid regex pattern '"@
                + rule.title->0@ + "' for key '"@ + "title"@ + "'\n"@
            &&& app_ok && title_ok && !role_ok ==> rule.complaint() == "invalid regex pattern '"@
                + rule.role->0@ + "' for key '"@ + "role"@ + "'\n"@
            &&& app_ok && title_ok && role_ok && !subrole_ok ==> rule.complaint()
                == "invalid regex pattern '"@ + rule.subrole->0@ + "' for key '"@ + "subrole"@
                + "'\n"@
        }),
{
}

/// Of the rules that take part, the last one that sets an effect decides it.
pub proof fn law_last_rule_decides(rules: Seq<Rule>, w: Traits, include_one_shot: bool, i: int)
    requires
        0 <= i < rules.len(),
        takes_part(rules[i], w, include_one_shot),
    ensures
        ({
            let r = combined(rules, w, include_one_shot);
            let e = rules[i].effects;
            let later = |j: int| i < j < rules.len() && takes_part(rules[j], w, include_one_shot);
            &&& e.manage is Some && (forall|j: int|
                #![trigger rules[j]]
                later(j) ==> rules[j].effects.manage is None) ==> r.manage == e.manage
            &&& e.sticky is Some && (forall|j: int|
                #![trigger rules[j]]
                later(j) ==> rules[j].effects.sticky is None) ==> r.sticky == e.sticky
            &&& e.mff is Some && (forall|j: int|
                #![trigger rules[j]]
                later(j) ==> rules[j].effects.mff is None) ==> r.mff == e.mff
            &&& e.fullscreen is Some && (forall|j: int|
                #![trigger rules[j]]
                later(j) ==> rules[j].effects.fullscreen is None) ==> r.fullscreen == e.fullscreen
            &&& e.opacity is Some && (forall|j: int|
                #![trigger rules[j]]
                later(j) ==> rules[j].effects.opacity is None) ==> r.opacity == e.opacity
            &&& e.layer is Some && (forall|j: int|
                #![trigger rules[j]]
                later(j) ==> rules[j].effects.layer is None) ==> r.layer == e.layer
            &&& e.grid is Some && (forall|j: int|
                #![trigger rules[j]]
                later(j) ==> rules[j].effects.grid is None) ==> r.grid == e.grid
            &&& e.scratchpad is Some && (forall|j: int|
                #![trigger rules[j]]
                later(j) ==> rules[j].effects.scratchpad is None) ==> r.scratchpad == e.scratchpad
            &&& e.display is Some && (forall|j: int|
                #![trigger rules[j]]
                later(j) ==> rules[j].effects.display is None) ==> r.display == e.display
            &&& e.space is Some && (forall|j: int|
                #![trigger rules[j]]
                later(j) ==> rules[j].effects.space is None) ==> r.space == e.space
            &&& (e.display is Some || e.space is Some) && (forall|j: int|
                #![trigger rules[j]]
                later(j) ==> rules[j].effects.display is None && rules[j].effects.space is None)
                ==> r.follow_space == e.follow_space
        }),
    decreases rules.len(),
{
    let less = rules.drop_last();
    if i < less.len() {
        law_last_rule_decides(less, w, include_one_shot, i);
        assert(rules.last() == rules[rules.len() - 1]);
        assert forall|j: int| 0 <= j < less.len() implies #[trigger] less[j] == rules[j] by {}
    }
}

/// An effect that no rule that takes part sets stays unset.
pub proof fn law_unset_effects_stay_unset(rules: Seq<Rule>, w: Traits, include_one_shot: bool)
    ensures
        ({
            let r = combined(rules, w, include_one_shot);
            let part = |j: int| 0 <= j < rules.len() && takes_part(rules[j], w, include_one_shot);
            &&& (forall|j: int|
                #![trigger rules[j]]
                part(j) ==> rules[j].effects.manage is None) ==> r.manage is None
            &&& (forall|j: int|
                #![trigger rules[j]]
                part(j) ==> rules[j].effects.sticky is None) ==> r.sticky is None
            &&& (forall|j: int|
                #![trigger rules[j]]
                part(j) ==> rules[j].effects.mff is None) ==> r.mff is None
            &&& (forall|j: int|
                #![trigger rules[j]]
                part(j) ==> rules[j].effects.fullscreen is None) ==> r.fullscreen is None
            &&& (forall|j: int|
                #![trigger rules[j]]
                part(j) ==> rules[j].effects.opacity is None) ==> r.opacity is None
            &&& (forall|j: int|
                #![trigger rules[j]]
                part(j) ==> rules[j].effects.layer is None) ==> r.layer is None
            &&& (forall|j: int|
                #![trigger rules[j]]
                part(j) ==> rules[j].effects.grid is None) ==> r.grid is None
            &&& (forall|j: int|
                #![trigger rules[j]]
                part(j) ==> rules[j].effects.scratchpad is None) ==> r.scratchpad is None
            &&& (forall|j: int|
                #![trigger rules[j]]
                part(j) ==> rules[j].effects.display is None) ==> r.display is None
            &&& (forall|j: int|
                #![trigger rules[j]]
                part(j) ==> rules[j].effects.space is None) ==> r.space is None
            &&& (forall|j: int|
                #![trigger rules[j]]
                part(j) ==> rules[j].effects.display is None && rules[j].effects.space is None)
                ==> !r.follow_space
        }),
    decreases rules.len(),
{
    if rules.len() > 0 {
        let less = rules.drop_last();
        law_unset_effects_stay_unset(less, w, include_one_shot);
        assert(rules.last() == rules[rules.len() - 1]);
        assert forall|j: int| 0 <= j < less.len() implies #[trigger] less[j] == rules[j] by {}
    }
}

/// What an earlier rule set and a later one does not set is kept.
pub proof fn law_unset_effects_keep_the_earlier(earlier: RuleEffects, later: RuleEffects)
    ensures
        later.manage is None ==> earlier.overlaid(later).manage == earlier.manage,
        later.sticky is None ==> earlier.overlaid(later).sticky == earlier.sticky,
        later.mff is None ==> earlier.overlaid(later).mff == earlier.mff,
        later.mff is Some ==> earlier.overlaid(later).mff == later.mff,
        later.fullscreen is None ==> earlier.overlaid(later).fullscreen == earlier.fullscreen,
        later.fullscreen is Some ==> earlier.overlaid(later).fullscreen == later.fullscreen,
        later.opacity is None ==> earlier.overlaid(later).opacity == earlier.opacity,
        later.layer is None ==> earlier.overlaid(later).layer == earlier.layer,
        later.grid is None ==> earlier.overlaid(later).grid == earlier.grid,
        later.scratchpad is None ==> earlier.overlaid(later).scratchpad == earlier.scratchpad,
        later.display is None ==> earlier.overlaid(later).display == earlier.display,
        later.space is None ==> earlier.overlaid(later).space == earlier.space,
        later.display is None && later.space is None ==> earlier.overlaid(later).follow_space
            == earlier.follow_space,
        later.display is Some ==> earlier.overlaid(later).follow_space == later.follow_space,
        later.space is Some ==> earlier.overlaid(later).follow_space == later.follow_space,
{
}

/// A rule that takes no part, wherever it stands, changes nothing of what the rules
/// do together.
pub proof fn law_absent_rule_is_no_matter(
    rules: Seq<Rule>,
    w: Traits,
    include_one_shot: bool,
    i: int,
)
    requires
        0 <= i < rules.len(),
        !takes_part(rules[i], w, include_one_shot),
    ensures
        combined(rules.remove(i), w, include_one_shot) == combined(rules, w, include_one_shot),
        any_takes_part(rules.remove(i), w, include_one_shot) == any_takes_part(
            rules,
            w,
            include_one_shot,
        ),
    decreases rules.len(),
{
    let without = rules.remove(i);
    if i == rules.len() - 1 {
        assert(without =~= rules.drop_last());
    } else {
        let less = rules.drop_last();
        law_absent_rule_is_no_matter(less, w, include_one_shot, i);
        assert(without.drop_last() =~= less.remove(i));
        assert(without.last() == rules.last());
    }
    if any_takes_part(rules, w, include_one_shot) {
        let j = choose|j: int|
            0 <= j < rules.len() && takes_part(#[trigger] rules[j], w, include_one_shot);
        let at = if j < i {
            j
        } else {
            j - 1
        };
        assert(without[at] == rules[j]);
    }
    if any_takes_part(without, w, include_one_shot) {
        let j = choose|j: int|
            0 <= j < without.len() && takes_part(#[trigger] without[j], w, include_one_shot);
        let at = if j < i {
            j
        } else {
            j + 1
        };
        assert(rules[at] == without[j]);
    }
}

/// A discovery takes away the one-shot rules that matched, and no others, and keeps
/// the rest in their order.
pub proof fn law_discovery_keeps_the_other_rules(rules: Seq<Rule>, w: Traits, rule: Rule)
    ensures
        unspent(Seq::empty(), w) == Seq::<Rule>::empty(),
        rule.one_shot && rule.passes(w) ==> unspent(rules.push(rule), w) == unspent(rules, w),
        !rule.one_shot ==> unspent(rules.push(rule), w) == unspent(rules, w).push(rule),
        !rule.passes(w) ==> unspent(rules.push(rule), w) == unspent(rules, w).push(rule),
{
    reveal(Seq::filter);
    assert(rules.push(rule).drop_last() =~= rules);
}

/// The rules found for a label: the one found carries it, and none before it does;
/// where none is found, none carries it.
pub proof fn law_first_labelled_rule(rules: Seq<Rule>, label: Seq<char>)
    ensures
        match first_labelled(rules, label) {
            Some(i) => {
                &&& 0 <= i < rules.len()
                &&& rules[i].label is Some
                &&& rules[i].label->0@ == label
                &&& forall|j: int|
                    0 <= j < i ==> (#[trigger] rules[j]).label is None || rules[j].label->0@
                        != label
            },
            None => forall|j: int|
                0 <= j < rules.len() ==> (#[trigger] rules[j]).label is None || rules[j].label->0@
                    != label,
        },
    decreases rules.len(),
{
    if rules.len() > 0 {
        let less = rules.drop_last();
        law_first_labelled_rule(less, label);
        assert forall|j: int| 0 <= j < less.len() implies #[trigger] rules[j] == less[j] by {}
        assert(rules.last() == rules[rules.len() - 1]);
    }
}

/// A new rule comes last. Without a label it takes no other's place; with one, only
/// the rules that carry it leave, and the others keep their order.
pub proof fn law_new_rule_comes_last(rules: Seq<Rule>, old_rule: Rule, rule: Rule)
    ensures
        with_rule(rules, rule).len() > 0,
        with_rule(rules, rule).last() == rule,
        rule.label is None ==> with_rule(rules, rule) == rules.push(rule),
        with_rule(Seq::empty(), rule) == seq![rule],
        rule.label is Some && old_rule.label is Some && old_rule.label->0@ == rule.label->0@
            ==> with_rule(rules.push(old_rule), rule) == with_rule(rules, rule),
        rule.label is Some && (old_rule.label is None || old_rule.label->0@ != rule.label->0@)
            ==> with_rule(rules.push(old_rule), rule) == with_rule(rules, rule).drop_last().push(
            old_rule,
        ).push(rule),
{
    reveal(Seq::filter);
    assert(rules.push(old_rule).drop_last() =~= rules);
    assert(with_rule(Seq::empty(), rule) =~= seq![rule]);
    if rule.label is Some {
        let kept = rules.filter(|other: Rule| !is_labelled(other, rule.label->0@));
        assert(with_rule(rules, rule).drop_last() =~= kept);
    }
}

proof fn lemma_next_bit(n: nat, k: nat, on: bool, rest: nat)
    requires
        k > 0,
        n / k == flag(on, 1) + 2 * rest,
    ensures
        n / (k * 2) == rest,
        (n / k) % 2 == 1 <==> on,
{
    reveal(flag);
    vstd::arithmetic::div_mod::lemma_div_denominator(n as int, k as int, 2);
}

proof fn lemma_flag_scaled(on: bool, weight: nat)
    ensures
        flag(on, weight) == weight * flag(on, 1),
{
    reveal(flag);
    assert(weight * 1 == weight) by (nonlinear_arith);
    assert(weight * 0 == 0) by (nonlinear_arith);
}

proof fn lemma_sum_nested(b: Seq<nat>, f: Seq<nat>)
    requires
        b.len() == 12,
        f.len() == 12,
        f[0] == 0x1 * b[0],
        f[1] == 0x2 * b[1],
        f[2] == 0x4 * b[2],
        f[3] == 0x8 * b[3],
        f[4] == 0x10 * b[4],
        f[5] == 0x20 * b[5],
        f[6] == 0x40 * b[6],
        f[7] == 0x80 * b[7],
        f[8] == 0x100 * b[8],
        f[9] == 0x1_0000 * b[9],
        f[10] == 0x2_0000 * b[10],
        f[11] == 0x4_0000 * b[11],
    ensures
        f[0] + f[1] + f[2] + f[3] + f[4] + f[5] + f[6] + f[7] + f[8] + f[9] + f[10] + f[11] == b[0]
            + 2 * (b[1] + 2 * (b[2] + 2 * (b[3] + 2 * (b[4] + 2 * (b[5] + 2 * (b[6] + 2 * (b[7] + 2
            * (b[8] + 2 * (0x80 * (b[9] + 2 * (b[10] + 2 * b[11]))))))))))),
{
}

#[verifier::rlimit(100)]
#[verifier::spinoff_prover]
proof fn lemma_flags_nested(rule: Rule) -> (n: (nat, nat))
    ensures
        n.0 == flag(rule.effects.follow_space, 1) + 2 * (flag(rule.effects.opacity is Some, 1) + 2
            * flag(rule.effects.layer is Some, 1)),
        n.1 == flag(rule.app_exclude, 1) + 2 * (flag(rule.title_exclude, 1) + 2 * (flag(
            rule.role_exclude,
            1,
        ) + 2 * (flag(rule.subrole_exclude, 1) + 2 * (flag(rule.one_shot, 1) + 2 * (0x80 * n.0))))),
        rule_flags(rule) == flag(rule.app is Some, 1) + 2 * (flag(rule.title is Some, 1) + 2 * (
        flag(rule.role is Some, 1) + 2 * (flag(rule.subrole is Some, 1) + 2 * n.1))),
{
    let e = rule.effects;
    lemma_flag_scaled(rule.app is Some, 0x1);
    lemma_flag_scaled(rule.title is Some, 0x2);
    lemma_flag_scaled(rule.role is Some, 0x4);
    lemma_flag_scaled(rule.subrole is Some, 0x8);
    lemma_flag_scaled(rule.app_exclude, 0x10);
    lemma_flag_scaled(rule.title_exclude, 0x20);
    lemma_flag_scaled(rule.role_exclude, 0x40);
    lemma_flag_scaled(rule.subrole_exclude, 0x80);
    lemma_flag_scaled(rule.one_shot, 0x100);
    lemma_flag_scaled(e.follow_space, 0x1_0000);
    lemma_flag_scaled(e.opacity is Some, 0x2_0000);
    lemma_flag_scaled(e.layer is Some, 0x4_0000);
    let b = seq![
        flag(rule.app is Some, 1),
        flag(rule.title is Some, 1),
        flag(rule.role is Some, 1),
        flag(rule.subrole is Some, 1),
        flag(rule.app_exclude, 1),
        flag(rule.title_exclude, 1),
        flag(rule.role_exclude, 1),
        flag(rule.subrole_exclude, 1),
        flag(rule.one_shot, 1),
        flag(e.follow_space, 1),
        flag(e.opacity is Some, 1),
        flag(e.layer is Some, 1),
    ];
    let f = seq![
        flag(rule.app is Some, 0x1),
        flag(rule.title is Some, 0x2),
        flag(rule.role is Some, 0x4),
        flag(rule.subrole is Some, 0x8),
        flag(rule.app_exclude, 0x10),
        flag(rule.title_exclude, 0x20),
        flag(rule.role_exclude, 0x40),
        flag(rule.subrole_exclude, 0x80),
        flag(rule.one_shot, 0x100),
        flag(e.follow_space, 0x1_0000),
        flag(e.opacity is Some, 0x2_0000),
        flag(e.layer is Some, 0x4_0000),
    ];
    assert(rule_flags(rule) == f[0] + f[1] + f[2] + f[3] + f[4] + f[5] + f[6] + f[7] + f[8] + f[9]
        + f[10] + f[11]);
    lemma_sum_nested(b, f);
    let high = b[9] + 2 * (b[10] + 2 * b[11]);
    (high, b[4] + 2 * (b[5] + 2 * (b[6] + 2 * (b[7] + 2 * (b[8] + 2 * (0x80 * high))))))
}

/// Each flag of a rule stands in a bit of its own, and no other bit is set.
pub proof fn law_rule_flags_have_their_bits(rule: Rule)
    ensures
        (rule_flags(rule) / 0x1) % 2 == 1 <==> rule.app is Some,
        (rule_flags(rule) / 0x2) % 2 == 1 <==> rule.title is Some,
        (rule_flags(rule) / 0x4) % 2 == 1 <==> rule.role is Some,
        (rule_flags(rule) / 0x8) % 2 == 1 <==> rule.subrole is Some,
        (rule_flags(rule) / 0x10) % 2 == 1 <==> rule.app_exclude,
        (rule_flags(rule) / 0x20) % 2 == 1 <==> rule.title_exclude,
        (rule_flags(rule) / 0x40) % 2 == 1 <==> rule.role_exclude,
        (rule_flags(rule) / 0x80) % 2 == 1 <==> rule.subrole_exclude,
        (rule_flags(rule) / 0x100) % 2 == 1 <==> rule.one_shot,
        (rule_flags(rule) / 0x200) % 0x80 == 0,
        (rule_flags(rule) / 0x1_0000) % 2 == 1 <==> rule.effects.follow_space,
        (rule_flags(rule) / 0x2_0000) % 2 == 1 <==> rule.effects.opacity is Some,
        (rule_flags(rule) / 0x4_0000) % 2 == 1 <==> rule.effects.layer is Some,
        rule_flags(rule) / 0x8_0000 == 0,
{
    let (high, low) = lemma_flags_nested(rule);
    lemma_low_flags(
        rule_flags(rule),
        rule.app is Some,
        rule.title is Some,
        rule.role is Some,
        rule.subrole is Some,
        low,
    );
    lemma_middle_flags(rule_flags(rule), rule, low, high);
    lemma_high_flags(rule_flags(rule), rule.effects, high);
}

proof fn lemma_low_flags(n: nat, a: bool, b: bool, c: bool, d: bool, rest: nat)
    requires
        n == flag(a, 1) + 2 * (flag(b, 1) + 2 * (flag(c, 1) + 2 * (flag(d, 1) + 2 * rest))),
    ensures
        (n / 0x1) % 2 == 1 <==> a,
        (n / 0x2) % 2 == 1 <==> b,
        (n / 0x4) % 2 == 1 <==> c,
        (n / 0x8) % 2 == 1 <==> d,
        n / 0x10 == rest,
{
    let n3 = flag(d, 1) + 2 * rest;
    let n2 = flag(c, 1) + 2 * n3;
    let n1 = flag(b, 1) + 2 * n2;
    lemma_next_bit(n, 0x1, a, n1);
    lemma_next_bit(n, 0x2, b, n2);
    lemma_next_bit(n, 0x4, c, n3);
    lemma_next_bit(n, 0x8, d, rest);
}

proof fn lemma_middle_flags(n: nat, rule: Rule, low: nat, high: nat)
    requires
        n / 0x10 == low,
        low == flag(rule.app_exclude, 1) + 2 * (flag(rule.title_exclude, 1) + 2 * (flag(
            rule.role_exclude,
            1,
        ) + 2 * (flag(rule.subrole_exclude, 1) + 2 * (flag(rule.one_shot, 1) + 2 * (0x80
            * high))))),
    ensures
        (n / 0x10) % 2 == 1 <==> rule.app_exclude,
        (n / 0x20) % 2 == 1 <==> rule.title_exclude,
        (n / 0x40) % 2 == 1 <==> rule.role_exclude,
        (n / 0x80) % 2 == 1 <==> rule.subrole_exclude,
        (n / 0x100) % 2 == 1 <==> rule.one_shot,
        (n / 0x200) % 0x80 == 0,
        n / 0x1_0000 == high,
{
    let n9 = flag(rule.one_shot, 1) + 2 * (0x80 * high);
    let n8 = flag(rule.subrole_exclude, 1) + 2 * n9;
    let n7 = flag(rule.role_exclude, 1) + 2 * n8;
    let n6 = flag(rule.title_exclude, 1) + 2 * n7;
    lemma_next_bit(n, 0x10, rule.app_exclude, n6);
    lemma_next_bit(n, 0x20, rule.title_exclude, n7);
    lemma_next_bit(n, 0x40, rule.role_exclude, n8);
    lemma_next_bit(n, 0x80, rule.subrole_exclude, n9);
    lemma_next_bit(n, 0x100, rule.one_shot, 0x80 * high);
    vstd::arithmetic::div_mod::lemma_div_denominator(n as int, 0x200, 0x80);
}

proof fn lemma_high_flags(n: nat, e: RuleEffects, high: nat)
    requires
        n / 0x1_0000 == high,
        high == flag(e.follow_space, 1) + 2 * (flag(e.opacity is Some, 1) + 2 * flag(
            e.layer is Some,
            1,
        )),
    ensures
        (n / 0x1_0000) % 2 == 1 <==> e.follow_space,
        (n / 0x2_0000) % 2 == 1 <==> e.opacity is Some,
        (n / 0x4_0000) % 2 == 1 <==> e.layer is Some,
        n / 0x8_0000 == 0,
{
    let n12 = flag(e.layer is Some, 1);
    let n11 = flag(e.opacity is Some, 1) + 2 * n12;
    lemma_next_bit(n, 0x1_0000, e.follow_space, n11);
    lemma_next_bit(n, 0x2_0000, e.opacity is Some, n12);
    lemma_next_bit(n, 0x4_0000, e.layer is Some, 0);
}

#[verifier::spinoff_prover]
proof fn lemma_rule_literals()
    ensures
        "{\n\t\"index\":"@
            == "{\n"@ + ("\t\""@ + "index"@ + "\":"@ + ""@),
        ",\n\t\"label\":\""@
            == ",\n"@ + ("\t\""@ + "label"@ + "\":"@ + "\""@),
        "\",\n\t\"app\":\""@
            == "\",\n"@ + ("\t\""@ + "app"@ + "\":"@ + "\""@),
        "\",\n\t\"title\":\""@
            == "\",\n"@ + ("\t\""@ + "title"@ + "\":"@ + "\""@),
        "\",\n\t\"role\":\""@
            == "\",\n"@ + ("\t\""@ + "role"@ + "\":"@ + "\""@),
        "\",\n\t\"subrole\":\""@
            == "\",\n"@ + ("\t\""@ + "subrole"@ + "\":"@ + "\""@),
        "\",\n\t\"display\":0,\n\t\"space\":0,\n\t\"follow_space\":"@
            == "\",\n\t\"display\":0,\n\t\"space\":0,\n"@ + ("\t\""@ + "follow_space"@ + "\":"@ + ""@),
        ",\n\t\"opacity\":"@
            == ",\n"@ + ("\t\""@ + "opacity"@ + "\":"@ + ""@),
        ",\n\t\"manage\":"@
            == ",\n"@ + ("\t\""@ + "manage"@ + "\":"@ + ""@),
        ",\n\t\"sticky\":"@
            == ",\n"@ + ("\t\""@ + "sticky"@ + "\":"@ + ""@),
        ",\n\t\"mouse_follows_focus\":"@
            == ",\n"@ + ("\t\""@ + "mouse_follows_focus"@ + "\":"@ + ""@),
        ",\n\t\"sub-layer\":\""@
            == ",\n"@ + ("\t\""@ + "sub-layer"@ + "\":"@ + "\""@),
        "\",\n\t\"native-fullscreen\":"@
            == "\",\n"@ + ("\t\""@ + "native-fullscreen"@ + "\":"@ + ""@),
        ",\n\t\"grid\":\""@
            == ",\n"@ + ("\t\""@ + "grid"@ + "\":"@ + "\""@),
        "\",\n\t\"scratchpad\":\""@
            == "\",\n"@ + ("\t\""@ + "scratchpad"@ + "\":"@ + "\""@),
        "\",\n\t\"one-shot\":"@
            == "\",\n"@ + ("\t\""@ + "one-shot"@ + "\":"@ + ""@),
        ",\n\t\"flags\":\"0x"@
            == ",\n"@ + ("\t\""@ + "flags"@ + "\":"@ + "\"0x"@),
        ",\n\t\"label\":\""@ == ""@ + ",\n\t\"label\":\""@,
        ",\n\t\"label\":\""@.len() > 0,
        ",\n\t\"label\":\""@[0] == ',',
        "\",\n\t\"app\":\""@ == "\""@ + ",\n\t\"app\":\""@,
        ",\n\t\"app\":\""@.len() > 0,
        ",\n\t\"app\":\""@[0] == ',',
        "\",\n\t\"title\":\""@ == "\""@ + ",\n\t\"title\":\""@,
        ",\n\t\"title\":\""@.len() > 0,
        ",\n\t\"title\":\""@[0] == ',',
        "\",\n\t\"role\":\""@ == "\""@ + ",\n\t\"role\":\""@,
        ",\n\t\"role\":\""@.len() > 0,
        ",\n\t\"role\":\""@[0] == ',',
        "\",\n\t\"subrole\":\""@ == "\""@ + ",\n\t\"subrole\":\""@,
        ",\n\t\"subrole\":\""@.len() > 0,
        ",\n\t\"subrole\":\""@[0] == ',',
        "\",\n\t\"display\":0,\n\t\"space\":0,\n\t\"follow_space\":"@ == "\""@ + ",\n\t\"display\":0,\n\t\"space\":0,\n\t\"follow_space\":"@,
        ",\n\t\"display\":0,\n\t\"space\":0,\n\t\"follow_space\":"@.len() > 0,
        ",\n\t\"display\":0,\n\t\"space\":0,\n\t\"follow_space\":"@[0] == ',',
        ",\n\t\"opacity\":"@ == ""@ + ",\n\t\"opacity\":"@,
        ",\n\t\"opacity\":"@.len() > 0,
        ",\n\t\"opacity\":"@[0] == ',',
        ",\n\t\"manage\":"@ == ""@ + ",\n\t\"manage\":"@,
        ",\n\t\"manage\":"@.len() > 0,
        ",\n\t\"manage\":"@[0] == ',',
        ",\n\t\"sticky\":"@ == ""@ + ",\n\t\"sticky\":"@,
        ",\n\t\"sticky\":"@.len() > 0,
        ",\n\t\"sticky\":"@[0] == ',',
        ",\n\t\"mouse_follows_focus\":"@ == ""@ + ",\n\t\"mouse_follows_focus\":"@,
        ",\n\t\"mouse_follows_focus\":"@.len() > 0,
        ",\n\t\"mouse_follows_focus\":"@[0] == ',',
        ",\n\t\"sub-layer\":\""@ == ""@ + ",\n\t\"sub-layer\":\""@,
        ",\n\t\"sub-layer\":\""@.len() > 0,
        ",\n\t\"sub-layer\":\""@[0] == ',',
        "\",\n\t\"native-fullscreen\":"@ == "\""@ + ",\n\t\"native-fullscreen\":"@,
        ",\n\t\"native-fullscreen\":"@.len() > 0,
        ",\n\t\"native-fullscreen\":"@[0] == ',',
        ",\n\t\"grid\":\""@ == ""@ + ",\n\t\"grid\":\""@,
        ",\n\t\"grid\":\""@.len() > 0,
        ",\n\t\"grid\":\""@[0] == ',',
        "\",\n\t\"scratchpad\":\""@ == "\""@ + ",\n\t\"scratchpad\":\""@,
        ",\n\t\"scratchpad\":\""@.len() > 0,
        ",\n\t\"scratchpad\":\""@[0] == ',',
        "\",\n\t\"one-shot\":"@ == "\""@ + ",\n\t\"one-shot\":"@,
        ",\n\t\"one-shot\":"@.len() > 0,
        ",\n\t\"one-shot\":"@[0] == ',',
        ",\n\t\"flags\":\"0x"@ == ""@ + ",\n\t\"flags\":\"0x"@,
        ",\n\t\"flags\":\"0x"@.len() > 0,
        ",\n\t\"flags\":\"0x"@[0] == ',',
        "\"\n}"@ == "\""@ + "\n}"@,
        "\n}"@.len() > 0,
        "\n}"@[0] == '\n',
        ""@ == Seq::<char>::empty(),
{
    reveal_strlit("{\n\t\"index\":");
    reveal_strlit("{\n");
    reveal_strlit("index");
    reveal_strlit("");
    reveal_strlit(",\n\t\"label\":\"");
    reveal_strlit(",\n");
    reveal_strlit("label");
    reveal_strlit("\"");
    reveal_strlit("\",\n\t\"app\":\"");
    reveal_strlit("\",\n");
    reveal_strlit("app");
    reveal_strlit("\",\n\t\"title\":\"");
    reveal_strlit("title");
    reveal_strlit("\",\n\t\"role\":\"");
    reveal_strlit("role");
    reveal_strlit("\",\n\t\"subrole\":\"");
    reveal_strlit("subrole");
    reveal_strlit("\",\n\t\"display\":0,\n\t\"space\":0,\n\t\"follow_space\":");
    reveal_strlit("\",\n\t\"display\":0,\n\t\"space\":0,\n");
    reveal_strlit("follow_space");
    reveal_strlit(",\n\t\"opacity\":");
    reveal_strlit("opacity");
    reveal_strlit(",\n\t\"manage\":");
    reveal_strlit("manage");
    reveal_strlit(",\n\t\"sticky\":");
    reveal_strlit("sticky");
    reveal_strlit(",\n\t\"mouse_follows_focus\":");
    reveal_strlit("mouse_follows_focus");
    reveal_strlit(",\n\t\"sub-layer\":\"");
    reveal_strlit("sub-layer");
    reveal_strlit("\",\n\t\"native-fullscreen\":");
    reveal_strlit("native-fullscreen");
    reveal_strlit(",\n\t\"grid\":\"");
    reveal_strlit("grid");
    reveal_strlit("\",\n\t\"scratchpad\":\"");
    reveal_strlit("scratchpad");
    reveal_strlit("\",\n\t\"one-shot\":");
    reveal_strlit("one-shot");
    reveal_strlit(",\n\t\"flags\":\"0x");
    reveal_strlit("flags");
    reveal_strlit("\"0x");
    reveal_strlit(",\n\t\"app\":\"");
    reveal_strlit(",\n\t\"title\":\"");
    reveal_strlit(",\n\t\"role\":\"");
    reveal_strlit(",\n\t\"subrole\":\"");
    reveal_strlit(",\n\t\"display\":0,\n\t\"space\":0,\n\t\"follow_space\":");
    reveal_strlit(",\n\t\"native-fullscreen\":");
    reveal_strlit(",\n\t\"scratchpad\":\"");
    reveal_strlit(",\n\t\"one-shot\":");
    reveal_strlit("\"\n}");
    reveal_strlit("\n}");
    reveal_strlit("\t\"");
    reveal_strlit("\":");
    assert("{\n\t\"index\":"@
        =~= "{\n"@ + ("\t\""@ + "index"@ + "\":"@ + ""@));
    assert(",\n\t\"label\":\""@
        =~= ",\n"@ + ("\t\""@ + "label"@ + "\":"@ + "\""@));
    assert("\",\n\t\"app\":\""@
        =~= "\",\n"@ + ("\t\""@ + "app"@ + "\":"@ + "\""@));
    assert("\",\n\t\"title\":\""@
        =~= "\",\n"@ + ("\t\""@ + "title"@ + "\":"@ + "\""@));
    assert("\",\n\t\"role\":\""@
        =~= "\",\n"@ + ("\t\""@ + "role"@ + "\":"@ + "\""@));
    assert("\",\n\t\"subrole\":\""@
        =~= "\",\n"@ + ("\t\""@ + "subrole"@ + "\":"@ + "\""@));
    assert("\",\n\t\"display\":0,\n\t\"space\":0,\n\t\"follow_space\":"@
        =~= "\",\n\t\"display\":0,\n\t\"space\":0,\n"@ + ("\t\""@ + "follow_space"@ + "\":"@ + ""@));
    assert(",\n\t\"opacity\":"@
        =~= ",\n"@ + ("\t\""@ + "opacity"@ + "\":"@ + ""@));
    assert(",\n\t\"manage\":"@
        =~= ",\n"@ + ("\t\""@ + "manage"@ + "\":"@ + ""@));
    assert(",\n\t\"sticky\":"@
        =~= ",\n"@ + ("\t\""@ + "sticky"@ + "\":"@ + ""@));
    assert(",\n\t\"mouse_follows_focus\":"@
        =~= ",\n"@ + ("\t\""@ + "mouse_follows_focus"@ + "\":"@ + ""@));
    assert(",\n\t\"sub-layer\":\""@
        =~= ",\n"@ + ("\t\""@ + "sub-layer"@ + "\":"@ + "\""@));
    assert("\",\n\t\"native-fullscreen\":"@
        =~= "\",\n"@ + ("\t\""@ + "native-fullscreen"@ + "\":"@ + ""@));
    assert(",\n\t\"grid\":\""@
        =~= ",\n"@ + ("\t\""@ + "grid"@ + "\":"@ + "\""@));
    assert("\",\n\t\"scratchpad\":\""@
        =~= "\",\n"@ + ("\t\""@ + "scratchpad"@ + "\":"@ + "\""@));
    assert("\",\n\t\"one-shot\":"@
        =~= "\",\n"@ + ("\t\""@ + "one-shot"@ + "\":"@ + ""@));
    assert(",\n\t\"flags\":\"0x"@
        =~= ",\n"@ + ("\t\""@ + "flags"@ + "\":"@ + "\"0x"@));
    assert(",\n\t\"label\":\""@ =~= ""@ + ",\n\t\"label\":\""@);
    assert("\",\n\t\"app\":\""@ =~= "\""@ + ",\n\t\"app\":\""@);
    assert("\",\n\t\"title\":\""@ =~= "\""@ + ",\n\t\"title\":\""@);
    assert("\",\n\t\"role\":\""@ =~= "\""@ + ",\n\t\"role\":\""@);
    assert("\",\n\t\"subrole\":\""@ =~= "\""@ + ",\n\t\"subrole\":\""@);
    assert("\",\n\t\"display\":0,\n\t\"space\":0,\n\t\"follow_space\":"@ =~= "\""@ + ",\n\t\"display\":0,\n\t\"space\":0,\n\t\"follow_space\":"@);
    assert(",\n\t\"opacity\":"@ =~= ""@ + ",\n\t\"opacity\":"@);
    assert(",\n\t\"manage\":"@ =~= ""@ + ",\n\t\"manage\":"@);
    assert(",\n\t\"sticky\":"@ =~= ""@ + ",\n\t\"sticky\":"@);
    assert(",\n\t\"mouse_follows_focus\":"@ =~= ""@ + ",\n\t\"mouse_follows_focus\":"@);
    assert(",\n\t\"sub-layer\":\""@ =~= ""@ + ",\n\t\"sub-layer\":\""@);
    assert("\",\n\t\"native-fullscreen\":"@ =~= "\""@ + ",\n\t\"native-fullscreen\":"@);
    assert(",\n\t\"grid\":\""@ =~= ""@ + ",\n\t\"grid\":\""@);
    assert("\",\n\t\"scratchpad\":\""@ =~= "\""@ + ",\n\t\"scratchpad\":\""@);
    assert("\",\n\t\"one-shot\":"@ =~= "\""@ + ",\n\t\"one-shot\":"@);
    assert(",\n\t\"flags\":\"0x"@ =~= ""@ + ",\n\t\"flags\":\"0x"@);
    assert("\"\n}"@ =~= "\""@ + "\n}"@);
    assert(""@ =~= Seq::<char>::empty());
}

/// A listed rule tells its place, and each of its filters and effects under its own
/// name.
#[verifier::rlimit(80)]
#[verifier::spinoff_prover]
pub proof fn law_listed_rule_tells_its_parts(rule: Rule, index: nat)
    ensures
        text::tells(rule_text(rule, index), "index"@, text::decimal(index)),
        text::tells(rule_text(rule, index), "label"@, "\""@ + text::json_escaped(text::text_or_empty(rule.label)) + "\""@),
        text::tells(rule_text(rule, index), "app"@, "\""@ + text::json_escaped(text::text_or_empty(rule.app)) + "\""@),
        text::tells(rule_text(rule, index), "title"@, "\""@ + text::json_escaped(text::text_or_empty(rule.title)) + "\""@),
        text::tells(rule_text(rule, index), "role"@, "\""@ + text::json_escaped(text::text_or_empty(rule.role)) + "\""@),
        text::tells(rule_text(rule, index), "subrole"@, "\""@ + text::json_escaped(text::text_or_empty(rule.subrole)) + "\""@),
        text::tells(rule_text(rule, index), "follow_space"@, text::json_bool_text(rule.effects.follow_space)),
        text::tells(rule_text(rule, index), "opacity"@, opacity_text(rule.effects.opacity)),
        text::tells(rule_text(rule, index), "manage"@, text::optional_bool_text(rule.effects.manage)),
        text::tells(rule_text(rule, index), "sticky"@, text::optional_bool_text(rule.effects.sticky)),
        text::tells(rule_text(rule, index), "mouse_follows_focus"@, text::optional_bool_text(rule.effects.mff)),
        text::tells(rule_text(rule, index), "sub-layer"@, "\""@ + layer_or_empty(rule.effects.layer) + "\""@),
        text::tells(rule_text(rule, index), "native-fullscreen"@, text::optional_bool_text(rule.effects.fullscreen)),
        text::tells(rule_text(rule, index), "grid"@, "\""@ + grid_text(rule.effects.grid) + "\""@),
        text::tells(rule_text(rule, index), "scratchpad"@, "\""@ + text::json_escaped(text::text_or_empty(rule.effects.scratchpad)) + "\""@),
        text::tells(rule_text(rule, index), "one-shot"@, text::json_bool_text(rule.one_shot)),
        text::tells(rule_text(rule, index), "flags"@, "\"0x"@ + text::hex_padded(rule_flags(rule), 8) + "\""@),
{
    lemma_rule_literals();
    let f = rule_filters_text(rule, index);
    let s0 = "\",\n\t\"display\":0,\n\t\"space\":0,\n\t\"follow_space\":"@;
    let s1 = text::json_bool_text(rule.effects.follow_space);
    let s2 = ",\n\t\"opacity\":"@;
    let s3 = opacity_text(rule.effects.opacity);
    let s4 = ",\n\t\"manage\":"@;
    let s5 = text::optional_bool_text(rule.effects.manage);
    let s6 = ",\n\t\"sticky\":"@;
    let s7 = text::optional_bool_text(rule.effects.sticky);
    let s8 = ",\n\t\"mouse_follows_focus\":"@;
    let s9 = text::optional_bool_text(rule.effects.mff);
    text::lemma_joined_in_front(f, s0, s1);
    text::lemma_joined_in_front(f, s0 + s1, s2);
    text::lemma_joined_in_front(f, s0 + s1 + s2, s3);
    text::lemma_joined_in_front(f, s0 + s1 + s2 + s3, s4);
    text::lemma_joined_in_front(f, s0 + s1 + s2 + s3 + s4, s5);
    text::lemma_joined_in_front(f, s0 + s1 + s2 + s3 + s4 + s5, s6);
    text::lemma_joined_in_front(f, s0 + s1 + s2 + s3 + s4 + s5 + s6, s7);
    text::lemma_joined_in_front(f, s0 + s1 + s2 + s3 + s4 + s5 + s6 + s7, s8);
    text::lemma_joined_in_front(f, s0 + s1 + s2 + s3 + s4 + s5 + s6 + s7 + s8, s9);
    let r0 = ",\n\t\"sub-layer\":\""@;
    let r1 = layer_or_empty(rule.effects.layer);
    let r2 = "\",\n\t\"native-fullscreen\":"@;
    let r3 = text::optional_bool_text(rule.effects.fullscreen);
    let r4 = ",\n\t\"grid\":\""@;
    let r5 = grid_text(rule.effects.grid);
    let r6 = "\",\n\t\"scratchpad\":\""@;
    let r7 = text::json_escaped(text::text_or_empty(rule.effects.scratchpad));
    let r8 = "\",\n\t\"one-shot\":"@;
    let r9 = text::json_bool_text(rule.one_shot);
    let r10 = ",\n\t\"flags\":\"0x"@;
    let r11 = text::hex_padded(rule_flags(rule), 8);
    let r12 = "\"\n}"@;
    let g = f + rule_switches_text(rule.effects);
    text::lemma_joined_in_front(g, r0, r1);
    text::lemma_joined_in_front(g, r0 + r1, r2);
    text::lemma_joined_in_front(g, r0 + r1 + r2, r3);
    text::lemma_joined_in_front(g, r0 + r1 + r2 + r3, r4);
    text::lemma_joined_in_front(g, r0 + r1 + r2 + r3 + r4, r5);
    text::lemma_joined_in_front(g, r0 + r1 + r2 + r3 + r4 + r5, r6);
    text::lemma_joined_in_front(g, r0 + r1 + r2 + r3 + r4 + r5 + r6, r7);
    text::lemma_joined_in_front(g, r0 + r1 + r2 + r3 + r4 + r5 + r6 + r7, r8);
    text::lemma_joined_in_front(g, r0 + r1 + r2 + r3 + r4 + r5 + r6 + r7 + r8, r9);
    text::lemma_joined_in_front(g, r0 + r1 + r2 + r3 + r4 + r5 + r6 + r7 + r8 + r9, r10);
    text::lemma_joined_in_front(g, r0 + r1 + r2 + r3 + r4 + r5 + r6 + r7 + r8 + r9 + r10, r11);
    text::lemma_joined_in_front(g, r0 + r1 + r2 + r3 + r4 + r5 + r6 + r7 + r8 + r9 + r10 + r11, r12);
    let a0 = "{\n\t\"index\":"@;
    let none = Seq::<(Seq<char>, Seq<char>)>::empty();
    let m0 = none;
    let b0 = "{\n"@;
    let v0 = text::decimal(index);
    text::lemma_tells_one_more(
        a0,
        b0,
        "index"@,
        ""@,
        v0,
        ""@,
        ",\n\t\"label\":\""@,
        m0,
    );
    let m1 = m0.push(("index"@, ""@ + v0 + ""@));
    let a1 = a0 + v0 + ",\n\t\"label\":\""@;
    let b1 = a0 + v0 + ",\n"@;
    text::lemma_joined_in_front(
        a0 + v0,
        ",\n"@,
        "\t\""@ + "label"@ + "\":"@ + "\""@,
    );
    let v1 = text::json_escaped(text::text_or_empty(rule.label));
    text::lemma_tells_one_more(
        a1,
        b1,
        "label"@,
        "\""@,
        v1,
        "\""@,
        ",\n\t\"app\":\""@,
        m1,
    );
    let m2 = m1.push(("label"@, "\""@ + v1 + "\""@));
    let a2 = a1 + v1 + "\",\n\t\"app\":\""@;
    let b2 = a1 + v1 + "\",\n"@;
    text::lemma_joined_in_front(
        a1 + v1,
        "\",\n"@,
        "\t\""@ + "app"@ + "\":"@ + "\""@,
    );
    let v2 = text::json_escaped(text::text_or_empty(rule.app));
    text::lemma_tells_one_more(
        a2,
        b2,
        "app"@,
        "\""@,
        v2,
        "\""@,
        ",\n\t\"title\":\""@,
        m2,
    );
    let m3 = m2.push(("app"@, "\""@ + v2 + "\""@));
    let a3 = a2 + v2 + "\",\n\t\"title\":\""@;
    let b3 = a2 + v2 + "\",\n"@;
    text::lemma_joined_in_front(
        a2 + v2,
        "\",\n"@,
        "\t\""@ + "title"@ + "\":"@ + "\""@,
    );
    let v3 = text::json_escaped(text::text_or_empty(rule.title));
    text::lemma_tells_one_more(
        a3,
        b3,
        "title"@,
        "\""@,
        v3,
        "\""@,
        ",\n\t\"role\":\""@,
        m3,
    );
    let m4 = m3.push(("title"@, "\""@ + v3 + "\""@));
    let a4 = a3 + v3 + "\",\n\t\"role\":\""@;
    let b4 = a3 + v3 + "\",\n"@;
    text::lemma_joined_in_front(
        a3 + v3,
        "\",\n"@,
        "\t\""@ + "role"@ + "\":"@ + "\""@,
    );
    let v4 = text::json_escaped(text::text_or_empty(rule.role));
    text::lemma_tells_one_more(
        a4,
        b4,
        "role"@,
        "\""@,
        v4,
        "\""@,
        ",\n\t\"subrole\":\""@,
        m4,
    );
    let m5 = m4.push(("role"@, "\""@ + v4 + "\""@));
    let a5 = a4 + v4 + "\",\n\t\"subrole\":\""@;
    let b5 = a4 + v4 + "\",\n"@;
    text::lemma_joined_in_front(
        a4 + v4,
        "\",\n"@,
        "\t\""@ + "subrole"@ + "\":"@ + "\""@,
    );
    let v5 = text::json_escaped(text::text_or_empty(rule.subrole));
    text::lemma_tells_one_more(
        a5,
        b5,
        "subrole"@,
        "\""@,
        v5,
        "\""@,
        ",\n\t\"display\":0,\n\t\"space\":0,\n\t\"follow_space\":"@,
        m5,
    );
    let m6 = m5.push(("subrole"@, "\""@ + v5 + "\""@));
    let a6 = a5 + v5 + "\",\n\t\"display\":0,\n\t\"space\":0,\n\t\"follow_space\":"@;
    let b6 = a5 + v5 + "\",\n\t\"display\":0,\n\t\"space\":0,\n"@;
    text::lemma_joined_in_front(
        a5 + v5,
        "\",\n\t\"display\":0,\n\t\"space\":0,\n"@,
        "\t\""@ + "follow_space"@ + "\":"@ + ""@,
    );
    let v6 = text::json_bool_text(rule.effects.follow_space);
    text::lemma_tells_one_more(
        a6,
        b6,
        "follow_space"@,
        ""@,
        v6,
        ""@,
        ",\n\t\"opacity\":"@,
        m6,
    );
    let m7 = m6.push(("follow_space"@, ""@ + v6 + ""@));
    let a7 = a6 + v6 + ",\n\t\"opacity\":"@;
    let b7 = a6 + v6 + ",\n"@;
    text::lemma_joined_in_front(
        a6 + v6,
        ",\n"@,
        "\t\""@ + "opacity"@ + "\":"@ + ""@,
    );
    let v7 = opacity_text(rule.effects.opacity);
    text::lemma_tells_one_more(
        a7,
        b7,
        "opacity"@,
        ""@,
        v7,
        ""@,
        ",\n\t\"manage\":"@,
        m7,
    );
    let m8 = m7.push(("opacity"@, ""@ + v7 + ""@));
    let a8 = a7 + v7 + ",\n\t\"manage\":"@;
    let b8 = a7 + v7 + ",\n"@;
    text::lemma_joined_in_front(
        a7 + v7,
        ",\n"@,
        "\t\""@ + "manage"@ + "\":"@ + ""@,
    );
    let v8 = text::optional_bool_text(rule.effects.manage);
    text::lemma_tells_one_more(
        a8,
        b8,
        "manage"@,
        ""@,
        v8,
        ""@,
        ",\n\t\"sticky\":"@,
        m8,
    );
    let m9 = m8.push(("manage"@, ""@ + v8 + ""@));
    let a9 = a8 + v8 + ",\n\t\"sticky\":"@;
    let b9 = a8 + v8 + ",\n"@;
    text::lemma_joined_in_front(
        a8 + v8,
        ",\n"@,
        "\t\""@ + "sticky"@ + "\":"@ + ""@,
    );
    let v9 = text::optional_bool_text(rule.effects.sticky);
    text::lemma_tells_one_more(
        a9,
        b9,
        "sticky"@,
        ""@,
        v9,
        ""@,
        ",\n\t\"mouse_follows_focus\":"@,
        m9,
    );
    let m10 = m9.push(("sticky"@, ""@ + v9 + ""@));
    let a10 = a9 + v9 + ",\n\t\"mouse_follows_focus\":"@;
    let b10 = a9 + v9 + ",\n"@;
    text::lemma_joined_in_front(
        a9 + v9,
        ",\n"@,
        "\t\""@ + "mouse_follows_focus"@ + "\":"@ + ""@,
    );
    let v10 = text::optional_bool_text(rule.effects.mff);
    text::lemma_tells_one_more(
        a10,
        b10,
        "mouse_follows_focus"@,
        ""@,
        v10,
        ""@,
        ",\n\t\"sub-layer\":\""@,
        m10,
    );
    let m11 = m10.push(("mouse_follows_focus"@, ""@ + v10 + ""@));
    let a11 = a10 + v10 + ",\n\t\"sub-layer\":\""@;
    let b11 = a10 + v10 + ",\n"@;
    text::lemma_joined_in_front(
        a10 + v10,
        ",\n"@,
        "\t\""@ + "sub-layer"@ + "\":"@ + "\""@,
    );
    let v11 = layer_or_empty(rule.effects.layer);
    text::lemma_tells_one_more(
        a11,
        b11,
        "sub-layer"@,
        "\""@,
        v11,
        "\""@,
        ",\n\t\"native-fullscreen\":"@,
        m11,
    );
    let m12 = m11.push(("sub-layer"@, "\""@ + v11 + "\""@));
    let a12 = a11 + v11 + "\",\n\t\"native-fullscreen\":"@;
    let b12 = a11 + v11 + "\",\n"@;
    text::lemma_joined_in_front(
        a11 + v11,
        "\",\n"@,
        "\t\""@ + "native-fullscreen"@ + "\":"@ + ""@,
    );
    let v12 = text::optional_bool_text(rule.effects.fullscreen);
    text::lemma_tells_one_more(
        a12,
        b12,
        "native-fullscreen"@,
        ""@,
        v12,
        ""@,
        ",\n\t\"grid\":\""@,
        m12,
    );
    let m13 = m12.push(("native-fullscreen"@, ""@ + v12 + ""@));
    let a13 = a12 + v12 + ",\n\t\"grid\":\""@;
    let b13 = a12 + v12 + ",\n"@;
    text::lemma_joined_in_front(
        a12 + v12,
        ",\n"@,
        "\t\""@ + "grid"@ + "\":"@ + "\""@,
    );
    let v13 = grid_text(rule.effects.grid);
    text::lemma_tells_one_more(
        a13,
        b13,
        "grid"@,
        "\""@,
        v13,
        "\""@,
        ",\n\t\"scratchpad\":\""@,
        m13,
    );
    let m14 = m13.push(("grid"@, "\""@ + v13 + "\""@));
    let a14 = a13 + v13 + "\",\n\t\"scratchpad\":\""@;
    let b14 = a13 + v13 + "\",\n"@;
    text::lemma_joined_in_front(
        a13 + v13,
        "\",\n"@,
        "\t\""@ + "scratchpad"@ + "\":"@ + "\""@,
    );
    let v14 = text::json_escaped(text::text_or_empty(rule.effects.scratchpad));
    text::lemma_tells_one_more(
        a14,
        b14,
        "scratchpad"@,
        "\""@,
        v14,
        "\""@,
        ",\n\t\"one-shot\":"@,
        m14,
    );
    let m15 = m14.push(("scratchpad"@, "\""@ + v14 + "\""@));
    let a15 = a14 + v14 + "\",\n\t\"one-shot\":"@;
    let b15 = a14 + v14 + "\",\n"@;
    text::lemma_joined_in_front(
        a14 + v14,
        "\",\n"@,
        "\t\""@ + "one-shot"@ + "\":"@ + ""@,
    );
    let v15 = text::json_bool_text(rule.one_shot);
    text::lemma_tells_one_more(
        a15,
        b15,
        "one-shot"@,
        ""@,
        v15,
        ""@,
        ",\n\t\"flags\":\"0x"@,
        m15,
    );
    let m16 = m15.push(("one-shot"@, ""@ + v15 + ""@));
    let a16 = a15 + v15 + ",\n\t\"flags\":\"0x"@;
    let b16 = a15 + v15 + ",\n"@;
    text::lemma_joined_in_front(
        a15 + v15,
        ",\n"@,
        "\t\""@ + "flags"@ + "\":"@ + "\"0x"@,
    );
    let v16 = text::hex_padded(rule_flags(rule), 8);
    text::lemma_tells_one_more(
        a16,
        b16,
        "flags"@,
        "\"0x"@,
        v16,
        "\""@,
        "\n}"@,
        m16,
    );
    let m17 = m16.push(("flags"@, "\"0x"@ + v16 + "\""@));
    let a17 = a16 + v16 + "\"\n}"@;
    assert(rule_text(rule, index) == a17);
    assert(m17[0] == ("index"@, ""@ + v0 + ""@));
    assert(""@ + v0 + ""@ =~= v0);
    assert(m17[1] == ("label"@, "\""@ + v1 + "\""@));
    assert(m17[2] == ("app"@, "\""@ + v2 + "\""@));
    assert(m17[3] == ("title"@, "\""@ + v3 + "\""@));
    assert(m17[4] == ("role"@, "\""@ + v4 + "\""@));
    assert(m17[5] == ("subrole"@, "\""@ + v5 + "\""@));
    assert(m17[6] == ("follow_space"@, ""@ + v6 + ""@));
    assert(""@ + v6 + ""@ =~= v6);
    assert(m17[7] == ("opacity"@, ""@ + v7 + ""@));
    assert(""@ + v7 + ""@ =~= v7);
    assert(m17[8] == ("manage"@, ""@ + v8 + ""@));
    assert(""@ + v8 + ""@ =~= v8);
    assert(m17[9] == ("sticky"@, ""@ + v9 + ""@));
    assert(""@ + v9 + ""@ =~= v9);
    assert(m17[10] == ("mouse_follows_focus"@, ""@ + v10 + ""@));
    assert(""@ + v10 + ""@ =~= v10);
    assert(m17[11] == ("sub-layer"@, "\""@ + v11 + "\""@));
    assert(m17[12] == ("native-fullscreen"@, ""@ + v12 + ""@));
    assert(""@ + v12 + ""@ =~= v12);
    assert(m17[13] == ("grid"@, "\""@ + v13 + "\""@));
    assert(m17[14] == ("scratchpad"@, "\""@ + v14 + "\""@));
    assert(m17[15] == ("one-shot"@, ""@ + v15 + ""@));
    assert(""@ + v15 + ""@ =~= v15);
    assert(m17[16] == ("flags"@, "\"0x"@ + v16 + "\""@));
}

/// How opacities, layers and grids are listed, and how their absence is.
pub proof fn law_listed_effects(x: Real, g: [u32; 6])
    ensures
        opacity_text(Some(x)) == x.text@,
        opacity_text(None) == "0.0000"@,
        layer_or_empty(Some(Layer::Below)) == "below"@,
        layer_or_empty(Some(Layer::Normal)) == "normal"@,
        layer_or_empty(Some(Layer::Above)) == "above"@,
        layer_or_empty(Some(Layer::Auto)) == "auto"@,
        layer_or_empty(None) == ""@,
        grid_text(None) == "0:0:0:0:0:0"@,
        grid_text(Some(g)) == text::joined(
            Seq::new(6, |i: int| text::decimal(g[i] as nat)),
            ":"@,
        ),
{
    let parts = Seq::new(6, |i: int| text::decimal(g[i] as nat));
    reveal_with_fuel(text::joined, 7);
    let p5 = parts.drop_last();
    let p4 = p5.drop_last();
    let p3 = p4.drop_last();
    let p2 = p3.drop_last();
    let p1 = p2.drop_last();
    assert(text::joined(p1, ":"@) == text::decimal(g[0] as nat));
    assert(text::joined(p2, ":"@) == text::joined(p1, ":"@) + ":"@ + text::decimal(g[1] as nat));
    assert(text::joined(p3, ":"@) == text::joined(p2, ":"@) + ":"@ + text::decimal(g[2] as nat));
    assert(text::joined(p4, ":"@) == text::joined(p3, ":"@) + ":"@ + text::decimal(g[3] as nat));
    assert(text::joined(p5, ":"@) == text::joined(p4, ":"@) + ":"@ + text::decimal(g[4] as nat));
    assert(text::joined(parts, ":"@) == text::joined(p5, ":"@) + ":"@ + text::decimal(
        g[5] as nat,
    ));
}

/// The listing has every rule once, in order, each with its place.
pub proof fn law_listing_has_every_rule(rules: Seq<Rule>) -> (objects: Seq<Seq<char>>)
    ensures
        listing(rules) == "["@ + text::joined(objects, ","@) + "]\n"@,
        objects.len() == rules.len(),
        forall|i: int|
            0 <= i < rules.len() ==> {
                &&& text::tells(#[trigger] objects[i], "index"@, text::decimal(i as nat))
                &&& text::tells(
                    objects[i],
                    "title"@,
                    "\""@ + text::json_escaped(text::text_or_empty(rules[i].title)) + "\""@,
                )
                &&& objects[i] == rule_text(rules[i], i as nat)
            },
{
    assert forall|i: int| 0 <= i < rules.len() implies {
        &&& text::tells(#[trigger] rule_texts(rules)[i], "index"@, text::decimal(i as nat))
        &&& text::tells(
            rule_texts(rules)[i],
            "title"@,
            "\""@ + text::json_escaped(text::text_or_empty(rules[i].title)) + "\""@,
        )
    } by {
        law_listed_rule_tells_its_parts(rules[i], i as nat);
    }
    rule_texts(rules)
}

/// What `Rule::matches` says of a window holds for each part of it: every filter that
/// the rule has is met, and a rule without filters matches any window.
pub proof fn law_matching_by_every_part(
    rule: &Rule,
    app: &str,
    title: &str,
    role: &str,
    subrole: &str,
    r: bool,
)
    requires
        call_ensures(Rule::matches, (rule, app, title, role, subrole), r),
    ensures
        r && rule.app is Some ==> (pattern::regex_compiles(rule.app->0@, usize::BITS)
            && pattern::regex_is_match(rule.app->0@, app@)) != rule.app_exclude,
        r && rule.title is Some ==> (pattern::regex_compiles(rule.title->0@, usize::BITS)
            && pattern::regex_is_match(rule.title->0@, title@)) != rule.title_exclude,
        r && rule.role is Some ==> (pattern::regex_compiles(rule.role->0@, usize::BITS)
            && pattern::regex_is_match(rule.role->0@, role@)) != rule.role_exclude,
        r && rule.subrole is Some ==> (pattern::regex_compiles(rule.subrole->0@, usize::BITS)
            && pattern::regex_is_match(rule.subrole->0@, subrole@)) != rule.subrole_exclude,
        rule.app is None && rule.title is None && rule.role is None && rule.subrole is None ==> r,
        !r ==> {
            ||| rule.app is Some && (pattern::regex_compiles(rule.app->0@, usize::BITS)
                && pattern::regex_is_match(rule.app->0@, app@)) == rule.app_exclude
            ||| rule.title is Some && (pattern::regex_compiles(rule.title->0@, usize::BITS)
                && pattern::regex_is_match(rule.title->0@, title@)) == rule.title_exclude
            ||| rule.role is Some && (pattern::regex_compiles(rule.role->0@, usize::BITS)
                && pattern::regex_is_match(rule.role->0@, role@)) == rule.role_exclude
            ||| rule.subrole is Some && (pattern::regex_compiles(rule.subrole->0@, usize::BITS)
                && pattern::regex_is_match(rule.subrole->0@, subrole@)) == rule.subrole_exclude
        },
{
}

/// No effects come of rules that do not match, and those of a single rule that matches
/// are its own.
pub proof fn law_effects_of_a_single_rule(
    rules: &Vec<Rule>,
    app: &str,
    title: &str,
    role: &str,
    subrole: &str,
    include_one_shot: bool,
    matched: bool,
    r: Option<RuleEffects>,
)
    requires
        rules@.len() == 1,
        call_ensures(Rule::matches, (&rules@[0], app, title, role, subrole), matched),
        call_ensures(
            matched_effects,
            (rules, app, title, role, subrole, include_one_shot),
            r,
        ),
    ensures
        !matched ==> r is None,
        rules@[0].one_shot && !include_one_shot ==> r is None,
        matched && (include_one_shot || !rules@[0].one_shot) && rules@[0].effects.manage is Some
            ==> r is Some && r->0.manage == rules@[0].effects.manage,
        matched && (include_one_shot || !rules@[0].one_shot) ==> r is Some && r->0.space
            == rules@[0].effects.space && r->0.scratchpad == rules@[0].effects.scratchpad
            && r->0.opacity == rules@[0].effects.opacity,
{
    let w = Traits { app: app@, title: title@, role: role@, subrole: subrole@ };
    reveal_with_fuel(combined, 2);
    assert(rules@.drop_last().len() == 0);
    assert(rules@.last() == rules@[0]);
    if any_takes_part(rules@, w, include_one_shot) {
        let i = choose|i: int|
            0 <= i < rules@.len() && takes_part(#[trigger] rules@[i], w, include_one_shot);
        assert(i == 0);
    }
    if takes_part(rules@[0], w, include_one_shot) {
        assert(any_takes_part(rules@, w, include_one_shot));
    }
}

} // verus!
