//! The registered signals and rules, and what rules do to known windows.
use vstd::prelude::*;

use crate::idmap;
use crate::idmap::Id;
use crate::labels;
use crate::rules;
use crate::rules::{Rule, RuleEffects};
use crate::selectors;
use crate::signals;
use crate::signals::{Signal, SignalEvent};
use crate::state::{AppState, State};
use crate::text;
use crate::tiling;
use crate::types::Selector;

verus! {

/// A `signal` command.
#[derive(Debug)]
pub enum SignalCommand {
    Add(Signal),
    Remove(Option<Selector>),
    List,
}

/// What `rule --apply` applies: every rule, the one selected, or one given in
/// place unless a rule carries the same text as its label.
#[derive(Debug)]
pub enum RuleApply {
    All,
    AdHoc { label: String, parsed: Result<Rule, String> },
    Selector(Selector),
}

/// A `rule` command.
#[derive(Debug)]
pub enum RuleCommand {
    Add(Rule),
    Remove(Option<Selector>),
    List,
    Apply(RuleApply),
}

/// The effects that a window on a space was given.
#[derive(Debug)]
pub struct AppliedRuleEffects {
    pub window_id: u32,
    pub sid: u64,
    pub effects: RuleEffects,
}

/// The rule that a selector names.
pub open spec fn selected_rule(rules: Seq<Rule>, selector: Option<Selector>) -> selectors::Resolved<
    int,
> {
    match selector {
        Some(Selector::Index(index)) => if index < rules.len() {
            selectors::Resolved::Found(index as int)
        } else {
            selectors::Resolved::Failed(
                "rule with index '"@ + text::decimal(index as nat) + "' not found.\n"@,
            )
        },
        Some(Selector::Label(label)) => match rules::first_labelled(rules, label@) {
            Some(i) => selectors::Resolved::Found(i),
            None => selectors::Resolved::Failed(
                "rule with label '"@ + label@ + "' not found.\n"@,
            ),
        },
        _ => selectors::Resolved::Failed(
            "a valid rule selector (index or label) is required.\n"@,
        ),
    }
}

/// The position of the rule that a selector names.
pub fn resolve_rule_selector(rules: &Vec<Rule>, selector: Option<&Selector>) -> (r: Result<
    usize,
    String,
>)
    ensures
        match selected_rule(
            rules@,
            match selector {
                Some(s) => Some(*s),
                None => None,
            },
        ) {
            selectors::Resolved::Found(i) => r is Ok && r->Ok_0 == i && i < rules@.len(),
            selectors::Resolved::Failed(e) => r is Err && r->Err_0@ == e,
        },
{
    match selector {
        Some(Selector::Index(index)) => {
            let at = *index as usize;
            if at < rules.len() {
                Ok(at)
            } else {
                let mut out = "rule with index '".to_owned();
                text::push_decimal(&mut out, *index as u64);
                out.append("' not found.\n");
                Err(out)
            }
        },
        Some(Selector::Label(label)) => match rules::rule_index_by_label(rules, label.as_str()) {
            Some(at) => Ok(at),
            None => {
                let mut out = "rule with label '".to_owned();
                out.append(label.as_str());
                out.append("' not found.\n");
                Err(out)
            },
        },
        _ => Err("a valid rule selector (index or label) is required.\n".to_owned()),
    }
}

/// What a single rule does to windows with some traits.
pub open spec fn single(rule: Rule, traits: rules::Traits) -> Option<RuleEffects> {
    if rule.passes(traits) {
        Some(rule.effects)
    } else {
        None
    }
}

/// What all rules but the one-shot ones do to windows with some traits.
pub open spec fn all_together(rules: Seq<Rule>, traits: rules::Traits) -> Option<RuleEffects> {
    if rules::any_takes_part(rules, traits, false) {
        Some(rules::combined(rules, traits, false))
    } else {
        None
    }
}

impl State {
    /// The windows with metadata whose space is known, by ascending id.
    pub open spec fn known_windows(self) -> Seq<u32> {
        idmap::ids_of(self.meta.dom()).filter(|w: u32| self.known_space(w) is Some)
    }

    /// What rules see of a known window.
    pub open spec fn traits_of(self, window_id: u32) -> rules::Traits {
        rules::Traits {
            app: self.meta[window_id].app@,
            title: self.meta[window_id].title@,
            role: ""@,
            subrole: ""@,
        }
    }

    /// The effects that the listed windows get.
    pub open spec fn applications(
        self,
        effect: spec_fn(rules::Traits) -> Option<RuleEffects>,
        windows: Seq<u32>,
    ) -> Seq<AppliedRuleEffects>
        decreases windows.len(),
    {
        if windows.len() == 0 {
            Seq::empty()
        } else {
            let earlier = self.applications(effect, windows.drop_last());
            let w = windows.last();
            match effect(self.traits_of(w)) {
                Some(effects) => earlier.push(
                    AppliedRuleEffects { window_id: w, sid: self.known_space(w)->0, effects },
                ),
                None => earlier,
            }
        }
    }

    /// The effects that a single rule has on the known windows.
    pub open spec fn rule_applications(self, rule: Rule) -> Seq<AppliedRuleEffects> {
        self.applications(|t: rules::Traits| single(rule, t), self.known_windows())
    }

    /// The effects of the rule at a position; a one-shot rule has none.
    pub open spec fn indexed_applications(self, i: int) -> Seq<AppliedRuleEffects> {
        if self.rules[i].one_shot {
            Seq::empty()
        } else {
            self.rule_applications(self.rules[i])
        }
    }

    /// The effects that `rule --apply` has on the known windows.
    pub open spec fn applied(self, apply: RuleApply) -> selectors::Resolved<
        Seq<AppliedRuleEffects>,
    > {
        match apply {
            RuleApply::All => selectors::Resolved::Found(
                self.applications(
                    |t: rules::Traits| all_together(self.rules, t),
                    self.known_windows(),
                ),
            ),
            RuleApply::AdHoc { label, parsed } => match rules::first_labelled(self.rules, label@) {
                Some(i) => selectors::Resolved::Found(self.indexed_applications(i)),
                None => match parsed {
                    Err(e) => selectors::Resolved::Failed(e@),
                    Ok(rule) => if rule.compiles() {
                        selectors::Resolved::Found(self.rule_applications(rule))
                    } else {
                        selectors::Resolved::Failed(rule.complaint())
                    },
                },
            },
            RuleApply::Selector(selector) => match selected_rule(self.rules, Some(selector)) {
                selectors::Resolved::Failed(e) => selectors::Resolved::Failed(e),
                selectors::Resolved::Found(i) => selectors::Resolved::Found(
                    self.indexed_applications(i),
                ),
            },
        }
    }

    /// The state after effects were applied to one window: it floats or is
    /// tiled, and it may become a scratchpad.
    pub open spec fn with_effects(self, window_id: u32, sid: u64, effects: RuleEffects) -> State {
        let managed = match effects.manage {
            Some(manage) => State { tiling: self.tiling.floated(window_id, !manage, sid), ..self },
            None => self,
        };
        match effects.scratchpad {
            Some(label) => if managed.scratchpad_taken(window_id, label@) {
                managed
            } else {
                managed.with_scratchpad(window_id, label@, sid)
            },
            None => managed,
        }
    }

    /// The state after the first `k` applications, one after the other.
    pub open spec fn with_applications(self, apps: Seq<AppliedRuleEffects>, k: int) -> State
        decreases k,
    {
        if k <= 0 {
            self
        } else {
            let app = apps[k - 1];
            self.with_applications(apps, k - 1).with_effects(app.window_id, app.sid, app.effects)
        }
    }

    /// The state after a newly found window went through the rules: it has
    /// their combined effects, and the one-shot rules it matched are gone.
    pub open spec fn with_new_window(self, window_id: u32, sid: u64, traits: rules::Traits) -> State {
        State { rules: rules::unspent(self.rules, traits), ..self }.with_effects(
            window_id,
            sid,
            rules::combined(self.rules, traits, true),
        )
    }
}

/// Whether an answer says what is due: perhaps a text, or a complaint.
pub open spec fn is_reply(
    r: Result<Option<String>, String>,
    due: selectors::Resolved<Option<Seq<char>>>,
) -> bool {
    match due {
        selectors::Resolved::Found(None) => r == Ok::<Option<String>, String>(None),
        selectors::Resolved::Found(Some(output)) => r is Ok && r->Ok_0 is Some && r->Ok_0->0@
            == output,
        selectors::Resolved::Failed(e) => r is Err && r->Err_0@ == e,
    }
}

impl State {
    /// The state after a `rule` command, and the answer.
    pub open spec fn after_rule(self, cmd: RuleCommand) -> (
        State,
        selectors::Resolved<Option<Seq<char>>>,
    ) {
        match cmd {
            RuleCommand::Add(rule) => if rule.compiles() {
                (
                    State { rules: rules::with_rule(self.rules, rule), ..self },
                    selectors::Resolved::Found(None),
                )
            } else {
                (self, selectors::Resolved::Failed(rule.complaint()))
            },
            RuleCommand::Remove(selector) => match selected_rule(self.rules, selector) {
                selectors::Resolved::Found(i) => (
                    State { rules: self.rules.remove(i), ..self },
                    selectors::Resolved::Found(None),
                ),
                selectors::Resolved::Failed(e) => (self, selectors::Resolved::Failed(e)),
            },
            RuleCommand::List => (
                self,
                selectors::Resolved::Found(Some(rules::listing(self.rules))),
            ),
            RuleCommand::Apply(apply) => match self.applied(apply) {
                selectors::Resolved::Found(apps) => (
                    self.with_applications(apps, apps.len() as int),
                    selectors::Resolved::Found(None),
                ),
                selectors::Resolved::Failed(e) => (self, selectors::Resolved::Failed(e)),
            },
        }
    }

    /// The state after a `signal` command, and the answer.
    pub open spec fn after_signal(self, cmd: SignalCommand) -> (
        State,
        selectors::Resolved<Option<Seq<char>>>,
    ) {
        match cmd {
            SignalCommand::Add(signal) => if signal.compiles() {
                (
                    State { signals: signals::with_signal(self.signals, signal), ..self },
                    selectors::Resolved::Found(None),
                )
            } else {
                (self, selectors::Resolved::Failed(signal.complaint()))
            },
            SignalCommand::Remove(selector) => match signals::selected(self.signals, selector) {
                Some(i) => (
                    State { signals: self.signals.remove(i), ..self },
                    selectors::Resolved::Found(None),
                ),
                None => (self, selectors::Resolved::Failed(signals::selection_error(selector))),
            },
            SignalCommand::List => (
                self,
                selectors::Resolved::Found(Some(signals::listing(self.signals))),
            ),
        }
    }
}

impl AppState {
    /// Every window with metadata whose space is known, by ascending id, with
    /// its application, title and space.
    pub fn windows_with_meta(&self) -> (r: Vec<(u32, String, String, u64)>)
        requires
            self.wf(),
        ensures
            r@.len() == self@.known_windows().len(),
            forall|i: int|
                0 <= i < r@.len() ==> {
                    let w = self@.known_windows()[i];
                    &&& (#[trigger] r@[i]).0 == w
                    &&& r@[i].1@ == self@.meta[w].app@
                    &&& r@[i].2@ == self@.meta[w].title@
                    &&& Some(r@[i].3) == self@.known_space(w)
                },
    {
        let ids = self.meta_windows();
        let ghost keep = |w: u32| self@.known_space(w) is Some;
        let mut out: Vec<(u32, String, String, u64)> = Vec::new();
        let mut i: usize = 0;
        proof {
            reveal(Seq::filter);
            assert(ids@.take(0).filter(keep) =~= Seq::<u32>::empty());
        }
        while i < ids.len()
            invariant
                self.wf(),
                i <= ids@.len(),
                idmap::lists(ids@, self@.meta.dom()),
                keep == (|w: u32| self@.known_space(w) is Some),
                out@.len() == ids@.take(i as int).filter(keep).len(),
                forall|j: int|
                    0 <= j < out@.len() ==> {
                        let w = ids@.take(i as int).filter(keep)[j];
                        &&& (#[trigger] out@[j]).0 == w
                        &&& out@[j].1@ == self@.meta[w].app@
                        &&& out@[j].2@ == self@.meta[w].title@
                        &&& Some(out@[j].3) == self@.known_space(w)
                    },
            decreases ids.len() - i,
        {
            proof {
                rules::lemma_filter_step(ids@, i as int, keep);
                assert(ids@.contains(ids@[i as int]));
            }
            let id = ids[i];
            if let Some(sid) = self.window_known_space_id(id) {
                if let Some(meta) = self.window_meta(id) {
                    out.push((id, meta.app.clone(), meta.title.clone(), sid));
                }
            }
            i += 1;
        }
        assert(ids@.take(ids@.len() as int) =~= ids@);
        out
    }

    /// Apply rule effects to a window on a space.
    pub fn apply_rule_effects_to_window(&mut self, window_id: u32, sid: u64, effects: &RuleEffects)
        requires
            old(self).wf(),
        ensures
            final(self).wf(),
            final(self)@ == old(self)@.with_effects(window_id, sid, *effects),
    {
        if let Some(manage) = effects.manage {
            self.set_window_floating(window_id, !manage, sid);
        }
        if let Some(label) = &effects.scratchpad {
            let _ = self.set_window_scratchpad(window_id, label.clone(), sid);
        }
    }

    fn applications_of_rule(&self, rule: &Rule) -> (r: Vec<AppliedRuleEffects>)
        requires
            self.wf(),
        ensures
            r@ == self@.rule_applications(*rule),
    {
        let rows = self.windows_with_meta();
        let ghost known = self@.known_windows();
        let ghost effect = |t: rules::Traits| single(*rule, t);
        let mut out: Vec<AppliedRuleEffects> = Vec::new();
        let mut i: usize = 0;
        while i < rows.len()
            invariant
                i <= rows@.len(),
                rows@.len() == known.len(),
                effect == (|t: rules::Traits| single(*rule, t)),
                forall|i: int|
                    0 <= i < rows@.len() ==> {
                        let w = known[i];
                        &&& (#[trigger] rows@[i]).0 == w
                        &&& rows@[i].1@ == self@.meta[w].app@
                        &&& rows@[i].2@ == self@.meta[w].title@
                        &&& Some(rows@[i].3) == self@.known_space(w)
                    },
                out@ == self@.applications(effect, known.take(i as int)),
            decreases rows.len() - i,
        {
            proof {
                assert(known.take(i + 1).drop_last() =~= known.take(i as int));
                assert(known.take(i + 1).last() == known[i as int]);
            }
            let row = &rows[i];
            if rule.matches(row.1.as_str(), row.2.as_str(), "", "") {
                out.push(
                    AppliedRuleEffects {
                        window_id: row.0,
                        sid: row.3,
                        effects: rule.effects.copy(),
                    },
                );
            }
            i += 1;
        }
        assert(known.take(known.len() as int) =~= known);
        out
    }

    fn applications_of_all(&self) -> (r: Vec<AppliedRuleEffects>)
        requires
            self.wf(),
        ensures
            r@ == self@.applications(
                |t: rules::Traits| all_together(self@.rules, t),
                self@.known_windows(),
            ),
    {
        let rows = self.windows_with_meta();
        let ghost known = self@.known_windows();
        let ghost effect = |t: rules::Traits| all_together(self@.rules, t);
        let mut out: Vec<AppliedRuleEffects> = Vec::new();
        let mut i: usize = 0;
        while i < rows.len()
            invariant
                i <= rows@.len(),
                rows@.len() == known.len(),
                effect == (|t: rules::Traits| all_together(self@.rules, t)),
                forall|i: int|
                    0 <= i < rows@.len() ==> {
                        let w = known[i];
                        &&& (#[trigger] rows@[i]).0 == w
                        &&& rows@[i].1@ == self@.meta[w].app@
                        &&& rows@[i].2@ == self@.meta[w].title@
                        &&& Some(rows@[i].3) == self@.known_space(w)
                    },
                out@ == self@.applications(effect, known.take(i as int)),
            decreases rows.len() - i,
        {
            proof {
                assert(known.take(i + 1).drop_last() =~= known.take(i as int));
                assert(known.take(i + 1).last() == known[i as int]);
            }
            let row = &rows[i];
            if let Some(effects) = rules::matched_effects(
                self.rules(),
                row.1.as_str(),
                row.2.as_str(),
                "",
                "",
                false,
            ) {
                out.push(AppliedRuleEffects { window_id: row.0, sid: row.3, effects });
            }
            i += 1;
        }
        assert(known.take(known.len() as int) =~= known);
        out
    }

    fn applications_at(&self, index: usize) -> (r: Vec<AppliedRuleEffects>)
        requires
            self.wf(),
            index < self@.rules.len(),
        ensures
            r@ == self@.indexed_applications(index as int),
    {
        let rule = &self.rules()[index];
        if rule.one_shot {
            Vec::new()
        } else {
            self.applications_of_rule(rule)
        }
    }

    fn collect_applications(&self, apply: &RuleApply) -> (r: Result<
        Vec<AppliedRuleEffects>,
        String,
    >)
        requires
            self.wf(),
        ensures
            match self@.applied(*apply) {
                selectors::Resolved::Found(apps) => r is Ok && r->Ok_0@ == apps,
                selectors::Resolved::Failed(e) => r is Err && r->Err_0@ == e,
            },
    {
        match apply {
            RuleApply::All => Ok(self.applications_of_all()),
            RuleApply::AdHoc { label, parsed } => {
                if let Some(index) = rules::rule_index_by_label(self.rules(), label.as_str()) {
                    return Ok(self.applications_at(index));
                }
                match parsed {
                    Err(error) => Err(error.clone()),
                    Ok(rule) => match rules::check_patterns(rule) {
                        Err(error) => Err(error),
                        Ok(()) => Ok(self.applications_of_rule(rule)),
                    },
                }
            },
            RuleApply::Selector(selector) => match resolve_rule_selector(
                self.rules(),
                Some(selector),
            ) {
                Ok(index) => Ok(self.applications_at(index)),
                Err(error) => Err(error),
            },
        }
    }

    /// Apply rules to the known windows, and tell which window got which
    /// effects.
    pub fn apply_rule_and_collect_effects(&mut self, apply: &RuleApply) -> (r: Result<
        Vec<AppliedRuleEffects>,
        String,
    >)
        requires
            old(self).wf(),
        ensures
            final(self).wf(),
            match old(self)@.applied(*apply) {
                selectors::Resolved::Found(apps) => {
                    &&& r is Ok
                    &&& r->Ok_0@ == apps
                    &&& final(self)@ == old(self)@.with_applications(apps, apps.len() as int)
                },
                selectors::Resolved::Failed(e) => {
                    &&& r is Err
                    &&& r->Err_0@ == e
                    &&& final(self)@ == old(self)@
                },
            },
    {
        let apps = match self.collect_applications(apply) {
            Ok(apps) => apps,
            Err(error) => {
                return Err(error);
            },
        };
        let ghost pre = self@;
        let mut i: usize = 0;
        while i < apps.len()
            invariant
                self.wf(),
                i <= apps@.len(),
                self@ == pre.with_applications(apps@, i as int),
            decreases apps.len() - i,
        {
            let app = &apps[i];
            self.apply_rule_effects_to_window(app.window_id, app.sid, &app.effects);
            i += 1;
        }
        Ok(apps)
    }

    /// The combined effects of every rule that matches a window.
    pub fn rule_effects_for_window(&self, app: &str, title: &str, role: &str, subrole: &str) -> (r:
        RuleEffects)
        ensures
            r == rules::combined(
                self@.rules,
                rules::Traits { app: app@, title: title@, role: role@, subrole: subrole@ },
                true,
            ),
    {
        match rules::matched_effects(self.rules(), app, title, role, subrole, true) {
            Some(effects) => effects,
            None => RuleEffects::new(),
        }
    }

    /// Apply the rules to a newly found window. The one-shot rules that it
    /// matches take part, and are removed.
    pub fn apply_new_window_rules(
        &mut self,
        window_id: u32,
        app: &str,
        title: &str,
        role: &str,
        subrole: &str,
        sid: u64,
    ) -> (r: RuleEffects)
        requires
            old(self).wf(),
        ensures
            final(self).wf(),
            r == rules::combined(
                old(self)@.rules,
                rules::Traits { app: app@, title: title@, role: role@, subrole: subrole@ },
                true,
            ),
            final(self)@ == old(self)@.with_new_window(
                window_id,
                sid,
                rules::Traits { app: app@, title: title@, role: role@, subrole: subrole@ },
            ),
    {
        let effects = self.rule_effects_for_window(app, title, role, subrole);
        let mut rules = self.take_rules();
        rules::drop_spent(&mut rules, app, title, role, subrole);
        self.set_rules(rules);
        self.apply_rule_effects_to_window(window_id, sid, &effects);
        effects
    }

    /// Carry out a `rule` command.
    pub fn dispatch_rule(&mut self, cmd: RuleCommand) -> (r: Result<Option<String>, String>)
        requires
            old(self).wf(),
        ensures
            final(self).wf(),
            final(self)@ == old(self)@.after_rule(cmd).0,
            is_reply(r, old(self)@.after_rule(cmd).1),
    {
        match cmd {
            RuleCommand::Add(rule) => match rules::compile_rule(rule) {
                Ok(checked) => {
                    let mut rules = self.take_rules();
                    rules::add_rule(&mut rules, checked);
                    self.set_rules(rules);
                    Ok(None)
                },
                Err(error) => Err(error),
            },
            RuleCommand::Remove(selector) => match resolve_rule_selector(
                self.rules(),
                selector.as_ref(),
            ) {
                Ok(at) => {
                    let mut rules = self.take_rules();
                    let _ = rules.remove(at);
                    self.set_rules(rules);
                    Ok(None)
                },
                Err(error) => Err(error),
            },
            RuleCommand::List => Ok(Some(rules::serialize_rules(self.rules()))),
            RuleCommand::Apply(apply) => match self.apply_rule_and_collect_effects(&apply) {
                Ok(_) => Ok(None),
                Err(error) => Err(error),
            },
        }
    }

    /// Carry out a `signal` command.
    pub fn dispatch_signal(&mut self, cmd: SignalCommand) -> (r: Result<Option<String>, String>)
        requires
            old(self).wf(),
        ensures
            final(self).wf(),
            final(self)@ == old(self)@.after_signal(cmd).0,
            is_reply(r, old(self)@.after_signal(cmd).1),
    {
        match cmd {
            SignalCommand::Add(signal) => match signals::compile_signal(signal) {
                Ok(checked) => {
                    let mut signals = self.take_signals();
                    signals::add_signal(&mut signals, checked);
                    self.set_signals(signals);
                    Ok(None)
                },
                Err(error) => Err(error),
            },
            SignalCommand::Remove(selector) => {
                let mut signals = self.take_signals();
                let outcome = signals::remove_signal(&mut signals, &selector);
                self.set_signals(signals);
                match outcome {
                    Ok(()) => Ok(None),
                    Err(error) => Err(error),
                }
            },
            SignalCommand::List => Ok(Some(signals::serialize_signals(self.signals()))),
        }
    }

    /// The commands of the signals that fire on an event in a context.
    pub fn signal_actions_for_context(
        &self,
        event: SignalEvent,
        app: Option<&str>,
        title: Option<&str>,
        active: Option<bool>,
    ) -> (r: Vec<String>)
        ensures
            text::texts(r@) == signals::fired_actions(self@.signals, event, app, title, active),
    {
        signals::signal_actions_for_context(self.signals(), event, app, title, active)
    }

    /// The commands of the signals that fire on an event that tells of no
    /// application, title or activity.
    pub fn signal_actions_for(&self, event: SignalEvent) -> (r: Vec<String>)
        ensures
            text::texts(r@) == signals::fired_actions(self@.signals, event, None, None, None),
    {
        self.signal_actions_for_context(event, None, None, None)
    }
}

/// Applying effects to one window leaves every other window's floating mark and
/// scratchpad as they were.
pub proof fn law_effects_are_local(
    s: State,
    window_id: u32,
    sid: u64,
    effects: RuleEffects,
    other: u32,
)
    requires
        other != window_id,
    ensures
        s.with_effects(window_id, sid, effects).tiling.floating.contains(other)
            == s.tiling.floating.contains(other),
        s.with_effects(window_id, sid, effects).scratchpads.dom().contains(other)
            == s.scratchpads.dom().contains(other),
        s.scratchpads.dom().contains(other) ==> s.with_effects(
            window_id,
            sid,
            effects,
        ).scratchpads[other] == s.scratchpads[other],
        s.with_effects(window_id, sid, effects).rules == s.rules,
        s.with_effects(window_id, sid, effects).meta == s.meta,
{
}

/// A window that a rule stops managing floats afterwards.
pub proof fn law_unmanaged_window_floats(s: State, window_id: u32, sid: u64, effects: RuleEffects)
    requires
        effects.manage == Some(false),
    ensures
        s.with_effects(window_id, sid, effects).tiling.floating.contains(window_id),
{
}

/// A rule is named by its place or by its label, the first that carries it; any other
/// selector is refused.
pub proof fn law_rule_selectors(
    rules: Seq<Rule>,
    selector: Option<Selector>,
    index: u32,
    label: String,
    i: int,
)
    ensures
        selector == Some(Selector::Index(index)) && index < rules.len() ==> selected_rule(
            rules,
            selector,
        ) == selectors::Resolved::Found(index as int),
        selector == Some(Selector::Index(index)) && index >= rules.len() ==> selected_rule(
            rules,
            selector,
        ) == selectors::Resolved::<int>::Failed(
            "rule with index '"@ + text::decimal(index as nat) + "' not found.\n"@,
        ),
        selector == Some(Selector::Label(label)) && 0 <= i < rules.len() && rules[i].label is Some
            && rules[i].label->0@ == label@ && (forall|j: int|
            0 <= j < i ==> (#[trigger] rules[j]).label is None || rules[j].label->0@ != label@)
            ==> selected_rule(rules, selector) == selectors::Resolved::Found(i),
        selector == Some(Selector::Label(label)) && (forall|j: int|
            0 <= j < rules.len() ==> (#[trigger] rules[j]).label is None || rules[j].label->0@
                != label@) ==> selected_rule(rules, selector) == selectors::Resolved::<int>::Failed(
            "rule with label '"@ + label@ + "' not found.\n"@,
        ),
        !(selector is Some && (selector->0 is Index || selector->0 is Label)) ==> selected_rule(
            rules,
            selector,
        ) == selectors::Resolved::<int>::Failed(
            "a valid rule selector (index or label) is required.\n"@,
        ),
{
    rules::law_first_labelled_rule(rules, label@);
}

/// What windows get of an effect is told in their order, to each its own.
proof fn lemma_applications(
    s: State,
    effect: spec_fn(rules::Traits) -> Option<RuleEffects>,
    windows: Seq<u32>,
)
    ensures
        forall|i: int|
            0 <= i < s.applications(effect, windows).len() ==> {
                let a = #[trigger] s.applications(effect, windows)[i];
                &&& windows.contains(a.window_id)
                &&& effect(s.traits_of(a.window_id)) == Some(a.effects)
                &&& a.sid == s.known_space(a.window_id)->0
            },
        forall|w: u32|
            #![trigger windows.contains(w)]
            windows.contains(w) && effect(s.traits_of(w)) is Some ==> exists|i: int|
                0 <= i < s.applications(effect, windows).len() && (#[trigger] s.applications(
                    effect,
                    windows,
                )[i]).window_id == w,
    decreases windows.len(),
{
    if windows.len() > 0 {
        let less = windows.drop_last();
        lemma_applications(s, effect, less);
        let apps = s.applications(effect, windows);
        let earlier = s.applications(effect, less);
        let last = windows.last();
        assert(windows[windows.len() - 1] == last);
        assert forall|i: int| 0 <= i < apps.len() implies {
            let a = #[trigger] apps[i];
            &&& windows.contains(a.window_id)
            &&& effect(s.traits_of(a.window_id)) == Some(a.effects)
            &&& a.sid == s.known_space(a.window_id)->0
        } by {
            if i < earlier.len() {
                let a = earlier[i];
                assert(apps[i] == a);
                assert(less.contains(a.window_id));
                let k = choose|k: int| 0 <= k < less.len() && less[k] == a.window_id;
                assert(windows[k] == a.window_id);
            }
        }
        assert forall|w: u32|
            #![trigger windows.contains(w)]
            windows.contains(w) && effect(s.traits_of(w)) is Some implies exists|i: int|
            0 <= i < apps.len() && (#[trigger] apps[i]).window_id == w by {
            let k = choose|k: int| 0 <= k < windows.len() && windows[k] == w;
            if w == last {
                assert(apps[apps.len() - 1].window_id == w);
            } else {
                assert(less[k] == w);
                assert(less.contains(w));
                let i = choose|i: int|
                    0 <= i < earlier.len() && (#[trigger] earlier[i]).window_id == w;
                assert(apps[i] == earlier[i]);
            }
        }
    }
}

proof fn lemma_kept_ids(ids: Seq<u32>, keep: spec_fn(u32) -> bool)
    ensures
        forall|w: u32| #[trigger] ids.filter(keep).contains(w) <==> ids.contains(w) && keep(w),
        idmap::ascending(ids) ==> idmap::ascending(ids.filter(keep)),
    decreases ids.len(),
{
    reveal(Seq::filter);
    if ids.len() > 0 {
        let less = ids.drop_last();
        let last = ids.last();
        lemma_kept_ids(less, keep);
        let kept = ids.filter(keep);
        let earlier = less.filter(keep);
        assert(ids[ids.len() - 1] == last);
        assert forall|w: u32| #[trigger] ids.contains(w) <==> less.contains(w) || w == last by {
            if ids.contains(w) {
                let k = choose|k: int| 0 <= k < ids.len() && ids[k] == w;
                if k < less.len() {
                    assert(less[k] == w);
                }
            }
            if less.contains(w) {
                let k = choose|k: int| 0 <= k < less.len() && less[k] == w;
                assert(ids[k] == w);
            }
        }
        assert forall|w: u32| #[trigger] kept.contains(w) <==> earlier.contains(w) || keep(last) && w
            == last by {
            if kept.contains(w) {
                let k = choose|k: int| 0 <= k < kept.len() && kept[k] == w;
                if k < earlier.len() {
                    assert(earlier[k] == w);
                }
            }
            if earlier.contains(w) {
                let k = choose|k: int| 0 <= k < earlier.len() && earlier[k] == w;
                assert(kept[k] == w);
            }
            if keep(last) && w == last {
                assert(kept[kept.len() - 1] == w);
            }
        }
        if idmap::ascending(ids) {
            assert forall|a: int, b: int| 0 <= a < b < less.len() implies #[trigger] less[a].rank()
                < #[trigger] less[b].rank() by {
                assert(ids[a].rank() < ids[b].rank());
            }
            assert forall|a: int, b: int| 0 <= a < b < kept.len() implies #[trigger] kept[a].rank()
                < #[trigger] kept[b].rank() by {
                if b < earlier.len() {
                    assert(earlier[a].rank() < earlier[b].rank());
                } else {
                    assert(earlier.contains(earlier[a]));
                    assert(less.contains(earlier[a]));
                    let k = choose|k: int| 0 <= k < less.len() && less[k] == earlier[a];
                    assert(ids[k].rank() < ids[ids.len() - 1].rank());
                }
            }
        }
    }
}

proof fn lemma_known_windows(s: State)
    requires
        s.meta.dom().finite(),
    ensures
        forall|w: u32| #[trigger]
            s.known_windows().contains(w) <==> s.meta.dom().contains(w) && s.known_space(w) is Some,
{
    let ids = idmap::ids_of(s.meta.dom());
    idmap::lemma_listing_exists(s.meta.dom());
    let keep = |x: u32| s.known_space(x) is Some;
    lemma_kept_ids(ids, keep);
    assert(s.known_windows() == ids.filter(keep));
}

/// A rule that is applied has its effects on exactly the windows that it matches by
/// their application and title, their roles being unknown, each on the space that it
/// is known to be on.
pub proof fn law_rule_applies_where_it_matches(s: State, rule: Rule)
    requires
        s.meta.dom().finite(),
    ensures
        forall|i: int|
            0 <= i < s.rule_applications(rule).len() ==> {
                let a = #[trigger] s.rule_applications(rule)[i];
                &&& s.meta.dom().contains(a.window_id)
                &&& s.known_space(a.window_id) == Some(a.sid)
                &&& a.effects == rule.effects
                &&& rule.passes(
                    rules::Traits {
                        app: s.meta[a.window_id].app@,
                        title: s.meta[a.window_id].title@,
                        role: ""@,
                        subrole: ""@,
                    },
                )
            },
        forall|w: u32|
            #![trigger s.meta.dom().contains(w)]
            s.meta.dom().contains(w) && s.known_space(w) is Some && rule.passes(
                rules::Traits {
                    app: s.meta[w].app@,
                    title: s.meta[w].title@,
                    role: ""@,
                    subrole: ""@,
                },
            ) ==> exists|i: int|
                0 <= i < s.rule_applications(rule).len() && (#[trigger] s.rule_applications(
                    rule,
                )[i]).window_id == w,
{
    let effect = |t: rules::Traits| single(rule, t);
    lemma_known_windows(s);
    lemma_applications(s, effect, s.known_windows());
    assert forall|i: int| 0 <= i < s.rule_applications(rule).len() implies {
        let a = #[trigger] s.rule_applications(rule)[i];
        &&& s.meta.dom().contains(a.window_id)
        &&& s.known_space(a.window_id) == Some(a.sid)
        &&& a.effects == rule.effects
        &&& rule.passes(s.traits_of(a.window_id))
    } by {
        let a = s.applications(effect, s.known_windows())[i];
        assert(s.known_windows().contains(a.window_id));
        assert(single(rule, s.traits_of(a.window_id)) == Some(a.effects));
    }
    assert forall|w: u32|
        #![trigger s.meta.dom().contains(w)]
        s.meta.dom().contains(w) && s.known_space(w) is Some && rule.passes(
            s.traits_of(w),
        ) implies exists|i: int|
        0 <= i < s.rule_applications(rule).len() && (#[trigger] s.rule_applications(
            rule,
        )[i]).window_id == w by {
        assert(s.known_windows().contains(w));
        assert(effect(s.traits_of(w)) is Some);
    }
}

/// `rule --apply` without a rule has on each known window the effects of all rules
/// that match it, the one-shot ones aside, and touches no window that none matches.
pub proof fn law_all_rules_apply_together(s: State, apps: Seq<AppliedRuleEffects>)
    requires
        s.meta.dom().finite(),
        s.applied(RuleApply::All) == selectors::Resolved::Found(apps),
    ensures
        forall|i: int|
            0 <= i < apps.len() ==> {
                let a = #[trigger] apps[i];
                let w = rules::Traits {
                    app: s.meta[a.window_id].app@,
                    title: s.meta[a.window_id].title@,
                    role: ""@,
                    subrole: ""@,
                };
                &&& s.meta.dom().contains(a.window_id)
                &&& s.known_space(a.window_id) == Some(a.sid)
                &&& a.effects == rules::combined(s.rules, w, false)
                &&& exists|k: int|
                    0 <= k < s.rules.len() && !(#[trigger] s.rules[k]).one_shot
                        && s.rules[k].passes(w)
            },
        forall|w: u32, k: int|
            #![trigger s.meta.dom().contains(w), s.rules[k]]
            s.meta.dom().contains(w) && s.known_space(w) is Some && 0 <= k < s.rules.len()
                && !s.rules[k].one_shot && s.rules[k].passes(
                rules::Traits {
                    app: s.meta[w].app@,
                    title: s.meta[w].title@,
                    role: ""@,
                    subrole: ""@,
                },
            ) ==> exists|i: int| 0 <= i < apps.len() && (#[trigger] apps[i]).window_id == w,
{
    let effect = |t: rules::Traits| all_together(s.rules, t);
    lemma_known_windows(s);
    lemma_applications(s, effect, s.known_windows());
    assert(apps == s.applications(effect, s.known_windows()));
    assert forall|i: int| 0 <= i < apps.len() implies {
        let a = #[trigger] apps[i];
        let w = s.traits_of(a.window_id);
        &&& s.meta.dom().contains(a.window_id)
        &&& s.known_space(a.window_id) == Some(a.sid)
        &&& a.effects == rules::combined(s.rules, w, false)
        &&& exists|k: int|
            0 <= k < s.rules.len() && !(#[trigger] s.rules[k]).one_shot && s.rules[k].passes(w)
    } by {
        let a = apps[i];
        let w = s.traits_of(a.window_id);
        assert(s.known_windows().contains(a.window_id));
        assert(all_together(s.rules, w) == Some(a.effects));
        let k = choose|k: int|
            0 <= k < s.rules.len() && rules::takes_part(#[trigger] s.rules[k], w, false);
        assert(!s.rules[k].one_shot && s.rules[k].passes(w));
    }
    assert forall|w: u32, k: int|
        #![trigger s.meta.dom().contains(w), s.rules[k]]
        s.meta.dom().contains(w) && s.known_space(w) is Some && 0 <= k < s.rules.len()
            && !s.rules[k].one_shot && s.rules[k].passes(s.traits_of(w)) implies exists|i: int|
        0 <= i < apps.len() && (#[trigger] apps[i]).window_id == w by {
        assert(s.known_windows().contains(w));
        assert(rules::takes_part(s.rules[k], s.traits_of(w), false));
        assert(effect(s.traits_of(w)) is Some);
    }
}

/// `rule --apply` with a selector, or with a text that is some rule's label, applies
/// that rule, unless it is one-shot; with another text, the rule that it spells out.
pub proof fn law_apply_picks_its_rule(
    s: State,
    selector: Selector,
    label: String,
    parsed: Result<Rule, String>,
    i: int,
)
    requires
        0 <= i < s.rules.len(),
    ensures
        selected_rule(s.rules, Some(selector)) == selectors::Resolved::Found(i)
            && !s.rules[i].one_shot ==> s.applied(RuleApply::Selector(selector))
            == selectors::Resolved::Found(s.rule_applications(s.rules[i])),
        selected_rule(s.rules, Some(selector)) == selectors::Resolved::Found(i)
            && s.rules[i].one_shot ==> s.applied(RuleApply::Selector(selector))
            == selectors::Resolved::Found(Seq::<AppliedRuleEffects>::empty()),
        selected_rule(s.rules, Some(Selector::Label(label))) == selectors::Resolved::Found(i)
            ==> s.applied(RuleApply::AdHoc { label, parsed }) == s.applied(
            RuleApply::Selector(Selector::Label(label)),
        ),
        selected_rule(s.rules, Some(Selector::Label(label))) is Failed ==> {
            &&& parsed matches Err(e) ==> s.applied(RuleApply::AdHoc { label, parsed })
                == selectors::Resolved::<Seq<AppliedRuleEffects>>::Failed(e@)
            &&& parsed matches Ok(rule) ==> rule.compiles() ==> s.applied(
                RuleApply::AdHoc { label, parsed },
            ) == selectors::Resolved::Found(s.rule_applications(rule))
            &&& parsed matches Ok(rule) ==> !rule.compiles() ==> s.applied(
                RuleApply::AdHoc { label, parsed },
            ) == selectors::Resolved::<Seq<AppliedRuleEffects>>::Failed(rule.complaint())
        },
{
}

/// What effects do to a window: one to be managed is tiled on its space if it
/// floated, one not to be managed floats and is in no layout, and without a word on
/// it nothing moves. Nothing else of a rule touches the layouts.
pub proof fn law_effects_on_tiling(s: State, window_id: u32, sid: u64, effects: RuleEffects)
    requires
        s.tiling.wf(),
        effects.scratchpad is None,
    ensures
        effects.manage is None ==> s.with_effects(window_id, sid, effects) == s,
        effects.manage == Some(true) && !s.tiling.floating.contains(window_id) ==> s.with_effects(
            window_id,
            sid,
            effects,
        ) == s,
        effects.manage == Some(true) && s.tiling.floating.contains(window_id)
            && !s.tiling.sticky.contains(window_id) && s.tiling.spaces.dom().contains(sid) ==> {
            let t = s.with_effects(window_id, sid, effects);
            &&& !t.tiling.floating.contains(window_id)
            &&& t.tiling.spaces[sid].windows.contains(window_id)
        },
        effects.manage == Some(false) ==> {
            let t = s.with_effects(window_id, sid, effects);
            &&& t.tiling.floating.contains(window_id)
            &&& forall|k: u64|
                t.tiling.spaces.dom().contains(k) ==> !(
                #[trigger] t.tiling.spaces[k]).windows.contains(window_id)
        },
        s.with_effects(window_id, sid, effects).scratchpads == s.scratchpads,
{
    if effects.manage == Some(false) {
        s.tiling.lemma_untiled(window_id);
        let bare = s.tiling.untiled(window_id);
        let t = s.with_effects(window_id, sid, effects);
        assert forall|k: u64| t.tiling.spaces.dom().contains(k) implies !(
        #[trigger] t.tiling.spaces[k]).windows.contains(window_id) by {
            assert(!bare.tiles(k, window_id));
        }
    }
    if effects.manage == Some(true) && s.tiling.floating.contains(window_id)
        && !s.tiling.sticky.contains(window_id) && s.tiling.spaces.dom().contains(sid) {
        let loose = s.tiling.unmarked(window_id);
        assert(loose.wf()) by {
            assert forall|k: u64, w: u32| #[trigger] loose.tiles(k, w) implies !loose.exempt(w) by {
                assert(s.tiling.tiles(k, w));
            }
            assert forall|a: u64, b: u64, w: u32| #[trigger]
                loose.tiles(a, w) && #[trigger] loose.tiles(b, w) implies a == b by {
                assert(s.tiling.tiles(a, w) && s.tiling.tiles(b, w));
            }
            assert forall|k: u64| #[trigger]
                loose.spaces.dom().contains(k) implies loose.spaces[k].windows.no_duplicates() by {
                assert(s.tiling.spaces.dom().contains(k));
            }
        }
        tiling::law_assigned_window_is_tiled_there(loose, window_id, sid);
        assert(loose.assigned(window_id, sid).tiles(sid, window_id));
    }
}

/// A scratchpad label goes to the window, which floats, unless another window has it.
pub proof fn law_effects_on_scratchpads(
    s: State,
    window_id: u32,
    sid: u64,
    effects: RuleEffects,
    other: u32,
)
    requires
        s.tiling.wf(),
        effects.manage is None,
        effects.scratchpad is Some,
    ensures
        other != window_id && s.scratchpads.dom().contains(other) && s.scratchpads[other]
            == effects.scratchpad->0@ ==> s.with_effects(window_id, sid, effects) == s,
        (forall|k: u32|
            k != window_id && s.scratchpads.dom().contains(k) ==> #[trigger] s.scratchpads[k]
                != effects.scratchpad->0@) ==> {
            let t = s.with_effects(window_id, sid, effects);
            &&& t.scratchpads == s.scratchpads.insert(window_id, effects.scratchpad->0@)
            &&& t.tiling.floating.contains(window_id)
            &&& forall|k: u64|
                t.tiling.spaces.dom().contains(k) ==> !(
                #[trigger] t.tiling.spaces[k]).windows.contains(window_id)
        },
{
    let label = effects.scratchpad->0@;
    if other != window_id && s.scratchpads.dom().contains(other) && s.scratchpads[other] == label {
        assert(labels::owns(s.scratchpads, other, label));
    }
    s.tiling.lemma_untiled(window_id);
    let bare = s.tiling.untiled(window_id);
    let t = s.with_effects(window_id, sid, effects);
    if !s.scratchpad_taken(window_id, label) {
        assert forall|k: u64| t.tiling.spaces.dom().contains(k) implies !(
        #[trigger] t.tiling.spaces[k]).windows.contains(window_id) by {
            assert(!bare.tiles(k, window_id));
        }
    }
}

/// A newly found window gets the combined effects of all rules, one-shot ones too,
/// and spends the one-shot rules that match it.
pub proof fn law_new_window_goes_through_the_rules(
    s: State,
    window_id: u32,
    sid: u64,
    traits: rules::Traits,
)
    ensures
        ({
            let t = s.with_new_window(window_id, sid, traits);
            &&& t.rules == rules::unspent(s.rules, traits)
            &&& t == (State {
                rules: t.rules,
                ..s.with_effects(window_id, sid, rules::combined(s.rules, traits, true))
            })
        }),
{
    let effects = rules::combined(s.rules, traits, true);
    let fewer = State { rules: rules::unspent(s.rules, traits), ..s };
    if effects.scratchpad is Some {
        let label = effects.scratchpad->0@;
        assert(fewer.scratchpad_taken(window_id, label) == s.scratchpad_taken(window_id, label));
    }
}

/// A rule command changes the rules alone: one added comes last, one removed leaves,
/// a refused one changes nothing, and a listing changes nothing.
pub proof fn law_rule_commands(s: State, rule: Rule, selector: Option<Selector>, i: int)
    ensures
        rule.compiles() && rule.label is None ==> s.after_rule(RuleCommand::Add(rule)) == (
            State { rules: s.rules.push(rule), ..s },
            selectors::Resolved::Found(None::<Seq<char>>),
        ),
        rule.compiles() && rule.label is Some ==> {
            let (t, r) = s.after_rule(RuleCommand::Add(rule));
            &&& r == selectors::Resolved::Found(None::<Seq<char>>)
            &&& t == (State { rules: t.rules, ..s })
            &&& t.rules.len() > 0
            &&& t.rules.last() == rule
        },
        !rule.compiles() ==> s.after_rule(RuleCommand::Add(rule)) == (
            s,
            selectors::Resolved::<Option<Seq<char>>>::Failed(rule.complaint()),
        ),
        selected_rule(s.rules, selector) == selectors::Resolved::Found(i) ==> s.after_rule(
            RuleCommand::Remove(selector),
        ) == (
            State { rules: s.rules.remove(i), ..s },
            selectors::Resolved::Found(None::<Seq<char>>),
        ),
        selected_rule(s.rules, selector) matches selectors::Resolved::Failed(e) ==> (s.after_rule(
            RuleCommand::Remove(selector),
        ) == (s, selectors::Resolved::<Option<Seq<char>>>::Failed(e))),
        s.after_rule(RuleCommand::List).0 == s,
{
    rules::law_new_rule_comes_last(s.rules, rule, rule);
}

/// A signal command changes the signals alone: one added comes last, one removed
/// leaves, a refused one changes nothing, and a listing changes nothing.
pub proof fn law_signal_commands(s: State, signal: Signal, selector: Option<Selector>, i: int)
    ensures
        signal.compiles() && signal.label is None ==> s.after_signal(SignalCommand::Add(signal))
            == (
            State { signals: s.signals.push(signal), ..s },
            selectors::Resolved::Found(None::<Seq<char>>),
        ),
        signal.compiles() && signal.label is Some ==> {
            let (t, r) = s.after_signal(SignalCommand::Add(signal));
            &&& r == selectors::Resolved::Found(None::<Seq<char>>)
            &&& t == (State { signals: t.signals, ..s })
            &&& t.signals.len() > 0
            &&& t.signals.last() == signal
        },
        !signal.compiles() ==> s.after_signal(SignalCommand::Add(signal)) == (
            s,
            selectors::Resolved::<Option<Seq<char>>>::Failed(signal.complaint()),
        ),
        signals::selected(s.signals, selector) == Some(i) ==> s.after_signal(
            SignalCommand::Remove(selector),
        ) == (
            State { signals: s.signals.remove(i), ..s },
            selectors::Resolved::Found(None::<Seq<char>>),
        ),
        signals::selected(s.signals, selector) is None ==> s.after_signal(
            SignalCommand::Remove(selector),
        ).0 == s && s.after_signal(SignalCommand::Remove(selector)).1 is Failed,
        s.after_signal(SignalCommand::List).0 == s,
{
    signals::law_new_signal_comes_last(s.signals, signal, signal);
}

} // verus!
