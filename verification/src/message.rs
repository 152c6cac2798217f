//! Messages of clients: what each one does, and what is answered.
use vstd::prelude::*;

use crate::config::ConfigOp;
use crate::dispatch;
use crate::dispatch::{DisplayAction, SpaceAction, WindowAction, WindowStop};
use crate::query::QueryCommand;
use crate::registry;
use crate::registry::{RuleCommand, SignalCommand};
use crate::selectors;
use crate::state;
use crate::state::{AppState, State};
use crate::tiling::LayoutOp;
use crate::types::Selector;

verus! {

/// A message of a client.
#[allow(inconsistent_fields)]
#[derive(Debug)]
pub enum Message {
    Config(Vec<ConfigOp>),
    Window { target: Option<Selector>, actions: Vec<WindowAction> },
    Space { target: Option<Selector>, actions: Vec<SpaceAction> },
    Display { target: Option<Selector>, actions: Vec<DisplayAction> },
    Query(QueryCommand),
    Rule(RuleCommand),
    Signal(SignalCommand),
}

/// How far a message got.
#[derive(Debug)]
pub enum Progress {
    /// It is done, with the answer for the client.
    Done(Result<Option<String>, String>),
    /// The layout engine has to answer for an operation before the actions from
    /// position `next` on are carried out.
    Ask { op: LayoutOp, actions: Vec<WindowAction>, next: usize },
    /// The layout engine has to perform the pending operations before the
    /// actions from position `next` on are carried out.
    Wait { actions: Vec<WindowAction>, next: usize },
    /// A relative change of a gap or a padding would go out of range.
    OutOfRange,
}

/// What is due at the end of a message, or where it stops.
pub ghost enum Due {
    Done(selectors::Resolved<Option<Seq<char>>>),
    Ask { op: LayoutOp, next: int },
    Wait { next: int },
    OutOfRange,
}

/// Whether the progress of a message is what is due.
pub open spec fn is_due(progress: Progress, due: Due, actions: Seq<WindowAction>) -> bool {
    match due {
        Due::Done(answer) => progress matches Progress::Done(r) && registry::is_reply(r, answer),
        Due::Ask { op, next } => progress matches Progress::Ask { op: o, actions: a, next: n } && o
            == op && a@ == actions && n == next,
        Due::Wait { next } => progress matches Progress::Wait { actions: a, next: n } && a@
            == actions && n == next,
        Due::OutOfRange => progress is OutOfRange,
    }
}

/// An answer without a text.
pub open spec fn silent(outcome: selectors::Resolved<()>) -> selectors::Resolved<
    Option<Seq<char>>,
> {
    match outcome {
        selectors::Resolved::Found(_) => selectors::Resolved::Found(None),
        selectors::Resolved::Failed(e) => selectors::Resolved::Failed(e),
    }
}

/// The window actions of a message.
pub open spec fn window_actions(message: Message) -> Seq<WindowAction> {
    match message {
        Message::Window { actions, .. } => actions@,
        _ => Seq::empty(),
    }
}

/// Whether the values that a message sets are ones that it can.
pub open spec fn message_ok(message: Message) -> bool {
    match message {
        Message::Config(ops) => forall|i: int|
            0 <= i < ops@.len() ==> state::config_op_ok(#[trigger] ops@[i]),
        _ => true,
    }
}

/// What came of an operation that the layout engine answered for.
pub open spec fn settled(op: LayoutOp, accepted: bool) -> selectors::Resolved<()> {
    if accepted {
        selectors::Resolved::Found(())
    } else {
        match op {
            LayoutOp::Resize { .. } => selectors::Resolved::Failed(
                "cannot locate a bsp node fence.\n"@,
            ),
            LayoutOp::Ratio { .. } => selectors::Resolved::Failed(
                "cannot adjust ratio of a root node."@,
            ),
            _ => selectors::Resolved::Found(()),
        }
    }
}

impl State {
    /// The state after the actions of a `window` command from a position on,
    /// and where it stops.
    pub open spec fn going_on(self, actions: Seq<WindowAction>, i: int) -> (State, Due) {
        let (s, next, outcome) = self.after_window_actions(actions, i);
        (
            s,
            match outcome {
                selectors::Resolved::Found(WindowStop::Done) => Due::Done(
                    selectors::Resolved::Found(None),
                ),
                selectors::Resolved::Found(WindowStop::Ask(op)) => Due::Ask { op, next },
                selectors::Resolved::Found(WindowStop::Wait) => Due::Wait { next },
                selectors::Resolved::Failed(e) => Due::Done(selectors::Resolved::Failed(e)),
            },
        )
    }

    /// The state after a message, and what is due.
    pub open spec fn after_message(self, message: Message) -> (State, Due) {
        match message {
            Message::Config(ops) => {
                let (s, answer) = self.after_config(ops@);
                (s, Due::Done(answer))
            },
            Message::Window { target, actions } => {
                let (s, outcome) = self.after_focus(target);
                match outcome {
                    selectors::Resolved::Found(_) => s.going_on(actions@, 0),
                    selectors::Resolved::Failed(e) => (
                        s,
                        Due::Done(selectors::Resolved::Failed(e)),
                    ),
                }
            },
            Message::Space { target, actions } => {
                let (s, outcome) = self.after_space_actions(target, actions@, 0);
                (
                    s,
                    match outcome {
                        None => Due::OutOfRange,
                        Some(end) => Due::Done(silent(end)),
                    },
                )
            },
            Message::Display { target, actions } => {
                let (s, outcome) = self.after_display_actions(target, actions@, 0);
                (s, Due::Done(silent(outcome)))
            },
            Message::Query(cmd) => (
                self,
                Due::Done(
                    match self.answer(cmd) {
                        selectors::Resolved::Found(output) => selectors::Resolved::Found(
                            Some(output),
                        ),
                        selectors::Resolved::Failed(e) => selectors::Resolved::Failed(e),
                    },
                ),
            ),
            Message::Rule(cmd) => {
                let (s, answer) = self.after_rule(cmd);
                (s, Due::Done(answer))
            },
            Message::Signal(cmd) => {
                let (s, answer) = self.after_signal(cmd);
                (s, Due::Done(answer))
            },
        }
    }
}

fn without_text(outcome: Result<(), String>) -> (r: Result<Option<String>, String>)
    ensures
        outcome is Ok ==> r == Ok::<Option<String>, String>(None),
        outcome is Err ==> r is Err && r->Err_0@ == outcome->Err_0@,
{
    match outcome {
        Ok(()) => Ok(None),
        Err(error) => Err(error),
    }
}

impl AppState {
    /// Carry out the actions of a `window` command from a position on.
    pub fn proceed(&mut self, actions: Vec<WindowAction>, start: usize) -> (r: Progress)
        requires
            old(self).wf(),
            start <= actions@.len(),
        ensures
            final(self).wf(),
            final(self)@ == old(self)@.going_on(actions@, start as int).0,
            is_due(r, old(self)@.going_on(actions@, start as int).1, actions@),
    {
        let (next, outcome) = self.dispatch_window(&actions, start);
        match outcome {
            Ok(WindowStop::Done) => Progress::Done(Ok(None)),
            Ok(WindowStop::Ask(op)) => Progress::Ask { op, actions, next },
            Ok(WindowStop::Wait) => Progress::Wait { actions, next },
            Err(error) => Progress::Done(Err(error)),
        }
    }

    /// Carry out a message, as far as it goes without an answer of the layout
    /// engine.
    pub fn dispatch(&mut self, message: Message) -> (r: Progress)
        requires
            old(self).wf(),
            message_ok(message),
        ensures
            final(self).wf(),
            final(self)@ == old(self)@.after_message(message).0,
            is_due(r, old(self)@.after_message(message).1, window_actions(message)),
    {
        match message {
            Message::Config(ops) => Progress::Done(self.dispatch_config(&ops)),
            Message::Window { target, actions } => match self.window_target(&target) {
                Ok(()) => self.proceed(actions, 0),
                Err(error) => Progress::Done(Err(error)),
            },
            Message::Space { target, actions } => match self.dispatch_space(&target, &actions) {
                None => Progress::OutOfRange,
                Some(outcome) => Progress::Done(without_text(outcome)),
            },
            Message::Display { target, actions } => Progress::Done(
                without_text(self.dispatch_display(&target, &actions)),
            ),
            Message::Query(cmd) => Progress::Done(
                match self.dispatch_query(&cmd) {
                    Ok(output) => Ok(Some(output)),
                    Err(error) => Err(error),
                },
            ),
            Message::Rule(cmd) => Progress::Done(self.dispatch_rule(cmd)),
            Message::Signal(cmd) => Progress::Done(self.dispatch_signal(cmd)),
        }
    }

    /// Go on with a `window` command once the layout engine has answered for an
    /// operation.
    pub fn resume(
        &mut self,
        op: &LayoutOp,
        accepted: bool,
        actions: Vec<WindowAction>,
        next: usize,
    ) -> (r: Progress)
        requires
            old(self).wf(),
            next <= actions@.len(),
        ensures
            final(self).wf(),
            match settled(*op, accepted) {
                selectors::Resolved::Failed(e) => {
                    &&& final(self)@ == old(self)@
                    &&& r matches Progress::Done(Err(error))
                    &&& error@ == e
                },
                selectors::Resolved::Found(_) => final(self)@ == old(self)@.going_on(
                    actions@,
                    next as int,
                ).0 && is_due(r, old(self)@.going_on(actions@, next as int).1, actions@),
            },
    {
        match dispatch::settle(op, accepted) {
            Ok(()) => self.proceed(actions, next),
            Err(error) => Progress::Done(Err(error)),
        }
    }
}

/// A query and a listing leave the state as it is.
pub proof fn law_reading_changes_nothing(s: State, message: Message)
    requires
        match message {
            Message::Query(_) => true,
            Message::Rule(RuleCommand::List) => true,
            Message::Signal(SignalCommand::List) => true,
            _ => false,
        },
    ensures
        s.after_message(message).0 == s,
{
}

/// A `rule` or `signal` command that is answered with a complaint leaves the
/// state as it was.
pub proof fn law_refused_registration_changes_nothing(s: State, message: Message)
    requires
        message is Rule || message is Signal,
        s.after_message(message).1 matches Due::Done(selectors::Resolved::Failed(_)),
    ensures
        s.after_message(message).0 == s,
{
}

/// A message without a target and with one window action does what that action
/// does, and is answered accordingly.
pub proof fn law_one_window_action(s: State, actions: Vec<WindowAction>)
    requires
        actions@.len() == 1,
    ensures
        ({
            let (t, outcome) = s.after_window_action(actions@[0]);
            let (u, due) = s.after_message(Message::Window { target: None, actions });
            &&& u == t
            &&& outcome == selectors::Resolved::Found(None::<LayoutOp>) ==> due == Due::Done(
                selectors::Resolved::Found(None),
            )
            &&& outcome matches selectors::Resolved::Found(Some(op)) ==> (due == Due::Ask {
                op,
                next: 1,
            })
            &&& outcome matches selectors::Resolved::Failed(e) ==> (due == Due::Done(
                selectors::Resolved::Failed(e),
            ))
        }),
{
    dispatch::law_window_actions_in_order(s, actions@, 0);
}

/// The target of a `window` command gets the focus before the actions are carried
/// out; one that names no window ends the command.
pub proof fn law_window_target_gets_the_focus(
    s: State,
    selector: Selector,
    actions: Vec<WindowAction>,
    w: u32,
)
    ensures
        s.selected_window(selector) == selectors::Resolved::Found(w) ==> s.after_message(
            Message::Window { target: Some(selector), actions },
        ) == s.after_window_action(WindowAction::Focus(Some(selector))).0.after_message(
            Message::Window { target: None, actions },
        ),
        s.selected_window(selector) == selectors::Resolved::Found(w) ==> s.after_window_action(
            WindowAction::Focus(Some(selector)),
        ).0.tiling.focused_window == Some(w),
        s.selected_window(selector) matches selectors::Resolved::Failed(e) ==> (s.after_message(
            Message::Window { target: Some(selector), actions },
        ) == (s, Due::Done(selectors::Resolved::Failed(e)))),
{
}

/// A message with one space or display action does what that action does, and is
/// answered accordingly.
pub proof fn law_one_space_or_display_action(
    s: State,
    target: Option<Selector>,
    actions: Vec<SpaceAction>,
    shown: Vec<DisplayAction>,
)
    requires
        actions@.len() == 1,
        shown@.len() == 1,
    ensures
        s.space_action_fits(target, actions@[0]) ==> {
            let (t, outcome) = s.after_space_action(target, actions@[0]);
            let (u, due) = s.after_message(Message::Space { target, actions });
            &&& u == t
            &&& outcome is Found ==> due == Due::Done(selectors::Resolved::Found(None))
            &&& outcome matches selectors::Resolved::Failed(e) ==> (due == Due::Done(
                selectors::Resolved::Failed(e),
            ))
        },
        !s.space_action_fits(target, actions@[0]) ==> s.after_message(
            Message::Space { target, actions },
        ) == (s, Due::OutOfRange),
        ({
            let (t, outcome) = s.after_display_action(target, shown@[0]);
            let (u, due) = s.after_message(Message::Display { target, actions: shown });
            &&& u == t
            &&& outcome is Found ==> due == Due::Done(selectors::Resolved::Found(None))
            &&& outcome matches selectors::Resolved::Failed(e) ==> (due == Due::Done(
                selectors::Resolved::Failed(e),
            ))
        }),
{
    let (t, outcome) = s.after_space_action(target, actions@[0]);
    dispatch::law_space_and_display_actions_in_order(s, target, actions@, shown@, 0);
    dispatch::law_space_and_display_actions_in_order(t, target, actions@, shown@, 1);
    let (v, end) = s.after_display_action(target, shown@[0]);
    dispatch::law_space_and_display_actions_in_order(v, target, actions@, shown@, 1);
}

/// Queries, rules, signals and settings are answered by what each of them says.
pub proof fn law_other_messages(
    s: State,
    query: QueryCommand,
    rule: RuleCommand,
    signal: SignalCommand,
    ops: Vec<ConfigOp>,
)
    ensures
        s.answer(query) matches selectors::Resolved::Found(output) ==> (s.after_message(
            Message::Query(query),
        ) == (s, Due::Done(selectors::Resolved::Found(Some(output))))),
        s.answer(query) matches selectors::Resolved::Failed(e) ==> (s.after_message(
            Message::Query(query),
        ) == (s, Due::Done(selectors::Resolved::Failed(e)))),
        s.after_message(Message::Rule(rule)) == (
            s.after_rule(rule).0,
            Due::Done(s.after_rule(rule).1),
        ),
        s.after_message(Message::Signal(signal)) == (
            s.after_signal(signal).0,
            Due::Done(s.after_signal(signal).1),
        ),
        s.after_message(Message::Config(ops)) == (
            s.after_config(ops@).0,
            Due::Done(s.after_config(ops@).1),
        ),
{
}

/// A resize or a ratio that the layout engine turns down ends the command with a
/// complaint of its own; what it accepts goes on.
pub proof fn law_what_the_engine_turns_down(op: LayoutOp, accepted: bool)
    ensures
        accepted ==> settled(op, accepted) is Found,
        !accepted && op is Resize ==> settled(op, accepted) == selectors::Resolved::<()>::Failed(
            "cannot locate a bsp node fence.\n"@,
        ),
        !accepted && op is Ratio ==> settled(op, accepted) == selectors::Resolved::<()>::Failed(
            "cannot adjust ratio of a root node."@,
        ),
{
}

} // verus!
