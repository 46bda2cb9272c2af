use vstd::prelude::*;

use crate::distance::{Centimeters, feet_text};
use crate::run::RunResult;
use crate::text::push_str;

verus! {

/// The ticket a session acts on.
#[derive(Clone, Debug, PartialEq, Eq)]
pub struct Ticket {
    pub key: String,
    pub summary: String,
    pub labels: Vec<String>,
}

/// When a result closes the ticket, and the status that closes it.
#[derive(Clone, Debug, PartialEq, Eq)]
pub struct Rules {
    pub close_at: Centimeters,
    pub done_status: String,
}

/// How an attempt is judged.
#[derive(Clone, Copy, Debug, PartialEq, Eq, Structural)]
pub enum Outcome {
    HomeRun,
    Bunt,
}

/// A home run reaches the threshold; the threshold itself counts.
pub open spec fn spec_outcome(distance: Centimeters, close_at: Centimeters) -> Outcome {
    if distance.0 >= close_at.0 { Outcome::HomeRun } else { Outcome::Bunt }
}

impl Outcome {
    pub fn of(result: &RunResult, rules: &Rules) -> (o: Outcome)
        ensures
            o == spec_outcome(result.distance, rules.close_at),
    {
        if result.distance.0 >= rules.close_at.0 {
            Outcome::HomeRun
        } else {
            Outcome::Bunt
        }
    }
}

/// A write to Jira.
#[derive(Clone, Debug, PartialEq, Eq)]
pub enum Action {
    Comment { key: String, body: String },
    Transition { key: String, to: String },
}

#[allow(inconsistent_fields)]
pub enum ActionView {
    Comment { key: Seq<char>, body: Seq<char> },
    Transition { key: Seq<char>, to: Seq<char> },
}

impl View for Action {
    type V = ActionView;

    open spec fn view(&self) -> ActionView {
        match self {
            Action::Comment { key, body } => ActionView::Comment { key: key@, body: body@ },
            Action::Transition { key, to } => ActionView::Transition { key: key@, to: to@ },
        }
    }
}

/// The views of a list of actions.
pub open spec fn actions_view(v: Seq<Action>) -> Seq<ActionView> {
    Seq::new(v.len(), |i: int| v[i]@)
}

/// The call an action stands for, in words.
pub open spec fn action_text(a: ActionView) -> Seq<char> {
    match a {
        ActionView::Comment { key, body } => "comment on "@ + key + ": "@ + body,
        ActionView::Transition { key, to } => "transition "@ + key + " to "@ + to,
    }
}

impl Action {
    pub fn describe(&self) -> (s: String)
        ensures
            s@ == action_text(self@),
    {
        let mut s = String::new();
        match self {
            Action::Comment { key, body } => {
                push_str(&mut s, "comment on ");
                push_str(&mut s, key.as_str());
                push_str(&mut s, ": ");
                push_str(&mut s, body.as_str());
            },
            Action::Transition { key, to } => {
                push_str(&mut s, "transition ");
                push_str(&mut s, key.as_str());
                push_str(&mut s, " to ");
                push_str(&mut s, to.as_str());
            },
        }
        assert(s@ =~= action_text(self@));
        s
    }
}

/// A distance as the ticket is told it: the feet the game shows and, in
/// brackets, the meters written by the caller to one decimal.
pub open spec fn distance_text(cm: Centimeters, meters: Seq<char>) -> Seq<char> {
    feet_text(cm.0 as int) + " ft ("@ + meters + " m)"@
}

/// What a result does to the ticket: a home run is praised in a comment and
/// then closes the ticket with the done status; a bunt only gets a comment
/// that says how far short it fell.
pub open spec fn spec_plan(
    key: Seq<char>,
    result: RunResult,
    close_at: Centimeters,
    done_status: Seq<char>,
    result_meters: Seq<char>,
    close_meters: Seq<char>,
) -> Seq<ActionView> {
    let batter = result.batter.spec_name();
    match spec_outcome(result.distance, close_at) {
        Outcome::HomeRun => seq![
            ActionView::Comment {
                key,
                body: "Closed by a "@ + distance_text(result.distance, result_meters) + " home run from "@ + batter
                    + " in Home Run Contest. Posted by melee-sidecar."@,
            },
            ActionView::Transition { key, to: done_status },
        ],
        Outcome::Bunt => seq![
            ActionView::Comment {
                key,
                body: batter + " only sent this "@ + distance_text(result.distance, result_meters)
                    + ", short of the "@ + distance_text(close_at, close_meters)
                    + " needed to close it. Needs more info. Posted by melee-sidecar."@,
            },
        ],
    }
}

fn push_distance(out: &mut String, cm: Centimeters, meters: &str)
    ensures
        final(out)@ == old(out)@ + distance_text(cm, meters@),
{
    let feet = cm.feet_as_displayed();
    push_str(out, feet.as_str());
    push_str(out, " ft (");
    push_str(out, meters);
    push_str(out, " m)");
    assert(out@ =~= old(out)@ + distance_text(cm, meters@));
}

/// The writes a result calls for. The meters of the result and of the
/// threshold come written to one decimal by the caller.
pub fn plan(ticket: &Ticket, result: &RunResult, rules: &Rules, result_meters: &str, close_meters: &str) -> (actions: Vec<Action>)
    ensures
        actions_view(actions@) == spec_plan(
            ticket.key@,
            *result,
            rules.close_at,
            rules.done_status@,
            result_meters@,
            close_meters@,
        ),
{
    let batter = result.batter.name();
    let mut actions: Vec<Action> = Vec::new();
    match Outcome::of(result, rules) {
        Outcome::HomeRun => {
            let mut body = String::new();
            push_str(&mut body, "Closed by a ");
            push_distance(&mut body, result.distance, result_meters);
            push_str(&mut body, " home run from ");
            push_str(&mut body, batter);
            push_str(&mut body, " in Home Run Contest. Posted by melee-sidecar.");
            actions.push(Action::Comment { key: ticket.key.clone(), body });
            actions.push(Action::Transition { key: ticket.key.clone(), to: rules.done_status.clone() });
        },
        Outcome::Bunt => {
            let mut body = String::new();
            push_str(&mut body, batter);
            push_str(&mut body, " only sent this ");
            push_distance(&mut body, result.distance, result_meters);
            push_str(&mut body, ", short of the ");
            push_distance(&mut body, rules.close_at, close_meters);
            push_str(&mut body, " needed to close it. Needs more info. Posted by melee-sidecar.");
            actions.push(Action::Comment { key: ticket.key.clone(), body });
        },
    }
    assert(actions_view(actions@) =~= spec_plan(
        ticket.key@,
        *result,
        rules.close_at,
        rules.done_status@,
        result_meters@,
        close_meters@,
    ));
    actions
}

/// Only a home run closes a ticket, and a ticket is always told first: every
/// plan opens with a comment on the ticket, and it ends in a transition to the
/// done status exactly when the result reaches the threshold.
pub proof fn only_a_home_run_closes(
    key: Seq<char>,
    result: RunResult,
    close_at: Centimeters,
    done_status: Seq<char>,
    result_meters: Seq<char>,
    close_meters: Seq<char>,
)
    ensures
        ({
            let p = spec_plan(key, result, close_at, done_status, result_meters, close_meters);
            &&& p.len() >= 1
            &&& p[0] matches ActionView::Comment { key: k, .. } && k == key
            &&& (p.last() is Transition) <==> result.distance.0 >= close_at.0
            &&& p.last() is Transition ==> p.last() == (ActionView::Transition { key, to: done_status })
        }),
{
}

} // verus!
