use vstd::prelude::*;

use crate::capture::views_of;
use crate::error::Error;
use crate::plan::{Action, ActionView, Ticket};
use crate::scope::Label;
use crate::text::{chars_of, chars_eq_ignore_case, eq_ignore_case, push_str, str_eq, trim, trim_of};

verus! {

/// Whether writes reach Jira or are only printed.
#[derive(Clone, Copy, Debug, PartialEq, Eq, Structural)]
pub enum Mode {
    DryRun,
    Live,
}

/// One row of a Jira search, as read from its JSON: the key, the summary and
/// the labels (none when the row has no label field).
#[derive(Clone, Debug, PartialEq, Eq)]
pub struct Row {
    pub key: String,
    pub summary: String,
    pub labels: Vec<String>,
}

/// Whether `labels` holds `label` exactly.
pub open spec fn carries(labels: Seq<Seq<char>>, label: Seq<char>) -> bool {
    exists|i: int| 0 <= i < labels.len() && labels[i] == label
}

/// The ticket a search row stands for, refused unless it carries the label
/// the scope names, compared exactly.
pub fn ticket_from_row(row: Row, label: &Label) -> (r: Result<Ticket, Error>)
    ensures
        r is Ok <==> carries(views_of(row.labels@), label@),
        r matches Ok(t) ==> t.key@ == row.key@ && t.summary@ == row.summary@
            && views_of(t.labels@) == views_of(row.labels@),
        r matches Err(e) ==> (e matches Error::LabelMissing { key, label: l } && key@ == row.key@ && l@ == label@),
{
    let mut found = false;
    let mut i: usize = 0;
    while i < row.labels.len()
        invariant
            i <= row.labels@.len(),
            found <==> exists|j: int| 0 <= j < i && views_of(row.labels@)[j] == label@,
        decreases row.labels@.len() - i,
    {
        assert(views_of(row.labels@)[i as int] == row.labels@[i as int]@);
        if str_eq(row.labels[i].as_str(), label.as_str()) {
            found = true;
        }
        i += 1;
    }
    if !found {
        return Err(Error::LabelMissing { key: row.key, label: label.as_str().to_owned() });
    }
    Ok(Ticket { key: row.key, summary: row.summary, labels: row.labels })
}

/// The views of a list of (id, name) pairs.
pub open spec fn pairs_view(v: Seq<(String, String)>) -> Seq<(Seq<char>, Seq<char>)> {
    Seq::new(v.len(), |i: int| (v[i].0@, v[i].1@))
}

/// The names of a list of (id, name) pairs.
pub open spec fn names_of(v: Seq<(String, String)>) -> Seq<Seq<char>> {
    Seq::new(v.len(), |i: int| v[i].1@)
}

/// The first transition from `i` on whose name matches `wanted` without regard
/// to ASCII case.
pub open spec fn first_transition(available: Seq<(Seq<char>, Seq<char>)>, wanted: Seq<char>, i: int) -> Option<int>
    decreases available.len() - i,
{
    if i < 0 || i >= available.len() {
        None
    } else if eq_ignore_case(available[i].1, wanted) {
        Some(i)
    } else {
        first_transition(available, wanted, i + 1)
    }
}

/// The id of the first available transition named `wanted` (white space
/// trimmed, ASCII case ignored); without one, an error that lists the names
/// there are.
pub fn resolve_transition<'a>(key: &str, available: &'a [(String, String)], wanted: &str) -> (r: Result<&'a str, Error>)
    ensures
        r matches Ok(id) ==> (first_transition(pairs_view(available@), trim(wanted@), 0) matches Some(i)
            && id@ == available@[i].0@),
        r is Err ==> first_transition(pairs_view(available@), trim(wanted@), 0) is None,
        r matches Err(e) ==> (e matches Error::NoTransition { key: k, wanted: w, available: names }
            && k@ == key@ && w@ == wanted@ && views_of(names@) == names_of(available@)),
{
    let ghost av = pairs_view(available@);
    let wanted_chars = chars_of(wanted);
    let target = trim_of(wanted_chars.as_slice());
    let mut i: usize = 0;
    while i < available.len()
        invariant
            i <= available@.len(),
            av == pairs_view(available@),
            target@ == trim(wanted@),
            first_transition(av, target@, i as int) == first_transition(av, target@, 0),
        decreases available@.len() - i,
    {
        let name = chars_of(available[i].1.as_str());
        if chars_eq_ignore_case(name.as_slice(), target.as_slice()) {
            return Ok(available[i].0.as_str());
        }
        i += 1;
    }
    let mut names: Vec<String> = Vec::new();
    let mut j: usize = 0;
    while j < available.len()
        invariant
            j <= available@.len(),
            views_of(names@) == names_of(available@.take(j as int)),
        decreases available@.len() - j,
    {
        let ghost before = names@;
        let name = available[j].1.clone();
        assert(name@ == available@[j as int].1@);
        names.push(name);
        assert(views_of(names@) =~= views_of(before).push(available@[j as int].1@));
        assert(names_of(available@.take(j + 1)) =~= names_of(available@.take(j as int)).push(available@[j as int].1@));
        j += 1;
        assert(views_of(names@) =~= names_of(available@.take(j as int)));
    }
    assert(available@.take(available@.len() as int) =~= available@);
    Err(Error::NoTransition { key: key.to_owned(), wanted: wanted.to_owned(), available: names })
}

/// The line shown in the game for an action: what happened, or in a dry run
/// what would have.
pub open spec fn notice_text(action: ActionView, mode: Mode) -> Seq<char> {
    match (action, mode) {
        (ActionView::Comment { key, .. }, Mode::Live) => key + "  comment posted"@,
        (ActionView::Comment { key, .. }, Mode::DryRun) => "DRY RUN  would comment on "@ + key,
        (ActionView::Transition { key, to }, Mode::Live) => key + "  moved to "@ + to,
        (ActionView::Transition { key, to }, Mode::DryRun) => "DRY RUN  would move "@ + key + " to "@ + to,
    }
}

pub fn notice(action: &Action, mode: Mode) -> (s: String)
    ensures
        s@ == notice_text(action@, mode),
{
    let mut s = String::new();
    match action {
        Action::Comment { key, .. } => match mode {
            Mode::Live => {
                push_str(&mut s, key.as_str());
                push_str(&mut s, "  comment posted");
            },
            Mode::DryRun => {
                push_str(&mut s, "DRY RUN  would comment on ");
                push_str(&mut s, key.as_str());
            },
        },
        Action::Transition { key, to } => match mode {
            Mode::Live => {
                push_str(&mut s, key.as_str());
                push_str(&mut s, "  moved to ");
                push_str(&mut s, to.as_str());
            },
            Mode::DryRun => {
                push_str(&mut s, "DRY RUN  would move ");
                push_str(&mut s, key.as_str());
                push_str(&mut s, " to ");
                push_str(&mut s, to.as_str());
            },
        },
    }
    assert(s@ =~= notice_text(action@, mode));
    s
}

} // verus!
