use vstd::prelude::*;

use crate::capture::views_of;
use crate::text::push_str;

verus! {

#[verifier::external_type_specification]
#[verifier::external_body]
pub struct ExIoError(std::io::Error);

/// The `Display` text of an I/O error, as std writes it. What it says comes
/// from the operating system and is not stated.
#[verifier::external_body]
fn io_text(error: &std::io::Error) -> String {
    format!("{error}")
}

/// Why the sidecar stopped.
#[derive(Debug)]
pub enum Error {
    Io(std::io::Error),
    Jira(String),
    BadRow(String),
    NoTicket { jql: String },
    LabelMissing { key: String, label: String },
    NoTransition { key: String, wanted: String, available: Vec<String> },
    StreamClosed,
}

/// `parts` joined with `, ` between each two.
pub open spec fn comma_joined(parts: Seq<Seq<char>>) -> Seq<char>
    decreases parts.len(),
{
    if parts.len() == 0 {
        seq![]
    } else if parts.len() == 1 {
        parts[0]
    } else {
        comma_joined(parts.drop_last()) + ", "@ + parts.last()
    }
}

/// The message of every error but an I/O one, whose text comes from std.
pub open spec fn error_text(e: &Error) -> Seq<char> {
    match e {
        Error::Io(_) => "io: "@,
        Error::Jira(m) => "jira: "@ + m@,
        Error::BadRow(r) => "jira returned a search row this cannot read: "@ + r@,
        Error::NoTicket { jql } => "no open ticket matches: "@ + jql@,
        Error::LabelMissing { key, label } => key@ + " does not carry the label "@ + label@
            + ", refusing to touch it"@,
        Error::NoTransition { key, wanted, available } => key@ + " has no transition named "@ + wanted@
            + "; available: "@ + comma_joined(views_of(available@)),
        Error::StreamClosed => "the game disconnected before a home run result"@,
    }
}

fn push_joined(out: &mut String, parts: &Vec<String>)
    ensures
        final(out)@ == old(out)@ + comma_joined(views_of(parts@)),
{
    let mut i: usize = 0;
    while i < parts.len()
        invariant
            i <= parts@.len(),
            out@ == old(out)@ + comma_joined(views_of(parts@.take(i as int))),
        decreases parts@.len() - i,
    {
        let ghost before = out@;
        if i > 0 {
            push_str(out, ", ");
        }
        push_str(out, parts[i].as_str());
        i += 1;
        proof {
            let v = views_of(parts@.take(i as int));
            assert(v.drop_last() =~= views_of(parts@.take(i - 1)));
            assert(v.last() == parts@[i - 1]@);
            if i == 1 {
                assert(views_of(parts@.take(0)) =~= Seq::<Seq<char>>::empty());
            }
        }
        assert(out@ =~= old(out)@ + comma_joined(views_of(parts@.take(i as int))));
    }
    assert(parts@.take(parts@.len() as int) =~= parts@);
}

impl Error {
    /// The error's message. For an I/O error it is `io: ` and std's text.
    pub fn message(&self) -> (s: String)
        ensures
            !(self is Io) ==> s@ == error_text(self),
            self is Io ==> s@.len() >= 4 && s@.take(4) == error_text(self),
    {
        let mut s = String::new();
        match self {
            Error::Io(error) => {
                push_str(&mut s, "io: ");
                let t = io_text(error);
                push_str(&mut s, t.as_str());
            },
            Error::Jira(m) => {
                push_str(&mut s, "jira: ");
                push_str(&mut s, m.as_str());
            },
            Error::BadRow(r) => {
                push_str(&mut s, "jira returned a search row this cannot read: ");
                push_str(&mut s, r.as_str());
            },
            Error::NoTicket { jql } => {
                push_str(&mut s, "no open ticket matches: ");
                push_str(&mut s, jql.as_str());
            },
            Error::LabelMissing { key, label } => {
                push_str(&mut s, key.as_str());
                push_str(&mut s, " does not carry the label ");
                push_str(&mut s, label.as_str());
                push_str(&mut s, ", refusing to touch it");
            },
            Error::NoTransition { key, wanted, available } => {
                push_str(&mut s, key.as_str());
                push_str(&mut s, " has no transition named ");
                push_str(&mut s, wanted.as_str());
                push_str(&mut s, "; available: ");
                push_joined(&mut s, available);
            },
            Error::StreamClosed => {
                push_str(&mut s, "the game disconnected before a home run result");
            },
        }
        proof {
            reveal_strlit("io: ");
        }
        assert(!(self is Io) ==> s@ =~= error_text(self));
        s
    }
}

impl From<std::io::Error> for Error {
    fn from(error: std::io::Error) -> (e: Error) {
        Error::Io(error)
    }
}

impl vstd::std_specs::convert::FromSpecImpl<std::io::Error> for Error {
    open spec fn obeys_from_spec() -> bool {
        true
    }

    open spec fn from_spec(error: std::io::Error) -> Error {
        Error::Io(error)
    }
}

} // verus!
