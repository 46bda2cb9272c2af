use vstd::prelude::*;

use crate::text::{ascii_lower, chars_of, push_str};

verus! {

/// What std's `{:?}` writes for a string: the text in double quotes, with
/// quotes, backslashes and unprintable characters escaped.
pub uninterp spec fn debug_text(s: Seq<char>) -> Seq<char>;

/// The `Debug` form of `s`, as std's formatter writes it (`format!("{s:?}")`).
/// Taken to depend on the text alone; std's escaping rules are not restated.
#[verifier::external_body]
fn debug_quoted(s: &str) -> (r: String)
    ensures
        r@ == debug_text(s@),
{
    format!("{s:?}")
}

pub open spec fn is_ascii_upper(c: char) -> bool {
    'A' <= c && c <= 'Z'
}

pub open spec fn is_ascii_digit(c: char) -> bool {
    '0' <= c && c <= '9'
}

pub open spec fn is_ascii_alnum(c: char) -> bool {
    is_ascii_upper(c) || is_ascii_digit(c) || ('a' <= c && c <= 'z')
}

/// A Jira project key: an upper-case ASCII letter, then upper-case letters,
/// digits and underscores, two characters at least.
pub open spec fn is_project_key(s: Seq<char>) -> bool {
    &&& s.len() >= 2
    &&& is_ascii_upper(s[0])
    &&& forall|i: int| 1 <= i < s.len() ==> is_ascii_upper(#[trigger] s[i]) || is_ascii_digit(s[i]) || s[i] == '_'
}

/// A label that cannot carry query text: ASCII letters, digits, `-`, `_` and
/// `.`, one character at least.
pub open spec fn is_plain_label(s: Seq<char>) -> bool {
    &&& s.len() >= 1
    &&& forall|i: int| 0 <= i < s.len() ==> is_ascii_alnum(#[trigger] s[i]) || s[i] == '-' || s[i] == '_' || s[i] == '.'
}

/// The only Jira project tickets may come from.
#[derive(Clone, Debug, PartialEq, Eq)]
pub struct ProjectKey(String);

/// The label a ticket must carry to be touched.
#[derive(Clone, Debug, PartialEq, Eq)]
pub struct Label(String);

impl View for ProjectKey {
    type V = Seq<char>;

    closed spec fn view(&self) -> Seq<char> {
        self.0@
    }
}

impl View for Label {
    type V = Seq<char>;

    closed spec fn view(&self) -> Seq<char> {
        self.0@
    }
}

/// The message a rejected project key is reported with.
pub open spec fn bad_key_text(s: Seq<char>) -> Seq<char> {
    debug_text(s) + " is not a Jira project key like DEMO"@
}

/// The message a rejected label is reported with.
pub open spec fn bad_label_text(s: Seq<char>) -> Seq<char> {
    debug_text(s) + " is not a usable label: letters, digits, '-', '_' and '.' only"@
}

impl ProjectKey {
    /// Reads a project key; anything else is refused with a message.
    pub fn parse(s: &str) -> (r: Result<ProjectKey, String>)
        ensures
            r is Ok <==> is_project_key(s@),
            r matches Ok(k) ==> k@ == s@,
            r matches Err(m) ==> m@ == bad_key_text(s@),
    {
        let chars = chars_of(s);
        let mut ok = chars.len() >= 2 && 'A' <= chars[0] && chars[0] <= 'Z';
        let mut i: usize = 1;
        while ok && i < chars.len()
            invariant
                chars@ == s@,
                1 <= i <= chars@.len() || !ok,
                ok ==> chars@.len() >= 2 && is_ascii_upper(chars@[0]),
                ok ==> forall|j: int| 1 <= j < i ==> is_ascii_upper(#[trigger] chars@[j]) || is_ascii_digit(chars@[j]) || chars@[j] == '_',
                !ok ==> !is_project_key(s@),
            decreases chars@.len() - i,
        {
            let c = chars[i];
            if !(('A' <= c && c <= 'Z') || ('0' <= c && c <= '9') || c == '_') {
                ok = false;
            }
            i += 1;
        }
        if ok {
            Ok(ProjectKey(s.to_owned()))
        } else {
            let mut m = debug_quoted(s);
            push_str(&mut m, " is not a Jira project key like DEMO");
            Err(m)
        }
    }

    /// The key's text.
    pub fn as_str(&self) -> (s: &str)
        ensures
            s@ == self@,
    {
        self.0.as_str()
    }
}

impl Label {
    /// Reads a label; anything that could carry query text is refused with a
    /// message.
    pub fn parse(s: &str) -> (r: Result<Label, String>)
        ensures
            r is Ok <==> is_plain_label(s@),
            r matches Ok(l) ==> l@ == s@,
            r matches Err(m) ==> m@ == bad_label_text(s@),
    {
        let chars = chars_of(s);
        let mut ok = chars.len() >= 1;
        let mut i: usize = 0;
        while ok && i < chars.len()
            invariant
                chars@ == s@,
                i <= chars@.len(),
                ok ==> chars@.len() >= 1,
                ok ==> forall|j: int| 0 <= j < i ==> is_ascii_alnum(#[trigger] chars@[j]) || chars@[j] == '-' || chars@[j] == '_' || chars@[j] == '.',
                !ok ==> !is_plain_label(s@),
            decreases chars@.len() - i,
        {
            let c = chars[i];
            let alnum = ('A' <= c && c <= 'Z') || ('0' <= c && c <= '9') || ('a' <= c && c <= 'z');
            if !(alnum || c == '-' || c == '_' || c == '.') {
                ok = false;
            }
            i += 1;
        }
        if ok {
            Ok(Label(s.to_owned()))
        } else {
            let mut m = debug_quoted(s);
            push_str(&mut m, " is not a usable label: letters, digits, '-', '_' and '.' only");
            Err(m)
        }
    }

    /// The label's text.
    pub fn as_str(&self) -> (s: &str)
        ensures
            s@ == self@,
    {
        self.0.as_str()
    }
}

impl core::str::FromStr for ProjectKey {
    type Err = String;

    fn from_str(s: &str) -> (r: Result<ProjectKey, String>)
        ensures
            r is Ok <==> is_project_key(s@),
            r matches Ok(k) ==> k@ == s@,
            r matches Err(m) ==> m@ == bad_key_text(s@),
    {
        ProjectKey::parse(s)
    }
}

impl core::str::FromStr for Label {
    type Err = String;

    fn from_str(s: &str) -> (r: Result<Label, String>)
        ensures
            r is Ok <==> is_plain_label(s@),
            r matches Ok(l) ==> l@ == s@,
            r matches Err(m) ==> m@ == bad_label_text(s@),
    {
        Label::parse(s)
    }
}

/// The tickets the sidecar may touch: one project, one label.
#[derive(Clone, Debug, PartialEq, Eq)]
pub struct Scope {
    pub project: ProjectKey,
    pub label: Label,
}

/// The search for the oldest open ticket of the project that carries the label.
pub open spec fn spec_jql(project: Seq<char>, label: Seq<char>) -> Seq<char> {
    "project = \""@ + project + "\" AND labels = \""@ + label
        + "\" AND statusCategory != Done ORDER BY created ASC"@
}

impl Scope {
    pub fn jql(&self) -> (q: String)
        ensures
            q@ == spec_jql(self.project@, self.label@),
    {
        let mut q = String::new();
        push_str(&mut q, "project = \"");
        push_str(&mut q, self.project.as_str());
        push_str(&mut q, "\" AND labels = \"");
        push_str(&mut q, self.label.as_str());
        push_str(&mut q, "\" AND statusCategory != Done ORDER BY created ASC");
        assert(q@ =~= spec_jql(self.project@, self.label@));
        q
    }
}

/// A key or a label that was accepted cannot close the quotes it is put in, nor
/// start another clause of the query: it holds no quote and no space.
pub proof fn accepted_scope_stays_quoted(project: Seq<char>, label: Seq<char>)
    requires
        is_project_key(project),
        is_plain_label(label),
    ensures
        !project.contains('"'),
        !project.contains(' '),
        !label.contains('"'),
        !label.contains(' '),
{
    assert forall|i: int| 0 <= i < project.len() implies project[i] != '"' && project[i] != ' ' by {
        if i >= 1 {
            assert(is_ascii_upper(project[i]) || is_ascii_digit(project[i]) || project[i] == '_');
        }
    }
    assert forall|i: int| 0 <= i < label.len() implies label[i] != '"' && label[i] != ' ' by {
        assert(is_ascii_alnum(label[i]) || label[i] == '-' || label[i] == '_' || label[i] == '.');
    }
}

/// Labels take ASCII letters of either case, digits, `-`, `_` and `.`: a text
/// of one or more of those is a label, and a text holding anything else, or
/// nothing, is not.
pub proof fn labels_take_letters_of_either_case(s: Seq<char>)
    ensures
        is_plain_label(s) <==> (s.len() >= 1 && forall|i: int| 0 <= i < s.len() ==> {
            let c = #[trigger] s[i];
            ('a' <= c && c <= 'z') || ('A' <= c && c <= 'Z') || ('0' <= c && c <= '9') || c == '-' || c == '_' || c == '.'
        }),
{
}

/// Whether a label is accepted does not depend on the case of its letters.
pub proof fn label_case_does_not_matter(s: Seq<char>)
    ensures
        is_plain_label(s) == is_plain_label(s.map_values(|c: char| ascii_lower(c))),
{
    let t = s.map_values(|c: char| ascii_lower(c));
    if is_plain_label(s) {
        assert forall|i: int| 0 <= i < t.len() implies is_ascii_alnum(#[trigger] t[i]) || t[i] == '-' || t[i] == '_' || t[i] == '.' by {
            assert(is_ascii_alnum(s[i]) || s[i] == '-' || s[i] == '_' || s[i] == '.');
        }
    }
    if is_plain_label(t) {
        assert forall|i: int| 0 <= i < s.len() implies is_ascii_alnum(#[trigger] s[i]) || s[i] == '-' || s[i] == '_' || s[i] == '.' by {
            assert(is_ascii_alnum(t[i]) || t[i] == '-' || t[i] == '_' || t[i] == '.');
        }
    }
}

/// A project key is an upper-case ASCII letter followed by one or more
/// upper-case letters, digits or `_`; nothing else is.
pub proof fn project_keys_are_upper_case(s: Seq<char>)
    ensures
        is_project_key(s) <==> (s.len() >= 2 && 'A' <= s[0] && s[0] <= 'Z' && forall|i: int| 1 <= i < s.len() ==> {
            let c = #[trigger] s[i];
            ('A' <= c && c <= 'Z') || ('0' <= c && c <= '9') || c == '_'
        }),
{
}

} // verus!
