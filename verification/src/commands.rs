//! The CLI's session commands as daemon requests: which endpoint each one
//! posts to and the JSON body it sends.

use vstd::prelude::*;

use crate::text::{concat, owned};

verus! {

/// A CLI command that acts on a session.
#[derive(Debug)]
pub enum SessionCommand {
    Open { url: String },
    Back,
    Forward,
    ReloadPage,
    Snapshot,
    Click { reference: String },
    Fill { reference: String, text: String },
    Type { reference: String, text: String },
    Press { reference: String, key: String },
    Hover { reference: String },
    Select { reference: String, value: String },
    Check { reference: String, checked: bool },
    /// `kind` is `role` or `text`.
    Find { kind: String, query: String },
}

/// A JSON value in a request body.
#[derive(Debug)]
pub enum BodyValue {
    Text(String),
    Flag(bool),
}

/// A `POST` to the daemon: the path and, when there is one, the JSON
/// object sent, as its fields in order.
#[derive(Debug)]
pub struct DaemonRequest {
    pub path: String,
    pub body: Option<Vec<(String, BodyValue)>>,
}

pub enum ValueView {
    Text(Seq<char>),
    Flag(bool),
}

pub open spec fn value_view(v: BodyValue) -> ValueView {
    match v {
        BodyValue::Text(s) => ValueView::Text(s@),
        BodyValue::Flag(b) => ValueView::Flag(b),
    }
}

pub open spec fn fields_view(f: Seq<(String, BodyValue)>) -> Seq<(Seq<char>, ValueView)> {
    Seq::new(f.len(), |i: int| (f[i].0@, value_view(f[i].1)))
}

/// The endpoint name a command posts to.
pub open spec fn verb(c: SessionCommand) -> Seq<char> {
    match c {
        SessionCommand::Open { .. } => "open"@,
        SessionCommand::Back => "back"@,
        SessionCommand::Forward => "forward"@,
        SessionCommand::ReloadPage => "reload"@,
        SessionCommand::Snapshot => "snapshot"@,
        SessionCommand::Click { .. } => "click"@,
        SessionCommand::Fill { .. } => "fill"@,
        SessionCommand::Type { .. } => "type"@,
        SessionCommand::Press { .. } => "press"@,
        SessionCommand::Hover { .. } => "hover"@,
        SessionCommand::Select { .. } => "select"@,
        SessionCommand::Check { .. } => "check"@,
        SessionCommand::Find { .. } => "find"@,
    }
}

/// `/sessions/<id>`.
pub open spec fn session_path(id: Seq<char>) -> Seq<char> {
    "/sessions/"@ + id
}

/// The body a command sends.
pub open spec fn body_of(c: SessionCommand) -> Option<Seq<(Seq<char>, ValueView)>> {
    match c {
        SessionCommand::Open { url } => Some(seq![("url"@, ValueView::Text(url@))]),
        SessionCommand::Click { reference } => Some(seq![("ref"@, ValueView::Text(reference@))]),
        SessionCommand::Fill { reference, text } => Some(
            seq![("ref"@, ValueView::Text(reference@)), ("text"@, ValueView::Text(text@))],
        ),
        SessionCommand::Type { reference, text } => Some(
            seq![("ref"@, ValueView::Text(reference@)), ("text"@, ValueView::Text(text@))],
        ),
        SessionCommand::Press { reference, key } => Some(
            seq![("ref"@, ValueView::Text(reference@)), ("key"@, ValueView::Text(key@))],
        ),
        SessionCommand::Hover { reference } => Some(seq![("ref"@, ValueView::Text(reference@))]),
        SessionCommand::Select { reference, value } => Some(
            seq![("ref"@, ValueView::Text(reference@)), ("value"@, ValueView::Text(value@))],
        ),
        SessionCommand::Check { reference, checked } => Some(
            seq![("ref"@, ValueView::Text(reference@)), ("checked"@, ValueView::Flag(checked))],
        ),
        SessionCommand::Find { kind, query } => Some(
            seq![("kind"@, ValueView::Text(kind@)), ("query"@, ValueView::Text(query@))],
        ),
        _ => None,
    }
}

/// Each command posts to the daemon endpoint of its own name under the
/// session's resource: `open`, `back`, `forward`, `reload`, `snapshot`,
/// `click`, `fill`, `type`, `press`, `hover`, `select`, `check`, `find`.
pub proof fn law_request_endpoints(c: SessionCommand, id: Seq<char>)
    ensures
        session_path(id) + "/"@ + verb(c) == "/sessions/"@ + id + "/"@ + match c {
            SessionCommand::Open { .. } => "open"@,
            SessionCommand::Back => "back"@,
            SessionCommand::Forward => "forward"@,
            SessionCommand::ReloadPage => "reload"@,
            SessionCommand::Snapshot => "snapshot"@,
            SessionCommand::Click { .. } => "click"@,
            SessionCommand::Fill { .. } => "fill"@,
            SessionCommand::Type { .. } => "type"@,
            SessionCommand::Press { .. } => "press"@,
            SessionCommand::Hover { .. } => "hover"@,
            SessionCommand::Select { .. } => "select"@,
            SessionCommand::Check { .. } => "check"@,
            SessionCommand::Find { .. } => "find"@,
        },
{
}

/// Whether body `b` has a field named `name` that holds `v`.
pub open spec fn has_field(b: Seq<(Seq<char>, ValueView)>, name: Seq<char>, v: ValueView) -> bool {
    exists|i: int| 0 <= i < b.len() && #[trigger] b[i] == (name, v)
}

/// Each command's body carries its arguments under the field names of the
/// daemon endpoint it posts to, and nothing else: `url` for open; `ref` for
/// every element action, with `text` for fill and type, `key` for press,
/// `value` for select and `checked` for check; `kind` and `query` for find.
/// Navigation and snapshot commands send no body.
pub proof fn law_request_bodies_name_their_arguments(c: SessionCommand)
    ensures
        match c {
            SessionCommand::Open { url } => body_of(c) matches Some(b) && b.len() == 1 && has_field(
                b,
                "url"@,
                ValueView::Text(url@),
            ),
            SessionCommand::Click { reference } => body_of(c) matches Some(b) && b.len() == 1
                && has_field(b, "ref"@, ValueView::Text(reference@)),
            SessionCommand::Hover { reference } => body_of(c) matches Some(b) && b.len() == 1
                && has_field(b, "ref"@, ValueView::Text(reference@)),
            SessionCommand::Fill { reference, text } => body_of(c) matches Some(b) && b.len() == 2
                && has_field(b, "ref"@, ValueView::Text(reference@)) && has_field(
                b,
                "text"@,
                ValueView::Text(text@),
            ),
            SessionCommand::Type { reference, text } => body_of(c) matches Some(b) && b.len() == 2
                && has_field(b, "ref"@, ValueView::Text(reference@)) && has_field(
                b,
                "text"@,
                ValueView::Text(text@),
            ),
            SessionCommand::Press { reference, key } => body_of(c) matches Some(b) && b.len() == 2
                && has_field(b, "ref"@, ValueView::Text(reference@)) && has_field(
                b,
                "key"@,
                ValueView::Text(key@),
            ),
            SessionCommand::Select { reference, value } => body_of(c) matches Some(b) && b.len()
                == 2 && has_field(b, "ref"@, ValueView::Text(reference@)) && has_field(
                b,
                "value"@,
                ValueView::Text(value@),
            ),
            SessionCommand::Check { reference, checked } => body_of(c) matches Some(b) && b.len()
                == 2 && has_field(b, "ref"@, ValueView::Text(reference@)) && has_field(
                b,
                "checked"@,
                ValueView::Flag(checked),
            ),
            SessionCommand::Find { kind, query } => body_of(c) matches Some(b) && b.len() == 2
                && has_field(b, "kind"@, ValueView::Text(kind@)) && has_field(
                b,
                "query"@,
                ValueView::Text(query@),
            ),
            _ => body_of(c) is None,
        },
{
    match body_of(c) {
        Some(b) => {
            if b.len() >= 1 {
                assert(b[0] == b[0]);
            }
            if b.len() >= 2 {
                assert(b[1] == b[1]);
            }
        },
        None => {},
    }
}

/// The path of a session's resource.
pub fn session_resource(id: &str) -> (p: String)
    ensures
        p@ == session_path(id@),
{
    concat("/sessions/", id)
}

fn verb_of(c: &SessionCommand) -> (v: &'static str)
    ensures
        v@ == verb(*c),
{
    match c {
        SessionCommand::Open { .. } => "open",
        SessionCommand::Back => "back",
        SessionCommand::Forward => "forward",
        SessionCommand::ReloadPage => "reload",
        SessionCommand::Snapshot => "snapshot",
        SessionCommand::Click { .. } => "click",
        SessionCommand::Fill { .. } => "fill",
        SessionCommand::Type { .. } => "type",
        SessionCommand::Press { .. } => "press",
        SessionCommand::Hover { .. } => "hover",
        SessionCommand::Select { .. } => "select",
        SessionCommand::Check { .. } => "check",
        SessionCommand::Find { .. } => "find",
    }
}

fn text_field(name: &str, value: &String) -> (f: (String, BodyValue))
    ensures
        f.0@ == name@,
        value_view(f.1) == ValueView::Text(value@),
{
    (owned(name), BodyValue::Text(owned(value.as_str())))
}

fn fields1(a: (String, BodyValue)) -> (v: Vec<(String, BodyValue)>)
    ensures
        fields_view(v@) == seq![(a.0@, value_view(a.1))],
{
    let ghost g = (a.0@, value_view(a.1));
    let mut v: Vec<(String, BodyValue)> = Vec::new();
    v.push(a);
    assert(fields_view(v@) =~= seq![g]);
    v
}

fn fields2(a: (String, BodyValue), b: (String, BodyValue)) -> (v: Vec<(String, BodyValue)>)
    ensures
        fields_view(v@) == seq![(a.0@, value_view(a.1)), (b.0@, value_view(b.1))],
{
    let ghost ga = (a.0@, value_view(a.1));
    let ghost gb = (b.0@, value_view(b.1));
    let mut v: Vec<(String, BodyValue)> = Vec::new();
    v.push(a);
    v.push(b);
    assert(fields_view(v@) =~= seq![ga, gb]);
    v
}

/// The request a session command makes of the daemon for session `id`:
/// `POST /sessions/<id>/<verb>` with the command's arguments as the body.
pub fn request_for(cmd: &SessionCommand, id: &str) -> (r: DaemonRequest)
    ensures
        r.path@ == session_path(id@) + "/"@ + verb(*cmd),
        match body_of(*cmd) {
            Some(b) => r.body matches Some(f) && fields_view(f@) == b,
            None => r.body is None,
        },
{
    let base = concat("/sessions/", id);
    let with_slash = concat(base.as_str(), "/");
    let path = concat(with_slash.as_str(), verb_of(cmd));
    let body = match cmd {
        SessionCommand::Open { url } => Some(fields1(text_field("url", url))),
        SessionCommand::Click { reference } => Some(fields1(text_field("ref", reference))),
        SessionCommand::Fill { reference, text } => Some(
            fields2(text_field("ref", reference), text_field("text", text)),
        ),
        SessionCommand::Type { reference, text } => Some(
            fields2(text_field("ref", reference), text_field("text", text)),
        ),
        SessionCommand::Press { reference, key } => Some(
            fields2(text_field("ref", reference), text_field("key", key)),
        ),
        SessionCommand::Hover { reference } => Some(fields1(text_field("ref", reference))),
        SessionCommand::Select { reference, value } => Some(
            fields2(text_field("ref", reference), text_field("value", value)),
        ),
        SessionCommand::Check { reference, checked } => Some(
            fields2(text_field("ref", reference), (owned("checked"), BodyValue::Flag(*checked))),
        ),
        SessionCommand::Find { kind, query } => Some(
            fields2(text_field("kind", kind), text_field("query", query)),
        ),
        _ => None,
    };
    DaemonRequest { path, body }
}

} // verus!

verus! {

/// How `acb-cli snapshot` lists an element: its ref, its role (its tag when
/// it has none), and its text.
pub open spec fn snapshot_line_text(
    reference: Seq<char>,
    role: Option<Seq<char>>,
    tag: Seq<char>,
    text: Seq<char>,
) -> Seq<char> {
    reference + " "@ + (match role {
        Some(r) => r,
        None => tag,
    }) + " "@ + text
}

pub fn snapshot_line(reference: &str, role: &Option<String>, tag: &str, text: &str) -> (l: String)
    ensures
        l@ == snapshot_line_text(reference@, crate::text::opt_text(*role), tag@, text@),
{
    let a = concat(reference, " ");
    let b = match role {
        Some(r) => concat(a.as_str(), r.as_str()),
        None => concat(a.as_str(), tag),
    };
    let c = concat(b.as_str(), " ");
    concat(c.as_str(), text)
}

} // verus!
