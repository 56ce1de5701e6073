//! Element-action endpoints. Every action takes only a `ref` returned by
//! the most recent snapshot; the agent cannot pass raw selectors or
//! scripts. A stale ref is answered 410 Gone. Each accepted action becomes
//! one call of a fixed page-helper method on the element the ref names.

use vstd::prelude::*;

use crate::api::ApiError;
use crate::snapshot::parse_ref;
use crate::snapshot::ref_table::RefTable;
use crate::protect::string_views;
use crate::text::owned;

verus! {

/// A body that names an element.
pub struct RefBody {
    pub reference: String,
}

/// A body that names an element and text for it.
pub struct FillBody {
    pub reference: String,
    pub text: String,
}

pub struct PressBody {
    pub reference: String,
    pub key: String,
}

pub struct SelectBody {
    pub reference: String,
    pub value: String,
}

pub struct CheckBody {
    pub reference: String,
    pub checked: bool,
}

/// A search for accessible elements, by ARIA role or by visible text.
pub enum FindBody {
    Role { query: String },
    Text { query: String },
}

/// Ceiling on agent-supplied text, in UTF-8 bytes: cheap insurance against
/// pathological inputs reaching the page.
pub const MAX_TEXT_LEN: usize = 8 * 1024;

/// An element action requested by the agent.
pub enum ElementAction {
    Click(RefBody),
    /// Replace the field's value.
    Fill(FillBody),
    /// Type text into the field (appends).
    Type(FillBody),
    Press(PressBody),
    Hover(RefBody),
    Select(SelectBody),
    Check(CheckBody),
}

/// One argument passed to a page-helper method.
#[derive(Debug)]
pub enum HelperArg {
    /// An element, by its `acbId`.
    Id(u64),
    Text(String),
    Flag(bool),
    /// The CSS classes whose subtrees the agent may reach.
    Classes(Vec<String>),
}

/// A call of a page-helper method.
#[derive(Debug)]
pub struct HelperCall {
    pub method: String,
    pub args: Vec<HelperArg>,
}

pub enum ArgView {
    Id(u64),
    Text(Seq<char>),
    Flag(bool),
    Classes(Seq<Seq<char>>),
}

impl View for HelperArg {
    type V = ArgView;

    open spec fn view(&self) -> ArgView {
        match *self {
            HelperArg::Id(n) => ArgView::Id(n),
            HelperArg::Text(s) => ArgView::Text(s@),
            HelperArg::Flag(b) => ArgView::Flag(b),
            HelperArg::Classes(v) => ArgView::Classes(string_views(v@)),
        }
    }
}

pub struct CallView {
    pub method: Seq<char>,
    pub args: Seq<ArgView>,
}

impl View for HelperCall {
    type V = CallView;

    open spec fn view(&self) -> CallView {
        CallView { method: self.method@, args: Seq::new(self.args@.len(), |i: int| self.args@[i]@) }
    }
}

/// The number of UTF-8 bytes of a text.
pub open spec fn byte_len(s: Seq<char>) -> nat {
    vstd::utf8::encode_utf8(s).len()
}

/// The ref an action names.
pub open spec fn action_ref(a: ElementAction) -> Seq<char> {
    match a {
        ElementAction::Click(b) => b.reference@,
        ElementAction::Fill(b) => b.reference@,
        ElementAction::Type(b) => b.reference@,
        ElementAction::Press(b) => b.reference@,
        ElementAction::Hover(b) => b.reference@,
        ElementAction::Select(b) => b.reference@,
        ElementAction::Check(b) => b.reference@,
    }
}

/// The action carries text over the limit (fill and type only).
pub open spec fn text_too_large(a: ElementAction) -> bool {
    match a {
        ElementAction::Fill(b) => byte_len(b.text@) > MAX_TEXT_LEN,
        ElementAction::Type(b) => byte_len(b.text@) > MAX_TEXT_LEN,
        _ => false,
    }
}

/// The helper call an action becomes on element `id`.
pub open spec fn action_call(a: ElementAction, id: u64) -> CallView {
    match a {
        ElementAction::Click(_) => CallView { method: "clickEl"@, args: seq![ArgView::Id(id)] },
        ElementAction::Fill(b) => CallView {
            method: "fillValue"@,
            args: seq![ArgView::Id(id), ArgView::Text(b.text@)],
        },
        ElementAction::Type(b) => CallView {
            method: "typeText"@,
            args: seq![ArgView::Id(id), ArgView::Text(b.text@)],
        },
        ElementAction::Press(b) => CallView {
            method: "pressKey"@,
            args: seq![ArgView::Id(id), ArgView::Text(b.key@)],
        },
        ElementAction::Hover(_) => CallView { method: "hoverEl"@, args: seq![ArgView::Id(id)] },
        ElementAction::Select(b) => CallView {
            method: "selectOption"@,
            args: seq![ArgView::Id(id), ArgView::Text(b.value@)],
        },
        ElementAction::Check(b) => CallView {
            method: "checkBox"@,
            args: seq![ArgView::Id(id), ArgView::Flag(b.checked)],
        },
    }
}

/// An action becomes a call of the helper method of its own kind (click
/// `clickEl`, fill `fillValue` which replaces the value, type `typeText`
/// which appends, press `pressKey`, hover `hoverEl`, select `selectOption`,
/// check `checkBox`) on the element its ref resolved to, carrying the
/// action's own argument: fill and type write the text that was sent,
/// press presses the key sent, select picks the value sent, check sets the
/// state sent; click and hover carry nothing else. What is written never
/// depends on the ref text: two fills (or types) of the same text on the
/// same element make the same call, whatever refs named it.
pub proof fn law_action_call_carries_arguments(a: ElementAction, id: u64, b1: FillBody, b2: FillBody)
    ensures
        action_call(a, id).method == match a {
            ElementAction::Click(_) => "clickEl"@,
            ElementAction::Fill(_) => "fillValue"@,
            ElementAction::Type(_) => "typeText"@,
            ElementAction::Press(_) => "pressKey"@,
            ElementAction::Hover(_) => "hoverEl"@,
            ElementAction::Select(_) => "selectOption"@,
            ElementAction::Check(_) => "checkBox"@,
        },
        match a {
            ElementAction::Fill(b) => action_call(a, id).args == seq![
                ArgView::Id(id),
                ArgView::Text(b.text@),
            ],
            ElementAction::Type(b) => action_call(a, id).args == seq![
                ArgView::Id(id),
                ArgView::Text(b.text@),
            ],
            ElementAction::Press(b) => action_call(a, id).args == seq![
                ArgView::Id(id),
                ArgView::Text(b.key@),
            ],
            ElementAction::Select(b) => action_call(a, id).args == seq![
                ArgView::Id(id),
                ArgView::Text(b.value@),
            ],
            ElementAction::Check(b) => action_call(a, id).args == seq![
                ArgView::Id(id),
                ArgView::Flag(b.checked),
            ],
            _ => action_call(a, id).args == seq![ArgView::Id(id)],
        },
        b1.text@ == b2.text@ ==> action_call(ElementAction::Fill(b1), id) == action_call(
            ElementAction::Fill(b2),
            id,
        ) && action_call(ElementAction::Type(b1), id) == action_call(ElementAction::Type(b2), id),
{
}

/// Whether `text` fits the limit.
pub fn text_fits(text: &str) -> (b: bool)
    ensures
        b == (byte_len(text@) <= MAX_TEXT_LEN),
{
    text.as_bytes().len() <= MAX_TEXT_LEN
}

fn ref_of(a: &ElementAction) -> (r: &str)
    ensures
        r@ == action_ref(*a),
{
    match a {
        ElementAction::Click(b) => b.reference.as_str(),
        ElementAction::Fill(b) => b.reference.as_str(),
        ElementAction::Type(b) => b.reference.as_str(),
        ElementAction::Press(b) => b.reference.as_str(),
        ElementAction::Hover(b) => b.reference.as_str(),
        ElementAction::Select(b) => b.reference.as_str(),
        ElementAction::Check(b) => b.reference.as_str(),
    }
}

fn call1(method: &str, a: HelperArg) -> (c: HelperCall)
    ensures
        c@.method == method@,
        c@.args == seq![a@],
{
    let mut args: Vec<HelperArg> = Vec::new();
    args.push(a);
    let c = HelperCall { method: owned(method), args };
    assert(c@.args =~= seq![a@]);
    c
}

fn call2(method: &str, a: HelperArg, b: HelperArg) -> (c: HelperCall)
    ensures
        c@.method == method@,
        c@.args == seq![a@, b@],
{
    let mut args: Vec<HelperArg> = Vec::new();
    args.push(a);
    args.push(b);
    let c = HelperCall { method: owned(method), args };
    assert(c@.args =~= seq![a@, b@]);
    c
}

/// The helper call for an action, or why it is refused: text over the
/// limit (413, checked first), or a ref that does not resolve in the
/// session's current snapshot (410).
pub fn plan_action(table: &RefTable, action: &ElementAction) -> (r: Result<HelperCall, ApiError>)
    requires
        table.wf(),
    ensures
        text_too_large(*action) ==> (r matches Err(ApiError::PayloadTooLarge(m)) && m@
            == "text too large"@),
        !text_too_large(*action) && table@.resolve(action_ref(*action)) is None ==> (
        r matches Err(ApiError::Gone(m)) && m@ == "stale or unknown ref"@),
        table@.resolve(action_ref(*action)) matches Some(id) ==> (!text_too_large(*action) ==> (
        r matches Ok(call) && call@ == action_call(*action, id))),
{
    let too_large = match action {
        ElementAction::Fill(b) => !text_fits(b.text.as_str()),
        ElementAction::Type(b) => !text_fits(b.text.as_str()),
        _ => false,
    };
    if too_large {
        return Err(ApiError::PayloadTooLarge(owned("text too large")));
    }
    let id = match parse_ref(table, ref_of(action)) {
        Some(id) => id,
        None => {
            return Err(ApiError::Gone(owned("stale or unknown ref")));
        },
    };
    let call = match action {
        ElementAction::Click(_) => call1("clickEl", HelperArg::Id(id)),
        ElementAction::Fill(b) => call2(
            "fillValue",
            HelperArg::Id(id),
            HelperArg::Text(owned(b.text.as_str())),
        ),
        ElementAction::Type(b) => call2(
            "typeText",
            HelperArg::Id(id),
            HelperArg::Text(owned(b.text.as_str())),
        ),
        ElementAction::Press(b) => call2(
            "pressKey",
            HelperArg::Id(id),
            HelperArg::Text(owned(b.key.as_str())),
        ),
        ElementAction::Hover(_) => call1("hoverEl", HelperArg::Id(id)),
        ElementAction::Select(b) => call2(
            "selectOption",
            HelperArg::Id(id),
            HelperArg::Text(owned(b.value.as_str())),
        ),
        ElementAction::Check(b) => call2("checkBox", HelperArg::Id(id), HelperArg::Flag(b.checked)),
    };
    Ok(call)
}

/// The helper call for a search; `allowed_classes` are the classes the
/// policy lets the agent reach on the session's current page.
pub fn plan_find(body: &FindBody, allowed_classes: &Vec<String>) -> (call: HelperCall)
    ensures
        call@.method == match *body {
            FindBody::Role { .. } => "findRole"@,
            FindBody::Text { .. } => "findText"@,
        },
        call@.args == seq![
            ArgView::Text(
                match *body {
                    FindBody::Role { query } => query@,
                    FindBody::Text { query } => query@,
                },
            ),
            ArgView::Classes(string_views(allowed_classes@)),
        ],
{
    let classes = copy_strings(allowed_classes);
    match body {
        FindBody::Role { query } => call2(
            "findRole",
            HelperArg::Text(owned(query.as_str())),
            HelperArg::Classes(classes),
        ),
        FindBody::Text { query } => call2(
            "findText",
            HelperArg::Text(owned(query.as_str())),
            HelperArg::Classes(classes),
        ),
    }
}

/// The helper call that collects a snapshot's elements: those inside the
/// subtrees of `allowed_classes`.
pub fn plan_collect(allowed_classes: &Vec<String>) -> (call: HelperCall)
    ensures
        call@.method == "collect"@,
        call@.args == seq![ArgView::Classes(string_views(allowed_classes@))],
{
    call1("collect", HelperArg::Classes(copy_strings(allowed_classes)))
}

/// A copy of a list of strings.
pub fn copy_strings(v: &Vec<String>) -> (r: Vec<String>)
    ensures
        string_views(r@) == string_views(v@),
{
    let mut out: Vec<String> = Vec::new();
    let mut i: usize = 0;
    while i < v.len()
        invariant
            i <= v.len(),
            out@.len() == i,
            forall|j: int| 0 <= j < i ==> #[trigger] out@[j]@ == v@[j]@,
        decreases v.len() - i,
    {
        out.push(owned(v[i].as_str()));
        i = i + 1;
    }
    assert(string_views(out@) =~= string_views(v@));
    out
}

} // verus!
