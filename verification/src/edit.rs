//! `acb-cli edit-config`: the visudo-style editing wrapper for
//! `config.yaml`. A staged copy is opened in the operator's editor; what
//! comes back is refused, left alone, or (bumped and signed when a signing
//! key is configured) installed. The decisions live here; reading, writing,
//! running the editor and signing are done by the caller.

use vstd::prelude::*;

use crate::editor::{split_editor, split_words};
use crate::sign::{bump_revision, bumped_text, next_revision};
use crate::text::{opt_text, owned, skip_ws, skip_ws_back, str_eq, to_chars, trim};

verus! {

/// Outcome of an edit.
#[derive(Debug, PartialEq, Eq)]
pub enum EditStatus {
    /// The editor exited without changing the file.
    Unchanged,
    /// A validated new policy was written back.
    Saved {
        /// The `revision` the saved policy carries, when it was signed.
        signed_revision: Option<u64>,
    },
}

/// Signing behaviour of an edit.
#[derive(Debug, Default)]
pub struct EditOptions {
    /// The signing key given to `ssh-keygen -Y sign -f`. When set, every
    /// save bumps `revision:` and installs a fresh `<config>.sig` before
    /// the policy itself.
    pub signing_key: Option<String>,
}

/// What to do with the text the editor left behind.
#[derive(Debug)]
pub enum EditPlan {
    /// Nothing changed.
    Unchanged,
    /// The policy is signed but no signing key was given: refuse (the edit
    /// is kept aside), since an unsigned policy would only be refused by
    /// the daemon.
    NeedsSigningKey,
    /// Validate `text`; sign it when `signed_revision` is set; install it.
    Install { text: String, signed_revision: Option<u64> },
}

/// Decide what an edit does. `sig_exists`: the policy already has a
/// detached signature.
pub fn plan_edit(original: &str, edited: &str, sig_exists: bool, opts: &EditOptions) -> (r:
    EditPlan)
    ensures
        edited@ == original@ ==> r is Unchanged,
        edited@ != original@ && sig_exists && opts.signing_key is None ==> r is NeedsSigningKey,
        edited@ != original@ && opts.signing_key is Some ==> (r matches EditPlan::Install {
            text,
            signed_revision,
        } && text@ == bumped_text(edited@) && signed_revision == Some(next_revision(edited@))),
        edited@ != original@ && !sig_exists && opts.signing_key is None ==> (
        r matches EditPlan::Install { text, signed_revision } && text@ == edited@
            && signed_revision is None),
{
    if str_eq(edited, original) {
        return EditPlan::Unchanged;
    }
    match &opts.signing_key {
        Some(_) => {
            let (bumped, rev) = bump_revision(edited);
            EditPlan::Install { text: bumped, signed_revision: Some(rev) }
        },
        None => {
            if sig_exists {
                EditPlan::NeedsSigningKey
            } else {
                EditPlan::Install { text: owned(edited), signed_revision: None }
            }
        },
    }
}

/// A variable's value counts when it is set and not blank.
pub open spec fn usable(v: Option<Seq<char>>) -> bool {
    v matches Some(s) && trim(s).len() > 0
}

/// The editor to run: `$VISUAL`, else `$EDITOR` (each only when set and not
/// blank), else `notepad` on Windows and `vi` elsewhere.
pub open spec fn editor_choice(visual: Option<Seq<char>>, editor: Option<Seq<char>>, windows: bool) -> Seq<char> {
    if usable(visual) {
        visual.unwrap()
    } else if usable(editor) {
        editor.unwrap()
    } else if windows {
        "notepad"@
    } else {
        "vi"@
    }
}

fn is_blank(s: &str) -> (b: bool)
    ensures
        b == (trim(s@).len() == 0),
{
    let v = to_chars(s);
    let a = skip_ws(&v, 0, v.len());
    let e = skip_ws_back(&v, a, v.len());
    assert(v@.subrange(0, v.len() as int) =~= s@);
    a == e
}

fn usable_value(v: &Option<String>) -> (b: bool)
    ensures
        b == usable(opt_text(*v)),
{
    match v {
        Some(s) => !is_blank(s.as_str()),
        None => false,
    }
}

/// The editor to run, given the values of `$VISUAL` and `$EDITOR`.
pub fn resolve_editor(visual: &Option<String>, editor: &Option<String>, windows: bool) -> (r: String)
    ensures
        r@ == editor_choice(opt_text(*visual), opt_text(*editor), windows),
{
    if usable_value(visual) {
        match visual {
            Some(v) => owned(v.as_str()),
            None => String::new(),
        }
    } else if usable_value(editor) {
        match editor {
            Some(e) => owned(e.as_str()),
            None => String::new(),
        }
    } else if windows {
        owned("notepad")
    } else {
        owned("vi")
    }
}

/// The command line that opens `file` in `editor`: its words, then the
/// file as a trailing argument. `None` when the editor names no program.
pub fn editor_command(editor: &str, file: &str) -> (r: Option<Vec<String>>)
    ensures
        split_words(editor@).len() == 0 <==> r is None,
        r matches Some(argv) ==> (argv.len() == split_words(editor@).len() + 1 && (forall|i: int|
            0 <= i < split_words(editor@).len() ==> #[trigger] argv[i]@ == split_words(editor@)[i])
            && argv[argv.len() - 1]@ == file@),
{
    let mut parts = split_editor(editor);
    if parts.len() == 0 {
        return None;
    }
    let ghost before = parts@;
    parts.push(owned(file));
    assert(forall|i: int| 0 <= i < before.len() ==> parts@[i] == before[i]);
    Some(parts)
}

} // verus!
