//! Operator-side protection for `config.yaml`: the privileged command
//! sequences that make the policy file root-owned and immutable (or lift
//! and re-apply that lock), and the elevated command lines that run them.
//!
//! Everything here is a pure builder that takes the target operating system
//! as a parameter, so the exact argv for every platform can be checked on
//! any host; running the commands is the caller's job.

use vstd::prelude::*;

use crate::text::{owned, push_str_chars, string_from_chars, to_chars};

verus! {

/// Operating-system family that decides which protection mechanism to use.
#[derive(Debug, Clone, Copy, PartialEq, Eq)]
pub enum Os {
    Linux,
    Macos,
    Windows,
}

/// One command in a protection sequence. `elevate` means it must run as
/// root (sudo) on Unix or under UAC on Windows.
#[derive(Debug)]
pub struct CommandSpec {
    pub program: String,
    pub args: Vec<String>,
    pub elevate: bool,
}

/// What a [`CommandSpec`] says, as text.
pub struct CommandView {
    pub program: Seq<char>,
    pub args: Seq<Seq<char>>,
    pub elevate: bool,
}

impl View for CommandSpec {
    type V = CommandView;

    open spec fn view(&self) -> CommandView {
        CommandView {
            program: self.program@,
            args: string_views(self.args@),
            elevate: self.elevate,
        }
    }
}

/// The views of a list of commands.
pub open spec fn views(v: Seq<CommandSpec>) -> Seq<CommandView> {
    Seq::new(v.len(), |j: int| v[j]@)
}

/// The texts of a list of strings.
pub open spec fn string_views(v: Seq<String>) -> Seq<Seq<char>> {
    Seq::new(v.len(), |j: int| v[j]@)
}

/// The texts of a list of string slices.
pub open spec fn str_views(v: Seq<&str>) -> Seq<Seq<char>> {
    Seq::new(v.len(), |j: int| v[j]@)
}

/// An elevated command.
pub open spec fn elevated(program: Seq<char>, args: Seq<Seq<char>>) -> CommandView {
    CommandView { program, args, elevate: true }
}

/// Commands that make `f` immutable and owned by root/Administrators.
pub open spec fn protect_plan(os: Os, f: Seq<char>) -> Seq<CommandView> {
    match os {
        Os::Linux => seq![
            elevated("chown"@, seq!["root:root"@, f]),
            elevated("chmod"@, seq!["0644"@, f]),
            elevated("chattr"@, seq!["+i"@, f]),
        ],
        Os::Macos => seq![
            elevated("chown"@, seq!["root:wheel"@, f]),
            elevated("chmod"@, seq!["0644"@, f]),
            elevated("chflags"@, seq!["schg"@, f]),
        ],
        Os::Windows => seq![
            elevated("icacls"@, seq![f, "/setowner"@, "BUILTIN\\Administrators"@]),
            elevated(
                "icacls"@,
                seq![
                    f,
                    "/inheritance:r"@,
                    "/grant:r"@,
                    "SYSTEM:(R,W)"@,
                    "/grant:r"@,
                    "BUILTIN\\Administrators:(F)"@,
                    "/grant:r"@,
                    "BUILTIN\\Users:(RX)"@,
                ],
            ),
        ],
    }
}

/// Commands that undo [`protect_plan`], handing `f` back to `owner`.
pub open spec fn unprotect_plan(os: Os, f: Seq<char>, owner: Seq<char>) -> Seq<CommandView> {
    match os {
        Os::Linux => seq![elevated("chattr"@, seq!["-i"@, f]), elevated("chown"@, seq![owner, f])],
        Os::Macos => seq![
            elevated("chflags"@, seq!["noschg"@, f]),
            elevated("chown"@, seq![owner, f]),
        ],
        Os::Windows => seq![
            elevated("icacls"@, seq![f, "/setowner"@, owner]),
            elevated("icacls"@, seq![f, "/reset"@]),
        ],
    }
}

/// Commands that replace the contents of the protected file `f` with `t`.
pub open spec fn install_plan(os: Os, f: Seq<char>, t: Seq<char>) -> Seq<CommandView> {
    match os {
        Os::Linux => seq![
            elevated("chattr"@, seq!["-i"@, f]),
            elevated("cp"@, seq![t, f]),
        ] + protect_plan(os, f),
        Os::Macos => seq![
            elevated("chflags"@, seq!["noschg"@, f]),
            elevated("cp"@, seq![t, f]),
        ] + protect_plan(os, f),
        Os::Windows => seq![
            elevated(
                "Copy-Item"@,
                seq!["-LiteralPath"@, t, "-Destination"@, f, "-Force"@],
            ),
        ] + protect_plan(os, f),
    }
}

/// An elevated command from a program name and its arguments.
fn s(program: &str, args: Vec<&str>) -> (c: CommandSpec)
    ensures
        c@ == elevated(program@, str_views(args@)),
{
    let mut out: Vec<String> = Vec::new();
    let mut i: usize = 0;
    while i < args.len()
        invariant
            i <= args.len(),
            string_views(out@) == str_views(args@.take(i as int)),
        decreases args.len() - i,
    {
        let a = owned(args[i]);
        let ghost old_out = out@;
        assert(string_views(old_out).len() == old_out.len());
        assert(str_views(args@.take(i as int)).len() == i);
        assert(old_out.len() == i);
        out.push(a);
        assert(out@.len() == i + 1);
        assert forall|j: int| 0 <= j <= i implies #[trigger] string_views(out@)[j] == str_views(
            args@.take(i + 1),
        )[j] by {
            if j < i {
                assert(out@[j] == old_out[j]);
                assert(string_views(old_out)[j] == str_views(args@.take(i as int))[j]);
            } else {
                assert(out@[j] == a);
            }
        }
        i = i + 1;
        assert(string_views(out@) =~= str_views(args@.take(i as int)));
    }
    assert(args@.take(args.len() as int) =~= args@);
    CommandSpec { program: owned(program), args: out, elevate: true }
}

/// Commands that make `path` immutable and owned by root/Administrators so a
/// non-privileged agent cannot rewrite the policy. Ownership is the primary
/// lock (works even on filesystems that ignore the immutable flag); the
/// immutable flag is defense-in-depth.
pub fn protect_specs(os: Os, path: &str) -> (r: Vec<CommandSpec>)
    ensures
        views(r@) == protect_plan(os, path@),
{
    let f = path;
    match os {
        Os::Linux => {
            let a = vec!["root:root", f];
            let b = vec!["0644", f];
            let c = vec!["+i", f];
            assert(str_views(a@) =~= seq!["root:root"@, f@]);
            assert(str_views(b@) =~= seq!["0644"@, f@]);
            assert(str_views(c@) =~= seq!["+i"@, f@]);
            let r = vec![s("chown", a), s("chmod", b), s("chattr", c)];
            assert(views(r@) =~= protect_plan(os, path@));
            r
        },
        Os::Macos => {
            let a = vec!["root:wheel", f];
            let b = vec!["0644", f];
            let c = vec!["schg", f];
            assert(str_views(a@) =~= seq!["root:wheel"@, f@]);
            assert(str_views(b@) =~= seq!["0644"@, f@]);
            assert(str_views(c@) =~= seq!["schg"@, f@]);
            let r = vec![s("chown", a), s("chmod", b), s("chflags", c)];
            assert(views(r@) =~= protect_plan(os, path@));
            r
        },
        Os::Windows => {
            let a = vec![f, "/setowner", "BUILTIN\\Administrators"];
            let b = vec![
                f,
                "/inheritance:r",
                "/grant:r",
                "SYSTEM:(R,W)",
                "/grant:r",
                "BUILTIN\\Administrators:(F)",
                "/grant:r",
                "BUILTIN\\Users:(RX)",
            ];
            assert(str_views(a@) =~= seq![f@, "/setowner"@, "BUILTIN\\Administrators"@]);
            assert(str_views(b@) =~= seq![
                f@,
                "/inheritance:r"@,
                "/grant:r"@,
                "SYSTEM:(R,W)"@,
                "/grant:r"@,
                "BUILTIN\\Administrators:(F)"@,
                "/grant:r"@,
                "BUILTIN\\Users:(RX)"@,
            ]);
            let r = vec![s("icacls", a), s("icacls", b)];
            assert(views(r@) =~= protect_plan(os, path@));
            r
        },
    }
}

/// Reverse of [`protect_specs`]: clear the immutable flag and hand ownership
/// back to `owner` so the operator can edit the file normally again.
pub fn unprotect_specs(os: Os, path: &str, owner: &str) -> (r: Vec<CommandSpec>)
    ensures
        views(r@) == unprotect_plan(os, path@, owner@),
{
    let f = path;
    match os {
        Os::Linux => {
            let a = vec!["-i", f];
            let b = vec![owner, f];
            assert(str_views(a@) =~= seq!["-i"@, f@]);
            assert(str_views(b@) =~= seq![owner@, f@]);
            let r = vec![s("chattr", a), s("chown", b)];
            assert(views(r@) =~= unprotect_plan(os, path@, owner@));
            r
        },
        Os::Macos => {
            let a = vec!["noschg", f];
            let b = vec![owner, f];
            assert(str_views(a@) =~= seq!["noschg"@, f@]);
            assert(str_views(b@) =~= seq![owner@, f@]);
            let r = vec![s("chflags", a), s("chown", b)];
            assert(views(r@) =~= unprotect_plan(os, path@, owner@));
            r
        },
        Os::Windows => {
            let a = vec![f, "/setowner", owner];
            let b = vec![f, "/reset"];
            assert(str_views(a@) =~= seq![f@, "/setowner"@, owner@]);
            assert(str_views(b@) =~= seq![f@, "/reset"@]);
            let r = vec![s("icacls", a), s("icacls", b)];
            assert(views(r@) =~= unprotect_plan(os, path@, owner@));
            r
        },
    }
}

/// Replace the contents of a *protected* file with `staged`, keeping the
/// protection intact: lift the lock, copy the validated content in as root,
/// then re-apply ownership and the immutable flag.
pub fn install_specs(os: Os, path: &str, staged: &str) -> (r: Vec<CommandSpec>)
    ensures
        views(r@) == install_plan(os, path@, staged@),
{
    let f = path;
    let t = staged;
    let mut v = match os {
        Os::Linux => {
            let a = vec!["-i", f];
            let b = vec![t, f];
            assert(str_views(a@) =~= seq!["-i"@, f@]);
            assert(str_views(b@) =~= seq![t@, f@]);
            vec![s("chattr", a), s("cp", b)]
        },
        Os::Macos => {
            let a = vec!["noschg", f];
            let b = vec![t, f];
            assert(str_views(a@) =~= seq!["noschg"@, f@]);
            assert(str_views(b@) =~= seq![t@, f@]);
            vec![s("chflags", a), s("cp", b)]
        },
        Os::Windows => {
            // After protect, Administrators has Full Control, so an elevated
            // Copy-Item can overwrite in place; re-assert owner/ACL afterward.
            // `-LiteralPath` disables globbing.
            let a = vec!["-LiteralPath", t, "-Destination", f, "-Force"];
            assert(str_views(a@) =~= seq!["-LiteralPath"@, t@, "-Destination"@, f@, "-Force"@]);
            vec![s("Copy-Item", a)]
        },
    };
    let ghost head = v@;
    let ghost head_plan = install_plan(os, path@, staged@).take(head.len() as int);
    assert(views(head) =~= head_plan);
    let mut rest = protect_specs(os, path);
    let ghost tail = rest@;
    v.append(&mut rest);
    assert(v@ =~= head + tail);
    assert(views(v@) =~= views(head) + views(tail));
    assert(install_plan(os, path@, staged@) =~= head_plan + protect_plan(os, path@));
    v
}

/// Every protection command runs with elevated privileges, and installing
/// into a protected file ends by re-applying the whole protect sequence.
pub proof fn law_install_relocks(os: Os, f: Seq<char>, t: Seq<char>)
    ensures
        forall|i: int| 0 <= i < protect_plan(os, f).len() ==> #[trigger] protect_plan(os, f)[i].elevate,
        forall|i: int| 0 <= i < install_plan(os, f, t).len() ==> #[trigger] install_plan(os, f, t)[i].elevate,
        forall|o: Seq<char>, i: int| 0 <= i < unprotect_plan(os, f, o).len() ==> #[trigger] unprotect_plan(os, f, o)[i].elevate,
        install_plan(os, f, t).len() >= protect_plan(os, f).len(),
        install_plan(os, f, t).skip(install_plan(os, f, t).len() - protect_plan(os, f).len())
            == protect_plan(os, f),
{
    let p = protect_plan(os, f);
    let ins = install_plan(os, f, t);
    assert(ins.skip(ins.len() - p.len()) =~= p);
    assert forall|i: int| 0 <= i < ins.len() implies #[trigger] ins[i].elevate by {
        if i >= ins.len() - p.len() {
            assert(ins[i] == p[i - (ins.len() - p.len())]);
        }
    }
}

/// Whether command `c` copies the file at `src` onto `dst`: `cp <src> <dst>`,
/// or PowerShell's `Copy-Item -LiteralPath <src> -Destination <dst> -Force`.
pub open spec fn copies(c: CommandView, src: Seq<char>, dst: Seq<char>) -> bool {
    ||| c.program == "cp"@ && c.args == seq![src, dst]
    ||| c.program == "Copy-Item"@ && c.args == seq![
        "-LiteralPath"@,
        src,
        "-Destination"@,
        dst,
        "-Force"@,
    ]
}

/// Whether command `c` makes `owner` the owner of the file `f`:
/// `chown <owner> <f>`, or `icacls <f> /setowner <owner>`.
pub open spec fn sets_owner(c: CommandView, f: Seq<char>, owner: Seq<char>) -> bool {
    ||| c.program == "chown"@ && c.args == seq![owner, f]
    ||| c.program == "icacls"@ && c.args == seq![f, "/setowner"@, owner]
}

/// Protecting hands the policy to the privileged account and locks it;
/// unprotecting lifts the lock: on Linux the plan sets the immutable flag
/// (`chattr +i`) and unprotecting clears it (`chattr -i`); on macOS the
/// system-immutable flag (`chflags schg` / `chflags noschg`); on Windows the
/// owner becomes Administrators and unprotecting resets the ACL
/// (`icacls <f> /reset`). Every such command names the policy path.
pub proof fn law_protect_locks_and_unprotect_unlocks(os: Os, f: Seq<char>, owner: Seq<char>)
    ensures
        os == Os::Linux ==> exists|i: int|
            0 <= i < protect_plan(os, f).len() && #[trigger] sets_owner(
                protect_plan(os, f)[i],
                f,
                "root:root"@,
            ),
        os == Os::Macos ==> exists|i: int|
            0 <= i < protect_plan(os, f).len() && #[trigger] sets_owner(
                protect_plan(os, f)[i],
                f,
                "root:wheel"@,
            ),
        os == Os::Windows ==> exists|i: int|
            0 <= i < protect_plan(os, f).len() && #[trigger] sets_owner(
                protect_plan(os, f)[i],
                f,
                "BUILTIN\\Administrators"@,
            ),
        match os {
            Os::Linux => protect_plan(os, f).contains(elevated("chattr"@, seq!["+i"@, f]))
                && unprotect_plan(os, f, owner).contains(elevated("chattr"@, seq!["-i"@, f])),
            Os::Macos => protect_plan(os, f).contains(elevated("chflags"@, seq!["schg"@, f]))
                && unprotect_plan(os, f, owner).contains(
                elevated("chflags"@, seq!["noschg"@, f]),
            ),
            Os::Windows => unprotect_plan(os, f, owner).contains(
                elevated("icacls"@, seq![f, "/reset"@]),
            ),
        },
{
    let p = protect_plan(os, f);
    let u = unprotect_plan(os, f, owner);
    match os {
        Os::Linux => {
            assert(sets_owner(p[0], f, "root:root"@));
            assert(p[2] == elevated("chattr"@, seq!["+i"@, f]));
            assert(u[0] == elevated("chattr"@, seq!["-i"@, f]));
        },
        Os::Macos => {
            assert(sets_owner(p[0], f, "root:wheel"@));
            assert(p[2] == elevated("chflags"@, seq!["schg"@, f]));
            assert(u[0] == elevated("chflags"@, seq!["noschg"@, f]));
        },
        Os::Windows => {
            assert(sets_owner(p[0], f, "BUILTIN\\Administrators"@));
            assert(u[1] == elevated("icacls"@, seq![f, "/reset"@]));
        },
    }
}

/// Installing puts the staged edit into the policy, never the other way
/// round: on every OS the install plan copies the staged file onto the
/// policy path, with elevated rights, after the lock is lifted and before
/// the protect sequence re-locks it.
pub proof fn law_install_copies_staged_onto_policy(os: Os, f: Seq<char>, t: Seq<char>)
    ensures
        exists|i: int|
            0 <= i < install_plan(os, f, t).len() - protect_plan(os, f).len() && #[trigger] copies(
                install_plan(os, f, t)[i],
                t,
                f,
            ) && install_plan(os, f, t)[i].elevate,
{
    let p = install_plan(os, f, t);
    match os {
        Os::Windows => {
            assert(copies(p[0], t, f));
        },
        _ => {
            assert(copies(p[1], t, f));
        },
    }
}

/// Unprotecting hands the policy back to the operator: on every OS some
/// elevated command of the plan makes exactly the given `owner` the owner
/// of the policy path, so plans for different owners differ.
pub proof fn law_unprotect_hands_file_to_owner(os: Os, f: Seq<char>, owner: Seq<char>, other: Seq<char>)
    ensures
        exists|i: int|
            0 <= i < unprotect_plan(os, f, owner).len() && #[trigger] sets_owner(
                unprotect_plan(os, f, owner)[i],
                f,
                owner,
            ) && unprotect_plan(os, f, owner)[i].elevate,
        owner != other ==> unprotect_plan(os, f, owner) != unprotect_plan(os, f, other),
{
    let p = unprotect_plan(os, f, owner);
    let q = unprotect_plan(os, f, other);
    match os {
        Os::Windows => {
            assert(sets_owner(p[0], f, owner));
            if owner != other {
                assert(p[0].args[2] != q[0].args[2]);
            }
        },
        _ => {
            assert(sets_owner(p[1], f, owner));
            if owner != other {
                assert(p[1].args[0] != q[1].args[0]);
            }
        },
    }
}

/// Outcome of a visudo-style edit of the policy file.
#[derive(Debug, PartialEq, Eq)]
pub enum EditStatus {
    /// The editor exited without changing the file.
    Unchanged,
    /// A validated new policy was written back.
    Saved,
}

/// `s` with every `'` doubled.
pub open spec fn ps_escape(s: Seq<char>) -> Seq<char>
    decreases s.len(),
{
    if s.len() == 0 {
        Seq::empty()
    } else {
        (if s[0] == '\'' {
            seq!['\'', '\'']
        } else {
            seq![s[0]]
        }) + ps_escape(s.drop_first())
    }
}

/// A PowerShell single-quoted literal holding `s`.
pub open spec fn ps_literal(s: Seq<char>) -> Seq<char> {
    seq!['\''] + ps_escape(s) + seq!['\'']
}

/// The body of a single-quoted literal is well formed when its quotes come
/// in doubled pairs only, so the literal cannot end early.
pub open spec fn quotes_paired(x: Seq<char>) -> bool
    decreases x.len(),
{
    if x.len() == 0 {
        true
    } else if x[0] == '\'' {
        x.len() >= 2 && x[1] == '\'' && quotes_paired(x.skip(2))
    } else {
        quotes_paired(x.drop_first())
    }
}

/// What PowerShell reads back from the body of a single-quoted literal.
pub open spec fn ps_unescape(x: Seq<char>) -> Seq<char>
    decreases x.len(),
{
    if x.len() == 0 {
        Seq::empty()
    } else if x[0] == '\'' && x.len() >= 2 && x[1] == '\'' {
        seq!['\''] + ps_unescape(x.skip(2))
    } else {
        seq![x[0]] + ps_unescape(x.drop_first())
    }
}

proof fn lemma_ps_escape_concat(a: Seq<char>, b: Seq<char>)
    ensures
        ps_escape(a + b) == ps_escape(a) + ps_escape(b),
    decreases a.len(),
{
    if a.len() == 0 {
        assert(a + b =~= b);
        assert(ps_escape(a) + ps_escape(b) =~= ps_escape(b));
    } else {
        assert((a + b)[0] == a[0]);
        assert((a + b).drop_first() =~= a.drop_first() + b);
        lemma_ps_escape_concat(a.drop_first(), b);
        let head = if a[0] == '\'' {
            seq!['\'', '\'']
        } else {
            seq![a[0]]
        };
        assert(head + (ps_escape(a.drop_first()) + ps_escape(b)) =~= (head + ps_escape(
            a.drop_first(),
        )) + ps_escape(b));
    }
}

/// Quoting is injection-safe and lossless: inside the quoted literal every
/// `'` is doubled, so the literal ends only at its closing quote, and
/// PowerShell reads back exactly `s`.
pub proof fn law_ps_quote_roundtrip(s: Seq<char>)
    ensures
        quotes_paired(ps_escape(s)),
        ps_unescape(ps_escape(s)) == s,
    decreases s.len(),
{
    if s.len() > 0 {
        law_ps_quote_roundtrip(s.drop_first());
        let e = ps_escape(s);
        let r = ps_escape(s.drop_first());
        if s[0] == '\'' {
            assert(e =~= seq!['\'', '\''] + r);
            assert(e.skip(2) =~= r);
            assert(ps_unescape(e) =~= seq!['\''] + ps_unescape(r));
        } else {
            assert(e =~= seq![s[0]] + r);
            assert(e.drop_first() =~= r);
            assert(ps_unescape(e) =~= seq![s[0]] + ps_unescape(r));
        }
        assert(s =~= seq![s[0]] + s.drop_first());
    }
}

/// Append the PowerShell literal for `s` to `out`.
fn push_ps_literal(out: &mut Vec<char>, s: &Vec<char>)
    ensures
        final(out)@ == old(out)@ + ps_literal(s@),
{
    out.push('\'');
    let ghost start = out@;
    let mut i: usize = 0;
    while i < s.len()
        invariant
            i <= s.len(),
            out@ == start + ps_escape(s@.take(i as int)),
        decreases s.len() - i,
    {
        let c = s[i];
        proof {
            lemma_ps_escape_concat(s@.take(i as int), seq![c]);
            assert(s@.take(i + 1) =~= s@.take(i as int) + seq![c]);
            assert(seq![c].drop_first() =~= Seq::<char>::empty());
            assert(ps_escape(Seq::<char>::empty()) == Seq::<char>::empty());
            if c == '\'' {
                assert(ps_escape(seq![c]) =~= seq!['\'', '\'']);
            } else {
                assert(ps_escape(seq![c]) =~= seq![c]);
            }
        }
        if c == '\'' {
            out.push('\'');
            out.push('\'');
        } else {
            out.push(c);
        }
        i = i + 1;
        assert(out@ =~= start + ps_escape(s@.take(i as int)));
    }
    assert(s@.take(s.len() as int) =~= s@);
    out.push('\'');
    assert(out@ =~= old(out)@ + ps_literal(s@));
}

/// Quote a value as a PowerShell single-quoted literal: only `'` is special
/// (escaped by doubling). Used so dynamic paths can never break out of the
/// elevated command into code.
pub fn ps_quote(s: &str) -> (r: String)
    ensures
        r@ == ps_literal(s@),
{
    let v = to_chars(s);
    let mut out: Vec<char> = Vec::new();
    push_ps_literal(&mut out, &v);
    assert(out@ =~= ps_literal(s@));
    string_from_chars(&out)
}

/// ` 'a1' 'a2' ...`: the quoted arguments of a command.
pub open spec fn ps_args(a: Seq<Seq<char>>) -> Seq<char>
    decreases a.len(),
{
    if a.len() == 0 {
        Seq::empty()
    } else {
        ps_args(a.drop_last()) + seq![' '] + ps_literal(a.last())
    }
}

/// `& 'program' 'a1' ...`: one command inside the elevated script.
pub open spec fn ps_line(c: CommandView) -> Seq<char> {
    "& "@ + ps_literal(c.program) + ps_args(c.args)
}

/// The elevated script: stop on the first error, then each command.
pub open spec fn ps_body(cs: Seq<CommandView>) -> Seq<char>
    decreases cs.len(),
{
    if cs.len() == 0 {
        "$ErrorActionPreference='Stop'"@
    } else {
        ps_body(cs.drop_last()) + "; "@ + ps_line(cs.last())
    }
}

/// The single elevated PowerShell command that runs every command of `cs`.
pub open spec fn elevated_command(cs: Seq<CommandView>) -> Seq<char> {
    "Start-Process -FilePath 'powershell' -Verb RunAs -Wait -ArgumentList @('-NoProfile','-Command',"@
        + ps_literal(ps_body(cs)) + ")"@
}

/// Build the single elevated PowerShell command that runs every spec.
/// Each program/argument is embedded as a single-quoted literal, so paths
/// with spaces or metacharacters cannot inject.
pub fn windows_elevated_command(specs: &Vec<CommandSpec>) -> (r: String)
    ensures
        r@ == elevated_command(views(specs@)),
{
    let mut body = to_chars("$ErrorActionPreference='Stop'");
    let mut k: usize = 0;
    while k < specs.len()
        invariant
            k <= specs.len(),
            body@ == ps_body(views(specs@.take(k as int))),
        decreases specs.len() - k,
    {
        let sp = &specs[k];
        let ghost before = body@;
        push_str_chars(&mut body, "; ");
        push_str_chars(&mut body, "& ");
        let prog = to_chars(sp.program.as_str());
        push_ps_literal(&mut body, &prog);
        let mut j: usize = 0;
        while j < sp.args.len()
            invariant
                j <= sp.args.len(),
                body@ == before + "; "@ + "& "@ + ps_literal(sp.program@) + ps_args(
                    string_views(sp.args@).take(j as int),
                ),
            decreases sp.args.len() - j,
        {
            body.push(' ');
            let a = to_chars(sp.args[j].as_str());
            push_ps_literal(&mut body, &a);
            proof {
                let sv = string_views(sp.args@);
                assert(sv.take(j + 1).drop_last() =~= sv.take(j as int));
                assert(sv.take(j + 1).last() == sp.args@[j as int]@);
            }
            j = j + 1;
            assert(body@ =~= before + "; "@ + "& "@ + ps_literal(sp.program@) + ps_args(
                string_views(sp.args@).take(j as int),
            ));
        }
        proof {
            let vs = views(specs@.take(k + 1));
            assert(vs.drop_last() =~= views(specs@.take(k as int)));
            assert(vs.last() == specs@[k as int]@);
            assert(string_views(sp.args@).take(j as int) =~= string_views(sp.args@));
            assert(body@ =~= before + "; "@ + ps_line(vs.last()));
        }
        k = k + 1;
    }
    assert(specs@.take(specs.len() as int) =~= specs@);
    let mut out = to_chars(
        "Start-Process -FilePath 'powershell' -Verb RunAs -Wait -ArgumentList @('-NoProfile','-Command',",
    );
    push_ps_literal(&mut out, &body);
    push_str_chars(&mut out, ")");
    string_from_chars(&out)
}

/// The argv that runs one command on Unix: through `sudo` when elevated.
pub open spec fn unix_argv(c: CommandView) -> Seq<Seq<char>> {
    if c.elevate {
        seq!["sudo"@, c.program] + c.args
    } else {
        seq![c.program] + c.args
    }
}

/// The command lines that run a protection sequence on `os`: nothing for an
/// empty sequence; on Windows one elevated PowerShell (a single UAC prompt);
/// elsewhere one command line per command, in order.
pub open spec fn run_plan_of(os: Os, cs: Seq<CommandView>) -> Seq<Seq<Seq<char>>> {
    if cs.len() == 0 {
        Seq::empty()
    } else if os == Os::Windows {
        seq![seq!["powershell"@, "-NoProfile"@, "-Command"@, elevated_command(cs)]]
    } else {
        Seq::new(cs.len(), |i: int| unix_argv(cs[i]))
    }
}

/// The texts of a list of command lines.
pub open spec fn argv_views(v: Seq<Vec<String>>) -> Seq<Seq<Seq<char>>> {
    Seq::new(v.len(), |i: int| string_views(v[i]@))
}

/// The argv that runs `sp` on Unix.
pub fn unix_command(sp: &CommandSpec) -> (r: Vec<String>)
    ensures
        string_views(r@) == unix_argv(sp@),
{
    let mut r: Vec<String> = Vec::new();
    if sp.elevate {
        r.push(owned("sudo"));
    }
    r.push(owned(sp.program.as_str()));
    let ghost start = r@;
    let mut j: usize = 0;
    while j < sp.args.len()
        invariant
            j <= sp.args.len(),
            r@.len() == start.len() + j,
            forall|i: int| 0 <= i < start.len() ==> r@[i] == start[i],
            forall|i: int| 0 <= i < j ==> #[trigger] r@[start.len() + i]@ == sp.args@[i]@,
        decreases sp.args.len() - j,
    {
        let a = owned(sp.args[j].as_str());
        r.push(a);
        j = j + 1;
    }
    if sp.elevate {
        assert(string_views(start) =~= seq!["sudo"@, sp.program@]);
    } else {
        assert(string_views(start) =~= seq![sp.program@]);
    }
    assert forall|i: int| 0 <= i < r@.len() implies #[trigger] string_views(r@)[i] == unix_argv(
        sp@,
    )[i] by {
        if i >= start.len() {
            assert(r@[start.len() + (i - start.len())]@ == sp.args@[i - start.len()]@);
        } else {
            assert(string_views(start)[i] == start[i]@);
        }
    }
    assert(string_views(r@) =~= unix_argv(sp@));
    r
}

/// The command lines that run `specs` on `os`.
pub fn run_plan(os: Os, specs: &Vec<CommandSpec>) -> (r: Vec<Vec<String>>)
    ensures
        argv_views(r@) == run_plan_of(os, views(specs@)),
{
    let mut r: Vec<Vec<String>> = Vec::new();
    if specs.len() == 0 {
        assert(argv_views(r@) =~= run_plan_of(os, views(specs@)));
        return r;
    }
    match os {
        Os::Windows => {
            let cmd = windows_elevated_command(specs);
            let line = vec![owned("powershell"), owned("-NoProfile"), owned("-Command"), cmd];
            assert(string_views(line@) =~= seq![
                "powershell"@,
                "-NoProfile"@,
                "-Command"@,
                elevated_command(views(specs@)),
            ]);
            r.push(line);
        },
        _ => {
            let mut k: usize = 0;
            while k < specs.len()
                invariant
                    k <= specs.len(),
                    r.len() == k,
                    forall|i: int| 0 <= i < k ==> #[trigger] string_views(r@[i]@) == unix_argv(
                        specs@[i]@,
                    ),
                decreases specs.len() - k,
            {
                let line = unix_command(&specs[k]);
                r.push(line);
                k = k + 1;
            }
        },
    }
    assert(argv_views(r@) =~= run_plan_of(os, views(specs@)));
    r
}

/// Make the policy file at `abs_path` (already resolved to an absolute
/// path) root-owned and immutable: the command lines to run on `os`.
pub fn protect(os: Os, abs_path: &str) -> (r: Vec<Vec<String>>)
    ensures
        argv_views(r@) == run_plan_of(os, protect_plan(os, abs_path@)),
{
    let specs = protect_specs(os, abs_path);
    run_plan(os, &specs)
}

/// Undo [`protect`], handing ownership of `abs_path` back to `user`: the
/// command lines to run on `os`.
pub fn unprotect(os: Os, abs_path: &str, user: &str) -> (r: Vec<Vec<String>>)
    ensures
        argv_views(r@) == run_plan_of(os, unprotect_plan(os, abs_path@, user@)),
{
    let specs = unprotect_specs(os, abs_path, user);
    run_plan(os, &specs)
}

/// How a validated edit reaches the policy file.
pub enum Installation {
    /// The file is writable by us: write it directly.
    Write,
    /// The file is protected: run `install`; should that fail part-way, run
    /// `relock` (best effort) so the file is not left unprotected.
    Privileged { install: Vec<Vec<String>>, relock: Vec<Vec<String>> },
}

/// The installation route for an edit of the policy file at `abs_path`
/// whose validated new content is staged at `staged`.
pub fn installation(os: Os, is_protected: bool, abs_path: &str, staged: &str) -> (r: Installation)
    ensures
        !is_protected ==> r is Write,
        is_protected ==> (r matches Installation::Privileged { install, relock } && argv_views(
            install@,
        ) == run_plan_of(os, install_plan(os, abs_path@, staged@)) && argv_views(relock@)
            == run_plan_of(os, protect_plan(os, abs_path@))),
{
    if is_protected {
        let install = run_plan(os, &install_specs(os, abs_path, staged));
        let relock = protect(os, abs_path);
        Installation::Privileged { install, relock }
    } else {
        Installation::Write
    }
}

} // verus!

verus! {

/// The account ownership is handed back to on unprotect: `$USER`, else
/// `$USERNAME`, else `root` (each variable counts when it is set).
pub open spec fn owner_of(user: Option<Seq<char>>, username: Option<Seq<char>>) -> Seq<char> {
    match user {
        Some(u) => u,
        None => match username {
            Some(n) => n,
            None => "root"@,
        },
    }
}

/// The current user, from the values of `$USER` and `$USERNAME`.
pub fn current_user(user: &Option<String>, username: &Option<String>) -> (r: String)
    ensures
        r@ == owner_of(crate::text::opt_text(*user), crate::text::opt_text(*username)),
{
    match user {
        Some(u) => owned(u.as_str()),
        None => match username {
            Some(n) => owned(n.as_str()),
            None => owned("root"),
        },
    }
}

/// The next step of running a list of command lines in order.
#[derive(Debug, Clone, Copy, PartialEq, Eq)]
pub enum RunStep {
    /// Launch the command line at this index.
    Launch(usize),
    /// Every command line succeeded (or there was none).
    Succeeded,
    /// The command line at this index failed; nothing after it runs.
    Failed(usize),
}

/// The first step of running `n` command lines.
pub fn run_start(n: usize) -> (s: RunStep)
    ensures
        s == (if n == 0 {
            RunStep::Succeeded
        } else {
            RunStep::Launch(0)
        }),
{
    if n == 0 {
        RunStep::Succeeded
    } else {
        RunStep::Launch(0)
    }
}

/// The step after command line `index` of `n` exited, successfully or not.
pub fn run_after(n: usize, index: usize, succeeded: bool) -> (s: RunStep)
    requires
        index < n,
    ensures
        s == (if !succeeded {
            RunStep::Failed(index)
        } else if index + 1 < n {
            RunStep::Launch((index + 1) as usize)
        } else {
            RunStep::Succeeded
        }),
{
    if !succeeded {
        RunStep::Failed(index)
    } else if index + 1 < n {
        RunStep::Launch(index + 1)
    } else {
        RunStep::Succeeded
    }
}

/// Where running ends when command line `i` exits with `ok[i]`, the ones
/// before `from` having succeeded.
pub open spec fn run_outcome(n: nat, ok: Seq<bool>, from: nat) -> RunStep
    decreases n - from,
{
    if from < n {
        if ok[from as int] {
            run_outcome(n, ok, from + 1)
        } else {
            RunStep::Failed(from as usize)
        }
    } else {
        RunStep::Succeeded
    }
}

proof fn lemma_run_outcome(n: nat, ok: Seq<bool>, from: nat)
    requires
        from <= n <= ok.len(),
        n <= usize::MAX,
    ensures
        match run_outcome(n, ok, from) {
            RunStep::Failed(k) => from <= k < n && !ok[k as int] && forall|j: int|
                from <= j < k ==> #[trigger] ok[j],
            RunStep::Succeeded => forall|j: int| from <= j < n ==> #[trigger] ok[j],
            RunStep::Launch(_) => false,
        },
    decreases n - from,
{
    if from < n && ok[from as int] {
        lemma_run_outcome(n, ok, from + 1);
    }
}

/// Command lines run in order and stop at the first failure. The steps
/// ([`run_start`], then [`run_after`] with each exit status `ok[i]`) launch
/// line 0, 1, ... in turn, so they run as [`run_outcome`] from 0: they end
/// failed at the first line that failed, every line before it having
/// succeeded and none after it launched, or succeeded when every line did.
pub proof fn law_commands_stop_at_first_failure(n: nat, ok: Seq<bool>)
    requires
        n <= ok.len(),
        n <= usize::MAX,
    ensures
        match run_outcome(n, ok, 0) {
            RunStep::Failed(k) => k < n && !ok[k as int] && forall|j: int|
                0 <= j < k ==> #[trigger] ok[j],
            RunStep::Succeeded => forall|j: int| 0 <= j < n ==> #[trigger] ok[j],
            RunStep::Launch(_) => false,
        },
{
    lemma_run_outcome(n, ok, 0);
}

} // verus!
