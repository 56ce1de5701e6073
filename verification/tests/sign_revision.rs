use acb::sign::{bump_revision, current_revision, sig_path, sign_command, split_revision_line, NAMESPACE};

#[test]
fn sign_sig_path_appends_suffix() {
    assert_eq!(sig_path("/x/config.yaml"), "/x/config.yaml.sig");
}

#[test]
fn current_revision_parses_or_none() {
    assert_eq!(current_revision("revision: 7\nrules: []\n"), Some(7));
    assert_eq!(current_revision("revision: 7 # v7\nrules: []\n"), Some(7));
    assert_eq!(current_revision("rules: []\n"), None);
    // Indented (non-top-level) keys are not the policy revision.
    assert_eq!(current_revision("server:\n  revision: 3\n"), None);
}

#[test]
fn bump_increments_in_place_keeping_everything_else() {
    let text = "# policy\nrevision: 41   # bumped by edit-config\nrules: []\n";
    let (out, n) = bump_revision(text);
    assert_eq!(n, 42);
    assert_eq!(out, "# policy\nrevision: 42   # bumped by edit-config\nrules: []\n");
}

#[test]
fn bump_inserts_when_absent() {
    let (out, n) = bump_revision("rules: []\n");
    assert_eq!(n, 1);
    assert_eq!(out, "revision: 1\nrules: []\n");
}

#[test]
fn bump_only_touches_first_top_level_revision() {
    let text = "revision: 1\nrules:\n  - name: revision: 5\n";
    let (out, _) = bump_revision(text);
    assert_eq!(out, "revision: 2\nrules:\n  - name: revision: 5\n");
}

#[test]
fn bumped_revision_reads_back() {
    for text in [
        "rules: []\n",
        "revision: 41   # note\nrules: []\n",
        "a: 1\r\nrevision:9\r\n",
        "",
        "revision: 99",
    ] {
        let (out, n) = bump_revision(text);
        assert_eq!(current_revision(&out), Some(n), "{text:?}");
    }
}

#[test]
fn bump_saturates_at_the_largest_revision() {
    let (out, n) = bump_revision("revision: 18446744073709551615\n");
    assert_eq!(n, u64::MAX);
    assert_eq!(out, "revision: 18446744073709551615\n");
}

#[test]
fn current_revision_edge_cases() {
    // The first line that carries a number wins; an unparsable one is skipped.
    assert_eq!(current_revision("revision: x\nrevision: 4\n"), Some(4));
    assert_eq!(current_revision("revision: +5\n"), Some(5));
    assert_eq!(current_revision("revision:\t12\t# c\n"), Some(12));
    assert_eq!(current_revision("revision: 18446744073709551616\n"), None);
    assert_eq!(current_revision("revision: -1\n"), None);
}

#[test]
fn split_revision_line_parts() {
    assert_eq!(
        split_revision_line("revision: 12   # note\n"),
        ("revision: ".to_string(), "   # note\n".to_string())
    );
    assert_eq!(
        split_revision_line("revision:7"),
        ("revision:".to_string(), "".to_string())
    );
}

#[test]
fn split_revision_line_reads_the_first_nine_bytes_as_the_key() {
    // Whatever the first nine bytes say, the head spells `revision:`.
    assert_eq!(
        split_revision_line("version: 3 abc"),
        ("revision:".to_string(), " abc".to_string())
    );
    assert_eq!(
        split_revision_line("abcdefghi  42x"),
        ("revision:  ".to_string(), "x".to_string())
    );
    assert_eq!(
        split_revision_line("revision:\u{a0}5é"),
        ("revision:\u{a0}".to_string(), "é".to_string())
    );
    assert_eq!(split_revision_line("123456789"), ("revision:".to_string(), "".to_string()));
}

#[test]
fn sign_command_runs_ssh_keygen_in_the_policy_namespace() {
    let c = sign_command("/home/op/.ssh/id_ed25519", "/tmp/stage/config.yaml");
    assert_eq!(c.program, "ssh-keygen");
    assert_eq!(
        c.args,
        vec!["-Y", "sign", "-f", "/home/op/.ssh/id_ed25519", "-n", "acb-policy", "/tmp/stage/config.yaml"]
    );
    assert!(!c.elevate);
    assert_eq!(NAMESPACE, "acb-policy");
}
