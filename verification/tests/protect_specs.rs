use acb::protect::{
    install_specs, installation, protect, protect_specs, ps_quote, run_plan, unix_command,
    unprotect, unprotect_specs, windows_elevated_command, CommandSpec, Installation, Os,
};

fn argv(spec: &CommandSpec) -> Vec<String> {
    let mut v = vec![spec.program.clone()];
    v.extend(spec.args.clone());
    v
}

#[test]
fn linux_protect_sets_root_and_immutable() {
    let specs = protect_specs(Os::Linux, "/etc/acb/config.yaml");
    assert!(specs.iter().all(|s| s.elevate));
    assert_eq!(
        specs.iter().map(argv).collect::<Vec<_>>(),
        vec![
            vec!["chown", "root:root", "/etc/acb/config.yaml"],
            vec!["chmod", "0644", "/etc/acb/config.yaml"],
            vec!["chattr", "+i", "/etc/acb/config.yaml"],
        ]
    );
}

#[test]
fn linux_unprotect_clears_immutable_and_restores_owner() {
    let specs = unprotect_specs(Os::Linux, "/etc/acb/config.yaml", "alice");
    assert_eq!(
        specs.iter().map(argv).collect::<Vec<_>>(),
        vec![
            vec!["chattr", "-i", "/etc/acb/config.yaml"],
            vec!["chown", "alice", "/etc/acb/config.yaml"],
        ]
    );
}

#[test]
fn linux_install_lifts_then_reapplies_lock() {
    let specs = install_specs(Os::Linux, "/etc/acb/config.yaml", "/tmp/staged.yaml");
    let progs: Vec<&str> = specs.iter().map(|s| s.program.as_str()).collect();
    assert_eq!(progs, vec!["chattr", "cp", "chown", "chmod", "chattr"]);
    assert_eq!(specs.first().unwrap().args, vec!["-i", "/etc/acb/config.yaml"]);
    assert_eq!(specs.last().unwrap().args, vec!["+i", "/etc/acb/config.yaml"]);
    assert_eq!(specs[1].args, vec!["/tmp/staged.yaml", "/etc/acb/config.yaml"]);
}

#[test]
fn macos_protect_uses_chflags_schg() {
    let specs = protect_specs(Os::Macos, "/etc/acb/config.yaml");
    let last = specs.last().unwrap();
    assert_eq!(last.program, "chflags");
    assert_eq!(last.args, vec!["schg", "/etc/acb/config.yaml"]);
}

#[test]
fn windows_protect_uses_icacls_owner_and_acl() {
    let specs = protect_specs(Os::Windows, "C:\\acb\\config.yaml");
    assert_eq!(specs[0].program, "icacls");
    assert_eq!(
        specs[0].args,
        vec!["C:\\acb\\config.yaml", "/setowner", "BUILTIN\\Administrators"]
    );
    // Second call breaks inheritance and denies the agent write access.
    assert_eq!(specs[1].args[1], "/inheritance:r");
    assert!(specs[1].args.iter().any(|a| a == "BUILTIN\\Users:(RX)"));
}

#[test]
fn windows_install_copies_then_reprotects() {
    let specs = install_specs(Os::Windows, "C:\\acb\\config.yaml", "C:\\tmp\\staged.yaml");
    assert_eq!(specs[0].program, "Copy-Item");
    assert_eq!(
        specs[0].args,
        vec![
            "-LiteralPath",
            "C:\\tmp\\staged.yaml",
            "-Destination",
            "C:\\acb\\config.yaml",
            "-Force"
        ]
    );
    // Followed by the protect sequence.
    assert_eq!(specs[1].program, "icacls");
}

#[test]
fn ps_quote_escapes_single_quotes() {
    assert_eq!(ps_quote("plain"), "'plain'");
    assert_eq!(ps_quote("C:\\a b\\c.yaml"), "'C:\\a b\\c.yaml'");
    assert_eq!(ps_quote("x'y"), "'x''y'");
}

#[test]
fn windows_command_keeps_spacey_path_in_one_literal() {
    let specs = protect_specs(Os::Windows, "C:\\a b\\config.yaml");
    let cmd = windows_elevated_command(&specs);
    assert!(cmd.contains("'C:\\a b\\config.yaml'"));
    assert!(cmd.contains("Start-Process"));
    assert!(cmd.contains("-Verb RunAs"));
    // The abandoned `cmd /c` chain must not reappear.
    assert!(!cmd.contains("/c "));
}

#[test]
fn windows_command_neutralizes_injection_in_path() {
    let specs = install_specs(Os::Windows, "C:\\a'; calc; '.yaml", "C:\\tmp\\staged.yaml");
    let cmd = windows_elevated_command(&specs);
    // The quote/operators survive only as a doubled-quote literal.
    assert!(cmd.contains("''; calc; ''"));
}

#[test]
fn windows_elevated_command_exact_form() {
    let specs = vec![CommandSpec {
        program: "icacls".to_string(),
        args: vec!["C:\\x.yaml".to_string(), "/reset".to_string()],
        elevate: true,
    }];
    let cmd = windows_elevated_command(&specs);
    assert_eq!(
        cmd,
        "Start-Process -FilePath 'powershell' -Verb RunAs -Wait -ArgumentList @('-NoProfile','-Command','$ErrorActionPreference=''Stop''; & ''icacls'' ''C:\\x.yaml'' ''/reset''')"
    );
}

#[test]
fn ps_quote_of_only_quotes() {
    assert_eq!(ps_quote(""), "''");
    assert_eq!(ps_quote("'"), "''''");
}

#[test]
fn install_relocks_on_every_platform() {
    for os in [Os::Linux, Os::Macos, Os::Windows] {
        let ins = install_specs(os, "/p", "/t");
        let prot = protect_specs(os, "/p");
        assert!(ins.iter().all(|s| s.elevate));
        let tail: Vec<Vec<String>> = ins[ins.len() - prot.len()..].iter().map(argv).collect();
        let want: Vec<Vec<String>> = prot.iter().map(argv).collect();
        assert_eq!(tail, want);
    }
}

#[test]
fn unix_commands_run_under_sudo_when_elevated() {
    let sp = CommandSpec {
        program: "chattr".to_string(),
        args: vec!["+i".to_string(), "/p".to_string()],
        elevate: true,
    };
    assert_eq!(unix_command(&sp), vec!["sudo", "chattr", "+i", "/p"]);
    let plain = CommandSpec { program: "ls".to_string(), args: vec![], elevate: false };
    assert_eq!(unix_command(&plain), vec!["ls"]);
}

#[test]
fn run_plan_windows_is_one_elevated_powershell() {
    let specs = protect_specs(Os::Windows, "C:\\acb\\config.yaml");
    let plan = run_plan(Os::Windows, &specs);
    assert_eq!(plan.len(), 1);
    assert_eq!(plan[0][0], "powershell");
    assert_eq!(plan[0][1], "-NoProfile");
    assert_eq!(plan[0][2], "-Command");
    assert_eq!(plan[0][3], windows_elevated_command(&specs));
    assert!(run_plan(Os::Windows, &Vec::new()).is_empty());
}

#[test]
fn protect_and_unprotect_command_lines_on_linux() {
    assert_eq!(
        protect(Os::Linux, "/etc/acb/config.yaml"),
        vec![
            vec!["sudo", "chown", "root:root", "/etc/acb/config.yaml"],
            vec!["sudo", "chmod", "0644", "/etc/acb/config.yaml"],
            vec!["sudo", "chattr", "+i", "/etc/acb/config.yaml"],
        ]
    );
    assert_eq!(
        unprotect(Os::Macos, "/etc/acb/config.yaml", "bob"),
        vec![
            vec!["sudo", "chflags", "noschg", "/etc/acb/config.yaml"],
            vec!["sudo", "chown", "bob", "/etc/acb/config.yaml"],
        ]
    );
}

#[test]
fn installation_routes_by_protection() {
    match installation(Os::Linux, false, "/p", "/t") {
        Installation::Write => {}
        _ => panic!("an unprotected file is written directly"),
    }
    match installation(Os::Linux, true, "/p", "/t") {
        Installation::Privileged { install, relock } => {
            assert_eq!(install.len(), 5);
            assert_eq!(relock.len(), 3);
        }
        _ => panic!("a protected file goes through the privileged path"),
    }
}
