use grimoire::sandbox::{
    apply, apply_fs_jail, apply_resource_limits, HostTools, SandboxConfig, SpawnCommand,
};

fn command() -> SpawnCommand {
    SpawnCommand::new("/bin/true")
}

#[test]
fn no_sandbox_returns_unchanged() {
    let wrapped = apply_resource_limits(command(), None, true);
    assert_eq!(wrapped.program, "/bin/true");
}

#[test]
fn empty_sandbox_returns_unchanged() {
    let s = SandboxConfig::default();
    let wrapped = apply_resource_limits(command(), Some(&s), true);
    assert_eq!(wrapped.program, "/bin/true");
}

#[test]
fn cgroup_limits_route_through_systemd_run_when_available() {
    let s = SandboxConfig {
        memory_max: Some(256 * 1024 * 1024),
        cpu_quota_percent: Some(50),
        ..SandboxConfig::default()
    };
    let wrapped = apply_resource_limits(command(), Some(&s), true);
    assert_eq!(wrapped.program, "systemd-run");
    let args = wrapped.args;
    assert!(args.iter().any(|a| a == "--property=MemoryMax=268435456"));
    assert!(args.iter().any(|a| a == "--property=CPUQuota=50%"));
    assert!(args.iter().any(|a| a == "/bin/true"));
}

#[test]
fn limits_are_left_out_without_systemd_run() {
    let s = SandboxConfig { memory_max: Some(1), ..SandboxConfig::default() };
    let wrapped = apply_resource_limits(command(), Some(&s), false);
    assert_eq!(wrapped.program, "/bin/true");
    assert!(wrapped.args.is_empty());
}

#[test]
fn systemd_run_line() {
    let mut cmd = command();
    cmd.arg("-x");
    cmd.env.push(("A".to_string(), Some("1".to_string())));
    cmd.env.push(("B".to_string(), None));
    cmd.cwd = Some("/w".to_string());
    let s = SandboxConfig { cpu_quota_percent: Some(20), ..SandboxConfig::default() };
    let w = apply_resource_limits(cmd, Some(&s), true);
    assert_eq!(
        w.args,
        vec![
            "--user", "--scope", "--quiet", "--collect", "--property=CPUQuota=20%", "--setenv=A", "--",
            "/bin/true", "-x",
        ]
    );
    assert_eq!(w.env.len(), 2);
    assert_eq!(w.cwd.as_deref(), Some("/w"));
}

#[test]
fn bwrap_line() {
    let mut cmd = command();
    cmd.arg("-x");
    cmd.env.push(("A".to_string(), Some("1".to_string())));
    cmd.cwd = Some("/w".to_string());
    let s = SandboxConfig {
        fs_jail: true,
        ro_paths: vec!["/data".to_string()],
        rw_paths: vec!["/out".to_string()],
        ..SandboxConfig::default()
    };
    let here = vec![true, false, false, false, true, false];
    let w = apply_fs_jail(cmd, Some(&s), true, &here);
    assert_eq!(w.program, "bwrap");
    assert_eq!(
        w.args,
        vec![
            "--die-with-parent", "--new-session", "--unshare-net", "--ro-bind", "/usr", "/usr",
            "--ro-bind", "/bin", "/bin", "--proc", "/proc", "--dev", "/dev", "--tmpfs", "/tmp",
            "--tmpfs", "/run", "--bind", "/w", "/w", "--chdir", "/w", "--ro-bind", "/data", "/data",
            "--bind", "/out", "/out", "--setenv", "A", "1", "--", "/bin/true", "-x",
        ]
    );
}

#[test]
fn network_is_shared_only_on_request() {
    let s = SandboxConfig { fs_jail: true, allow_network: true, ..SandboxConfig::default() };
    let here = vec![false; 6];
    let w = apply_fs_jail(command(), Some(&s), true, &here);
    assert_eq!(w.args[2], "--share-net");
}

#[test]
fn the_scope_wraps_the_jail() {
    let s = SandboxConfig { fs_jail: true, memory_max: Some(5), ..SandboxConfig::default() };
    let host = HostTools { systemd_run: true, bwrap: true, system_dirs: vec![true; 6] };
    let w = apply(command(), Some(&s), &host);
    assert_eq!(w.program, "systemd-run");
    assert!(w.args.iter().any(|a| a == "bwrap"));
    let bare = HostTools { systemd_run: false, bwrap: false, system_dirs: vec![true; 6] };
    assert_eq!(apply(command(), Some(&s), &bare).program, "/bin/true");
    assert_eq!(apply(command(), None, &host).program, "/bin/true");
}
