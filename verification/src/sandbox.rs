//! Per-agent confinement: rewrites a command so that `systemd-run` caps its
//! resources and `bwrap` jails its view of the filesystem and network. Where
//! a tool is not installed the command stays as it is.

use crate::decimal::{decimal, to_decimal};
use crate::text::{cat, opt_text, own, texts};
use vstd::prelude::*;
use vstd::string::*;

verus! {

/// Limits on an agent's process.
#[derive(Debug)]
pub struct SandboxConfig {
    pub memory_max: Option<u64>,
    pub cpu_quota_percent: Option<u32>,
    pub fs_jail: bool,
    pub allow_network: bool,
    pub ro_paths: Vec<String>,
    pub rw_paths: Vec<String>,
}

impl Default for SandboxConfig {
    /// No limits.
    fn default() -> (s: SandboxConfig)
        ensures
            s.memory_max is None,
            s.cpu_quota_percent is None,
            !s.fs_jail,
            !s.allow_network,
            s.ro_paths@.len() == 0,
            s.rw_paths@.len() == 0,
    {
        SandboxConfig {
            memory_max: None,
            cpu_quota_percent: None,
            fs_jail: false,
            allow_network: false,
            ro_paths: Vec::new(),
            rw_paths: Vec::new(),
        }
    }
}

/// A process to start. A variable without a value is removed.
#[derive(Debug)]
pub struct SpawnCommand {
    pub program: String,
    pub args: Vec<String>,
    pub env: Vec<(String, Option<String>)>,
    pub cwd: Option<String>,
}

/// What a [`SpawnCommand`] holds.
#[verifier::ext_equal]
pub ghost struct CommandView {
    pub program: Seq<char>,
    pub args: Seq<Seq<char>>,
    pub env: Seq<(Seq<char>, Option<Seq<char>>)>,
    pub cwd: Option<Seq<char>>,
}

/// The characters of each variable.
pub open spec fn env_view(env: Seq<(String, Option<String>)>) -> Seq<
    (Seq<char>, Option<Seq<char>>),
> {
    env.map_values(|e: (String, Option<String>)| (e.0@, opt_text(e.1)))
}

impl View for SpawnCommand {
    type V = CommandView;

    open spec fn view(&self) -> CommandView {
        CommandView {
            program: self.program@,
            args: texts(self.args@),
            env: env_view(self.env@),
            cwd: opt_text(self.cwd),
        }
    }
}

impl SpawnCommand {
    /// A command without arguments.
    pub fn new(program: &str) -> (c: SpawnCommand)
        ensures
            c@ == (CommandView {
                program: program@,
                args: seq![],
                env: seq![],
                cwd: None,
            }),
    {
        let c = SpawnCommand {
            program: own(program),
            args: Vec::new(),
            env: Vec::new(),
            cwd: None,
        };
        assert(c@.args =~= Seq::<Seq<char>>::empty());
        assert(c@.env =~= Seq::<(Seq<char>, Option<Seq<char>>)>::empty());
        c
    }

    /// Adds an argument.
    pub fn arg(&mut self, a: &str)
        ensures
            final(self)@ == (CommandView { args: old(self)@.args.push(a@), ..old(self)@ }),
    {
        let ghost before = self.args@;
        let s = own(a);
        self.args.push(s);
        assert(texts(self.args@) =~= texts(before).push(a@));
    }

    /// Adds arguments.
    pub fn arg_list(&mut self, list: &Vec<String>)
        ensures
            final(self)@ == (CommandView { args: old(self)@.args + texts(list@), ..old(self)@ }),
    {
        let ghost before = self@.args;
        assert(before + texts(list@).take(0) =~= before);
        for i in 0..list.len()
            invariant
                self@.args == before + texts(list@).take(i as int),
                self@.env == old(self)@.env,
                self@.program == old(self)@.program,
                self@.cwd == old(self)@.cwd,
        {
            self.arg(list[i].as_str());
            assert(texts(list@).take(i + 1) =~= texts(list@).take(i as int).push(
                list@[i as int]@,
            ));
            assert(self@.args =~= before + texts(list@).take(i + 1));
        }
        assert(texts(list@).take(list@.len() as int) =~= texts(list@));
    }
}

// ---------------------------------------------------------------------------
// Resource limits
// ---------------------------------------------------------------------------

/// Whether the sandbox has a cap that `systemd-run` can apply.
pub open spec fn limits_resources(s: SandboxConfig) -> bool {
    s.memory_max is Some || s.cpu_quota_percent is Some
}

fn has_cgroup_limits(s: &SandboxConfig) -> (r: bool)
    ensures
        r == limits_resources(*s),
{
    s.memory_max.is_some() || s.cpu_quota_percent.is_some()
}

/// The properties that cap resources.
pub open spec fn limit_args(s: SandboxConfig) -> Seq<Seq<char>> {
    let memory: Seq<Seq<char>> = match s.memory_max {
        Some(n) => seq!["--property=MemoryMax="@ + decimal(n as nat)],
        None => seq![],
    };
    let cpu: Seq<Seq<char>> = match s.cpu_quota_percent {
        Some(n) => seq!["--property=CPUQuota="@ + decimal(n as nat) + "%"@],
        None => seq![],
    };
    memory + cpu
}

/// For each variable with a value, its name as `systemd-run` takes it.
pub open spec fn setenv_names(env: Seq<(Seq<char>, Option<Seq<char>>)>) -> Seq<Seq<char>>
    decreases env.len(),
{
    if env.len() == 0 {
        seq![]
    } else {
        let before = setenv_names(env.drop_last());
        if env.last().1 is Some {
            before.push("--setenv="@ + env.last().0)
        } else {
            before
        }
    }
}

/// The command under `systemd-run`, with the same variables and directory. Its
/// own line stands unchanged behind `--`.
pub open spec fn under_systemd_run(c: CommandView, s: SandboxConfig) -> CommandView {
    CommandView {
        program: "systemd-run"@,
        args: seq!["--user"@, "--scope"@, "--quiet"@, "--collect"@] + limit_args(s)
            + setenv_names(c.env) + seq!["--"@, c.program] + c.args,
        env: c.env,
        cwd: c.cwd,
    }
}

fn wrap_with_systemd_run(cmd: SpawnCommand, s: &SandboxConfig) -> (r: SpawnCommand)
    ensures
        r@ == under_systemd_run(cmd@, *s),
{
    let mut w = SpawnCommand::new("systemd-run");
    w.arg("--user");
    w.arg("--scope");
    w.arg("--quiet");
    w.arg("--collect");
    let ghost head = seq!["--user"@, "--scope"@, "--quiet"@, "--collect"@];
    assert(w@.args =~= head);
    if let Some(n) = s.memory_max {
        let a = cat("--property=MemoryMax=", to_decimal(n).as_str());
        w.arg(a.as_str());
    }
    if let Some(n) = s.cpu_quota_percent {
        let mut a = cat("--property=CPUQuota=", to_decimal(n as u64).as_str());
        a.append("%");
        w.arg(a.as_str());
    }
    let ghost base = head + limit_args(*s);
    assert(w@.args =~= base);
    let ghost env = env_view(cmd.env@);
    assert(base + setenv_names(env.take(0)) =~= base);
    for i in 0..cmd.env.len()
        invariant
            env == env_view(cmd.env@),
            w@.args == base + setenv_names(env.take(i as int)),
            w@.program == "systemd-run"@,
    {
        proof {
            let now = env.take(i + 1);
            assert(now.drop_last() =~= env.take(i as int));
            assert(now.last() == env[i as int]);
            assert(env[i as int] == (cmd.env@[i as int].0@, opt_text(cmd.env@[i as int].1)));
        }
        let (k, v) = &cmd.env[i];
        if v.is_some() {
            let a = cat("--setenv=", k.as_str());
            w.arg(a.as_str());
        }
        assert(w@.args =~= base + setenv_names(env.take(i + 1)));
    }
    assert(env.take(env.len() as int) =~= env);
    w.arg("--");
    w.arg(cmd.program.as_str());
    assert(w@.args =~= base + setenv_names(env) + seq!["--"@, cmd.program@]);
    w.arg_list(&cmd.args);
    let args = w.args;
    let r = SpawnCommand { program: w.program, args, env: cmd.env, cwd: cmd.cwd };
    assert(r@ =~= under_systemd_run(cmd@, *s));
    r
}

/// Wraps a command in a scope with the requested caps. It stays as it is
/// where there is nothing to enforce, or `systemd-run` is not `available`.
pub fn apply_resource_limits(
    cmd: SpawnCommand,
    sandbox: Option<&SandboxConfig>,
    available: bool,
) -> (r: SpawnCommand)
    ensures
        r@ == with_limits(cmd@, sandbox, available),
{
    match sandbox {
        None => cmd,
        Some(s) => if has_cgroup_limits(s) && available {
            wrap_with_systemd_run(cmd, s)
        } else {
            cmd
        },
    }
}

/// The command with the requested caps, where they can be applied.
pub open spec fn with_limits(
    c: CommandView,
    sandbox: Option<&SandboxConfig>,
    available: bool,
) -> CommandView {
    match sandbox {
        Some(s) => if limits_resources(*s) && available {
            under_systemd_run(c, *s)
        } else {
            c
        },
        None => c,
    }
}

// ---------------------------------------------------------------------------
// Filesystem jail
// ---------------------------------------------------------------------------

/// The system directories that a jail shows read-only, where they exist.
pub open spec fn system_dirs() -> Seq<Seq<char>> {
    seq!["/usr"@, "/etc"@, "/lib"@, "/lib64"@, "/bin"@, "/sbin"@]
}

/// A mount of each path onto itself, with a flag.
pub open spec fn mounts(flag: Seq<char>, paths: Seq<Seq<char>>) -> Seq<Seq<char>>
    decreases paths.len(),
{
    if paths.len() == 0 {
        seq![]
    } else {
        mounts(flag, paths.drop_last()) + seq![flag, paths.last(), paths.last()]
    }
}

/// The paths whose flag is set.
pub open spec fn present(paths: Seq<Seq<char>>, exists_here: Seq<bool>) -> Seq<Seq<char>>
    decreases paths.len(),
{
    if paths.len() == 0 {
        seq![]
    } else {
        let before = present(paths.drop_last(), exists_here);
        if exists_here[paths.len() - 1] {
            before.push(paths.last())
        } else {
            before
        }
    }
}

/// Each variable with a value, as `bwrap` takes it.
pub open spec fn setenv_args(env: Seq<(Seq<char>, Option<Seq<char>>)>) -> Seq<Seq<char>>
    decreases env.len(),
{
    if env.len() == 0 {
        seq![]
    } else {
        let before = setenv_args(env.drop_last());
        match env.last().1 {
            Some(v) => before + seq!["--setenv"@, env.last().0, v],
            None => before,
        }
    }
}

/// How the working directory is mounted: writable, and entered.
pub open spec fn cwd_args(cwd: Option<Seq<char>>) -> Seq<Seq<char>> {
    match cwd {
        Some(d) => seq!["--bind"@, d, d, "--chdir"@, d],
        None => seq![],
    }
}

/// The command under `bwrap`, with the same variables and directory.
/// `exists_here` says which of the system directories exist.
pub open spec fn under_bwrap(c: CommandView, s: SandboxConfig, exists_here: Seq<bool>) -> CommandView {
    CommandView {
        program: "bwrap"@,
        args: seq![
            "--die-with-parent"@,
            "--new-session"@,
            if s.allow_network {
                "--share-net"@
            } else {
                "--unshare-net"@
            },
        ] + mounts("--ro-bind"@, present(system_dirs(), exists_here)) + seq![
            "--proc"@,
            "/proc"@,
            "--dev"@,
            "/dev"@,
            "--tmpfs"@,
            "/tmp"@,
            "--tmpfs"@,
            "/run"@,
        ] + cwd_args(c.cwd) + mounts("--ro-bind"@, texts(s.ro_paths@)) + mounts(
            "--bind"@,
            texts(s.rw_paths@),
        ) + setenv_args(c.env) + seq!["--"@, c.program] + c.args,
        env: c.env,
        cwd: c.cwd,
    }
}

impl SpawnCommand {
    /// Mounts each path onto itself.
    fn mount_all(&mut self, flag: &str, paths: &Vec<String>)
        ensures
            final(self)@ == (CommandView {
                args: old(self)@.args + mounts(flag@, texts(paths@)),
                ..old(self)@
            }),
    {
        let ghost before = self@.args;
        assert(texts(paths@).take(0) =~= Seq::<Seq<char>>::empty());
        assert(before + mounts(flag@, texts(paths@).take(0)) =~= before);
        for i in 0..paths.len()
            invariant
                self@.args == before + mounts(flag@, texts(paths@).take(i as int)),
                self@.env == old(self)@.env,
                self@.program == old(self)@.program,
                self@.cwd == old(self)@.cwd,
        {
            proof {
                let now = texts(paths@).take(i + 1);
                assert(now.drop_last() =~= texts(paths@).take(i as int));
                assert(now.last() == paths@[i as int]@);
            }
            self.arg(flag);
            self.arg(paths[i].as_str());
            self.arg(paths[i].as_str());
            assert(self@.args =~= before + mounts(flag@, texts(paths@).take(i + 1)));
        }
        assert(texts(paths@).take(paths@.len() as int) =~= texts(paths@));
    }
}

/// The system directories that exist.
fn present_system_dirs(exists_here: &Vec<bool>) -> (r: Vec<String>)
    requires
        exists_here@.len() == 6,
    ensures
        texts(r@) == present(system_dirs(), exists_here@),
{
    let all: Vec<String> = vec![
        own("/usr"),
        own("/etc"),
        own("/lib"),
        own("/lib64"),
        own("/bin"),
        own("/sbin"),
    ];
    let ghost dirs = system_dirs();
    assert(texts(all@) =~= dirs);
    let mut r: Vec<String> = Vec::new();
    assert(dirs.take(0) =~= Seq::<Seq<char>>::empty());
    assert(texts(r@) =~= present(dirs.take(0), exists_here@));
    for i in 0..all.len()
        invariant
            exists_here@.len() == 6,
            all@.len() == 6,
            dirs == texts(all@),
            texts(r@) == present(dirs.take(i as int), exists_here@),
    {
        let ghost before = texts(r@);
        proof {
            let now = dirs.take(i + 1);
            assert(now.drop_last() =~= dirs.take(i as int));
            assert(now.last() == all@[i as int]@);
        }
        if exists_here[i] {
            let d = all[i].clone();
            r.push(d);
            assert(texts(r@) =~= before.push(d@));
        }
    }
    assert(dirs.take(dirs.len() as int) =~= dirs);
    r
}

fn wrap_with_bwrap(cmd: SpawnCommand, s: &SandboxConfig, exists_here: &Vec<bool>) -> (r:
    SpawnCommand)
    requires
        exists_here@.len() == 6,
    ensures
        r@ == under_bwrap(cmd@, *s, exists_here@),
{
    let mut w = SpawnCommand::new("bwrap");
    w.arg("--die-with-parent");
    w.arg("--new-session");
    // Network is denied unless it was asked for.
    if s.allow_network {
        w.arg("--share-net");
    } else {
        w.arg("--unshare-net");
    }
    let ghost a1 = seq![
        "--die-with-parent"@,
        "--new-session"@,
        if s.allow_network {
            "--share-net"@
        } else {
            "--unshare-net"@
        },
    ];
    assert(w@.args =~= a1);
    let dirs = present_system_dirs(exists_here);
    w.mount_all("--ro-bind", &dirs);
    let ghost a2 = a1 + mounts("--ro-bind"@, present(system_dirs(), exists_here@));
    assert(w@.args =~= a2);
    w.arg("--proc");
    w.arg("/proc");
    w.arg("--dev");
    w.arg("/dev");
    w.arg("--tmpfs");
    w.arg("/tmp");
    w.arg("--tmpfs");
    w.arg("/run");
    let ghost a3 = a2 + seq![
        "--proc"@,
        "/proc"@,
        "--dev"@,
        "/dev"@,
        "--tmpfs"@,
        "/tmp"@,
        "--tmpfs"@,
        "/run"@,
    ];
    assert(w@.args =~= a3);
    // The working directory must be writable so that work can be done.
    if let Some(d) = &cmd.cwd {
        w.arg("--bind");
        w.arg(d.as_str());
        w.arg(d.as_str());
        w.arg("--chdir");
        w.arg(d.as_str());
    }
    let ghost a4 = a3 + cwd_args(opt_text(cmd.cwd));
    assert(w@.args =~= a4);
    w.mount_all("--ro-bind", &s.ro_paths);
    w.mount_all("--bind", &s.rw_paths);
    let ghost a5 = a4 + mounts("--ro-bind"@, texts(s.ro_paths@)) + mounts(
        "--bind"@,
        texts(s.rw_paths@),
    );
    let ghost env = env_view(cmd.env@);
    assert(env.take(0) =~= Seq::<(Seq<char>, Option<Seq<char>>)>::empty());
    assert(a5 + setenv_args(env.take(0)) =~= a5);
    for i in 0..cmd.env.len()
        invariant
            env == env_view(cmd.env@),
            w@.args == a5 + setenv_args(env.take(i as int)),
            w@.program == "bwrap"@,
    {
        proof {
            let now = env.take(i + 1);
            assert(now.drop_last() =~= env.take(i as int));
            assert(now.last() == env[i as int]);
            assert(env[i as int] == (cmd.env@[i as int].0@, opt_text(cmd.env@[i as int].1)));
        }
        let (k, v) = &cmd.env[i];
        if let Some(val) = v {
            w.arg("--setenv");
            w.arg(k.as_str());
            w.arg(val.as_str());
        }
        assert(w@.args =~= a5 + setenv_args(env.take(i + 1)));
    }
    assert(env.take(env.len() as int) =~= env);
    w.arg("--");
    w.arg(cmd.program.as_str());
    assert(w@.args =~= a5 + setenv_args(env) + seq!["--"@, cmd.program@]);
    w.arg_list(&cmd.args);
    let args = w.args;
    let r = SpawnCommand { program: w.program, args, env: cmd.env, cwd: cmd.cwd };
    assert(r@ =~= under_bwrap(cmd@, *s, exists_here@));
    r
}

/// The command in its jail, where one is asked for and can be had.
pub open spec fn with_jail(
    c: CommandView,
    sandbox: Option<&SandboxConfig>,
    available: bool,
    exists_here: Seq<bool>,
) -> CommandView {
    match sandbox {
        Some(s) => if s.fs_jail && available {
            under_bwrap(c, *s, exists_here)
        } else {
            c
        },
        None => c,
    }
}

/// Wraps a command so that it sees only an allow-listed filesystem and, unless
/// asked for, no network. It stays as it is where no jail is asked for, or
/// `bwrap` is not `available`. `exists_here` says which of the system
/// directories exist.
pub fn apply_fs_jail(
    cmd: SpawnCommand,
    sandbox: Option<&SandboxConfig>,
    available: bool,
    exists_here: &Vec<bool>,
) -> (r: SpawnCommand)
    requires
        exists_here@.len() == 6,
    ensures
        r@ == with_jail(cmd@, sandbox, available, exists_here@),
{
    match sandbox {
        None => cmd,
        Some(s) => if s.fs_jail && available {
            wrap_with_bwrap(cmd, s, exists_here)
        } else {
            cmd
        },
    }
}

/// What the host offers for confinement.
#[derive(Debug)]
pub struct HostTools {
    pub systemd_run: bool,
    pub bwrap: bool,
    /// Which of the system directories exist.
    pub system_dirs: Vec<bool>,
}

/// Applies both layers: the jail first, so that the resource scope wraps the
/// jailed command.
pub fn apply(cmd: SpawnCommand, sandbox: Option<&SandboxConfig>, host: &HostTools) -> (r:
    SpawnCommand)
    requires
        host.system_dirs@.len() == 6,
    ensures
        r@ == with_limits(
            with_jail(cmd@, sandbox, host.bwrap, host.system_dirs@),
            sandbox,
            host.systemd_run,
        ),
{
    let cmd = apply_fs_jail(cmd, sandbox, host.bwrap, &host.system_dirs);
    apply_resource_limits(cmd, sandbox, host.systemd_run)
}

// ---------------------------------------------------------------------------
// Laws
// ---------------------------------------------------------------------------

/// A command without a sandbox, or on a host without the tools, is started as
/// it is.
pub proof fn unconfined_where_nothing_applies(
    c: CommandView,
    sandbox: Option<&SandboxConfig>,
    exists_here: Seq<bool>,
)
    ensures
        with_limits(with_jail(c, sandbox, false, exists_here), sandbox, false) == c,
        with_limits(with_jail(c, None, true, exists_here), None, true) == c,
{
}

/// Confinement keeps the variables and the directory of a command.
pub proof fn confinement_keeps_environment(
    c: CommandView,
    sandbox: Option<&SandboxConfig>,
    bwrap: bool,
    systemd_run: bool,
    exists_here: Seq<bool>,
)
    ensures
        ({
            let w = with_limits(with_jail(c, sandbox, bwrap, exists_here), sandbox, systemd_run);
            w.env == c.env && w.cwd == c.cwd
        }),
{
}

proof fn lemma_setenv_names(env: Seq<(Seq<char>, Option<Seq<char>>)>, i: int)
    requires
        0 <= i < setenv_names(env).len(),
    ensures
        setenv_names(env)[i] != "--"@,
    decreases env.len(),
{
    let before = setenv_names(env.drop_last());
    if i < before.len() {
        lemma_setenv_names(env.drop_last(), i);
    } else {
        reveal_strlit("--setenv=");
        reveal_strlit("--");
        assert(setenv_names(env)[i] == "--setenv="@ + env.last().0);
        assert(("--setenv="@ + env.last().0).len() > 2);
    }
}

/// Behind the first `--` of a scope stands the line of the wrapped command as
/// it was: its program, and its arguments.
pub proof fn scopes_keep_the_command_line(c: CommandView, s: SandboxConfig)
    ensures
        ({
            let args = under_systemd_run(c, s).args;
            let n = args.len() - c.args.len() - 2;
            &&& 0 <= n < args.len()
            &&& args[n] == "--"@
            &&& args.skip(n + 1) == seq![c.program] + c.args
            &&& forall|i: int| 0 <= i < n ==> #[trigger] args[i] != "--"@
        }),
{
    let args = under_systemd_run(c, s).args;
    let n = args.len() - c.args.len() - 2;
    let head = seq!["--user"@, "--scope"@, "--quiet"@, "--collect"@];
    let limits = limit_args(s);
    let names = setenv_names(c.env);
    assert(args.skip(n + 1) =~= seq![c.program] + c.args);
    reveal_strlit("--");
    reveal_strlit("--user");
    reveal_strlit("--scope");
    reveal_strlit("--quiet");
    reveal_strlit("--collect");
    reveal_strlit("--property=MemoryMax=");
    reveal_strlit("--property=CPUQuota=");
    assert forall|i: int| 0 <= i < n implies #[trigger] args[i] != "--"@ by {
        if i < 4 {
            assert(args[i] == head[i]);
            assert(head[i].len() > 2);
        } else if i < 4 + limits.len() {
            assert(args[i] == limits[i - 4]);
            assert(limits[i - 4].len() > 2);
        } else {
            assert(args[i] == names[i - 4 - limits.len()]);
            lemma_setenv_names(c.env, i - 4 - limits.len());
        }
    }
}

/// A cap that is asked for stands among the properties of the scope, and
/// without one there is none.
pub proof fn caps_are_properties(s: SandboxConfig)
    ensures
        s.memory_max matches Some(n) ==> limit_args(s).contains(
            "--property=MemoryMax="@ + decimal(n as nat),
        ),
        s.cpu_quota_percent matches Some(n) ==> limit_args(s).contains(
            "--property=CPUQuota="@ + decimal(n as nat) + "%"@,
        ),
        limit_args(s).len() == (if s.memory_max is Some {
            1int
        } else {
            0
        }) + (if s.cpu_quota_percent is Some {
            1int
        } else {
            0
        }),
        limits_resources(s) <==> s.memory_max is Some || s.cpu_quota_percent is Some,
{
    if s.memory_max is Some {
        assert(limit_args(s)[0] == "--property=MemoryMax="@ + decimal(s.memory_max->0 as nat));
    }
    if s.cpu_quota_percent is Some {
        assert(limit_args(s)[limit_args(s).len() - 1] == "--property=CPUQuota="@ + decimal(
            s.cpu_quota_percent->0 as nat,
        ) + "%"@);
    }
}

/// A command with caps runs in a scope of the user's that has them, with all
/// that it was to be started with behind it; without caps, or where no scope
/// can be had, it runs as it is.
pub proof fn capped_commands_run_in_a_scope(
    cmd: SpawnCommand,
    s: SandboxConfig,
    available: bool,
    r: SpawnCommand,
)
    requires
        call_ensures(apply_resource_limits, (cmd, Some(&s), available), r),
    ensures
        !available || (s.memory_max is None && s.cpu_quota_percent is None) ==> r@ == cmd@,
        available && (s.memory_max is Some || s.cpu_quota_percent is Some) ==> {
            &&& r@.program == "systemd-run"@
            &&& r@.args.len() >= 4
            &&& r@.args[0] == "--user"@
            &&& r@.args[1] == "--scope"@
            &&& r@.env == cmd@.env
            &&& r@.cwd == cmd@.cwd
            &&& forall|i: int|
                0 <= i < limit_args(s).len() ==> r@.args[4 + i] == #[trigger] limit_args(s)[i]
        },
{
}

/// A variable with a value is handed on to the scope by its name, and to the
/// jail by its name and value; one that is removed is not.
pub proof fn set_variables_are_handed_on(
    env: Seq<(Seq<char>, Option<Seq<char>>)>,
    e: (Seq<char>, Option<Seq<char>>),
)
    ensures
        e.1 is None ==> setenv_names(env.push(e)) == setenv_names(env),
        e.1 is Some ==> setenv_names(env.push(e)) == setenv_names(env).push("--setenv="@ + e.0),
        e.1 is None ==> setenv_args(env.push(e)) == setenv_args(env),
        e.1 matches Some(v) ==> setenv_args(env.push(e)) == setenv_args(env).push(
            "--setenv"@,
        ).push(e.0).push(v),
        setenv_names(Seq::<(Seq<char>, Option<Seq<char>>)>::empty()).len() == 0,
        setenv_args(Seq::<(Seq<char>, Option<Seq<char>>)>::empty()).len() == 0,
{
    assert(env.push(e).drop_last() =~= env);
    if e.1 is Some {
        assert(setenv_args(env.push(e)) =~= setenv_args(env).push("--setenv"@).push(e.0).push(
            e.1->0,
        ));
    }
}

/// Each path is mounted onto itself, behind those before it.
pub proof fn paths_are_mounted_onto_themselves(
    flag: Seq<char>,
    paths: Seq<Seq<char>>,
    p: Seq<char>,
)
    ensures
        mounts(flag, Seq::<Seq<char>>::empty()).len() == 0,
        mounts(flag, paths.push(p)) == mounts(flag, paths).push(flag).push(p).push(p),
{
    assert(paths.push(p).drop_last() =~= paths);
    assert(mounts(flag, paths.push(p)) =~= mounts(flag, paths).push(flag).push(p).push(p));
}

/// Of the system directories those that exist are shown.
pub proof fn existing_directories_are_shown(paths: Seq<Seq<char>>, p: Seq<char>, here: Seq<bool>)
    requires
        here.len() > paths.len(),
    ensures
        present(Seq::<Seq<char>>::empty(), here).len() == 0,
        here[paths.len() as int] ==> present(paths.push(p), here) == present(paths, here).push(p),
        !here[paths.len() as int] ==> present(paths.push(p), here) == present(paths, here),
        system_dirs().contains("/usr"@),
        system_dirs().contains("/etc"@),
        system_dirs().contains("/lib"@),
        system_dirs().contains("/lib64"@),
        system_dirs().contains("/bin"@),
        system_dirs().contains("/sbin"@),
        system_dirs().len() == 6,
{
    assert(paths.push(p).drop_last() =~= paths);
    assert(system_dirs()[0] == "/usr"@);
    assert(system_dirs()[1] == "/etc"@);
    assert(system_dirs()[2] == "/lib"@);
    assert(system_dirs()[3] == "/lib64"@);
    assert(system_dirs()[4] == "/bin"@);
    assert(system_dirs()[5] == "/sbin"@);
}

/// A jailed command runs under `bwrap`, dies with the daemon, has a network
/// only where it was allowed one, and ends with its own line.
pub proof fn jailed_commands_have_no_network_unless_allowed(
    cmd: SpawnCommand,
    s: SandboxConfig,
    available: bool,
    here: Vec<bool>,
    r: SpawnCommand,
)
    requires
        here@.len() == 6,
        call_ensures(apply_fs_jail, (cmd, Some(&s), available, &here), r),
    ensures
        !available || !s.fs_jail ==> r@ == cmd@,
        available && s.fs_jail ==> {
            let n = r@.args.len() - cmd@.args.len() - 2;
            &&& r@.program == "bwrap"@
            &&& r@.env == cmd@.env
            &&& r@.cwd == cmd@.cwd
            &&& n >= 3
            &&& r@.args[0] == "--die-with-parent"@
            &&& r@.args[1] == "--new-session"@
            &&& s.allow_network ==> r@.args[2] == "--share-net"@
            &&& !s.allow_network ==> r@.args[2] == "--unshare-net"@
            &&& r@.args[n] == "--"@
            &&& r@.args[n + 1] == cmd@.program
            &&& r@.args.skip(n + 2) == cmd@.args
        },
{
    if available && s.fs_jail {
        let n = r@.args.len() - cmd@.args.len() - 2;
        assert(r@.args.skip(n + 2) =~= cmd@.args);
    }
}

/// In a jail the system is shown read-only, the working directory is writable
/// and entered, and the paths that were given are mounted as they were given.
pub proof fn jails_show_what_was_given(c: CommandView, s: SandboxConfig, here: Seq<bool>)
    ensures
        ({
            let system = mounts("--ro-bind"@, present(system_dirs(), here));
            let at: int = 3 + system.len() as int + 8;
            let args = under_bwrap(c, s, here).args;
            let ro = mounts("--ro-bind"@, texts(s.ro_paths@));
            let rw = mounts("--bind"@, texts(s.rw_paths@));
            &&& args.subrange(3, 3 + system.len() as int) == system
            &&& c.cwd matches Some(d) ==> args.subrange(at, at + 5) == seq![
                "--bind"@,
                d,
                d,
                "--chdir"@,
                d,
            ] && args.subrange(at + 5, at + 5 + ro.len()) == ro && args.subrange(
                at + 5 + ro.len(),
                at + 5 + ro.len() + rw.len(),
            ) == rw
            &&& c.cwd is None ==> args.subrange(at, at + ro.len()) == ro && args.subrange(
                at + ro.len(),
                at + ro.len() + rw.len(),
            ) == rw
        }),
{
    let system = mounts("--ro-bind"@, present(system_dirs(), here));
    let at: int = 3 + system.len() as int + 8;
    let args = under_bwrap(c, s, here).args;
    let ro = mounts("--ro-bind"@, texts(s.ro_paths@));
    let rw = mounts("--bind"@, texts(s.rw_paths@));
    assert(args.subrange(3, 3 + system.len() as int) =~= system);
    if c.cwd is Some {
        let d = c.cwd->0;
        assert(args.subrange(at, at + 5) =~= seq!["--bind"@, d, d, "--chdir"@, d]);
        assert(args.subrange(at + 5, at + 5 + ro.len()) =~= ro);
        assert(args.subrange(at + 5 + ro.len(), at + 5 + ro.len() + rw.len()) =~= rw);
    } else {
        assert(args.subrange(at, at + ro.len()) =~= ro);
        assert(args.subrange(at + ro.len(), at + ro.len() + rw.len()) =~= rw);
    }
}

/// Both layers together: the scope is outermost, and what it runs is the jail.
pub proof fn scopes_wrap_jails(
    cmd: SpawnCommand,
    s: SandboxConfig,
    host: HostTools,
    r: SpawnCommand,
)
    requires
        host.system_dirs@.len() == 6,
        call_ensures(apply, (cmd, Some(&s), &host), r),
    ensures
        host.systemd_run && host.bwrap && s.fs_jail && s.memory_max is Some ==> r@.program
            == "systemd-run"@ && r@.args.contains("bwrap"@),
        !host.systemd_run && host.bwrap && s.fs_jail ==> r@.program == "bwrap"@,
        !host.systemd_run && !host.bwrap ==> r@ == cmd@,
{
    if host.systemd_run && host.bwrap && s.fs_jail && s.memory_max is Some {
        let jailed = under_bwrap(cmd@, s, host.system_dirs@);
        let n = r@.args.len() - jailed.args.len() - 1;
        assert(r@.args[n] == "bwrap"@);
    }
}

/// What a command holds is what it is started with.
pub proof fn commands_hold_their_parts(c: SpawnCommand)
    ensures
        c@.program == c.program@,
        c@.args.len() == c.args@.len(),
        forall|i: int| 0 <= i < c.args@.len() ==> c@.args[i] == (#[trigger] c.args@[i])@,
        c@.env.len() == c.env@.len(),
        forall|i: int|
            0 <= i < c.env@.len() ==> c@.env[i].0 == (#[trigger] c.env@[i]).0@ && c@.env[i].1
                == opt_text(c.env@[i].1),
        c.cwd is None ==> c@.cwd is None,
        c.cwd matches Some(d) ==> c@.cwd == Some(d@),
{
}

} // verus!
