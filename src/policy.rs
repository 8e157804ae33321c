//! The commands a session runs: the shell, its starting directory, and the
//! sandbox that confines it.

use vstd::prelude::*;
use vstd::string::StringExecFns;

verus! {

/// The operating-system family the host runs on. Only `Linux` can confine a
/// shell in a sandbox; elsewhere a sandbox request falls back to a plain shell.
#[derive(Clone, Copy, PartialEq, Eq, Structural, Debug)]
pub enum Platform {
    Linux,
    OtherUnix,
    Windows,
}

/// A command line to start on a PTY: program, arguments, extra environment
/// and working directory (`None`: inherit the host's).
pub struct CommandSpec {
    pub program: String,
    pub args: Vec<String>,
    pub env: Vec<(String, String)>,
    pub cwd: Option<String>,
}

/// The views of a sequence of strings.
pub open spec fn views(v: Seq<String>) -> Seq<Seq<char>> {
    v.map_values(|s: String| s@)
}

/// The views of a sequence of environment pairs.
pub open spec fn env_views(v: Seq<(String, String)>) -> Seq<(Seq<char>, Seq<char>)> {
    v.map_values(|p: (String, String)| (p.0@, p.1@))
}

/// The view of an optional string.
pub open spec fn opt_view(o: Option<String>) -> Option<Seq<char>> {
    match o {
        Some(s) => Some(s@),
        None => None,
    }
}

/// A command as plain values: program, arguments, environment, directory.
pub type CommandView = (Seq<char>, Seq<Seq<char>>, Seq<(Seq<char>, Seq<char>)>, Option<Seq<char>>);

impl CommandSpec {
    /// The command as plain values: program, arguments, environment, directory.
    pub open spec fn view(&self) -> CommandView {
        (self.program@, views(self.args@), env_views(self.env@), opt_view(self.cwd))
    }
}

/// The terminal type advertised to every shell started on a PTY.
pub open spec fn term_env() -> Seq<(Seq<char>, Seq<char>)> {
    seq![("TERM"@, "xterm-256color"@)]
}

fn term_env_exec() -> (r: Vec<(String, String)>)
    ensures
        env_views(r@) == term_env(),
{
    let mut v: Vec<(String, String)> = Vec::new();
    v.push((String::from_str("TERM"), String::from_str("xterm-256color")));
    assert(env_views(v@) =~= term_env());
    v
}

/// Appends the string `s` to `v`.
fn push_str(v: &mut Vec<String>, s: &str)
    ensures
        views(final(v)@) == views(old(v)@).push(s@),
{
    v.push(String::from_str(s));
    assert(views(final(v)@) =~= views(old(v)@).push(s@));
}

/// The shell to start: `powershell.exe` on Windows; elsewhere the shell named
/// by the host's shell variable, or `/bin/bash` without one.
pub open spec fn shell_for(platform: Platform, shell_var: Option<Seq<char>>) -> Seq<char> {
    match platform {
        Platform::Windows => "powershell.exe"@,
        _ => match shell_var {
            Some(s) => s,
            None => "/bin/bash"@,
        },
    }
}

/// Picks the shell; `shell_var` is the value of the host's shell variable.
pub fn get_shell(platform: Platform, shell_var: Option<&str>) -> (r: String)
    ensures
        r@ == shell_for(
            platform,
            match shell_var {
                Some(s) => Some(s@),
                None => None,
            },
        ),
{
    match platform {
        Platform::Windows => String::from_str("powershell.exe"),
        _ => match shell_var {
            Some(s) => String::from_str(s),
            None => String::from_str("/bin/bash"),
        },
    }
}

/// The directory a shell starts in: the user's home, or the file-system root
/// (`/`, or `C:\` on Windows) when the home is unknown.
pub open spec fn start_dir_for(platform: Platform, home: Option<Seq<char>>) -> Seq<char> {
    match home {
        Some(h) => h,
        None => match platform {
            Platform::Windows => "C:\\"@,
            _ => "/"@,
        },
    }
}

/// Picks the starting directory from the home directory, if known.
pub fn start_dir(platform: Platform, home: Option<&str>) -> (r: String)
    ensures
        r@ == start_dir_for(
            platform,
            match home {
                Some(h) => Some(h@),
                None => None,
            },
        ),
{
    match home {
        Some(h) => String::from_str(h),
        None => match platform {
            Platform::Windows => String::from_str("C:\\"),
            _ => String::from_str("/"),
        },
    }
}

/// The arguments of an interactive shell: a login shell on Unix; on Windows,
/// a PowerShell whose prompt keeps the process's directory in step with its
/// location.
pub open spec fn login_args(platform: Platform) -> Seq<Seq<char>> {
    match platform {
        Platform::Windows => seq![
            "-NoExit"@,
            "-Command"@,
            "function prompt { [System.IO.Directory]::SetCurrentDirectory($PWD.Path); \"PS $($PWD.Path)> \" }"@,
        ],
        _ => seq!["-l"@],
    }
}

/// The unconfined interactive shell command.
pub open spec fn plain_command_view(platform: Platform, shell: Seq<char>, home: Option<Seq<char>>) -> (
    Seq<char>,
    Seq<Seq<char>>,
    Seq<(Seq<char>, Seq<char>)>,
    Option<Seq<char>>,
) {
    (shell, login_args(platform), term_env(), Some(start_dir_for(platform, home)))
}

/// Builds the unconfined interactive shell command.
pub fn plain_command(platform: Platform, shell: &str, home: Option<&str>) -> (r: CommandSpec)
    ensures
        r.view() == plain_command_view(
            platform,
            shell@,
            match home {
                Some(h) => Some(h@),
                None => None,
            },
        ),
{
    let mut args: Vec<String> = Vec::new();
    match platform {
        Platform::Windows => {
            push_str(&mut args, "-NoExit");
            push_str(&mut args, "-Command");
            push_str(
                &mut args,
                "function prompt { [System.IO.Directory]::SetCurrentDirectory($PWD.Path); \"PS $($PWD.Path)> \" }",
            );
        },
        _ => {
            push_str(&mut args, "-l");
        },
    }
    assert(views(args@) =~= login_args(platform));
    CommandSpec {
        program: String::from_str(shell),
        args,
        env: term_env_exec(),
        cwd: Some(start_dir(platform, home)),
    }
}

/// The full path of a home subdirectory: `home/sub`.
pub open spec fn home_child(home: Seq<char>, sub: Seq<char>) -> Seq<char> {
    home + "/"@ + sub
}

/// The paths under `home` that the sandbox may make writable, one for each
/// entry of the allowlist `subdirs`, in order.
pub fn writable_candidates(home: &str, subdirs: &Vec<String>) -> (r: Vec<String>)
    ensures
        r@.len() == subdirs@.len(),
        forall|i: int| 0 <= i < r@.len() ==> #[trigger] r@[i]@ == home_child(home@, subdirs@[i]@),
{
    let mut out: Vec<String> = Vec::new();
    let mut i: usize = 0;
    while i < subdirs.len()
        invariant
            i <= subdirs@.len(),
            out@.len() == i,
            forall|j: int| 0 <= j < i ==> #[trigger] out@[j]@ == home_child(home@, subdirs@[j]@),
        decreases subdirs@.len() - i,
    {
        let mut full = String::from_str(home);
        full.append("/");
        full.append(subdirs[i].as_str());
        out.push(full);
        i = i + 1;
    }
    out
}

/// The entries of `paths` whose flag in `present` is set, in order.
pub open spec fn present_only(paths: Seq<Seq<char>>, present: Seq<bool>) -> Seq<Seq<char>>
    decreases paths.len(),
{
    if paths.len() == 0 || present.len() < paths.len() {
        seq![]
    } else {
        let rest = present_only(paths.drop_last(), present.take(paths.len() - 1));
        if present[paths.len() - 1] {
            rest.push(paths.last())
        } else {
            rest
        }
    }
}

/// Keeps the paths whose flag is set; the flags say which paths exist on disk.
pub fn keep_present(paths: &Vec<String>, present: &Vec<bool>) -> (r: Vec<String>)
    requires
        paths@.len() == present@.len(),
    ensures
        views(r@) == present_only(views(paths@), present@),
{
    let mut out: Vec<String> = Vec::new();
    let mut i: usize = 0;
    while i < paths.len()
        invariant
            i <= paths@.len(),
            paths@.len() == present@.len(),
            views(out@) == present_only(views(paths@).take(i as int), present@.take(i as int)),
        decreases paths@.len() - i,
    {
        proof {
            let next = views(paths@).take(i + 1);
            assert(next.drop_last() =~= views(paths@).take(i as int));
            assert(present@.take(i + 1).take(i as int) =~= present@.take(i as int));
        }
        if present[i] {
            out.push(paths[i].clone());
            assert(views(out@) =~= present_only(views(paths@).take(i as int), present@.take(i as int)).push(paths@[i as int]@));
        }
        i = i + 1;
    }
    assert(views(paths@).take(paths@.len() as int) =~= views(paths@));
    assert(present@.take(paths@.len() as int) =~= present@);
    out
}

/// `flag p p` for each path `p`, in order.
pub open spec fn bind_each(flag: Seq<char>, paths: Seq<Seq<char>>) -> Seq<Seq<char>>
    decreases paths.len(),
{
    if paths.len() == 0 {
        seq![]
    } else {
        bind_each(flag, paths.drop_last()) + seq![flag, paths.last(), paths.last()]
    }
}

/// The sandbox program.
pub open spec fn sandbox_program() -> Seq<char> {
    "/usr/bin/bwrap"@
}

/// The arguments of the sandbox program. The root file system is bound
/// read-only; `/dev`, `/proc` and `/tmp` are usable; the home directory is
/// read-only except for the allowlisted subdirectories in `writable`; the
/// project directory, if any, is writable; the hostname namespace is private;
/// with `no_net` the network namespace is private too, so the shell has no
/// network; the sandbox dies with its parent; and it runs `shell` as a login
/// shell.
pub open spec fn sandbox_args(
    shell: Seq<char>,
    home: Option<Seq<char>>,
    writable: Seq<Seq<char>>,
    project_dir: Option<Seq<char>>,
    no_net: bool,
) -> Seq<Seq<char>> {
    seq![
        "--ro-bind"@,
        "/"@,
        "/"@,
        "--dev-bind"@,
        "/dev"@,
        "/dev"@,
        "--proc"@,
        "/proc"@,
        "--bind"@,
        "/tmp"@,
        "/tmp"@,
    ] + match home {
        Some(h) => seq!["--ro-bind"@, h, h] + bind_each("--bind"@, writable),
        None => seq![],
    } + match project_dir {
        Some(p) => seq!["--bind"@, p, p],
        None => seq![],
    } + seq!["--unshare-uts"@] + if no_net {
        seq!["--unshare-net"@]
    } else {
        seq![]
    } + seq!["--die-with-parent"@, "--"@, shell, "-l"@]
}

fn push_binds(args: &mut Vec<String>, flag: &str, paths: &Vec<String>)
    ensures
        views(final(args)@) == views(old(args)@) + bind_each(flag@, views(paths@)),
{
    let mut i: usize = 0;
    while i < paths.len()
        invariant
            i <= paths@.len(),
            views(args@) == views(old(args)@) + bind_each(flag@, views(paths@).take(i as int)),
        decreases paths@.len() - i,
    {
        let ghost before = views(args@);
        push_str(args, flag);
        push_str(args, paths[i].as_str());
        push_str(args, paths[i].as_str());
        proof {
            let next = views(paths@).take(i + 1);
            assert(next.drop_last() =~= views(paths@).take(i as int));
            assert(views(args@) =~= views(old(args)@) + bind_each(flag@, next));
        }
        i = i + 1;
    }
    assert(views(paths@).take(paths@.len() as int) =~= views(paths@));
}

/// Builds the confined shell command. `writable` holds the allowlisted home
/// subdirectories that exist; `project_dir` is given only when it is an
/// existing directory. The shell starts in the home directory, or `/`.
#[verifier::rlimit(40)]
pub fn sandbox_command(
    shell: &str,
    home: Option<&str>,
    writable: &Vec<String>,
    project_dir: Option<&str>,
    no_net: bool,
) -> (r: CommandSpec)
    ensures
        r.view() == (
            sandbox_program(),
            sandbox_args(
                shell@,
                match home {
                    Some(h) => Some(h@),
                    None => None,
                },
                views(writable@),
                match project_dir {
                    Some(p) => Some(p@),
                    None => None,
                },
                no_net,
            ),
            term_env(),
            Some(
                start_dir_for(
                    Platform::Linux,
                    match home {
                        Some(h) => Some(h@),
                        None => None,
                    },
                ),
            ),
        ),
{
    let mut args: Vec<String> = Vec::new();
    push_str(&mut args, "--ro-bind");
    push_str(&mut args, "/");
    push_str(&mut args, "/");
    push_str(&mut args, "--dev-bind");
    push_str(&mut args, "/dev");
    push_str(&mut args, "/dev");
    push_str(&mut args, "--proc");
    push_str(&mut args, "/proc");
    push_str(&mut args, "--bind");
    push_str(&mut args, "/tmp");
    push_str(&mut args, "/tmp");
    let ghost a0 = views(args@);
    match home {
        Some(h) => {
            push_str(&mut args, "--ro-bind");
            push_str(&mut args, h);
            push_str(&mut args, h);
            push_binds(&mut args, "--bind", writable);
        },
        None => {},
    }
    let ghost a1 = views(args@);
    match project_dir {
        Some(p) => {
            push_str(&mut args, "--bind");
            push_str(&mut args, p);
            push_str(&mut args, p);
        },
        None => {},
    }
    let ghost a2 = views(args@);
    push_str(&mut args, "--unshare-uts");
    if no_net {
        push_str(&mut args, "--unshare-net");
    }
    let ghost a3 = views(args@);
    push_str(&mut args, "--die-with-parent");
    push_str(&mut args, "--");
    push_str(&mut args, shell);
    push_str(&mut args, "-l");
    proof {
        let hv = match home {
            Some(h) => Some(h@),
            None => None,
        };
        let pv = match project_dir {
            Some(p) => Some(p@),
            None => None,
        };
        let s0: Seq<Seq<char>> = seq![
            "--ro-bind"@,
            "/"@,
            "/"@,
            "--dev-bind"@,
            "/dev"@,
            "/dev"@,
            "--proc"@,
            "/proc"@,
            "--bind"@,
            "/tmp"@,
            "/tmp"@,
        ];
        assert(a0 =~= s0);
        let s1: Seq<Seq<char>> = match hv {
            Some(h) => seq!["--ro-bind"@, h, h] + bind_each("--bind"@, views(writable@)),
            None => seq![],
        };
        assert(a1 =~= s0 + s1);
        let s2: Seq<Seq<char>> = match pv {
            Some(p) => seq!["--bind"@, p, p],
            None => seq![],
        };
        assert(a2 =~= s0 + s1 + s2);
        let s3: Seq<Seq<char>> = if no_net {
            seq!["--unshare-net"@]
        } else {
            seq![]
        };
        assert(a3 =~= s0 + s1 + s2 + seq!["--unshare-uts"@] + s3);
        assert(views(args@) =~= sandbox_args(shell@, hv, views(writable@), pv, no_net));
    }
    CommandSpec {
        program: String::from_str("/usr/bin/bwrap"),
        args,
        env: term_env_exec(),
        cwd: Some(start_dir(Platform::Linux, home)),
    }
}

/// The allowlisted paths under `home`, one per subdirectory, in order.
pub open spec fn candidate_paths(home: Seq<char>, subdirs: Seq<Seq<char>>) -> Seq<Seq<char>> {
    subdirs.map_values(|s: Seq<char>| home_child(home, s))
}

/// The confined shell command as plain values.
pub open spec fn sandbox_command_view(
    shell: Seq<char>,
    home: Option<Seq<char>>,
    writable: Seq<Seq<char>>,
    project_dir: Option<Seq<char>>,
    no_net: bool,
) -> CommandView {
    (
        sandbox_program(),
        sandbox_args(shell, home, writable, project_dir, no_net),
        term_env(),
        Some(start_dir_for(Platform::Linux, home)),
    )
}

/// The confined shell command, given what the file system says: `present`
/// tells, for each allowlisted subdirectory of `home`, whether it exists, and
/// `project_is_dir` whether the project directory is a directory. Only the
/// existing subdirectories, and the project directory only when it is one,
/// are bound writable.
pub fn sandbox_command_for(
    shell: &str,
    home: Option<&str>,
    subdirs: &Vec<String>,
    present: &Vec<bool>,
    project_dir: Option<&str>,
    project_is_dir: bool,
    no_net: bool,
) -> (r: CommandSpec)
    requires
        present@.len() == subdirs@.len(),
    ensures
        ({
            let hv = match home {
                Some(h) => Some(h@),
                None => None,
            };
            let pv = match project_dir {
                Some(p) => Some(p@),
                None => None,
            };
            r.view() == sandbox_command_view(
                shell@,
                hv,
                match hv {
                    Some(h) => present_only(candidate_paths(h, views(subdirs@)), present@),
                    None => seq![],
                },
                if project_is_dir {
                    pv
                } else {
                    None
                },
                no_net,
            )
        }),
{
    let writable = match home {
        Some(h) => {
            let cands = writable_candidates(h, subdirs);
            assert(views(cands@) =~= candidate_paths(h@, views(subdirs@)));
            keep_present(&cands, present)
        },
        None => {
            let v: Vec<String> = Vec::new();
            assert(views(v@) =~= Seq::<Seq<char>>::empty());
            v
        },
    };
    let project = if project_is_dir {
        project_dir
    } else {
        None
    };
    sandbox_command(shell, home, &writable, project, no_net)
}

/// The shell to run a background command with: the host's shell variable, or
/// `/bin/bash`.
pub open spec fn background_shell(shell_var: Option<Seq<char>>) -> Seq<char> {
    match shell_var {
        Some(s) => s,
        None => "/bin/bash"@,
    }
}

/// The command of a hidden session: `shell -c command` in the project
/// directory, never confined and not a login shell.
pub fn hidden_command(shell_var: Option<&str>, command: &str, project_dir: &str) -> (r: CommandSpec)
    ensures
        r.view() == (
            background_shell(
                match shell_var {
                    Some(s) => Some(s@),
                    None => None,
                },
            ),
            seq!["-c"@, command@],
            term_env(),
            Some(project_dir@),
        ),
{
    let program = match shell_var {
        Some(s) => String::from_str(s),
        None => String::from_str("/bin/bash"),
    };
    let mut args: Vec<String> = Vec::new();
    push_str(&mut args, "-c");
    push_str(&mut args, command);
    assert(views(args@) =~= seq!["-c"@, command@]);
    CommandSpec { program, args, env: term_env_exec(), cwd: Some(String::from_str(project_dir)) }
}

} // verus!
