//! Starting a session: the sandbox fallback rule and the spawner.

use vstd::prelude::*;

use crate::policy::{
    background_shell, candidate_paths, get_shell, hidden_command, opt_view, plain_command,
    plain_command_view, present_only, sandbox_command_for, sandbox_command_view, shell_for,
    term_env, views, writable_candidates, CommandSpec, CommandView, Platform,
};
use crate::remediation::{
    remediation_command, remediation_needed, remediation_needed_spec, remediation_view,
    RemediationLatch, PROFILE_PATH, RESTRICT_FLAG_PATH,
};

verus! {

/// Whether a session is an interactive terminal or a hidden background command.
#[derive(Clone, Copy, PartialEq, Eq, Structural, Debug)]
pub enum SessionKind {
    Interactive,
    Hidden,
}

/// Where a spawn stands: about to try the sandboxed shell, about to try the
/// plain shell, done (with the actual sandbox outcome), or failed.
#[derive(Clone, Copy, PartialEq, Eq, Structural, Debug)]
pub enum SpawnStage {
    Sandboxed,
    Plain,
    Done { sandboxed: bool },
    Failed,
}

/// Where a spawn starts: with the sandbox when it was asked for and the
/// platform can provide one, else with the plain shell.
pub open spec fn first_stage_of(sandbox: bool, platform: Platform) -> SpawnStage {
    if sandbox && platform == Platform::Linux {
        SpawnStage::Sandboxed
    } else {
        SpawnStage::Plain
    }
}

/// The fallback rule. A failed sandboxed launch goes on to the plain shell;
/// only a failed plain launch fails the spawn.
pub open spec fn next_stage(stage: SpawnStage, launched: bool) -> SpawnStage {
    match stage {
        SpawnStage::Sandboxed => if launched {
            SpawnStage::Done { sandboxed: true }
        } else {
            SpawnStage::Plain
        },
        SpawnStage::Plain => if launched {
            SpawnStage::Done { sandboxed: false }
        } else {
            SpawnStage::Failed
        },
        _ => stage,
    }
}

pub fn first_stage(sandbox: bool, platform: Platform) -> (r: SpawnStage)
    ensures
        r == first_stage_of(sandbox, platform),
{
    if sandbox && platform == Platform::Linux {
        SpawnStage::Sandboxed
    } else {
        SpawnStage::Plain
    }
}

/// The stage after a launch attempt made in `stage`.
pub fn advance(stage: SpawnStage, launched: bool) -> (r: SpawnStage)
    ensures
        r == next_stage(stage, launched),
{
    match stage {
        SpawnStage::Sandboxed => if launched {
            SpawnStage::Done { sandboxed: true }
        } else {
            SpawnStage::Plain
        },
        SpawnStage::Plain => if launched {
            SpawnStage::Done { sandboxed: false }
        } else {
            SpawnStage::Failed
        },
        _ => stage,
    }
}

/// When the sandbox cannot be created, a spawn that asked for it still
/// succeeds as soon as the plain shell starts, and reports that it is not
/// sandboxed; where no sandbox exists the plain shell is tried at once; a
/// spawn fails only when the plain shell fails too; and it reports a sandbox
/// only when the sandboxed launch itself succeeded.
pub proof fn lemma_fallback(platform: Platform, stage: SpawnStage, launched: bool)
    ensures
        next_stage(next_stage(SpawnStage::Sandboxed, false), true) == (SpawnStage::Done {
            sandboxed: false,
        }),
        platform != Platform::Linux ==> first_stage_of(true, platform) == SpawnStage::Plain,
        next_stage(stage, launched) == SpawnStage::Failed ==> stage == SpawnStage::Failed || (stage
            == SpawnStage::Plain && !launched),
        next_stage(stage, launched) == (SpawnStage::Done { sandboxed: true }) ==> stage
            == (SpawnStage::Done { sandboxed: true }) || (stage == SpawnStage::Sandboxed && launched),
{
}

/// One launch as plain values: the kind of session, the command, the PTY
/// size (rows, columns), and whether the launch succeeded.
pub type LaunchView = (SessionKind, CommandView, u16, u16, bool);

/// The host's side of spawning: file-system probes, the elevated command, and
/// starting a command on a fresh PTY of the given size together with the
/// output pump that serves `session_id`.
///
/// The spec functions describe the host as a value: its file system and what
/// it was asked to run. An implementation outside verified code keeps the
/// default bodies, which verified code never sees; for it, the `ensures` of
/// each method is what it promises.
pub trait PtyHost<S> {
    /// Whether a file exists at `path`.
    closed spec fn exists_at(&self, path: Seq<char>) -> bool {
        false
    }

    /// Whether `path` is a directory.
    closed spec fn dir_at(&self, path: Seq<char>) -> bool {
        false
    }

    /// The text of the file at `path`, if it can be read.
    closed spec fn text_at(&self, path: Seq<char>) -> Option<Seq<char>> {
        None
    }

    /// The commands run with administrator rights so far, in order.
    closed spec fn elevated(&self) -> Seq<CommandView> {
        Seq::empty()
    }

    /// The launches so far, in order.
    closed spec fn launched(&self) -> Seq<LaunchView> {
        Seq::empty()
    }

    fn path_exists(&self, path: &str) -> (r: bool)
        ensures
            r == self.exists_at(path@),
    ;

    fn is_dir(&self, path: &str) -> (r: bool)
        ensures
            r == self.dir_at(path@),
    ;

    /// The content of a text file, `None` when it cannot be read.
    fn read_text(&self, path: &str) -> (r: Option<String>)
        ensures
            opt_view(r) == self.text_at(path@),
    ;

    /// Runs a command with administrator rights and waits for it; failures
    /// are the host's to report.
    fn run_elevated(&mut self, cmd: &CommandSpec)
        ensures
            final(self).elevated() == old(self).elevated().push(cmd.view()),
            final(self).launched() == old(self).launched(),
    ;

    fn launch(
        &mut self,
        session_id: &str,
        kind: SessionKind,
        cmd: &CommandSpec,
        rows: u16,
        cols: u16,
    ) -> (r: Result<S, String>)
        ensures
            final(self).launched() == old(self).launched().push((kind, cmd.view(), rows, cols, r is Ok)),
            final(self).elevated() == old(self).elevated(),
    ;
}

/// What the host tells the spawner about itself.
pub struct HostEnv {
    pub platform: Platform,
    /// The value of the shell-path variable, if set.
    pub shell_var: Option<String>,
    /// The user's home directory, if known.
    pub home: Option<String>,
    /// The home subdirectories a sandboxed shell may write to.
    pub writable_home_subdirs: Vec<String>,
    /// The AppArmor profile that lets the sandbox program create namespaces.
    pub apparmor_profile: String,
}

/// A started session and whether it actually runs in the sandbox.
pub struct SpawnedPty<S> {
    pub session: S,
    pub sandboxed: bool,
}

fn opt_str(o: &Option<String>) -> (r: Option<&str>)
    ensures
        match (o, r) {
            (Some(a), Some(b)) => a@ == b@,
            (None, None) => true,
            _ => false,
        },
{
    match o {
        Some(s) => Some(s.as_str()),
        None => None,
    }
}

/// The elevated commands a spawn runs: the profile install, when the latch
/// had not fired and the host's files say the restriction is on and no
/// profile is installed.
pub open spec fn remediation_runs(
    restrict_flag: Option<Seq<char>>,
    profile_exists: bool,
    latch_fired: bool,
    profile: Seq<char>,
) -> Seq<CommandView> {
    if !latch_fired && remediation_needed_spec(restrict_flag, profile_exists) {
        seq![remediation_view(PROFILE_PATH@, profile)]
    } else {
        seq![]
    }
}

/// Installs the AppArmor exception profile when needed, at most once per latch.
fn remediate_once<S, H: PtyHost<S>>(host: &mut H, latch: &mut RemediationLatch, profile: &str)
    ensures
        final(latch).has_fired(),
        final(host).launched() == old(host).launched(),
        final(host).elevated() == old(host).elevated() + remediation_runs(
            old(host).text_at(RESTRICT_FLAG_PATH@),
            old(host).exists_at(PROFILE_PATH@),
            old(latch).has_fired(),
            profile@,
        ),
{
    if latch.try_fire() {
        let flag = host.read_text(RESTRICT_FLAG_PATH);
        let exists = host.path_exists(PROFILE_PATH);
        if remediation_needed(opt_str(&flag), exists) {
            let cmd = remediation_command(PROFILE_PATH, profile);
            host.run_elevated(&cmd);
            assert(host.elevated() =~= old(host).elevated() + remediation_runs(
                old(host).text_at(RESTRICT_FLAG_PATH@),
                old(host).exists_at(PROFILE_PATH@),
                old(latch).has_fired(),
                profile@,
            ));
            return;
        }
    }
    assert(host.elevated() =~= old(host).elevated() + Seq::<CommandView>::empty());
}

/// The shell a spawn uses on `env`'s host.
pub open spec fn shell_of(env: HostEnv) -> Seq<char> {
    shell_for(env.platform, opt_view(env.shell_var))
}

/// The plain shell command of a spawn on `env`'s host.
pub open spec fn plain_of(env: HostEnv) -> CommandView {
    plain_command_view(env.platform, shell_of(env), opt_view(env.home))
}

/// The sandboxed command of a spawn, given the host's file system: the
/// allowlisted home subdirectories that exist are writable, and the project
/// directory when it is a directory.
pub open spec fn sandbox_of<S, H: PtyHost<S>>(
    host: H,
    env: HostEnv,
    project_dir: Option<Seq<char>>,
    no_net: bool,
) -> CommandView {
    let home = opt_view(env.home);
    sandbox_command_view(
        shell_of(env),
        home,
        match home {
            Some(h) => {
                let cands = candidate_paths(h, views(env.writable_home_subdirs@));
                present_only(cands, cands.map_values(|p: Seq<char>| host.exists_at(p)))
            },
            None => seq![],
        },
        match project_dir {
            Some(p) => if host.dir_at(p) {
                Some(p)
            } else {
                None
            },
            None => None,
        },
        no_net,
    )
}

/// Builds the sandboxed command, probing which allowlisted home
/// subdirectories exist and whether the project directory is a directory.
fn prepare_sandbox<S, H: PtyHost<S>>(
    host: &H,
    env: &HostEnv,
    shell: &str,
    project_dir: Option<&str>,
    no_net: bool,
) -> (r: CommandSpec)
    requires
        shell@ == shell_of(*env),
    ensures
        r.view() == sandbox_of(
            *host,
            *env,
            match project_dir {
                Some(p) => Some(p@),
                None => None,
            },
            no_net,
        ),
{
    let home = opt_str(&env.home);
    let mut present: Vec<bool> = Vec::new();
    let ghost cands = match home {
        Some(h) => candidate_paths(h@, views(env.writable_home_subdirs@)),
        None => seq![],
    };
    match home {
        Some(h) => {
            let cs = writable_candidates(h, &env.writable_home_subdirs);
            assert(views(cs@) =~= cands);
            let mut i: usize = 0;
            while i < cs.len()
                invariant
                    i <= cs@.len(),
                    views(cs@) == cands,
                    present@ == cands.take(i as int).map_values(|p: Seq<char>| host.exists_at(p)),
                decreases cs@.len() - i,
            {
                let e = host.path_exists(cs[i].as_str());
                present.push(e);
                assert(cands.take(i + 1) =~= cands.take(i as int).push(cands[i as int]));
                assert(present@ =~= cands.take(i + 1).map_values(|p: Seq<char>| host.exists_at(p)));
                i = i + 1;
            }
            assert(cands.take(cs@.len() as int) =~= cands);
        },
        None => {},
    }
    let project_is_dir = match project_dir {
        Some(p) => host.is_dir(p),
        None => false,
    };
    let empty: Vec<String> = Vec::new();
    let subdirs = match home {
        Some(_) => &env.writable_home_subdirs,
        None => &empty,
    };
    proof {
        if home is None {
            assert(present@ =~= Seq::<bool>::empty());
        }
    }
    sandbox_command_for(shell, home, subdirs, &present, project_dir, project_is_dir, no_net)
}

/// Starts an interactive shell for `session_id` on a PTY of `rows` by `cols`.
/// When a sandbox is asked for and the platform has one, the confined shell
/// is launched first (after the one-time AppArmor remediation); when that
/// launch fails, the same shell is launched unconfined. Otherwise only the
/// unconfined shell is launched. The spawn fails exactly when the last launch
/// fails, and reports a sandbox exactly when the confined launch succeeded.
pub fn spawn_pty<S, H: PtyHost<S>>(
    host: &mut H,
    latch: &mut RemediationLatch,
    env: &HostEnv,
    session_id: &str,
    rows: u16,
    cols: u16,
    sandbox: bool,
    sandbox_no_net: bool,
    project_dir: Option<&str>,
) -> (r: Result<SpawnedPty<S>, String>)
    ensures
        ({
            let pv = match project_dir {
                Some(p) => Some(p@),
                None => None,
            };
            let confined = sandbox && env.platform == Platform::Linux;
            let before = old(host).launched();
            let plain = |ok: bool| (SessionKind::Interactive, plain_of(*env), rows, cols, ok);
            let sbx = |ok: bool|
                (
                    SessionKind::Interactive,
                    sandbox_of(*old(host), *env, pv, sandbox_no_net),
                    rows,
                    cols,
                    ok,
                );
            &&& !confined ==> {
                &&& final(host).launched() == before.push(plain(r is Ok))
                &&& final(host).elevated() == old(host).elevated()
                &&& *final(latch) == *old(latch)
                &&& r matches Ok(sp) ==> !sp.sandboxed
            }
            &&& confined ==> {
                &&& final(latch).has_fired()
                &&& final(host).elevated() == old(host).elevated() + remediation_runs(
                    old(host).text_at(RESTRICT_FLAG_PATH@),
                    old(host).exists_at(PROFILE_PATH@),
                    old(latch).has_fired(),
                    env.apparmor_profile@,
                )
                &&& (final(host).launched() == before.push(sbx(true)) && (r matches Ok(sp)
                    && sp.sandboxed)) || (final(host).launched() == before.push(sbx(false)).push(
                    plain(r is Ok),
                ) && (r matches Ok(sp) ==> !sp.sandboxed))
            }
        }),
{
    let shell = get_shell(env.platform, opt_str(&env.shell_var));
    let stage = first_stage(sandbox, env.platform);
    if stage == SpawnStage::Sandboxed {
        let cmd = prepare_sandbox(&*host, env, shell.as_str(), project_dir, sandbox_no_net);
        remediate_once(host, latch, env.apparmor_profile.as_str());
        match host.launch(session_id, SessionKind::Interactive, &cmd, rows, cols) {
            Ok(session) => {
                let sandboxed = match advance(stage, true) {
                    SpawnStage::Done { sandboxed } => sandboxed,
                    _ => false,
                };
                return Ok(SpawnedPty { session, sandboxed });
            },
            Err(_) => {},
        }
    }
    let cmd = plain_command(env.platform, shell.as_str(), opt_str(&env.home));
    match host.launch(session_id, SessionKind::Interactive, &cmd, rows, cols) {
        Ok(session) => {
            let sandboxed = match advance(SpawnStage::Plain, true) {
                SpawnStage::Done { sandboxed } => sandboxed,
                _ => false,
            };
            Ok(SpawnedPty { session, sandboxed })
        },
        Err(e) => Err(e),
    }
}

/// The size of a hidden session's PTY.
pub const HIDDEN_ROWS: u16 = 24;

pub const HIDDEN_COLS: u16 = 80;

/// Starts `command` for the hidden session `session_id` in `project_dir`:
/// never sandboxed, run by the shell's command-string mode on a PTY of
/// `HIDDEN_ROWS` by `HIDDEN_COLS`.
pub fn spawn_hidden_pty<S, H: PtyHost<S>>(
    host: &mut H,
    env: &HostEnv,
    session_id: &str,
    project_dir: &str,
    command: &str,
) -> (r: Result<S, String>)
    ensures
        final(host).launched() == old(host).launched().push(
            (
                SessionKind::Hidden,
                (
                    background_shell(opt_view(env.shell_var)),
                    seq!["-c"@, command@],
                    term_env(),
                    Some(project_dir@),
                ),
                HIDDEN_ROWS,
                HIDDEN_COLS,
                r is Ok,
            ),
        ),
        final(host).elevated() == old(host).elevated(),
{
    let cmd = hidden_command(opt_str(&env.shell_var), command, project_dir);
    host.launch(session_id, SessionKind::Hidden, &cmd, HIDDEN_ROWS, HIDDEN_COLS)
}

} // verus!
