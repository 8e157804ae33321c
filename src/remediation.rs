//! The one-time AppArmor exception that lets the sandbox program create
//! user namespaces.

use vstd::prelude::*;
use vstd::string::StringExecFns;

use crate::policy::{env_views, views, CommandSpec, CommandView};
use crate::text::{chars_of, trim_vec, trim_ws};

verus! {

/// The kernel flag that reads `1` when AppArmor forbids unprivileged user
/// namespaces, which the sandbox program needs.
pub const RESTRICT_FLAG_PATH: &'static str = "/proc/sys/kernel/apparmor_restrict_unprivileged_userns";

/// Where the exception profile for the sandbox program is installed.
pub const PROFILE_PATH: &'static str = "/etc/apparmor.d/bwrap";

/// Whether the exception profile must be installed: the kernel flag could be
/// read and says the restriction is on, and no profile is installed yet.
pub open spec fn remediation_needed_spec(flag_text: Option<Seq<char>>, profile_exists: bool) -> bool {
    match flag_text {
        Some(t) => trim_ws(t) == "1"@ && !profile_exists,
        None => false,
    }
}

/// Decides whether to install the exception profile; `flag_text` is the
/// content of the kernel flag, `None` when it could not be read.
pub fn remediation_needed(flag_text: Option<&str>, profile_exists: bool) -> (r: bool)
    ensures
        r == remediation_needed_spec(
            match flag_text {
                Some(t) => Some(t@),
                None => None,
            },
            profile_exists,
        ),
{
    match flag_text {
        Some(t) => {
            let chars = chars_of(t);
            let tt = trim_vec(&chars);
            proof {
                reveal_strlit("1");
            }
            let on = tt.len() == 1 && tt[0] == '1';
            assert(on == (tt@ == "1"@)) by {
                if tt@.len() == 1 {
                    assert(on ==> tt@ =~= "1"@);
                }
            }
            on && !profile_exists
        },
        None => false,
    }
}

/// The shell script that writes the profile and has AppArmor load it.
pub open spec fn install_script(profile_path: Seq<char>, profile_text: Seq<char>) -> Seq<char> {
    "echo '"@ + profile_text + "' > "@ + profile_path + " && apparmor_parser -r "@ + profile_path
}

/// The elevated command that installs and loads the profile, as plain values.
pub open spec fn remediation_view(profile_path: Seq<char>, profile_text: Seq<char>) -> CommandView {
    (
        "pkexec"@,
        seq!["bash"@, "-c"@, install_script(profile_path, profile_text)],
        Seq::<(Seq<char>, Seq<char>)>::empty(),
        None::<Seq<char>>,
    )
}

/// The elevated command that installs and loads the profile, run through the
/// desktop's administrator prompt.
pub fn remediation_command(profile_path: &str, profile_text: &str) -> (r: CommandSpec)
    ensures
        r.view() == remediation_view(profile_path@, profile_text@),
{
    let mut script = String::from_str("echo '");
    script.append(profile_text);
    script.append("' > ");
    script.append(profile_path);
    script.append(" && apparmor_parser -r ");
    script.append(profile_path);
    let mut args: Vec<String> = Vec::new();
    args.push(String::from_str("bash"));
    args.push(String::from_str("-c"));
    args.push(script);
    let env: Vec<(String, String)> = Vec::new();
    assert(views(args@) =~= seq!["bash"@, "-c"@, install_script(profile_path@, profile_text@)]);
    assert(env_views(env@) =~= Seq::<(Seq<char>, Seq<char>)>::empty());
    CommandSpec { program: String::from_str("pkexec"), args, env, cwd: None }
}

/// A one-shot guard: the profile check and install run at most once in the
/// life of the process, however many sandboxed sessions are spawned.
pub struct RemediationLatch {
    fired: bool,
}

impl RemediationLatch {
    /// Whether the guarded work has already been let through.
    pub closed spec fn has_fired(&self) -> bool {
        self.fired
    }

    pub fn new() -> (r: Self)
        ensures
            !r.has_fired(),
    {
        RemediationLatch { fired: false }
    }

    /// Returns `true` on the first call only; the latch stays fired after it.
    pub fn try_fire(&mut self) -> (r: bool)
        ensures
            r == !old(self).has_fired(),
            final(self).has_fired(),
    {
        let first = !self.fired;
        self.fired = true;
        first
    }
}

} // verus!
