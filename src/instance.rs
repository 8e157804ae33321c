//! Instance state shared between running copies of the program.

use vstd::prelude::*;
use vstd::string::{StrSliceExecFns, StringExecFns};

use crate::ids::random_uuid;
use crate::policy::opt_view;

verus! {

/// What an instance is doing.
#[derive(Clone, Copy, PartialEq, Eq, Structural, Debug)]
pub enum InstanceStatus {
    Active,
    Idle,
    Busy,
}

/// The shared state of one running instance (this program, or a coding
/// assistant found among the processes).
pub struct InstanceState {
    pub instance_id: String,
    pub project_path: String,
    pub project_name: String,
    pub current_focus: String,
    pub active_files: Vec<String>,
    pub claude_session_id: Option<String>,
    pub opencode_session_id: Option<String>,
    pub source: String,
    pub last_updated: u64,
    pub status: InstanceStatus,
}

/// A partial change to an instance's state; `None` leaves a field alone.
pub struct InstanceUpdate {
    pub project_path: Option<String>,
    pub current_focus: Option<String>,
    pub active_files: Option<Vec<String>>,
    pub claude_session_id: Option<Option<String>>,
    pub opencode_session_id: Option<Option<String>>,
    pub status: Option<InstanceStatus>,
}

/// What `std::path::Path::file_name` gives for a path.
pub uninterp spec fn file_name_of(p: Seq<char>) -> Option<Seq<char>>;

/// Relies on `std::path::Path::file_name`: the final component of the path,
/// `None` when the path ends in `..` or is a root or empty; it depends on the
/// text of the path alone.
#[verifier::external_body]
fn path_file_name(p: &str) -> (r: Option<String>)
    ensures
        opt_view(r) == file_name_of(p@),
{
    match std::path::Path::new(p).file_name() {
        Some(n) => match n.to_str() {
            Some(s) => Some(s.to_string()),
            None => None,
        },
        None => None,
    }
}

/// The display name of a project: the last component of its path, or `Unknown`.
pub open spec fn project_name_spec(file_name: Option<Seq<char>>) -> Seq<char> {
    match file_name {
        Some(n) => n,
        None => "Unknown"@,
    }
}

/// Picks the display name from the path's last component, if any.
pub fn project_name_from(file_name: Option<String>) -> (r: String)
    ensures
        r@ == project_name_spec(opt_view(file_name)),
{
    match file_name {
        Some(n) => n,
        None => String::from_str("Unknown"),
    }
}

/// The display name of the project at `project_path`.
pub fn project_name_of(project_path: &str) -> (r: String)
    ensures
        r@ == project_name_spec(file_name_of(project_path@)),
{
    project_name_from(path_file_name(project_path))
}

impl InstanceState {
    /// The state this program registers for itself: active, on the given
    /// project, with nothing in focus, stamped `now` (seconds since the epoch).
    pub fn new(instance_id: String, project_path: String, now: u64) -> (r: Self)
        ensures
            r.instance_id == instance_id,
            r.project_path == project_path,
            r.project_name@ == project_name_spec(file_name_of(project_path@)),
            r.current_focus@ == Seq::<char>::empty(),
            r.active_files@.len() == 0,
            r.claude_session_id is None,
            r.opencode_session_id is None,
            r.source@ == "lirah"@,
            r.last_updated == now,
            r.status == InstanceStatus::Active,
    {
        let project_name = project_name_of(project_path.as_str());
        InstanceState {
            instance_id,
            project_path,
            project_name,
            current_focus: String::new(),
            active_files: Vec::new(),
            claude_session_id: None,
            opencode_session_id: None,
            source: String::from_str("lirah"),
            last_updated: now,
            status: InstanceStatus::Active,
        }
    }

    /// Applies `update` at time `now`: each given field replaces the current
    /// one (a new project path also renames the project); the OpenCode
    /// session is left as it is; the time stamp becomes `now`.
    pub fn apply_update(&mut self, update: InstanceUpdate, now: u64)
        ensures
            final(self).instance_id == old(self).instance_id,
            final(self).source == old(self).source,
            final(self).opencode_session_id == old(self).opencode_session_id,
            final(self).last_updated == now,
            match update.project_path {
                Some(p) => final(self).project_path == p && final(self).project_name@
                    == project_name_spec(file_name_of(p@)),
                None => final(self).project_path == old(self).project_path
                    && final(self).project_name == old(self).project_name,
            },
            final(self).current_focus == match update.current_focus {
                Some(f) => f,
                None => old(self).current_focus,
            },
            final(self).active_files == match update.active_files {
                Some(f) => f,
                None => old(self).active_files,
            },
            final(self).claude_session_id == match update.claude_session_id {
                Some(c) => c,
                None => old(self).claude_session_id,
            },
            final(self).status == match update.status {
                Some(s) => s,
                None => old(self).status,
            },
    {
        match update.project_path {
            Some(p) => {
                self.project_name = project_name_of(p.as_str());
                self.project_path = p;
            },
            None => {},
        }
        match update.current_focus {
            Some(f) => {
                self.current_focus = f;
            },
            None => {},
        }
        match update.active_files {
            Some(f) => {
                self.active_files = f;
            },
            None => {},
        }
        match update.claude_session_id {
            Some(c) => {
                self.claude_session_id = c;
            },
            None => {},
        }
        match update.status {
            Some(s) => {
                self.status = s;
            },
            None => {},
        }
        self.last_updated = now;
    }
}

/// `base` joined with the relative path `name`, as `PathBuf::push` does it: a
/// separator goes between them unless `base` is empty or already ends in one.
pub open spec fn join_path(base: Seq<char>, name: Seq<char>) -> Seq<char> {
    if base.len() == 0 {
        name
    } else if base.last() == '/' {
        base + name
    } else {
        base + "/"@ + name
    }
}

/// Joins `base` and the relative path `name`.
pub fn join(base: &str, name: &str) -> (r: String)
    ensures
        r@ == join_path(base@, name@),
{
    let n = base.unicode_len();
    if n == 0 {
        String::from_str(name)
    } else {
        let mut s = String::from_str(base);
        if base.get_char(n - 1) != '/' {
            s.append("/");
        }
        s.append(name);
        s
    }
}

/// The directory that holds the instance files under a home directory
/// (`/tmp` when the home is unknown).
pub open spec fn instances_dir(home: Option<Seq<char>>) -> Seq<char> {
    join_path(
        join_path(
            match home {
                Some(h) => h,
                None => "/tmp"@,
            },
            ".lirah"@,
        ),
        "instances"@,
    )
}

/// Relies on `dirs::home_dir`: the user's home directory, if the platform
/// reports one. It depends on the environment, so nothing is promised of it.
#[verifier::external_body]
fn home_directory() -> (r: Option<String>) {
    match dirs::home_dir() {
        Some(p) => Some(p.to_string_lossy().into_owned()),
        None => None,
    }
}

/// This program's identity among the running instances, and where instance
/// files live.
pub struct InstanceSyncStore {
    instance_id: String,
    base_dir: String,
}

impl InstanceSyncStore {
    pub closed spec fn id_view(&self) -> Seq<char> {
        self.instance_id@
    }

    pub closed spec fn base_dir_view(&self) -> Seq<char> {
        self.base_dir@
    }

    /// A store with a fresh random id, keeping its files under the user's
    /// home. The directory itself is the caller's to create.
    pub fn new() -> (r: Self)
        ensures
            r.id_view().len() == 36,
    {
        let id = random_uuid();
        let home = home_directory();
        Self::with_identity(id, home)
    }

    /// A store with the given id whose files live under `home`.
    pub fn with_identity(instance_id: String, home: Option<String>) -> (r: Self)
        ensures
            r.id_view() == instance_id@,
            r.base_dir_view() == instances_dir(opt_view(home)),
    {
        let root = match home {
            Some(h) => h,
            None => String::from_str("/tmp"),
        };
        let app_dir = join(root.as_str(), ".lirah");
        let base_dir = join(app_dir.as_str(), "instances");
        InstanceSyncStore { instance_id, base_dir }
    }

    pub fn get_instance_id(&self) -> (r: &str)
        ensures
            r@ == self.id_view(),
    {
        self.instance_id.as_str()
    }

    /// The file that holds this instance's state: `<id>.json` in the directory.
    pub fn get_state_path(&self) -> (r: String)
        ensures
            r@ == join_path(self.base_dir_view(), self.id_view() + ".json"@),
    {
        let mut file = self.instance_id.clone();
        file.append(".json");
        join(self.base_dir.as_str(), file.as_str())
    }

    pub fn get_all_instances_path(&self) -> (r: String)
        ensures
            r@ == self.base_dir_view(),
    {
        self.base_dir.clone()
    }
}

/// Whether an instance before position `i` of `s` has the same project path as the one at `i`.
pub open spec fn seen_before(s: Seq<InstanceState>, i: int) -> bool {
    exists|j: int| 0 <= j < i && s[j].project_path@ == s[i].project_path@
}

/// `s` with every instance dropped whose project path already occurred earlier.
pub open spec fn first_per_project(s: Seq<InstanceState>) -> Seq<InstanceState>
    decreases s.len(),
{
    if s.len() == 0 {
        seq![]
    } else {
        let rest = first_per_project(s.drop_last());
        if seen_before(s, s.len() - 1) {
            rest
        } else {
            rest.push(s.last())
        }
    }
}

/// The project paths of the first `n` instances of `s`.
pub open spec fn paths_upto(s: Seq<InstanceState>, n: int) -> Set<Seq<char>> {
    Set::new(|p: Seq<char>| exists|j: int| 0 <= j < n && s[j].project_path@ == p)
}

/// The instances found among the processes: those of the first assistant, then
/// those of OpenCode, keeping only the first instance of each project path.
pub fn get_all_cli_instances(claude: Vec<InstanceState>, opencode: Vec<InstanceState>) -> (r: Vec<
    InstanceState,
>)
    ensures
        r@ == first_per_project(claude@ + opencode@),
{
    let mut rest = claude;
    let mut more = opencode;
    rest.append(&mut more);
    let ghost all = rest@;
    let mut out: Vec<InstanceState> = Vec::new();
    let mut i: usize = 0;
    let n = rest.len();
    assert(paths_upto(all, 0) =~= paths_upto(out@, 0));
    while i < n
        invariant
            n == all.len(),
            all == claude@ + opencode@,
            i <= n,
            rest@ == all.skip(i as int),
            out@ == first_per_project(all.take(i as int)),
            paths_upto(all, i as int) == paths_upto(out@, out@.len() as int),
        decreases n - i,
    {
        let inst = rest.remove(0);
        assert(inst == all[i as int]);
        let mut seen = false;
        let mut k: usize = 0;
        while k < out.len()
            invariant
                k <= out@.len(),
                seen == exists|m: int| 0 <= m < k && out@[m].project_path@ == inst.project_path@,
            decreases out@.len() - k,
        {
            if out[k].project_path.eq(&inst.project_path) {
                seen = true;
            }
            k = k + 1;
        }
        let ghost p0 = inst.project_path@;
        proof {
            let t = all.take(i + 1);
            assert(t.drop_last() =~= all.take(i as int));
            assert(t.last() == inst);
            assert(seen == paths_upto(out@, out@.len() as int).contains(p0));
            assert(seen == seen_before(t, i as int)) by {
                if seen {
                    assert(paths_upto(all, i as int).contains(p0));
                    let j = choose|j: int| 0 <= j < i && all[j].project_path@ == p0;
                    assert(t[j] == all[j]);
                }
                if seen_before(t, i as int) {
                    let j = choose|j: int| 0 <= j < i && t[j].project_path@ == t[i as int].project_path@;
                    assert(t[j] == all[j]);
                    assert(paths_upto(all, i as int).contains(p0));
                }
            }
            assert(rest@ =~= all.skip(i + 1));
        }
        let ghost prev = out@;
        if !seen {
            out.push(inst);
        }
        proof {
            assert(paths_upto(all, i + 1) =~= paths_upto(all, i as int).insert(p0));
            if seen {
                assert(paths_upto(out@, out@.len() as int) =~= paths_upto(prev, prev.len() as int));
                assert(paths_upto(prev, prev.len() as int).insert(p0) =~= paths_upto(prev, prev.len() as int));
            } else {
                assert forall|q: Seq<char>| paths_upto(out@, out@.len() as int).contains(q) == paths_upto(
                    prev,
                    prev.len() as int,
                ).insert(p0).contains(q) by {
                    if paths_upto(prev, prev.len() as int).contains(q) {
                        let k = choose|k: int| 0 <= k < prev.len() && prev[k].project_path@ == q;
                        assert(out@[k] == prev[k]);
                    }
                    if paths_upto(out@, out@.len() as int).contains(q) && q != p0 {
                        let k = choose|k: int| 0 <= k < out@.len() && out@[k].project_path@ == q;
                        assert(k < prev.len());
                        assert(out@[k] == prev[k]);
                    }
                    if q == p0 {
                        assert(out@[prev.len() as int] == inst);
                    }
                }
                assert(paths_upto(out@, out@.len() as int) =~= paths_upto(prev, prev.len() as int).insert(p0));
            }
        }
        i = i + 1;
    }
    assert(all.take(n as int) =~= all);
    out
}

/// How long, in seconds, an instance file counts as current.
pub const STALE_AFTER_SECS: u64 = 3600;

/// Whether an instance last stamped at `last_updated` is current at `now`
/// (seconds since the epoch): less than `STALE_AFTER_SECS` old. A stamp from
/// the future counts as current.
pub fn is_current(now: u64, last_updated: u64) -> (r: bool)
    ensures
        r == (last_updated >= now || now - last_updated < STALE_AFTER_SECS),
{
    last_updated >= now || now - last_updated < STALE_AFTER_SECS
}

/// Whether a file in the instances directory holds another instance's state:
/// a `.json` file whose stem is not this instance's id.
pub open spec fn is_other_instance_file(extension: Option<Seq<char>>, stem: Option<Seq<char>>, own_id: Seq<char>) -> bool {
    extension == Some("json"@) && stem != Some(own_id)
}

pub fn holds_other_instance(extension: Option<&str>, stem: Option<&str>, own_id: &str) -> (r: bool)
    ensures
        r == is_other_instance_file(
            match extension {
                Some(e) => Some(e@),
                None => None,
            },
            match stem {
                Some(s) => Some(s@),
                None => None,
            },
            own_id@,
        ),
{
    let json = match extension {
        Some(e) => String::from_str(e).eq(&String::from_str("json")),
        None => false,
    };
    let own = match stem {
        Some(s) => String::from_str(s).eq(&String::from_str(own_id)),
        None => false,
    };
    json && !own
}

} // verus!
