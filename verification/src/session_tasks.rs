//! What is done for the session once the compositor runs: its environment is
//! exported, and a portal frontend that still serves another desktop restarted.

use vstd::prelude::*;
use vstd::string::*;

use crate::session::{export_session_environment, portal_query, portal_restart, HelperCall};
use crate::text::{parse_u32, text_from_utf8, to_decimal, trim};

verus! {

/// The process number that `systemctl` printed; none where it printed none, or
/// zero, which stands for a service that is not running.
pub open spec fn pid_in(stdout: Option<Seq<u8>>) -> Option<u32> {
    match stdout {
        Some(bytes) => if vstd::utf8::valid_utf8(bytes) {
            match crate::text::parsed_u32(crate::text::trimmed(vstd::utf8::decode_utf8(bytes))) {
                Some(pid) => if pid != 0 {
                    Some(pid)
                } else {
                    None
                },
                None => None,
            }
        } else {
            None
        },
        None => None,
    }
}

/// What bytes that may be missing say.
pub open spec fn bytes_opt(b: Option<Vec<u8>>) -> Option<Seq<u8>> {
    match b {
        Some(v) => Some(v@),
        None => None,
    }
}

/// The process number in the output of a helper, where it has one.
pub fn portal_pid(stdout: Option<Vec<u8>>) -> (r: Option<u32>)
    ensures
        r == pid_in(bytes_opt(stdout)),
{
    match stdout {
        None => None,
        Some(bytes) => match text_from_utf8(bytes) {
            None => None,
            Some(text) => match parse_u32(trim(text.as_str()).as_str()) {
                Some(pid) => if pid != 0 {
                    Some(pid)
                } else {
                    None
                },
                None => None,
            },
        },
    }
}

/// The entry that marks an environment as this desktop's, in bytes.
pub open spec fn desktop_entry() -> Seq<u8> {
    "XDG_CURRENT_DESKTOP=tidewm".spec_bytes()
}

/// `entry` is one of the zero-terminated pieces of `environ`, the one from `i`.
pub open spec fn entry_at(environ: Seq<u8>, entry: Seq<u8>, i: int) -> bool {
    &&& 0 <= i <= i + entry.len() <= environ.len()
    &&& environ.subrange(i, i + entry.len()) == entry
    &&& i == 0 || environ[i - 1] == 0
    &&& i + entry.len() == environ.len() || environ[i + entry.len()] == 0
}

/// One of the zero-terminated pieces of `environ` is `entry`.
pub open spec fn has_entry(environ: Seq<u8>, entry: Seq<u8>) -> bool {
    exists|i: int| #[trigger] entry_at(environ, entry, i)
}

fn matches_at(environ: &Vec<u8>, entry: &[u8], i: usize) -> (r: bool)
    requires
        i <= environ@.len(),
    ensures
        r == entry_at(environ@, entry@, i as int),
{
    if entry.len() > environ.len() - i {
        return false;
    }
    if i > 0 && environ[i - 1] != 0 {
        return false;
    }
    if i + entry.len() < environ.len() && environ[i + entry.len()] != 0 {
        return false;
    }
    let total: usize = environ.len();
    let mut k: usize = 0;
    while k < entry.len()
        invariant
            k <= entry@.len(),
            total == environ@.len(),
            i + entry@.len() <= total,
            forall|j: int| 0 <= j < k ==> environ@[i + j] == entry@[j],
        decreases entry@.len() - k,
    {
        if environ[i + k] != entry[k] {
            assert(environ@.subrange(i as int, i + entry@.len())[k as int] != entry@[k as int]);
            return false;
        }
        k += 1;
    }
    assert(environ@.subrange(i as int, i + entry@.len()) =~= entry@);
    true
}

/// Whether a process environment, one zero-terminated entry after the other, is
/// this desktop's.
pub fn environment_is_fresh(environ: &Vec<u8>) -> (r: bool)
    ensures
        r == has_entry(environ@, desktop_entry()),
{
    let entry = "XDG_CURRENT_DESKTOP=tidewm".as_bytes();
    let mut i: usize = 0;
    while i < environ.len()
        invariant
            i <= environ@.len(),
            entry@ == desktop_entry(),
            forall|j: int| 0 <= j < i ==> !entry_at(environ@, desktop_entry(), j),
        decreases environ@.len() - i,
    {
        if matches_at(environ, entry, i) {
            return true;
        }
        i += 1;
    }
    let last = matches_at(environ, entry, i);
    proof {
        if has_entry(environ@, desktop_entry()) {
            let j = choose|j: int| #[trigger] entry_at(environ@, desktop_entry(), j);
            assert(j == i);
        }
    }
    last
}

/// The file that holds the environment of a process.
pub fn environ_path(pid: u32) -> (r: String)
    ensures
        r@ == "/proc/"@ + crate::text::decimal(pid as nat) + "/environ"@,
{
    let mut out: String = "/proc/".to_owned();
    out.append(to_decimal(pid as u64).as_str());
    out.append("/environ");
    out
}

/// How far the work has come.
#[derive(Clone, Copy, Debug, PartialEq, Eq, Structural)]
pub enum Stage {
    /// The export call of this number is next.
    Export(usize),
    /// The portal frontend is asked for.
    Query,
    /// The environment of that process is read.
    Read(u32),
    /// The frontend is restarted.
    Restart,
    Finished,
}

/// What to do next.
pub enum SessionAction {
    /// Run a helper; whether it succeeds does not matter.
    Status(HelperCall),
    /// Run a helper and keep what it prints.
    Output(HelperCall),
    /// Read a file.
    ReadFile(String),
    Finished,
}

/// What came of it.
pub enum SessionReply {
    Ran,
    Printed(Option<Vec<u8>>),
    Contents(Option<Vec<u8>>),
}

/// The work, step by step.
pub struct SessionTasks {
    pub calls: Vec<HelperCall>,
    pub stage: Stage,
}

/// Where the work goes on after `reply`. An export goes on whatever came of it;
/// only a frontend that runs, and whose environment could be read and is not this
/// desktop's, is restarted.
pub open spec fn stage_after(stage: Stage, calls: int, reply: SessionReply) -> Stage {
    match stage {
        Stage::Export(i) => if i + 1 < calls {
            Stage::Export((i + 1) as usize)
        } else {
            Stage::Query
        },
        Stage::Query => match reply {
            SessionReply::Printed(out) => match pid_in(bytes_opt(out)) {
                Some(pid) => Stage::Read(pid),
                None => Stage::Finished,
            },
            _ => Stage::Finished,
        },
        Stage::Read(_) => match reply {
            SessionReply::Contents(Some(environ)) => if has_entry(environ@, desktop_entry()) {
                Stage::Finished
            } else {
                Stage::Restart
            },
            _ => Stage::Finished,
        },
        Stage::Restart => Stage::Finished,
        Stage::Finished => Stage::Finished,
    }
}

impl SessionTasks {
    pub open spec fn wf(&self) -> bool {
        self.stage is Export ==> self.stage->Export_0 < self.calls@.len()
    }

    /// Plans the work for a session that exports `env_keys` besides its own
    /// variables.
    pub fn new(env_keys: &Vec<String>) -> (r: Self)
        ensures
            r.wf(),
            crate::session::call_views(r.calls@) == crate::session::export_call_views(
                crate::text::texts(env_keys@),
            ),
            r.stage == Stage::Export(0),
    {
        let calls: Vec<HelperCall> = export_session_environment(env_keys);
        assert(crate::session::call_views(calls@).len() == 4);
        SessionTasks { calls, stage: Stage::Export(0) }
    }

    /// What to do next.
    pub fn action(&self) -> (r: SessionAction)
        requires
            self.wf(),
        ensures
            match (self.stage, r) {
                (Stage::Export(i), SessionAction::Status(call)) => call@ == self.calls@[i as int]@,
                (Stage::Query, SessionAction::Output(call)) => call@
                    == crate::session::portal_query_view(),
                (Stage::Read(pid), SessionAction::ReadFile(path)) => path@ == "/proc/"@
                    + crate::text::decimal(pid as nat) + "/environ"@,
                (Stage::Restart, SessionAction::Status(call)) => call@
                    == crate::session::portal_restart_view(),
                (Stage::Finished, SessionAction::Finished) => true,
                _ => false,
            },
    {
        match self.stage {
            Stage::Export(i) => SessionAction::Status(copy_call(&self.calls[i])),
            Stage::Query => SessionAction::Output(portal_query()),
            Stage::Read(pid) => SessionAction::ReadFile(environ_path(pid)),
            Stage::Restart => SessionAction::Status(portal_restart()),
            Stage::Finished => SessionAction::Finished,
        }
    }

    /// Goes on after what came of the last action.
    pub fn advance(&mut self, reply: SessionReply)
        requires
            old(self).wf(),
        ensures
            final(self).wf(),
            final(self).calls == old(self).calls,
            final(self).stage == stage_after(old(self).stage, old(self).calls@.len() as int, reply),
    {
        let total: usize = self.calls.len();
        let next = match self.stage {
            Stage::Export(i) => if i + 1 < total {
                Stage::Export(i + 1)
            } else {
                Stage::Query
            },
            Stage::Query => match reply {
                SessionReply::Printed(out) => match portal_pid(out) {
                    Some(pid) => Stage::Read(pid),
                    None => Stage::Finished,
                },
                _ => Stage::Finished,
            },
            Stage::Read(_) => match reply {
                SessionReply::Contents(Some(environ)) => if environment_is_fresh(&environ) {
                    Stage::Finished
                } else {
                    Stage::Restart
                },
                _ => Stage::Finished,
            },
            Stage::Restart => Stage::Finished,
            Stage::Finished => Stage::Finished,
        };
        self.stage = next;
    }
}

fn copy_call(call: &HelperCall) -> (r: HelperCall)
    ensures
        r@ == call@,
{
    let mut args: Vec<String> = Vec::new();
    assert(crate::text::texts(args@) =~= seq![]);
    let mut i: usize = 0;
    let ghost all = crate::text::texts(call.args@);
    assert(all.take(0) =~= seq![]);
    while i < call.args.len()
        invariant
            i <= call.args@.len(),
            all == crate::text::texts(call.args@),
            crate::text::texts(args@) == all.take(i as int),
        decreases call.args@.len() - i,
    {
        args.push(call.args[i].clone());
        i += 1;
        assert(crate::text::texts(args@) =~= all.take(i - 1).push(all[i - 1]));
        assert(all.take(i as int) =~= all.take(i - 1).push(all[i - 1]));
    }
    assert(all.take(i as int) =~= all);
    HelperCall { program: call.program.clone(), args }
}

/// How many steps of work are left at most.
pub open spec fn steps_left(stage: Stage, calls: int) -> int {
    match stage {
        Stage::Export(i) => calls - i + 3,
        Stage::Query => 3,
        Stage::Read(_) => 2,
        Stage::Restart => 1,
        Stage::Finished => 0,
    }
}

/// The work comes to an end: each step leaves less of it, whatever came of it.
pub proof fn law_session_tasks_end(stage: Stage, calls: int, reply: SessionReply)
    requires
        stage is Export ==> stage->Export_0 < calls <= usize::MAX,
    ensures
        stage != Stage::Finished ==> steps_left(stage_after(stage, calls, reply), calls)
            < steps_left(stage, calls),
        steps_left(stage, calls) >= 0,
{
}

} // verus!
