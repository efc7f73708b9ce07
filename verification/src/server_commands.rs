use vstd::prelude::*;
use vstd::string::StringExecFns;
use crate::command::SlashCommand;
use crate::text::{spec_contains, spec_replace, str_contains, str_replace};

verus! {

/// A server's status as last reported by its backend. `Unknown` carries the
/// backend's raw output when it matched no recognized status.
#[derive(Debug)]
pub enum ServerStatus {
    Running,
    Stopped,
    Paused,
    Unknown(String),
}

/// Why a command was not carried out: either its precondition on the current
/// status failed, or the backend call itself failed with the given output.
#[derive(Debug)]
pub enum ServerError {
    StatusError(ServerStatus, SlashCommand),
    CommandFailed(SlashCommand, String),
}

/// The primitive operations a backend driver can be asked to perform.
#[derive(Debug, Clone, Copy, PartialEq, Eq, Structural)]
pub enum BackendAction {
    Start,
    Stop,
    Restart,
    Pause,
    Unpause,
}

/// The backend actions a command resolves to under a given status snapshot,
/// or the error it is rejected with. An `Ok` with no actions means the
/// command needs no backend mutation (status read-through, connect).
pub open spec fn spec_plan(cmd: SlashCommand, status: ServerStatus) -> Result<
    Seq<BackendAction>,
    ServerError,
> {
    match cmd {
        SlashCommand::Connect => match status {
            ServerStatus::Running => Ok(Seq::empty()),
            s => Err(ServerError::StatusError(s, SlashCommand::Connect)),
        },
        SlashCommand::Start => match status {
            ServerStatus::Stopped => Ok(seq![BackendAction::Start]),
            s => Err(ServerError::StatusError(s, SlashCommand::Start)),
        },
        SlashCommand::Stop => match status {
            ServerStatus::Running => Ok(seq![BackendAction::Stop]),
            s => Err(ServerError::StatusError(s, SlashCommand::Stop)),
        },
        SlashCommand::Restart => match status {
            ServerStatus::Stopped => Ok(seq![BackendAction::Start]),
            _ => Ok(seq![BackendAction::Restart]),
        },
        SlashCommand::Pause => match status {
            ServerStatus::Running => Ok(seq![BackendAction::Pause]),
            s => Err(ServerError::StatusError(s, SlashCommand::Pause)),
        },
        SlashCommand::Unpause => match status {
            ServerStatus::Paused => Ok(seq![BackendAction::Unpause]),
            ServerStatus::Stopped => Ok(seq![BackendAction::Start]),
            s => Err(ServerError::StatusError(s, SlashCommand::Unpause)),
        },
        SlashCommand::Resume => match status {
            ServerStatus::Paused => Ok(seq![BackendAction::Unpause]),
            ServerStatus::Stopped => Ok(seq![BackendAction::Start]),
            s => Err(ServerError::StatusError(s, SlashCommand::Resume)),
        },
        SlashCommand::Status => Ok(Seq::empty()),
        SlashCommand::List => Ok(Seq::empty()),
    }
}

/// Resolves a command against a freshly fetched status: either the backend
/// actions to perform, in order, or the error to report. Every
/// precondition-gated command rejects any status but the one it demands,
/// `Unknown` included.
pub fn plan(cmd: SlashCommand, status: ServerStatus) -> (r: Result<Vec<BackendAction>, ServerError>)
    requires
        cmd != SlashCommand::List,
    ensures
        r is Ok <==> spec_plan(cmd, status) is Ok,
        r is Ok ==> r->Ok_0@ == spec_plan(cmd, status)->Ok_0,
        r is Err ==> r->Err_0 == spec_plan(cmd, status)->Err_0,
{
    let r: Result<Vec<BackendAction>, ServerError> = match cmd {
        SlashCommand::Connect => match status {
            ServerStatus::Running => Ok(Vec::new()),
            s => Err(ServerError::StatusError(s, SlashCommand::Connect)),
        },
        SlashCommand::Start => match status {
            ServerStatus::Stopped => Ok(vec![BackendAction::Start]),
            s => Err(ServerError::StatusError(s, SlashCommand::Start)),
        },
        SlashCommand::Stop => match status {
            ServerStatus::Running => Ok(vec![BackendAction::Stop]),
            s => Err(ServerError::StatusError(s, SlashCommand::Stop)),
        },
        SlashCommand::Restart => match status {
            ServerStatus::Stopped => Ok(vec![BackendAction::Start]),
            _ => Ok(vec![BackendAction::Restart]),
        },
        SlashCommand::Pause => match status {
            ServerStatus::Running => Ok(vec![BackendAction::Pause]),
            s => Err(ServerError::StatusError(s, SlashCommand::Pause)),
        },
        SlashCommand::Unpause => match status {
            ServerStatus::Paused => Ok(vec![BackendAction::Unpause]),
            ServerStatus::Stopped => Ok(vec![BackendAction::Start]),
            s => Err(ServerError::StatusError(s, SlashCommand::Unpause)),
        },
        SlashCommand::Resume => match status {
            ServerStatus::Paused => Ok(vec![BackendAction::Unpause]),
            ServerStatus::Stopped => Ok(vec![BackendAction::Start]),
            s => Err(ServerError::StatusError(s, SlashCommand::Resume)),
        },
        SlashCommand::Status => Ok(Vec::new()),
        SlashCommand::List => Ok(Vec::new()),
    };
    proof {
        if r is Ok {
            assert(r->Ok_0@ =~= spec_plan(cmd, status)->Ok_0);
        }
    }
    r
}

/// The status a server settles in after one successful backend action.
pub open spec fn action_result(a: BackendAction) -> ServerStatus {
    match a {
        BackendAction::Start => ServerStatus::Running,
        BackendAction::Stop => ServerStatus::Stopped,
        BackendAction::Restart => ServerStatus::Running,
        BackendAction::Pause => ServerStatus::Paused,
        BackendAction::Unpause => ServerStatus::Running,
    }
}

/// The status a server settles in after a sequence of successful backend
/// actions, starting from `s`.
pub open spec fn apply_actions(s: ServerStatus, actions: Seq<BackendAction>) -> ServerStatus
    decreases actions.len(),
{
    if actions.len() == 0 {
        s
    } else {
        apply_actions(action_result(actions[0]), actions.skip(1))
    }
}

/// Restarting a stopped server plans exactly what starting it plans; from
/// Running or Paused, the planned restart leaves the server in the same
/// status a manual stop-then-start sequence would.
pub proof fn lemma_restart_matches_stop_start(s: ServerStatus)
    ensures
        s is Stopped ==> spec_plan(SlashCommand::Restart, s) == spec_plan(SlashCommand::Start, s),
        (s is Running || s is Paused) ==> spec_plan(SlashCommand::Restart, s) is Ok,
        (s is Running || s is Paused) ==> apply_actions(
            s,
            spec_plan(SlashCommand::Restart, s)->Ok_0,
        ) == apply_actions(s, seq![BackendAction::Stop, BackendAction::Start]),
{
    reveal_with_fuel(apply_actions, 3);
    if s is Running || s is Paused {
        let manual = seq![BackendAction::Stop, BackendAction::Start];
        assert(manual.skip(1) =~= seq![BackendAction::Start]);
        assert(seq![BackendAction::Start].skip(1) =~= Seq::<BackendAction>::empty());
        assert(seq![BackendAction::Restart].skip(1) =~= Seq::<BackendAction>::empty());
        assert(apply_actions(s, manual) is Running);
        assert(apply_actions(s, seq![BackendAction::Restart]) is Running);
    }
}

/// Pausing fails with a `StatusError` naming the current status unless that
/// status is exactly `Running`.
pub proof fn lemma_pause_only_when_running(s: ServerStatus)
    ensures
        s is Running ==> spec_plan(SlashCommand::Pause, s) == Ok::<_, ServerError>(
            seq![BackendAction::Pause],
        ),
        !(s is Running) ==> spec_plan(SlashCommand::Pause, s) == Err::<Seq<BackendAction>, _>(
            ServerError::StatusError(s, SlashCommand::Pause),
        ),
{
}

/// Resuming a stopped server plans exactly what starting it plans, and
/// resuming a paused server plans exactly what unpausing it plans.
pub proof fn lemma_resume_matches_start_and_unpause(s: ServerStatus)
    ensures
        s is Stopped ==> spec_plan(SlashCommand::Resume, s) == spec_plan(SlashCommand::Start, s),
        s is Paused ==> spec_plan(SlashCommand::Resume, s) == spec_plan(SlashCommand::Unpause, s),
{
}

/// An `Unknown` status makes every precondition-gated command fail with a
/// `StatusError` carrying that status and the attempted command.
pub proof fn lemma_unknown_rejects_gated_commands(s: ServerStatus, cmd: SlashCommand)
    requires
        s is Unknown,
        cmd == SlashCommand::Start || cmd == SlashCommand::Stop || cmd == SlashCommand::Pause
            || cmd == SlashCommand::Unpause || cmd == SlashCommand::Resume || cmd
            == SlashCommand::Connect,
    ensures
        spec_plan(cmd, s) == Err::<Seq<BackendAction>, _>(ServerError::StatusError(s, cmd)),
{
}

/// Classifies a backend's raw status output: the recognized markers are
/// checked for in order, and output matching none of them is kept verbatim
/// in an `Unknown`.
pub fn parse_status(out: String) -> (r: ServerStatus)
    ensures
        r is Running <==> spec_contains(out@, "\"Status\": \"running\""@),
        r is Paused <==> !spec_contains(out@, "\"Status\": \"running\""@) && spec_contains(
            out@,
            "\"Status\": \"paused\""@,
        ),
        r is Stopped <==> !spec_contains(out@, "\"Status\": \"running\""@) && !spec_contains(
            out@,
            "\"Status\": \"paused\""@,
        ) && spec_contains(out@, "\"Status\": \"exited\""@),
        r is Unknown ==> r == ServerStatus::Unknown(out),
{
    if str_contains(out.as_str(), "\"Status\": \"running\"") {
        ServerStatus::Running
    } else if str_contains(out.as_str(), "\"Status\": \"paused\"") {
        ServerStatus::Paused
    } else if str_contains(out.as_str(), "\"Status\": \"exited\"") {
        ServerStatus::Stopped
    } else {
        ServerStatus::Unknown(out)
    }
}

/// True when the connect template asks for the externally visible address
/// to be looked up and substituted.
pub fn connect_needs_lookup(template: &str) -> (r: bool)
    ensures
        r == spec_contains(template@, "$PUBLIC_IP"@),
{
    str_contains(template, "$PUBLIC_IP")
}

/// Renders the connect string for a running server. `public_ip` is the
/// result of the live address lookup: `None` means the lookup failed, and is
/// only consulted when the template asks for a substitution.
pub fn render_connect(template: &str, public_ip: Option<&str>) -> (r: Result<String, ServerError>)
    ensures
        !spec_contains(template@, "$PUBLIC_IP"@) ==> r is Ok && r->Ok_0@ == template@,
        spec_contains(template@, "$PUBLIC_IP"@) && public_ip is Some ==> r is Ok && r->Ok_0@
            == spec_replace(template@, "$PUBLIC_IP"@, public_ip->0@),
        spec_contains(template@, "$PUBLIC_IP"@) && public_ip is None ==> r is Err
            && (r->Err_0 matches ServerError::CommandFailed(c, m) && c == SlashCommand::Connect
            && m@ == "Failed to get public IP"@),
{
    if connect_needs_lookup(template) {
        match public_ip {
            Some(ip) => {
                proof {
                    reveal_strlit("$PUBLIC_IP");
                }
                Ok(str_replace(template, "$PUBLIC_IP", ip))
            },
            None => Err(
                ServerError::CommandFailed(
                    SlashCommand::Connect,
                    String::from_str("Failed to get public IP"),
                ),
            ),
        }
    } else {
        Ok(template.to_owned())
    }
}

} // verus!
