//! `nono stop`, `nono detach` and `nono attach`: what may be done to a session, step by step.

use vstd::prelude::*;

use crate::error;
use crate::error::{ErrorView, NonoError};
use crate::numbers;
use crate::session;
use crate::session::{SessionAttachment, SessionRecord, SessionStatus};
use crate::text;

verus! {

/// Why a command is refused, if it is: inside a sandbox every one is.
pub open spec fn sandbox_refusal(command: Seq<char>, sandboxed: bool) -> Option<Seq<char>> {
    if sandboxed {
        Some("`nono "@ + command + "` cannot be used inside a sandbox."@)
    } else {
        None
    }
}

/// Refuses to run a command inside a sandbox.
///
/// Commands that send signals or delete files must not run there: a sandboxed process could use
/// them against other sessions.
pub fn reject_if_sandboxed(command: &str, sandboxed: bool) -> (r: Result<(), NonoError>)
    ensures
        r is Ok <==> !sandboxed,
        r matches Err(e) ==> e@ == ErrorView::ConfigParse(
            "`nono "@ + command@ + "` cannot be used inside a sandbox."@,
        ),
        match r {
            Ok(()) => sandbox_refusal(command@, sandboxed) is None,
            Err(e) => sandbox_refusal(command@, sandboxed) is Some && e@ == ErrorView::ConfigParse(
                sandbox_refusal(command@, sandboxed)->0,
            ),
        },
{
    if sandboxed {
        let mut m = "`nono ".to_owned();
        m.append(command);
        m.append("` cannot be used inside a sandbox.");
        return Err(NonoError::ConfigParse(m));
    }
    Ok(())
}

/// A sentence with the session id in it.
fn about(before: &str, s: &SessionRecord, after: &str) -> (out: String)
    ensures
        out@ == before@ + s.session_id@ + after@,
{
    let mut out = before.to_owned();
    out.append(s.session_id.as_str());
    out.append(after);
    out
}

/// The message for a session whose supervisor is gone.
pub open spec fn gone_text(s: SessionRecord) -> Seq<char> {
    "Session "@ + s.session_id@ + " supervisor (PID "@ + numbers::decimal(s.supervisor_pid as nat)
        + ") is no longer running"@
}

fn supervisor_gone(s: &SessionRecord) -> (e: NonoError)
    ensures
        e@ == ErrorView::ConfigParse(gone_text(*s)),
{
    let mut m = about("Session ", s, " supervisor (PID ");
    m.append(numbers::decimal_text(s.supervisor_pid as u64).as_str());
    m.append(") is no longer running");
    NonoError::ConfigParse(m)
}

/// Whether a session can be stopped: it has not exited, and its supervisor runs.
pub open spec fn stop_refusal(s: SessionRecord, alive: bool) -> Option<Seq<char>> {
    if s.status == SessionStatus::Exited {
        Some("Session "@ + s.session_id@ + " is already exited"@)
    } else if !alive {
        Some(gone_text(s))
    } else {
        None
    }
}

/// Checks whether a session can be stopped; `alive` says whether its supervisor runs.
pub fn check_stop(s: &SessionRecord, alive: bool) -> (r: Result<(), NonoError>)
    ensures
        match r {
            Ok(()) => stop_refusal(*s, alive) is None,
            Err(e) => stop_refusal(*s, alive) is Some && e@ == ErrorView::ConfigParse(
                stop_refusal(*s, alive)->0,
            ),
        },
{
    if s.status == SessionStatus::Exited {
        return Err(NonoError::ConfigParse(about("Session ", s, " is already exited")));
    }
    if !alive {
        return Err(supervisor_gone(s));
    }
    Ok(())
}

/// The signals in use.
#[derive(Debug, Clone, Copy, PartialEq, Eq, Structural)]
pub enum StopSignal {
    /// Asks the supervisor to end.
    Term,
    /// Ends the supervisor at once.
    Kill,
}

/// The signal that a stop starts with.
pub open spec fn opening_signal(force: bool) -> StopSignal {
    if force {
        StopSignal::Kill
    } else {
        StopSignal::Term
    }
}

/// The signal to send first.
pub fn first_signal(force: bool) -> (signal: StopSignal)
    ensures
        signal == opening_signal(force),
        signal == if force {
            StopSignal::Kill
        } else {
            StopSignal::Term
        },
{
    if force {
        StopSignal::Kill
    } else {
        StopSignal::Term
    }
}

pub open spec fn signal_name(signal: StopSignal) -> Seq<char> {
    match signal {
        StopSignal::Term => "SIGTERM"@,
        StopSignal::Kill => "SIGKILL"@,
    }
}

/// The error for a signal that could not be sent.
pub fn signal_failed(signal: StopSignal, reason: &str) -> (e: NonoError)
    ensures
        e@ == ErrorView::ConfigParse(
            "Failed to send "@ + signal_name(signal) + ": "@ + reason@,
        ),
{
    let name = match signal {
        StopSignal::Term => "SIGTERM",
        StopSignal::Kill => "SIGKILL",
    };
    let mut m = "Failed to send ".to_owned();
    m.append(name);
    m.append(": ");
    m.append(reason);
    NonoError::ConfigParse(m)
}

/// What to do next while a session is being stopped.
#[derive(Debug, Clone, PartialEq, Eq)]
pub enum StopStep {
    /// It is over; say so.
    Done(String),
    /// Send the killing signal, whether it works or not; then say that it is over.
    KillAndDone(String),
    /// Look again after a short sleep.
    Wait,
}

/// The step after the first signal. A forced stop is over at once. Otherwise the supervisor is
/// given until the deadline to end, and killed after that.
pub open spec fn is_stop_step(
    step: StopStep,
    s: SessionRecord,
    force: bool,
    alive: bool,
    past_deadline: bool,
) -> bool {
    if force || !alive {
        step matches StopStep::Done(m) && m@ == "Stopped session "@ + s.session_id@ + "."@
    } else if past_deadline {
        step matches StopStep::KillAndDone(m) && m@ == "Stopped session "@ + s.session_id@
            + " (forced)."@
    } else {
        step is Wait
    }
}

/// Decides the next step after the first signal.
pub fn stop_step(s: &SessionRecord, force: bool, alive: bool, past_deadline: bool) -> (step:
    StopStep)
    ensures
        is_stop_step(step, *s, force, alive, past_deadline),
{
    if force || !alive {
        StopStep::Done(about("Stopped session ", s, "."))
    } else if past_deadline {
        StopStep::KillAndDone(about("Stopped session ", s, " (forced)."))
    } else {
        StopStep::Wait
    }
}

/// Stopping ends: once the deadline has passed there is no waiting.
pub proof fn law_stop_does_not_wait_past_deadline(
    step: StopStep,
    s: SessionRecord,
    force: bool,
    alive: bool,
)
    requires
        is_stop_step(step, s, force, alive, true),
    ensures
        !(step is Wait),
{
}

/// What to do to detach a session.
#[derive(Debug, Clone, PartialEq, Eq)]
pub enum DetachStep {
    /// Nothing is to be done; say so.
    Already(String),
    /// Ask the session to detach; say this when it has.
    Request(String),
}

/// How a request to detach is met: a detached session is left alone; any other has to be running,
/// with its supervisor alive.
pub open spec fn is_detach_step(
    r: Result<DetachStep, NonoError>,
    s: SessionRecord,
    alive: bool,
) -> bool {
    if s.attachment == SessionAttachment::Detached {
        r matches Ok(DetachStep::Already(m)) && m@ == "Session "@ + s.session_id@
            + " is already detached."@
    } else if s.status != SessionStatus::Running {
        r matches Err(e) && e@ == ErrorView::ConfigParse(
            "Session "@ + s.session_id@ + " is not running (status: "@ + session::status_name(
                s.status,
            ) + ")"@,
        )
    } else if !alive {
        r matches Err(e) && e@ == ErrorView::ConfigParse(gone_text(s))
    } else {
        r matches Ok(DetachStep::Request(m)) && m@ == "Detached session "@ + s.session_id@ + "."@
    }
}

/// Decides what to do to detach a session.
pub fn detach_step(s: &SessionRecord, alive: bool) -> (r: Result<DetachStep, NonoError>)
    ensures
        is_detach_step(r, *s, alive),
{
    if s.attachment == SessionAttachment::Detached {
        return Ok(DetachStep::Already(about("Session ", s, " is already detached.")));
    }
    if s.status != SessionStatus::Running {
        let mut m = about("Session ", s, " is not running (status: ");
        m.append(s.status.name());
        m.append(")");
        return Err(NonoError::ConfigParse(m));
    }
    if !alive {
        return Err(supervisor_gone(s));
    }
    Ok(DetachStep::Request(about("Detached session ", s, ".")))
}

/// What to do to attach to a session.
#[derive(Debug, Clone, PartialEq, Eq)]
pub enum AttachStep {
    /// Nothing is to be done; say so.
    Exited(String),
    /// Say this, and then give up with the error.
    Refuse(String, NonoError),
    /// Say this, and then attach.
    Attach(String),
}

/// How a request to attach is met: an exited session is reported with its exit code; any other
/// needs a live supervisor, and must not be paused.
pub open spec fn is_attach_step(
    r: Result<AttachStep, NonoError>,
    s: SessionRecord,
    alive: bool,
) -> bool {
    let attaching = "[nono] Attaching to session "@ + s.session_id@ + "..."@;
    if s.status == SessionStatus::Exited {
        r matches Ok(AttachStep::Exited(m)) && m@ == match s.exit_code {
            Some(code) => "[nono] Session "@ + s.session_id@ + " has already exited (exit code "@
                + numbers::signed_decimal(code as int) + ")."@,
            None => "[nono] Session "@ + s.session_id@ + " has already exited."@,
        }
    } else if !alive {
        r matches Err(e) && e@ == ErrorView::ConfigParse(gone_text(s))
    } else if s.status == SessionStatus::Paused {
        r matches Ok(AttachStep::Refuse(m, e)) && m@ == attaching && e@ == ErrorView::ConfigParse(
            "Session "@ + s.session_id@ + " is paused/stopped and cannot accept attach"@,
        )
    } else {
        r matches Ok(AttachStep::Attach(m)) && m@ == attaching
    }
}

/// Decides what to do to attach to a session.
pub fn attach_step(s: &SessionRecord, alive: bool) -> (r: Result<AttachStep, NonoError>)
    ensures
        is_attach_step(r, *s, alive),
{
    if s.status == SessionStatus::Exited {
        let m = match s.exit_code {
            Some(code) => {
                let mut m = about("[nono] Session ", s, " has already exited (exit code ");
                m.append(numbers::signed_text(code as i64).as_str());
                m.append(").");
                m
            },
            None => about("[nono] Session ", s, " has already exited."),
        };
        return Ok(AttachStep::Exited(m));
    }
    if !alive {
        return Err(supervisor_gone(s));
    }
    let attaching = about("[nono] Attaching to session ", s, "...");
    if s.status == SessionStatus::Paused {
        let e = NonoError::ConfigParse(
            about("Session ", s, " is paused/stopped and cannot accept attach"),
        );
        return Ok(AttachStep::Refuse(attaching, e));
    }
    Ok(AttachStep::Attach(attaching))
}

/// What is made of the end of an attachment: a busy or vanished session is no error, but is
/// reported; any other outcome is passed on.
pub open spec fn attach_end(s: SessionRecord, outcome: Result<(), ErrorView>) -> Result<
    Option<Seq<char>>,
    ErrorView,
> {
    match outcome {
        Ok(()) => Ok(None),
        Err(ErrorView::AttachBusy) => Ok(
            Some(
                "[nono] Session "@ + s.session_id@ + " already has an active attached client."@,
            ),
        ),
        Err(ErrorView::SessionGone) => Ok(
            Some("[nono] Session "@ + s.session_id@ + " exited before attach could complete."@),
        ),
        Err(e) => Err(e),
    }
}

/// Decides what to report of the end of an attachment.
pub fn attach_outcome(s: &SessionRecord, outcome: Result<(), NonoError>) -> (r: Result<
    Option<String>,
    NonoError,
>)
    ensures
        (match r {
            Ok(Some(m)) => Ok(Some(m@)),
            Ok(None) => Ok(None),
            Err(e) => Err(e@),
        }) == attach_end(*s, error::outcome(outcome)),
{
    match outcome {
        Ok(()) => Ok(None),
        Err(NonoError::AttachBusy) => Ok(
            Some(about("[nono] Session ", s, " already has an active attached client.")),
        ),
        Err(NonoError::SessionGone) => Ok(
            Some(about("[nono] Session ", s, " exited before attach could complete.")),
        ),
        Err(e) => Err(e),
    }
}

/// Attaching works exactly with a running session whose supervisor is alive, whether a client is
/// attached to it or not. A paused session is refused, an exited one is reported, and any other
/// whose supervisor is gone is an error.
pub proof fn law_running_sessions_can_be_attached_to(
    r: Result<AttachStep, NonoError>,
    s: SessionRecord,
    alive: bool,
)
    requires
        is_attach_step(r, s, alive),
    ensures
        r matches Ok(AttachStep::Attach(_)) <==> s.status == SessionStatus::Running && alive,
        r matches Ok(AttachStep::Refuse(_, _)) <==> s.status == SessionStatus::Paused && alive,
        r matches Ok(AttachStep::Exited(_)) <==> s.status == SessionStatus::Exited,
        r is Err <==> s.status != SessionStatus::Exited && !alive,
{
}

/// How a request to attach is met depends neither on the attachment nor on anything else that is
/// recorded but the id, the status, the exit code and the supervisor.
pub proof fn law_attaching_ignores_the_attachment(
    r: Result<AttachStep, NonoError>,
    s: SessionRecord,
    t: SessionRecord,
    alive: bool,
)
    requires
        s.session_id@ == t.session_id@,
        s.status == t.status,
        s.exit_code == t.exit_code,
        s.supervisor_pid == t.supervisor_pid,
    ensures
        is_attach_step(r, s, alive) == is_attach_step(r, t, alive),
{
}

/// What is said about a request to attach names the session.
pub proof fn law_attaching_names_the_session(
    r: Result<AttachStep, NonoError>,
    s: SessionRecord,
    alive: bool,
)
    requires
        is_attach_step(r, s, alive),
    ensures
        r matches Ok(AttachStep::Attach(m)) ==> m@ == "[nono] Attaching to session "@
            + s.session_id@ + "..."@,
        r matches Ok(AttachStep::Refuse(m, e)) ==> m@ == "[nono] Attaching to session "@
            + s.session_id@ + "..."@ && e@ == ErrorView::ConfigParse(
            "Session "@ + s.session_id@ + " is paused/stopped and cannot accept attach"@,
        ),
        r matches Ok(AttachStep::Exited(m)) ==> m@ == (match s.exit_code {
            Some(code) => "[nono] Session "@ + s.session_id@ + " has already exited (exit code "@
                + numbers::signed_decimal(code as int) + ")."@,
            None => "[nono] Session "@ + s.session_id@ + " has already exited."@,
        }),
        r matches Err(e) ==> e@ == ErrorView::ConfigParse(
            "Session "@ + s.session_id@ + " supervisor (PID "@ + numbers::decimal(
                s.supervisor_pid as nat,
            ) + ") is no longer running"@,
        ),
{
}

/// A session is detached exactly when a client is attached, it runs and its supervisor is alive.
/// A detached session is left alone, whatever its status.
pub proof fn law_attached_running_sessions_can_be_detached(
    r: Result<DetachStep, NonoError>,
    s: SessionRecord,
    alive: bool,
)
    requires
        is_detach_step(r, s, alive),
    ensures
        r matches Ok(DetachStep::Request(_)) <==> s.attachment == SessionAttachment::Attached
            && s.status == SessionStatus::Running && alive,
        r matches Ok(DetachStep::Already(_)) <==> s.attachment == SessionAttachment::Detached,
        r is Err <==> s.attachment == SessionAttachment::Attached && (s.status
            != SessionStatus::Running || !alive),
        r matches Ok(DetachStep::Request(m)) ==> m@ == "Detached session "@ + s.session_id@ + "."@,
        r matches Ok(DetachStep::Already(m)) ==> m@ == "Session "@ + s.session_id@
            + " is already detached."@,
        r is Err && s.status == SessionStatus::Running ==> r->Err_0@ == ErrorView::ConfigParse(
            "Session "@ + s.session_id@ + " supervisor (PID "@ + numbers::decimal(
                s.supervisor_pid as nat,
            ) + ") is no longer running"@,
        ),
        r is Err && s.status == SessionStatus::Paused ==> r->Err_0@ == ErrorView::ConfigParse(
            "Session "@ + s.session_id@ + " is not running (status: "@ + "Paused"@ + ")"@,
        ),
        r is Err && s.status == SessionStatus::Exited ==> r->Err_0@ == ErrorView::ConfigParse(
            "Session "@ + s.session_id@ + " is not running (status: "@ + "Exited"@ + ")"@,
        ),
{
}

/// A session can be stopped exactly when it has not exited and its supervisor is alive, running or
/// paused, attached or not. An exited session is reported as such even when the supervisor is gone.
pub proof fn law_live_sessions_can_be_stopped(s: SessionRecord, alive: bool)
    ensures
        stop_refusal(s, alive) is None <==> (s.status == SessionStatus::Running || s.status
            == SessionStatus::Paused) && alive,
        s.status == SessionStatus::Exited ==> stop_refusal(s, alive) == Some(
            "Session "@ + s.session_id@ + " is already exited"@,
        ),
        s.status != SessionStatus::Exited && !alive ==> stop_refusal(s, alive) == Some(
            "Session "@ + s.session_id@ + " supervisor (PID "@ + numbers::decimal(
                s.supervisor_pid as nat,
            ) + ") is no longer running"@,
        ),
{
}

/// A supervisor is killed after the first signal exactly when it was asked to end, is still alive
/// and has run out of time; until then it is waited for. The status of the session plays no part.
pub proof fn law_stop_kills_only_after_the_deadline(
    step: StopStep,
    s: SessionRecord,
    force: bool,
    alive: bool,
    past_deadline: bool,
)
    requires
        is_stop_step(step, s, force, alive, past_deadline),
    ensures
        step is KillAndDone <==> !force && alive && past_deadline,
        step is Wait <==> !force && alive && !past_deadline,
        step is Done <==> force || !alive,
        step matches StopStep::Done(m) ==> m@ == "Stopped session "@ + s.session_id@ + "."@,
        step matches StopStep::KillAndDone(m) ==> m@ == "Stopped session "@ + s.session_id@
            + " (forced)."@,
{
}

/// The end of an attachment is an error exactly when it is one other than a busy or a vanished
/// session; these two are reported, and success is not.
pub proof fn law_only_other_errors_end_an_attachment(
    s: SessionRecord,
    outcome: Result<(), ErrorView>,
)
    ensures
        outcome is Ok ==> attach_end(s, outcome) == Ok::<Option<Seq<char>>, ErrorView>(None),
        outcome == Err::<(), ErrorView>(ErrorView::AttachBusy) ==> attach_end(s, outcome) == Ok::<
            Option<Seq<char>>,
            ErrorView,
        >(
            Some(
                "[nono] Session "@ + s.session_id@ + " already has an active attached client."@,
            ),
        ),
        outcome == Err::<(), ErrorView>(ErrorView::SessionGone) ==> attach_end(s, outcome) == Ok::<
            Option<Seq<char>>,
            ErrorView,
        >(Some("[nono] Session "@ + s.session_id@ + " exited before attach could complete."@)),
        outcome matches Err(e) && e != ErrorView::AttachBusy && e != ErrorView::SessionGone
            ==> attach_end(s, outcome) == Err::<Option<Seq<char>>, ErrorView>(outcome->Err_0),
{
}

/// A supervisor is killed right away exactly when the stop is forced, and asked to end otherwise.
pub proof fn law_only_forced_stops_start_with_killing(force: bool)
    ensures
        opening_signal(force) == StopSignal::Kill <==> force,
        opening_signal(force) == StopSignal::Term <==> !force,
        signal_name(StopSignal::Kill) == "SIGKILL"@,
        signal_name(StopSignal::Term) == "SIGTERM"@,
{
}

/// Commands are refused inside a sandbox, whatever they are, and nowhere else.
pub proof fn law_commands_are_refused_in_sandboxes_only(command: Seq<char>, sandboxed: bool)
    ensures
        sandbox_refusal(command, sandboxed) is Some <==> sandboxed,
        sandboxed ==> text::has_substring(sandbox_refusal(command, sandboxed)->0, command),
{
    if sandboxed {
        let m = sandbox_refusal(command, sandboxed)->0;
        let at = "`nono "@.len() as int;
        assert(m.subrange(at, at + command.len()) =~= command);
    }
}

/// What is said of a supervisor that is gone names the session and the process.
pub proof fn law_gone_supervisors_are_named(s: SessionRecord)
    ensures
        text::has_substring(gone_text(s), "Session "@ + s.session_id@),
        text::has_substring(
            gone_text(s),
            "(PID "@ + numbers::decimal(s.supervisor_pid as nat) + ") is no longer running"@,
        ),
{
    reveal_strlit("(PID ");
    reveal_strlit(" supervisor (PID ");
    let g = gone_text(s);
    let head = "Session "@ + s.session_id@;
    let tail = "(PID "@ + numbers::decimal(s.supervisor_pid as nat) + ") is no longer running"@;
    let (start, end) = (0int, g.len() - tail.len());
    assert(g.subrange(start, start + head.len()) =~= head);
    assert(g.subrange(end, end + tail.len()) =~= tail);
}

} // verus!
