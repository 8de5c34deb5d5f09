//! The course of a shell or a command: a recorder is found and opened where the
//! login is recorded, the process is launched, its output goes to the recorder
//! and to the client, and in the end everything is closed.
use vstd::prelude::*;

verus! {

/// Who takes a recording.
#[derive(Debug, Clone, Copy, PartialEq, Eq, Structural)]
pub enum RecorderTarget {
    /// No device does.
    Nobody,
    /// This device, which may have no store for recordings.
    Local { store: bool },
    /// Another device.
    Remote,
}

#[derive(Debug, Clone, Copy, PartialEq, Eq, Structural)]
pub enum ShellStage {
    Refused,
    FindingRecorder,
    OpeningRecorder,
    Launching,
    Running,
    Closed,
}

/// What has happened outside.
#[derive(Debug, Clone, Copy, PartialEq, Eq, Structural)]
pub enum ShellEvent {
    RecorderFound(RecorderTarget),
    /// Whether the recording could be opened.
    RecorderOpened(bool),
    /// Whether the process could be launched.
    Launched(bool),
    /// The process has written something. Where the session is recorded, the
    /// recorder was given it first, and may have failed.
    Output { recorder_failed: bool },
    /// The process writes no more.
    OutputOver,
    /// The client takes no more.
    ClientGone,
}

/// What has to be done outside.
#[derive(Debug, Clone, Copy, PartialEq, Eq, Structural)]
pub enum ShellAction {
    /// The request fails.
    Refuse,
    FindRecorder,
    OpenLocalRecording,
    OpenRemoteRecording,
    Launch,
    /// The request succeeds: the session is announced and registered.
    Start { recorded: bool },
    /// The output goes to the client.
    Forward,
    /// The channel is closed; a recording that is open is finished.
    Close,
    Nothing,
}

/// A shell or a command on its way.
#[derive(Debug, Clone, Copy, PartialEq, Eq, Structural)]
pub struct ShellSession {
    pub stage: ShellStage,
    /// It must not run without being recorded.
    pub required: bool,
    /// It is being recorded.
    pub recording: bool,
}

/// A request that is granted begins with a recorder, if the login is recorded.
pub open spec fn begun(granted: bool, record: bool, enforce_recorder: bool) -> (
    ShellSession,
    ShellAction,
) {
    if !granted {
        (
            ShellSession { stage: ShellStage::Refused, required: false, recording: false },
            ShellAction::Refuse,
        )
    } else if record {
        (
            ShellSession {
                stage: ShellStage::FindingRecorder,
                required: enforce_recorder,
                recording: false,
            },
            ShellAction::FindRecorder,
        )
    } else {
        (
            ShellSession { stage: ShellStage::Launching, required: false, recording: false },
            ShellAction::Launch,
        )
    }
}

/// Without a recorder a session that has to be recorded is refused, any other
/// one runs unrecorded.
pub open spec fn without_recorder(s: ShellSession) -> (ShellSession, ShellAction) {
    if s.required {
        (ShellSession { stage: ShellStage::Refused, ..s }, ShellAction::Refuse)
    } else {
        (ShellSession { stage: ShellStage::Launching, ..s }, ShellAction::Launch)
    }
}

/// What an event makes of a session, and what has to be done. An event that
/// does not belong to the stage changes nothing.
pub open spec fn stepped(s: ShellSession, e: ShellEvent) -> (ShellSession, ShellAction) {
    match (s.stage, e) {
        (ShellStage::FindingRecorder, ShellEvent::RecorderFound(target)) => match target {
            RecorderTarget::Nobody => without_recorder(s),
            RecorderTarget::Local { store } => if store {
                (
                    ShellSession { stage: ShellStage::OpeningRecorder, ..s },
                    ShellAction::OpenLocalRecording,
                )
            } else {
                without_recorder(s)
            },
            RecorderTarget::Remote => (
                ShellSession { stage: ShellStage::OpeningRecorder, ..s },
                ShellAction::OpenRemoteRecording,
            ),
        },
        (ShellStage::OpeningRecorder, ShellEvent::RecorderOpened(done)) => if done {
            (
                ShellSession { stage: ShellStage::Launching, recording: true, ..s },
                ShellAction::Launch,
            )
        } else {
            without_recorder(s)
        },
        (ShellStage::Launching, ShellEvent::Launched(done)) => if done {
            (
                ShellSession { stage: ShellStage::Running, ..s },
                ShellAction::Start { recorded: s.recording },
            )
        } else {
            (ShellSession { stage: ShellStage::Refused, ..s }, ShellAction::Refuse)
        },
        (ShellStage::Running, ShellEvent::Output { recorder_failed }) => if s.recording
            && recorder_failed {
            if s.required {
                (ShellSession { stage: ShellStage::Closed, ..s }, ShellAction::Close)
            } else {
                (ShellSession { recording: false, ..s }, ShellAction::Forward)
            }
        } else {
            (s, ShellAction::Forward)
        },
        (ShellStage::Running, ShellEvent::OutputOver) => (
            ShellSession { stage: ShellStage::Closed, ..s },
            ShellAction::Close,
        ),
        (ShellStage::Running, ShellEvent::ClientGone) => (
            ShellSession { stage: ShellStage::Closed, ..s },
            ShellAction::Close,
        ),
        _ => (s, ShellAction::Nothing),
    }
}

impl ShellSession {
    /// A request for a shell or a command, given whether it is granted and how
    /// the login is recorded.
    pub fn begin(granted: bool, record: bool, enforce_recorder: bool) -> (r: (
        ShellSession,
        ShellAction,
    ))
        ensures
            r == begun(granted, record, enforce_recorder),
    {
        if !granted {
            return (
                ShellSession { stage: ShellStage::Refused, required: false, recording: false },
                ShellAction::Refuse,
            );
        }
        if record {
            (
                ShellSession {
                    stage: ShellStage::FindingRecorder,
                    required: enforce_recorder,
                    recording: false,
                },
                ShellAction::FindRecorder,
            )
        } else {
            (
                ShellSession { stage: ShellStage::Launching, required: false, recording: false },
                ShellAction::Launch,
            )
        }
    }

    fn go_without_recorder(&mut self) -> (r: ShellAction)
        ensures
            (*final(self), r) == without_recorder(*old(self)),
    {
        if self.required {
            self.stage = ShellStage::Refused;
            ShellAction::Refuse
        } else {
            self.stage = ShellStage::Launching;
            ShellAction::Launch
        }
    }

    /// Takes in what has happened, and says what has to be done.
    pub fn step(&mut self, event: ShellEvent) -> (r: ShellAction)
        ensures
            (*final(self), r) == stepped(*old(self), event),
    {
        match (self.stage, event) {
            (ShellStage::FindingRecorder, ShellEvent::RecorderFound(target)) => match target {
                RecorderTarget::Nobody => self.go_without_recorder(),
                RecorderTarget::Local { store } => {
                    if store {
                        self.stage = ShellStage::OpeningRecorder;
                        ShellAction::OpenLocalRecording
                    } else {
                        self.go_without_recorder()
                    }
                },
                RecorderTarget::Remote => {
                    self.stage = ShellStage::OpeningRecorder;
                    ShellAction::OpenRemoteRecording
                },
            },
            (ShellStage::OpeningRecorder, ShellEvent::RecorderOpened(done)) => {
                if done {
                    self.recording = true;
                    self.stage = ShellStage::Launching;
                    ShellAction::Launch
                } else {
                    self.go_without_recorder()
                }
            },
            (ShellStage::Launching, ShellEvent::Launched(done)) => {
                if done {
                    self.stage = ShellStage::Running;
                    ShellAction::Start { recorded: self.recording }
                } else {
                    self.stage = ShellStage::Refused;
                    ShellAction::Refuse
                }
            },
            (ShellStage::Running, ShellEvent::Output { recorder_failed }) => {
                if self.recording && recorder_failed {
                    if self.required {
                        self.stage = ShellStage::Closed;
                        return ShellAction::Close;
                    }
                    self.recording = false;
                }
                ShellAction::Forward
            },
            (ShellStage::Running, ShellEvent::OutputOver) | (
                ShellStage::Running,
                ShellEvent::ClientGone,
            ) => {
                self.stage = ShellStage::Closed;
                ShellAction::Close
            },
            _ => ShellAction::Nothing,
        }
    }
}

/// A session that has to be recorded is recorded when it is launched and as
/// long as it runs.
pub open spec fn kept_on_record(s: ShellSession) -> bool {
    s.required && (s.stage is Launching || s.stage is Running) ==> s.recording
}

/// The state of a session after a number of events.
pub open spec fn after(s: ShellSession, events: Seq<ShellEvent>) -> ShellSession
    decreases events.len(),
{
    if events.len() == 0 {
        s
    } else {
        stepped(after(s, events.drop_last()), events.last()).0
    }
}

/// Whatever happens, a session that has to be recorded never runs and never
/// shows the client anything without being recorded.
pub proof fn law_required_recording_is_kept(
    granted: bool,
    record: bool,
    enforce_recorder: bool,
    events: Seq<ShellEvent>,
    next: ShellEvent,
)
    ensures
        ({
            let s = after(begun(granted, record, enforce_recorder).0, events);
            &&& kept_on_record(s)
            &&& granted && record && enforce_recorder ==> s.required
            &&& s.required && stepped(s, next).1 is Forward ==> s.recording && stepped(
                s,
                next,
            ).0.recording && !(next is Output && next->recorder_failed)
            &&& s.required && stepped(s, next).1 is Start ==> stepped(s, next).1
                == (ShellAction::Start { recorded: true })
        }),
    decreases events.len(),
{
    if events.len() > 0 {
        law_required_recording_is_kept(
            granted,
            record,
            enforce_recorder,
            events.drop_last(),
            events.last(),
        );
    }
}

/// Once a session is refused or closed nothing happens any more.
pub proof fn law_the_end_is_final(s: ShellSession, e: ShellEvent)
    requires
        s.stage is Refused || s.stage is Closed,
    ensures
        stepped(s, e).0 == s,
        stepped(s, e).1 is Nothing,
{
}

/// A session that runs ends when its process writes no more or its client takes
/// no more: it is closed then, and it is never closed again, whatever happens
/// before and after.
pub proof fn law_running_session_is_closed_once(
    s: ShellSession,
    before: Seq<ShellEvent>,
    end: ShellEvent,
    later: Seq<ShellEvent>,
    next: ShellEvent,
)
    requires
        after(s, before).stage is Running,
        end is OutputOver || end is ClientGone,
    ensures
        stepped(after(s, before), end).1 is Close,
        stepped(after(s, before), end).0.stage is Closed,
        after(s, before.push(end) + later).stage is Closed,
        stepped(after(s, before.push(end) + later), next).1 is Nothing,
    decreases later.len(),
{
    let events = before.push(end) + later;
    if later.len() == 0 {
        assert(events.drop_last() =~= before);
        assert(events.last() == end);
    } else {
        law_running_session_is_closed_once(s, before, end, later.drop_last(), later.last());
        assert(events.drop_last() =~= before.push(end) + later.drop_last());
        assert(events.last() == later.last());
    }
}

/// A session is closed only while it runs: because it is over, or because it has
/// to be recorded and its recorder fails.
pub proof fn law_only_running_sessions_are_closed(s: ShellSession, e: ShellEvent)
    ensures
        stepped(s, e).1 is Close <==> s.stage is Running && match e {
            ShellEvent::OutputOver => true,
            ShellEvent::ClientGone => true,
            ShellEvent::Output { recorder_failed } => s.required && s.recording && recorder_failed,
            _ => false,
        },
        stepped(s, e).1 is Close <==> s.stage is Running && stepped(s, e).0.stage is Closed,
        stepped(s, e).0.stage is Closed && !(s.stage is Closed) ==> stepped(s, e).1 is Close,
{
}

/// All that a session writes while it runs goes to the client, unless it has to
/// be recorded and its recorder fails. One that need not be recorded goes on
/// without its recorder.
pub proof fn law_output_reaches_the_client(s: ShellSession, recorder_failed: bool)
    requires
        s.stage is Running,
    ensures
        ({
            let (t, action) = stepped(s, ShellEvent::Output { recorder_failed });
            &&& action is Forward <==> !(s.recording && recorder_failed && s.required)
            &&& action is Forward ==> t.stage is Running
            &&& t.recording <==> s.recording && (!recorder_failed || s.required)
            &&& t.required == s.required
        }),
{
}

/// A granted request that is not recorded is launched at once, and starts
/// unrecorded or is refused as the launch goes.
pub proof fn law_unrecorded_session_is_launched(enforce_recorder: bool, done: bool)
    ensures
        ({
            let (s, first) = begun(true, false, enforce_recorder);
            let (t, second) = stepped(s, ShellEvent::Launched(done));
            &&& first is Launch
            &&& done ==> second == (ShellAction::Start { recorded: false }) && t.stage is Running
            &&& !done ==> second is Refuse && t.stage is Refused
        }),
{
}

/// A granted request that is recorded looks for a recorder first. The recording
/// is opened where the recorder is, here if there is a store. Once it is open the
/// session is launched and starts as a recorded one.
pub proof fn law_recorded_session_is_recorded(
    enforce_recorder: bool,
    target: RecorderTarget,
    done: bool,
)
    requires
        target is Remote || target == (RecorderTarget::Local { store: true }),
    ensures
        ({
            let (s, first) = begun(true, true, enforce_recorder);
            let (t, second) = stepped(s, ShellEvent::RecorderFound(target));
            let (u, third) = stepped(t, ShellEvent::RecorderOpened(true));
            let (v, fourth) = stepped(u, ShellEvent::Launched(done));
            &&& first is FindRecorder
            &&& target is Remote ==> second is OpenRemoteRecording
            &&& target is Local ==> second is OpenLocalRecording
            &&& third is Launch
            &&& done ==> fourth == (ShellAction::Start { recorded: true }) && v.stage is Running
                && v.recording && v.required == enforce_recorder
            &&& !done ==> fourth is Refuse && v.stage is Refused
        }),
{
}

/// Where no recorder is found, or the recording cannot be opened, a session that
/// has to be recorded is refused; any other one is launched and starts
/// unrecorded.
pub proof fn law_session_without_a_recorder(enforce_recorder: bool, target: RecorderTarget)
    ensures
        ({
            let s = begun(true, true, enforce_recorder).0;
            let found = target is Remote || target == (RecorderTarget::Local { store: true });
            let (t, second) = stepped(s, ShellEvent::RecorderFound(target));
            let (u, third) = if found {
                stepped(t, ShellEvent::RecorderOpened(false))
            } else {
                (t, second)
            };
            let (v, fourth) = stepped(u, ShellEvent::Launched(true));
            &&& enforce_recorder ==> third is Refuse && u.stage is Refused && fourth is Nothing
            &&& !enforce_recorder ==> third is Launch && fourth == (ShellAction::Start {
                recorded: false,
            }) && v.stage is Running && !v.recording
        }),
{
}

/// A request that is not granted is refused, and stays so.
pub proof fn law_ungranted_request_is_refused(
    record: bool,
    enforce_recorder: bool,
    events: Seq<ShellEvent>,
)
    ensures
        begun(false, record, enforce_recorder).1 is Refuse,
        after(begun(false, record, enforce_recorder).0, events).stage is Refused,
    decreases events.len(),
{
    if events.len() > 0 {
        law_ungranted_request_is_refused(record, enforce_recorder, events.drop_last());
    }
}

/// Each event belongs to one stage; at any other it changes nothing and asks for
/// nothing.
pub proof fn law_events_out_of_place_do_nothing(s: ShellSession, e: ShellEvent)
    requires
        match e {
            ShellEvent::RecorderFound(_) => !(s.stage is FindingRecorder),
            ShellEvent::RecorderOpened(_) => !(s.stage is OpeningRecorder),
            ShellEvent::Launched(_) => !(s.stage is Launching),
            _ => !(s.stage is Running),
        },
    ensures
        stepped(s, e).0 == s,
        stepped(s, e).1 is Nothing,
{
}

} // verus!
