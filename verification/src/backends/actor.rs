//! What every backend thread shares: when it stops, what a caller is told when it is gone, and
//! how its commands change the open sessions.

use crate::camera::{CameraError, CameraErrorView};
use crate::sessions;
use vstd::prelude::*;

verus! {

/// The status that callers are given when the backend thread does not answer.
pub const THREAD_LOST: u32 = 0xFFFF_FFFF;

/// What waiting for the next command gave.
#[derive(Debug, PartialEq, Eq)]
pub enum Received<C> {
    Command(C),
    /// The thread is told to stop.
    Shutdown,
    /// Nothing came in the time allowed.
    Timeout,
    /// Every sender is gone.
    Disconnected,
}

/// What a backend thread does next.
#[derive(Debug, PartialEq, Eq)]
pub enum LoopStep<C> {
    /// Carries out a command and answers it.
    Serve(C),
    /// Goes back to waiting.
    Wait,
    /// Closes its sessions and ends.
    Stop,
}

/// What a backend thread does with what it received: it stops when it is told to and when
/// nobody is left to tell it, and serves every command.
pub open spec fn loop_step<C>(received: Received<C>) -> LoopStep<C> {
    match received {
        Received::Command(command) => LoopStep::Serve(command),
        Received::Shutdown => LoopStep::Stop,
        Received::Timeout => LoopStep::Wait,
        Received::Disconnected => LoopStep::Stop,
    }
}

/// What a backend thread does with what it received.
pub fn next_step<C>(received: Received<C>) -> (step: LoopStep<C>)
    ensures
        step == loop_step(received),
{
    match received {
        Received::Command(command) => LoopStep::Serve(command),
        Received::Shutdown => LoopStep::Stop,
        Received::Timeout => LoopStep::Wait,
        Received::Disconnected => LoopStep::Stop,
    }
}

/// What the caller of a backend is told: the answer, or that the thread is lost where the
/// command could not be sent or no answer came.
pub fn answered<T>(sent: bool, reply: Option<Result<T, CameraError>>) -> (answer: Result<
    T,
    CameraError,
>)
    ensures
        match reply {
            Some(r) if sent => answer == r,
            _ => answer matches Err(e) && e@ == CameraErrorView::SdkError(THREAD_LOST),
        },
{
    match reply {
        Some(r) if sent => r,
        _ => Err(CameraError::SdkError(THREAD_LOST)),
    }
}

/// Whether the caller of a backend is told that a session is open: not where the thread is lost.
pub fn answered_flag(sent: bool, reply: Option<bool>) -> (answer: bool)
    ensures
        answer == (sent && reply == Some(true)),
{
    match reply {
        Some(r) => sent && r,
        None => false,
    }
}

// ---------------------------------------------------------------------------
// The commands
// ---------------------------------------------------------------------------

/// What stands for an open session.
pub type Handle = u64;

/// The sessions and the answer behind a command to connect, of what opening a session gives.
pub open spec fn connect_turn(
    sessions: Map<Seq<char>, Handle>,
    device: Seq<char>,
    opened: Result<Handle, CameraErrorView>,
) -> (Map<Seq<char>, Handle>, Result<(), CameraErrorView>) {
    if sessions.dom().contains(device) {
        (sessions, Ok(()))
    } else {
        match opened {
            Ok(handle) => (sessions.insert(device, handle), Ok(())),
            Err(e) => (sessions, Err(e)),
        }
    }
}

/// The sessions behind a command to disconnect and the handle that is to be closed, or the error
/// that is answered.
pub open spec fn disconnect_turn(
    sessions: Map<Seq<char>, Handle>,
    device: Seq<char>,
) -> (Map<Seq<char>, Handle>, Result<Handle, CameraErrorView>) {
    if sessions.dom().contains(device) {
        (sessions.remove(device), Ok(sessions[device]))
    } else {
        (sessions, Err(CameraErrorView::DeviceNotFound(device)))
    }
}

/// A command to a backend thread, with what the calls that serve it give.
pub enum ActorCommand {
    Connect { device: Seq<char>, opened: Result<Handle, CameraErrorView> },
    Disconnect { device: Seq<char> },
    IsConnected { device: Seq<char> },
    /// A command that opens and closes no session.
    Other,
}

/// What a backend thread answers.
pub enum ActorAnswer {
    Done(Result<(), CameraErrorView>),
    Connected(bool),
    Other,
}

/// A command, and whether somebody still waits for its answer.
pub struct Asked {
    pub command: ActorCommand,
    pub heard: bool,
}

/// The sessions and the answer behind a command.
pub open spec fn served(sessions: Map<Seq<char>, Handle>, command: ActorCommand) -> (
    Map<Seq<char>, Handle>,
    ActorAnswer,
) {
    match command {
        ActorCommand::Connect { device, opened } => {
            let (after, r) = connect_turn(sessions, device, opened);
            (after, ActorAnswer::Done(r))
        },
        ActorCommand::Disconnect { device } => {
            let (after, r) = disconnect_turn(sessions, device);
            (
                after,
                ActorAnswer::Done(
                    match r {
                        Ok(_) => Ok(()),
                        Err(e) => Err(e),
                    },
                ),
            )
        },
        ActorCommand::IsConnected { device } => (
            sessions,
            ActorAnswer::Connected(sessions.dom().contains(device)),
        ),
        ActorCommand::Other => (sessions, ActorAnswer::Other),
    }
}

// ---------------------------------------------------------------------------
// The run of a thread
// ---------------------------------------------------------------------------

/// What came of everything that a thread received.
pub struct Run {
    /// The sessions that are open.
    pub sessions: Map<Seq<char>, Handle>,
    /// The answers that were given, in their order.
    pub answers: Seq<ActorAnswer>,
    /// Whether the thread has left its loop.
    pub stopped: bool,
}

/// The run of a thread that began without sessions.
pub open spec fn run(received: Seq<Received<Asked>>) -> Run
    decreases received.len(),
{
    if received.len() == 0 {
        Run { sessions: Map::empty(), answers: Seq::empty(), stopped: false }
    } else {
        let before = run(received.drop_last());
        if before.stopped {
            before
        } else {
            match loop_step(received.last()) {
                LoopStep::Serve(asked) => {
                    let (sessions, answer) = served(before.sessions, asked.command);
                    Run { sessions, answers: before.answers.push(answer), stopped: false }
                },
                LoopStep::Wait => before,
                LoopStep::Stop => Run { stopped: true, ..before },
            }
        }
    }
}

/// Whether a thread ends its loop with the message at `i`.
pub open spec fn is_stop(received: Seq<Received<Asked>>, i: int) -> bool {
    0 <= i < received.len() && loop_step(received[i]) is Stop
}

/// Whether nothing that was received ends the loop.
pub open spec fn is_running(received: Seq<Received<Asked>>) -> bool {
    forall|i: int| !#[trigger] is_stop(received, i)
}

/// The commands that were received, in their order.
pub open spec fn commands(received: Seq<Received<Asked>>) -> Seq<ActorCommand>
    decreases received.len(),
{
    if received.len() == 0 {
        Seq::empty()
    } else {
        match received.last() {
            Received::Command(asked) => commands(received.drop_last()).push(asked.command),
            _ => commands(received.drop_last()),
        }
    }
}

/// The command at `i`.
pub open spec fn command_at(received: Seq<Received<Asked>>, i: int) -> Option<ActorCommand> {
    match received[i] {
        Received::Command(asked) if 0 <= i < received.len() => Some(asked.command),
        _ => None,
    }
}

/// What the command at `i` is answered, of the sessions that are open before it.
pub open spec fn answer_at(received: Seq<Received<Asked>>, i: int) -> ActorAnswer {
    served(run(received.take(i)).sessions, command_at(received, i)->Some_0).1
}

/// Whether the message at `i` connects `device` with success.
pub open spec fn connects(received: Seq<Received<Asked>>, device: Seq<char>, i: int) -> bool {
    match command_at(received, i) {
        Some(ActorCommand::Connect { device: d, .. }) => d == device && answer_at(received, i)
            == ActorAnswer::Done(Ok(())),
        _ => false,
    }
}

/// Whether the message at `i` disconnects `device` with success.
pub open spec fn disconnects(received: Seq<Received<Asked>>, device: Seq<char>, i: int) -> bool {
    match command_at(received, i) {
        Some(ActorCommand::Disconnect { device: d }) => d == device && answer_at(received, i)
            == ActorAnswer::Done(Ok(())),
        _ => false,
    }
}

/// Whether `device` was connected with success and not disconnected with success since.
pub open spec fn is_left_connected(received: Seq<Received<Asked>>, device: Seq<char>) -> bool {
    exists|i: int| #[trigger]
        connects(received, device, i) && forall|j: int|
            i < j ==> !#[trigger] disconnects(received, device, j)
}

/// The handles of the sessions that were opened for `device`, in their order.
pub open spec fn opened_for(received: Seq<Received<Asked>>, device: Seq<char>) -> Seq<Handle>
    decreases received.len(),
{
    if received.len() == 0 {
        Seq::empty()
    } else {
        let before = run(received.drop_last());
        let earlier = opened_for(received.drop_last(), device);
        match command_at(received, received.len() - 1) {
            Some(ActorCommand::Connect { device: d, opened: Ok(handle) }) if d == device
                && !before.stopped && !before.sessions.dom().contains(d) => earlier.push(handle),
            _ => earlier,
        }
    }
}

/// The handles that commands to disconnect `device` closed, in their order.
pub open spec fn closed_for(received: Seq<Received<Asked>>, device: Seq<char>) -> Seq<Handle>
    decreases received.len(),
{
    if received.len() == 0 {
        Seq::empty()
    } else {
        let before = run(received.drop_last());
        let earlier = closed_for(received.drop_last(), device);
        match command_at(received, received.len() - 1) {
            Some(ActorCommand::Disconnect { device: d }) if d == device && !before.stopped => {
                match disconnect_turn(before.sessions, d).1 {
                    Ok(handle) => earlier.push(handle),
                    Err(_) => earlier,
                }
            },
            _ => earlier,
        }
    }
}

/// The handles of `device` among the entries, in their order.
pub open spec fn handles_of(entries: Seq<(String, Handle)>, device: Seq<char>) -> Seq<Handle>
    decreases entries.len(),
{
    if entries.len() == 0 {
        Seq::empty()
    } else {
        let earlier = handles_of(entries.drop_last(), device);
        if entries.last().0@ == device {
            earlier.push(entries.last().1)
        } else {
            earlier
        }
    }
}

/// The same messages, with somebody waiting for every answer.
pub open spec fn all_heard(received: Seq<Received<Asked>>) -> Seq<Received<Asked>> {
    received.map_values(
        |r: Received<Asked>|
            match r {
                Received::Command(asked) => Received::Command(Asked { heard: true, ..asked }),
                other => other,
            },
    )
}

// ---------------------------------------------------------------------------
// Laws
// ---------------------------------------------------------------------------

proof fn lemma_is_not_stopped(received: Seq<Received<Asked>>)
    requires
        is_running(received),
    ensures
        !run(received).stopped,
    decreases received.len(),
{
    if received.len() > 0 {
        let front = received.drop_last();
        assert forall|i: int| !#[trigger] is_stop(front, i) by {
            assert(!is_stop(received, i));
        }
        lemma_is_not_stopped(front);
        assert(!is_stop(received, received.len() - 1));
    }
}

proof fn lemma_same_at(received: Seq<Received<Asked>>, i: int)
    requires
        0 <= i < received.len() - 1,
    ensures
        command_at(received.drop_last(), i) == command_at(received, i),
        answer_at(received.drop_last(), i) == answer_at(received, i),
{
    assert(received.drop_last().take(i) =~= received.take(i));
}

/// Every command is answered once, and the answers come in the order of the commands: the
/// command at `i` is answered in its turn, of the sessions that are open at that time.
pub proof fn every_command_is_answered_once_and_in_order(received: Seq<Received<Asked>>)
    requires
        is_running(received),
    ensures
        run(received).answers.len() == commands(received).len(),
        forall|i: int|
            (#[trigger] command_at(received, i)) is Some ==> {
                let turn = commands(received.take(i)).len() as int;
                &&& turn < commands(received).len()
                &&& commands(received)[turn] == command_at(received, i)->Some_0
                &&& run(received).answers[turn] == answer_at(received, i)
            },
    decreases received.len(),
{
    if received.len() > 0 {
        let front = received.drop_last();
        let last = received.len() - 1;
        assert forall|i: int| !#[trigger] is_stop(front, i) by {
            assert(!is_stop(received, i));
        }
        assert(!is_stop(received, last));
        every_command_is_answered_once_and_in_order(front);
        lemma_is_not_stopped(front);
        assert(received.take(last) =~= front);
        assert forall|i: int| (#[trigger] command_at(received, i)) is Some implies {
            let turn = commands(received.take(i)).len() as int;
            &&& turn < commands(received).len()
            &&& commands(received)[turn] == command_at(received, i)->Some_0
            &&& run(received).answers[turn] == answer_at(received, i)
        } by {
            if i < last {
                lemma_same_at(received, i);
                assert(command_at(front, i) is Some);
                assert(front.take(i) =~= received.take(i));
            }
        }
    }
}

/// Nothing behind a message that ends the loop is answered, and it changes no session.
pub proof fn nothing_is_answered_behind_a_stop(received: Seq<Received<Asked>>, k: int)
    requires
        is_stop(received, k),
    ensures
        run(received).stopped,
        run(received).answers == run(received.take(k)).answers,
        run(received).sessions == run(received.take(k)).sessions,
    decreases received.len(),
{
    let front = received.drop_last();
    if k < received.len() - 1 {
        assert(is_stop(front, k));
        nothing_is_answered_behind_a_stop(front, k);
        assert(front.take(k) =~= received.take(k));
    } else {
        assert(received.take(k) =~= front);
    }
}

/// A device has an open session exactly where it was connected with success and not
/// disconnected with success since.
pub proof fn sessions_are_those_left_connected(
    received: Seq<Received<Asked>>,
    device: Seq<char>,
)
    requires
        is_running(received),
    ensures
        run(received).sessions.dom().contains(device) <==> is_left_connected(received, device),
    decreases received.len(),
{
    if received.len() == 0 {
        assert forall|i: int| !#[trigger] connects(received, device, i) by {}
    } else {
        let front = received.drop_last();
        let last = received.len() - 1;
        assert forall|i: int| !#[trigger] is_stop(front, i) by {
            assert(!is_stop(received, i));
        }
        assert(!is_stop(received, last));
        lemma_is_not_stopped(front);
        sessions_are_those_left_connected(front, device);
        assert(received.take(last) =~= front);
        assert forall|i: int| i < last implies #[trigger] connects(received, device, i) == connects(
            front,
            device,
            i,
        ) by {
            if 0 <= i {
                lemma_same_at(received, i);
            }
        }
        assert forall|i: int| i < last implies #[trigger] disconnects(received, device, i)
            == disconnects(front, device, i) by {
            if 0 <= i {
                lemma_same_at(received, i);
            }
        }
        if connects(received, device, last) {
            assert forall|j: int| last < j implies !#[trigger] disconnects(received, device, j) by {
            }
            assert(is_left_connected(received, device));
            assert(run(received).sessions.dom().contains(device));
        } else if disconnects(received, device, last) {
            assert(!run(received).sessions.dom().contains(device));
            if is_left_connected(received, device) {
                let i = choose|i: int| #[trigger]
                    connects(received, device, i) && forall|j: int|
                        i < j ==> !#[trigger] disconnects(received, device, j);
                assert(i < last);
            }
        } else {
            assert(run(received).sessions.dom().contains(device) == run(
                front,
            ).sessions.dom().contains(device));
            if is_left_connected(front, device) {
                let i = choose|i: int| #[trigger]
                    connects(front, device, i) && forall|j: int|
                        i < j ==> !#[trigger] disconnects(front, device, j);
                assert(i < last);
                assert(connects(received, device, i));
                assert forall|j: int| i < j implies !#[trigger] disconnects(
                    received,
                    device,
                    j,
                ) by {
                    if j < last {
                        assert(!disconnects(front, device, j));
                    }
                }
            }
            if is_left_connected(received, device) {
                let i = choose|i: int| #[trigger]
                    connects(received, device, i) && forall|j: int|
                        i < j ==> !#[trigger] disconnects(received, device, j);
                assert(i < last);
                assert(connects(front, device, i));
                assert forall|j: int| i < j implies !#[trigger] disconnects(front, device, j) by {
                    if j < last {
                        assert(!disconnects(received, device, j));
                    }
                }
            }
        }
    }
}

/// Whoever asks whether a device is connected is told so exactly where it was connected with
/// success and not disconnected with success since.
pub proof fn connected_devices_are_told_apart(received: Seq<Received<Asked>>, i: int)
    requires
        is_running(received.take(i)),
        command_at(received, i) matches Some(ActorCommand::IsConnected { .. }),
    ensures
        answer_at(received, i) == ActorAnswer::Connected(
            is_left_connected(
                received.take(i),
                command_at(received, i)->Some_0->IsConnected_device,
            ),
        ),
{
    sessions_are_those_left_connected(
        received.take(i),
        command_at(received, i)->Some_0->IsConnected_device,
    );
}

proof fn lemma_handles(entries: Seq<(String, Handle)>, device: Seq<char>)
    requires
        sessions::distinct_devices(entries),
    ensures
        sessions::entry_map(entries).dom().contains(device) ==> handles_of(entries, device)
            == seq![sessions::entry_map(entries)[device]],
        !sessions::entry_map(entries).dom().contains(device) ==> handles_of(entries, device)
            == Seq::<Handle>::empty(),
    decreases entries.len(),
{
    if entries.len() == 0 {
        assert forall|i: int| !#[trigger] sessions::entry_is(entries, i, device) by {}
    } else {
        let front = entries.drop_last();
        let last = entries.len() - 1;
        assert forall|i: int, j: int| 0 <= i < j < front.len() implies #[trigger] front[i].0@
            != #[trigger] front[j].0@ by {
            assert(entries[i].0@ != entries[j].0@);
        }
        lemma_handles(front, device);
        assert forall|i: int| #[trigger] sessions::entry_is(front, i, device) implies
            sessions::entry_is(entries, i, device) by {}
        if entries[last].0@ == device {
            assert(sessions::entry_is(entries, last, device));
            assert forall|i: int| #[trigger] sessions::entry_is(entries, i, device) implies i
                == last by {
                if i < last {
                    assert(entries[i].0@ != entries[last].0@);
                }
            }
            if sessions::entry_map(front).dom().contains(device) {
                let i = choose|i: int| #[trigger] sessions::entry_is(front, i, device);
                assert(sessions::entry_is(entries, i, device));
            }
            assert(handles_of(entries, device) =~= seq![entries[last].1]);
        } else {
            if sessions::entry_map(entries).dom().contains(device) {
                let i = choose|i: int| #[trigger] sessions::entry_is(entries, i, device);
                assert(sessions::entry_is(front, i, device));
                let k = choose|k: int| #[trigger] sessions::entry_is(front, k, device);
                assert(sessions::entry_is(entries, k, device));
                if i < k {
                    assert(entries[i].0@ != entries[k].0@);
                }
                if k < i {
                    assert(entries[k].0@ != entries[i].0@);
                }
            }
        }
    }
}

proof fn lemma_opened_and_closed(received: Seq<Received<Asked>>, device: Seq<char>)
    ensures
        opened_for(received, device) == closed_for(received, device) + (if run(
            received,
        ).sessions.dom().contains(device) {
            seq![run(received).sessions[device]]
        } else {
            Seq::empty()
        }),
    decreases received.len(),
{
    if received.len() > 0 {
        let front = received.drop_last();
        lemma_opened_and_closed(front, device);
        assert(received.last() == received[received.len() - 1]);
        let rest = |r: Run|
            if r.sessions.dom().contains(device) {
                seq![r.sessions[device]]
            } else {
                Seq::<Handle>::empty()
            };
        assert(opened_for(received, device) =~= closed_for(received, device) + rest(run(received)));
    } else {
        assert(opened_for(received, device) =~= closed_for(received, device) + Seq::empty());
    }
}

/// Every session is closed once: what is closed for a device, by commands and when the thread
/// ends, is what was opened for it, in the same order. The thread ends with the sessions that
/// are still open, each device once.
pub proof fn every_session_is_closed_once(
    received: Seq<Received<Asked>>,
    open: Seq<(String, Handle)>,
    device: Seq<char>,
)
    requires
        sessions::distinct_devices(open),
        sessions::entry_map(open) == run(received).sessions,
    ensures
        opened_for(received, device) == closed_for(received, device) + handles_of(open, device),
{
    lemma_opened_and_closed(received, device);
    lemma_handles(open, device);
}

/// A caller that no longer waits for its answer changes nothing: neither what the others are
/// answered nor the sessions, and the loop goes on.
pub proof fn unheard_answers_change_nothing(received: Seq<Received<Asked>>)
    ensures
        run(received) == run(all_heard(received)),
    decreases received.len(),
{
    if received.len() > 0 {
        unheard_answers_change_nothing(received.drop_last());
        assert(all_heard(received).drop_last() =~= all_heard(received.drop_last()));
        assert(all_heard(received).last() == all_heard(received)[received.len() - 1]);
    }
}

/// A thread serves every command, goes back to waiting when nothing came, and stops when it is
/// told to and when nobody is left.
pub proof fn a_thread_stops_only_when_told_or_alone<C>(command: C)
    ensures
        loop_step(Received::Command(command)) == LoopStep::Serve(command),
        loop_step(Received::<C>::Timeout) == LoopStep::<C>::Wait,
        loop_step(Received::<C>::Shutdown) == LoopStep::<C>::Stop,
        loop_step(Received::<C>::Disconnected) == LoopStep::<C>::Stop,
{
}

/// A device without a session is connected exactly where a session can be opened, and its error is
/// answered otherwise; a connected device stays as it is. Disconnecting hands out the handle of an
/// open session and closes that session alone; a device without one is not found.
pub proof fn connecting_and_disconnecting_touch_one_device(
    sessions: Map<Seq<char>, Handle>,
    device: Seq<char>,
    opened: Result<Handle, CameraErrorView>,
    other: Seq<char>,
)
    ensures
        ({
            let (after, r) = connect_turn(sessions, device, opened);
            let open = sessions.dom().contains(device);
            &&& open ==> r is Ok && after == sessions
            &&& !open ==> match opened {
                Ok(handle) => {
                    &&& r is Ok
                    &&& after.dom().contains(device)
                    &&& after[device] == handle
                },
                Err(e) => r == Err::<(), CameraErrorView>(e) && after == sessions,
            }
            &&& other != device ==> after.dom().contains(other) == sessions.dom().contains(other)
            &&& other != device && sessions.dom().contains(other) ==> after[other]
                == sessions[other]
        }),
        ({
            let (after, r) = disconnect_turn(sessions, device);
            let open = sessions.dom().contains(device);
            &&& !after.dom().contains(device)
            &&& open ==> r == Ok::<Handle, CameraErrorView>(sessions[device])
            &&& !open ==> r == Err::<Handle, CameraErrorView>(
                CameraErrorView::DeviceNotFound(device),
            ) && after == sessions
            &&& other != device ==> after.dom().contains(other) == sessions.dom().contains(other)
            &&& other != device && sessions.dom().contains(other) ==> after[other]
                == sessions[other]
        }),
{
}

}
