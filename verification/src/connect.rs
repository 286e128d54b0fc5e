//! From adapter to connection: what a controller task does, and in which order.
//!
//! The steps themselves are radio and socket work that the program carries out.
//! Here is what comes next after each.
use vstd::prelude::*;

verus! {

/// L2CAP channel for HID control. It must be bound and accepted, but carries no
/// traffic in practice.
pub const PSM_CTRL: u16 = 17;

/// L2CAP channel for HID interrupt, on which everything is sent.
pub const PSM_ITRP: u16 = 19;

/// A step on the way to a connection.
#[derive(Clone, Copy, Debug, PartialEq, Eq, Structural)]
pub enum ConnectStep {
    /// Forget old pairings, so that the stack takes the console for a new device.
    ClearPairing,
    /// Wait for the one permit to be visible for pairing.
    AcquirePermit,
    /// Become discoverable.
    SetDiscoverable,
    /// Announce a gamepad. The stack resets the class when discoverability
    /// changes, so this comes behind it.
    SetDeviceClass,
    /// Wait for the console on the interrupt channel.
    AcceptInterrupt,
    /// Wait for it on the control channel.
    AcceptControl,
    /// Serve the connection.
    Serve,
}

/// The steps of an attempt to connect. Only the first pairing waits for the
/// permit: after it the console knows the adapter and comes back by itself.
pub open spec fn connect_plan(ever_paired: bool) -> Seq<ConnectStep> {
    let announce = seq![
        ConnectStep::SetDiscoverable,
        ConnectStep::SetDeviceClass,
        ConnectStep::AcceptInterrupt,
        ConnectStep::AcceptControl,
        ConnectStep::Serve,
    ];
    if ever_paired {
        seq![ConnectStep::ClearPairing] + announce
    } else {
        seq![ConnectStep::ClearPairing, ConnectStep::AcquirePermit] + announce
    }
}

/// What follows a step that went well.
pub open spec fn step_after(step: ConnectStep, ever_paired: bool) -> Option<ConnectStep> {
    match step {
        ConnectStep::ClearPairing => Some(
            if ever_paired {
                ConnectStep::SetDiscoverable
            } else {
                ConnectStep::AcquirePermit
            },
        ),
        ConnectStep::AcquirePermit => Some(ConnectStep::SetDiscoverable),
        ConnectStep::SetDiscoverable => Some(ConnectStep::SetDeviceClass),
        ConnectStep::SetDeviceClass => Some(ConnectStep::AcceptInterrupt),
        ConnectStep::AcceptInterrupt => Some(ConnectStep::AcceptControl),
        ConnectStep::AcceptControl => Some(ConnectStep::Serve),
        ConnectStep::Serve => None,
    }
}

/// What an adapter remembers from one connection to the next.
pub struct Link {
    ever_paired: bool,
}

impl Link {
    /// The console has connected before.
    pub closed spec fn paired(&self) -> bool {
        self.ever_paired
    }

    /// An adapter that the console has not met.
    pub fn new() -> (link: Link)
        ensures
            !link.paired(),
    {
        Link { ever_paired: false }
    }

    /// The step that every attempt starts with.
    pub fn first_step(&self) -> (step: ConnectStep)
        ensures
            step == connect_plan(self.paired())[0],
    {
        ConnectStep::ClearPairing
    }

    /// Takes note that a step went well, and says what comes next; nothing
    /// behind the last step.
    pub fn next_step(&mut self, step: ConnectStep) -> (next: Option<ConnectStep>)
        ensures
            next == step_after(step, old(self).paired()),
            final(self).paired() == (old(self).paired() || step == ConnectStep::AcceptInterrupt),
    {
        match step {
            ConnectStep::ClearPairing => {
                if self.ever_paired {
                    Some(ConnectStep::SetDiscoverable)
                } else {
                    Some(ConnectStep::AcquirePermit)
                }
            },
            ConnectStep::AcquirePermit => Some(ConnectStep::SetDiscoverable),
            ConnectStep::SetDiscoverable => Some(ConnectStep::SetDeviceClass),
            ConnectStep::SetDeviceClass => Some(ConnectStep::AcceptInterrupt),
            ConnectStep::AcceptInterrupt => {
                self.ever_paired = true;
                Some(ConnectStep::AcceptControl)
            },
            ConnectStep::AcceptControl => Some(ConnectStep::Serve),
            ConnectStep::Serve => None,
        }
    }
}

/// The steps of one attempt as far as it got, and what the adapter remembered
/// before each.
pub open spec fn is_attempt(run: Seq<ConnectStep>, paired: Seq<bool>) -> bool {
    &&& run.len() > 0
    &&& paired.len() == run.len()
    &&& run[0] == ConnectStep::ClearPairing
    &&& forall|i: int|
        0 <= i < run.len() - 1 ==> step_after(#[trigger] run[i], paired[i]) == Some(run[i + 1])
            && paired[i + 1] == (paired[i] || run[i] == ConnectStep::AcceptInterrupt)
}

/// An attempt goes through the plan from the start, and stops where a step
/// fails.
pub proof fn law_attempt_follows_plan(run: Seq<ConnectStep>, paired: Seq<bool>)
    requires
        is_attempt(run, paired),
    ensures
        run.len() <= connect_plan(paired[0]).len(),
        run == connect_plan(paired[0]).take(run.len() as int),
    decreases run.len(),
{
    let plan = connect_plan(paired[0]);
    if run.len() == 1 {
        assert(run =~= plan.take(1));
    } else {
        let init = run.drop_last();
        assert forall|i: int| 0 <= i < init.len() - 1 implies step_after(
            #[trigger] init[i],
            paired.drop_last()[i],
        ) == Some(init[i + 1]) && paired.drop_last()[i + 1] == (paired.drop_last()[i] || init[i]
            == ConnectStep::AcceptInterrupt) by {
            assert(step_after(run[i], paired[i]) == Some(run[i + 1]));
        }
        law_attempt_follows_plan(init, paired.drop_last());
        let k = run.len() - 2;
        assert(step_after(run[k], paired[k]) == Some(run[k + 1]));
        assert(run[k] == init[k]);
        assert(init[k] == plan[k]);
        assert(run =~= plan.take(run.len() as int));
    }
}

/// The device class is announced right behind the change of discoverability
/// that would reset it, and the console is let in only after both.
pub proof fn law_class_set_after_discoverable(run: Seq<ConnectStep>, paired: Seq<bool>, i: int)
    requires
        is_attempt(run, paired),
        0 <= i < run.len(),
    ensures
        run[i] == ConnectStep::SetDeviceClass ==> i > 0 && run[i - 1]
            == ConnectStep::SetDiscoverable,
        run[i] == ConnectStep::AcceptInterrupt ==> i > 0 && run[i - 1]
            == ConnectStep::SetDeviceClass,
{
    law_attempt_follows_plan(run, paired);
    let plan = connect_plan(paired[0]);
    assert(run[i] == plan[i]);
    if i > 0 {
        assert(run[i - 1] == plan[i - 1]);
    }
}

/// An adapter that the console has not met becomes discoverable only with the
/// permit in hand, so that no two are visible at once; one that it has met
/// never waits for the permit.
pub proof fn law_permit_guards_first_pairing(run: Seq<ConnectStep>, paired: Seq<bool>, i: int)
    requires
        is_attempt(run, paired),
        0 <= i < run.len(),
    ensures
        !paired[0] && run[i] == ConnectStep::SetDiscoverable ==> i > 0 && run[i - 1]
            == ConnectStep::AcquirePermit,
        paired[0] ==> run[i] != ConnectStep::AcquirePermit,
{
    law_attempt_follows_plan(run, paired);
    let plan = connect_plan(paired[0]);
    assert(run[i] == plan[i]);
    if i > 0 {
        assert(run[i - 1] == plan[i - 1]);
    }
}

/// A step in the life of a controller task.
#[derive(Clone, Copy, Debug, PartialEq, Eq, Structural)]
pub enum TaskStep {
    SetUpAdapter,
    ReadAddress,
    /// Start to read the drum in the background.
    StartReader,
    /// Bind the channels once, for all connections of the task.
    BindControl,
    BindInterrupt,
    /// See whether the drum is still there.
    CheckDrum,
    /// Connect and serve until the connection ends.
    Connect,
    Finished,
}

/// How a step turned out.
#[derive(Clone, Copy, Debug, PartialEq, Eq, Structural)]
pub enum TaskEvent {
    Done,
    /// The step failed; of CheckDrum, that the drum is gone.
    Failed,
    /// The user asked the program to stop.
    Interrupted,
}

/// What follows a step of a controller task. Trouble before the first
/// connection ends the task; trouble with a connection leads to the next one,
/// as long as the drum is there.
pub open spec fn task_after(step: TaskStep, event: TaskEvent) -> TaskStep {
    match step {
        TaskStep::Connect => if event is Interrupted {
            TaskStep::Finished
        } else {
            TaskStep::CheckDrum
        },
        _ => if !(event is Done) {
            TaskStep::Finished
        } else {
            match step {
                TaskStep::SetUpAdapter => TaskStep::ReadAddress,
                TaskStep::ReadAddress => TaskStep::StartReader,
                TaskStep::StartReader => TaskStep::BindControl,
                TaskStep::BindControl => TaskStep::BindInterrupt,
                TaskStep::BindInterrupt => TaskStep::CheckDrum,
                TaskStep::CheckDrum => TaskStep::Connect,
                _ => TaskStep::Finished,
            }
        },
    }
}

/// What follows a step of a controller task.
pub fn next_task_step(step: TaskStep, event: TaskEvent) -> (next: TaskStep)
    ensures
        next == task_after(step, event),
{
    match (step, event) {
        (TaskStep::Connect, TaskEvent::Interrupted) => TaskStep::Finished,
        (TaskStep::Connect, _) => TaskStep::CheckDrum,
        (TaskStep::SetUpAdapter, TaskEvent::Done) => TaskStep::ReadAddress,
        (TaskStep::ReadAddress, TaskEvent::Done) => TaskStep::StartReader,
        (TaskStep::StartReader, TaskEvent::Done) => TaskStep::BindControl,
        (TaskStep::BindControl, TaskEvent::Done) => TaskStep::BindInterrupt,
        (TaskStep::BindInterrupt, TaskEvent::Done) => TaskStep::CheckDrum,
        (TaskStep::CheckDrum, TaskEvent::Done) => TaskStep::Connect,
        _ => TaskStep::Finished,
    }
}

/// Once a task has had its first connection, it ends only because the drum is
/// gone or the user asked; a connection that fails is followed by another, and
/// never without a look at the drum in between.
pub proof fn law_connections_retried(step: TaskStep, event: TaskEvent)
    ensures
        task_after(TaskStep::Connect, TaskEvent::Failed) == TaskStep::CheckDrum,
        task_after(TaskStep::Connect, event) == TaskStep::Finished <==> event is Interrupted,
        task_after(TaskStep::CheckDrum, TaskEvent::Failed) == TaskStep::Finished,
        task_after(step, event) == TaskStep::Connect ==> step == TaskStep::CheckDrum && event
            is Done,
{
}

/// The steps to a connection, for an adapter that the console has met and for
/// one that it has not.
pub proof fn law_plan_in_full(ever_paired: bool)
    ensures
        connect_plan(ever_paired) == if ever_paired {
            seq![
                ConnectStep::ClearPairing,
                ConnectStep::SetDiscoverable,
                ConnectStep::SetDeviceClass,
                ConnectStep::AcceptInterrupt,
                ConnectStep::AcceptControl,
                ConnectStep::Serve,
            ]
        } else {
            seq![
                ConnectStep::ClearPairing,
                ConnectStep::AcquirePermit,
                ConnectStep::SetDiscoverable,
                ConnectStep::SetDeviceClass,
                ConnectStep::AcceptInterrupt,
                ConnectStep::AcceptControl,
                ConnectStep::Serve,
            ]
        },
{
}

/// Each step leads to the next one of the plan, and the last to nothing. Where
/// the console turns up on the interrupt channel for the first time, the attempt
/// goes on as it was planned.
pub proof fn law_steps_lead_through_the_plan(i: int, ever_paired: bool)
    requires
        0 <= i < connect_plan(ever_paired).len(),
    ensures
        i + 1 < connect_plan(ever_paired).len() ==> step_after(
            connect_plan(ever_paired)[i],
            ever_paired,
        ) == Some(connect_plan(ever_paired)[i + 1]),
        i + 1 == connect_plan(ever_paired).len() ==> step_after(
            connect_plan(ever_paired)[i],
            ever_paired,
        ) is None,
        connect_plan(ever_paired)[i] != ConnectStep::ClearPairing ==> step_after(
            connect_plan(ever_paired)[i],
            true,
        ) == step_after(connect_plan(ever_paired)[i], false),
{
}

/// A connection is served only when both channels are open, the interrupt
/// channel first.
pub proof fn law_served_on_both_channels(run: Seq<ConnectStep>, paired: Seq<bool>, i: int)
    requires
        is_attempt(run, paired),
        0 <= i < run.len(),
        run[i] == ConnectStep::Serve,
    ensures
        i >= 2,
        run[i - 1] == ConnectStep::AcceptControl,
        run[i - 2] == ConnectStep::AcceptInterrupt,
        i == run.len() - 1,
{
    law_attempt_follows_plan(run, paired);
    let plan = connect_plan(paired[0]);
    assert(run[i] == plan[i]);
    assert(run[i - 1] == plan[i - 1]);
    assert(run[i - 2] == plan[i - 2]);
}

/// The life of a controller task: it is set up step by step and ends if a step
/// fails; from then on it goes back and forth between looking at the drum and
/// serving a connection, until the drum is gone or the user asks to stop.
pub proof fn law_life_of_a_task(step: TaskStep, event: TaskEvent)
    ensures
        task_after(TaskStep::SetUpAdapter, TaskEvent::Done) == TaskStep::ReadAddress,
        task_after(TaskStep::ReadAddress, TaskEvent::Done) == TaskStep::StartReader,
        task_after(TaskStep::StartReader, TaskEvent::Done) == TaskStep::BindControl,
        task_after(TaskStep::BindControl, TaskEvent::Done) == TaskStep::BindInterrupt,
        task_after(TaskStep::BindInterrupt, TaskEvent::Done) == TaskStep::CheckDrum,
        task_after(TaskStep::CheckDrum, TaskEvent::Done) == TaskStep::Connect,
        task_after(TaskStep::Connect, TaskEvent::Done) == TaskStep::CheckDrum,
        task_after(TaskStep::Connect, TaskEvent::Failed) == TaskStep::CheckDrum,
        task_after(TaskStep::Connect, TaskEvent::Interrupted) == TaskStep::Finished,
        step != TaskStep::Connect && event != TaskEvent::Done ==> task_after(step, event)
            == TaskStep::Finished,
        task_after(TaskStep::Finished, event) == TaskStep::Finished,
{
}

/// The channels are those that the HID profile sets down: control is 0x11,
/// interrupt is 0x13.
pub proof fn law_hid_channels()
    ensures
        PSM_CTRL == 0x11,
        PSM_ITRP == 0x13,
{
}

} // verus!
