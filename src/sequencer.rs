//! The sequencer: matches each event against the reaction sequences,
//! resolves their steps against the device registry, and hands out the
//! steps one at a time, in order, until the run is cancelled.

use vstd::prelude::*;
use crate::device::{Device, DeviceModel, DeviceRegistry};
use crate::sequence::{ItemModel, ReactionSequence, ReactionSequenceItemSequence, SequenceModel};
use crate::trigger::{EventModel, QueueEvent};

verus! {

/// Whether sequence `m` is bound to the event `e`.
pub open spec fn triggered(m: SequenceModel, e: EventModel) -> bool {
    m.trigger.trigger_id == e.source && m.trigger.trigger_event_id == e.event
}

/// Why a step was skipped.
#[derive(Debug, Clone, Copy, PartialEq, Eq, Structural)]
pub enum SkipReason {
    /// No device is registered under the step's device id.
    UnknownDevice,
    /// The device exposes no action with the step's action id.
    UnknownAction,
}

/// One step of a matched sequence, resolved against the registry: the
/// item at `item` of the sequence at `sequence`.
#[derive(Debug, PartialEq)]
pub enum Step {
    /// Invoke the action with the item's arguments, and wait for it.
    Invoke { sequence: usize, item: usize, device_id: String, action_id: String },
    /// Log the item and go on with the next one.
    Skip { sequence: usize, item: usize, reason: SkipReason },
}

pub enum StepModel {
    Invoke { sequence: int, item: int, device_id: Seq<char>, action_id: Seq<char> },
    Skip { sequence: int, item: int, reason: SkipReason },
}

impl StepModel {
    pub open spec fn sequence(self) -> int {
        match self {
            StepModel::Invoke { sequence, .. } => sequence,
            StepModel::Skip { sequence, .. } => sequence,
        }
    }

    pub open spec fn item(self) -> int {
        match self {
            StepModel::Invoke { item, .. } => item,
            StepModel::Skip { item, .. } => item,
        }
    }
}

impl View for Step {
    type V = StepModel;

    open spec fn view(&self) -> StepModel {
        match self {
            Step::Invoke { sequence, item, device_id, action_id } => StepModel::Invoke {
                sequence: *sequence as int,
                item: *item as int,
                device_id: device_id@,
                action_id: action_id@,
            },
            Step::Skip { sequence, item, reason } => StepModel::Skip {
                sequence: *sequence as int,
                item: *item as int,
                reason: *reason,
            },
        }
    }
}

impl Step {
    /// A copy of the step.
    pub fn duplicate(&self) -> (r: Step)
        ensures
            r@ == self@,
    {
        match self {
            Step::Invoke { sequence, item, device_id, action_id } => Step::Invoke {
                sequence: *sequence,
                item: *item,
                device_id: device_id.clone(),
                action_id: action_id.clone(),
            },
            Step::Skip { sequence, item, reason } => Step::Skip {
                sequence: *sequence,
                item: *item,
                reason: *reason,
            },
        }
    }
}

/// How item `j` of sequence `si` resolves against the registry: its device
/// is looked up first, then the action on that device.
pub open spec fn step_for(reg: DeviceRegistry, si: int, j: int, item: ItemModel) -> StepModel {
    match reg.lookup(item.device_id) {
        None => StepModel::Skip { sequence: si, item: j, reason: SkipReason::UnknownDevice },
        Some(d) => if d.actions.contains(item.device_action_id) {
            StepModel::Invoke {
                sequence: si,
                item: j,
                device_id: item.device_id,
                action_id: item.device_action_id,
            }
        } else {
            StepModel::Skip { sequence: si, item: j, reason: SkipReason::UnknownAction }
        },
    }
}

/// The steps of sequence `si`, one for each item, in the items' order.
pub open spec fn steps_for(reg: DeviceRegistry, si: int, m: SequenceModel) -> Seq<StepModel> {
    Seq::new(m.items.len(), |j: int| step_for(reg, si, j, m.items[j]))
}

/// The steps of the first `n` sequences that `e` triggers, sequence after
/// sequence.
pub open spec fn plan_upto(reg: DeviceRegistry, seqs: Seq<SequenceModel>, e: EventModel, n: int) -> Seq<StepModel>
    decreases n,
{
    if n <= 0 {
        Seq::empty()
    } else {
        plan_upto(reg, seqs, e, n - 1) + if triggered(seqs[n - 1], e) {
            steps_for(reg, n - 1, seqs[n - 1])
        } else {
            Seq::empty()
        }
    }
}

/// The match pass for event `e`: the steps of every sequence bound to it.
pub open spec fn plan_for(reg: DeviceRegistry, seqs: Seq<SequenceModel>, e: EventModel) -> Seq<StepModel> {
    plan_upto(reg, seqs, e, seqs.len() as int)
}

pub open spec fn models(seqs: Seq<ReactionSequence>) -> Seq<SequenceModel> {
    seqs.map_values(|s: ReactionSequence| s@)
}

fn has_action(d: &Device, action_id: &String) -> (r: bool)
    ensures
        r == d@.actions.contains(action_id@),
{
    let mut i: usize = 0;
    while i < d.actions.len()
        invariant
            i <= d.actions@.len(),
            forall|p: int| 0 <= p < i ==> d.actions@[p]@ != action_id@,
        decreases d.actions@.len() - i,
    {
        if d.actions[i] == *action_id {
            assert(d@.actions[i as int] == action_id@);
            return true;
        }
        i = i + 1;
    }
    proof {
        if d@.actions.contains(action_id@) {
            let p = choose|p: int| 0 <= p < d@.actions.len() && d@.actions[p] == action_id@;
            assert(d.actions@[p]@ == action_id@);
        }
    }
    false
}

fn resolve(reg: &DeviceRegistry, si: usize, j: usize, item: &ReactionSequenceItemSequence) -> (r: Step)
    ensures
        r@ == step_for(*reg, si as int, j as int, item@),
{
    match reg.get_device_by_id(&item.device_id) {
        None => Step::Skip { sequence: si, item: j, reason: SkipReason::UnknownDevice },
        Some(d) => {
            if has_action(d, &item.device_action_id) {
                Step::Invoke {
                    sequence: si,
                    item: j,
                    device_id: item.device_id.clone(),
                    action_id: item.device_action_id.clone(),
                }
            } else {
                Step::Skip { sequence: si, item: j, reason: SkipReason::UnknownAction }
            }
        },
    }
}

impl ReactionSequence {
    /// Whether this sequence is bound to the event.
    pub fn is_triggered_by_event(&self, event: &QueueEvent) -> (r: bool)
        ensures
            r == triggered(self@, event@),
    {
        self.trigger.trigger_id == event.trigger_source_id
            && self.trigger.trigger_event_id == event.trigger_event_id
    }

    /// The steps of this sequence, standing at `si`, one for each of its
    /// items, in order.
    pub fn play(&self, reg: &DeviceRegistry, si: usize) -> (r: Vec<Step>)
        ensures
            r@.map_values(|s: Step| s@) == steps_for(*reg, si as int, self@),
    {
        let mut r: Vec<Step> = Vec::new();
        let mut j: usize = 0;
        while j < self.sequence.len()
            invariant
                j <= self.sequence@.len(),
                r@.len() == j,
                forall|k: int| 0 <= k < j ==> (#[trigger] r@[k])@ == step_for(*reg, si as int, k, self.sequence@[k]@),
            decreases self.sequence@.len() - j,
        {
            r.push(resolve(reg, si, j, &self.sequence[j]));
            j = j + 1;
        }
        assert(r@.map_values(|s: Step| s@) =~= steps_for(*reg, si as int, self@));
        r
    }
}

/// The match pass for an event: the steps of every sequence bound to it,
/// the sequences in their order and each one's steps in its items' order.
pub fn plan_for_event(reg: &DeviceRegistry, seqs: &Vec<ReactionSequence>, event: &QueueEvent) -> (r: Vec<Step>)
    ensures
        r@.map_values(|s: Step| s@) == plan_for(*reg, models(seqs@), event@),
{
    let ghost ms = models(seqs@);
    let mut r: Vec<Step> = Vec::new();
    let mut i: usize = 0;
    while i < seqs.len()
        invariant
            i <= seqs@.len(),
            ms == models(seqs@),
            r@.map_values(|s: Step| s@) == plan_upto(*reg, ms, event@, i as int),
        decreases seqs@.len() - i,
    {
        let ghost before = r@;
        assert(ms[i as int] == seqs@[i as int]@);
        if seqs[i].is_triggered_by_event(event) {
            let mut steps = seqs[i].play(reg, i);
            let ghost added = steps@;
            r.append(&mut steps);
            assert(r@.map_values(|s: Step| s@) =~= before.map_values(|s: Step| s@) + added.map_values(
                |s: Step| s@,
            ));
        } else {
            assert(plan_upto(*reg, ms, event@, i + 1) =~= plan_upto(*reg, ms, event@, i as int));
        }
        i = i + 1;
    }
    r
}

/// Where the sequencer is: waiting for an event, handing out the steps of a
/// match pass, or stopped for good after cancellation.
#[derive(Debug, Clone, Copy, PartialEq, Eq, Structural)]
pub enum Phase {
    Idle,
    Processing,
    Stopped,
}

/// What the sequencer is told.
#[derive(Debug, PartialEq)]
pub enum Input {
    /// The dispatcher published a new event.
    Event(QueueEvent),
    /// The step last handed out has completed.
    StepFinished,
    /// The run's cancellation signal fired.
    Cancelled,
}

pub enum InputModel {
    Event(EventModel),
    StepFinished,
    Cancelled,
}

impl View for Input {
    type V = InputModel;

    open spec fn view(&self) -> InputModel {
        match self {
            Input::Event(e) => InputModel::Event(e@),
            Input::StepFinished => InputModel::StepFinished,
            Input::Cancelled => InputModel::Cancelled,
        }
    }
}

/// What the sequencer asks its runner to do next.
#[derive(Debug, PartialEq)]
pub enum Command {
    /// Carry out this step and report when it has completed.
    Run(Step),
    /// Wait for the next event, racing it against cancellation.
    AwaitEvent,
    /// Let the step in flight complete.
    AwaitStep,
    /// The sequencer has stopped; no more steps will come.
    Stop,
}

pub enum CommandModel {
    Run(StepModel),
    AwaitEvent,
    AwaitStep,
    Stop,
}

impl View for Command {
    type V = CommandModel;

    open spec fn view(&self) -> CommandModel {
        match self {
            Command::Run(s) => CommandModel::Run(s@),
            Command::AwaitEvent => CommandModel::AwaitEvent,
            Command::AwaitStep => CommandModel::AwaitStep,
            Command::Stop => CommandModel::Stop,
        }
    }
}

pub struct SequencerModel {
    pub devices: DeviceRegistry,
    pub sequences: Seq<SequenceModel>,
    pub phase: Phase,
    /// The event of the current or last match pass.
    pub current: Option<EventModel>,
    /// The steps of that pass.
    pub plan: Seq<StepModel>,
    /// The step in flight, while processing.
    pub next: int,
    /// The latest event published while processing; it replaces any earlier one.
    pub latest: Option<EventModel>,
    pub stop_requested: bool,
}

/// The matcher and executor of one run, over a snapshot of the registry
/// and of the sequences.
pub struct Sequencer {
    devices: DeviceRegistry,
    sequences: Vec<ReactionSequence>,
    phase: Phase,
    current: Option<QueueEvent>,
    plan: Vec<Step>,
    next: usize,
    latest: Option<QueueEvent>,
    stop_requested: bool,
}

pub open spec fn event_view(e: Option<QueueEvent>) -> Option<EventModel> {
    match e {
        Some(x) => Some(x@),
        None => None,
    }
}

impl View for Sequencer {
    type V = SequencerModel;

    closed spec fn view(&self) -> SequencerModel {
        SequencerModel {
            devices: self.devices,
            sequences: models(self.sequences@),
            phase: self.phase,
            current: event_view(self.current),
            plan: self.plan@.map_values(|s: Step| s@),
            next: self.next as int,
            latest: event_view(self.latest),
            stop_requested: self.stop_requested,
        }
    }
}

/// The states the sequencer can be in: the plan is the pass of the current
/// event, and while processing one of its steps is in flight.
pub open spec fn wf(m: SequencerModel) -> bool {
    &&& 0 <= m.next <= m.plan.len()
    &&& m.current matches Some(e) ==> m.plan == plan_for(m.devices, m.sequences, e)
    &&& m.current is None ==> m.plan.len() == 0
    &&& m.phase == Phase::Processing ==> m.next < m.plan.len() && m.current is Some
}

/// A new match pass for `e`: its first step is handed out at once.
pub open spec fn start_pass(m: SequencerModel, e: EventModel) -> (SequencerModel, CommandModel) {
    let plan = plan_for(m.devices, m.sequences, e);
    if plan.len() == 0 {
        (SequencerModel { phase: Phase::Idle, current: Some(e), plan, next: 0, latest: None, ..m }, CommandModel::AwaitEvent)
    } else {
        (
            SequencerModel { phase: Phase::Processing, current: Some(e), plan, next: 0, latest: None, ..m },
            CommandModel::Run(plan[0]),
        )
    }
}

/// The sequencer's transitions.
pub open spec fn transition(m: SequencerModel, input: InputModel) -> (SequencerModel, CommandModel) {
    match m.phase {
        Phase::Stopped => (m, CommandModel::Stop),
        Phase::Idle => match input {
            InputModel::Event(e) => start_pass(m, e),
            InputModel::StepFinished => (m, CommandModel::AwaitEvent),
            InputModel::Cancelled => (SequencerModel { phase: Phase::Stopped, ..m }, CommandModel::Stop),
        },
        Phase::Processing => match input {
            InputModel::Event(e) => (SequencerModel { latest: Some(e), ..m }, CommandModel::AwaitStep),
            InputModel::Cancelled => (SequencerModel { stop_requested: true, ..m }, CommandModel::AwaitStep),
            InputModel::StepFinished => {
                if m.stop_requested {
                    (SequencerModel { phase: Phase::Stopped, next: m.next + 1, ..m }, CommandModel::Stop)
                } else if m.next + 1 < m.plan.len() {
                    (SequencerModel { next: m.next + 1, ..m }, CommandModel::Run(m.plan[m.next + 1]))
                } else if m.latest is Some {
                    start_pass(m, m.latest->Some_0)
                } else {
                    (SequencerModel { phase: Phase::Idle, next: m.next + 1, ..m }, CommandModel::AwaitEvent)
                }
            },
        },
    }
}

impl Sequencer {
    /// An idle sequencer over the run's registry and sequences.
    pub fn new(devices: DeviceRegistry, sequences: Vec<ReactionSequence>) -> (r: Sequencer)
        ensures
            wf(r@),
            r@.phase == Phase::Idle,
            r@.devices == devices,
            r@.sequences == models(sequences@),
            r@.current is None,
            r@.latest is None,
            !r@.stop_requested,
    {
        let r = Sequencer {
            devices,
            sequences,
            phase: Phase::Idle,
            current: None,
            plan: Vec::new(),
            next: 0,
            latest: None,
            stop_requested: false,
        };
        assert(r@.plan =~= Seq::<StepModel>::empty());
        r
    }

    /// The item at `item` of the sequence at `sequence`, whose arguments a
    /// step hands to its action.
    pub fn item(&self, sequence: usize, item: usize) -> (r: Option<&ReactionSequenceItemSequence>)
        ensures
            r matches Some(x) ==> sequence < self@.sequences.len() && item < self@.sequences[sequence as int].items.len()
                && x@ == self@.sequences[sequence as int].items[item as int],
            r is None <==> !(sequence < self@.sequences.len() && item < self@.sequences[sequence as int].items.len()),
    {
        if sequence < self.sequences.len() && item < self.sequences[sequence].sequence.len() {
            Some(&self.sequences[sequence].sequence[item])
        } else {
            None
        }
    }

    pub fn phase(&self) -> (r: Phase)
        ensures
            r == self@.phase,
    {
        self.phase
    }

    fn start_pass(&mut self, e: QueueEvent) -> (r: Command)
        requires
            wf(old(self)@),
        ensures
            (final(self)@, r@) == start_pass(old(self)@, e@),
    {
        let plan = plan_for_event(&self.devices, &self.sequences, &e);
        self.plan = plan;
        self.current = Some(e);
        self.next = 0;
        self.latest = None;
        if self.plan.len() == 0 {
            self.phase = Phase::Idle;
            Command::AwaitEvent
        } else {
            self.phase = Phase::Processing;
            Command::Run(self.plan[0].duplicate())
        }
    }

    /// Takes one input and says what to do next.
    pub fn handle(&mut self, input: Input) -> (r: Command)
        requires
            wf(old(self)@),
        ensures
            wf(final(self)@),
            (final(self)@, r@) == transition(old(self)@, input@),
    {
        match self.phase {
            Phase::Stopped => Command::Stop,
            Phase::Idle => match input {
                Input::Event(e) => self.start_pass(e),
                Input::StepFinished => Command::AwaitEvent,
                Input::Cancelled => {
                    self.phase = Phase::Stopped;
                    Command::Stop
                },
            },
            Phase::Processing => match input {
                Input::Event(e) => {
                    assert(self@.phase == Phase::Processing);
                    self.latest = Some(e);
                    Command::AwaitStep
                },
                Input::Cancelled => {
                    self.stop_requested = true;
                    Command::AwaitStep
                },
                Input::StepFinished => {
                    assert(self@.phase == Phase::Processing);
                    assert(self.plan@.len() == self@.plan.len());
                    let n = self.plan.len();
                    assert(self.next < n);
                    if self.stop_requested {
                        self.phase = Phase::Stopped;
                        self.next = self.next + 1;
                        Command::Stop
                    } else if self.next + 1 < n {
                        self.next = self.next + 1;
                        Command::Run(self.plan[self.next].duplicate())
                    } else {
                        match self.latest.take() {
                            Some(e) => self.start_pass(e),
                            None => {
                                self.phase = Phase::Idle;
                                self.next = self.next + 1;
                                Command::AwaitEvent
                            },
                        }
                    }
                },
            },
        }
    }
}

proof fn lemma_plan_upto_bound(reg: DeviceRegistry, seqs: Seq<SequenceModel>, e: EventModel, n: int)
    requires
        0 <= n <= seqs.len(),
    ensures
        forall|p: int| 0 <= p < plan_upto(reg, seqs, e, n).len() ==> {
            let s = #[trigger] plan_upto(reg, seqs, e, n)[p];
            0 <= s.sequence() < n && triggered(seqs[s.sequence()], e)
        },
        forall|p: int, q: int|
            0 <= p < q < plan_upto(reg, seqs, e, n).len() && (#[trigger] plan_upto(reg, seqs, e, n)[p]).sequence()
                == (#[trigger] plan_upto(reg, seqs, e, n)[q]).sequence() ==> plan_upto(reg, seqs, e, n)[p].item()
                < plan_upto(reg, seqs, e, n)[q].item(),
    decreases n,
{
    if n > 0 {
        lemma_plan_upto_bound(reg, seqs, e, n - 1);
        let a = plan_upto(reg, seqs, e, n - 1);
        let b = if triggered(seqs[n - 1], e) {
            steps_for(reg, n - 1, seqs[n - 1])
        } else {
            Seq::empty()
        };
        let c = plan_upto(reg, seqs, e, n);
        assert(c == a + b);
        assert forall|p: int| 0 <= p < c.len() implies {
            let s = #[trigger] c[p];
            0 <= s.sequence() < n && triggered(seqs[s.sequence()], e)
        } by {
            if p < a.len() {
                assert(c[p] == a[p]);
            } else {
                assert(c[p] == b[p - a.len()]);
            }
        }
        assert forall|p: int, q: int|
            0 <= p < q < c.len() && (#[trigger] c[p]).sequence() == (#[trigger] c[q]).sequence() implies c[p].item()
                < c[q].item() by {
            if q < a.len() {
                assert(c[p] == a[p] && c[q] == a[q]);
            } else if p < a.len() {
                assert(c[p] == a[p] && c[q] == b[q - a.len()]);
            } else {
                assert(c[p] == b[p - a.len()] && c[q] == b[q - a.len()]);
            }
        }
    }
}

/// An event never runs a step of a sequence that is bound to another
/// source: no step of the match pass belongs to such a sequence.
pub proof fn lemma_other_source_never_triggers(
    reg: DeviceRegistry,
    seqs: Seq<SequenceModel>,
    e: EventModel,
    k: int,
)
    requires
        0 <= k < seqs.len(),
        seqs[k].trigger.trigger_id != e.source,
    ensures
        forall|p: int| 0 <= p < plan_for(reg, seqs, e).len() ==> (#[trigger] plan_for(reg, seqs, e)[p]).sequence() != k,
{
    lemma_plan_upto_bound(reg, seqs, e, seqs.len() as int);
}

/// Every step that the sequencer hands out belongs to a sequence bound to
/// the source and the event kind of the event being processed.
pub proof fn lemma_runs_only_bound_sequences(m: SequencerModel, input: InputModel)
    requires
        wf(m),
    ensures
        transition(m, input).1 matches CommandModel::Run(s) ==> (transition(m, input).0.current matches Some(e)
            && 0 <= s.sequence() < m.sequences.len() && triggered(m.sequences[s.sequence()], e)),
{
    let (m2, c) = transition(m, input);
    if let CommandModel::Run(s) = c {
        lemma_plan_upto_bound(m2.devices, m2.sequences, m2.current->Some_0, m2.sequences.len() as int);
    }
}

/// Within a match pass the steps of one sequence come in the order of its
/// items.
pub proof fn lemma_plan_keeps_item_order(reg: DeviceRegistry, seqs: Seq<SequenceModel>, e: EventModel)
    ensures
        forall|p: int, q: int|
            0 <= p < q < plan_for(reg, seqs, e).len() && (#[trigger] plan_for(reg, seqs, e)[p]).sequence()
                == (#[trigger] plan_for(reg, seqs, e)[q]).sequence() ==> plan_for(reg, seqs, e)[p].item()
                < plan_for(reg, seqs, e)[q].item(),
{
    lemma_plan_upto_bound(reg, seqs, e, seqs.len() as int);
}

/// While a step is in flight, only its completion lets another start:
/// any other input leaves the step in flight and hands out nothing.
pub proof fn lemma_one_step_in_flight(m: SequencerModel, input: InputModel)
    requires
        wf(m),
        m.phase == Phase::Processing,
        !(input is StepFinished),
    ensures
        !(transition(m, input).1 is Run),
        transition(m, input).0.phase == Phase::Processing,
        transition(m, input).0.next == m.next,
        transition(m, input).0.plan == m.plan,
{
}

/// When a step completes, the step handed out next is the one after it
/// in the plan.
pub proof fn lemma_next_step_follows(m: SequencerModel)
    requires
        wf(m),
        m.phase == Phase::Processing,
        !m.stop_requested,
        m.next + 1 < m.plan.len(),
    ensures
        transition(m, InputModel::StepFinished).1 == CommandModel::Run(m.plan[m.next + 1]),
        transition(m, InputModel::StepFinished).0.next == m.next + 1,
        transition(m, InputModel::StepFinished).0.plan == m.plan,
{
}

/// Cancellation in the middle of a sequence lets the step in flight
/// complete; then the sequencer stops.
pub proof fn lemma_cancel_lets_step_finish(m: SequencerModel)
    requires
        wf(m),
        m.phase == Phase::Processing,
    ensures
        transition(m, InputModel::Cancelled).1 is AwaitStep,
        transition(m, InputModel::Cancelled).0.phase == Phase::Processing,
        transition(m, InputModel::Cancelled).0.next == m.next,
        transition(m, InputModel::Cancelled).0.plan == m.plan,
        transition(transition(m, InputModel::Cancelled).0, InputModel::StepFinished).1 is Stop,
        transition(transition(m, InputModel::Cancelled).0, InputModel::StepFinished).0.phase == Phase::Stopped,
{
}

/// Once cancellation has been observed, no step starts and no match pass
/// begins, whatever comes in.
pub proof fn lemma_no_step_after_cancel(m: SequencerModel, input: InputModel)
    requires
        wf(m),
        m.phase == Phase::Stopped || (m.phase == Phase::Processing && m.stop_requested),
    ensures
        !(transition(m, input).1 is Run),
        transition(m, input).0.phase != Phase::Idle,
        transition(m, input).0.current == m.current,
        transition(m, input).0.stop_requested == m.stop_requested,
{
}

/// The stopped state is final.
pub proof fn lemma_stopped_is_final(m: SequencerModel, input: InputModel)
    requires
        m.phase == Phase::Stopped,
    ensures
        transition(m, input) == (m, CommandModel::Stop),
{
}

} // verus!
