use reaction_sequencer::device::{ble_device, setup, BunnyEars, DeviceRegistry};
use reaction_sequencer::json::Json;
use reaction_sequencer::lifecycle::{RunControl, RunHandle, RunState, StartError, ThreadActions};
use reaction_sequencer::sequence::{ReactionSequence, ReactionSequenceItemSequence, ReactionSequenceTrigger};
use reaction_sequencer::sequencer::{plan_for_event, Command, Input, Phase, Sequencer, SkipReason, Step};
use reaction_sequencer::trigger::QueueEvent;

fn s(x: &str) -> String {
    x.to_string()
}

fn item(id: &str, device: &str, action: &str) -> ReactionSequenceItemSequence {
    ReactionSequenceItemSequence { arguments: vec![], device_action_id: s(action), device_id: s(device), id: s(id) }
}

fn bound(id: &str, source: &str, event: &str, items: Vec<ReactionSequenceItemSequence>) -> ReactionSequence {
    ReactionSequence {
        id: s(id),
        name: s(id),
        trigger: ReactionSequenceTrigger { trigger_id: s(source), trigger_event_id: s(event) },
        sequence: items,
    }
}

fn devices() -> DeviceRegistry {
    let mut reg = setup(DeviceRegistry::new());
    reg.insert(BunnyEars::new(s("bunnyEars"), s("Bunny Ears"), s("EB:A0:B4:C2:82:C8")).to_device());
    reg
}

fn event(source: &str, kind: &str) -> Input {
    Input::Event(QueueEvent::new(s(source), s(kind)))
}

fn invoke(sequence: usize, item: usize, device: &str, action: &str) -> Command {
    Command::Run(Step::Invoke { sequence, item, device_id: s(device), action_id: s(action) })
}

#[test]
fn is_triggered_by_event_needs_source_and_kind() {
    let q = bound("q", "pubsub", "redeem", vec![]);
    assert!(q.is_triggered_by_event(&QueueEvent::new(s("pubsub"), s("redeem"))));
    assert!(!q.is_triggered_by_event(&QueueEvent::new(s("chat"), s("redeem"))));
    assert!(!q.is_triggered_by_event(&QueueEvent::new(s("pubsub"), s("message"))));
}

#[test]
fn an_event_of_one_source_never_runs_a_sequence_of_another() {
    let seqs = vec![
        bound("a", "A", "go", vec![item("1", "timer", "delay")]),
        bound("b", "B", "go", vec![item("2", "timer", "delay")]),
    ];
    let plan = plan_for_event(&devices(), &seqs, &QueueEvent::new(s("A"), s("go")));
    assert_eq!(plan, vec![Step::Invoke { sequence: 0, item: 0, device_id: s("timer"), action_id: s("delay") }]);
    let plan = plan_for_event(&devices(), &seqs, &QueueEvent::new(s("C"), s("go")));
    assert!(plan.is_empty());
}

#[test]
fn steps_start_only_after_the_previous_one_completes() {
    let seqs = vec![bound(
        "q",
        "pubsub",
        "redeem",
        vec![item("1", "bunnyEars", "leftEar"), item("2", "timer", "delay"), item("3", "bunnyEars", "rightEar")],
    )];
    let mut m = Sequencer::new(devices(), seqs);
    assert_eq!(m.handle(event("pubsub", "redeem")), invoke(0, 0, "bunnyEars", "leftEar"));
    assert_eq!(m.handle(event("pubsub", "redeem")), Command::AwaitStep);
    assert_eq!(m.handle(Input::StepFinished), invoke(0, 1, "timer", "delay"));
    assert_eq!(m.handle(Input::StepFinished), invoke(0, 2, "bunnyEars", "rightEar"));
    // The event that came in meanwhile starts the next pass.
    assert_eq!(m.handle(Input::StepFinished), invoke(0, 0, "bunnyEars", "leftEar"));
}

#[test]
fn only_the_latest_event_is_kept_while_processing() {
    let seqs = vec![
        bound("a", "A", "go", vec![item("1", "timer", "delay")]),
        bound("b", "B", "go", vec![item("2", "bunnyEars", "leftEar")]),
        bound("c", "C", "go", vec![item("3", "bunnyEars", "rightEar")]),
    ];
    let mut m = Sequencer::new(devices(), seqs);
    assert_eq!(m.handle(event("A", "go")), invoke(0, 0, "timer", "delay"));
    assert_eq!(m.handle(event("B", "go")), Command::AwaitStep);
    assert_eq!(m.handle(event("C", "go")), Command::AwaitStep);
    assert_eq!(m.handle(Input::StepFinished), invoke(2, 0, "bunnyEars", "rightEar"));
    assert_eq!(m.handle(Input::StepFinished), Command::AwaitEvent);
    assert_eq!(m.phase(), Phase::Idle);
}

#[test]
fn cancellation_lets_the_current_step_finish_then_stops() {
    let seqs = vec![bound("q", "pubsub", "redeem", vec![item("1", "timer", "delay"), item("2", "timer", "delay")])];
    let mut m = Sequencer::new(devices(), seqs);
    assert_eq!(m.handle(event("pubsub", "redeem")), invoke(0, 0, "timer", "delay"));
    assert_eq!(m.handle(Input::Cancelled), Command::AwaitStep);
    assert_eq!(m.phase(), Phase::Processing);
    assert_eq!(m.handle(event("pubsub", "redeem")), Command::AwaitStep);
    assert_eq!(m.handle(Input::StepFinished), Command::Stop);
    assert_eq!(m.phase(), Phase::Stopped);
    assert_eq!(m.handle(event("pubsub", "redeem")), Command::Stop);
    assert_eq!(m.handle(Input::StepFinished), Command::Stop);
}

#[test]
fn cancellation_while_idle_stops_at_once() {
    let mut m = Sequencer::new(devices(), vec![]);
    assert_eq!(m.handle(Input::StepFinished), Command::AwaitEvent);
    assert_eq!(m.handle(Input::Cancelled), Command::Stop);
    assert_eq!(m.handle(event("x", "y")), Command::Stop);
}

#[test]
fn a_step_on_an_unconfigured_device_is_skipped() {
    let seqs = vec![bound("q", "pubsub", "redeem", vec![item("1", "ghost", "boo"), item("2", "timer", "delay")])];
    let mut m = Sequencer::new(devices(), seqs);
    assert_eq!(
        m.handle(event("pubsub", "redeem")),
        Command::Run(Step::Skip { sequence: 0, item: 0, reason: SkipReason::UnknownDevice })
    );
    assert_eq!(m.handle(Input::StepFinished), invoke(0, 1, "timer", "delay"));
    assert_eq!(m.handle(Input::StepFinished), Command::AwaitEvent);
}

#[test]
fn a_step_on_an_unknown_action_is_skipped() {
    let mut reg = DeviceRegistry::new();
    reg.insert(ble_device(s("ble"), s("Ble")));
    let seqs = vec![bound("q", "A", "go", vec![item("1", "ble", "blink")])];
    let plan = plan_for_event(&reg, &seqs, &QueueEvent::new(s("A"), s("go")));
    assert_eq!(plan, vec![Step::Skip { sequence: 0, item: 0, reason: SkipReason::UnknownAction }]);
}

#[test]
fn end_to_end_redeem_waves_the_left_ear_once() {
    let seqs = vec![bound("q", "pubsub", "redeem", vec![item("1", "bunnyEars", "leftEar")])];
    let mut m = Sequencer::new(devices(), seqs);
    let mut invocations: Vec<(String, String, usize)> = Vec::new();
    let mut next = m.handle(event("pubsub", "redeem"));
    loop {
        match next {
            Command::Run(Step::Invoke { sequence, item, device_id, action_id }) => {
                let args = &m.item(sequence, item).unwrap().arguments;
                invocations.push((device_id, action_id, args.len()));
                next = m.handle(Input::StepFinished);
            }
            Command::Run(Step::Skip { .. }) => next = m.handle(Input::StepFinished),
            _ => break,
        }
    }
    assert_eq!(invocations, vec![(s("bunnyEars"), s("leftEar"), 0)]);
    assert_eq!(next, Command::AwaitEvent);
}

#[test]
fn item_hands_out_the_arguments() {
    let mut it = item("1", "timer", "delay");
    it.arguments = vec![Json::Number(s("2"))];
    let m = Sequencer::new(devices(), vec![bound("q", "A", "go", vec![it])]);
    assert_eq!(m.item(0, 0).unwrap().arguments, vec![Json::Number(s("2"))]);
    assert!(m.item(0, 1).is_none());
    assert!(m.item(1, 0).is_none());
}

#[test]
fn a_run_ends_only_when_every_task_has_ended() {
    let mut c = RunControl::new();
    let h = c.start(2).unwrap();
    assert_eq!(h, RunHandle { run: 1, tasks: 4 });
    assert_eq!(c.start(1), Err(StartError::NotIdle));
    assert!(!c.is_cancelled(1));
    assert!(c.stop(ThreadActions::Stop));
    assert!(!c.stop(ThreadActions::Stop));
    assert!(c.is_cancelled(1));
    assert_eq!(c.task_finished(1), RunState::Stopping);
    assert_eq!(c.task_finished(1), RunState::Stopping);
    assert_eq!(c.task_finished(7), RunState::Stopping);
    assert_eq!(c.task_finished(1), RunState::Stopping);
    assert_eq!(c.task_finished(1), RunState::Idle);
}

#[test]
fn a_new_run_gets_a_fresh_signal() {
    let mut c = RunControl::new();
    let first = c.start(0).unwrap();
    c.stop(ThreadActions::Stop);
    c.task_finished(first.run);
    c.task_finished(first.run);
    let second = c.start(0).unwrap();
    assert_eq!(second.run, 2);
    assert!(!c.is_cancelled(second.run));
    assert!(c.is_cancelled(first.run));
}

#[test]
fn start_refuses_a_task_count_that_overflows() {
    let mut c = RunControl::new();
    assert_eq!(c.start(usize::MAX), Err(StartError::TooMany));
    assert_eq!(c.state, RunState::Idle);
}

#[test]
fn play_resolves_every_item_in_order() {
    let q = bound("q", "A", "go", vec![item("1", "timer", "delay"), item("2", "ghost", "boo"), item("3", "timer", "wait")]);
    assert_eq!(
        q.play(&devices(), 4),
        vec![
            Step::Invoke { sequence: 4, item: 0, device_id: s("timer"), action_id: s("delay") },
            Step::Skip { sequence: 4, item: 1, reason: SkipReason::UnknownDevice },
            Step::Skip { sequence: 4, item: 2, reason: SkipReason::UnknownAction },
        ]
    );
}

#[test]
fn device_accessors() {
    let reg = devices();
    let d = reg.get_device_by_id(&s("bunnyEars")).unwrap();
    assert_eq!(d.get_name(), &s("Bunny Ears"));
    assert_eq!(d.get_actions(), &vec![s("leftEar"), s("rightEar")]);
    assert_eq!(d.get_device_type(), reaction_sequencer::device::DeviceTypes::BunnyEars);
}

#[test]
fn a_chat_rule_with_the_empty_event_kind_fires_on_a_chat_line() {
    let seqs = vec![bound("q", "twitch_chat", "", vec![item("1", "timer", "delay")])];
    let mut m = Sequencer::new(devices(), seqs);
    assert_eq!(m.handle(event("twitch_chat", "")), invoke(0, 0, "timer", "delay"));
}
