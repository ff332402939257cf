use aura_accent_sync::app::{AuraSyncApp, ControlMsg, Phase, SyncAction, SyncEvent};
use aura_accent_sync::color::{parse_hex_to_color, Color};

fn rgb(r: u8, g: u8, b: u8) -> Color {
    Color { r, g, b }
}

fn update(c: Color) -> SyncEvent {
    SyncEvent::Message(ControlMsg::UpdateColor(c))
}

/// Runs the engine over the events and counts the executor calls.
fn executor_calls(engine: &mut AuraSyncApp, events: &[SyncEvent]) -> Vec<Color> {
    let mut calls = Vec::new();
    for event in events {
        if let SyncAction::Apply(c) = engine.step(*event) {
            calls.push(c);
        }
    }
    calls
}

#[test]
fn starts_idle_with_nothing_applied() {
    let engine = AuraSyncApp::new();
    assert_eq!(engine.last_applied(), None);
    assert_eq!(engine.phase(), Phase::Idle);
}

#[test]
fn dedup_idempotence() {
    let c = rgb(10, 20, 30);
    let mut engine = AuraSyncApp::new();
    assert_eq!(engine.step(update(c)), SyncAction::Apply(c));
    assert_eq!(engine.phase(), Phase::Applying(c));
    assert_eq!(engine.step(SyncEvent::ApplyFinished(true)), SyncAction::Notify(c));
    assert_eq!(engine.step(update(c)), SyncAction::Wait);
    assert_eq!(engine.last_applied(), Some(c));
    assert_eq!(engine.phase(), Phase::Idle);

    let mut again = AuraSyncApp::new();
    let calls = executor_calls(&mut again, &[update(c), SyncEvent::ApplyFinished(true), update(c)]);
    assert_eq!(calls, vec![c]);
}

#[test]
fn retry_on_failure() {
    let c = rgb(10, 20, 30);
    let mut engine = AuraSyncApp::new();
    assert_eq!(engine.step(update(c)), SyncAction::Apply(c));
    assert_eq!(engine.step(SyncEvent::ApplyFinished(false)), SyncAction::ReportFailure(c));
    assert_eq!(engine.last_applied(), None);
    assert_eq!(engine.phase(), Phase::Idle);
    assert_eq!(engine.step(update(c)), SyncAction::Apply(c));

    let mut again = AuraSyncApp::new();
    let calls =
        executor_calls(&mut again, &[update(c), SyncEvent::ApplyFinished(false), update(c)]);
    assert_eq!(calls, vec![c, c]);
}

#[test]
fn failure_keeps_the_color_applied_before() {
    let (old, new) = (rgb(1, 1, 1), rgb(2, 2, 2));
    let mut engine = AuraSyncApp::new();
    engine.step(update(old));
    engine.step(SyncEvent::ApplyFinished(true));
    assert_eq!(engine.step(update(new)), SyncAction::Apply(new));
    assert_eq!(engine.step(SyncEvent::ApplyFinished(false)), SyncAction::ReportFailure(new));
    assert_eq!(engine.last_applied(), Some(old));
    // The old color is still the applied one, so asking for it does nothing.
    assert_eq!(engine.step(update(old)), SyncAction::Wait);
}

#[test]
fn no_op_re_notification() {
    let c = parse_hex_to_color("1a2b3c").unwrap();
    let mut engine = AuraSyncApp::new();
    assert_eq!(engine.last_applied(), None);
    assert_eq!(engine.step(update(c)), SyncAction::Apply(rgb(0x1a, 0x2b, 0x3c)));
    assert_eq!(engine.step(SyncEvent::ApplyFinished(true)), SyncAction::Notify(c));
    assert_eq!(engine.last_applied(), Some(rgb(0x1a, 0x2b, 0x3c)));
    assert_eq!(engine.step(SyncEvent::Message(ControlMsg::TriggerSync)), SyncAction::ReadSource);
    assert_eq!(engine.phase(), Phase::Resolving);
    assert_eq!(engine.step(SyncEvent::SourceRead(Some(c))), SyncAction::Wait);
    assert_eq!(engine.phase(), Phase::Idle);
    assert_eq!(engine.last_applied(), Some(c));
}

#[test]
fn unavailable_source() {
    let c = rgb(9, 8, 7);
    let mut engine = AuraSyncApp::new();
    assert_eq!(engine.step(SyncEvent::Message(ControlMsg::TriggerSync)), SyncAction::ReadSource);
    assert_eq!(engine.step(SyncEvent::SourceRead(None)), SyncAction::Wait);
    assert_eq!(engine.last_applied(), None);
    assert_eq!(engine.phase(), Phase::Idle);

    engine.step(update(c));
    engine.step(SyncEvent::ApplyFinished(true));
    assert_eq!(engine.step(SyncEvent::Message(ControlMsg::TriggerSync)), SyncAction::ReadSource);
    assert_eq!(engine.step(SyncEvent::SourceRead(None)), SyncAction::Wait);
    assert_eq!(engine.last_applied(), Some(c));
}

#[test]
fn trigger_sync_applies_the_color_that_was_looked_up() {
    let c = rgb(61, 174, 233);
    let mut engine = AuraSyncApp::new();
    assert_eq!(engine.step(SyncEvent::Message(ControlMsg::TriggerSync)), SyncAction::ReadSource);
    assert_eq!(engine.step(SyncEvent::SourceRead(Some(c))), SyncAction::Apply(c));
    assert_eq!(engine.step(SyncEvent::ApplyFinished(true)), SyncAction::Notify(c));
    assert_eq!(engine.last_applied(), Some(c));
}

#[test]
fn each_new_color_is_applied() {
    let (a, b) = (rgb(1, 0, 0), rgb(0, 1, 0));
    let mut engine = AuraSyncApp::new();
    let done = SyncEvent::ApplyFinished(true);
    let calls = executor_calls(
        &mut engine,
        &[update(a), done, update(b), done, update(b), update(a), done, update(a)],
    );
    assert_eq!(calls, vec![a, b, a]);
    assert_eq!(engine.last_applied(), Some(a));
}

#[test]
fn events_out_of_turn_change_nothing() {
    let c = rgb(5, 5, 5);
    let mut engine = AuraSyncApp::new();
    assert_eq!(engine.step(SyncEvent::ApplyFinished(true)), SyncAction::Wait);
    assert_eq!(engine.step(SyncEvent::SourceRead(Some(c))), SyncAction::Wait);
    assert_eq!(engine.last_applied(), None);
    assert_eq!(engine.phase(), Phase::Idle);

    assert_eq!(engine.step(update(c)), SyncAction::Apply(c));
    // While the executor runs, no second run is asked for.
    assert_eq!(engine.step(update(rgb(6, 6, 6))), SyncAction::Wait);
    assert_eq!(engine.step(SyncEvent::SourceRead(Some(c))), SyncAction::Wait);
    assert_eq!(engine.phase(), Phase::Applying(c));
    assert_eq!(engine.step(SyncEvent::ApplyFinished(true)), SyncAction::Notify(c));

    assert_eq!(engine.step(SyncEvent::Message(ControlMsg::TriggerSync)), SyncAction::ReadSource);
    assert_eq!(engine.step(update(c)), SyncAction::Wait);
    assert_eq!(engine.step(SyncEvent::ApplyFinished(false)), SyncAction::Wait);
    assert_eq!(engine.phase(), Phase::Resolving);
}

#[test]
fn never_applies_the_color_that_is_applied() {
    // A fixed walk through colors and outcomes: every executor call is for a
    // color other than the one last applied with success.
    let colors = [rgb(0, 0, 0), rgb(1, 1, 1), rgb(2, 2, 2)];
    let mut engine = AuraSyncApp::new();
    let mut seed: u32 = 12345;
    for _ in 0..2000 {
        seed = seed.wrapping_mul(1103515245).wrapping_add(12345);
        let c = colors[(seed >> 16) as usize % 3];
        let before = engine.last_applied();
        let event = match (seed >> 8) % 3 {
            0 => update(c),
            1 => SyncEvent::Message(ControlMsg::TriggerSync),
            _ => update(colors[0]),
        };
        let mut action = engine.step(event);
        if action == SyncAction::ReadSource {
            let reading = if seed % 5 == 0 { None } else { Some(c) };
            action = engine.step(SyncEvent::SourceRead(reading));
        }
        if let SyncAction::Apply(target) = action {
            assert_ne!(before, Some(target));
            let ok = seed % 7 != 0;
            let after = engine.step(SyncEvent::ApplyFinished(ok));
            if ok {
                assert_eq!(after, SyncAction::Notify(target));
                assert_eq!(engine.last_applied(), Some(target));
            } else {
                assert_eq!(after, SyncAction::ReportFailure(target));
                assert_eq!(engine.last_applied(), before);
            }
        } else {
            assert_eq!(action, SyncAction::Wait);
            assert_eq!(engine.last_applied(), before);
        }
        assert_eq!(engine.phase(), Phase::Idle);
    }
}
