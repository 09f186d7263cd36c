use subwoofer::driver::{step, DriverAction, DriverState, Tick};
use subwoofer::relay::{SampleRelay, SAMPLE_LIMIT};

fn tick(count: usize, producer_closed: bool) -> Tick {
    Tick { count, producer_closed }
}

fn clamped_mean(samples: &[f64]) -> f64 {
    let mean = samples.iter().sum::<f64>() / samples.len() as f64;
    mean.clamp(0.0, 1.0)
}

#[test]
fn samples_drained_while_running_are_dispatched() {
    assert_eq!(
        step(DriverState::Running, tick(3, false)),
        (DriverState::Running, DriverAction::Dispatch)
    );
}

#[test]
fn empty_drain_while_open_skips_the_tick() {
    assert_eq!(
        step(DriverState::Running, tick(0, false)),
        (DriverState::Running, DriverAction::Skip)
    );
    assert_eq!(
        step(DriverState::Draining, tick(0, false)),
        (DriverState::Draining, DriverAction::Skip)
    );
}

#[test]
fn samples_after_producer_close_are_flushed() {
    assert_eq!(
        step(DriverState::Running, tick(2, true)),
        (DriverState::Draining, DriverAction::Dispatch)
    );
    assert_eq!(
        step(DriverState::Draining, tick(1, false)),
        (DriverState::Draining, DriverAction::Dispatch)
    );
}

#[test]
fn end_of_stream_stops_and_disconnects() {
    assert_eq!(
        step(DriverState::Running, tick(0, true)),
        (DriverState::Stopped, DriverAction::Disconnect)
    );
    assert_eq!(
        step(DriverState::Draining, tick(0, true)),
        (DriverState::Stopped, DriverAction::Disconnect)
    );
}

#[test]
fn stopped_driver_stays_idle() {
    assert_eq!(
        step(DriverState::Stopped, tick(0, true)),
        (DriverState::Stopped, DriverAction::Idle)
    );
    assert_eq!(
        step(DriverState::Stopped, tick(4, false)),
        (DriverState::Stopped, DriverAction::Idle)
    );
}

#[test]
fn disconnect_is_issued_once_over_a_run() {
    let ticks = [tick(2, false), tick(0, false), tick(1, true), tick(0, true), tick(0, true), tick(3, true)];
    let mut state = DriverState::Running;
    let mut disconnects = 0;
    for t in ticks {
        let (next, action) = step(state, t);
        if action == DriverAction::Disconnect {
            disconnects += 1;
        }
        state = next;
    }
    assert_eq!(disconnects, 1);
    assert_eq!(state, DriverState::Stopped);
}

#[test]
fn end_to_end_equal_samples_dispatch_their_value() {
    let mut relay: SampleRelay<f64> = SampleRelay::new();
    for _ in 0..4 {
        relay.try_emit(0.2).unwrap();
    }
    let drained = relay.drain(SAMPLE_LIMIT);
    let (state, action) = step(DriverState::Running, tick(drained.len(), relay.is_producer_closed()));
    assert_eq!((state, action), (DriverState::Running, DriverAction::Dispatch));
    assert!((clamped_mean(&drained) - 0.2).abs() < 1e-12);
}

#[test]
fn end_to_end_loud_sample_is_clamped() {
    let mut relay: SampleRelay<f64> = SampleRelay::new();
    relay.try_emit(2.0).unwrap();
    let drained = relay.drain(SAMPLE_LIMIT);
    let (_, action) = step(DriverState::Running, tick(drained.len(), false));
    assert_eq!(action, DriverAction::Dispatch);
    assert_eq!(clamped_mean(&drained), 1.0);
}

#[test]
fn end_to_end_close_without_samples_stops() {
    let mut relay: SampleRelay<f64> = SampleRelay::new();
    relay.close_producer();
    let drained = relay.drain(SAMPLE_LIMIT);
    assert!(relay.is_finished());
    let (state, action) = step(DriverState::Running, tick(drained.len(), relay.is_producer_closed()));
    assert_eq!((state, action), (DriverState::Stopped, DriverAction::Disconnect));
}
