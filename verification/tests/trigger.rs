use simple_can_send::settings::{AppSettings, Cli};
use simple_can_send::trigger::{create_frame, LoopAction, ReadEvent, TriggerLoop, BURST_COUNT};

fn descriptor() -> AppSettings {
    AppSettings::parse(&Cli {
        can_id: "100".to_string(),
        data: "A5F1".to_string(),
        extended: false,
        trigger: "101".to_string(),
        iface: "vcan0".to_string(),
    })
    .unwrap()
}

#[test]
fn create_frame_copies_the_descriptor() {
    let settings = descriptor();
    let frame = create_frame(&settings);
    assert_eq!(frame.id, 0x100);
    assert!(!frame.extended);
    assert_eq!(frame.len, 2);
    assert_eq!(&frame.data[0..2], &[0xA5, 0xF1]);
}

#[test]
fn trigger_frame_causes_one_full_burst() {
    let mut looper = TriggerLoop::new(descriptor());
    assert_eq!(looper.count, 0);
    match looper.step(true, ReadEvent::Frame { id: 0x101 }) {
        LoopAction::Burst { frame, times } => {
            assert_eq!(times, 100);
            assert_eq!(times, BURST_COUNT);
            assert_eq!(frame.id, 0x100);
            assert!(!frame.extended);
            assert_eq!(frame.len, 2);
            assert_eq!(&frame.data[0..frame.len], &[0xA5, 0xF1]);
        }
        _ => panic!("expected a burst"),
    }
    assert_eq!(looper.count, 1);
}

#[test]
fn foreign_identifier_causes_no_writes() {
    let mut looper = TriggerLoop::new(descriptor());
    assert!(matches!(
        looper.step(true, ReadEvent::Frame { id: 0x102 }),
        LoopAction::Idle
    ));
    assert_eq!(looper.count, 0);
}

#[test]
fn cancellation_wins_before_any_trigger() {
    let mut looper = TriggerLoop::new(descriptor());
    assert!(matches!(looper.step(false, ReadEvent::Timeout), LoopAction::Exit));
    assert_eq!(looper.count, 0);
    // Cancellation wins even when a trigger frame arrived in the same cycle.
    assert!(matches!(
        looper.step(false, ReadEvent::Frame { id: 0x101 }),
        LoopAction::Exit
    ));
    assert_eq!(looper.count, 0);
}

#[test]
fn read_errors_are_swallowed() {
    let mut looper = TriggerLoop::new(descriptor());
    assert!(matches!(looper.step(true, ReadEvent::ReadError), LoopAction::Idle));
    assert_eq!(looper.count, 0);
    assert!(matches!(looper.step(true, ReadEvent::Timeout), LoopAction::Idle));
    assert_eq!(looper.count, 0);
    // The next iteration still happens and can burst.
    assert!(matches!(
        looper.step(true, ReadEvent::Frame { id: 0x101 }),
        LoopAction::Burst { .. }
    ));
    assert_eq!(looper.count, 1);
}

#[test]
fn burst_counter_wraps_on_overflow() {
    let mut looper = TriggerLoop::new(descriptor());
    looper.count = u64::MAX;
    assert!(matches!(
        looper.step(true, ReadEvent::Frame { id: 0x101 }),
        LoopAction::Burst { .. }
    ));
    assert_eq!(looper.count, 0);
}
