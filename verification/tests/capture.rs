use puppetty::capture::{start_default, LevelLabel, MicrophoneStart, MicrophoneStatus, StartStep};
use puppetty::microphones::{DeviceSource, MicrophoneGroup};

fn group(name: &str, sources: Vec<DeviceSource>) -> MicrophoneGroup {
    MicrophoneGroup {
        name: name.to_string(),
        sources,
        is_physical: false,
    }
}

fn failed_text(step: StartStep) -> String {
    match step {
        StartStep::Failed(message) => message,
        StartStep::Try(source) => panic!("expected a failure, got a try of {:?}", source),
    }
}

fn tried(step: StartStep) -> DeviceSource {
    match step {
        StartStep::Try(source) => source,
        StartStep::Failed(message) => panic!("expected a try, got {}", message),
    }
}

#[test]
fn devices_are_tried_in_order_until_all_fail() {
    let groups = vec![
        group("System default", vec![DeviceSource::DefaultInput]),
        group("USB Mic", vec![DeviceSource::Listed(0), DeviceSource::Listed(3)]),
    ];
    let mut start = MicrophoneStart::new(&groups, 1);
    assert_eq!(start.name(), "USB Mic");
    assert_eq!(tried(start.next_step()), DeviceSource::Listed(0));
    start.attempt_failed("device busy".to_string());
    assert_eq!(tried(start.next_step()), DeviceSource::Listed(3));
    start.attempt_failed("unsupported format".to_string());
    assert_eq!(
        failed_text(start.next_step()),
        "Could not start USB Mic: unsupported format"
    );
    // Further failures change nothing.
    start.attempt_failed("again".to_string());
    assert_eq!(
        failed_text(start.next_step()),
        "Could not start USB Mic: unsupported format"
    );
}

#[test]
fn entry_without_devices_reports_no_configuration() {
    let groups = vec![group("Empty", vec![])];
    let start = MicrophoneStart::new(&groups, 0);
    assert_eq!(
        failed_text(start.next_step()),
        "Could not start Empty: no compatible input configuration"
    );
}

#[test]
fn missing_entry_is_no_longer_available() {
    let groups = vec![group("System default", vec![DeviceSource::DefaultInput])];
    let mut start = MicrophoneStart::new(&groups, 5);
    assert_eq!(
        failed_text(start.next_step()),
        "The selected microphone is no longer available"
    );
    start.attempt_failed("ignored".to_string());
    assert_eq!(
        failed_text(start.next_step()),
        "The selected microphone is no longer available"
    );
}

#[test]
fn startup_starts_the_first_entry() {
    let groups = vec![
        group("System default", vec![DeviceSource::DefaultInput]),
        group("Other", vec![DeviceSource::Listed(0)]),
    ];
    let start = start_default(&groups).ok().expect("a start");
    assert_eq!(start.name(), "System default");
    assert_eq!(tried(start.next_step()), DeviceSource::DefaultInput);
}

#[test]
fn startup_with_empty_menu_reports_it() {
    match start_default(&Vec::new()) {
        Err(message) => assert_eq!(message, "No default input device is available"),
        Ok(_) => panic!("an empty menu cannot start"),
    }
}

fn label_text(label: LevelLabel) -> Option<String> {
    match label {
        LevelLabel::Text(text) => Some(text),
        LevelLabel::Decibels => None,
    }
}

#[test]
fn level_meter_reports_status() {
    let mut status = MicrophoneStatus::new();
    assert_eq!(
        label_text(status.level_label()),
        Some("Level: unavailable".to_string())
    );
    status.failed("Could not start X: busy".to_string());
    assert!(!status.is_capturing());
    assert_eq!(status.error(), Some("Could not start X: busy".to_string()));
    assert_eq!(
        label_text(status.level_label()),
        Some("Level: Could not start X: busy".to_string())
    );
    status.started();
    assert!(status.is_capturing());
    assert_eq!(status.error(), None);
    assert_eq!(label_text(status.level_label()), None);
    // A later failure is shown, though the earlier stream keeps running.
    status.failed("The selected microphone is no longer available".to_string());
    assert!(status.is_capturing());
    assert_eq!(
        label_text(status.level_label()),
        Some("Level: The selected microphone is no longer available".to_string())
    );
}
