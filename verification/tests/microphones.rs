use puppetty::microphones::{group_microphones, DeviceInfo, DeviceSource, MicrophoneGroup};

fn device(id: Option<&str>, name: Option<&str>) -> DeviceInfo {
    DeviceInfo {
        id: id.map(|s| s.to_string()),
        name: name.map(|s| s.to_string()),
    }
}

fn summary(groups: &[MicrophoneGroup]) -> Vec<(String, Vec<DeviceSource>, bool)> {
    groups
        .iter()
        .map(|g| (g.name.clone(), g.sources.clone(), g.is_physical))
        .collect()
}

#[test]
fn default_device_opens_the_menu() {
    let listed = vec![device(Some("plughw:CARD=Mic"), Some("USB Mic"))];
    let groups = group_microphones(Some(device(Some("default"), Some("Default"))), &listed, false);
    assert_eq!(
        summary(&groups),
        vec![
            ("System default".to_string(), vec![DeviceSource::DefaultInput], false),
            ("USB Mic".to_string(), vec![DeviceSource::Listed(0)], true),
        ]
    );
}

#[test]
fn default_device_listed_again_is_passed_over() {
    let listed = vec![
        device(Some("default"), Some("Default")),
        device(Some("hw:1"), Some("Headset")),
    ];
    let groups = group_microphones(Some(device(Some("default"), None)), &listed, false);
    assert_eq!(
        summary(&groups),
        vec![
            ("System default".to_string(), vec![DeviceSource::DefaultInput], false),
            ("Headset".to_string(), vec![DeviceSource::Listed(1)], false),
        ]
    );
}

#[test]
fn devices_sharing_a_name_share_an_entry() {
    let listed = vec![
        device(Some("sysdefault:CARD=Mic"), Some("USB Mic")),
        device(Some("hw:2"), Some("Webcam")),
        device(Some("plughw:CARD=Mic"), Some("USB Mic")),
    ];
    let groups = group_microphones(None, &listed, false);
    assert_eq!(
        summary(&groups),
        vec![
            (
                "USB Mic".to_string(),
                vec![DeviceSource::Listed(0), DeviceSource::Listed(2)],
                true
            ),
            ("Webcam".to_string(), vec![DeviceSource::Listed(1)], false),
        ]
    );
}

#[test]
fn unnamed_devices_are_offered_as_input_device() {
    let listed = vec![device(Some("a"), None), device(Some("b"), None)];
    let groups = group_microphones(None, &listed, false);
    assert_eq!(
        summary(&groups),
        vec![(
            "Input device".to_string(),
            vec![DeviceSource::Listed(0), DeviceSource::Listed(1)],
            false
        )]
    );
}

#[test]
fn devices_without_id_match_a_default_without_id() {
    let listed = vec![device(None, Some("Ghost")), device(Some("x"), Some("Real"))];
    let groups = group_microphones(Some(device(None, Some("Default"))), &listed, false);
    assert_eq!(
        summary(&groups),
        vec![
            ("System default".to_string(), vec![DeviceSource::DefaultInput], false),
            ("Real".to_string(), vec![DeviceSource::Listed(1)], false),
        ]
    );
    // Without a default device the missing id still compares equal.
    let groups = group_microphones(None, &listed, false);
    assert_eq!(
        summary(&groups),
        vec![("Real".to_string(), vec![DeviceSource::Listed(1)], false)]
    );
}

#[test]
fn a_device_named_system_default_joins_the_default_entry() {
    let listed = vec![device(Some("plughw:0"), Some("System default"))];
    let groups = group_microphones(Some(device(Some("d"), None)), &listed, true);
    assert_eq!(
        summary(&groups),
        vec![(
            "System default".to_string(),
            vec![DeviceSource::DefaultInput, DeviceSource::Listed(0)],
            true
        )]
    );
}

#[test]
fn physical_only_keeps_default_and_physical_entries() {
    let listed = vec![
        device(Some("pulse"), Some("PulseAudio")),
        device(Some("plughw:CARD=Mic,DEV=0"), Some("USB Mic")),
        device(Some("plughw"), Some("Almost")),
        device(Some("dsnoop:CARD=Mic"), Some("USB Mic")),
    ];
    let groups = group_microphones(Some(device(Some("default"), None)), &listed, true);
    assert_eq!(
        summary(&groups),
        vec![
            ("System default".to_string(), vec![DeviceSource::DefaultInput], false),
            (
                "USB Mic".to_string(),
                vec![DeviceSource::Listed(1), DeviceSource::Listed(3)],
                true
            ),
        ]
    );
}

#[test]
fn physical_only_without_default_can_be_empty() {
    let listed = vec![device(Some("pulse"), Some("PulseAudio"))];
    let groups = group_microphones(None, &listed, true);
    assert!(groups.is_empty());
    let groups = group_microphones(None, &Vec::new(), false);
    assert!(groups.is_empty());
}

#[test]
fn menu_names_are_distinct() {
    let listed = vec![
        device(Some("1"), Some("A")),
        device(Some("2"), Some("B")),
        device(Some("3"), Some("A")),
        device(Some("4"), Some("B")),
        device(Some("5"), Some("C")),
    ];
    let groups = group_microphones(Some(device(Some("0"), None)), &listed, false);
    let names: Vec<String> = groups.iter().map(|g| g.name.clone()).collect();
    assert_eq!(names, vec!["System default", "A", "B", "C"]);
}
