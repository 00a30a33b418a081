use puppetty::menu::{
    initial_microphone_selection, menu_names, microphone_menu_entries, selected_microphone_name,
};
use puppetty::capture::{MicrophoneStart, StartStep};
use puppetty::microphones::{DeviceSource, MicrophoneGroup};

#[test]
fn first_microphone_is_selected_initially() {
    assert_eq!(initial_microphone_selection(3), Some(0));
    assert_eq!(initial_microphone_selection(0), None);
}

#[test]
fn menu_button_names_the_selection() {
    let names = vec!["System default".to_string(), "USB Mic".to_string()];
    assert_eq!(selected_microphone_name(&names, Some(0)), "System default");
    assert_eq!(selected_microphone_name(&names, Some(1)), "USB Mic");
    assert_eq!(selected_microphone_name(&names, Some(2)), "No microphone found");
    assert_eq!(selected_microphone_name(&names, None), "No microphone found");
    assert_eq!(
        selected_microphone_name(&Vec::new(), initial_microphone_selection(0)),
        "No microphone found"
    );
}

#[test]
fn menu_entries_carry_their_position() {
    let groups = vec![
        MicrophoneGroup {
            name: "System default".to_string(),
            sources: vec![DeviceSource::DefaultInput],
            is_physical: false,
        },
        MicrophoneGroup {
            name: "USB Mic".to_string(),
            sources: vec![DeviceSource::Listed(2)],
            is_physical: true,
        },
    ];
    let names = menu_names(&groups);
    assert_eq!(names, vec!["System default", "USB Mic"]);
    let entries = microphone_menu_entries(names);
    let pairs: Vec<(usize, String)> = entries.iter().map(|e| (e.index, e.name.clone())).collect();
    assert_eq!(
        pairs,
        vec![(0, "System default".to_string()), (1, "USB Mic".to_string())]
    );
}

#[test]
fn choosing_an_entry_starts_that_microphone() {
    let groups = vec![
        MicrophoneGroup {
            name: "System default".to_string(),
            sources: vec![DeviceSource::DefaultInput],
            is_physical: false,
        },
        MicrophoneGroup {
            name: "USB Mic".to_string(),
            sources: vec![DeviceSource::Listed(2), DeviceSource::Listed(4)],
            is_physical: true,
        },
    ];
    let entries = microphone_menu_entries(menu_names(&groups));
    let start = MicrophoneStart::new(&groups, entries[1].index);
    assert_eq!(start.name(), entries[1].name);
    match start.next_step() {
        StartStep::Try(source) => assert_eq!(source, DeviceSource::Listed(2)),
        StartStep::Failed(message) => panic!("unexpected failure: {}", message),
    }
}
