use puppetty::image_dialog::{
    dialog_action, image_filter, should_enable_open_button, should_open_file_dialog, DialogAction,
    DialogPoll,
};

#[test]
fn only_one_dialog_at_a_time() {
    assert!(should_open_file_dialog(0));
    assert!(!should_open_file_dialog(1));
    assert!(!should_open_file_dialog(2));
}

#[test]
fn dialog_offers_png_images() {
    let (name, extensions) = image_filter();
    assert_eq!(name, "Image");
    assert_eq!(extensions, vec!["png".to_string()]);
}

#[test]
fn dialog_answers() {
    assert!(matches!(dialog_action(DialogPoll::Pending), DialogAction::KeepWaiting));
    assert!(matches!(dialog_action(DialogPoll::Cancelled), DialogAction::Discard));
    match dialog_action(DialogPoll::Picked("/tmp/puppet.png".to_string())) {
        DialogAction::DiscardAndLoad(path) => assert_eq!(path, "/tmp/puppet.png"),
        _ => panic!("a picked file is loaded"),
    }
}

#[test]
fn open_button_enabled_when_image_arrives() {
    assert!(should_enable_open_button(true, true));
    assert!(!should_enable_open_button(true, false));
    assert!(!should_enable_open_button(false, true));
    assert!(!should_enable_open_button(false, false));
}
