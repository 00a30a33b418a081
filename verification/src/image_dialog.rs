//! Choosing the puppet image through a file dialog.

use vstd::prelude::*;

verus! {

/// A new file dialog opens only when none is pending, so there is at most
/// one at a time.
pub fn should_open_file_dialog(pending_dialogs: usize) -> (open: bool)
    ensures
        open == (pending_dialogs == 0),
{
    pending_dialogs == 0
}

/// The name of the file dialog's filter.
pub open spec fn image_filter_name() -> Seq<char> {
    "Image"@
}

/// The file extensions the dialog offers: PNG images only.
pub open spec fn image_extensions() -> Seq<Seq<char>> {
    seq!["png"@]
}

/// The dialog's filter: its name and the extensions it lets through.
pub fn image_filter() -> (filter: (String, Vec<String>))
    ensures
        filter.0@ == image_filter_name(),
        filter.1.deep_view() == image_extensions(),
{
    let mut extensions: Vec<String> = Vec::new();
    extensions.push(String::from_str("png"));
    assert(extensions.deep_view() =~= image_extensions());
    (String::from_str("Image"), extensions)
}

/// Where a pending file dialog stands.
pub enum DialogPoll {
    /// The user has not answered yet.
    Pending,
    /// The dialog was closed without a file.
    Cancelled,
    /// The user picked the file at this path.
    Picked(String),
}

/// What to do about a pending file dialog.
pub enum DialogAction {
    /// Leave it pending.
    KeepWaiting,
    /// Discard the dialog.
    Discard,
    /// Discard the dialog and load the image at this path as the puppet.
    DiscardAndLoad(String),
}

/// Decides what to do about a file dialog: it stays until answered; an
/// answer discards it, and a picked file becomes the puppet image.
pub fn dialog_action(poll: DialogPoll) -> (action: DialogAction)
    ensures
        poll is Pending <==> action is KeepWaiting,
        poll is Cancelled <==> action is Discard,
        poll matches DialogPoll::Picked(path) ==> action matches DialogAction::DiscardAndLoad(
            p,
        ) && p@ == path@,
        action matches DialogAction::DiscardAndLoad(p) ==> poll matches DialogPoll::Picked(path)
            && p@ == path@,
{
    match poll {
        DialogPoll::Pending => DialogAction::KeepWaiting,
        DialogPoll::Cancelled => DialogAction::Discard,
        DialogPoll::Picked(path) => DialogAction::DiscardAndLoad(path),
    }
}

/// The "open puppet window" button is enabled once an image is selected,
/// on the frame where the selection changes.
pub fn should_enable_open_button(selection_changed: bool, image_selected: bool) -> (enable: bool)
    ensures
        enable == (selection_changed && image_selected),
{
    selection_changed && image_selected
}

} // verus!
