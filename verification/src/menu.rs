//! The microphone menu of the configuration window: its entries, and the
//! name shown on the menu button.

use vstd::prelude::*;
use crate::capture::StartView;
use crate::microphones::{GroupView, MicrophoneGroup};

verus! {

/// Shown on the menu button when no microphone is selected.
pub open spec fn no_microphone_label() -> Seq<char> {
    "No microphone found"@
}

/// The menu entry first selected: the first one, if there is any.
pub open spec fn initial_selection(count: nat) -> Option<usize> {
    if count > 0 {
        Some(0)
    } else {
        None
    }
}

/// The name shown on the menu button for a selection.
pub open spec fn selected_label(names: Seq<Seq<char>>, selected: Option<usize>) -> Seq<char> {
    match selected {
        Some(i) => if i < names.len() {
            names[i as int]
        } else {
            no_microphone_label()
        },
        None => no_microphone_label(),
    }
}

/// The names of the menu entries, in menu order.
pub open spec fn group_names(groups: Seq<GroupView>) -> Seq<Seq<char>> {
    groups.map_values(|g: GroupView| g.name)
}

/// The names of the menu entries, in menu order.
pub fn menu_names(groups: &Vec<MicrophoneGroup>) -> (names: Vec<String>)
    ensures
        names.deep_view() == group_names(groups.deep_view()),
        names.len() == groups.len(),
        forall|k: int| 0 <= k < names.len() ==> (#[trigger] names[k])@ == groups[k].name@,
{
    let mut names: Vec<String> = Vec::new();
    let mut i: usize = 0;
    while i < groups.len()
        invariant
            i <= groups.len(),
            names.deep_view() == group_names(groups.deep_view()).subrange(0, i as int),
        decreases groups.len() - i,
    {
        let ghost before = names.deep_view();
        assert(groups[i as int].deep_view() == groups.deep_view()[i as int]);
        names.push(groups[i].name.clone());
        assert(names.deep_view() =~= before.push(groups.deep_view()[i as int].name));
        assert(group_names(groups.deep_view()).subrange(0, i + 1) =~= before.push(
            groups.deep_view()[i as int].name,
        ));
        i = i + 1;
    }
    assert(group_names(groups.deep_view()).subrange(0, i as int) =~= group_names(
        groups.deep_view(),
    ));
    proof {
        lemma_one_name_per_entry(groups.deep_view());
        assert forall|k: int| 0 <= k < names.len() implies (#[trigger] names[k])@
            == groups[k].name@ by {
            assert(names.deep_view()[k] == names[k]@);
            assert(groups.deep_view()[k] == groups[k].deep_view());
        }
    }
    names
}

/// The entry selected when the configuration window opens.
pub fn initial_microphone_selection(count: usize) -> (selected: Option<usize>)
    ensures
        selected == initial_selection(count as nat),
{
    if count > 0 {
        Some(0)
    } else {
        None
    }
}

/// The name shown on the menu button.
pub fn selected_microphone_name(names: &Vec<String>, selected: Option<usize>) -> (label: String)
    ensures
        label@ == selected_label(names.deep_view(), selected),
{
    match selected {
        Some(i) => if i < names.len() {
            names[i].clone()
        } else {
            String::from_str("No microphone found")
        },
        None => String::from_str("No microphone found"),
    }
}

/// One entry of the microphone menu: choosing it starts the menu entry at
/// `index`.
pub struct MenuEntry {
    pub index: usize,
    pub name: String,
}

/// The menu entries for these names, in order, each with its position.
pub fn microphone_menu_entries(names: Vec<String>) -> (entries: Vec<MenuEntry>)
    ensures
        entries.len() == names.len(),
        forall|k: int|
            0 <= k < entries.len() ==> (#[trigger] entries[k]).index == k && entries[k].name@
                == names[k]@,
{
    let mut entries: Vec<MenuEntry> = Vec::new();
    let mut i: usize = 0;
    while i < names.len()
        invariant
            i <= names.len(),
            entries.len() == i,
            forall|k: int|
                0 <= k < i ==> (#[trigger] entries[k]).index == k && entries[k].name@ == names[k]@,
        decreases names.len() - i,
    {
        entries.push(MenuEntry { index: i, name: names[i].clone() });
        i = i + 1;
    }
    entries
}

/// When the configuration window opens, the menu button names the first
/// entry of the menu, or says that no microphone was found when the menu
/// is empty.
pub proof fn lemma_initial_label(groups: Seq<GroupView>)
    ensures
        groups.len() > 0 ==> selected_label(
            group_names(groups),
            initial_selection(groups.len()),
        ) == groups[0].name,
        groups.len() == 0 ==> selected_label(
            group_names(groups),
            initial_selection(groups.len()),
        ) == no_microphone_label(),
{
}

/// Choosing the menu entry at position `k` starts the microphone of that
/// name, trying its devices; on success the menu button shows that name.
pub proof fn lemma_entry_starts_its_microphone(groups: Seq<GroupView>, k: int)
    requires
        0 <= k < groups.len(),
    ensures
        StartView::begin(groups, k).available,
        StartView::begin(groups, k).name == group_names(groups)[k],
        StartView::begin(groups, k).sources == groups[k].sources,
{
}

/// The menu lists one name per entry, in menu order: an empty menu lists
/// nothing, and the name at position `k` is that of entry `k`.
pub proof fn lemma_one_name_per_entry(groups: Seq<GroupView>)
    ensures
        group_names(groups).len() == groups.len(),
        forall|k: int| 0 <= k < groups.len() ==> #[trigger] group_names(groups)[k] == groups[k].name,
{
}

} // verus!
