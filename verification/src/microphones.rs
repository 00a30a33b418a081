//! Which microphones the user is offered.
//!
//! The audio host reports a default input device and a list of input
//! devices. The offer starts with a "System default" entry for the default
//! device; every listed device that is not the default joins the entry of
//! its display name, so devices that share a name are offered once. Where
//! only physical devices are wanted, the entries that are neither the system
//! default nor backed by a physical device are dropped.

use vstd::prelude::*;

verus! {

/// What the audio host reports of one input device.
pub struct DeviceInfo {
    /// The device's identifier, where the host could give one.
    pub id: Option<String>,
    /// The device's display name, where the host could give one.
    pub name: Option<String>,
}

/// The text of a [`DeviceInfo`].
pub struct DeviceInfoView {
    pub id: Option<Seq<char>>,
    pub name: Option<Seq<char>>,
}

impl DeepView for DeviceInfo {
    type V = DeviceInfoView;

    open spec fn deep_view(&self) -> DeviceInfoView {
        DeviceInfoView { id: self.id.deep_view(), name: self.name.deep_view() }
    }
}

/// Where a device of an entry comes from.
#[derive(Clone, Copy, Debug, PartialEq, Eq, Structural)]
pub enum DeviceSource {
    /// The host's default input device.
    DefaultInput,
    /// The device at this position of the host's device list.
    Listed(usize),
}

/// One entry of the microphone menu and the devices behind it, tried in
/// this order when the entry is chosen.
pub struct MicrophoneGroup {
    pub name: String,
    pub sources: Vec<DeviceSource>,
    /// Whether some device of the entry is a physical one.
    pub is_physical: bool,
}

/// The content of a [`MicrophoneGroup`].
pub struct GroupView {
    pub name: Seq<char>,
    pub sources: Seq<DeviceSource>,
    pub is_physical: bool,
}

impl DeepView for MicrophoneGroup {
    type V = GroupView;

    open spec fn deep_view(&self) -> GroupView {
        GroupView { name: self.name@, sources: self.sources@, is_physical: self.is_physical }
    }
}

/// The name of the entry for the default input device.
pub open spec fn system_default_name() -> Seq<char> {
    "System default"@
}

/// The name shown for a device that reports none.
pub open spec fn unnamed_device_name() -> Seq<char> {
    "Input device"@
}

/// The identifier prefix of physical (ALSA hardware) devices.
pub open spec fn physical_id_prefix() -> Seq<char> {
    "plughw:"@
}

/// `prefix` is a prefix of `s`.
pub open spec fn is_prefix(prefix: Seq<char>, s: Seq<char>) -> bool {
    prefix.len() <= s.len() && s.subrange(0, prefix.len() as int) == prefix
}

/// A device is physical when its identifier starts with the physical prefix.
pub open spec fn is_physical_id(id: Option<Seq<char>>) -> bool {
    match id {
        Some(id) => is_prefix(physical_id_prefix(), id),
        None => false,
    }
}

/// The name under which a device is offered.
pub open spec fn shown_name(name: Option<Seq<char>>) -> Seq<char> {
    match name {
        Some(name) => name,
        None => unnamed_device_name(),
    }
}

/// The identifier of the default device; `None` also when there is no
/// default device.
pub open spec fn default_id(default_input: Option<DeviceInfoView>) -> Option<Seq<char>> {
    match default_input {
        Some(device) => device.id,
        None => None,
    }
}

/// The entries before any listed device is looked at.
pub open spec fn initial_groups(default_input: Option<DeviceInfoView>) -> Seq<GroupView> {
    match default_input {
        Some(_) => seq![
            GroupView {
                name: system_default_name(),
                sources: seq![DeviceSource::DefaultInput],
                is_physical: false,
            },
        ],
        None => Seq::empty(),
    }
}

/// Some entry has this name.
pub open spec fn has_group_named(groups: Seq<GroupView>, name: Seq<char>) -> bool {
    exists|k: int| 0 <= k < groups.len() && #[trigger] groups[k].name == name
}

/// Adds a device to the entry of its name, or opens a new entry at the end.
pub open spec fn add_member(
    groups: Seq<GroupView>,
    name: Seq<char>,
    source: DeviceSource,
    physical: bool,
) -> Seq<GroupView> {
    if has_group_named(groups, name) {
        let k = choose|k: int| 0 <= k < groups.len() && #[trigger] groups[k].name == name;
        groups.update(
            k,
            GroupView {
                name,
                sources: groups[k].sources.push(source),
                is_physical: groups[k].is_physical || physical,
            },
        )
    } else {
        groups.push(GroupView { name, sources: seq![source], is_physical: physical })
    }
}

/// The entries once the first `n` listed devices are looked at. A listed
/// device whose identifier equals the default device's (both absent counts
/// as equal) is the default device again, and is passed over.
pub open spec fn grouped(
    default_input: Option<DeviceInfoView>,
    listed: Seq<DeviceInfoView>,
    n: nat,
) -> Seq<GroupView>
    decreases n,
{
    if n == 0 {
        initial_groups(default_input)
    } else {
        let before = grouped(default_input, listed, (n - 1) as nat);
        let device = listed[n - 1];
        if device.id == default_id(default_input) {
            before
        } else {
            add_member(
                before,
                shown_name(device.name),
                DeviceSource::Listed((n - 1) as usize),
                is_physical_id(device.id),
            )
        }
    }
}

/// Whether an entry survives when only physical devices are wanted.
pub open spec fn kept_when_physical_only(group: GroupView) -> bool {
    group.name == system_default_name() || group.is_physical
}

/// The microphone menu.
pub open spec fn discovered(
    default_input: Option<DeviceInfoView>,
    listed: Seq<DeviceInfoView>,
    physical_only: bool,
) -> Seq<GroupView> {
    let all = grouped(default_input, listed, listed.len());
    if physical_only {
        all.filter(|g: GroupView| kept_when_physical_only(g))
    } else {
        all
    }
}

/// No two entries share a name.
pub open spec fn names_distinct(groups: Seq<GroupView>) -> bool {
    forall|i: int, j: int|
        0 <= i < groups.len() && 0 <= j < groups.len() && i != j ==> #[trigger] groups[i].name
            != #[trigger] groups[j].name
}

/// Whether `s` begins with `prefix`, compared character by character.
fn starts_with(s: &str, prefix: &str) -> (b: bool)
    ensures
        b == is_prefix(prefix@, s@),
{
    let n = prefix.unicode_len();
    let m = s.unicode_len();
    if n > m {
        return false;
    }
    let mut i: usize = 0;
    while i < n
        invariant
            n == prefix@.len(),
            m == s@.len(),
            n <= m,
            i <= n,
            forall|j: int| 0 <= j < i ==> s@[j] == prefix@[j],
        decreases n - i,
    {
        if s.get_char(i) != prefix.get_char(i) {
            assert(s@.subrange(0, n as int)[i as int] != prefix@[i as int]);
            return false;
        }
        i = i + 1;
    }
    assert(s@.subrange(0, n as int) =~= prefix@);
    true
}

/// Whether a device identifier marks a physical device.
fn id_is_physical(id: &Option<String>) -> (b: bool)
    ensures
        b == is_physical_id(id.deep_view()),
{
    match id {
        Some(id) => starts_with(id.as_str(), "plughw:"),
        None => false,
    }
}

/// The name under which a device is offered.
fn name_to_show(name: &Option<String>) -> (shown: String)
    ensures
        shown@ == shown_name(name.deep_view()),
{
    match name {
        Some(name) => name.clone(),
        None => String::from_str("Input device"),
    }
}

/// Whether two optional texts are equal.
fn same_text(a: &Option<String>, b: &Option<String>) -> (eq: bool)
    ensures
        eq == (a.deep_view() == b.deep_view()),
{
    match (a, b) {
        (Some(x), Some(y)) => *x == *y,
        (None, None) => true,
        _ => false,
    }
}

fn copy_text(a: &Option<String>) -> (c: Option<String>)
    ensures
        c.deep_view() == a.deep_view(),
{
    match a {
        Some(x) => Some(x.clone()),
        None => None,
    }
}

proof fn lemma_add_member_keeps_names_distinct(
    groups: Seq<GroupView>,
    name: Seq<char>,
    source: DeviceSource,
    physical: bool,
)
    requires
        names_distinct(groups),
    ensures
        names_distinct(add_member(groups, name, source, physical)),
        has_group_named(add_member(groups, name, source, physical), name),
{
    let result = add_member(groups, name, source, physical);
    if has_group_named(groups, name) {
        let k = choose|k: int| 0 <= k < groups.len() && #[trigger] groups[k].name == name;
        assert(result[k].name == name);
        assert forall|i: int, j: int|
            0 <= i < result.len() && 0 <= j < result.len() && i != j implies #[trigger] result[i].name
            != #[trigger] result[j].name by {
            assert(result[i].name == groups[i].name);
            assert(result[j].name == groups[j].name);
        }
    } else {
        assert(result[groups.len() as int].name == name);
        assert forall|i: int, j: int|
            0 <= i < result.len() && 0 <= j < result.len() && i != j implies #[trigger] result[i].name
            != #[trigger] result[j].name by {
            if i < groups.len() && j < groups.len() {
                assert(result[i] == groups[i]);
                assert(result[j] == groups[j]);
            } else if i < groups.len() {
                assert(result[i] == groups[i]);
            } else {
                assert(result[j] == groups[j]);
            }
        }
    }
}

/// Every state of the grouping has distinct names.
proof fn lemma_grouped_names_distinct(
    default_input: Option<DeviceInfoView>,
    listed: Seq<DeviceInfoView>,
    n: nat,
)
    ensures
        names_distinct(grouped(default_input, listed, n)),
    decreases n,
{
    if n > 0 {
        lemma_grouped_names_distinct(default_input, listed, (n - 1) as nat);
        let before = grouped(default_input, listed, (n - 1) as nat);
        let device = listed[n - 1];
        if device.id != default_id(default_input) {
            lemma_add_member_keeps_names_distinct(
                before,
                shown_name(device.name),
                DeviceSource::Listed((n - 1) as usize),
                is_physical_id(device.id),
            );
        }
    }
}

/// Adds a device to the entry of its name, or opens a new entry at the end.
fn add_to_groups(
    groups: &mut Vec<MicrophoneGroup>,
    name: String,
    source: DeviceSource,
    physical: bool,
)
    requires
        names_distinct(old(groups).deep_view()),
    ensures
        final(groups).deep_view() == add_member(old(groups).deep_view(), name@, source, physical),
{
    let ghost before = groups.deep_view();
    let mut k: usize = 0;
    while k < groups.len()
        invariant
            groups.deep_view() == before,
            before == old(groups).deep_view(),
            names_distinct(before),
            k <= groups.len(),
            forall|j: int| 0 <= j < k ==> #[trigger] before[j].name != name@,
        decreases groups.len() - k,
    {
        if groups[k].name == name {
            assert(before[k as int].name == name@);
            let ghost c = choose|c: int| 0 <= c < before.len() && #[trigger] before[c].name == name@;
            assert(c == k);
            let mut group = groups.remove(k);
            group.sources.push(source);
            group.is_physical = group.is_physical || physical;
            groups.insert(k, group);
            assert(groups.deep_view() =~= add_member(before, name@, source, physical));
            return ;
        }
        k = k + 1;
    }
    assert(!has_group_named(before, name@));
    let mut sources: Vec<DeviceSource> = Vec::new();
    sources.push(source);
    groups.push(MicrophoneGroup { name, sources, is_physical: physical });
    assert(groups.deep_view() =~= add_member(before, name@, source, physical));
}

/// Drops the entries that are neither the system default nor physical.
fn keep_physical_groups(groups: Vec<MicrophoneGroup>) -> (kept: Vec<MicrophoneGroup>)
    ensures
        kept.deep_view() == groups.deep_view().filter(|g: GroupView| kept_when_physical_only(g)),
{
    let ghost all = groups.deep_view();
    let ghost pred = |g: GroupView| kept_when_physical_only(g);
    let mut rest = groups;
    let mut kept: Vec<MicrophoneGroup> = Vec::new();
    let ghost mut i: int = 0;
    let default_name = String::from_str("System default");
    while rest.len() > 0
        invariant
            0 <= i <= all.len(),
            rest.deep_view() == all.subrange(i, all.len() as int),
            kept.deep_view() == all.subrange(0, i).filter(pred),
            default_name@ == system_default_name(),
            pred == (|g: GroupView| kept_when_physical_only(g)),
        decreases rest.len(),
    {
        let ghost prev = rest@;
        let ghost prev_view = rest.deep_view();
        assert(prev_view.len() == rest@.len());
        assert(i < all.len());
        assert(prev_view[0] == all.subrange(i, all.len() as int)[0]);
        assert(prev_view[0] == all[i]);
        let group = rest.remove(0);
        proof {
            assert(group == prev[0]);
            assert(group.deep_view() == all[i]);
            assert(rest@ == prev.remove(0));
            assert forall|j: int| 0 <= j < rest@.len() implies #[trigger] rest.deep_view()[j]
                == all.subrange(i + 1, all.len() as int)[j] by {
                assert(rest@[j] == prev[j + 1]);
                assert(prev_view[j + 1] == all.subrange(i, all.len() as int)[j + 1]);
            }
            assert(rest.deep_view() =~= all.subrange(i + 1, all.len() as int));
            reveal(Seq::filter);
            assert(all.subrange(0, i + 1).drop_last() =~= all.subrange(0, i));
            assert(all.subrange(0, i + 1).last() == all[i]);
        }
        let ghost kept_before = kept.deep_view();
        let keep = group.name == default_name || group.is_physical;
        assert(keep == pred(all[i]));
        if keep {
            kept.push(group);
            assert(kept.deep_view() =~= kept_before.push(all[i]));
        }
        proof {
            reveal(Seq::filter);
            assert(all.subrange(0, i + 1).filter(pred) == (if pred(all[i]) {
                all.subrange(0, i).filter(pred).push(all[i])
            } else {
                all.subrange(0, i).filter(pred)
            }));
            i = i + 1;
        }
    }
    assert(all.subrange(0, i) =~= all);
    kept
}

/// Builds the microphone menu from what the audio host reports: its
/// default input device, if any, and its list of input devices. With
/// `physical_only`, entries that are neither the system default nor backed
/// by a physical device are left out.
pub fn group_microphones(
    default_input: Option<DeviceInfo>,
    listed: &Vec<DeviceInfo>,
    physical_only: bool,
) -> (groups: Vec<MicrophoneGroup>)
    ensures
        groups.deep_view() == discovered(default_input.deep_view(), listed.deep_view(), physical_only),
{
    let ghost d = default_input.deep_view();
    let ghost l = listed.deep_view();
    let default_device_id: Option<String> = match &default_input {
        Some(device) => copy_text(&device.id),
        None => None,
    };
    let mut groups: Vec<MicrophoneGroup> = Vec::new();
    if default_input.is_some() {
        let mut sources: Vec<DeviceSource> = Vec::new();
        sources.push(DeviceSource::DefaultInput);
        groups.push(
            MicrophoneGroup { name: String::from_str("System default"), sources, is_physical: false },
        );
    }
    assert(groups.deep_view() =~= initial_groups(d));
    let mut i: usize = 0;
    while i < listed.len()
        invariant
            i <= listed.len(),
            l == listed.deep_view(),
            default_device_id.deep_view() == default_id(d),
            groups.deep_view() == grouped(d, l, i as nat),
        decreases listed.len() - i,
    {
        proof {
            lemma_grouped_names_distinct(d, l, i as nat);
        }
        let device = &listed[i];
        assert(device.deep_view() == l[i as int]);
        if !same_text(&device.id, &default_device_id) {
            let name = name_to_show(&device.name);
            let physical = id_is_physical(&device.id);
            add_to_groups(&mut groups, name, DeviceSource::Listed(i), physical);
        }
        i = i + 1;
    }
    if physical_only {
        keep_physical_groups(groups)
    } else {
        groups
    }
}

/// A device of an entry belongs there: the default device only in the
/// "System default" entry, a listed device only when it is not the default
/// device again and its shown name is the entry's name.
pub open spec fn source_fits(
    default_input: Option<DeviceInfoView>,
    listed: Seq<DeviceInfoView>,
    group: GroupView,
    source: DeviceSource,
) -> bool {
    match source {
        DeviceSource::DefaultInput => default_input.is_some() && group.name
            == system_default_name(),
        DeviceSource::Listed(j) => {
            &&& j < listed.len()
            &&& listed[j as int].id != default_id(default_input)
            &&& shown_name(listed[j as int].name) == group.name
        },
    }
}

/// An entry is marked physical exactly when one of its listed devices has a
/// physical identifier.
pub open spec fn physical_flag_fits(listed: Seq<DeviceInfoView>, group: GroupView) -> bool {
    group.is_physical == exists|j: usize|
        #[trigger] group.sources.contains(DeviceSource::Listed(j)) && j < listed.len()
            && is_physical_id(listed[j as int].id)
}

/// Every device of the entry belongs there, and the physical mark is right.
pub open spec fn entry_sound(
    default_input: Option<DeviceInfoView>,
    listed: Seq<DeviceInfoView>,
    group: GroupView,
) -> bool {
    &&& forall|k: int|
        0 <= k < group.sources.len() ==> source_fits(
            default_input,
            listed,
            group,
            #[trigger] group.sources[k],
        )
    &&& physical_flag_fits(listed, group)
}

/// The listed device `j` is offered in the entry of its shown name.
pub open spec fn offered(menu: Seq<GroupView>, listed: Seq<DeviceInfoView>, j: usize) -> bool {
    exists|k: int|
        0 <= k < menu.len() && #[trigger] menu[k].name == shown_name(listed[j as int].name)
            && menu[k].sources.contains(DeviceSource::Listed(j))
}

/// The grouping after `n` listed devices: every entry is sound, every
/// device looked at so far (other than the default again) is offered, and
/// the default device opens the first entry.
proof fn lemma_grouped_structure(
    default_input: Option<DeviceInfoView>,
    listed: Seq<DeviceInfoView>,
    n: nat,
)
    requires
        n <= listed.len() <= usize::MAX,
    ensures
        forall|k: int|
            0 <= k < grouped(default_input, listed, n).len() ==> entry_sound(
                default_input,
                listed,
                #[trigger] grouped(default_input, listed, n)[k],
            ),
        forall|j: usize|
            j < n && listed[j as int].id != default_id(default_input) ==> #[trigger] offered(
                grouped(default_input, listed, n),
                listed,
                j,
            ),
        forall|k: int, m: int|
            0 <= k < grouped(default_input, listed, n).len() && 0 <= m < grouped(
                default_input,
                listed,
                n,
            )[k].sources.len() ==> (#[trigger] grouped(default_input, listed, n)[k].sources[m]
                matches DeviceSource::Listed(j) ==> j < n),
        default_input.is_some() ==> {
            let g = grouped(default_input, listed, n);
            &&& g.len() > 0
            &&& g[0].name == system_default_name()
            &&& g[0].sources.len() > 0
            &&& g[0].sources[0] == DeviceSource::DefaultInput
        },
    decreases n,
{
    broadcast use vstd::seq_lib::group_seq_properties;

    if n == 0 {
        let g = initial_groups(default_input);
        if default_input.is_some() {
            assert forall|k: int| 0 <= k < g.len() implies #[trigger] entry_sound(
                default_input,
                listed,
                g[k],
            ) by {
                assert(g[k].sources =~= seq![DeviceSource::DefaultInput]);
                if exists|j: usize|
                    #[trigger] g[k].sources.contains(DeviceSource::Listed(j)) && j < listed.len()
                        && is_physical_id(listed[j as int].id) {
                    let j = choose|j: usize|
                        #[trigger] g[k].sources.contains(DeviceSource::Listed(j)) && j
                            < listed.len() && is_physical_id(listed[j as int].id);
                    let m = choose|m: int|
                        0 <= m < g[k].sources.len() && g[k].sources[m] == DeviceSource::Listed(j);
                    assert(g[k].sources[m] == DeviceSource::DefaultInput);
                }
            }
        }
    } else {
        let prev_n = (n - 1) as nat;
        lemma_grouped_structure(default_input, listed, prev_n);
        lemma_grouped_names_distinct(default_input, listed, prev_n);
        let before = grouped(default_input, listed, prev_n);
        let after = grouped(default_input, listed, n);
        let device = listed[n - 1];
        let j0 = (n - 1) as usize;
        assert(j0 as int == n - 1);
        if device.id != default_id(default_input) {
            let name = shown_name(device.name);
            let physical = is_physical_id(device.id);
            let src = DeviceSource::Listed(j0);
            assert(after == add_member(before, name, src, physical));
            if has_group_named(before, name) {
                let c = choose|c: int| 0 <= c < before.len() && #[trigger] before[c].name == name;
                let updated = GroupView {
                    name,
                    sources: before[c].sources.push(src),
                    is_physical: before[c].is_physical || physical,
                };
                assert(after == before.update(c, updated));
                assert forall|k: int| 0 <= k < after.len() implies #[trigger] entry_sound(
                    default_input,
                    listed,
                    after[k],
                ) by {
                    if k == c {
                        assert(entry_sound(default_input, listed, before[c]));
                        assert forall|m: int| 0 <= m < updated.sources.len() implies source_fits(
                            default_input,
                            listed,
                            updated,
                            #[trigger] updated.sources[m],
                        ) by {
                            if m < before[c].sources.len() {
                                assert(source_fits(
                                    default_input,
                                    listed,
                                    before[c],
                                    before[c].sources[m],
                                ));
                            }
                        }
                        if updated.is_physical {
                            if physical {
                                assert(updated.sources.contains(src));
                            } else {
                                let j = choose|j: usize|
                                    #[trigger] before[c].sources.contains(DeviceSource::Listed(j))
                                        && j < listed.len() && is_physical_id(listed[j as int].id);
                                assert(updated.sources.contains(DeviceSource::Listed(j)));
                            }
                        }
                        if exists|j: usize|
                            #[trigger] updated.sources.contains(DeviceSource::Listed(j)) && j
                                < listed.len() && is_physical_id(listed[j as int].id) {
                            let j = choose|j: usize|
                                #[trigger] updated.sources.contains(DeviceSource::Listed(j)) && j
                                    < listed.len() && is_physical_id(listed[j as int].id);
                            if j != j0 {
                                assert(before[c].sources.contains(DeviceSource::Listed(j)));
                            }
                        }
                    } else {
                        assert(after[k] == before[k]);
                    }
                }
                assert forall|j: usize|
                    j < n && listed[j as int].id != default_id(default_input) implies #[trigger] offered(
                    after,
                    listed,
                    j,
                ) by {
                    if j == j0 {
                        assert(after[c].sources.contains(src));
                        assert(after[c].name == shown_name(listed[j as int].name));
                    } else {
                        assert(offered(before, listed, j));
                        let k = choose|k: int|
                            0 <= k < before.len() && #[trigger] before[k].name == shown_name(
                                listed[j as int].name,
                            ) && before[k].sources.contains(DeviceSource::Listed(j));
                        if k == c {
                            assert(after[k].sources.contains(DeviceSource::Listed(j)));
                        }
                        assert(after[k].name == before[k].name);
                        assert(after[k].sources.contains(DeviceSource::Listed(j)));
                    }
                }
                assert forall|k: int, m: int|
                    0 <= k < after.len() && 0 <= m < after[k].sources.len() implies (
                    #[trigger] after[k].sources[m] matches DeviceSource::Listed(j) ==> j < n) by {
                    if k == c {
                        if m < before[c].sources.len() {
                            assert(after[k].sources[m] == before[c].sources[m]);
                        }
                    } else {
                        assert(after[k] == before[k]);
                    }
                }
                if default_input.is_some() {
                    if c == 0 {
                        assert(after[0].sources[0] == before[0].sources[0]);
                    } else {
                        assert(after[0] == before[0]);
                    }
                }
            } else {
                let fresh = GroupView { name, sources: seq![src], is_physical: physical };
                assert(after == before.push(fresh));
                assert forall|k: int| 0 <= k < after.len() implies #[trigger] entry_sound(
                    default_input,
                    listed,
                    after[k],
                ) by {
                    if k == before.len() {
                        assert(after[k] == fresh);
                        if exists|j: usize|
                            #[trigger] fresh.sources.contains(DeviceSource::Listed(j)) && j
                                < listed.len() && is_physical_id(listed[j as int].id) {
                            let j = choose|j: usize|
                                #[trigger] fresh.sources.contains(DeviceSource::Listed(j)) && j
                                    < listed.len() && is_physical_id(listed[j as int].id);
                            let m = choose|m: int|
                                0 <= m < fresh.sources.len() && fresh.sources[m]
                                    == DeviceSource::Listed(j);
                            assert(fresh.sources[m] == src);
                        }
                        if physical {
                            assert(fresh.sources[0] == src);
                            assert(fresh.sources.contains(src));
                        }
                    } else {
                        assert(after[k] == before[k]);
                    }
                }
                assert forall|j: usize|
                    j < n && listed[j as int].id != default_id(default_input) implies #[trigger] offered(
                    after,
                    listed,
                    j,
                ) by {
                    if j == j0 {
                        let k = before.len() as int;
                        assert(after[k] == fresh);
                        assert(fresh.sources[0] == src);
                        assert(after[k].sources.contains(src));
                        assert(after[k].name == shown_name(listed[j as int].name));
                    } else {
                        assert(offered(before, listed, j));
                        let k = choose|k: int|
                            0 <= k < before.len() && #[trigger] before[k].name == shown_name(
                                listed[j as int].name,
                            ) && before[k].sources.contains(DeviceSource::Listed(j));
                        assert(after[k] == before[k]);
                        assert(after[k].name == shown_name(listed[j as int].name));
                    }
                }
                assert forall|k: int, m: int|
                    0 <= k < after.len() && 0 <= m < after[k].sources.len() implies (
                    #[trigger] after[k].sources[m] matches DeviceSource::Listed(j) ==> j < n) by {
                    if k < before.len() {
                        assert(after[k] == before[k]);
                    }
                }
                if default_input.is_some() {
                    assert(after[0] == before[0]);
                }
            }
        } else {
            assert(after == before);
            assert forall|j: usize|
                j < n && listed[j as int].id != default_id(default_input) implies #[trigger] offered(
                after,
                listed,
                j,
            ) by {
                assert(j != j0);
                assert(offered(before, listed, j));
            }
        }
    }
}

/// The position of a device in the host's report: the default device
/// before every listed one.
pub open spec fn list_position(source: DeviceSource) -> int {
    match source {
        DeviceSource::DefaultInput => -1,
        DeviceSource::Listed(j) => j as int,
    }
}

/// An entry's devices stand in the order in which the host reported them:
/// the default device can only come first, and listed devices follow their
/// list positions, each once.
pub open spec fn in_report_order(sources: Seq<DeviceSource>) -> bool {
    forall|a: int, b: int|
        0 <= a < b < sources.len() ==> list_position(#[trigger] sources[a]) < list_position(
            #[trigger] sources[b],
        )
}

/// Every entry of the grouping keeps its devices in report order.
proof fn lemma_grouped_in_order(default_input: Option<DeviceInfoView>, listed: Seq<DeviceInfoView>, n: nat)
    requires
        n <= listed.len() <= usize::MAX,
    ensures
        forall|k: int|
            0 <= k < grouped(default_input, listed, n).len() ==> in_report_order(
                #[trigger] grouped(default_input, listed, n)[k].sources,
            ),
    decreases n,
{
    if n == 0 {
        let g = initial_groups(default_input);
        assert forall|k: int| 0 <= k < g.len() implies in_report_order(#[trigger] g[k].sources) by {
            assert(g[k].sources.len() == 1);
        }
    } else {
        let prev_n = (n - 1) as nat;
        lemma_grouped_in_order(default_input, listed, prev_n);
        lemma_grouped_structure(default_input, listed, prev_n);
        let before = grouped(default_input, listed, prev_n);
        let after = grouped(default_input, listed, n);
        let device = listed[n - 1];
        let j0 = (n - 1) as usize;
        assert(j0 as int == n - 1);
        if device.id != default_id(default_input) {
            let name = shown_name(device.name);
            let src = DeviceSource::Listed(j0);
            if has_group_named(before, name) {
                let c = choose|c: int| 0 <= c < before.len() && #[trigger] before[c].name == name;
                let s0 = before[c].sources;
                let s1 = s0.push(src);
                assert(after[c].sources == s1);
                assert forall|k: int| 0 <= k < after.len() implies in_report_order(
                    #[trigger] after[k].sources,
                ) by {
                    if k == c {
                        assert forall|a: int, b: int| 0 <= a < b < s1.len() implies list_position(
                            #[trigger] s1[a],
                        ) < list_position(#[trigger] s1[b]) by {
                            assert(s1[a] == s0[a]);
                            if b < s0.len() {
                                assert(s1[b] == s0[b]);
                                assert(in_report_order(before[c].sources));
                            } else {
                                assert(s1[b] == src);
                                assert(before[c].sources[a] == s0[a]);
                            }
                        }
                    } else {
                        assert(after[k] == before[k]);
                    }
                }
            } else {
                let fresh = GroupView {
                    name,
                    sources: seq![src],
                    is_physical: is_physical_id(device.id),
                };
                assert(after == before.push(fresh));
                assert forall|k: int| 0 <= k < after.len() implies in_report_order(
                    #[trigger] after[k].sources,
                ) by {
                    if k < before.len() {
                        assert(after[k] == before[k]);
                    }
                }
            }
        }
    }
}

/// Every element of a filtered sequence comes from the sequence.
proof fn lemma_filter_from_source(s: Seq<GroupView>, pred: spec_fn(GroupView) -> bool)
    ensures
        forall|i: int| 0 <= i < s.filter(pred).len() ==> s.contains(#[trigger] s.filter(pred)[i]),
    decreases s.len(),
{
    reveal(Seq::filter);
    if s.len() > 0 {
        lemma_filter_from_source(s.drop_last(), pred);
        let rest = s.drop_last().filter(pred);
        assert forall|i: int| 0 <= i < s.filter(pred).len() implies s.contains(
            #[trigger] s.filter(pred)[i],
        ) by {
            if i < rest.len() {
                assert(s.filter(pred)[i] == rest[i]);
                assert(s.drop_last().contains(rest[i]));
                let m = choose|m: int| 0 <= m < s.drop_last().len() && s.drop_last()[m] == rest[i];
                assert(s[m] == rest[i]);
            } else {
                assert(s.filter(pred)[i] == s.last());
                assert(s[s.len() - 1] == s.last());
            }
        }
    }
}

/// Filtering keeps names distinct.
proof fn lemma_filter_names_distinct(s: Seq<GroupView>, pred: spec_fn(GroupView) -> bool)
    requires
        names_distinct(s),
    ensures
        names_distinct(s.filter(pred)),
    decreases s.len(),
{
    reveal(Seq::filter);
    if s.len() > 0 {
        let init = s.drop_last();
        assert(names_distinct(init)) by {
            assert forall|i: int, j: int|
                0 <= i < init.len() && 0 <= j < init.len() && i != j implies #[trigger] init[i].name
                != #[trigger] init[j].name by {
                assert(init[i] == s[i] && init[j] == s[j]);
            }
        }
        lemma_filter_names_distinct(init, pred);
        lemma_filter_from_source(init, pred);
        let rest = init.filter(pred);
        if pred(s.last()) {
            let out = rest.push(s.last());
            assert(s.filter(pred) == out);
            assert forall|i: int, j: int|
                0 <= i < out.len() && 0 <= j < out.len() && i != j implies #[trigger] out[i].name
                != #[trigger] out[j].name by {
                if i < rest.len() && j < rest.len() {
                    assert(out[i] == rest[i] && out[j] == rest[j]);
                } else if i < rest.len() {
                    assert(init.contains(rest[i]));
                    let m = choose|m: int| 0 <= m < init.len() && init[m] == rest[i];
                    assert(s[m] == out[i]);
                    assert(out[j] == s[s.len() - 1]);
                } else {
                    assert(init.contains(rest[j]));
                    let m = choose|m: int| 0 <= m < init.len() && init[m] == rest[j];
                    assert(s[m] == out[j]);
                    assert(out[i] == s[s.len() - 1]);
                }
            }
        }
    }
}

/// The menu offers each name once, and each entry is sound: the default
/// device only sits in the "System default" entry, each listed device sits
/// in the entry of its shown name and never when it is the default device
/// again, and an entry is marked physical exactly when one of its listed
/// devices has a physical identifier. When only physical devices are
/// wanted, each entry left is the system default or physical.
pub proof fn lemma_menu_sound(
    default_input: Option<DeviceInfoView>,
    listed: Seq<DeviceInfoView>,
    physical_only: bool,
)
    requires
        listed.len() <= usize::MAX,
    ensures
        names_distinct(discovered(default_input, listed, physical_only)),
        forall|k: int|
            0 <= k < discovered(default_input, listed, physical_only).len() ==> entry_sound(
                default_input,
                listed,
                #[trigger] discovered(default_input, listed, physical_only)[k],
            ),
        physical_only ==> forall|k: int|
            0 <= k < discovered(default_input, listed, physical_only).len()
                ==> kept_when_physical_only(
                #[trigger] discovered(default_input, listed, physical_only)[k],
            ),
        forall|k: int|
            0 <= k < discovered(default_input, listed, physical_only).len() ==> in_report_order(
                #[trigger] discovered(default_input, listed, physical_only)[k].sources,
            ),
{
    let all = grouped(default_input, listed, listed.len());
    let pred = |g: GroupView| kept_when_physical_only(g);
    lemma_grouped_structure(default_input, listed, listed.len());
    lemma_grouped_in_order(default_input, listed, listed.len());
    lemma_grouped_names_distinct(default_input, listed, listed.len());
    if physical_only {
        let menu = all.filter(pred);
        lemma_filter_names_distinct(all, pred);
        lemma_filter_from_source(all, pred);
        #[allow(deprecated)]
        all.filter_lemma(pred);
        assert forall|k: int| 0 <= k < menu.len() implies #[trigger] entry_sound(
            default_input,
            listed,
            menu[k],
        ) by {
            assert(all.contains(menu[k]));
            let m = choose|m: int| 0 <= m < all.len() && all[m] == menu[k];
            assert(entry_sound(default_input, listed, all[m]));
        }
        assert forall|k: int| 0 <= k < menu.len() implies in_report_order(
            #[trigger] menu[k].sources,
        ) by {
            assert(all.contains(menu[k]));
            let m = choose|m: int| 0 <= m < all.len() && all[m] == menu[k];
            assert(in_report_order(all[m].sources));
        }
    }
}

/// The menu offers every device: the default device first, under "System
/// default", and every listed device that is not the default device again
/// in the entry of its shown name. When only physical devices are wanted,
/// this still holds of every listed device with a physical identifier.
pub proof fn lemma_menu_complete(
    default_input: Option<DeviceInfoView>,
    listed: Seq<DeviceInfoView>,
    physical_only: bool,
)
    requires
        listed.len() <= usize::MAX,
    ensures
        forall|j: usize|
            j < listed.len() && listed[j as int].id != default_id(default_input) && (!physical_only
                || is_physical_id(listed[j as int].id)) ==> #[trigger] offered(
                discovered(default_input, listed, physical_only),
                listed,
                j,
            ),
        default_input.is_some() ==> {
            let menu = discovered(default_input, listed, physical_only);
            &&& menu.len() > 0
            &&& menu[0].name == system_default_name()
            &&& menu[0].sources.len() > 0
            &&& menu[0].sources[0] == DeviceSource::DefaultInput
        },
{
    broadcast use vstd::seq_lib::group_seq_properties;

    let all = grouped(default_input, listed, listed.len());
    let pred = |g: GroupView| kept_when_physical_only(g);
    lemma_grouped_structure(default_input, listed, listed.len());
    lemma_grouped_names_distinct(default_input, listed, listed.len());
    if physical_only {
        let menu = all.filter(pred);
        #[allow(deprecated)]
        all.filter_lemma(pred);
        assert forall|j: usize|
            j < listed.len() && listed[j as int].id != default_id(default_input)
                && is_physical_id(listed[j as int].id) implies #[trigger] offered(
            menu,
            listed,
            j,
        ) by {
            assert(offered(all, listed, j));
            let k = choose|k: int|
                0 <= k < all.len() && #[trigger] all[k].name == shown_name(listed[j as int].name)
                    && all[k].sources.contains(DeviceSource::Listed(j));
            assert(entry_sound(default_input, listed, all[k]));
            assert(all[k].is_physical);
            assert(pred(all[k]));
            assert(menu.contains(all[k]));
            let m = choose|m: int| 0 <= m < menu.len() && menu[m] == all[k];
            assert(menu[m].name == shown_name(listed[j as int].name));
        }
        if default_input.is_some() {
            assert(pred(all[0]));
            reveal(Seq::filter);
            assert(all =~= seq![all[0]] + all.subrange(1, all.len() as int));
            Seq::filter_distributes_over_add(seq![all[0]], all.subrange(1, all.len() as int), pred);
            assert(seq![all[0]].drop_last() =~= Seq::<GroupView>::empty());
            assert(seq![all[0]].filter(pred) =~= seq![all[0]]);
            assert(menu[0] == all[0]);
        }
    }
}

} // verus!
