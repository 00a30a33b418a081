//! Starting a microphone and reporting on it.
//!
//! Choosing a menu entry tries its devices in order until one starts; the
//! outcome of each try comes from the audio host. [`MicrophoneStart`] holds
//! where such a run stands and says what to do next; [`MicrophoneStatus`]
//! holds what the level meter reports.

use vstd::prelude::*;
use crate::microphones::{DeviceSource, GroupView, MicrophoneGroup};

verus! {

/// Reported when the chosen menu entry does not exist.
pub open spec fn unavailable_message() -> Seq<char> {
    "The selected microphone is no longer available"@
}

/// Reported at startup when the menu is empty.
pub open spec fn no_default_message() -> Seq<char> {
    "No default input device is available"@
}

/// The reason given when an entry has no device to try.
pub open spec fn no_config_detail() -> Seq<char> {
    "no compatible input configuration"@
}

/// Reported when no device of the entry `name` could be started; the detail
/// is the error of the last device tried.
pub open spec fn failure_message(name: Seq<char>, last_error: Option<Seq<char>>) -> Seq<char> {
    let detail = match last_error {
        Some(e) => e,
        None => no_config_detail(),
    };
    "Could not start "@ + name + ": "@ + detail
}

/// What to do next while starting a microphone.
pub enum StartStep {
    /// Try to start this device.
    Try(DeviceSource),
    /// Give up; report this message.
    Failed(String),
}

/// The content of a [`StartStep`].
pub enum StartStepView {
    Try(DeviceSource),
    Failed(Seq<char>),
}

impl DeepView for StartStep {
    type V = StartStepView;

    open spec fn deep_view(&self) -> StartStepView {
        match self {
            StartStep::Try(source) => StartStepView::Try(*source),
            StartStep::Failed(message) => StartStepView::Failed(message@),
        }
    }
}

/// Where a run of start attempts stands.
pub struct StartView {
    /// Whether the chosen entry exists.
    pub available: bool,
    /// The entry's name.
    pub name: Seq<char>,
    /// The entry's devices, in the order in which they are tried.
    pub sources: Seq<DeviceSource>,
    /// How many devices failed so far.
    pub next: nat,
    /// The error of the last device that failed.
    pub last_error: Option<Seq<char>>,
}

impl StartView {
    /// The run for entry `index` of the menu, before any attempt.
    pub open spec fn begin(groups: Seq<GroupView>, index: int) -> StartView {
        if 0 <= index < groups.len() {
            StartView {
                available: true,
                name: groups[index].name,
                sources: groups[index].sources,
                next: 0,
                last_error: None,
            }
        } else {
            StartView {
                available: false,
                name: Seq::empty(),
                sources: Seq::empty(),
                next: 0,
                last_error: None,
            }
        }
    }

    /// What to do next.
    pub open spec fn step(self) -> StartStepView {
        if !self.available {
            StartStepView::Failed(unavailable_message())
        } else if self.next < self.sources.len() {
            StartStepView::Try(self.sources[self.next as int])
        } else {
            StartStepView::Failed(failure_message(self.name, self.last_error))
        }
    }

    /// The run after the device being tried failed with `error`.
    pub open spec fn fail(self, error: Seq<char>) -> StartView {
        if self.available && self.next < self.sources.len() {
            StartView { next: self.next + 1, last_error: Some(error), ..self }
        } else {
            self
        }
    }

    /// The run after the devices being tried failed with these errors, in
    /// order.
    pub open spec fn fail_all(self, errors: Seq<Seq<char>>) -> StartView
        decreases errors.len(),
    {
        if errors.len() == 0 {
            self
        } else {
            self.fail_all(errors.drop_last()).fail(errors.last())
        }
    }
}

/// A run of attempts to start the devices of one menu entry.
pub struct MicrophoneStart {
    available: bool,
    name: String,
    sources: Vec<DeviceSource>,
    next: usize,
    last_error: Option<String>,
}

impl View for MicrophoneStart {
    type V = StartView;

    closed spec fn view(&self) -> StartView {
        StartView {
            available: self.available,
            name: self.name@,
            sources: self.sources@,
            next: self.next as nat,
            last_error: self.last_error.deep_view(),
        }
    }
}

impl MicrophoneStart {
    /// Begins starting menu entry `index`.
    pub fn new(groups: &Vec<MicrophoneGroup>, index: usize) -> (s: MicrophoneStart)
        ensures
            s@ == StartView::begin(groups.deep_view(), index as int),
    {
        if index < groups.len() {
            let group = &groups[index];
            assert(group.deep_view() == groups.deep_view()[index as int]);
            MicrophoneStart {
                available: true,
                name: group.name.clone(),
                sources: group.sources.clone(),
                next: 0,
                last_error: None,
            }
        } else {
            MicrophoneStart {
                available: false,
                name: String::new(),
                sources: Vec::new(),
                next: 0,
                last_error: None,
            }
        }
    }

    /// The name of the entry being started.
    pub fn name(&self) -> (name: String)
        ensures
            name@ == self@.name,
    {
        self.name.clone()
    }

    /// What to do next: try the next device, or give up with a message.
    pub fn next_step(&self) -> (step: StartStep)
        ensures
            step.deep_view() == self@.step(),
    {
        if !self.available {
            StartStep::Failed(String::from_str("The selected microphone is no longer available"))
        } else if self.next < self.sources.len() {
            StartStep::Try(self.sources[self.next])
        } else {
            let mut message = String::from_str("Could not start ");
            message.append(self.name.as_str());
            message.append(": ");
            match &self.last_error {
                Some(error) => message.append(error.as_str()),
                None => message.append("no compatible input configuration"),
            }
            StartStep::Failed(message)
        }
    }

    /// The device being tried could not be started, for this reason.
    pub fn attempt_failed(&mut self, error: String)
        ensures
            final(self)@ == old(self)@.fail(error@),
    {
        if self.available && self.next < self.sources.len() {
            self.next = self.next + 1;
            self.last_error = Some(error);
        }
    }
}

/// At startup the first menu entry is started; with an empty menu there is
/// nothing to start and the error is reported instead.
pub fn start_default(groups: &Vec<MicrophoneGroup>) -> (start: Result<MicrophoneStart, String>)
    ensures
        groups.len() == 0 <==> start is Err,
        start matches Err(message) ==> message@ == no_default_message(),
        start matches Ok(s) ==> s@ == StartView::begin(groups.deep_view(), 0),
{
    if groups.len() == 0 {
        Err(String::from_str("No default input device is available"))
    } else {
        Ok(MicrophoneStart::new(groups, 0))
    }
}

/// What the level meter shows.
pub enum LevelLabel {
    /// This text.
    Text(String),
    /// The measured level, in dBFS.
    Decibels,
}

/// The content of a [`LevelLabel`].
pub enum LevelLabelView {
    Text(Seq<char>),
    Decibels,
}

impl DeepView for LevelLabel {
    type V = LevelLabelView;

    open spec fn deep_view(&self) -> LevelLabelView {
        match self {
            LevelLabel::Text(text) => LevelLabelView::Text(text@),
            LevelLabel::Decibels => LevelLabelView::Decibels,
        }
    }
}

/// The state the level meter reports on.
pub struct StatusView {
    /// The last error, cleared when a microphone starts.
    pub error: Option<Seq<char>>,
    /// Whether a microphone stream is running.
    pub capturing: bool,
}

impl StatusView {
    /// An error is shown in place of the level; without a stream the level
    /// is unavailable.
    pub open spec fn label(self) -> LevelLabelView {
        match self.error {
            Some(error) => LevelLabelView::Text("Level: "@ + error),
            None => if self.capturing {
                LevelLabelView::Decibels
            } else {
                LevelLabelView::Text("Level: unavailable"@)
            },
        }
    }
}

/// Whether a microphone runs, and the last error.
pub struct MicrophoneStatus {
    error: Option<String>,
    capturing: bool,
}

impl View for MicrophoneStatus {
    type V = StatusView;

    closed spec fn view(&self) -> StatusView {
        StatusView { error: self.error.deep_view(), capturing: self.capturing }
    }
}

impl MicrophoneStatus {
    /// Nothing started, no error.
    pub fn new() -> (s: MicrophoneStatus)
        ensures
            s@ == (StatusView { error: None, capturing: false }),
    {
        MicrophoneStatus { error: None, capturing: false }
    }

    /// The last error, if any.
    pub fn error(&self) -> (e: Option<String>)
        ensures
            e.deep_view() == self@.error,
    {
        match &self.error {
            Some(e) => Some(e.clone()),
            None => None,
        }
    }

    pub fn is_capturing(&self) -> (b: bool)
        ensures
            b == self@.capturing,
    {
        self.capturing
    }

    /// A microphone started: its stream replaces any earlier one and the
    /// error is cleared.
    pub fn started(&mut self)
        ensures
            final(self)@ == (StatusView { error: None, capturing: true }),
    {
        self.error = None;
        self.capturing = true;
    }

    /// Starting a microphone failed with this message; a stream that was
    /// running before keeps running.
    pub fn failed(&mut self, message: String)
        ensures
            final(self)@ == (StatusView { error: Some(message@), capturing: old(self)@.capturing }),
    {
        self.error = Some(message);
    }

    /// What the level meter shows.
    pub fn level_label(&self) -> (label: LevelLabel)
        ensures
            label.deep_view() == self@.label(),
    {
        match &self.error {
            Some(error) => {
                let mut text = String::from_str("Level: ");
                text.append(error.as_str());
                LevelLabel::Text(text)
            },
            None => if self.capturing {
                LevelLabel::Decibels
            } else {
                LevelLabel::Text(String::from_str("Level: unavailable"))
            },
        }
    }
}

/// Starting an entry tries its devices one after the other, in menu order,
/// each once: after `k` failures the next step tries device `k`; once every
/// device failed, the run gives up with a message naming the entry and the
/// last device's error (or, for an entry without devices, saying that no
/// compatible input configuration was found).
pub proof fn lemma_devices_tried_in_order(groups: Seq<GroupView>, index: int, errors: Seq<Seq<char>>)
    requires
        0 <= index < groups.len(),
        errors.len() <= groups[index].sources.len(),
    ensures
        ({
            let run = StartView::begin(groups, index).fail_all(errors);
            &&& run.next == errors.len()
            &&& errors.len() < groups[index].sources.len() ==> run.step() == StartStepView::Try(
                groups[index].sources[errors.len() as int],
            )
            &&& errors.len() == groups[index].sources.len() ==> run.step()
                == StartStepView::Failed(
                failure_message(
                    groups[index].name,
                    if errors.len() == 0 {
                        None
                    } else {
                        Some(errors.last())
                    },
                ),
            )
        }),
    decreases errors.len(),
{
    let start = StartView::begin(groups, index);
    let run = start.fail_all(errors);
    if errors.len() > 0 {
        lemma_devices_tried_in_order(groups, index, errors.drop_last());
        let before = start.fail_all(errors.drop_last());
        assert(before.available && before.name == start.name && before.sources == start.sources)
            by {
            lemma_fail_all_keeps_entry(start, errors.drop_last());
        }
        assert(run == before.fail(errors.last()));
    }
}

/// Failures change neither the entry nor whether it exists.
proof fn lemma_fail_all_keeps_entry(run: StartView, errors: Seq<Seq<char>>)
    ensures
        run.fail_all(errors).available == run.available,
        run.fail_all(errors).name == run.name,
        run.fail_all(errors).sources == run.sources,
    decreases errors.len(),
{
    if errors.len() > 0 {
        lemma_fail_all_keeps_entry(run, errors.drop_last());
    }
}

/// Choosing an entry that is not in the menu tries no device and reports
/// that the microphone is no longer available.
pub proof fn lemma_missing_entry_tries_nothing(
    groups: Seq<GroupView>,
    index: int,
    errors: Seq<Seq<char>>,
)
    requires
        !(0 <= index < groups.len()),
    ensures
        StartView::begin(groups, index).fail_all(errors).step() == StartStepView::Failed(
            unavailable_message(),
        ),
{
    lemma_fail_all_keeps_entry(StartView::begin(groups, index), errors);
}

/// After a microphone starts the meter shows the measured level, whatever
/// came before; after a failure it shows the failure message.
pub proof fn lemma_meter_follows_outcome(status: StatusView, message: Seq<char>)
    ensures
        (StatusView { error: None, capturing: true }).label() == LevelLabelView::Decibels,
        (StatusView { error: Some(message), capturing: status.capturing }).label()
            == LevelLabelView::Text("Level: "@ + message),
{
}

} // verus!
