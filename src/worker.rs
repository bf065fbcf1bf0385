//! The worker loop, as a state machine free of I/O.
//!
//! The machine never touches a device. Each call of [`Worker::step`] takes the
//! outcome of the exchange that the previous action asked for and returns the
//! next action; the driver performs it and reports back. One polling cycle
//! reads every open source, combines the readings, writes every open receiver
//! and then sleeps. A failed source read (in transport or in decoding) or a
//! failed send marks the slot unavailable and asks for one reopen attempt with
//! the slot's identity; a failed read-back of a receiver's own state merges
//! with 0 instead. Only a cleared run signal ends the loop, after a zero report
//! to every receiver that is still open.

use vstd::prelude::*;
use vstd::slice::slice_to_vec;
use crate::classify::{determine_report_format, first_match, spec_format_rules};
use crate::config::{ModifiersArray, ShiftModifiers};
use crate::device::{device_index_for, find_device_index_for_saved, SavedDevice, VpcDevice};
use crate::merge::{combine_states, combined_value, merge_receiver_state, receiver_value, SourceReading};
use crate::report::{ReportFormat, MAX_REPORT_SIZE};

verus! {

/// Pause between two polling cycles, in milliseconds.
pub const WORKER_SLEEP_MS: u64 = 100;

/// A configured slot together with the report layout its device uses.
#[derive(Clone, Debug)]
pub struct DeviceWorkerInfo {
    pub config: SavedDevice,
    pub format: ReportFormat,
}

/// The name of the catalog entry that slot `s` selects, or the empty text.
pub open spec fn slot_device_name(list: Seq<VpcDevice>, s: SavedDevice) -> Seq<char> {
    let i = device_index_for(list, s);
    if i != 0 && i < list.len() { (*list[i].name)@ } else { Seq::empty() }
}

/// The firmware string of the catalog entry that slot `s` selects, or the empty text.
pub open spec fn slot_device_firmware(list: Seq<VpcDevice>, s: SavedDevice) -> Seq<char> {
    let i = device_index_for(list, s);
    if i != 0 && i < list.len() { (*list[i].firmware)@ } else { Seq::empty() }
}

/// The layout that slot `s` uses, judged from the catalog entry it selects.
pub open spec fn slot_format(list: Seq<VpcDevice>, s: SavedDevice) -> ReportFormat {
    first_match(spec_format_rules(), slot_device_name(list, s), slot_device_firmware(list, s))
}

/// Resolves each configured slot against the device catalog: the slot's
/// device supplies the name and firmware string that choose its layout; a slot
/// whose device is not in the catalog is judged on empty strings.
pub fn resolve_worker_infos(slots: &Vec<SavedDevice>, device_list: &[VpcDevice]) -> (r: Vec<
    DeviceWorkerInfo,
>)
    ensures
        r@.len() == slots@.len(),
        forall|i: int|
            0 <= i < slots@.len() ==> (#[trigger] r@[i]).config == slots@[i] && r@[i].format
                == slot_format(device_list@, slots@[i]),
{
    let mut infos: Vec<DeviceWorkerInfo> = Vec::new();
    let mut i: usize = 0;
    while i < slots.len()
        invariant
            i <= slots@.len(),
            infos@.len() == i,
            forall|j: int|
                0 <= j < i ==> (#[trigger] infos@[j]).config == slots@[j] && infos@[j].format
                    == slot_format(device_list@, slots@[j]),
        decreases slots.len() - i,
    {
        let slot = &slots[i];
        let idx = find_device_index_for_saved(device_list, slot);
        let format = if idx != 0 && idx < device_list.len() {
            let name = device_list[idx].name.as_str();
            let firmware = device_list[idx].firmware.as_str();
            assert(name@ == slot_device_name(device_list@, slots@[i as int]));
            assert(firmware@ == slot_device_firmware(device_list@, slots@[i as int]));
            determine_report_format(name, firmware)
        } else {
            proof {
                reveal_strlit("");
            }
            assert(""@ == slot_device_name(device_list@, slots@[i as int]));
            determine_report_format("", "")
        };
        assert(format == slot_format(device_list@, slots@[i as int]));
        infos.push(DeviceWorkerInfo { config: slot.duplicate(), format });
        i = i + 1;
    }
    infos
}

/// Which list of slots an action concerns.
#[derive(Clone, Copy, Debug, PartialEq, Eq, Structural)]
pub enum SlotGroup {
    Sources,
    Receivers,
}

/// Where the machine stands: which exchange it waits for.
#[derive(Clone, Copy, Debug, PartialEq, Eq, Structural)]
pub enum WorkerStage {
    /// Starting: waits for the opening of source `i`.
    OpeningSource(usize),
    /// Starting: waits for the opening of receiver `i`.
    OpeningReceiver(usize),
    /// Waits for the run signal at the top of a cycle.
    CheckingRun,
    /// Waits for the report read from source `i`.
    ReadingSource(usize),
    /// Waits for the reopening of source `i` after a failure.
    ReopeningSource(usize),
    /// Waits for the zero report sent to receiver `i`.
    ClearingReceiver(usize),
    /// Waits for receiver `i`'s own state, read back.
    ReadingBack(usize),
    /// Waits for the final report, carrying the given state, sent to receiver `i`.
    SendingState(usize, u16),
    /// Waits for the reopening of receiver `i` after a failure.
    ReopeningReceiver(usize),
    /// Waits for the end of the pause between cycles.
    Sleeping,
    /// Stopping: waits for the zero report sent to receiver `i`.
    ReleasingReceiver(usize),
    /// The loop has ended; the driver releases every handle.
    Stopped,
}

/// What the driver is asked to do next.
#[derive(Debug)]
pub enum WorkerAction {
    /// Open the device by vendor and product id, qualified by the serial
    /// number when there is one, and put it into non-blocking mode; a failure
    /// of either is a failed opening.
    Open {
        group: SlotGroup,
        index: usize,
        vendor_id: u16,
        product_id: u16,
        serial_number: Option<String>,
    },
    /// Read the run signal.
    CheckRunSignal,
    /// Read a feature report of `size` bytes whose first byte is `report_id`.
    ReadReport { group: SlotGroup, index: usize, report_id: u8, size: usize },
    /// Send this feature report.
    SendReport { group: SlotGroup, index: usize, report: Vec<u8> },
    /// Pause.
    Sleep { millis: u64 },
    /// Release every handle; the loop is over.
    Release,
}

/// The outcome of the last action, reported by the driver.
#[derive(Debug)]
pub enum WorkerEvent {
    /// Whether the device opened, in non-blocking mode.
    Opened(bool),
    /// The run signal; a signal that cannot be read counts as cleared.
    RunSignal(bool),
    /// The bytes received, or `None` on a transport error.
    ReportRead(Option<Vec<u8>>),
    /// Whether the report went out.
    ReportSent(bool),
    /// The pause is over.
    Slept,
}

impl WorkerEvent {
    /// The device opened.
    pub open spec fn opened(self) -> bool {
        self matches WorkerEvent::Opened(true)
    }

    /// The run signal asks the loop to go on.
    pub open spec fn keep_running(self) -> bool {
        self matches WorkerEvent::RunSignal(true)
    }

    /// The report went out.
    pub open spec fn sent(self) -> bool {
        self matches WorkerEvent::ReportSent(true)
    }

    /// The bytes received, if a read succeeded.
    pub open spec fn received(self) -> Option<Seq<u8>> {
        match self {
            WorkerEvent::ReportRead(Some(data)) => Some(data@),
            _ => None,
        }
    }
}

/// An action, with its byte and character buffers as sequences.
pub enum ActionView {
    Open {
        group: SlotGroup,
        index: usize,
        vendor_id: u16,
        product_id: u16,
        serial_number: Option<Seq<char>>,
    },
    CheckRunSignal,
    ReadReport { group: SlotGroup, index: usize, report_id: u8, size: usize },
    SendReport { group: SlotGroup, index: usize, report: Seq<u8> },
    Sleep { millis: u64 },
    Release,
}

impl View for WorkerAction {
    type V = ActionView;

    open spec fn view(&self) -> ActionView {
        match self {
            WorkerAction::Open { group, index, vendor_id, product_id, serial_number } => {
                ActionView::Open {
                    group: *group,
                    index: *index,
                    vendor_id: *vendor_id,
                    product_id: *product_id,
                    serial_number: match serial_number {
                        Some(s) => Some(s@),
                        None => None,
                    },
                }
            },
            WorkerAction::CheckRunSignal => ActionView::CheckRunSignal,
            WorkerAction::ReadReport { group, index, report_id, size } => ActionView::ReadReport {
                group: *group,
                index: *index,
                report_id: *report_id,
                size: *size,
            },
            WorkerAction::SendReport { group, index, report } => ActionView::SendReport {
                group: *group,
                index: *index,
                report: report@,
            },
            WorkerAction::Sleep { millis } => ActionView::Sleep { millis: *millis },
            WorkerAction::Release => ActionView::Release,
        }
    }
}

/// The state of the machine.
#[verifier::ext_equal]
pub struct WorkerModel {
    pub sources: Seq<DeviceWorkerInfo>,
    pub receivers: Seq<DeviceWorkerInfo>,
    pub rules: Seq<ShiftModifiers>,
    /// Which sources hold an open handle.
    pub source_open: Seq<bool>,
    /// Which receivers hold an open handle.
    pub receiver_open: Seq<bool>,
    /// This cycle's decoded source states; `None` for an unavailable source.
    pub readings: Seq<Option<u16>>,
    /// The published state of each source.
    pub source_states: Seq<u16>,
    /// The published state of each receiver: the last state sent, or 0.
    pub receiver_states: Seq<u16>,
    /// The published combined state.
    pub combined: u16,
    pub stage: WorkerStage,
}

/// The slot can be opened: neither of its ids is zero.
pub open spec fn is_openable(c: SavedDevice) -> bool {
    c.vendor_id != 0 && c.product_id != 0
}

/// The first openable slot at or after `from`, or the number of slots.
pub open spec fn next_openable(infos: Seq<DeviceWorkerInfo>, from: int) -> int
    decreases infos.len() - from,
{
    if from >= infos.len() {
        infos.len() as int
    } else if is_openable(infos[from].config) {
        from
    } else {
        next_openable(infos, from + 1)
    }
}

/// The first slot at or after `from` with an open handle, or the number of slots.
pub open spec fn next_open(open: Seq<bool>, from: int) -> int
    decreases open.len() - from,
{
    if from >= open.len() {
        open.len() as int
    } else if open[from] {
        from
    } else {
        next_open(open, from + 1)
    }
}

pub open spec fn open_action(group: SlotGroup, index: int, info: DeviceWorkerInfo) -> ActionView {
    ActionView::Open {
        group,
        index: index as usize,
        vendor_id: info.config.vendor_id,
        product_id: info.config.product_id,
        serial_number: if info.config.serial_number@.len() == 0 {
            None
        } else {
            Some(info.config.serial_number@)
        },
    }
}

pub open spec fn read_action(group: SlotGroup, index: int, info: DeviceWorkerInfo) -> ActionView {
    ActionView::ReadReport {
        group,
        index: index as usize,
        report_id: info.format.spec_report_id(),
        size: info.format.spec_total_size(),
    }
}

pub open spec fn send_action(group: SlotGroup, index: int, info: DeviceWorkerInfo, state: u16) -> ActionView {
    ActionView::SendReport { group, index: index as usize, report: info.format.packed(state) }
}

/// The readings of a cycle paired with the bits each source enables.
pub open spec fn source_readings(m: WorkerModel) -> Seq<SourceReading> {
    Seq::new(
        m.sources.len(),
        |i: int| SourceReading { state: m.readings[i], enabled: m.sources[i].config.state_enabled },
    )
}

/// Starting: open the configured sources from `from` on, then the receivers.
pub open spec fn open_sources_from(m: WorkerModel, from: int) -> (WorkerModel, ActionView) {
    let j = next_openable(m.sources, from);
    if j < m.sources.len() {
        (
            WorkerModel { stage: WorkerStage::OpeningSource(j as usize), ..m },
            open_action(SlotGroup::Sources, j, m.sources[j]),
        )
    } else {
        open_receivers_from(m, 0)
    }
}

/// Starting: open the configured receivers from `from` on, then poll.
pub open spec fn open_receivers_from(m: WorkerModel, from: int) -> (WorkerModel, ActionView) {
    let j = next_openable(m.receivers, from);
    if j < m.receivers.len() {
        (
            WorkerModel { stage: WorkerStage::OpeningReceiver(j as usize), ..m },
            open_action(SlotGroup::Receivers, j, m.receivers[j]),
        )
    } else {
        (WorkerModel { stage: WorkerStage::CheckingRun, ..m }, ActionView::CheckRunSignal)
    }
}

/// Polling: read the open sources from `from` on; after the last one, combine
/// and publish the readings and go on to the receivers.
pub open spec fn read_sources_from(m: WorkerModel, from: int) -> (WorkerModel, ActionView) {
    let j = next_open(m.source_open, from);
    if j < m.sources.len() {
        (
            WorkerModel { stage: WorkerStage::ReadingSource(j as usize), ..m },
            read_action(SlotGroup::Sources, j, m.sources[j]),
        )
    } else {
        write_receivers_from(
            WorkerModel { combined: combined_value(m.rules, source_readings(m)), ..m },
            0,
        )
    }
}

/// Polling: write the open receivers from `from` on, then pause.
pub open spec fn write_receivers_from(m: WorkerModel, from: int) -> (WorkerModel, ActionView) {
    let j = next_open(m.receiver_open, from);
    if j < m.receivers.len() {
        (
            WorkerModel { stage: WorkerStage::ClearingReceiver(j as usize), ..m },
            send_action(SlotGroup::Receivers, j, m.receivers[j], 0),
        )
    } else {
        (
            WorkerModel { stage: WorkerStage::Sleeping, ..m },
            ActionView::Sleep { millis: WORKER_SLEEP_MS },
        )
    }
}

/// Stopping: send a zero report to the open receivers from `from` on, then
/// release every handle.
pub open spec fn release_receivers_from(m: WorkerModel, from: int) -> (WorkerModel, ActionView) {
    let j = next_open(m.receiver_open, from);
    if j < m.receivers.len() {
        (
            WorkerModel { stage: WorkerStage::ReleasingReceiver(j as usize), ..m },
            send_action(SlotGroup::Receivers, j, m.receivers[j], 0),
        )
    } else {
        (WorkerModel { stage: WorkerStage::Stopped, ..m }, ActionView::Release)
    }
}

/// The machine before its first step.
pub open spec fn initial_model(
    sources: Seq<DeviceWorkerInfo>,
    receivers: Seq<DeviceWorkerInfo>,
    rules: Seq<ShiftModifiers>,
) -> WorkerModel {
    WorkerModel {
        sources,
        receivers,
        rules,
        source_open: Seq::new(sources.len(), |i: int| false),
        receiver_open: Seq::new(receivers.len(), |i: int| false),
        readings: Seq::new(sources.len(), |i: int| None),
        source_states: Seq::new(sources.len(), |i: int| 0u16),
        receiver_states: Seq::new(receivers.len(), |i: int| 0u16),
        combined: 0,
        stage: WorkerStage::OpeningSource(0),
    }
}

/// One transition: what the machine becomes, and asks for, when `e` reports
/// the outcome of the exchange it waits for. An event of another kind than
/// the one awaited counts as a failure of that exchange.
pub open spec fn transition(m: WorkerModel, e: WorkerEvent) -> (WorkerModel, ActionView) {
    match m.stage {
        WorkerStage::OpeningSource(i) => open_sources_from(
            WorkerModel { source_open: m.source_open.update(i as int, e.opened()), ..m },
            i + 1,
        ),
        WorkerStage::OpeningReceiver(i) => open_receivers_from(
            WorkerModel { receiver_open: m.receiver_open.update(i as int, e.opened()), ..m },
            i + 1,
        ),
        WorkerStage::CheckingRun => if e.keep_running() {
            read_sources_from(
                WorkerModel { readings: Seq::new(m.sources.len(), |i: int| None), ..m },
                0,
            )
        } else {
            release_receivers_from(m, 0)
        },
        WorkerStage::ReadingSource(i) => {
            let decoded = match e.received() {
                Some(data) => m.sources[i as int].format.unpacked(data),
                None => None,
            };
            match decoded {
                Some(v) => read_sources_from(
                    WorkerModel {
                        readings: m.readings.update(i as int, Some(v)),
                        source_states: m.source_states.update(i as int, v),
                        ..m
                    },
                    i + 1,
                ),
                None => (
                    WorkerModel {
                        readings: m.readings.update(i as int, None),
                        source_states: m.source_states.update(i as int, 0),
                        source_open: m.source_open.update(i as int, false),
                        stage: WorkerStage::ReopeningSource(i),
                        ..m
                    },
                    open_action(SlotGroup::Sources, i as int, m.sources[i as int]),
                ),
            }
        },
        WorkerStage::ReopeningSource(i) => read_sources_from(
            WorkerModel { source_open: m.source_open.update(i as int, e.opened()), ..m },
            i + 1,
        ),
        WorkerStage::ClearingReceiver(i) => if e.sent() {
            (
                WorkerModel { stage: WorkerStage::ReadingBack(i), ..m },
                read_action(SlotGroup::Receivers, i as int, m.receivers[i as int]),
            )
        } else {
            (
                WorkerModel {
                    receiver_states: m.receiver_states.update(i as int, 0),
                    receiver_open: m.receiver_open.update(i as int, false),
                    stage: WorkerStage::ReopeningReceiver(i),
                    ..m
                },
                open_action(SlotGroup::Receivers, i as int, m.receivers[i as int]),
            )
        },
        WorkerStage::ReadingBack(i) => {
            let info = m.receivers[i as int];
            let own: u16 = match e.received() {
                Some(data) => match info.format.unpacked(data) {
                    Some(v) => v,
                    None => 0,
                },
                None => 0,
            };
            let value = receiver_value(m.combined, info.config.state_enabled, own);
            (
                WorkerModel { stage: WorkerStage::SendingState(i, value), ..m },
                send_action(SlotGroup::Receivers, i as int, info, value),
            )
        },
        WorkerStage::SendingState(i, value) => if e.sent() {
            write_receivers_from(
                WorkerModel { receiver_states: m.receiver_states.update(i as int, value), ..m },
                i + 1,
            )
        } else {
            (
                WorkerModel {
                    receiver_states: m.receiver_states.update(i as int, 0),
                    receiver_open: m.receiver_open.update(i as int, false),
                    stage: WorkerStage::ReopeningReceiver(i),
                    ..m
                },
                open_action(SlotGroup::Receivers, i as int, m.receivers[i as int]),
            )
        },
        WorkerStage::ReopeningReceiver(i) => write_receivers_from(
            WorkerModel { receiver_open: m.receiver_open.update(i as int, e.opened()), ..m },
            i + 1,
        ),
        WorkerStage::Sleeping => (
            WorkerModel { stage: WorkerStage::CheckingRun, ..m },
            ActionView::CheckRunSignal,
        ),
        WorkerStage::ReleasingReceiver(i) => release_receivers_from(
            WorkerModel { receiver_states: m.receiver_states.update(i as int, 0), ..m },
            i + 1,
        ),
        WorkerStage::Stopped => (m, ActionView::Release),
    }
}

impl WorkerModel {
    /// The per-slot lists agree in length with the slot lists.
    pub open spec fn shaped(self) -> bool {
        &&& self.rules.len() == 8
        &&& self.sources.len() <= usize::MAX
        &&& self.receivers.len() <= usize::MAX
        &&& self.source_open.len() == self.sources.len()
        &&& self.readings.len() == self.sources.len()
        &&& self.source_states.len() == self.sources.len()
        &&& self.receiver_open.len() == self.receivers.len()
        &&& self.receiver_states.len() == self.receivers.len()
    }

    /// A slot without an open handle publishes 0.
    pub open spec fn closed_slots_publish_zero(self) -> bool {
        &&& forall|i: int|
            0 <= i < self.sources.len() && !self.source_open[i] ==> self.source_states[i] == 0
        &&& forall|i: int|
            0 <= i < self.receivers.len() && !self.receiver_open[i] ==> self.receiver_states[i]
                == 0
    }

    /// The stage names a slot that exists, in the condition the stage needs.
    pub open spec fn stage_ok(self) -> bool {
        let ns = self.sources.len();
        let nr = self.receivers.len();
        match self.stage {
            WorkerStage::OpeningSource(i) => {
                &&& i < ns
                &&& forall|k: int| i <= k < ns ==> !self.source_open[k]
                &&& forall|k: int| 0 <= k < nr ==> !self.receiver_open[k]
            },
            WorkerStage::OpeningReceiver(i) => {
                &&& i < nr
                &&& forall|k: int| i <= k < nr ==> !self.receiver_open[k]
            },
            WorkerStage::ReadingSource(i) => i < ns && self.source_open[i as int],
            WorkerStage::ReopeningSource(i) => i < ns && !self.source_open[i as int],
            WorkerStage::ClearingReceiver(i) => i < nr && self.receiver_open[i as int],
            WorkerStage::ReadingBack(i) => i < nr && self.receiver_open[i as int],
            WorkerStage::SendingState(i, _) => i < nr && self.receiver_open[i as int],
            WorkerStage::ReopeningReceiver(i) => i < nr && !self.receiver_open[i as int],
            WorkerStage::ReleasingReceiver(i) => i < nr && self.receiver_open[i as int],
            _ => true,
        }
    }

    /// The invariant of every state the machine reaches.
    pub open spec fn wf(self) -> bool {
        self.shaped() && self.closed_slots_publish_zero() && self.stage_ok()
    }
}

proof fn lemma_next_openable(infos: Seq<DeviceWorkerInfo>, from: int)
    requires
        0 <= from <= infos.len(),
    ensures
        from <= next_openable(infos, from) <= infos.len(),
        next_openable(infos, from) < infos.len() ==> is_openable(
            infos[next_openable(infos, from)].config,
        ),
    decreases infos.len() - from,
{
    if from < infos.len() && !is_openable(infos[from].config) {
        lemma_next_openable(infos, from + 1);
    }
}

proof fn lemma_next_open(open: Seq<bool>, from: int)
    requires
        0 <= from <= open.len(),
    ensures
        from <= next_open(open, from) <= open.len(),
        next_open(open, from) < open.len() ==> open[next_open(open, from)],
    decreases open.len() - from,
{
    if from < open.len() && !open[from] {
        lemma_next_open(open, from + 1);
    }
}

proof fn lemma_open_receivers_wf(m: WorkerModel, from: int)
    requires
        m.shaped(),
        m.closed_slots_publish_zero(),
        0 <= from <= m.receivers.len(),
        forall|k: int| from <= k < m.receivers.len() ==> !m.receiver_open[k],
    ensures
        open_receivers_from(m, from).0.wf(),
{
    lemma_next_openable(m.receivers, from);
}

proof fn lemma_open_sources_wf(m: WorkerModel, from: int)
    requires
        m.shaped(),
        m.closed_slots_publish_zero(),
        0 <= from <= m.sources.len(),
        forall|k: int| from <= k < m.sources.len() ==> !m.source_open[k],
        forall|k: int| 0 <= k < m.receivers.len() ==> !m.receiver_open[k],
    ensures
        open_sources_from(m, from).0.wf(),
{
    lemma_next_openable(m.sources, from);
    lemma_open_receivers_wf(m, 0);
}

proof fn lemma_write_receivers_wf(m: WorkerModel, from: int)
    requires
        m.shaped(),
        m.closed_slots_publish_zero(),
        0 <= from <= m.receivers.len(),
    ensures
        write_receivers_from(m, from).0.wf(),
{
    lemma_next_open(m.receiver_open, from);
}

proof fn lemma_read_sources_wf(m: WorkerModel, from: int)
    requires
        m.shaped(),
        m.closed_slots_publish_zero(),
        0 <= from <= m.sources.len(),
    ensures
        read_sources_from(m, from).0.wf(),
{
    lemma_next_open(m.source_open, from);
    lemma_write_receivers_wf(
        WorkerModel { combined: combined_value(m.rules, source_readings(m)), ..m },
        0,
    );
}

proof fn lemma_release_receivers_wf(m: WorkerModel, from: int)
    requires
        m.shaped(),
        m.closed_slots_publish_zero(),
        0 <= from <= m.receivers.len(),
    ensures
        release_receivers_from(m, from).0.wf(),
{
    lemma_next_open(m.receiver_open, from);
}

/// Every step keeps the machine's invariant.
pub proof fn lemma_transition_wf(m: WorkerModel, e: WorkerEvent)
    requires
        m.wf(),
    ensures
        transition(m, e).0.wf(),
{
    match m.stage {
        WorkerStage::OpeningSource(i) => {
            let m2 = WorkerModel { source_open: m.source_open.update(i as int, e.opened()), ..m };
            lemma_open_sources_wf(m2, i + 1);
        },
        WorkerStage::OpeningReceiver(i) => {
            let m2 = WorkerModel {
                receiver_open: m.receiver_open.update(i as int, e.opened()),
                ..m
            };
            lemma_open_receivers_wf(m2, i + 1);
        },
        WorkerStage::CheckingRun => {
            if e.keep_running() {
                let m2 = WorkerModel { readings: Seq::new(m.sources.len(), |i: int| None), ..m };
                lemma_read_sources_wf(m2, 0);
            } else {
                lemma_release_receivers_wf(m, 0);
            }
        },
        WorkerStage::ReadingSource(i) => {
            let decoded = match e.received() {
                Some(data) => m.sources[i as int].format.unpacked(data),
                None => None,
            };
            match decoded {
                Some(v) => {
                    let m2 = WorkerModel {
                        readings: m.readings.update(i as int, Some(v)),
                        source_states: m.source_states.update(i as int, v),
                        ..m
                    };
                    lemma_read_sources_wf(m2, i + 1);
                },
                None => {},
            }
        },
        WorkerStage::ReopeningSource(i) => {
            let m2 = WorkerModel { source_open: m.source_open.update(i as int, e.opened()), ..m };
            lemma_read_sources_wf(m2, i + 1);
        },
        WorkerStage::SendingState(i, value) => {
            if e.sent() {
                let m2 = WorkerModel {
                    receiver_states: m.receiver_states.update(i as int, value),
                    ..m
                };
                lemma_write_receivers_wf(m2, i + 1);
            }
        },
        WorkerStage::ReopeningReceiver(i) => {
            let m2 = WorkerModel {
                receiver_open: m.receiver_open.update(i as int, e.opened()),
                ..m
            };
            lemma_write_receivers_wf(m2, i + 1);
        },
        WorkerStage::ReleasingReceiver(i) => {
            let m2 = WorkerModel {
                receiver_states: m.receiver_states.update(i as int, 0),
                ..m
            };
            lemma_release_receivers_wf(m2, i + 1);
        },
        _ => {},
    }
}

/// A source read that fails, in transport or in decoding, leaves the source
/// unavailable for the cycle, publishes 0 for it, and asks at once to reopen
/// it with the same identity.
pub proof fn lemma_failed_read_reopens(m: WorkerModel, e: WorkerEvent, i: usize)
    requires
        m.wf(),
        m.stage == WorkerStage::ReadingSource(i),
        match e.received() {
            Some(data) => m.sources[i as int].format.unpacked(data) is None,
            None => true,
        },
    ensures
        transition(m, e).1 == open_action(SlotGroup::Sources, i as int, m.sources[i as int]),
        transition(m, e).0.stage == WorkerStage::ReopeningSource(i),
        transition(m, e).0.readings[i as int] is None,
        transition(m, e).0.source_states[i as int] == 0,
        !transition(m, e).0.source_open[i as int],
{
}

/// When the reopening succeeds the source holds a handle again; when it fails
/// the source stays without one and keeps publishing 0. Either way the cycle
/// goes on with the next source.
pub proof fn lemma_reopen_outcome(m: WorkerModel, e: WorkerEvent, i: usize)
    requires
        m.wf(),
        m.stage == WorkerStage::ReopeningSource(i),
    ensures
        transition(m, e).0.source_open[i as int] == e.opened(),
        transition(m, e).0.source_states[i as int] == 0,
        transition(m, e).0.stage != WorkerStage::Stopped,
{
    lemma_next_open(m.source_open.update(i as int, e.opened()), i + 1);
    lemma_next_open(m.receiver_open, 0);
}

/// Within a cycle, a source that holds a handle is read when the cycle
/// reaches it: sources without a handle before it are skipped.
pub proof fn lemma_open_source_is_read(m: WorkerModel, from: int, i: int)
    requires
        m.shaped(),
        0 <= from <= i < m.sources.len(),
        m.source_open[i],
        forall|k: int| from <= k < i ==> !m.source_open[k],
    ensures
        read_sources_from(m, from).0.stage == WorkerStage::ReadingSource(i as usize),
        read_sources_from(m, from).1 == read_action(SlotGroup::Sources, i, m.sources[i]),
    decreases i - from,
{
    if from < i {
        lemma_open_source_is_read(m, from + 1, i);
    }
}

/// A source without a handle stays without one, unavailable and publishing 0,
/// until a reopening of it succeeds; the machine never reads it meanwhile.
pub proof fn lemma_closed_source_stays_unavailable(m: WorkerModel, e: WorkerEvent, i: int)
    requires
        m.wf(),
        0 <= i < m.sources.len(),
        !m.source_open[i],
        m.readings[i] is None,
        m.stage != WorkerStage::OpeningSource(i as usize),
        m.stage != WorkerStage::ReopeningSource(i as usize),
    ensures
        !transition(m, e).0.source_open[i],
        transition(m, e).0.readings[i] is None,
        transition(m, e).0.source_states[i] == 0,
        transition(m, e).0.stage != WorkerStage::ReadingSource(i as usize),
{
    lemma_transition_wf(m, e);
}

/// The loop ends only when it reads a cleared run signal (and then after the
/// zero reports to the open receivers); device failures never end it.
pub proof fn lemma_only_run_signal_stops(m: WorkerModel, e: WorkerEvent)
    requires
        m.wf(),
        m.stage != WorkerStage::Stopped,
        transition(m, e).0.stage == WorkerStage::Stopped,
    ensures
        (m.stage == WorkerStage::CheckingRun && !e.keep_running())
            || m.stage is ReleasingReceiver,
{
    match m.stage {
        WorkerStage::OpeningSource(i) => {
            let m2 = WorkerModel { source_open: m.source_open.update(i as int, e.opened()), ..m };
            lemma_next_openable(m2.sources, i + 1);
            lemma_next_openable(m2.receivers, 0);
        },
        WorkerStage::OpeningReceiver(i) => {
            lemma_next_openable(m.receivers, i + 1);
        },
        WorkerStage::CheckingRun => {},
        _ => {},
    }
}

/// The machine's data, free to change between two consistent states.
struct WorkerParts {
    sources: Vec<DeviceWorkerInfo>,
    receivers: Vec<DeviceWorkerInfo>,
    rules: ModifiersArray,
    source_open: Vec<bool>,
    receiver_open: Vec<bool>,
    readings: Vec<Option<u16>>,
    source_states: Vec<u16>,
    receiver_states: Vec<u16>,
    combined: u16,
    stage: WorkerStage,
}

impl WorkerParts {
    spec fn model(&self) -> WorkerModel {
        WorkerModel {
            sources: self.sources@,
            receivers: self.receivers@,
            rules: self.rules@,
            source_open: self.source_open@,
            receiver_open: self.receiver_open@,
            readings: self.readings@,
            source_states: self.source_states@,
            receiver_states: self.receiver_states@,
            combined: self.combined,
            stage: self.stage,
        }
    }
}

fn find_next_openable(infos: &Vec<DeviceWorkerInfo>, from: usize) -> (r: usize)
    requires
        from <= infos@.len(),
    ensures
        r == next_openable(infos@, from as int),
{
    let mut k = from;
    while k < infos.len()
        invariant
            from <= k <= infos@.len(),
            next_openable(infos@, from as int) == next_openable(infos@, k as int),
        decreases infos.len() - k,
    {
        if infos[k].config.vendor_id != 0 && infos[k].config.product_id != 0 {
            return k;
        }
        k = k + 1;
    }
    k
}

fn find_next_open(open: &Vec<bool>, from: usize) -> (r: usize)
    requires
        from <= open@.len(),
    ensures
        r == next_open(open@, from as int),
{
    let mut k = from;
    while k < open.len()
        invariant
            from <= k <= open@.len(),
            next_open(open@, from as int) == next_open(open@, k as int),
        decreases open.len() - k,
    {
        if open[k] {
            return k;
        }
        k = k + 1;
    }
    k
}

fn make_open_action(group: SlotGroup, index: usize, info: &DeviceWorkerInfo) -> (a: WorkerAction)
    ensures
        a@ == open_action(group, index as int, *info),
{
    let serial_number = if info.config.serial_number.as_str().is_empty() {
        None
    } else {
        Some(info.config.serial_number.clone())
    };
    WorkerAction::Open {
        group,
        index,
        vendor_id: info.config.vendor_id,
        product_id: info.config.product_id,
        serial_number,
    }
}

fn make_read_action(group: SlotGroup, index: usize, info: &DeviceWorkerInfo) -> (a: WorkerAction)
    ensures
        a@ == read_action(group, index as int, *info),
{
    WorkerAction::ReadReport {
        group,
        index,
        report_id: info.format.report_id(),
        size: info.format.total_size(),
    }
}

fn make_send_action(group: SlotGroup, index: usize, info: &DeviceWorkerInfo, state: u16) -> (a:
    WorkerAction)
    ensures
        a@ == send_action(group, index as int, *info, state),
{
    let mut buffer: Vec<u8> = vec![0u8; MAX_REPORT_SIZE];
    let report = info.format.pack_state(buffer.as_mut_slice(), state);
    WorkerAction::SendReport { group, index, report: slice_to_vec(report) }
}

/// The state decoded from a read, if the read succeeded and the report fits `format`.
fn decode_event(e: &WorkerEvent, format: &ReportFormat) -> (r: Option<u16>)
    ensures
        r == (match e.received() {
            Some(data) => format.unpacked(data),
            None => None,
        }),
{
    match e {
        WorkerEvent::ReportRead(Some(data)) => format.unpack_state(data.as_slice()),
        _ => None,
    }
}

fn event_opened(e: &WorkerEvent) -> (r: bool)
    ensures
        r == e.opened(),
{
    match e {
        WorkerEvent::Opened(ok) => *ok,
        _ => false,
    }
}

fn event_sent(e: &WorkerEvent) -> (r: bool)
    ensures
        r == e.sent(),
{
    match e {
        WorkerEvent::ReportSent(ok) => *ok,
        _ => false,
    }
}

fn event_keep_running(e: &WorkerEvent) -> (r: bool)
    ensures
        r == e.keep_running(),
{
    match e {
        WorkerEvent::RunSignal(run) => *run,
        _ => false,
    }
}

impl WorkerParts {
    fn open_receivers_from(&mut self, from: usize) -> (a: WorkerAction)
        requires
            old(self).model().shaped(),
            from <= old(self).receivers@.len(),
        ensures
            (final(self).model(), a@) == open_receivers_from(old(self).model(), from as int),
    {
        let j = find_next_openable(&self.receivers, from);
        if j < self.receivers.len() {
            self.stage = WorkerStage::OpeningReceiver(j);
            make_open_action(SlotGroup::Receivers, j, &self.receivers[j])
        } else {
            self.stage = WorkerStage::CheckingRun;
            WorkerAction::CheckRunSignal
        }
    }

    fn open_sources_from(&mut self, from: usize) -> (a: WorkerAction)
        requires
            old(self).model().shaped(),
            from <= old(self).sources@.len(),
        ensures
            (final(self).model(), a@) == open_sources_from(old(self).model(), from as int),
    {
        let j = find_next_openable(&self.sources, from);
        if j < self.sources.len() {
            self.stage = WorkerStage::OpeningSource(j);
            make_open_action(SlotGroup::Sources, j, &self.sources[j])
        } else {
            self.open_receivers_from(0)
        }
    }

    fn write_receivers_from(&mut self, from: usize) -> (a: WorkerAction)
        requires
            old(self).model().shaped(),
            from <= old(self).receivers@.len(),
        ensures
            (final(self).model(), a@) == write_receivers_from(old(self).model(), from as int),
    {
        let j = find_next_open(&self.receiver_open, from);
        if j < self.receivers.len() {
            self.stage = WorkerStage::ClearingReceiver(j);
            make_send_action(SlotGroup::Receivers, j, &self.receivers[j], 0)
        } else {
            self.stage = WorkerStage::Sleeping;
            WorkerAction::Sleep { millis: WORKER_SLEEP_MS }
        }
    }

    /// This cycle's readings, paired with the bits each source enables.
    fn current_readings(&self) -> (r: Vec<SourceReading>)
        requires
            self.model().shaped(),
        ensures
            r@ == source_readings(self.model()),
    {
        let mut r: Vec<SourceReading> = Vec::new();
        let mut i: usize = 0;
        while i < self.sources.len()
            invariant
                self.model().shaped(),
                i <= self.sources@.len(),
                r@.len() == i,
                forall|k: int| 0 <= k < i ==> #[trigger] r@[k] == source_readings(self.model())[k],
            decreases self.sources.len() - i,
        {
            r.push(
                SourceReading {
                    state: self.readings[i],
                    enabled: self.sources[i].config.state_enabled,
                },
            );
            i = i + 1;
        }
        assert(r@ =~= source_readings(self.model()));
        r
    }

    fn read_sources_from(&mut self, from: usize) -> (a: WorkerAction)
        requires
            old(self).model().shaped(),
            from <= old(self).sources@.len(),
        ensures
            (final(self).model(), a@) == read_sources_from(old(self).model(), from as int),
    {
        let j = find_next_open(&self.source_open, from);
        if j < self.sources.len() {
            self.stage = WorkerStage::ReadingSource(j);
            make_read_action(SlotGroup::Sources, j, &self.sources[j])
        } else {
            let readings = self.current_readings();
            self.combined = combine_states(&readings, &self.rules);
            self.write_receivers_from(0)
        }
    }

    fn release_receivers_from(&mut self, from: usize) -> (a: WorkerAction)
        requires
            old(self).model().shaped(),
            from <= old(self).receivers@.len(),
        ensures
            (final(self).model(), a@) == release_receivers_from(old(self).model(), from as int),
    {
        let j = find_next_open(&self.receiver_open, from);
        if j < self.receivers.len() {
            self.stage = WorkerStage::ReleasingReceiver(j);
            make_send_action(SlotGroup::Receivers, j, &self.receivers[j], 0)
        } else {
            self.stage = WorkerStage::Stopped;
            WorkerAction::Release
        }
    }

    fn clear_readings(&mut self)
        requires
            old(self).model().shaped(),
        ensures
            final(self).model() == (WorkerModel {
                readings: Seq::new(old(self).sources@.len(), |i: int| None),
                ..old(self).model()
            }),
    {
        let mut i: usize = 0;
        while i < self.readings.len()
            invariant
                self.model().shaped(),
                self.model() == (WorkerModel { readings: self.readings@, ..old(self).model() }),
                i <= self.readings@.len(),
                forall|k: int| 0 <= k < i ==> self.readings@[k] == None::<u16>,
            decreases self.readings.len() - i,
        {
            self.readings.set(i, None);
            i = i + 1;
        }
        assert(self.readings@ =~= Seq::new(old(self).sources@.len(), |i: int| None));
    }

    fn advance(&mut self, e: &WorkerEvent) -> (a: WorkerAction)
        requires
            old(self).model().wf(),
        ensures
            (final(self).model(), a@) == transition(old(self).model(), *e),
    {
        match self.stage {
            WorkerStage::OpeningSource(i) => {
                self.source_open.set(i, event_opened(e));
                self.open_sources_from(i + 1)
            },
            WorkerStage::OpeningReceiver(i) => {
                self.receiver_open.set(i, event_opened(e));
                self.open_receivers_from(i + 1)
            },
            WorkerStage::CheckingRun => {
                if event_keep_running(e) {
                    self.clear_readings();
                    self.read_sources_from(0)
                } else {
                    self.release_receivers_from(0)
                }
            },
            WorkerStage::ReadingSource(i) => {
                match decode_event(e, &self.sources[i].format) {
                    Some(v) => {
                        self.readings.set(i, Some(v));
                        self.source_states.set(i, v);
                        self.read_sources_from(i + 1)
                    },
                    None => {
                        self.readings.set(i, None);
                        self.source_states.set(i, 0);
                        self.source_open.set(i, false);
                        self.stage = WorkerStage::ReopeningSource(i);
                        make_open_action(SlotGroup::Sources, i, &self.sources[i])
                    },
                }
            },
            WorkerStage::ReopeningSource(i) => {
                self.source_open.set(i, event_opened(e));
                self.read_sources_from(i + 1)
            },
            WorkerStage::ClearingReceiver(i) => {
                if event_sent(e) {
                    self.stage = WorkerStage::ReadingBack(i);
                    make_read_action(SlotGroup::Receivers, i, &self.receivers[i])
                } else {
                    self.receiver_states.set(i, 0);
                    self.receiver_open.set(i, false);
                    self.stage = WorkerStage::ReopeningReceiver(i);
                    make_open_action(SlotGroup::Receivers, i, &self.receivers[i])
                }
            },
            WorkerStage::ReadingBack(i) => {
                let own = match decode_event(e, &self.receivers[i].format) {
                    Some(v) => v,
                    None => 0,
                };
                let value = merge_receiver_state(
                    self.combined,
                    &self.receivers[i].config.state_enabled,
                    own,
                );
                self.stage = WorkerStage::SendingState(i, value);
                make_send_action(SlotGroup::Receivers, i, &self.receivers[i], value)
            },
            WorkerStage::SendingState(i, value) => {
                if event_sent(e) {
                    self.receiver_states.set(i, value);
                    self.write_receivers_from(i + 1)
                } else {
                    self.receiver_states.set(i, 0);
                    self.receiver_open.set(i, false);
                    self.stage = WorkerStage::ReopeningReceiver(i);
                    make_open_action(SlotGroup::Receivers, i, &self.receivers[i])
                }
            },
            WorkerStage::ReopeningReceiver(i) => {
                self.receiver_open.set(i, event_opened(e));
                self.write_receivers_from(i + 1)
            },
            WorkerStage::Sleeping => {
                self.stage = WorkerStage::CheckingRun;
                WorkerAction::CheckRunSignal
            },
            WorkerStage::ReleasingReceiver(i) => {
                self.receiver_states.set(i, 0);
                self.release_receivers_from(i + 1)
            },
            WorkerStage::Stopped => WorkerAction::Release,
        }
    }
}

/// The worker loop of one run: the resolved slots, the rules, and where the
/// loop stands.
pub struct Worker {
    parts: WorkerParts,
}

impl Worker {
    #[verifier::type_invariant]
    spec fn inv(self) -> bool {
        self.parts.model().wf()
    }
}

impl View for Worker {
    type V = WorkerModel;

    closed spec fn view(&self) -> WorkerModel {
        self.parts.model()
    }
}

impl Worker {
    /// Starts a run over the resolved slots: every slot begins without a
    /// handle and publishing 0, and the first action opens the first
    /// configured source (or receiver).
    pub fn start(
        sources: Vec<DeviceWorkerInfo>,
        receivers: Vec<DeviceWorkerInfo>,
        rules: ModifiersArray,
    ) -> (r: (Worker, WorkerAction))
        ensures
            (r.0@, r.1@) == open_sources_from(initial_model(sources@, receivers@, rules@), 0),
            r.0@.wf(),
    {
        let ns = sources.len();
        let nr = receivers.len();
        let mut parts = WorkerParts {
            sources,
            receivers,
            rules,
            source_open: vec![false; ns],
            receiver_open: vec![false; nr],
            readings: vec![None; ns],
            source_states: vec![0u16; ns],
            receiver_states: vec![0u16; nr],
            combined: 0,
            stage: WorkerStage::OpeningSource(0),
        };
        let ghost m0 = initial_model(sources@, receivers@, rules@);
        assert(parts.source_open@ =~= m0.source_open);
        assert(parts.receiver_open@ =~= m0.receiver_open);
        assert(parts.readings@ =~= m0.readings);
        assert(parts.source_states@ =~= m0.source_states);
        assert(parts.receiver_states@ =~= m0.receiver_states);
        assert(parts.model() =~= m0);
        let action = parts.open_sources_from(0);
        proof {
            lemma_open_sources_wf(m0, 0);
        }
        (Worker { parts }, action)
    }

    /// Hands the machine the outcome of the last action and returns the next one.
    pub fn step(self, event: WorkerEvent) -> (r: (Worker, WorkerAction))
        ensures
            (r.0@, r.1@) == transition(self@, event),
            r.0@.wf(),
    {
        proof {
            use_type_invariant(&self);
            lemma_transition_wf(self@, event);
        }
        let Worker { parts } = self;
        let mut parts = parts;
        let action = parts.advance(&event);
        (Worker { parts }, action)
    }

    /// The published state of each source.
    pub fn source_states(&self) -> (r: &[u16])
        ensures
            r@ == self@.source_states,
    {
        self.parts.source_states.as_slice()
    }

    /// The published state of each receiver.
    pub fn receiver_states(&self) -> (r: &[u16])
        ensures
            r@ == self@.receiver_states,
    {
        self.parts.receiver_states.as_slice()
    }

    /// The published combined state.
    pub fn combined_state(&self) -> (r: u16)
        ensures
            r == self@.combined,
    {
        self.parts.combined
    }

    pub fn stage(&self) -> (r: WorkerStage)
        ensures
            r == self@.stage,
    {
        self.parts.stage
    }

    /// The loop has ended.
    pub fn is_stopped(&self) -> (r: bool)
        ensures
            r == (self@.stage == WorkerStage::Stopped),
    {
        match self.parts.stage {
            WorkerStage::Stopped => true,
            _ => false,
        }
    }
}

} // verus!
