use vstd::prelude::*;
use crate::models::{DownloadConfig, DownloadItem, DownloadStatus, default_config, tracker_name};
use crate::integrity::{integrity_holds, verify_file_integrity};

verus! {

/// How much the manager tells its user.
#[derive(Debug, Clone, Copy, PartialEq, Eq, Structural)]
pub enum Verbosity {
    NoConsole,
    Verbose,
    Debug,
    Normal,
}

impl Verbosity {
    /// The level under which the console output is filtered:
    /// 0 no console, 1 verbose, 2 debug, 3 normal.
    pub fn level(&self) -> (l: u8)
        ensures
            l == match *self {
                Verbosity::NoConsole => 0u8,
                Verbosity::Verbose => 1u8,
                Verbosity::Debug => 2u8,
                Verbosity::Normal => 3u8,
            },
    {
        match self {
            Verbosity::NoConsole => 0,
            Verbosity::Verbose => 1,
            Verbosity::Debug => 2,
            Verbosity::Normal => 3,
        }
    }

    /// Whether progress bars are drawn.
    pub fn shows_progress(&self) -> (b: bool)
        ensures
            b == !(*self is NoConsole),
    {
        match self {
            Verbosity::NoConsole => false,
            _ => true,
        }
    }
}

// ------------------------------------------------------------------
// The tracking model and `add_download`
// ------------------------------------------------------------------

/// `i` is the first position of `s` whose id reads `id`.
pub open spec fn is_first_with_id(s: Seq<DownloadItem>, id: Seq<char>, i: int) -> bool {
    &&& 0 <= i < s.len()
    &&& s[i].id@ == id
    &&& forall|j: int| 0 <= j < i ==> s[j].id@ != id
}

/// Some entry of `s` has the id `id`.
pub open spec fn has_id(s: Seq<DownloadItem>, id: Seq<char>) -> bool {
    exists|i: int| 0 <= i < s.len() && #[trigger] s[i].id@ == id
}

/// No two entries of `s` share an id.
pub open spec fn ids_unique(s: Seq<DownloadItem>) -> bool {
    forall|i: int, j: int| 0 <= i < s.len() && 0 <= j < s.len() && i != j ==> #[trigger] s[i].id@ != #[trigger] s[j].id@
}

/// `item` with its status replaced by `status`.
pub open spec fn with_status(item: DownloadItem, status: DownloadStatus) -> DownloadItem {
    DownloadItem {
        id: item.id,
        name: item.name,
        url: item.url,
        destination: item.destination,
        status_info: status,
    }
}

/// Re-registering `item` with `url` and `destination` sends it back to
/// `NotStarted` when it had failed or when either of them changed.
pub open spec fn needs_reset(item: DownloadItem, url: Seq<char>, destination: Seq<char>) -> bool {
    item.status_info is Failed || item.url@ != url || item.destination@ != destination
}

/// An existing entry after it is registered again.
pub open spec fn reregistered(item: DownloadItem, name: String, url: String, destination: String) -> DownloadItem {
    DownloadItem {
        id: item.id,
        name: name,
        url: url,
        destination: destination,
        status_info: if needs_reset(item, url@, destination@) {
            DownloadStatus::NotStarted
        } else {
            item.status_info
        },
    }
}

/// A fresh entry.
pub open spec fn fresh_item(id: String, name: String, url: String, destination: String) -> DownloadItem {
    DownloadItem { id: id, name: name, url: url, destination: destination, status_info: DownloadStatus::NotStarted }
}

/// The download list after registering (`id`, `name`, `url`, `destination`):
/// the first entry with that id is updated in place, or a fresh entry is
/// appended when there is none.
pub open spec fn registered(s: Seq<DownloadItem>, id: String, name: String, url: String, destination: String) -> Seq<DownloadItem> {
    if exists|i: int| #[trigger] is_first_with_id(s, id@, i) {
        let i = choose|i: int| #[trigger] is_first_with_id(s, id@, i);
        s.update(i, reregistered(s[i], name, url, destination))
    } else {
        s.push(fresh_item(id, name, url, destination))
    }
}

/// Every entry has the same id, name, url and destination in `s` and `t`.
pub open spec fn same_entries(s: Seq<DownloadItem>, t: Seq<DownloadItem>) -> bool {
    &&& s.len() == t.len()
    &&& forall|k: int| 0 <= k < s.len() ==> {
        &&& #[trigger] t[k].id == s[k].id
        &&& t[k].name == s[k].name
        &&& t[k].url == s[k].url
        &&& t[k].destination == s[k].destination
    }
}

/// Every entry is completed (vacuously so for an empty list).
pub open spec fn all_completed(s: Seq<DownloadItem>) -> bool {
    forall|k: int| 0 <= k < s.len() ==> (#[trigger] s[k]).status_info is Completed
}

/// Where an entry stands after a download attempt: `result` is the size the
/// server announced (`Ok`) or the error text (`Err`), `file_size` what the
/// file system reports afterwards.
pub open spec fn outcome_status(result: Result<Option<u64>, String>, file_size: Option<u64>) -> DownloadStatus {
    match result {
        Err(message) => DownloadStatus::Failed { error_message: Some(message) },
        Ok(expected) => match file_size {
            None => DownloadStatus::Completed,
            Some(current) => match expected {
                None => DownloadStatus::Completed,
                Some(total) => if current >= total {
                    DownloadStatus::Completed
                } else {
                    DownloadStatus::Partial { bytes_downloaded: current, total_bytes: total }
                },
            },
        },
    }
}

/// Decides the status of an entry after a download attempt.
pub fn download_outcome_status(result: Result<Option<u64>, String>, file_size: Option<u64>) -> (st: DownloadStatus)
    ensures
        st == outcome_status(result, file_size),
{
    match result {
        Err(message) => DownloadStatus::Failed { error_message: Some(message) },
        Ok(expected) => match file_size {
            None => DownloadStatus::Completed,
            Some(current) => match expected {
                None => DownloadStatus::Completed,
                Some(total) => if current >= total {
                    DownloadStatus::Completed
                } else {
                    DownloadStatus::Partial { bytes_downloaded: current, total_bytes: total }
                },
            },
        },
    }
}

// ------------------------------------------------------------------
// Choosing the tracking file
// ------------------------------------------------------------------

/// The registry key used when none is given.
pub open spec fn default_registry_key() -> Seq<char> {
    "SOFTWARE\\Dowman"@
}

/// The registry key under which the tracking file's path is kept.
pub fn registry_key_path(custom: Option<String>) -> (key: String)
    ensures
        custom is Some ==> key == custom->0,
        custom is None ==> key@ == default_registry_key(),
{
    match custom {
        Some(k) => k,
        None => String::from_str("SOFTWARE\\Dowman"),
    }
}

/// Picks the tracking file, and tells whether the tracking state must be
/// written to it as soon as the manager is made. `command_line` is the path
/// given on the command line, already made absolute; `registry` the path
/// stored in the registry (`None` when it could not be read; it is only
/// consulted without a command-line path); `fallback` the default file in the
/// working directory. A command-line path always wins. Only a path found in
/// the registry is not saved right away.
pub fn select_tracking_file(command_line: Option<String>, registry: Option<String>, fallback: String) -> (r: (String, bool))
    ensures
        command_line is Some ==> r == (command_line->0, true),
        command_line is None && registry is Some ==> r == (registry->0, false),
        command_line is None && registry is None ==> r == (fallback, true),
{
    match command_line {
        Some(p) => (p, true),
        None => match registry {
            Some(p) => (p, false),
            None => (fallback, true),
        },
    }
}

// ------------------------------------------------------------------
// The download run: a state machine driven by the application
// ------------------------------------------------------------------

/// How a finished run ended.
#[derive(Debug, Clone, Copy)]
pub enum RunOutcome {
    /// Every entry was completed and every file checked out: nothing to do.
    AlreadyVerified,
    /// The pending entries were processed; `all_completed` tells whether
    /// every entry is now completed.
    Processed { all_completed: bool },
}

/// Where a run stands; each phase but `Idle` and `Finished` waits for one event.
#[derive(Debug, Clone, Copy)]
pub enum RunPhase {
    Idle,
    /// Checking the file of entry `index`; every entry is completed.
    Verifying { index: usize },
    /// Checking the file of a completed or partial entry before deciding on it.
    Inspecting { index: usize },
    /// Entry `index` was reset to `NotStarted`; waiting for the state to be saved.
    ResetSaved { index: usize },
    /// Entry `index` was marked `InProgress`; waiting for the state to be saved.
    StartSaved { index: usize },
    /// Waiting for the download of entry `index`.
    Downloading { index: usize },
    /// The outcome of entry `index` was recorded; waiting for the state to be saved.
    DoneSaved { index: usize },
    Finished { outcome: RunOutcome },
}

/// What the application reports back.
#[derive(Debug)]
pub enum RunEvent {
    /// The tracking state was written (or writing it failed, which is ignored).
    Saved,
    /// Size of the file asked about; `None` when it is missing or unreadable.
    FileChecked { size: Option<u64> },
    /// A download attempt ended: the announced size or the error text, and
    /// the size of the destination file afterwards.
    Downloaded { result: Result<Option<u64>, String>, size: Option<u64> },
}

/// What the application must do next.
#[derive(Debug)]
pub enum RunAction {
    /// No run is in progress.
    Idle,
    /// Persist the tracking state.
    Save,
    /// Report the size of the file at `destination`.
    CheckFile { index: usize, destination: String },
    /// Download `url` to `destination`, showing a progress bar when asked.
    Download { index: usize, name: String, url: String, destination: String, show_progress: bool },
    /// The run is over.
    Finish { outcome: RunOutcome },
}

/// The phase fits the download list.
pub open spec fn run_consistent(s: Seq<DownloadItem>, phase: RunPhase) -> bool {
    match phase {
        RunPhase::Idle => true,
        RunPhase::Verifying { index } => index < s.len() && all_completed(s),
        RunPhase::Inspecting { index } => index < s.len() && (s[index as int].status_info is Completed
            || s[index as int].status_info is Partial),
        RunPhase::ResetSaved { index } => index < s.len() && s[index as int].status_info is NotStarted,
        RunPhase::StartSaved { index } => index < s.len() && s[index as int].status_info is InProgress
            && s[index as int].url@.len() > 0,
        RunPhase::Downloading { index } => index < s.len() && s[index as int].status_info is InProgress
            && s[index as int].url@.len() > 0,
        RunPhase::DoneSaved { index } => index < s.len(),
        RunPhase::Finished { outcome } => match outcome {
            RunOutcome::AlreadyVerified => all_completed(s),
            RunOutcome::Processed { all_completed: a } => a == all_completed(s),
        },
    }
}

/// Prepares entry `i` for download: skipped when it has no URL, else marked
/// `InProgress` and saved first.
pub open spec fn prepare(s: Seq<DownloadItem>, i: int) -> (Seq<DownloadItem>, RunPhase)
    decreases s.len() - i, 0int,
{
    if i < 0 || i >= s.len() {
        (s, RunPhase::Finished { outcome: RunOutcome::Processed { all_completed: all_completed(s) } })
    } else if s[i].url@.len() > 0 {
        (s.update(i, with_status(s[i], DownloadStatus::InProgress)), RunPhase::StartSaved { index: i as usize })
    } else {
        advance(s, i + 1)
    }
}

/// Walks the entries from `i` on to the first that needs work: `NotStarted`
/// ones are prepared, `InProgress` ones skipped, completed and partial ones
/// have their file checked, failed ones are reset; past the end the run
/// finishes.
pub open spec fn advance(s: Seq<DownloadItem>, i: int) -> (Seq<DownloadItem>, RunPhase)
    decreases s.len() - i, 1int,
{
    if i < 0 || i >= s.len() {
        (s, RunPhase::Finished { outcome: RunOutcome::Processed { all_completed: all_completed(s) } })
    } else {
        match s[i].status_info {
            DownloadStatus::NotStarted => prepare(s, i),
            DownloadStatus::InProgress => advance(s, i + 1),
            DownloadStatus::Completed => (s, RunPhase::Inspecting { index: i as usize }),
            DownloadStatus::Partial { .. } => (s, RunPhase::Inspecting { index: i as usize }),
            DownloadStatus::Failed { .. } => (
                s.update(i, with_status(s[i], DownloadStatus::NotStarted)),
                RunPhase::ResetSaved { index: i as usize },
            ),
        }
    }
}

/// The start of a run: when everything is completed the files are verified
/// first, else the entries are processed from the first one.
pub open spec fn begin(s: Seq<DownloadItem>) -> (Seq<DownloadItem>, RunPhase) {
    if all_completed(s) {
        if s.len() == 0 {
            (s, RunPhase::Finished { outcome: RunOutcome::AlreadyVerified })
        } else {
            (s, RunPhase::Verifying { index: 0 })
        }
    } else {
        advance(s, 0)
    }
}

/// The phase waits for this event.
pub open spec fn accepts(phase: RunPhase, event: RunEvent) -> bool {
    match phase {
        RunPhase::Verifying { .. } => event is FileChecked,
        RunPhase::Inspecting { .. } => event is FileChecked,
        RunPhase::ResetSaved { .. } => event is Saved,
        RunPhase::StartSaved { .. } => event is Saved,
        RunPhase::Downloading { .. } => event is Downloaded,
        RunPhase::DoneSaved { .. } => event is Saved,
        _ => false,
    }
}

/// One step of a run. An event the phase does not wait for changes nothing.
pub open spec fn step(s: Seq<DownloadItem>, phase: RunPhase, event: RunEvent) -> (Seq<DownloadItem>, RunPhase) {
    if !accepts(phase, event) {
        (s, phase)
    } else {
        match phase {
            RunPhase::Verifying { index } => {
                let i = index as int;
                if integrity_holds(s[i].status_info, event->FileChecked_size) {
                    if i + 1 >= s.len() {
                        (s, RunPhase::Finished { outcome: RunOutcome::AlreadyVerified })
                    } else {
                        (s, RunPhase::Verifying { index: (i + 1) as usize })
                    }
                } else {
                    advance(s, 0)
                }
            },
            RunPhase::Inspecting { index } => {
                let i = index as int;
                if !integrity_holds(s[i].status_info, event->FileChecked_size) {
                    (s.update(i, with_status(s[i], DownloadStatus::NotStarted)), RunPhase::ResetSaved { index })
                } else if s[i].status_info is Partial {
                    prepare(s, i)
                } else {
                    advance(s, i + 1)
                }
            },
            RunPhase::ResetSaved { index } => prepare(s, index as int),
            RunPhase::StartSaved { index } => (s, RunPhase::Downloading { index }),
            RunPhase::Downloading { index } => {
                let i = index as int;
                (
                    s.update(i, with_status(s[i], outcome_status(event->result, event->Downloaded_size))),
                    RunPhase::DoneSaved { index },
                )
            },
            RunPhase::DoneSaved { index } => advance(s, index + 1),
            _ => (s, phase),
        }
    }
}

/// The action that the phase asks for.
pub open spec fn pending_action(s: Seq<DownloadItem>, phase: RunPhase, show_progress: bool) -> RunAction {
    match phase {
        RunPhase::Idle => RunAction::Idle,
        RunPhase::Verifying { index } => RunAction::CheckFile { index, destination: s[index as int].destination },
        RunPhase::Inspecting { index } => RunAction::CheckFile { index, destination: s[index as int].destination },
        RunPhase::ResetSaved { .. } => RunAction::Save,
        RunPhase::StartSaved { .. } => RunAction::Save,
        RunPhase::DoneSaved { .. } => RunAction::Save,
        RunPhase::Downloading { index } => RunAction::Download {
            index,
            name: s[index as int].name,
            url: s[index as int].url,
            destination: s[index as int].destination,
            show_progress,
        },
        RunPhase::Finished { outcome } => RunAction::Finish { outcome },
    }
}

/// A measure of the work a run has left; every accepted event lowers it.
pub open spec fn run_measure(len: int, phase: RunPhase) -> int {
    match phase {
        RunPhase::Idle => 0,
        RunPhase::Finished { .. } => 0,
        RunPhase::Verifying { index } => 8 * len + 8 + (len - index),
        RunPhase::Inspecting { index } => 8 * (len - index) + 5,
        RunPhase::ResetSaved { index } => 8 * (len - index) + 4,
        RunPhase::StartSaved { index } => 8 * (len - index) + 3,
        RunPhase::Downloading { index } => 8 * (len - index) + 2,
        RunPhase::DoneSaved { index } => 8 * (len - index) + 1,
    }
}

/// How far through the list a run is: the entry it works on, the length of
/// the list once it is finished, and -1 before it processes any entry.
pub open spec fn cursor(len: int, phase: RunPhase) -> int {
    match phase {
        RunPhase::Idle => -1,
        RunPhase::Verifying { .. } => -1,
        RunPhase::Finished { .. } => len,
        RunPhase::Inspecting { index } => index as int,
        RunPhase::ResetSaved { index } => index as int,
        RunPhase::StartSaved { index } => index as int,
        RunPhase::Downloading { index } => index as int,
        RunPhase::DoneSaved { index } => index as int,
    }
}

proof fn lemma_advance(s: Seq<DownloadItem>, i: int)
    requires
        0 <= i <= s.len(),
        s.len() <= usize::MAX,
    ensures
        run_consistent(advance(s, i).0, advance(s, i).1),
        same_entries(s, advance(s, i).0),
        0 <= run_measure(s.len() as int, advance(s, i).1) <= 8 * (s.len() - i) + 5,
        cursor(s.len() as int, advance(s, i).1) >= i,
    decreases s.len() - i, 1int,
{
    if i < s.len() {
        match s[i].status_info {
            DownloadStatus::NotStarted => lemma_prepare(s, i),
            DownloadStatus::InProgress => lemma_advance(s, i + 1),
            DownloadStatus::Failed { .. } => {
                let t = s.update(i, with_status(s[i], DownloadStatus::NotStarted));
                assert(t[i].status_info is NotStarted);
            },
            _ => {},
        }
    }
}

proof fn lemma_prepare(s: Seq<DownloadItem>, i: int)
    requires
        0 <= i < s.len(),
        s.len() <= usize::MAX,
    ensures
        run_consistent(prepare(s, i).0, prepare(s, i).1),
        same_entries(s, prepare(s, i).0),
        0 <= run_measure(s.len() as int, prepare(s, i).1) <= 8 * (s.len() - i) + 3,
        cursor(s.len() as int, prepare(s, i).1) >= i,
    decreases s.len() - i, 0int,
{
    if s[i].url@.len() > 0 {
        let t = s.update(i, with_status(s[i], DownloadStatus::InProgress));
        assert(t[i].status_info is InProgress && t[i].url@ == s[i].url@);
    } else {
        lemma_advance(s, i + 1);
    }
}

/// A run starts in a phase consistent with the list and changes nothing
/// but statuses.
pub proof fn law_run_begin(s: Seq<DownloadItem>)
    requires
        s.len() <= usize::MAX,
    ensures
        run_consistent(begin(s).0, begin(s).1),
        same_entries(s, begin(s).0),
{
    if !all_completed(s) {
        lemma_advance(s, 0);
    }
}

/// Every step of a run keeps the phase consistent with the list and changes
/// nothing but statuses; an event the phase waits for strictly lowers
/// `run_measure` (so every run ends), and any other event changes nothing.
/// Once entries are being processed the run never goes back to an earlier
/// one, and after an entry's download is recorded it moves past it, so no
/// entry is downloaded twice in one run.
pub proof fn law_run_step(s: Seq<DownloadItem>, phase: RunPhase, event: RunEvent)
    requires
        run_consistent(s, phase),
        s.len() <= usize::MAX,
    ensures
        run_consistent(step(s, phase, event).0, step(s, phase, event).1),
        same_entries(s, step(s, phase, event).0),
        accepts(phase, event) ==> 0 <= run_measure(s.len() as int, step(s, phase, event).1)
            < run_measure(s.len() as int, phase),
        !accepts(phase, event) ==> step(s, phase, event) == (s, phase),
        accepts(phase, event) && !(phase is Verifying) ==> cursor(s.len() as int, step(s, phase, event).1)
            >= cursor(s.len() as int, phase),
        accepts(phase, event) && phase is DoneSaved ==> cursor(s.len() as int, step(s, phase, event).1)
            > cursor(s.len() as int, phase),
{
    if accepts(phase, event) {
        match phase {
            RunPhase::Verifying { index } => {
                let i = index as int;
                if !integrity_holds(s[i].status_info, event->FileChecked_size) {
                    lemma_advance(s, 0);
                }
            },
            RunPhase::Inspecting { index } => {
                let i = index as int;
                if !integrity_holds(s[i].status_info, event->FileChecked_size) {
                    let t = s.update(i, with_status(s[i], DownloadStatus::NotStarted));
                    assert(t[i].status_info is NotStarted);
                } else if s[i].status_info is Partial {
                    lemma_prepare(s, i);
                } else {
                    lemma_advance(s, i + 1);
                }
            },
            RunPhase::ResetSaved { index } => lemma_prepare(s, index as int),
            RunPhase::DoneSaved { index } => lemma_advance(s, index + 1),
            _ => {},
        }
    }
}

// ------------------------------------------------------------------
// The manager
// ------------------------------------------------------------------

/// Keeps the tracking model, changes it as downloads are registered and run,
/// and tells the application when to persist it.
pub struct SmartManager {
    name: String,
    tracking_file: String,
    tracking_info: DownloadConfig,
    is_first_run: bool,
    registry_update_due: bool,
    state_save_due: bool,
    phase: RunPhase,
    show_progress: bool,
}

impl SmartManager {
    #[verifier::type_invariant]
    spec fn inv(self) -> bool {
        run_consistent(self.tracking_info.downloads@, self.phase)
    }

    /// The tracking model.
    pub closed spec fn config(&self) -> DownloadConfig {
        self.tracking_info
    }

    /// The download list: that of the tracking model.
    pub open spec fn downloads(&self) -> Seq<DownloadItem> {
        self.config().downloads@
    }

    /// Where the current run stands.
    pub closed spec fn phase(&self) -> RunPhase {
        self.phase
    }

    /// Whether the current run draws progress bars.
    pub closed spec fn progress_shown(&self) -> bool {
        self.show_progress
    }

    pub closed spec fn spec_name(&self) -> Seq<char> {
        self.name@
    }

    pub closed spec fn spec_tracking_file(&self) -> Seq<char> {
        self.tracking_file@
    }

    pub closed spec fn spec_is_first_run(&self) -> bool {
        self.is_first_run
    }

    pub closed spec fn spec_registry_update_due(&self) -> bool {
        self.registry_update_due
    }

    pub closed spec fn spec_state_save_due(&self) -> bool {
        self.state_save_due
    }

    /// The state after the run's phase and list became `r`, all else kept.
    pub open spec fn moved_to(&self, other: &SmartManager, r: (Seq<DownloadItem>, RunPhase)) -> bool {
        &&& other.downloads() == r.0
        &&& other.phase() == r.1
        &&& other.config().name == self.config().name
        &&& other.spec_name() == self.spec_name()
        &&& other.spec_tracking_file() == self.spec_tracking_file()
        &&& other.spec_is_first_run() == self.spec_is_first_run()
        &&& other.spec_registry_update_due() == self.spec_registry_update_due()
        &&& other.spec_state_save_due() == self.spec_state_save_due()
    }

    /// A manager for the tracking file `tracking_file`. `is_first_run` tells
    /// that the file did not exist; `loaded` is what could be read from it
    /// (`None` when reading or parsing failed). The model is the loaded one
    /// on a later run, else an empty tracker. The state must be saved at once
    /// when `save_on_start` is set (see `select_tracking_file`) or on a first
    /// run. The registry key is only used on a first run: only then must the
    /// file's path be written to it.
    pub fn new(
        name: String,
        tracking_file: String,
        save_on_start: bool,
        is_first_run: bool,
        loaded: Option<DownloadConfig>,
    ) -> (m: SmartManager)
        ensures
            m.spec_name() == name@,
            m.spec_tracking_file() == tracking_file@,
            m.spec_is_first_run() == is_first_run,
            m.spec_registry_update_due() == is_first_run,
            m.spec_state_save_due() == (save_on_start || is_first_run),
            !is_first_run && loaded is Some ==> m.config() == loaded->0,
            is_first_run || loaded is None ==> m.config().name@ == tracker_name()
                && m.downloads().len() == 0,
            m.phase() is Idle,
            m.progress_shown(),
    {
        let tracking_info = if !is_first_run {
            match loaded {
                Some(c) => c,
                None => default_config(),
            }
        } else {
            default_config()
        };
        SmartManager {
            name,
            tracking_file,
            tracking_info,
            is_first_run,
            registry_update_due: is_first_run,
            state_save_due: save_on_start || is_first_run,
            phase: RunPhase::Idle,
            show_progress: true,
        }
    }

    /// The tracking model.
    pub fn get_status(&self) -> (c: &DownloadConfig)
        ensures
            *c == self.config(),
            c.downloads@ == self.downloads(),
    {
        &self.tracking_info
    }

    /// The tracking file's path.
    pub fn tracking_file(&self) -> (p: &String)
        ensures
            p@ == self.spec_tracking_file(),
    {
        &self.tracking_file
    }

    /// The manager's name.
    pub fn name(&self) -> (n: &String)
        ensures
            n@ == self.spec_name(),
    {
        &self.name
    }

    /// Whether the tracking file did not exist when the manager was made.
    pub fn is_first_run(&self) -> (b: bool)
        ensures
            b == self.spec_is_first_run(),
    {
        self.is_first_run
    }

    /// Whether the tracking state must be saved as soon as the manager is made.
    pub fn state_save_due(&self) -> (b: bool)
        ensures
            b == self.spec_state_save_due(),
    {
        self.state_save_due
    }

    /// Whether the tracking file's path must be written to the registry.
    pub fn registry_update_due(&self) -> (b: bool)
        ensures
            b == self.spec_registry_update_due(),
    {
        self.registry_update_due
    }
}


// ------------------------------------------------------------------
// Laws of registration
// ------------------------------------------------------------------

proof fn lemma_first_exists(s: Seq<DownloadItem>, id: Seq<char>, k: int)
    requires
        0 <= k < s.len(),
        s[k].id@ == id,
    ensures
        exists|i: int| #[trigger] is_first_with_id(s, id, i),
    decreases k,
{
    if exists|j: int| 0 <= j < k && #[trigger] s[j].id@ == id {
        let j = choose|j: int| 0 <= j < k && #[trigger] s[j].id@ == id;
        lemma_first_exists(s, id, j);
    } else {
        assert(is_first_with_id(s, id, k));
    }
}

proof fn lemma_first_unique(s: Seq<DownloadItem>, id: Seq<char>, i: int, k: int)
    requires
        is_first_with_id(s, id, i),
        is_first_with_id(s, id, k),
    ensures
        i == k,
{
    if i < k {
        assert(s[i].id@ != id);
    } else if k < i {
        assert(s[k].id@ != id);
    }
}

proof fn lemma_absent(s: Seq<DownloadItem>, id: Seq<char>)
    requires
        !(exists|i: int| #[trigger] is_first_with_id(s, id, i)),
    ensures
        forall|j: int| 0 <= j < s.len() ==> #[trigger] s[j].id@ != id,
{
    assert forall|j: int| 0 <= j < s.len() implies #[trigger] s[j].id@ != id by {
        if s[j].id@ == id {
            lemma_first_exists(s, id, j);
        }
    }
}

/// Registering a download puts an entry with its id first among those with
/// that id, holding the given name, URL and destination; an entry that was
/// there keeps its place, a new one goes to the end, and every other entry
/// is left as it was.
pub proof fn law_register_effect(s: Seq<DownloadItem>, id: String, name: String, url: String, destination: String)
    ensures
        ({
            let r = registered(s, id, name, url, destination);
            exists|i: int| {
                &&& #[trigger] is_first_with_id(r, id@, i)
                &&& r[i].name == name
                &&& r[i].url == url
                &&& r[i].destination == destination
                &&& forall|k: int| 0 <= k < s.len() && k != i ==> #[trigger] r[k] == s[k]
                &&& (has_id(s, id@) ==> r.len() == s.len())
                &&& (!has_id(s, id@) ==> r.len() == s.len() + 1 && i == s.len()
                    && r[i].status_info is NotStarted)
            }
        }),
{
    let r = registered(s, id, name, url, destination);
    if exists|i: int| #[trigger] is_first_with_id(s, id@, i) {
        let i = choose|i: int| #[trigger] is_first_with_id(s, id@, i);
        assert(is_first_with_id(r, id@, i));
        assert(has_id(s, id@)) by {
            assert(s[i].id@ == id@);
        }
    } else {
        lemma_absent(s, id@);
        let i = s.len() as int;
        assert(is_first_with_id(r, id@, i));
        assert(!has_id(s, id@));
    }
}

/// Registering the same download twice has the effect of registering it once.
pub proof fn law_register_idempotent(s: Seq<DownloadItem>, id: String, name: String, url: String, destination: String)
    ensures
        registered(registered(s, id, name, url, destination), id, name, url, destination)
            == registered(s, id, name, url, destination),
{
    let r = registered(s, id, name, url, destination);
    if exists|i: int| #[trigger] is_first_with_id(s, id@, i) {
        let i = choose|i: int| #[trigger] is_first_with_id(s, id@, i);
        assert(is_first_with_id(r, id@, i));
        let k = choose|k: int| #[trigger] is_first_with_id(r, id@, k);
        lemma_first_unique(r, id@, i, k);
        assert(reregistered(r[i], name, url, destination) == r[i]);
        assert(r.update(i, r[i]) =~= r);
    } else {
        lemma_absent(s, id@);
        let i = s.len() as int;
        assert(is_first_with_id(r, id@, i));
        let k = choose|k: int| #[trigger] is_first_with_id(r, id@, k);
        lemma_first_unique(r, id@, i, k);
        assert(reregistered(r[i], name, url, destination) == r[i]);
        assert(r.update(i, r[i]) =~= r);
    }
}

/// Registering downloads never makes two entries share an id.
pub proof fn law_register_keeps_ids_unique(s: Seq<DownloadItem>, id: String, name: String, url: String, destination: String)
    requires
        ids_unique(s),
    ensures
        ids_unique(registered(s, id, name, url, destination)),
{
    let r = registered(s, id, name, url, destination);
    if exists|i: int| #[trigger] is_first_with_id(s, id@, i) {
        let i = choose|i: int| #[trigger] is_first_with_id(s, id@, i);
        assert forall|a: int, b: int| 0 <= a < r.len() && 0 <= b < r.len() && a != b implies #[trigger] r[a].id@ != #[trigger] r[b].id@ by {
            assert(r[a].id == s[a].id);
            assert(r[b].id == s[b].id);
        }
    } else {
        lemma_absent(s, id@);
        assert forall|a: int, b: int| 0 <= a < r.len() && 0 <= b < r.len() && a != b implies #[trigger] r[a].id@ != #[trigger] r[b].id@ by {
            if a < s.len() && b < s.len() {
                assert(r[a] == s[a] && r[b] == s[b]);
            } else if a < s.len() {
                assert(r[a] == s[a]);
            } else {
                assert(r[b] == s[b]);
            }
        }
    }
}

/// The download list changed only in the status of entry `i`.
fn set_status(downloads: &mut Vec<DownloadItem>, i: usize, status: DownloadStatus)
    requires
        i < old(downloads).len(),
    ensures
        final(downloads)@ == old(downloads)@.update(i as int, with_status(old(downloads)@[i as int], status)),
{
    let mut item = downloads.remove(i);
    item.status_info = status;
    downloads.insert(i, item);
    assert(downloads@ =~= old(downloads)@.update(i as int, with_status(old(downloads)@[i as int], status)));
}

/// Registers a download in `downloads`; see `registered`.
fn register(downloads: &mut Vec<DownloadItem>, id: String, name: String, url: String, destination: String)
    ensures
        final(downloads)@ == registered(old(downloads)@, id, name, url, destination),
{
    let ghost s = downloads@;
    let len = downloads.len();
    let mut i: usize = 0;
    while i < len
        invariant
            0 <= i <= len,
            len == s.len(),
            downloads@ == s,
            s == old(downloads)@,
            forall|j: int| 0 <= j < i ==> #[trigger] s[j].id@ != id@,
        decreases len - i,
    {
        if downloads[i].id == id {
            let old_item = downloads.remove(i);
            let reset = match old_item.status_info {
                DownloadStatus::Failed { .. } => true,
                _ => false,
            } || !(old_item.url == url) || !(old_item.destination == destination);
            let status_info = if reset {
                DownloadStatus::NotStarted
            } else {
                old_item.status_info
            };
            let item = DownloadItem { id: old_item.id, name, url, destination, status_info };
            downloads.insert(i, item);
            proof {
                assert(is_first_with_id(s, id@, i as int));
                let k = choose|k: int| #[trigger] is_first_with_id(s, id@, k);
                lemma_first_unique(s, id@, i as int, k);
                assert(downloads@ =~= registered(s, id, name, url, destination));
            }
            return;
        }
        i += 1;
    }
    let ghost fresh = fresh_item(id, name, url, destination);
    downloads.push(DownloadItem { id, name, url, destination, status_info: DownloadStatus::NotStarted });
    proof {
        assert(!(exists|k: int| #[trigger] is_first_with_id(s, id@, k))) by {
            if exists|k: int| #[trigger] is_first_with_id(s, id@, k) {
                let k = choose|k: int| #[trigger] is_first_with_id(s, id@, k);
                assert(s[k].id@ == id@);
            }
        }
        assert(downloads@ =~= s.push(fresh));
    }
}

impl SmartManager {
    /// Registers a download, or updates the entry that already has its id
    /// (the first one, should there be several): the name, URL and
    /// destination are replaced, and the entry goes back to `NotStarted` when
    /// it had failed or its URL or destination changed. A run in progress is
    /// abandoned. The application persists the state afterwards.
    pub fn add_download(&mut self, id: String, name: String, url: String, destination: String)
        ensures
            old(self).moved_to(final(self), (registered(old(self).downloads(), id, name, url, destination), RunPhase::Idle)),
            final(self).progress_shown() == old(self).progress_shown(),
    {
        self.phase = RunPhase::Idle;
        let mut downloads: Vec<DownloadItem> = Vec::new();
        std::mem::swap(&mut downloads, &mut self.tracking_info.downloads);
        register(&mut downloads, id, name, url, destination);
        self.tracking_info.downloads = downloads;
    }

    /// Replaces the status of entry `i`; no run may be in progress.
    fn update_status(&mut self, i: usize, status: DownloadStatus)
        requires
            old(self).phase is Idle,
            i < old(self).tracking_info.downloads@.len(),
        ensures
            old(self).moved_to(final(self), (old(self).tracking_info.downloads@.update(i as int,
                with_status(old(self).tracking_info.downloads@[i as int], status)), RunPhase::Idle)),
            final(self).show_progress == old(self).show_progress,
    {
        let mut downloads: Vec<DownloadItem> = Vec::new();
        std::mem::swap(&mut downloads, &mut self.tracking_info.downloads);
        set_status(&mut downloads, i, status);
        self.tracking_info.downloads = downloads;
    }
}

/// The laws that every step of a run keeps: the action fits the new state,
/// a download is only asked for an entry that has a URL and is marked
/// `InProgress`, and a finished run reports truthfully whether every entry
/// is completed.
pub open spec fn action_fits(s: Seq<DownloadItem>, action: RunAction) -> bool {
    &&& (action matches RunAction::Download { index, url, .. } ==> {
        &&& index < s.len()
        &&& url@.len() > 0
        &&& url == s[index as int].url
        &&& s[index as int].status_info is InProgress
    })
    &&& (action matches RunAction::Finish { outcome } ==> match outcome {
        RunOutcome::AlreadyVerified => all_completed(s),
        RunOutcome::Processed { all_completed: a } => a == all_completed(s),
    })
}

proof fn lemma_action_fits(s: Seq<DownloadItem>, phase: RunPhase, show_progress: bool)
    requires
        run_consistent(s, phase),
    ensures
        action_fits(s, pending_action(s, phase, show_progress)),
{
}

impl SmartManager {
    /// Whether every entry is completed.
    fn are_all_downloads_completed(&self) -> (b: bool)
        ensures
            b == all_completed(self.tracking_info.downloads@),
    {
        let len = self.tracking_info.downloads.len();
        let mut i: usize = 0;
        while i < len
            invariant
                i <= len,
                len == self.tracking_info.downloads@.len(),
                forall|k: int| 0 <= k < i ==> (#[trigger] self.tracking_info.downloads@[k]).status_info is Completed,
            decreases len - i,
        {
            match self.tracking_info.downloads[i].status_info {
                DownloadStatus::Completed => {},
                _ => {
                    return false;
                },
            }
            i += 1;
        }
        true
    }

    /// Walks the entries from `start` on; see `advance`.
    fn process_pending_downloads(&mut self, start: usize)
        requires
            old(self).phase is Idle,
            start <= old(self).tracking_info.downloads@.len(),
        ensures
            old(self).moved_to(final(self), advance(old(self).tracking_info.downloads@, start as int)),
            final(self).show_progress == old(self).show_progress,
    {
        let ghost s = self.tracking_info.downloads@;
        let len = self.tracking_info.downloads.len();
        let mut i: usize = start;
        while i < len
            invariant
                start <= i <= len,
                len == s.len(),
                s == old(self).tracking_info.downloads@,
                self.tracking_info.downloads@ == s,
                self.phase is Idle,
                self.name == old(self).name,
                self.tracking_file == old(self).tracking_file,
                self.tracking_info.name == old(self).tracking_info.name,
                self.is_first_run == old(self).is_first_run,
                self.registry_update_due == old(self).registry_update_due,
                self.state_save_due == old(self).state_save_due,
                self.show_progress == old(self).show_progress,
                advance(s, start as int) == advance(s, i as int),
            decreases len - i,
        {
            let (not_started, in_progress, failed) = match self.tracking_info.downloads[i].status_info {
                DownloadStatus::NotStarted => (true, false, false),
                DownloadStatus::InProgress => (false, true, false),
                DownloadStatus::Failed { .. } => (false, false, true),
                _ => (false, false, false),
            };
            if not_started {
                assert(s[i as int].status_info is NotStarted);
                assert(advance(s, i as int) == prepare(s, i as int));
                if self.tracking_info.downloads[i].url.as_str().is_empty() {
                    assert(advance(s, i as int) == advance(s, i + 1));
                    i += 1;
                } else {
                    self.update_status(i, DownloadStatus::InProgress);
                    self.phase = RunPhase::StartSaved { index: i };
                    return;
                }
            } else if in_progress {
                assert(advance(s, i as int) == advance(s, i + 1));
                i += 1;
            } else if failed {
                self.update_status(i, DownloadStatus::NotStarted);
                self.phase = RunPhase::ResetSaved { index: i };
                return;
            } else {
                self.phase = RunPhase::Inspecting { index: i };
                return;
            }
        }
        let all_completed = self.are_all_downloads_completed();
        self.phase = RunPhase::Finished { outcome: RunOutcome::Processed { all_completed } };
    }

    /// Gets entry `i` ready for its download; see `prepare`.
    fn prepare_download(&mut self, i: usize)
        requires
            old(self).phase is Idle,
            i < old(self).tracking_info.downloads@.len(),
        ensures
            old(self).moved_to(final(self), prepare(old(self).tracking_info.downloads@, i as int)),
            final(self).show_progress == old(self).show_progress,
    {
        let len = self.tracking_info.downloads.len();
        if self.tracking_info.downloads[i].url.as_str().is_empty() {
            assert(i + 1 <= len);
            self.process_pending_downloads(i + 1);
        } else {
            self.update_status(i, DownloadStatus::InProgress);
            self.phase = RunPhase::StartSaved { index: i };
        }
    }

    /// The action the current phase asks for.
    fn next_action(&self) -> (a: RunAction)
        ensures
            a == pending_action(self.tracking_info.downloads@, self.phase, self.show_progress),
    {
        proof {
            use_type_invariant(self);
        }
        match self.phase {
            RunPhase::Idle => RunAction::Idle,
            RunPhase::Verifying { index } => RunAction::CheckFile {
                index,
                destination: self.tracking_info.downloads[index].destination.clone(),
            },
            RunPhase::Inspecting { index } => RunAction::CheckFile {
                index,
                destination: self.tracking_info.downloads[index].destination.clone(),
            },
            RunPhase::ResetSaved { .. } => RunAction::Save,
            RunPhase::StartSaved { .. } => RunAction::Save,
            RunPhase::DoneSaved { .. } => RunAction::Save,
            RunPhase::Downloading { index } => RunAction::Download {
                index,
                name: self.tracking_info.downloads[index].name.clone(),
                url: self.tracking_info.downloads[index].url.clone(),
                destination: self.tracking_info.downloads[index].destination.clone(),
                show_progress: self.show_progress,
            },
            RunPhase::Finished { outcome } => RunAction::Finish { outcome },
        }
    }

    /// Starts processing the downloads with normal console output.
    pub fn start_downloads(&mut self) -> (action: RunAction)
        ensures
            old(self).moved_to(final(self), begin(old(self).downloads())),
            final(self).progress_shown(),
            action == pending_action(final(self).downloads(), final(self).phase(), final(self).progress_shown()),
            same_entries(old(self).downloads(), final(self).downloads()),
            action_fits(final(self).downloads(), action),
    {
        self.start_downloads_with_verbosity(Verbosity::Normal)
    }

    /// Starts processing the downloads. When every entry is completed the
    /// files are verified first and, if they all check out, there is nothing
    /// to do; otherwise the entries are taken in order: those not started are
    /// downloaded (unless they have no URL), those in progress are left
    /// alone, completed and partial ones have their file checked (a partial
    /// one, or one whose file does not check out, is downloaded again), and
    /// failed ones are reset and downloaded again. Progress bars are shown
    /// unless `verbosity` is `NoConsole`. Returns the first thing for the
    /// application to do; it reports back through `resume_downloads`.
    pub fn start_downloads_with_verbosity(&mut self, verbosity: Verbosity) -> (action: RunAction)
        ensures
            old(self).moved_to(final(self), begin(old(self).downloads())),
            final(self).progress_shown() == !(verbosity is NoConsole),
            action == pending_action(final(self).downloads(), final(self).phase(), final(self).progress_shown()),
            same_entries(old(self).downloads(), final(self).downloads()),
            action_fits(final(self).downloads(), action),
    {
        proof {
            use_type_invariant(&*self);
        }
        let len = self.tracking_info.downloads.len();
        proof {
            law_run_begin(self.tracking_info.downloads@);
        }
        self.show_progress = verbosity.shows_progress();
        self.phase = RunPhase::Idle;
        if self.are_all_downloads_completed() {
            if len == 0 {
                self.phase = RunPhase::Finished { outcome: RunOutcome::AlreadyVerified };
            } else {
                self.phase = RunPhase::Verifying { index: 0 };
            }
        } else {
            self.process_pending_downloads(0);
        }
        proof {
            lemma_action_fits(self.tracking_info.downloads@, self.phase, self.show_progress);
        }
        self.next_action()
    }

    /// Takes the application's report on the last action and returns the
    /// next one; see `step`. An event the run does not wait for changes
    /// nothing and the pending action is returned again.
    pub fn resume_downloads(&mut self, event: RunEvent) -> (action: RunAction)
        ensures
            old(self).moved_to(final(self), step(old(self).downloads(), old(self).phase(), event)),
            final(self).progress_shown() == old(self).progress_shown(),
            action == pending_action(final(self).downloads(), final(self).phase(), final(self).progress_shown()),
            same_entries(old(self).downloads(), final(self).downloads()),
            action_fits(final(self).downloads(), action),
            accepts(old(self).phase(), event) ==> 0 <= run_measure(final(self).downloads().len() as int, final(self).phase())
                < run_measure(old(self).downloads().len() as int, old(self).phase()),
    {
        proof {
            use_type_invariant(&*self);
        }
        let len = self.tracking_info.downloads.len();
        proof {
            law_run_step(self.tracking_info.downloads@, self.phase, event);
        }
        let phase = self.phase;
        match event {
            RunEvent::Saved => match phase {
                RunPhase::ResetSaved { index } => {
                    self.phase = RunPhase::Idle;
                    self.prepare_download(index);
                },
                RunPhase::StartSaved { index } => {
                    self.phase = RunPhase::Downloading { index };
                },
                RunPhase::DoneSaved { index } => {
                    self.phase = RunPhase::Idle;
                    self.process_pending_downloads(index + 1);
                },
                _ => {},
            },
            RunEvent::FileChecked { size } => match phase {
                RunPhase::Verifying { index } => {
                    if verify_file_integrity(&self.tracking_info.downloads[index], size) {
                        if index + 1 >= len {
                            self.phase = RunPhase::Finished { outcome: RunOutcome::AlreadyVerified };
                        } else {
                            self.phase = RunPhase::Verifying { index: index + 1 };
                        }
                    } else {
                        self.phase = RunPhase::Idle;
                        self.process_pending_downloads(0);
                    }
                },
                RunPhase::Inspecting { index } => {
                    let partial = match self.tracking_info.downloads[index].status_info {
                        DownloadStatus::Partial { .. } => true,
                        _ => false,
                    };
                    if !verify_file_integrity(&self.tracking_info.downloads[index], size) {
                        self.phase = RunPhase::Idle;
                        self.update_status(index, DownloadStatus::NotStarted);
                        self.phase = RunPhase::ResetSaved { index };
                    } else if partial {
                        self.phase = RunPhase::Idle;
                        self.prepare_download(index);
                    } else {
                        self.phase = RunPhase::Idle;
                        self.process_pending_downloads(index + 1);
                    }
                },
                _ => {},
            },
            RunEvent::Downloaded { result, size } => match phase {
                RunPhase::Downloading { index } => {
                    let status = download_outcome_status(result, size);
                    self.phase = RunPhase::Idle;
                    self.update_status(index, status);
                    self.phase = RunPhase::DoneSaved { index };
                },
                _ => {},
            },
        }
        proof {
            lemma_action_fits(self.tracking_info.downloads@, self.phase, self.show_progress);
        }
        self.next_action()
    }
}

// ------------------------------------------------------------------
// Laws of the individual decisions
// ------------------------------------------------------------------

/// While a run verifies a list of completed entries, it moves on to the
/// next entry (or finishes with everything verified) only when the file it
/// asked about exists and is non-empty; a missing or empty file sends the run
/// to process the entries from the first one, whose file is checked again.
pub proof fn law_verification_needs_nonempty_file(s: Seq<DownloadItem>, i: usize, size: Option<u64>)
    requires
        run_consistent(s, RunPhase::Verifying { index: i }),
        s.len() <= usize::MAX,
    ensures
        (size matches Some(n) && n > 0) ==> step(s, RunPhase::Verifying { index: i }, RunEvent::FileChecked { size })
            == (s, if i + 1 >= s.len() {
                RunPhase::Finished { outcome: RunOutcome::AlreadyVerified }
            } else {
                RunPhase::Verifying { index: (i + 1) as usize }
            }),
        !(size matches Some(n) && n > 0) ==> step(s, RunPhase::Verifying { index: i }, RunEvent::FileChecked { size })
            == (s, RunPhase::Inspecting { index: 0 }),
{
    assert(s[i as int].status_info is Completed);
    assert(s[0].status_info is Completed);
}

/// After a successful attempt that announced `total` bytes and left `current`
/// bytes on disk, the entry is completed exactly when the file holds at least
/// the announced bytes, and otherwise partial with exactly those two counts.
/// Without an announced total, or without a readable file, it counts as
/// completed; a failed attempt records its error text.
pub proof fn law_download_outcome(total: u64, current: u64, message: String)
    ensures
        current >= total ==> outcome_status(Ok(Some(total)), Some(current)) is Completed,
        current < total ==> outcome_status(Ok(Some(total)), Some(current))
            == (DownloadStatus::Partial { bytes_downloaded: current, total_bytes: total }),
        outcome_status(Ok(None), Some(current)) is Completed,
        outcome_status(Ok(Some(total)), None) is Completed,
        outcome_status(Err(message), Some(current)) == (DownloadStatus::Failed { error_message: Some(message) }),
{
}

/// Registering an existing entry again keeps its status when it had not
/// failed and its URL and destination are unchanged (only the name is
/// replaced); when it had failed, or the URL or destination changed, its
/// status becomes `NotStarted`.
pub proof fn law_register_status(s: Seq<DownloadItem>, i: int, id: String, name: String, url: String, destination: String)
    requires
        is_first_with_id(s, id@, i),
    ensures
        ({
            let r = registered(s, id, name, url, destination);
            &&& r.len() == s.len()
            &&& r[i].id == s[i].id
            &&& r[i].name == name
            &&& r[i].url == url
            &&& r[i].destination == destination
            &&& (!(s[i].status_info is Failed) && s[i].url@ == url@ && s[i].destination@ == destination@
                ==> r[i].status_info == s[i].status_info)
            &&& ((s[i].status_info is Failed || s[i].url@ != url@ || s[i].destination@ != destination@)
                ==> r[i].status_info is NotStarted)
        }),
{
    let k = choose|k: int| #[trigger] is_first_with_id(s, id@, k);
    lemma_first_unique(s, id@, i, k);
}

} // verus!
