//! What the screen currently shows, and how keys and finished background
//! work change it.

use crate::makemkv::{
    parse_progress, progress_of, DiskInfo, DiskInfoView, ExtractError, Progress, ProgressView,
};
use vstd::prelude::*;

verus! {

/// A key as the terminal reports it.
#[derive(Debug, Clone, Copy, PartialEq, Eq)]
pub enum Key {
    Char(char),
    Esc,
    Up,
    Down,
    Enter,
    /// Any key that the interface has no use for.
    Other,
}

/// What a key asks the interface to do.
#[derive(Debug, Clone, Copy, PartialEq, Eq)]
pub enum Command {
    Quit,
    Up,
    Down,
    Confirm,
}

/// The command that `key` is bound to: `q` and escape quit, the arrows and
/// `k`/`j` move the cursor, enter and `l` confirm.
pub open spec fn command_of(key: Key) -> Option<Command> {
    match key {
        Key::Char(c) => if c == 'q' {
            Some(Command::Quit)
        } else if c == 'k' {
            Some(Command::Up)
        } else if c == 'j' {
            Some(Command::Down)
        } else if c == 'l' {
            Some(Command::Confirm)
        } else {
            None
        },
        Key::Esc => Some(Command::Quit),
        Key::Up => Some(Command::Up),
        Key::Down => Some(Command::Down),
        Key::Enter => Some(Command::Confirm),
        Key::Other => None,
    }
}

impl Key {
    /// The command that this key is bound to.
    pub fn command(self) -> (out: Option<Command>)
        ensures
            out == command_of(self),
    {
        match self {
            Key::Char(c) => if c == 'q' {
                Some(Command::Quit)
            } else if c == 'k' {
                Some(Command::Up)
            } else if c == 'j' {
                Some(Command::Down)
            } else if c == 'l' {
                Some(Command::Confirm)
            } else {
                None
            },
            Key::Esc => Some(Command::Quit),
            Key::Up => Some(Command::Up),
            Key::Down => Some(Command::Down),
            Key::Enter => Some(Command::Confirm),
            Key::Other => None,
        }
    }
}

/// Background work that the host is to start. Its outcome comes back
/// through [`AppState::drives_found`], [`AppState::disk_titles_found`],
/// [`AppState::extraction_progress`] and [`AppState::extraction_finished`].
#[derive(Debug, PartialEq, Eq)]
pub enum Action {
    /// List the optical drives.
    FindDrives,
    /// Read the catalog of the disc in `drive`.
    FindDiskTitles { drive: String },
    /// Extract title `title_id` of the disc in `drive` into `output_path`.
    ExtractTitle { drive: String, title_id: u32, output_path: String },
}

/// What an [`Action`] stands for.
pub enum ActionView {
    FindDrives,
    FindDiskTitles { drive: Seq<char> },
    ExtractTitle { drive: Seq<char>, title_id: u32, output_path: Seq<char> },
}

impl View for Action {
    type V = ActionView;

    open spec fn view(&self) -> ActionView {
        match self {
            Action::FindDrives => ActionView::FindDrives,
            Action::FindDiskTitles { drive } => ActionView::FindDiskTitles { drive: drive@ },
            Action::ExtractTitle { drive, title_id, output_path } => ActionView::ExtractTitle {
                drive: drive@,
                title_id: *title_id,
                output_path: output_path@,
            },
        }
    }
}

impl DeepView for Action {
    type V = ActionView;

    open spec fn deep_view(&self) -> ActionView {
        self@
    }
}

/// What the interface currently shows. Exactly one variant is live at a
/// time, and every transition replaces the whole value.
#[derive(Debug, PartialEq, Eq)]
pub enum AppState {
    /// The drive list is being loaded.
    InitLoading,
    /// The drives that were found, awaiting a pick.
    DriveList { drives: Vec<String>, selected: Option<usize> },
    /// The disc in the chosen drive is being inspected.
    DriveInfoLoading(String),
    /// The titles that were found, awaiting a pick.
    DriveInfo { drive: String, disk_info: DiskInfo, selected: Option<usize> },
    /// A title is being extracted.
    TitleExtracting {
        drive: String,
        disk_info: DiskInfo,
        title_id: u32,
        total: u32,
        extracted: u32,
        task: String,
    },
    /// The extraction succeeded; a menu of two entries is offered.
    Done { disk_info: DiskInfo, drive: String, title_id: u32, selected: Option<usize> },
    /// The program is to stop.
    Exit,
}

/// What an [`AppState`] stands for.
pub enum AppStateView {
    InitLoading,
    DriveList { drives: Seq<Seq<char>>, selected: Option<nat> },
    DriveInfoLoading(Seq<char>),
    DriveInfo { drive: Seq<char>, disk_info: DiskInfoView, selected: Option<nat> },
    TitleExtracting {
        drive: Seq<char>,
        disk_info: DiskInfoView,
        title_id: u32,
        total: u32,
        extracted: u32,
        task: Seq<char>,
    },
    Done { disk_info: DiskInfoView, drive: Seq<char>, title_id: u32, selected: Option<nat> },
    Exit,
}

impl View for AppState {
    type V = AppStateView;

    open spec fn view(&self) -> AppStateView {
        match self {
            AppState::InitLoading => AppStateView::InitLoading,
            AppState::DriveList { drives, selected } => AppStateView::DriveList {
                drives: drives.deep_view(),
                selected: cursor_view(*selected),
            },
            AppState::DriveInfoLoading(drive) => AppStateView::DriveInfoLoading(drive@),
            AppState::DriveInfo { drive, disk_info, selected } => AppStateView::DriveInfo {
                drive: drive@,
                disk_info: disk_info@,
                selected: cursor_view(*selected),
            },
            AppState::TitleExtracting {
                drive,
                disk_info,
                title_id,
                total,
                extracted,
                task,
            } => AppStateView::TitleExtracting {
                drive: drive@,
                disk_info: disk_info@,
                title_id: *title_id,
                total: *total,
                extracted: *extracted,
                task: task@,
            },
            AppState::Done { disk_info, drive, title_id, selected } => AppStateView::Done {
                disk_info: disk_info@,
                drive: drive@,
                title_id: *title_id,
                selected: cursor_view(*selected),
            },
            AppState::Exit => AppStateView::Exit,
        }
    }
}

/// The number of entries in the menu shown once an extraction is done.
pub const DONE_MENU_LEN: usize = 2;

/// The position that a cursor points at, as a number.
pub open spec fn cursor_view(selected: Option<usize>) -> Option<nat> {
    match selected {
        Some(i) => Some(i as nat),
        None => None,
    }
}

/// Whether `selected` is a proper cursor over a list of `len` entries: an
/// index into the list, or absent when there is nothing to point at.
pub open spec fn cursor_fits(selected: Option<nat>, len: nat) -> bool {
    match selected {
        Some(i) => i < len,
        None => len == 0,
    }
}

/// The cursor over a list that has just been put on screen.
pub open spec fn first_cursor(len: nat) -> Option<nat> {
    if len == 0 {
        None
    } else {
        Some(0)
    }
}

/// The cursor after a step towards the start of the list.
pub open spec fn cursor_up(selected: Option<nat>) -> Option<nat> {
    match selected {
        Some(i) => if i > 0 {
            Some((i - 1) as nat)
        } else {
            selected
        },
        None => None,
    }
}

/// The cursor after a step towards the end of a list of `len` entries. A
/// missing cursor counts as one on the first entry.
pub open spec fn cursor_down(selected: Option<nat>, len: nat) -> Option<nat> {
    let i: nat = match selected {
        Some(i) => i,
        None => 0,
    };
    if i + 1 < len {
        Some(i + 1)
    } else {
        selected
    }
}

impl AppStateView {
    /// The number of entries that the cursor of this state ranges over.
    pub open spec fn len(self) -> nat {
        match self {
            AppStateView::DriveList { drives, .. } => drives.len(),
            AppStateView::DriveInfo { disk_info, .. } => disk_info.titles.len(),
            AppStateView::Done { .. } => DONE_MENU_LEN as nat,
            _ => 0,
        }
    }

    /// The cursor of this state, if its variant has one and it is set.
    pub open spec fn cursor(self) -> Option<nat> {
        match self {
            AppStateView::DriveList { selected, .. } => selected,
            AppStateView::DriveInfo { selected, .. } => selected,
            AppStateView::Done { selected, .. } => selected,
            _ => None,
        }
    }

    /// This state with `selected` as its cursor; the state itself where its
    /// variant has no cursor.
    pub open spec fn with_cursor(self, selected: Option<nat>) -> AppStateView {
        match self {
            AppStateView::DriveList { drives, .. } => AppStateView::DriveList { drives, selected },
            AppStateView::DriveInfo { drive, disk_info, .. } => AppStateView::DriveInfo {
                drive,
                disk_info,
                selected,
            },
            AppStateView::Done { disk_info, drive, title_id, .. } => AppStateView::Done {
                disk_info,
                drive,
                title_id,
                selected,
            },
            _ => self,
        }
    }

    /// Whether the state keeps the invariants of the interface: a cursor
    /// points into its list and is absent only over an empty list, the
    /// extracted count does not exceed a known total, and a catalog lists
    /// its largest title first.
    pub open spec fn wf(self) -> bool {
        match self {
            AppStateView::DriveList { drives, selected } => cursor_fits(selected, drives.len()),
            AppStateView::DriveInfo { disk_info, selected, .. } => {
                &&& cursor_fits(selected, disk_info.titles.len())
                &&& disk_info.largest_first()
            },
            AppStateView::TitleExtracting { disk_info, total, extracted, .. } => {
                &&& total > 0 ==> extracted <= total
                &&& disk_info.largest_first()
            },
            AppStateView::Done { disk_info, selected, .. } => {
                &&& cursor_fits(selected, DONE_MENU_LEN as nat)
                &&& disk_info.largest_first()
            },
            _ => true,
        }
    }

    /// The state after the confirm key.
    ///
    /// A drive under the cursor is inspected and a title under the cursor is
    /// extracted; an empty list is loaded again. In the menu that follows an
    /// extraction, the first entry leaves the program and the second goes
    /// back to the titles of the same disc.
    pub open spec fn confirmed(self) -> AppStateView {
        match self {
            AppStateView::DriveList { drives, selected } => {
                if selected is Some && selected->0 < drives.len() {
                    AppStateView::DriveInfoLoading(drives[selected->0 as int])
                } else if drives.len() == 0 {
                    AppStateView::InitLoading
                } else {
                    self
                }
            },
            AppStateView::DriveInfo { drive, disk_info, selected } => {
                if selected is Some && selected->0 < disk_info.titles.len() {
                    AppStateView::TitleExtracting {
                        drive,
                        disk_info,
                        title_id: disk_info.titles[selected->0 as int].id,
                        total: 0,
                        extracted: 0,
                        task: "Starting..."@,
                    }
                } else if disk_info.titles.len() == 0 {
                    AppStateView::DriveInfoLoading(drive)
                } else {
                    self
                }
            },
            AppStateView::Done { disk_info, drive, selected, .. } => {
                if selected == Some(0nat) {
                    AppStateView::Exit
                } else if selected == Some(1nat) {
                    AppStateView::DriveInfo {
                        drive,
                        disk_info,
                        selected: first_cursor(disk_info.titles.len()),
                    }
                } else {
                    self
                }
            },
            _ => self,
        }
    }

    /// The background work that the confirm key starts in this state.
    pub open spec fn confirm_action(self) -> Option<ActionView> {
        match self {
            AppStateView::DriveList { drives, selected } => {
                if selected is Some && selected->0 < drives.len() {
                    Some(ActionView::FindDiskTitles { drive: drives[selected->0 as int] })
                } else if drives.len() == 0 {
                    Some(ActionView::FindDrives)
                } else {
                    None
                }
            },
            AppStateView::DriveInfo { drive, disk_info, selected } => {
                if selected is Some && selected->0 < disk_info.titles.len() {
                    Some(
                        ActionView::ExtractTitle {
                            drive,
                            title_id: disk_info.titles[selected->0 as int].id,
                            output_path: "."@,
                        },
                    )
                } else if disk_info.titles.len() == 0 {
                    Some(ActionView::FindDiskTitles { drive })
                } else {
                    None
                }
            },
            _ => None,
        }
    }

    /// The state after `key` was pressed.
    pub open spec fn after_key(self, key: Key) -> AppStateView {
        match command_of(key) {
            Some(Command::Quit) => AppStateView::Exit,
            Some(Command::Up) => self.moved_up(),
            Some(Command::Down) => self.moved_down(),
            Some(Command::Confirm) => self.confirmed(),
            None => self,
        }
    }

    /// The background work that pressing `key` starts in this state.
    pub open spec fn action_for_key(self, key: Key) -> Option<ActionView> {
        match command_of(key) {
            Some(Command::Confirm) => self.confirm_action(),
            _ => None,
        }
    }

    /// The state after the listing of the drives ended, with the drives it
    /// found or with nothing if it failed. A failed listing counts as one
    /// that found no drive. A listing that nobody waits for any more is
    /// dropped.
    pub open spec fn with_drives(self, listing: Option<Seq<Seq<char>>>) -> AppStateView {
        match self {
            AppStateView::InitLoading => {
                let drives = match listing {
                    Some(drives) => drives,
                    None => Seq::empty(),
                };
                AppStateView::DriveList { drives, selected: first_cursor(drives.len()) }
            },
            _ => self,
        }
    }

    /// The state after the inspection of the disc ended, with the catalog
    /// it read or with nothing if it failed. A failed inspection counts as
    /// one that read the catalog without titles. A catalog that nobody waits
    /// for any more is dropped.
    pub open spec fn with_disk_info(self, catalog: Option<DiskInfoView>) -> AppStateView {
        match self {
            AppStateView::DriveInfoLoading(drive) => {
                let disk_info = match catalog {
                    Some(disk_info) => disk_info,
                    None => DiskInfoView::unknown(),
                };
                AppStateView::DriveInfo {
                    drive,
                    disk_info,
                    selected: first_cursor(disk_info.titles.len()),
                }
            },
            _ => self,
        }
    }

    /// The state after a progress report. Outside an extraction a report
    /// changes nothing. A task name replaces the task and leaves the
    /// counters; counters replace the counters and leave the task, unless
    /// the extracted count exceeds a positive total, in which case the
    /// report is dropped.
    pub open spec fn progressed(self, report: ProgressView) -> AppStateView {
        match self {
            AppStateView::TitleExtracting {
                drive,
                disk_info,
                title_id,
                total,
                extracted,
                task,
            } => match report {
                ProgressView::Task(label) => AppStateView::TitleExtracting {
                    drive,
                    disk_info,
                    title_id,
                    total,
                    extracted,
                    task: label,
                },
                ProgressView::Counters { extracted: e, total: t } => if t > 0 && e > t {
                    self
                } else {
                    AppStateView::TitleExtracting {
                        drive,
                        disk_info,
                        title_id,
                        total: t,
                        extracted: e,
                        task,
                    }
                },
            },
            _ => self,
        }
    }

    /// The state after the extraction of title `title_id` from `drive`
    /// succeeded: the closing menu, with the catalog of the extraction, or
    /// with the placeholder catalog when the interface had left the
    /// extraction meanwhile.
    pub open spec fn finished(self, drive: Seq<char>, title_id: u32) -> AppStateView {
        AppStateView::Done {
            disk_info: match self {
                AppStateView::TitleExtracting { disk_info, .. } => disk_info,
                _ => DiskInfoView::unknown(),
            },
            drive,
            title_id,
            selected: Some(0nat),
        }
    }

    /// The state after the cursor moved one entry up.
    pub open spec fn moved_up(self) -> AppStateView {
        self.with_cursor(cursor_up(self.cursor()))
    }

    /// The state after the cursor moved one entry down.
    pub open spec fn moved_down(self) -> AppStateView {
        self.with_cursor(cursor_down(self.cursor(), self.len()))
    }
}

impl AppState {
    /// The state at start-up.
    pub fn new() -> (out: Self)
        ensures
            out@ == AppStateView::InitLoading,
    {
        AppState::InitLoading
    }

    /// The number of entries that the cursor ranges over.
    pub fn len(&self) -> (out: usize)
        ensures
            out == self@.len(),
    {
        match self {
            AppState::DriveList { drives, .. } => {
                proof {
                    assert(drives.deep_view().len() == drives.len());
                }
                drives.len()
            },
            AppState::DriveInfo { disk_info, .. } => {
                proof {
                    assert(disk_info.titles.deep_view().len() == disk_info.titles.len());
                }
                disk_info.titles.len()
            },
            AppState::Done { .. } => DONE_MENU_LEN,
            _ => 0,
        }
    }

    /// Moves the cursor one entry up; at the first entry, and in a state
    /// without a cursor, nothing changes.
    pub fn move_selection_up(&mut self)
        ensures
            final(self)@ == old(self)@.moved_up(),
            old(self)@.wf() ==> final(self)@.wf(),
    {
        match self {
            AppState::DriveList { selected, .. } => {
                *selected = step_up(*selected);
            },
            AppState::DriveInfo { selected, .. } => {
                *selected = step_up(*selected);
            },
            AppState::Done { selected, .. } => {
                *selected = step_up(*selected);
            },
            _ => {},
        }
    }

    /// Moves the cursor one entry down; at the last entry, and in a state
    /// without a cursor, nothing changes.
    pub fn move_selection_down(&mut self)
        ensures
            final(self)@ == old(self)@.moved_down(),
            old(self)@.wf() ==> final(self)@.wf(),
    {
        let len = self.len();
        match self {
            AppState::DriveList { selected, .. } => {
                *selected = step_down(*selected, len);
            },
            AppState::DriveInfo { selected, .. } => {
                *selected = step_down(*selected, len);
            },
            AppState::Done { selected, .. } => {
                *selected = step_down(*selected, len);
            },
            _ => {},
        }
    }

    /// Carries out the confirm key and returns the background work to start.
    pub fn confirm(&mut self) -> (action: Option<Action>)
        ensures
            final(self)@ == old(self)@.confirmed(),
            action.deep_view() == old(self)@.confirm_action(),
            old(self)@.wf() ==> final(self)@.wf(),
    {
        let mut state = AppState::Exit;
        core::mem::swap(self, &mut state);
        let (next, action) = match state {
            AppState::DriveList { drives, selected } => {
                if selected.is_some() && selected.unwrap() < drives.len() {
                    let drive = drives[selected.unwrap()].clone();
                    let target = drive.clone();
                    (AppState::DriveInfoLoading(drive), Some(Action::FindDiskTitles { drive: target }))
                } else if drives.len() == 0 {
                    (AppState::InitLoading, Some(Action::FindDrives))
                } else {
                    (AppState::DriveList { drives, selected }, None)
                }
            },
            AppState::DriveInfo { drive, disk_info, selected } => {
                if selected.is_some() && selected.unwrap() < disk_info.titles.len() {
                    let title_id = disk_info.titles[selected.unwrap()].id;
                    let target = drive.clone();
                    (
                        AppState::TitleExtracting {
                            drive,
                            disk_info,
                            title_id,
                            total: 0,
                            extracted: 0,
                            task: String::from_str("Starting..."),
                        },
                        Some(
                            Action::ExtractTitle {
                                drive: target,
                                title_id,
                                output_path: String::from_str("."),
                            },
                        ),
                    )
                } else if disk_info.titles.len() == 0 {
                    let target = drive.clone();
                    (AppState::DriveInfoLoading(drive), Some(Action::FindDiskTitles { drive: target }))
                } else {
                    (AppState::DriveInfo { drive, disk_info, selected }, None)
                }
            },
            AppState::Done { disk_info, drive, title_id, selected } => {
                if selected == Some(0) {
                    (AppState::Exit, None)
                } else if selected == Some(1) {
                    let selected = if disk_info.titles.len() == 0 {
                        None
                    } else {
                        Some(0)
                    };
                    (AppState::DriveInfo { drive, disk_info, selected }, None)
                } else {
                    (AppState::Done { disk_info, drive, title_id, selected }, None)
                }
            },
            other => (other, None),
        };
        *self = next;
        action
    }

    /// Carries out what `key` asks for and returns the background work to
    /// start, if any.
    pub fn on_key_event(&mut self, key: Key) -> (action: Option<Action>)
        ensures
            final(self)@ == old(self)@.after_key(key),
            action.deep_view() == old(self)@.action_for_key(key),
            old(self)@.wf() ==> final(self)@.wf(),
    {
        match key.command() {
            Some(Command::Quit) => {
                *self = AppState::Exit;
                None
            },
            Some(Command::Up) => {
                self.move_selection_up();
                None
            },
            Some(Command::Down) => {
                self.move_selection_down();
                None
            },
            Some(Command::Confirm) => self.confirm(),
            None => None,
        }
    }

    /// Takes in the end of the listing of the drives: the drives that it
    /// found, or nothing if it failed.
    pub fn drives_found(&mut self, listing: Option<Vec<String>>)
        ensures
            final(self)@ == old(self)@.with_drives(listing.deep_view()),
            old(self)@.wf() ==> final(self)@.wf(),
    {
        match self {
            AppState::InitLoading => {
                let drives = match listing {
                    Some(drives) => drives,
                    None => Vec::new(),
                };
                proof {
                    assert(drives.deep_view().len() == drives.len());
                    if listing is None {
                        assert(drives.deep_view() =~= Seq::<Seq<char>>::empty());
                    }
                }
                let selected = if drives.len() == 0 {
                    None
                } else {
                    Some(0)
                };
                *self = AppState::DriveList { drives, selected };
            },
            _ => {},
        }
    }

    /// Takes in the end of the inspection of the disc: the catalog that it
    /// read, or nothing if it failed.
    pub fn disk_titles_found(&mut self, catalog: Option<DiskInfo>)
        ensures
            final(self)@ == old(self)@.with_disk_info(catalog.deep_view()),
            old(self)@.wf() && (catalog matches Some(disk_info) ==> disk_info@.largest_first())
                ==> final(self)@.wf(),
    {
        let mut state = AppState::Exit;
        core::mem::swap(self, &mut state);
        let next = match state {
            AppState::DriveInfoLoading(drive) => {
                let disk_info = match catalog {
                    Some(disk_info) => disk_info,
                    None => DiskInfo::unknown(),
                };
                proof {
                    assert(disk_info.titles.deep_view().len() == disk_info.titles.len());
                }
                let selected = if disk_info.titles.len() == 0 {
                    None
                } else {
                    Some(0)
                };
                AppState::DriveInfo { drive, disk_info, selected }
            },
            other => other,
        };
        *self = next;
    }

    /// Takes in a progress report of the running extraction.
    pub fn extraction_progress(&mut self, report: Progress)
        ensures
            final(self)@ == old(self)@.progressed(report@),
            old(self)@.wf() ==> final(self)@.wf(),
    {
        match self {
            AppState::TitleExtracting { total, extracted, task, .. } => {
                match report {
                    Progress::Task(label) => {
                        *task = label;
                    },
                    Progress::Counters { extracted: e, total: t } => {
                        if !(t > 0 && e > t) {
                            *total = t;
                            *extracted = e;
                        }
                    },
                }
            },
            _ => {},
        }
    }

    /// Takes in one line that the tool printed during the extraction. A line
    /// that is no progress report changes nothing.
    pub fn extraction_line(&mut self, line: &str)
        ensures
            final(self)@ == (match progress_of(line@) {
                Some(report) => old(self)@.progressed(report),
                None => old(self)@,
            }),
            old(self)@.wf() ==> final(self)@.wf(),
    {
        match parse_progress(line) {
            Some(report) => self.extraction_progress(report),
            None => {},
        }
    }

    /// Takes in the end of the extraction of title `title_id` from `drive`.
    ///
    /// Exit code 0 is success and leads to the closing menu. Anything else
    /// is an error, and the state stays as it is.
    pub fn extraction_finished(&mut self, drive: &str, title_id: u32, exit_code: Option<i32>) -> (out:
        Result<(), ExtractError>)
        ensures
            exit_code == Some(0i32) ==> out is Ok && final(self)@ == old(self)@.finished(
                drive@,
                title_id,
            ),
            exit_code != Some(0i32) ==> out == Err::<(), ExtractError>(
                ExtractError::ToolFailed { exit_code },
            ) && final(self)@ == old(self)@,
            old(self)@.wf() ==> final(self)@.wf(),
    {
        let succeeded = match exit_code {
            Some(code) => code == 0,
            None => false,
        };
        if !succeeded {
            return Err(ExtractError::ToolFailed { exit_code });
        }
        let mut state = AppState::Exit;
        core::mem::swap(self, &mut state);
        let disk_info = match state {
            AppState::TitleExtracting { disk_info, .. } => disk_info,
            _ => DiskInfo::unknown(),
        };
        *self = AppState::Done {
            disk_info,
            drive: String::from_str(drive),
            title_id,
            selected: Some(0),
        };
        Ok(())
    }
}

/// The cursor after a step towards the start of the list.
pub fn step_up(selected: Option<usize>) -> (out: Option<usize>)
    ensures
        cursor_view(out) == cursor_up(cursor_view(selected)),
{
    match selected {
        Some(i) => if i > 0 {
            Some(i - 1)
        } else {
            selected
        },
        None => None,
    }
}

/// The cursor after a step towards the end of a list of `len` entries.
pub fn step_down(selected: Option<usize>, len: usize) -> (out: Option<usize>)
    ensures
        cursor_view(out) == cursor_down(cursor_view(selected), len as nat),
{
    let i: usize = match selected {
        Some(i) => i,
        None => 0,
    };
    if i < len && i + 1 < len {
        Some(i + 1)
    } else {
        selected
    }
}

/// On a list that is not empty the cursor never leaves the list: after a
/// step up or down it still points at an entry. A step up from the first
/// entry, and a step down from the last, changes nothing.
pub proof fn lemma_cursor_stays_in_list(s: AppStateView)
    requires
        s.wf(),
        s.len() > 0,
    ensures
        s.moved_up().wf(),
        s.moved_down().wf(),
        s.moved_up().len() == s.len(),
        s.moved_down().len() == s.len(),
        s.moved_up().cursor() is Some && s.moved_up().cursor()->0 < s.len(),
        s.moved_down().cursor() is Some && s.moved_down().cursor()->0 < s.len(),
        s.cursor() == Some(0nat) ==> s.moved_up() == s,
        s.cursor() == Some((s.len() - 1) as nat) ==> s.moved_down() == s,
        s.cursor()->0 > 0 ==> s.moved_up().cursor()->0 == s.cursor()->0 - 1,
        s.cursor()->0 + 1 < s.len() ==> s.moved_down().cursor()->0 == s.cursor()->0 + 1,
{
}

/// Where there is no list, or an empty one, the keys that move the cursor
/// do nothing.
pub proof fn lemma_no_list_no_move(s: AppStateView)
    requires
        s.wf(),
        s.len() == 0,
    ensures
        s.moved_up() == s,
        s.moved_down() == s,
{
}

/// Every transition keeps the invariants of the interface.
pub proof fn lemma_transitions_keep_wf(
    s: AppStateView,
    key: Key,
    listing: Option<Seq<Seq<char>>>,
    catalog: Option<DiskInfoView>,
    report: ProgressView,
    drive: Seq<char>,
    title_id: u32,
)
    requires
        s.wf(),
        catalog matches Some(disk_info) ==> disk_info.largest_first(),
    ensures
        s.after_key(key).wf(),
        s.with_drives(listing).wf(),
        s.with_disk_info(catalog).wf(),
        s.progressed(report).wf(),
        s.finished(drive, title_id).wf(),
{
}

/// The quit key ends the program from every state, and once the program is
/// to stop no key changes that or starts any work.
pub proof fn lemma_quit_and_exit(s: AppStateView, key: Key)
    ensures
        command_of(key) == Some(Command::Quit) ==> s.after_key(key) == AppStateView::Exit,
        AppStateView::Exit.after_key(key) == AppStateView::Exit,
        AppStateView::Exit.action_for_key(key) is None,
{
}

/// The outcome of background work that the interface no longer waits for
/// is dropped: a drive listing outside the loading of drives, a catalog
/// outside the loading of titles, a progress report outside an extraction.
pub proof fn lemma_stale_results_are_dropped(
    s: AppStateView,
    listing: Option<Seq<Seq<char>>>,
    catalog: Option<DiskInfoView>,
    report: ProgressView,
)
    ensures
        !(s is InitLoading) ==> s.with_drives(listing) == s,
        !(s is DriveInfoLoading) ==> s.with_disk_info(catalog) == s,
        !(s is TitleExtracting) ==> s.progressed(report) == s,
{
}

/// An extraction starts from the list of titles only: no key leads into an
/// extraction from any other state, and a running extraction starts no
/// second one.
pub proof fn lemma_extraction_starts_from_titles(s: AppStateView, key: Key)
    ensures
        s.action_for_key(key) matches Some(ActionView::ExtractTitle { .. }) ==> s is DriveInfo
            && s.after_key(key) is TitleExtracting,
        s.after_key(key) is TitleExtracting ==> s is DriveInfo || s.after_key(key) == s,
        s is TitleExtracting ==> s.action_for_key(key) is None,
{
}

/// Finished background work never leads into an extraction either.
pub proof fn lemma_results_start_no_extraction(
    s: AppStateView,
    listing: Option<Seq<Seq<char>>>,
    catalog: Option<DiskInfoView>,
    report: ProgressView,
    drive: Seq<char>,
    title_id: u32,
)
    ensures
        s.with_drives(listing) is TitleExtracting ==> s is TitleExtracting,
        s.with_disk_info(catalog) is TitleExtracting ==> s is TitleExtracting,
        s.progressed(report) is TitleExtracting <==> s is TitleExtracting,
        !(s.finished(drive, title_id) is TitleExtracting),
{
}

/// A report that names the current operation changes the task and nothing
/// else; a report of the counters leaves the task as it is.
pub proof fn lemma_report_changes_its_part(s: AppStateView, report: ProgressView)
    requires
        s is TitleExtracting,
    ensures
        s.progressed(report) is TitleExtracting,
        s.progressed(report)->TitleExtracting_drive == s->TitleExtracting_drive,
        s.progressed(report)->TitleExtracting_disk_info == s->TitleExtracting_disk_info,
        s.progressed(report)->TitleExtracting_title_id == s->TitleExtracting_title_id,
        report matches ProgressView::Task(name) ==> {
            &&& s.progressed(report)->TitleExtracting_task == name
            &&& s.progressed(report)->TitleExtracting_extracted == s->TitleExtracting_extracted
            &&& s.progressed(report)->TitleExtracting_total == s->TitleExtracting_total
        },
        report is Counters ==> s.progressed(report)->TitleExtracting_task
            == s->TitleExtracting_task,
{
}

} // verus!
