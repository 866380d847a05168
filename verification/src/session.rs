//! One run of the backup, as a state machine. The caller performs each
//! `Action` (reading a file, running a program, updating the tray icon) and
//! hands back what came of it; the session decides what to do next, down to
//! the exit code of the run.
use vstd::prelude::*;
use crate::text::{chars_of, output_text, slice_chars, string_of, lossy_utf8};
use crate::utf16::{text_of_padded_buffer, utf16_decoding};
use crate::text::trim_end_char;
use crate::paths::{
    config_files, config_file_path, exe_base, failure_log_name, failure_log_name_exec,
    failure_log_path, failure_log_path_exec, log_dir, log_dir_spec, log_file, log_file_spec,
    module_path_status, module_path_status_spec, saves_file_name, saves_file_room,
    ModulePathStatus,
};
use crate::config::{
    check_destination, destination_check_spec, destination_from_file, destination_spec,
    save_locales, save_locales_spec, DestinationCheck,
};
use crate::network::{network_target, network_target_spec};
use crate::robocopy::{
    copy_arguments, copy_arguments_exec, exit_code, exit_code_spec, nothing_copied_cause,
    nothing_copied_cause_spec, target_path, target_path_exec, NothingCopiedCause,
};
use crate::tooltip::{
    finished_text, finished_text_exec, progress_text, progress_text_exec, running_text,
    running_text_exec, tooltip, tooltip_spec, lemma_tooltip_spec,
};

verus! {

/// Why a run stops before every folder is backed up. Each has its exit code.
pub enum Failure {
    /// `net use` could not be run.
    NetUseFailed,
    /// The destination file names no destination.
    NoDestinationInFile,
    /// The saves file names no folder.
    NoSaveLocations,
    /// The log of a failed copy could not be kept under its own name.
    LogNotKept { from: String, to: String },
    /// A copy found no source folder.
    SourceMissing { code: u64, source: String, kept_log: String },
    /// A copy could not create the destination.
    DestinationMissing { code: u64, destination: String, kept_log: String },
    /// A copy could not open its log file.
    LogPathInvalid { code: u64, destination: String, kept_log: String },
    /// A copy copied nothing for another reason; `log` is its log.
    CopyFailed { log: String, kept_log: String },
    /// A copy ended with a code above 16.
    UnknownCode { code: u64, kept_log: String },
    /// The executable's path is too long for the buffer it is read into.
    ExePathTooLong { length: u32, last_error: u32, path: String },
    /// The destination is longer than a Windows path may be.
    DestinationTooLong { chars: usize, destination: String },
    /// No path of the executable could be found.
    ExePathMissing { last_error: u32 },
    /// There is no destination file.
    NoDestinationFile,
    /// There is no saves file.
    NoSavesFile,
}

/// The exit code of a run that stops on a failure.
pub open spec fn failure_exit_code(f: Failure) -> i32 {
    match f {
        Failure::NetUseFailed => 1,
        Failure::NoDestinationInFile => 2,
        Failure::NoSaveLocations => 2,
        Failure::LogNotKept { .. } => 3,
        Failure::SourceMissing { .. } => 3,
        Failure::DestinationMissing { .. } => 3,
        Failure::LogPathInvalid { .. } => 3,
        Failure::CopyFailed { .. } => 3,
        Failure::UnknownCode { .. } => 3,
        Failure::ExePathTooLong { .. } => 4,
        Failure::DestinationTooLong { .. } => 4,
        Failure::ExePathMissing { .. } => 5,
        Failure::NoDestinationFile => 5,
        Failure::NoSavesFile => 5,
    }
}

impl Failure {
    /// The exit code of the run.
    pub fn exit_code(&self) -> (r: i32)
        ensures
            r == failure_exit_code(*self),
    {
        match self {
            Failure::NetUseFailed => 1,
            Failure::NoDestinationInFile => 2,
            Failure::NoSaveLocations => 2,
            Failure::LogNotKept { .. } => 3,
            Failure::SourceMissing { .. } => 3,
            Failure::DestinationMissing { .. } => 3,
            Failure::LogPathInvalid { .. } => 3,
            Failure::CopyFailed { .. } => 3,
            Failure::UnknownCode { .. } => 3,
            Failure::ExePathTooLong { .. } => 4,
            Failure::DestinationTooLong { .. } => 4,
            Failure::ExePathMissing { .. } => 5,
            Failure::NoDestinationFile => 5,
            Failure::NoSavesFile => 5,
        }
    }
}

/// Inputs on which the run cannot go on and aborts (a panic).
#[derive(PartialEq, Eq, Structural, Debug, Clone, Copy)]
pub enum Halt {
    /// The executable's path is no valid UTF-16.
    ExePathNotUtf16,
    /// The destination file's first line is empty.
    EmptyDestinationLine,
    /// The destination has fewer than three characters.
    DestinationTooShort,
    /// `net use` lists the destination's drive without a share path, a space
    /// after it, or a line break before it.
    NetUseLineIncomplete,
    /// The computer's name is no valid UTF-16.
    ComputerNameNotUtf16,
    /// The executable's path holds no `.`.
    ExePathWithoutExtension,
    /// The executable's path holds no backslash.
    ExePathWithoutDirectory,
    /// A copy's status holds no readable exit code.
    UnreadableExitCode,
}

/// What the caller is to do next.
pub enum Action {
    /// Add the tray icon with `tooltip`; then call `on_tray_shown`.
    ShowTray { tooltip: Vec<u16> },
    /// Read the executable's path (and the last error with it) into a
    /// buffer of `MAX_PATH_WIN` code units; then call `on_exe_path`.
    ReadExePath,
    /// Read the destination file, if it exists; then call `on_destination_file`.
    /// The flags tell that a file is looked for under its bare name.
    ReadDestinationFile { path: String, destination_shortened: bool, saves_shortened: bool },
    /// Run `net use`; then call `on_net_use`.
    RunNetUse,
    /// Run `net use <drive> <unc>` to reconnect the drive; then call `on_reconnected`.
    Reconnect { drive: String, unc: String },
    /// Read the saves file, if it exists; then call `on_saves_file`.
    ReadSavesFile { path: String },
    /// Read the computer's name into a buffer of `MAX_PATH_WIN` code units;
    /// then call `on_computer_name`.
    ReadComputerName,
    /// Show `tooltip` and run the copy of folder `index` with `arguments`;
    /// then call `on_copy`.
    Copy { index: usize, tooltip: Vec<u16>, arguments: Vec<String> },
    /// Rename the copy log `from` to `to`, whose file name is `name`; then call `on_log_kept`.
    KeepLog { from: String, to: String, name: String },
    /// Read the kept log; then call `on_kept_log`.
    ReadKeptLog { path: String },
    /// Every folder is backed up: show `tooltip`, wait, and exit with 0.
    Finish { tooltip: Vec<u16> },
    /// Stop with the failure's exit code.
    Fail(Failure),
    /// Abort.
    Halt(Halt),
}

/// Where a run stands.
#[derive(PartialEq, Eq, Structural, Debug, Clone, Copy)]
pub enum Phase {
    Starting,
    LocatingExe,
    ReadingDestination,
    QueryingNetwork,
    Reconnecting,
    ReadingSaves,
    NamingComputer,
    Copying,
    KeepingLog,
    ReadingKeptLog,
    Finished,
    Stopped,
}

/// The state of one run.
pub struct Session {
    phase: Phase,
    exe: Vec<char>,
    saves_file: Vec<char>,
    destination: Vec<char>,
    target: Vec<char>,
    saves: Vec<Vec<char>>,
    computer: Vec<char>,
    targets: Vec<Vec<char>>,
    log: Vec<char>,
    log_dir: Vec<char>,
    index: usize,
    code: u64,
    output: Vec<char>,
    codes: Ghost<Seq<u64>>,
}

pub open spec fn views(v: Seq<Vec<char>>) -> Seq<Seq<char>> {
    v.map_values(|x: Vec<char>| x@)
}

pub open spec fn string_views(v: Seq<String>) -> Seq<Seq<char>> {
    v.map_values(|x: String| x@)
}

/// The run is over in this phase: no step takes it further.
pub open spec fn is_terminal(p: Phase) -> bool {
    p is Finished || p is Stopped
}

/// A tooltip buffer as Windows takes it: full size, NUL at the end.
pub open spec fn tooltip_ok(t: Seq<u16>) -> bool {
    t.len() == crate::tooltip::MAX_SZTIP_LEN && t[crate::tooltip::MAX_SZTIP_LEN - 1] == 0
}

/// How a step's action fits the state it leaves: only the start shows the
/// tray icon; the run ends exactly with `Finish` (finished) or `Fail` and
/// `Halt` (stopped); every tooltip handed out is a full, NUL-ended buffer.
pub open spec fn action_fits(next: &Session, a: Action) -> bool {
    &&& !(a is ShowTray)
    &&& (a is Finish <==> next.spec_phase() == Phase::Finished)
    &&& ((a is Fail || a is Halt) <==> next.spec_phase() == Phase::Stopped)
    &&& (a matches Action::Copy { tooltip, .. } ==> tooltip_ok(tooltip@))
    &&& (a matches Action::Finish { tooltip } ==> tooltip_ok(tooltip@))
}

/// The phase is one in which the folders, their targets and the log are known.
pub open spec fn is_copy_phase(p: Phase) -> bool {
    p is Copying || p is KeepingLog || p is ReadingKeptLog || p is Finished
}

impl Session {
    pub closed spec fn spec_phase(&self) -> Phase {
        self.phase
    }

    /// The executable's path, without NULs and prefix.
    pub closed spec fn spec_exe(&self) -> Seq<char> {
        self.exe@
    }

    pub closed spec fn spec_saves_file(&self) -> Seq<char> {
        self.saves_file@
    }

    pub closed spec fn spec_destination(&self) -> Seq<char> {
        self.destination@
    }

    /// The path the copies go under.
    pub closed spec fn spec_target(&self) -> Seq<char> {
        self.target@
    }

    /// The folders to back up.
    pub closed spec fn spec_saves(&self) -> Seq<Seq<char>> {
        views(self.saves@)
    }

    pub closed spec fn spec_computer(&self) -> Seq<char> {
        self.computer@
    }

    /// Where each folder is copied to.
    pub closed spec fn spec_targets(&self) -> Seq<Seq<char>> {
        views(self.targets@)
    }

    pub closed spec fn spec_log(&self) -> Seq<char> {
        self.log@
    }

    pub closed spec fn spec_log_dir(&self) -> Seq<char> {
        self.log_dir@
    }

    /// The folder being copied.
    pub closed spec fn spec_index(&self) -> nat {
        self.index as nat
    }

    /// The exit code of the last copy.
    pub closed spec fn spec_code(&self) -> u64 {
        self.code
    }

    /// The output of the last copy.
    pub closed spec fn spec_output(&self) -> Seq<char> {
        self.output@
    }

    /// The exit codes of the copies so far, in order.
    pub closed spec fn spec_codes(&self) -> Seq<u64> {
        self.codes@
    }

    /// The tooltip and arguments of the copy of folder `i`.
    pub open spec fn copy_action_of(&self, i: nat, a: Action) -> bool {
        &&& a matches Action::Copy { index, tooltip, arguments }
        &&& index == i
        &&& tooltip@ == tooltip_spec(
            progress_text(i + 1, self.spec_saves().len(), self.spec_saves()[i as int]),
        )
        &&& string_views(arguments@) == copy_arguments(
            self.spec_saves()[i as int],
            self.spec_targets()[i as int],
            self.spec_log(),
        )
    }

    /// The step after a copy that the run goes on from: the next copy, or
    /// the end of the run after the last folder.
    pub open spec fn advanced(&self, next: &Session, a: Action) -> bool {
        &&& next.spec_saves() == self.spec_saves()
        &&& next.spec_targets() == self.spec_targets()
        &&& next.spec_log() == self.spec_log()
        &&& next.spec_log_dir() == self.spec_log_dir()
        &&& if self.spec_index() + 1 < self.spec_saves().len() {
            &&& next.spec_phase() == Phase::Copying
            &&& next.spec_index() == self.spec_index() + 1
            &&& next.copy_action_of(self.spec_index() + 1, a)
        } else {
            &&& next.spec_phase() == Phase::Finished
            &&& a matches Action::Finish { tooltip }
            &&& tooltip@ == tooltip_spec(finished_text())
        }
    }

    /// What the run has settled (paths, destination, folders, targets,
    /// log) is the same in `next` as in `self`.
    pub open spec fn same_setup(&self, next: &Session) -> bool {
        &&& next.spec_exe() == self.spec_exe()
        &&& next.spec_saves_file() == self.spec_saves_file()
        &&& next.spec_destination() == self.spec_destination()
        &&& next.spec_target() == self.spec_target()
        &&& next.spec_saves() == self.spec_saves()
        &&& next.spec_computer() == self.spec_computer()
        &&& next.spec_targets() == self.spec_targets()
        &&& next.spec_log() == self.spec_log()
        &&& next.spec_log_dir() == self.spec_log_dir()
    }

    /// The executable's path and the saves file derived from it.
    pub closed spec fn exe_ok(&self) -> bool {
        self.saves_file@ == config_file_path(
            self.exe@,
            exe_base(self.exe@),
            saves_file_name(),
            saves_file_room(),
        )
    }

    /// The folders, their targets and the log, as the copies use them.
    pub closed spec fn copies_ok(&self) -> bool {
        &&& 0 < self.saves@.len()
        &&& self.index < self.saves@.len()
        &&& self.index < usize::MAX
        &&& self.targets@.len() == self.saves@.len()
        &&& forall|i: int|
            0 <= i < self.saves@.len() ==> #[trigger] self.targets@[i]@ == target_path(
                self.target@,
                self.computer@,
                self.saves@[i]@,
            )
        &&& log_file_spec(self.exe@) == Some(self.log@)
        &&& log_dir_spec(self.exe@) == Some(self.log_dir@)
    }

    /// The invariant of a run.
    pub closed spec fn wf(&self) -> bool {
        &&& !(self.phase is Starting || self.phase is LocatingExe || self.phase is Stopped) ==> self.exe_ok()
        &&& self.phase is NamingComputer ==> 0 < self.saves@.len()
        &&& is_copy_phase(self.phase) ==> self.copies_ok()
        &&& self.phase is Copying ==> {
            &&& self.codes@.len() == self.index
            &&& forall|i: int| 0 <= i < self.codes@.len() ==> #[trigger] self.codes@[i] <= 15
        }
        &&& (self.phase is KeepingLog || self.phase is ReadingKeptLog) ==> {
            &&& self.codes@.len() == self.index + 1
            &&& forall|i: int| 0 <= i < self.index ==> #[trigger] self.codes@[i] <= 15
            &&& self.codes@[self.index as int] == self.code
            &&& self.code >= 8
        }
        &&& self.phase is ReadingKeptLog ==> self.code == 16
        &&& self.phase is Finished ==> {
            &&& self.codes@.len() == self.saves@.len()
            &&& forall|i: int| 0 <= i < self.codes@.len() ==> #[trigger] self.codes@[i] <= 15
        }
    }

    /// A new run; its first step is to show the tray icon with the
    /// running text.
    pub fn new() -> (res: (Session, Action))
        ensures
            res.0.wf(),
            res.0.spec_phase() == Phase::Starting,
            res.1 matches Action::ShowTray { tooltip } && tooltip@ == tooltip_spec(running_text())
                && tooltip_ok(tooltip@),
    {
        let s = Session {
            phase: Phase::Starting,
            exe: Vec::new(),
            saves_file: Vec::new(),
            destination: Vec::new(),
            target: Vec::new(),
            saves: Vec::new(),
            computer: Vec::new(),
            targets: Vec::new(),
            log: Vec::new(),
            log_dir: Vec::new(),
            index: 0,
            code: 0,
            output: Vec::new(),
            codes: Ghost(Seq::empty()),
        };
        let text = running_text_exec();
        proof {
            lemma_tooltip_spec(text@);
        }
        (s, Action::ShowTray { tooltip: tooltip(text.as_slice()) })
    }

    /// Takes the showing of the tray icon; the next step is to read the
    /// executable's path.
    pub fn on_tray_shown(&mut self) -> (a: Action)
        requires
            old(self).wf(),
            old(self).spec_phase() == Phase::Starting,
        ensures
            final(self).wf(),
            final(self).spec_phase() == Phase::LocatingExe,
            a is ReadExePath,
            old(self).same_setup(final(self)),
            action_fits(final(self), a),
    {
        self.phase = Phase::LocatingExe;
        Action::ReadExePath
    }

    /// The phase of the run.
    pub fn phase(&self) -> (r: Phase)
        ensures
            r == self.spec_phase(),
    {
        self.phase
    }

    fn stop(&mut self, a: Action) -> (r: Action)
        ensures
            final(self).spec_phase() == Phase::Stopped,
            final(self).wf(),
            r == a,
            old(self).same_setup(final(self)),
            final(self).spec_codes() == old(self).spec_codes(),
            final(self).spec_index() == old(self).spec_index(),
    {
        self.phase = Phase::Stopped;
        a
    }

    /// Takes the executable's path: the buffer it was read into, the length
    /// reported and the last error reported.
    pub fn on_exe_path(&mut self, buffer: &[u16], length: u32, last_error: u32) -> (a: Action)
        requires
            old(self).wf(),
            old(self).spec_phase() == Phase::LocatingExe,
        ensures
            final(self).wf(),
            action_fits(final(self), a),
            ({
                let text = utf16_decoding(buffer@);
                match module_path_status_spec(length, last_error) {
                    ModulePathStatus::TooLong => {
                        &&& final(self).spec_phase() == Phase::Stopped
                        &&& if text is None {
                            a == Action::Halt(Halt::ExePathNotUtf16)
                        } else {
                            &&& a matches Action::Fail(Failure::ExePathTooLong { length: l, last_error: e, path })
                            &&& l == length
                            &&& e == last_error
                            &&& path@ == trim_end_char(text->0, '\0')
                        }
                    },
                    ModulePathStatus::Missing => {
                        &&& final(self).spec_phase() == Phase::Stopped
                        &&& a matches Action::Fail(Failure::ExePathMissing { last_error: e })
                        &&& e == last_error
                    },
                    ModulePathStatus::Present => if text is None {
                        final(self).spec_phase() == Phase::Stopped && a == Action::Halt(Halt::ExePathNotUtf16)
                    } else {
                        let local = trim_end_char(text->0, '\0');
                        let base = exe_base(local);
                        &&& final(self).spec_phase() == Phase::ReadingDestination
                        &&& final(self).spec_exe() == local
                        &&& final(self).spec_saves_file() == config_file_path(local, base, saves_file_name(), saves_file_room())
                        &&& a matches Action::ReadDestinationFile { path, destination_shortened, saves_shortened }
                        &&& path@ == config_file_path(local, base, crate::paths::destination_file_name(), crate::paths::destination_file_room())
                        &&& destination_shortened == crate::paths::config_file_shortened(local, crate::paths::destination_file_room())
                        &&& saves_shortened == crate::paths::config_file_shortened(local, saves_file_room())
                    },
                }
            }),
    {
        match module_path_status(length, last_error) {
            ModulePathStatus::TooLong => {
                match text_of_padded_buffer(buffer) {
                    Some(t) => {
                        let path = string_of(t.as_slice());
                        self.stop(Action::Fail(Failure::ExePathTooLong { length, last_error, path }))
                    },
                    None => self.stop(Action::Halt(Halt::ExePathNotUtf16)),
                }
            },
            ModulePathStatus::Missing => self.stop(Action::Fail(Failure::ExePathMissing { last_error })),
            ModulePathStatus::Present => {
                let local = match text_of_padded_buffer(buffer) {
                    Some(t) => t,
                    None => {
                        return self.stop(Action::Halt(Halt::ExePathNotUtf16));
                    },
                };
                let files = config_files(local.as_slice());
                self.exe = local;
                self.saves_file = chars_of(files.saves.as_str());
                self.phase = Phase::ReadingDestination;
                Action::ReadDestinationFile {
                    path: files.destination,
                    destination_shortened: files.destination_shortened,
                    saves_shortened: files.saves_shortened,
                }
            },
        }
    }

    /// Takes the contents of the destination file, `None` where it does not exist.
    pub fn on_destination_file(&mut self, contents: Option<&str>) -> (a: Action)
        requires
            old(self).wf(),
            old(self).spec_phase() == Phase::ReadingDestination,
        ensures
            final(self).wf(),
            action_fits(final(self), a),
            final(self).spec_exe() == old(self).spec_exe(),
            final(self).spec_saves_file() == old(self).spec_saves_file(),
            match contents {
                None => final(self).spec_phase() == Phase::Stopped && a == Action::Fail(
                    Failure::NoDestinationFile,
                ),
                Some(c) => match destination_spec(c@) {
                    None => final(self).spec_phase() == Phase::Stopped && a == Action::Halt(
                        Halt::EmptyDestinationLine,
                    ),
                    Some(d) => match destination_check_spec(d) {
                        DestinationCheck::TooLong => {
                            &&& final(self).spec_phase() == Phase::Stopped
                            &&& a matches Action::Fail(Failure::DestinationTooLong { chars, destination })
                            &&& chars == d.len()
                            &&& destination@ == d
                        },
                        DestinationCheck::Empty => final(self).spec_phase() == Phase::Stopped && a
                            == Action::Fail(Failure::NoDestinationInFile),
                        DestinationCheck::Usable => {
                            &&& final(self).spec_destination() == d
                            &&& if d.len() < 3 {
                                final(self).spec_phase() == Phase::Stopped && a == Action::Halt(
                                    Halt::DestinationTooShort,
                                )
                            } else {
                                final(self).spec_phase() == Phase::QueryingNetwork && a
                                    is RunNetUse
                            }
                        },
                    },
                },
            },
    {
        let c = match contents {
            Some(c) => c,
            None => {
                return self.stop(Action::Fail(Failure::NoDestinationFile));
            },
        };
        let d = match destination_from_file(c) {
            Some(d) => d,
            None => {
                return self.stop(Action::Halt(Halt::EmptyDestinationLine));
            },
        };
        match check_destination(d.as_slice()) {
            DestinationCheck::TooLong => {
                let chars = d.len();
                let destination = string_of(d.as_slice());
                self.stop(Action::Fail(Failure::DestinationTooLong { chars, destination }))
            },
            DestinationCheck::Empty => self.stop(Action::Fail(Failure::NoDestinationInFile)),
            DestinationCheck::Usable => {
                let short = d.len() < 3;
                self.destination = d;
                if short {
                    self.stop(Action::Halt(Halt::DestinationTooShort))
                } else {
                    self.phase = Phase::QueryingNetwork;
                    Action::RunNetUse
                }
            },
        }
    }

    /// Takes whether `net use` ran and what it printed.
    pub fn on_net_use(&mut self, success: bool, stdout: &[u8]) -> (a: Action)
        requires
            old(self).wf(),
            old(self).spec_phase() == Phase::QueryingNetwork,
        ensures
            final(self).wf(),
            action_fits(final(self), a),
            final(self).spec_exe() == old(self).spec_exe(),
            final(self).spec_saves_file() == old(self).spec_saves_file(),
            final(self).spec_destination() == old(self).spec_destination(),
            !success ==> final(self).spec_phase() == Phase::Stopped && a == Action::Fail(
                Failure::NetUseFailed,
            ),
            success ==> match network_target_spec(old(self).spec_destination(), lossy_utf8(stdout@)) {
                None => final(self).spec_phase() == Phase::Stopped && a == Action::Halt(
                    Halt::NetUseLineIncomplete,
                ),
                Some((unc, reconnect)) => {
                    &&& final(self).spec_target() == unc
                    &&& if reconnect {
                        &&& final(self).spec_phase() == Phase::Reconnecting
                        &&& a matches Action::Reconnect { drive, unc: u }
                        &&& drive@ == old(self).spec_destination().take(2)
                        &&& u@ == unc
                    } else {
                        &&& final(self).spec_phase() == Phase::ReadingSaves
                        &&& a matches Action::ReadSavesFile { path }
                        &&& path@ == old(self).spec_saves_file()
                    }
                },
            },
    {
        if !success {
            return self.stop(Action::Fail(Failure::NetUseFailed));
        }
        let listing = output_text(stdout);
        match network_target(self.destination.as_slice(), listing.as_slice()) {
            Some(t) => {
                self.target = t.unc;
                if t.reconnect {
                    self.phase = Phase::Reconnecting;
                    let drive = string_of(slice_chars(self.destination.as_slice(), 0, 2).as_slice());
                    assert(self.destination@.subrange(0, 2) == self.destination@.take(2));
                    let unc = string_of(self.target.as_slice());
                    Action::Reconnect { drive, unc }
                } else {
                    self.phase = Phase::ReadingSaves;
                    Action::ReadSavesFile { path: string_of(self.saves_file.as_slice()) }
                }
            },
            None => self.stop(Action::Halt(Halt::NetUseLineIncomplete)),
        }
    }

    /// Takes the end of the reconnection.
    pub fn on_reconnected(&mut self) -> (a: Action)
        requires
            old(self).wf(),
            old(self).spec_phase() == Phase::Reconnecting,
        ensures
            final(self).wf(),
            action_fits(final(self), a),
            old(self).same_setup(final(self)),
            final(self).spec_exe() == old(self).spec_exe(),
            final(self).spec_destination() == old(self).spec_destination(),
            final(self).spec_target() == old(self).spec_target(),
            final(self).spec_phase() == Phase::ReadingSaves,
            a matches Action::ReadSavesFile { path } && path@ == old(self).spec_saves_file(),
    {
        self.phase = Phase::ReadingSaves;
        Action::ReadSavesFile { path: string_of(self.saves_file.as_slice()) }
    }

    /// Takes the contents of the saves file, `None` where it does not exist.
    pub fn on_saves_file(&mut self, contents: Option<&str>) -> (a: Action)
        requires
            old(self).wf(),
            old(self).spec_phase() == Phase::ReadingSaves,
        ensures
            final(self).wf(),
            action_fits(final(self), a),
            final(self).spec_exe() == old(self).spec_exe(),
            final(self).spec_saves_file() == old(self).spec_saves_file(),
            final(self).spec_destination() == old(self).spec_destination(),
            final(self).spec_target() == old(self).spec_target(),
            match contents {
                None => final(self).spec_phase() == Phase::Stopped && a == Action::Fail(
                    Failure::NoSavesFile,
                ),
                Some(c) => if save_locales_spec(c@).len() == 0 {
                    final(self).spec_phase() == Phase::Stopped && a == Action::Fail(
                        Failure::NoSaveLocations,
                    )
                } else {
                    &&& final(self).spec_phase() == Phase::NamingComputer
                    &&& final(self).spec_saves() == save_locales_spec(c@)
                    &&& a is ReadComputerName
                },
            },
    {
        let c = match contents {
            Some(c) => c,
            None => {
                return self.stop(Action::Fail(Failure::NoSavesFile));
            },
        };
        let saves = save_locales(c);
        if saves.len() == 0 {
            return self.stop(Action::Fail(Failure::NoSaveLocations));
        }
        self.saves = saves;
        self.phase = Phase::NamingComputer;
        Action::ReadComputerName
    }

    /// The action that runs the copy of folder `index`.
    fn copy_action(&self, index: usize) -> (a: Action)
        requires
            index < self.saves@.len(),
            self.targets@.len() == self.saves@.len(),
        ensures
            self.copy_action_of(index as nat, a),
            a matches Action::Copy { tooltip, .. } && tooltip_ok(tooltip@),
    {
        let total = self.saves.len();
        let text = progress_text_exec((index + 1) as u64, total as u64, self.saves[index].as_slice());
        let tip = tooltip(text.as_slice());
        proof {
            lemma_tooltip_spec(text@);
        }
        let arguments = copy_arguments_exec(
            self.saves[index].as_slice(),
            self.targets[index].as_slice(),
            self.log.as_slice(),
        );
        assert(views(self.saves@)[index as int] == self.saves@[index as int]@);
        assert(views(self.targets@)[index as int] == self.targets@[index as int]@);
        Action::Copy { index, tooltip: tip, arguments }
    }

    /// Takes the computer's name, the buffer it was read into.
    pub fn on_computer_name(&mut self, buffer: &[u16]) -> (a: Action)
        requires
            old(self).wf(),
            old(self).spec_phase() == Phase::NamingComputer,
        ensures
            final(self).wf(),
            action_fits(final(self), a),
            final(self).spec_exe() == old(self).spec_exe(),
            final(self).spec_saves_file() == old(self).spec_saves_file(),
            final(self).spec_destination() == old(self).spec_destination(),
            final(self).spec_target() == old(self).spec_target(),
            final(self).spec_saves() == old(self).spec_saves(),
            ({
                let name = utf16_decoding(buffer@);
                let exe = old(self).spec_exe();
                if name is None {
                    final(self).spec_phase() == Phase::Stopped && a == Action::Halt(
                        Halt::ComputerNameNotUtf16,
                    )
                } else if log_file_spec(exe) is None {
                    final(self).spec_phase() == Phase::Stopped && a == Action::Halt(
                        Halt::ExePathWithoutExtension,
                    )
                } else if log_dir_spec(exe) is None {
                    final(self).spec_phase() == Phase::Stopped && a == Action::Halt(
                        Halt::ExePathWithoutDirectory,
                    )
                } else {
                    let computer = trim_end_char(name->0, '\0');
                    &&& final(self).spec_computer() == computer
                    &&& final(self).spec_targets().len() == old(self).spec_saves().len()
                    &&& forall|i: int|
                        0 <= i < old(self).spec_saves().len() ==> #[trigger] final(self).spec_targets()[i] == target_path(
                            old(self).spec_target(),
                            computer,
                            old(self).spec_saves()[i],
                        )
                    &&& final(self).spec_log() == log_file_spec(exe)->0
                    &&& final(self).spec_log_dir() == log_dir_spec(exe)->0
                    &&& final(self).spec_phase() == Phase::Copying
                    &&& final(self).spec_index() == 0
                    &&& final(self).spec_codes() == Seq::<u64>::empty()
                    &&& final(self).copy_action_of(0, a)
                }
            }),
    {
        let computer = match text_of_padded_buffer(buffer) {
            Some(c) => c,
            None => {
                return self.stop(Action::Halt(Halt::ComputerNameNotUtf16));
            },
        };
        let mut targets: Vec<Vec<char>> = Vec::new();
        let mut i: usize = 0;
        while i < self.saves.len()
            invariant
                i <= self.saves@.len(),
                targets@.len() == i,
                forall|j: int|
                    0 <= j < i ==> #[trigger] targets@[j]@ == target_path(
                        self.target@,
                        computer@,
                        self.saves@[j]@,
                    ),
            decreases self.saves@.len() - i,
        {
            let t = target_path_exec(self.target.as_slice(), computer.as_slice(), self.saves[i].as_slice());
            targets.push(t);
            i = i + 1;
        }
        let log = match log_file(self.exe.as_slice()) {
            Some(l) => l,
            None => {
                return self.stop(Action::Halt(Halt::ExePathWithoutExtension));
            },
        };
        let dir = match log_dir(self.exe.as_slice()) {
            Some(d) => d,
            None => {
                return self.stop(Action::Halt(Halt::ExePathWithoutDirectory));
            },
        };
        self.computer = computer;
        self.targets = targets;
        self.log = log;
        self.log_dir = dir;
        self.index = 0;
        self.codes = Ghost(Seq::empty());
        self.phase = Phase::Copying;
        assert forall|j: int| 0 <= j < self.saves@.len() implies #[trigger] views(self.targets@)[j]
            == target_path(self.target@, self.computer@, views(self.saves@)[j]) by {
            assert(self.targets@[j]@ == target_path(self.target@, self.computer@, self.saves@[j]@));
        }
        self.copy_action(0)
    }

    /// Goes on after copy `index`: to the next copy, or to the end of the run.
    fn advance(&mut self) -> (a: Action)
        requires
            old(self).exe_ok(),
            old(self).copies_ok(),
            old(self).spec_codes().len() == old(self).spec_index() + 1,
            forall|i: int| 0 <= i < old(self).spec_codes().len() ==> #[trigger] old(self).spec_codes()[i] <= 15,
        ensures
            final(self).wf(),
            old(self).advanced(final(self), a),
            final(self).spec_codes() == old(self).spec_codes(),
            final(self).spec_code() == old(self).spec_code(),
            old(self).same_setup(final(self)),
            action_fits(final(self), a),
    {
        let n = self.saves.len();
        if self.index + 1 < n {
            self.index = self.index + 1;
            self.phase = Phase::Copying;
            self.copy_action(self.index)
        } else {
            self.phase = Phase::Finished;
            let text = finished_text_exec();
            proof {
                lemma_tooltip_spec(text@);
            }
            Action::Finish { tooltip: tooltip(text.as_slice()) }
        }
    }

    /// Takes the end of a copy: its status as its debug form shows it, and
    /// what it printed.
    pub fn on_copy(&mut self, status: &str, stdout: &[u8]) -> (a: Action)
        requires
            old(self).wf(),
            old(self).spec_phase() == Phase::Copying,
        ensures
            final(self).wf(),
            action_fits(final(self), a),
            old(self).same_setup(final(self)),
            match exit_code_spec(status@) {
                None => final(self).spec_phase() == Phase::Stopped && a == Action::Halt(
                    Halt::UnreadableExitCode,
                ),
                Some(code) => {
                    &&& final(self).spec_code() == code
                    &&& final(self).spec_codes() == old(self).spec_codes().push(code)
                    &&& if code <= 7 {
                        old(self).advanced(final(self), a)
                    } else {
                        &&& final(self).spec_phase() == Phase::KeepingLog
                        &&& final(self).spec_index() == old(self).spec_index()
                        &&& final(self).spec_output() == lossy_utf8(stdout@)
                        &&& a matches Action::KeepLog { from, to, name }
                        &&& from@ == old(self).spec_log()
                        &&& to@ == failure_log_path(old(self).spec_log_dir(), old(self).spec_index())
                        &&& name@ == failure_log_name(old(self).spec_index())
                    }
                },
            },
    {
        let status_chars = chars_of(status);
        let code = match exit_code(status_chars.as_slice()) {
            Some(c) => c,
            None => {
                return self.stop(Action::Halt(Halt::UnreadableExitCode));
            },
        };
        self.code = code;
        self.codes = Ghost(self.codes@.push(code));
        if code <= 7 {
            self.advance()
        } else {
            self.output = output_text(stdout);
            self.phase = Phase::KeepingLog;
            let from = string_of(self.log.as_slice());
            let to = string_of(failure_log_path_exec(self.log_dir.as_slice(), self.index).as_slice());
            let name = string_of(failure_log_name_exec(self.index).as_slice());
            Action::KeepLog { from, to, name }
        }
    }

    /// Takes whether the log of the failed copy was renamed.
    pub fn on_log_kept(&mut self, renamed: bool) -> (a: Action)
        requires
            old(self).wf(),
            old(self).spec_phase() == Phase::KeepingLog,
        ensures
            final(self).wf(),
            action_fits(final(self), a),
            old(self).same_setup(final(self)),
            final(self).spec_codes() == old(self).spec_codes(),
            ({
                let i = old(self).spec_index();
                let code = old(self).spec_code();
                let name = failure_log_name(i);
                if !renamed {
                    &&& final(self).spec_phase() == Phase::Stopped
                    &&& a matches Action::Fail(Failure::LogNotKept { from, to })
                    &&& from@ == old(self).spec_log()
                    &&& to@ == failure_log_path(old(self).spec_log_dir(), i)
                } else if code <= 15 {
                    old(self).advanced(final(self), a)
                } else if code == 16 {
                    match nothing_copied_cause_spec(old(self).spec_output()) {
                        NothingCopiedCause::SourceMissing => {
                            &&& final(self).spec_phase() == Phase::Stopped
                            &&& a matches Action::Fail(Failure::SourceMissing { code: c, source, kept_log })
                            &&& c == code
                            &&& source@ == old(self).spec_saves()[i as int]
                            &&& kept_log@ == name
                        },
                        NothingCopiedCause::DestinationMissing => {
                            &&& final(self).spec_phase() == Phase::Stopped
                            &&& a matches Action::Fail(Failure::DestinationMissing { code: c, destination, kept_log })
                            &&& c == code
                            &&& destination@ == old(self).spec_destination()
                            &&& kept_log@ == name
                        },
                        NothingCopiedCause::LogPathInvalid => {
                            &&& final(self).spec_phase() == Phase::Stopped
                            &&& a matches Action::Fail(Failure::LogPathInvalid { code: c, destination, kept_log })
                            &&& c == code
                            &&& destination@ == old(self).spec_destination()
                            &&& kept_log@ == name
                        },
                        NothingCopiedCause::Other => {
                            &&& final(self).spec_phase() == Phase::ReadingKeptLog
                            &&& final(self).spec_index() == i
                            &&& a matches Action::ReadKeptLog { path }
                            &&& path@ == failure_log_path(old(self).spec_log_dir(), i)
                        },
                    }
                } else {
                    &&& final(self).spec_phase() == Phase::Stopped
                    &&& a matches Action::Fail(Failure::UnknownCode { code: c, kept_log })
                    &&& c == code
                    &&& kept_log@ == name
                }
            }),
    {
        if !renamed {
            let from = string_of(self.log.as_slice());
            let to = string_of(failure_log_path_exec(self.log_dir.as_slice(), self.index).as_slice());
            return self.stop(Action::Fail(Failure::LogNotKept { from, to }));
        }
        let code = self.code;
        if code <= 15 {
            return self.advance();
        }
        let kept_log = string_of(failure_log_name_exec(self.index).as_slice());
        if code == 16 {
            match nothing_copied_cause(self.output.as_slice()) {
                NothingCopiedCause::SourceMissing => {
                    let source = string_of(self.saves[self.index].as_slice());
                    assert(views(self.saves@)[self.index as int] == self.saves@[self.index as int]@);
                    self.stop(Action::Fail(Failure::SourceMissing { code, source, kept_log }))
                },
                NothingCopiedCause::DestinationMissing => {
                    let destination = string_of(self.destination.as_slice());
                    self.stop(Action::Fail(Failure::DestinationMissing { code, destination, kept_log }))
                },
                NothingCopiedCause::LogPathInvalid => {
                    let destination = string_of(self.destination.as_slice());
                    self.stop(Action::Fail(Failure::LogPathInvalid { code, destination, kept_log }))
                },
                NothingCopiedCause::Other => {
                    self.phase = Phase::ReadingKeptLog;
                    let path = string_of(failure_log_path_exec(self.log_dir.as_slice(), self.index).as_slice());
                    Action::ReadKeptLog { path }
                },
            }
        } else {
            self.stop(Action::Fail(Failure::UnknownCode { code, kept_log }))
        }
    }

    /// Takes the contents of the kept log of a copy that copied nothing.
    pub fn on_kept_log(&mut self, contents: &str) -> (a: Action)
        requires
            old(self).wf(),
            old(self).spec_phase() == Phase::ReadingKeptLog,
        ensures
            final(self).wf(),
            action_fits(final(self), a),
            old(self).same_setup(final(self)),
            final(self).spec_phase() == Phase::Stopped,
            a matches Action::Fail(Failure::CopyFailed { log, kept_log }) && log@ == contents@
                && kept_log@ == failure_log_name(old(self).spec_index()),
    {
        let kept_log = string_of(failure_log_name_exec(self.index).as_slice());
        let log = string_of(chars_of(contents).as_slice());
        self.stop(Action::Fail(Failure::CopyFailed { log, kept_log }))
    }

    /// The backup destination, as read.
    pub fn destination(&self) -> (r: String)
        ensures
            r@ == self.spec_destination(),
    {
        string_of(self.destination.as_slice())
    }

    /// The path the copies go under.
    pub fn target_root(&self) -> (r: String)
        ensures
            r@ == self.spec_target(),
    {
        string_of(self.target.as_slice())
    }

    /// The computer's name, as read.
    pub fn computer(&self) -> (r: String)
        ensures
            r@ == self.spec_computer(),
    {
        string_of(self.computer.as_slice())
    }

    /// The folders to back up.
    pub fn locales(&self) -> (r: Vec<String>)
        ensures
            string_views(r@) == self.spec_saves(),
    {
        strings_of(&self.saves)
    }

    /// Where each folder is copied to.
    pub fn targets(&self) -> (r: Vec<String>)
        ensures
            string_views(r@) == self.spec_targets(),
    {
        strings_of(&self.targets)
    }

    /// The exit code of the last copy.
    pub fn last_code(&self) -> (r: u64)
        ensures
            r == self.spec_code(),
    {
        self.code
    }
}


fn strings_of(v: &Vec<Vec<char>>) -> (r: Vec<String>)
    ensures
        string_views(r@) == views(v@),
{
    let mut r: Vec<String> = Vec::new();
    let mut i: usize = 0;
    while i < v.len()
        invariant
            i <= v@.len(),
            string_views(r@) == views(v@).take(i as int),
        decreases v@.len() - i,
    {
        let s = string_of(v[i].as_slice());
        let ghost before = string_views(r@);
        r.push(s);
        assert(string_views(r@) == before.push(s@));
        assert(views(v@).take(i + 1) == views(v@).take(i as int).push(v@[i as int]@));
        i = i + 1;
    }
    assert(views(v@).take(v@.len() as int) == views(v@));
    r
}

/// The exit code of each failure: 1 where `net use` cannot run, 2 where
/// nothing is configured, 3 for every failure of a copy, 4 for a path too
/// long, 5 for a missing path or file.
pub proof fn lemma_failure_exit_code_table(f: Failure)
    ensures
        f is NetUseFailed ==> failure_exit_code(f) == 1,
        (f is NoDestinationInFile || f is NoSaveLocations) ==> failure_exit_code(f) == 2,
        (f is LogNotKept || f is SourceMissing || f is DestinationMissing || f is LogPathInvalid
            || f is CopyFailed || f is UnknownCode) ==> failure_exit_code(f) == 3,
        (f is ExePathTooLong || f is DestinationTooLong) ==> failure_exit_code(f) == 4,
        (f is ExePathMissing || f is NoDestinationFile || f is NoSavesFile) ==> failure_exit_code(f)
            == 5,
{
}

/// A run that stops on a failure exits with a code from 1 to 5, so never
/// with the 0 of a finished run.
pub proof fn lemma_failure_exit_codes(f: Failure)
    ensures
        1 <= failure_exit_code(f) <= 5,
{
}

/// A finished run has copied every folder, and every copy ended with a code
/// of at most 15 (a copy that copied nothing, or ended with an unknown
/// code, stops the run).
pub proof fn lemma_finished_run(s: &Session)
    requires
        s.wf(),
        s.spec_phase() == Phase::Finished,
    ensures
        s.spec_codes().len() == s.spec_saves().len(),
        forall|i: int| 0 <= i < s.spec_codes().len() ==> #[trigger] s.spec_codes()[i] <= 15,
        s.spec_saves().len() > 0,
{
}

/// Once the executable's path is read, the saves file is the one in the
/// executable's folder (or under its bare name near the length limit).
pub proof fn lemma_saves_file(s: &Session)
    requires
        s.wf(),
        !(s.spec_phase() is Starting || s.spec_phase() is LocatingExe || s.spec_phase() is Stopped),
    ensures
        s.spec_saves_file() == config_file_path(
            s.spec_exe(),
            exe_base(s.spec_exe()),
            saves_file_name(),
            saves_file_room(),
        ),
{
}

/// During the copies, each folder's target is the target root, the
/// computer's name, a backslash and the folder's path without colons; the
/// copy log and the folder the failed copies' logs are kept in come from
/// the executable's path.
pub proof fn lemma_copy_targets(s: &Session, i: int)
    requires
        s.wf(),
        is_copy_phase(s.spec_phase()),
        0 <= i < s.spec_saves().len(),
    ensures
        s.spec_targets().len() == s.spec_saves().len(),
        s.spec_targets()[i] == target_path(s.spec_target(), s.spec_computer(), s.spec_saves()[i]),
        log_file_spec(s.spec_exe()) == Some(s.spec_log()),
        log_dir_spec(s.spec_exe()) == Some(s.spec_log_dir()),
        s.spec_index() < s.spec_saves().len(),
{
    assert(views(s.targets@)[i] == s.targets@[i]@);
    assert(views(s.saves@)[i] == s.saves@[i]@);
}

/// A call the tray icon gets.
pub enum TrayCall {
    Add,
    Modify,
    Delete,
}

/// The tray calls an action stands for: the start adds the icon, each copy
/// and the end of a finished run change its tooltip, and a run that
/// finishes or fails removes it (an aborted run leaves it).
pub open spec fn tray_calls(a: Action) -> Seq<TrayCall> {
    match a {
        Action::ShowTray { .. } => seq![TrayCall::Add],
        Action::Copy { .. } => seq![TrayCall::Modify],
        Action::Finish { .. } => seq![TrayCall::Modify, TrayCall::Delete],
        Action::Fail(_) => seq![TrayCall::Delete],
        _ => Seq::empty(),
    }
}

/// The tooltip an action hands out, if any.
pub open spec fn tooltip_of(a: Action) -> Option<Seq<u16>> {
    match a {
        Action::ShowTray { tooltip } => Some(tooltip@),
        Action::Copy { tooltip, .. } => Some(tooltip@),
        Action::Finish { tooltip } => Some(tooltip@),
        _ => None,
    }
}

/// Step `i` of a run is taken from a state the run is not over in, and its
/// action fits the state it leaves.
pub open spec fn step_fits(states: Seq<Session>, actions: Seq<Action>, i: int) -> bool {
    &&& !is_terminal(states[i].spec_phase())
    &&& action_fits(&states[i + 1], actions[i + 1])
}

/// A run as the methods make it: `new` gives the first state and action;
/// each later state and action is what an `on_*` method returned, called in
/// a state the run was not over in (their `requires` ask for such phases,
/// and each of them `ensures` `action_fits`).
pub open spec fn is_run(states: Seq<Session>, actions: Seq<Action>) -> bool {
    &&& states.len() == actions.len()
    &&& states.len() > 0
    &&& states[0].spec_phase() == Phase::Starting
    &&& actions[0] matches Action::ShowTray { tooltip } && tooltip_ok(tooltip@)
    &&& forall|i: int| 0 <= i < states.len() - 1 ==> #[trigger] step_fits(states, actions, i)
}

/// Over a run, the tray icon is added once, by the first action; it is
/// removed only by the last action, at the end of it; its tooltip changes
/// once per copy and once when the run finishes; and every tooltip handed
/// out is a full buffer that ends in a NUL.
pub proof fn lemma_run_tray(states: Seq<Session>, actions: Seq<Action>)
    requires
        is_run(states, actions),
    ensures
        tray_calls(actions[0]) == seq![TrayCall::Add],
        forall|i: int| 0 < i < actions.len() ==> !(#[trigger] tray_calls(actions[i])).contains(TrayCall::Add),
        forall|i: int| 0 <= i < actions.len() - 1 ==> !(#[trigger] tray_calls(actions[i])).contains(TrayCall::Delete),
        forall|i: int| 0 <= i < actions.len() ==> ((#[trigger] tray_calls(actions[i])).contains(TrayCall::Modify)
            <==> (actions[i] is Copy || actions[i] is Finish)),
        forall|i: int| 0 <= i < actions.len() && (#[trigger] tooltip_of(actions[i])) is Some ==> tooltip_ok(tooltip_of(actions[i])->0),
{
    assert forall|i: int| 0 < i < actions.len() implies !(#[trigger] tray_calls(actions[i])).contains(TrayCall::Add) by {
        assert(step_fits(states, actions, i - 1));
        if tray_calls(actions[i]).contains(TrayCall::Add) {
            let k = choose|k: int| 0 <= k < tray_calls(actions[i]).len() && tray_calls(actions[i])[k] == TrayCall::Add;
        }
    }
    assert forall|i: int| 0 <= i < actions.len() - 1 implies !(#[trigger] tray_calls(actions[i])).contains(TrayCall::Delete) by {
        assert(step_fits(states, actions, i));
        if i > 0 {
            assert(step_fits(states, actions, i - 1));
        }
        if tray_calls(actions[i]).contains(TrayCall::Delete) {
            let k = choose|k: int| 0 <= k < tray_calls(actions[i]).len() && tray_calls(actions[i])[k] == TrayCall::Delete;
        }
    }
    assert forall|i: int| 0 <= i < actions.len() implies ((#[trigger] tray_calls(actions[i])).contains(TrayCall::Modify)
        <==> (actions[i] is Copy || actions[i] is Finish)) by {
        if actions[i] is Copy {
            assert(tray_calls(actions[i])[0] == TrayCall::Modify);
        }
        if actions[i] is Finish {
            assert(tray_calls(actions[i])[0] == TrayCall::Modify);
        }
        if tray_calls(actions[i]).contains(TrayCall::Modify) {
            let k = choose|k: int| 0 <= k < tray_calls(actions[i]).len() && tray_calls(actions[i])[k] == TrayCall::Modify;
        }
    }
    assert forall|i: int| 0 <= i < actions.len() && (#[trigger] tooltip_of(actions[i])) is Some implies tooltip_ok(tooltip_of(actions[i])->0) by {
        if i > 0 {
            assert(step_fits(states, actions, i - 1));
        }
    }
}

/// The copy of folder `i`: its tooltip reads `Backing up <i+1>/<n>: <folder>`
/// (n the number of folders), and its arguments are the folder, its
/// target, the seven options and `/LOG:` with the copy log.
pub proof fn lemma_copy_action(s: &Session, i: nat, a: Action)
    requires
        s.copy_action_of(i, a),
    ensures
        a matches Action::Copy { index, tooltip, arguments } && index == i && tooltip@
            == crate::tooltip::tooltip_units(
            crate::utf16::utf16_of(
                "Backing up "@ + crate::number::decimal(i + 1) + "/"@ + crate::number::decimal(
                    s.spec_saves().len(),
                ) + ": "@ + s.spec_saves()[i as int],
            ),
        ) && arguments@.len() == 10 && arguments@[0]@ == s.spec_saves()[i as int]
            && arguments@[1]@ == s.spec_targets()[i as int] && arguments@[9]@ == "/LOG:"@
            + s.spec_log(),
{
    if let Action::Copy { index, tooltip, arguments } = a {
        crate::robocopy::lemma_copy_arguments(s.spec_saves()[i as int], s.spec_targets()[i as int], s.spec_log());
        assert(string_views(arguments@).len() == arguments@.len());
        assert(string_views(arguments@)[0] == arguments@[0]@);
        assert(string_views(arguments@)[1] == arguments@[1]@);
        assert(string_views(arguments@)[9] == arguments@[9]@);
    }
}

/// After a copy the run goes on to the next folder, or, after the last,
/// finishes with the tooltip `Basic Bitch Backup has completed successfully`.
pub proof fn lemma_advanced(s: &Session, next: &Session, a: Action)
    requires
        s.advanced(next, a),
    ensures
        s.spec_index() + 1 < s.spec_saves().len() ==> next.spec_phase() == Phase::Copying
            && next.spec_index() == s.spec_index() + 1 && (a matches Action::Copy { index, .. } && index
            == s.spec_index() + 1),
        s.spec_index() + 1 >= s.spec_saves().len() ==> next.spec_phase() == Phase::Finished && (
        a matches Action::Finish { tooltip } && tooltip@ == crate::tooltip::tooltip_units(
            crate::utf16::utf16_of("Basic Bitch Backup has completed successfully"@),
        )),
{
}

} // verus!
