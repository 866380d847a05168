//! Where things are: the checks on the executable's path as Windows reports
//! it, the two configuration files beside the executable, the log file of
//! the copies and the names the log is kept under when a copy fails.
use vstd::prelude::*;
use crate::text::{
    chars_of, concat, is_last_occurrence, lemma_last_occurrence_exists, lemma_no_char,
    lemma_rfind_char, occurs_at, rfind_exec, rfind_spec, slice_chars, string_of,
};
use crate::number::{
    decimal_two, decimal_two_exec, lemma_decimal_two_injective, lemma_parse_decimal_two, parse_u64,
};

verus! {

/// The longest path, in UTF-16 code units, that the driver accepts.
pub const MAX_PATH_WIN: u32 = 1024;

/// The Windows error code that reports a buffer too small for the result.
pub const ERROR_INSUFFICIENT_BUFFER: u32 = 122;

/// What the length and last error reported with the executable's path say.
#[derive(PartialEq, Eq, Structural, Debug, Clone, Copy)]
pub enum ModulePathStatus {
    /// The path filled the buffer, or Windows said the buffer was too small.
    TooLong,
    /// No path was reported.
    Missing,
    /// A path was reported.
    Present,
}

pub open spec fn module_path_status_spec(length: u32, last_error: u32) -> ModulePathStatus {
    if length == MAX_PATH_WIN - 1 || last_error == ERROR_INSUFFICIENT_BUFFER {
        ModulePathStatus::TooLong
    } else if length == 0 {
        ModulePathStatus::Missing
    } else {
        ModulePathStatus::Present
    }
}

/// Classifies the length and last error that came with the executable's path.
pub fn module_path_status(length: u32, last_error: u32) -> (r: ModulePathStatus)
    ensures
        r == module_path_status_spec(length, last_error),
{
    if length == MAX_PATH_WIN - 1 || last_error == ERROR_INSUFFICIENT_BUFFER {
        ModulePathStatus::TooLong
    } else if length == 0 {
        ModulePathStatus::Missing
    } else {
        ModulePathStatus::Present
    }
}

/// The prefix that lifts the length limit of a local Windows path: `\\?\`.
pub open spec fn long_path_prefix() -> Seq<char> {
    seq!['\\', '\\', '?', '\\']
}

pub open spec fn destination_file_name() -> Seq<char> {
    "Backup_destinationLocale.txt"@
}

pub open spec fn saves_file_name() -> Seq<char> {
    "Backup_saveLocales.txt"@
}

/// The room kept after the directory for the name of each configuration file.
pub open spec fn destination_file_room() -> int {
    29
}

pub open spec fn saves_file_room() -> int {
    22
}

/// The executable's path with the long-path prefix.
pub open spec fn prefixed_path(local: Seq<char>) -> Seq<char> {
    long_path_prefix() + local
}

/// The directory of the executable, on the prefixed path: that path up to
/// and including its last backslash (the prefix itself holds one, so there
/// always is one).
pub open spec fn exe_base(local: Seq<char>) -> Seq<char> {
    let p = prefixed_path(local);
    p.take(rfind_spec(p, seq!['\\'])->0 + 1)
}

/// The executable's directory ends in a backslash, begins the prefixed
/// path, and no backslash follows it there: it is the folder the
/// executable is in.
pub proof fn lemma_exe_base(local: Seq<char>)
    ensures
        rfind_spec(prefixed_path(local), seq!['\\']) is Some,
        exe_base(local).len() == rfind_spec(prefixed_path(local), seq!['\\'])->0 + 1,
        long_path_prefix().len() <= exe_base(local).len() <= prefixed_path(local).len(),
        exe_base(local).last() == '\\',
        prefixed_path(local).take(exe_base(local).len() as int) == exe_base(local),
        forall|j: int|
            exe_base(local).len() <= j < prefixed_path(local).len() ==> #[trigger] prefixed_path(local)[j]
                != '\\',
{
    let p = prefixed_path(local);
    let pat = seq!['\\'];
    assert(p.subrange(3, 4) =~= pat);
    assert(occurs_at(p, pat, 3));
    lemma_last_occurrence_exists(p, pat, 3);
    let i = rfind_spec(p, pat)->0;
    let w = choose|k: int| is_last_occurrence(p, pat, k);
    assert(is_last_occurrence(p, pat, w));
    assert(i == w);
    assert(p.subrange(i, i + 1)[0] == p[i]);
    assert forall|j: int| i + 1 <= j < p.len() implies #[trigger] p[j] != '\\' by {
        if p[j] == '\\' {
            assert(p.subrange(j, j + 1) =~= pat);
            assert(occurs_at(p, pat, j));
        }
    }
    if i < 3 {
        assert(occurs_at(p, pat, 3));
    }
}

/// Where a configuration file is looked for: beside the executable, or
/// under its bare name where the full path would pass the length limit.
pub open spec fn config_file_path(local: Seq<char>, base: Seq<char>, name: Seq<char>, room: int) -> Seq<char> {
    if config_file_shortened(local, room) {
        name
    } else {
        base + name
    }
}

pub open spec fn config_file_shortened(local: Seq<char>, room: int) -> bool {
    prefixed_path(local).len() + room > MAX_PATH_WIN
}

/// The paths of the two configuration files.
pub struct ConfigFiles {
    /// The file that names the backup destination.
    pub destination: String,
    /// The file that lists the folders to back up.
    pub saves: String,
    /// The destination file is looked for under its bare name.
    pub destination_shortened: bool,
    /// The saves file is looked for under its bare name.
    pub saves_shortened: bool,
}

pub open spec fn config_files_match(local: Seq<char>, files: ConfigFiles) -> bool {
    let base = exe_base(local);
    &&& files.destination@ == config_file_path(
        local,
        base,
        destination_file_name(),
        destination_file_room(),
    )
    &&& files.saves@ == config_file_path(local, base, saves_file_name(), saves_file_room())
    &&& files.destination_shortened == config_file_shortened(local, destination_file_room())
    &&& files.saves_shortened == config_file_shortened(local, saves_file_room())
}

/// The paths of the configuration files for an executable at `local`
/// (its path without NULs and without the long-path prefix).
pub fn config_files(local: &[char]) -> (res: ConfigFiles)
    ensures
        config_files_match(local@, res),
{
    let prefix: Vec<char> = vec!['\\', '\\', '?', '\\'];
    assert(prefix@ =~= long_path_prefix());
    let path = concat(prefix.as_slice(), local);
    let n = path.len();
    let backslash: Vec<char> = vec!['\\'];
    assert(backslash@ =~= seq!['\\']);
    assert(path@.subrange(3, 4) =~= backslash@);
    assert(occurs_at(path@, backslash@, 3));
    let last = match rfind_exec(path.as_slice(), backslash.as_slice()) {
        Some(i) => i,
        None => 3,
    };
    assert(last + 1 <= path@.len());
    proof {
        lemma_exe_base(local@);
        assert(path@ == prefixed_path(local@));
        assert(crate::text::contains_seq(path@, backslash@));
    }
    let base = slice_chars(path.as_slice(), 0, last + 1);
    assert(path@.subrange(0, last + 1) == path@.take(last + 1));
    let destination_name = chars_of("Backup_destinationLocale.txt");
    let saves_name = chars_of("Backup_saveLocales.txt");
    let destination_shortened = n > (MAX_PATH_WIN as usize) - 29;
    let saves_shortened = n > (MAX_PATH_WIN as usize) - 22;
    let destination = if destination_shortened {
        string_of(destination_name.as_slice())
    } else {
        string_of(concat(base.as_slice(), destination_name.as_slice()).as_slice())
    };
    let saves = if saves_shortened {
        string_of(saves_name.as_slice())
    } else {
        string_of(concat(base.as_slice(), saves_name.as_slice()).as_slice())
    };
    ConfigFiles { destination, saves, destination_shortened, saves_shortened }
}

/// The copy log: the executable's path without its extension, followed by
/// `-backup.log`. `None` where the path holds no `.`.
pub open spec fn log_file_spec(local: Seq<char>) -> Option<Seq<char>> {
    match rfind_spec(local, seq!['.']) {
        Some(i) => Some(local.take(i) + "-backup.log"@),
        None => None,
    }
}

/// The executable's directory, without its final backslash. `None` where
/// the path holds no backslash.
pub open spec fn log_dir_spec(local: Seq<char>) -> Option<Seq<char>> {
    match rfind_spec(local, seq!['\\']) {
        Some(i) => Some(local.take(i)),
        None => None,
    }
}

/// The name the copy log of the `index`-th folder (counted from 0) is kept
/// under when that copy fails: its number from 1, on two digits at least,
/// then `FILECOPYFAILURE.log`.
pub open spec fn failure_log_name(index: nat) -> Seq<char> {
    decimal_two(index + 1) + "FILECOPYFAILURE.log"@
}

/// The full path of that kept log, in the executable's directory.
pub open spec fn failure_log_path(dir: Seq<char>, index: nat) -> Seq<char> {
    dir + seq!['\\'] + failure_log_name(index)
}

/// The path of the copy log.
pub fn log_file(local: &[char]) -> (res: Option<Vec<char>>)
    ensures
        res is None <==> log_file_spec(local@) is None,
        res matches Some(p) ==> log_file_spec(local@) == Some(p@),
{
    let dot: Vec<char> = vec!['.'];
    assert(dot@ =~= seq!['.']);
    match rfind_exec(local, dot.as_slice()) {
        Some(i) => {
            let stem = slice_chars(local, 0, i);
            assert(local@.subrange(0, i as int) == local@.take(i as int));
            let postfix = chars_of("-backup.log");
            Some(concat(stem.as_slice(), postfix.as_slice()))
        },
        None => None,
    }
}

/// The directory the kept logs go to.
pub fn log_dir(local: &[char]) -> (res: Option<Vec<char>>)
    ensures
        res is None <==> log_dir_spec(local@) is None,
        res matches Some(p) ==> log_dir_spec(local@) == Some(p@),
{
    let backslash: Vec<char> = vec!['\\'];
    assert(backslash@ =~= seq!['\\']);
    match rfind_exec(local, backslash.as_slice()) {
        Some(i) => {
            assert(local@.subrange(0, i as int) == local@.take(i as int));
            Some(slice_chars(local, 0, i))
        },
        None => None,
    }
}

/// The name a failed copy's log is kept under.
pub fn failure_log_name_exec(index: usize) -> (res: Vec<char>)
    requires
        index < usize::MAX,
    ensures
        res@ == failure_log_name(index as nat),
{
    let number = decimal_two_exec((index + 1) as u64);
    let suffix = chars_of("FILECOPYFAILURE.log");
    concat(number.as_slice(), suffix.as_slice())
}

/// The full path a failed copy's log is kept under.
pub fn failure_log_path_exec(dir: &[char], index: usize) -> (res: Vec<char>)
    requires
        index < usize::MAX,
    ensures
        res@ == failure_log_path(dir@, index as nat),
{
    let mut res: Vec<char> = Vec::new();
    res.extend_from_slice(dir);
    res.push('\\');
    let name = failure_log_name_exec(index);
    res.extend_from_slice(name.as_slice());
    res
}

/// The logs of two different failed copies are kept under different names.
pub proof fn lemma_failure_log_names_differ(i: nat, j: nat)
    requires
        i != j,
        i < u64::MAX,
        j < u64::MAX,
    ensures
        failure_log_name(i) != failure_log_name(j),
{
    let a = decimal_two(i + 1);
    let b = decimal_two(j + 1);
    let suffix = "FILECOPYFAILURE.log"@;
    if failure_log_name(i) == failure_log_name(j) {
        assert((a + suffix).len() == (b + suffix).len());
        assert((a + suffix).take(a.len() as int) == a);
        assert((b + suffix).take(b.len() as int) == b);
        assert(a == b);
        lemma_decimal_two_injective((i + 1) as u64, (j + 1) as u64);
    }
}

/// The copy log is the executable's path with only its extension (from its
/// last `.`) replaced by `-backup.log`.
pub proof fn lemma_log_file(local: Seq<char>, i: int)
    requires
        0 <= i < local.len(),
        local[i] == '.',
        forall|j: int| i < j < local.len() ==> local[j] != '.',
    ensures
        log_file_spec(local) == Some(local.take(i) + "-backup.log"@),
{
    lemma_rfind_char(local, '.', i);
}

/// A path without `.` gives no copy log.
pub proof fn lemma_log_file_none(local: Seq<char>)
    requires
        forall|j: int| 0 <= j < local.len() ==> local[j] != '.',
    ensures
        log_file_spec(local) is None,
{
    lemma_no_char(local, '.');
}

/// The kept logs go to the executable's directory: its path up to, not
/// including, its last backslash.
pub proof fn lemma_log_dir(local: Seq<char>, i: int)
    requires
        0 <= i < local.len(),
        local[i] == '\\',
        forall|j: int| i < j < local.len() ==> local[j] != '\\',
    ensures
        log_dir_spec(local) == Some(local.take(i)),
{
    lemma_rfind_char(local, '\\', i);
}

/// A path without backslash gives no directory for the kept logs.
pub proof fn lemma_log_dir_none(local: Seq<char>)
    requires
        forall|j: int| 0 <= j < local.len() ==> local[j] != '\\',
    ensures
        log_dir_spec(local) is None,
{
    lemma_no_char(local, '\\');
}

/// The name a failed copy's log is kept under starts with the folder's
/// number (its position from 1), which reads back, and ends in
/// `FILECOPYFAILURE.log`; the kept log's path is that name in the given
/// directory.
pub proof fn lemma_failure_log_name(dir: Seq<char>, index: nat)
    requires
        index < u64::MAX,
    ensures
        ({
            let name = failure_log_name(index);
            let suffix = "FILECOPYFAILURE.log"@;
            &&& name.len() > suffix.len()
            &&& name.skip(name.len() - suffix.len()) == suffix
            &&& parse_u64(name.take(name.len() - suffix.len())) == Some((index + 1) as u64)
            &&& failure_log_path(dir, index) == dir + seq!['\\'] + name
        }),
{
    let number = decimal_two(index + 1);
    let suffix = "FILECOPYFAILURE.log"@;
    let name = failure_log_name(index);
    lemma_parse_decimal_two((index + 1) as u64);
    assert(number.len() > 0);
    assert(name.skip(name.len() - suffix.len()) =~= suffix);
    assert(name.take(name.len() - suffix.len()) =~= number);
}

/// The executable's path is refused as too long where it filled the buffer
/// (1023 units) or Windows reported a buffer too small (error 122), and as
/// missing where its length is 0; else it is there.
pub proof fn lemma_module_path_status_table(length: u32, last_error: u32)
    ensures
        (module_path_status_spec(length, last_error) == ModulePathStatus::TooLong) <==> (length == 1023
            || last_error == 122),
        (module_path_status_spec(length, last_error) == ModulePathStatus::Missing) <==> (length == 0
            && last_error != 122),
        (module_path_status_spec(length, last_error) == ModulePathStatus::Present) <==> (length != 0
            && length != 1023 && last_error != 122),
{
}

/// A configuration file is looked for beside the executable, unless the
/// prefixed path with the room for the name passes 1024 characters; then
/// under its bare name.
pub proof fn lemma_config_file_path(local: Seq<char>, name: Seq<char>, room: int)
    ensures
        config_file_shortened(local, room) <==> 4 + local.len() + room > 1024,
        !config_file_shortened(local, room) ==> config_file_path(local, exe_base(local), name, room)
            == exe_base(local) + name,
        config_file_shortened(local, room) ==> config_file_path(local, exe_base(local), name, room) == name,
        destination_file_room() == 29,
        saves_file_room() == 22,
{
}

} // verus!
