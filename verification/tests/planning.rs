use backup_basic::config::{check_destination, destination_from_file, save_locales, DestinationCheck};
use backup_basic::network::network_target;
use backup_basic::paths::{
    config_files, failure_log_name_exec, failure_log_path_exec, log_dir, log_file,
    module_path_status, ModulePathStatus,
};
use backup_basic::robocopy::{
    classify, copy_arguments_exec, exit_code, nothing_copied_cause, target_path_exec, CopyCode,
    NothingCopiedCause,
};
use backup_basic::tooltip::{finished_text_exec, progress_text_exec, running_text_exec, tooltip};

fn cs(s: &str) -> Vec<char> {
    s.chars().collect()
}

fn st(v: &[char]) -> String {
    v.iter().collect()
}

#[test]
fn module_path_status_follows_length_and_error() {
    assert_eq!(module_path_status(1023, 0), ModulePathStatus::TooLong);
    assert_eq!(module_path_status(40, 122), ModulePathStatus::TooLong);
    assert_eq!(module_path_status(0, 122), ModulePathStatus::TooLong);
    assert_eq!(module_path_status(0, 0), ModulePathStatus::Missing);
    assert_eq!(module_path_status(0, 5), ModulePathStatus::Missing);
    assert_eq!(module_path_status(19, 0), ModulePathStatus::Present);
    assert_eq!(module_path_status(1024, 0), ModulePathStatus::Present);
}

#[test]
fn config_files_sit_beside_the_executable() {
    let files = config_files(&cs("C:\\Tools\\Backup.exe"));
    assert_eq!(files.destination, "\\\\?\\C:\\Tools\\Backup_destinationLocale.txt");
    assert_eq!(files.saves, "\\\\?\\C:\\Tools\\Backup_saveLocales.txt");
    assert!(!files.destination_shortened);
    assert!(!files.saves_shortened);
}

#[test]
fn config_files_fall_back_to_bare_names_near_the_limit() {
    // 4 + 990 = 994 characters: 994 + 29 > 1024 but 994 + 22 <= 1024.
    let mut local = String::from("C:\\");
    local.push_str(&"a".repeat(980));
    local.push_str("\\Backup.exe");
    assert_eq!(local.chars().count(), 994);
    let files = config_files(&cs(&local));
    assert!(files.destination_shortened);
    assert_eq!(files.destination, "Backup_destinationLocale.txt");
    assert!(!files.saves_shortened);
    assert!(files.saves.ends_with("\\Backup_saveLocales.txt"));
    assert!(files.saves.starts_with("\\\\?\\C:\\aaa"));
}

#[test]
fn config_files_use_the_folder_up_to_the_last_backslash() {
    let files = config_files(&cs("C:\\Tools\\"));
    assert_eq!(files.saves, "\\\\?\\C:\\Tools\\Backup_saveLocales.txt");
    let files = config_files(&cs(""));
    assert_eq!(files.destination, "\\\\?\\Backup_destinationLocale.txt");
}

#[test]
fn config_files_sit_beside_an_executable_in_a_non_ascii_folder() {
    let files = config_files(&cs("C:\\\u{dc}\\B.exe"));
    assert_eq!(files.saves, "\\\\?\\C:\\\u{dc}\\Backup_saveLocales.txt");
    let files = config_files(&cs("\u{e9}\\ab"));
    assert_eq!(files.destination, "\\\\?\\\u{e9}\\Backup_destinationLocale.txt");
    let files = config_files(&cs("C:\\\u{e9}\\Backup.exe"));
    assert_eq!(files.destination, "\\\\?\\C:\\\u{e9}\\Backup_destinationLocale.txt");
}

#[test]
fn log_paths_come_from_the_executable_path() {
    let local = cs("C:\\Tools\\Backup.exe");
    assert_eq!(st(&log_file(&local).unwrap()), "C:\\Tools\\Backup-backup.log");
    assert_eq!(st(&log_dir(&local).unwrap()), "C:\\Tools");
    assert!(log_file(&cs("C:\\Tools\\Backup")).is_none());
    assert!(log_dir(&cs("Backup.exe")).is_none());
    assert_eq!(st(&failure_log_name_exec(3)), "04FILECOPYFAILURE.log");
    assert_eq!(st(&failure_log_name_exec(11)), "12FILECOPYFAILURE.log");
    assert_eq!(st(&failure_log_name_exec(99)), "100FILECOPYFAILURE.log");
    assert_eq!(st(&failure_log_path_exec(&cs("C:\\Tools"), 0)), "C:\\Tools\\01FILECOPYFAILURE.log");
}

#[test]
fn destination_is_the_first_line_with_a_backslash() {
    assert_eq!(st(&destination_from_file("Z:\r\nsomething else\r\n").unwrap()), "Z:\\");
    assert_eq!(st(&destination_from_file("Z:\\Backups\\   \n\n").unwrap()), "Z:\\Backups\\");
    assert_eq!(st(&destination_from_file("\\\\server\\share").unwrap()), "\\\\server\\share\\");
    assert_eq!(st(&destination_from_file("").unwrap()), "makeRustHappy\\");
    assert_eq!(st(&destination_from_file(" \r\n\t").unwrap()), "makeRustHappy\\");
    assert!(destination_from_file("\nZ:\\").is_none());
    assert!(destination_from_file("   \nZ:\\").is_none());
}

#[test]
fn destination_length_is_checked() {
    assert_eq!(check_destination(&cs("Z:\\")), DestinationCheck::Usable);
    assert_eq!(check_destination(&cs("")), DestinationCheck::Empty);
    assert_eq!(check_destination(&vec!['a'; 1023]), DestinationCheck::Usable);
    assert_eq!(check_destination(&vec!['a'; 1024]), DestinationCheck::TooLong);
}

#[test]
fn save_locales_are_the_lines_with_a_backslash() {
    let got: Vec<String> = save_locales("C:\\Users\\me\\Documents\r\nnot a path\r\nD:\\Photos\r\n\r\n   ")
        .iter()
        .map(|l| st(l))
        .collect();
    assert_eq!(got, vec!["C:\\Users\\me\\Documents", "D:\\Photos"]);
    assert!(save_locales("no folders here\nnone").is_empty());
    assert!(save_locales("").is_empty());
}

const NET_USE_OK: &str = "New connections will be remembered.\r\n\r\nStatus       Local     Remote                    Network\r\n\r\n-------------------------------------------------------------------------------\r\nOK           Z:        \\\\server\\share            Microsoft Windows Network\r\nThe command completed successfully.\r\n";

const NET_USE_UNAVAILABLE: &str = "New connections will be remembered.\r\n\r\nStatus       Local     Remote                    Network\r\n\r\n-------------------------------------------------------------------------------\r\nUnavailable  Z:        \\\\server\\share            Microsoft Windows Network\r\nThe command completed successfully.\r\n";

#[test]
fn mapped_drive_becomes_its_share_path() {
    let t = network_target(&cs("Z:\\Backups\\"), &cs(NET_USE_OK)).unwrap();
    assert_eq!(st(&t.unc), "\\\\server\\share\\Backups\\");
    assert!(!t.reconnect);
}

#[test]
fn unavailable_drive_is_reconnected() {
    let t = network_target(&cs("Z:\\Backups\\"), &cs(NET_USE_UNAVAILABLE)).unwrap();
    assert_eq!(st(&t.unc), "\\\\server\\share\\Backups\\");
    assert!(t.reconnect);
}

#[test]
fn local_and_share_destinations_are_kept() {
    let t = network_target(&cs("C:\\Backups\\"), &cs(NET_USE_OK)).unwrap();
    assert_eq!(st(&t.unc), "C:\\Backups\\");
    assert!(!t.reconnect);
    let t = network_target(&cs("\\\\server\\share\\"), &cs(NET_USE_OK)).unwrap();
    assert_eq!(st(&t.unc), "\\\\server\\share\\");
    assert!(!t.reconnect);
}

#[test]
fn incomplete_listing_or_short_destination_is_refused() {
    assert!(network_target(&cs("Z\\"), &cs(NET_USE_OK)).is_none());
    assert!(network_target(&cs("Z:\\"), &cs("\nOK Z: nothing")).is_none());
    assert!(network_target(&cs("Z:\\"), &cs("\nOK Z: \\\\server\\share")).is_none());
    assert!(network_target(&cs("Z:\\"), &cs("OK Z: \\\\server\\share x")).is_none());
}

#[test]
fn targets_put_the_computer_name_first_and_drop_colons() {
    assert_eq!(st(&target_path_exec(&cs("Z:\\"), &cs("PC"), &cs("C:\\Users\\me"))), "Z:\\PC\\C\\Users\\me");
    assert_eq!(
        st(&target_path_exec(&cs("\\\\server\\share\\B\\"), &cs("DESK"), &cs("D:\\Photos"))),
        "\\\\server\\share\\B\\DESK\\D\\Photos"
    );
}

#[test]
fn copy_arguments_are_in_order() {
    let args = copy_arguments_exec(&cs("C:\\a"), &cs("Z:\\PC\\C\\a"), &cs("C:\\T\\Backup-backup.log"));
    assert_eq!(
        args,
        vec![
            "C:\\a", "Z:\\PC\\C\\a", "/MIR", "/copy:DAT", "/MT:32", "/Z", "/R:2", "/W:03", "/v",
            "/LOG:C:\\T\\Backup-backup.log"
        ]
    );
}

#[test]
fn exit_code_is_read_from_the_status() {
    assert_eq!(exit_code(&cs("ExitStatus(ExitStatus(3))")), Some(3));
    assert_eq!(exit_code(&cs("ExitStatus(ExitStatus(16))")), Some(16));
    assert_eq!(exit_code(&cs("ExitStatus(unix_wait_status(256))")), Some(256));
    assert_eq!(exit_code(&cs("ExitStatus(3)")), None);
    assert_eq!(exit_code(&cs("ExitStatus(ExitStatus(-1))")), None);
    assert_eq!(exit_code(&cs("exit code: 1")), None);
}

#[test]
fn exit_codes_are_classified() {
    assert_eq!(classify(0), CopyCode::Clean);
    assert_eq!(classify(1), CopyCode::Clean);
    assert_eq!(classify(2), CopyCode::ExtraFiles);
    assert_eq!(classify(3), CopyCode::ExtraFiles);
    assert_eq!(classify(4), CopyCode::Mismatched);
    assert_eq!(classify(7), CopyCode::Mismatched);
    assert_eq!(classify(8), CopyCode::SomeFailed);
    assert_eq!(classify(15), CopyCode::SomeFailed);
    assert_eq!(classify(16), CopyCode::NothingCopied);
    assert_eq!(classify(17), CopyCode::Unknown);
    assert_eq!(classify(u64::MAX), CopyCode::Unknown);
}

#[test]
fn nothing_copied_cause_is_found_in_the_output() {
    let e2 = "2024/01/01 ERROR 2 (0x00000002) Accessing Source Directory C:\\x\\";
    let e3 = "ERROR 3 (0x00000003) Creating Destination Directory Z:\\";
    let e123 = "ERROR 123 (0x0000007B) Opening Log File C:\\bad";
    assert_eq!(nothing_copied_cause(&cs(e2)), NothingCopiedCause::SourceMissing);
    assert_eq!(nothing_copied_cause(&cs(e3)), NothingCopiedCause::DestinationMissing);
    assert_eq!(nothing_copied_cause(&cs(e123)), NothingCopiedCause::LogPathInvalid);
    assert_eq!(nothing_copied_cause(&cs(&format!("{}\n{}", e3, e2))), NothingCopiedCause::SourceMissing);
    assert_eq!(nothing_copied_cause(&cs("ERROR 5 (0x00000005)")), NothingCopiedCause::Other);
}

#[test]
fn tooltip_texts() {
    assert_eq!(st(&running_text_exec()), "Basic Bitch Backup is running in the background");
    assert_eq!(st(&finished_text_exec()), "Basic Bitch Backup has completed successfully");
    assert_eq!(st(&progress_text_exec(2, 3, &cs("C:\\X"))), "Backing up 2/3: C:\\X");
}

#[test]
fn short_tooltip_is_kept_and_padded() {
    let buffer = tooltip(&cs("Backing up 1/1: C:\\X"));
    assert_eq!(buffer.len(), 128);
    let units: Vec<u16> = "Backing up 1/1: C:\\X".encode_utf16().collect();
    assert_eq!(&buffer[..units.len()], &units[..]);
    assert!(buffer[units.len()..].iter().all(|&u| u == 0));
}

#[test]
fn long_tooltip_is_cut_with_dots() {
    let text = "x".repeat(200);
    let buffer = tooltip(&cs(&text));
    assert_eq!(buffer.len(), 128);
    assert!(buffer[..125].iter().all(|&u| u == 'x' as u16));
    assert_eq!(&buffer[125..], &[46, 46, 0]);
    let exactly = "y".repeat(127);
    let buffer = tooltip(&cs(&exactly));
    assert_eq!(buffer[126], 'y' as u16);
    assert_eq!(buffer[127], 0);
    let one_more = "y".repeat(128);
    let buffer = tooltip(&cs(&one_more));
    assert_eq!(&buffer[125..], &[46, 46, 0]);
}

#[test]
fn kept_log_names_differ_for_every_folder() {
    let names: Vec<String> = (0..300usize).map(|i| st(&failure_log_name_exec(i))).collect();
    let mut sorted = names.clone();
    sorted.sort();
    sorted.dedup();
    assert_eq!(sorted.len(), names.len());
}

#[test]
fn targets_hold_no_colon_after_the_computer_name() {
    let t = st(&target_path_exec(&cs("Z:\\"), &cs("PC"), &cs("C:\\a:b:\\c")));
    assert_eq!(t, "Z:\\PC\\C\\ab\\c");
    assert!(!t["Z:\\PC\\".len()..].contains(':'));
}
