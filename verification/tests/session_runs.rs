use backup_basic::session::{Action, Failure, Halt, Phase, Session};

fn padded(text: &str) -> Vec<u16> {
    let mut v: Vec<u16> = text.encode_utf16().collect();
    v.resize(1024, 0);
    v
}

const NET_USE_OK: &str = "New connections will be remembered.\r\n\r\nStatus       Local     Remote                    Network\r\n\r\n-------------------------------------------------------------------------------\r\nOK           Z:        \\\\server\\share            Microsoft Windows Network\r\nThe command completed successfully.\r\n";

const NET_USE_DISCONNECTED: &str = "\r\nStatus       Local     Remote                    Network\r\n\r\nDisconnected Z:        \\\\server\\share            Microsoft Windows Network\r\n";

/// A session whose tray icon is shown, about to read the executable's path.
fn started() -> Session {
    let (mut s, a) = Session::new();
    match &a {
        Action::ShowTray { tooltip } => {
            let want: Vec<u16> = "Basic Bitch Backup is running in the background".encode_utf16().collect();
            assert_eq!(&tooltip[..want.len()], &want[..]);
            assert!(tooltip[want.len()..].iter().all(|&u| u == 0));
        }
        _ => panic!("expected the tray icon to be shown"),
    }
    assert!(matches!(s.on_tray_shown(), Action::ReadExePath));
    assert_eq!(s.phase(), Phase::LocatingExe);
    s
}

/// A session that has read everything and is about to copy the first folder.
fn ready(saves: &str) -> (Session, Action) {
    let mut s = started();
    let a = s.on_exe_path(&padded("C:\\Tools\\Backup.exe"), 19, 0);
    match &a {
        Action::ReadDestinationFile { path, destination_shortened, saves_shortened } => {
            assert_eq!(path, "\\\\?\\C:\\Tools\\Backup_destinationLocale.txt");
            assert!(!destination_shortened && !saves_shortened);
        }
        _ => panic!("expected the destination file to be read"),
    }
    let a = s.on_destination_file(Some("Z:\\Backups\r\n"));
    assert!(matches!(a, Action::RunNetUse));
    assert_eq!(s.destination(), "Z:\\Backups\\");
    let a = s.on_net_use(true, NET_USE_OK.as_bytes());
    match &a {
        Action::ReadSavesFile { path } => assert_eq!(path, "\\\\?\\C:\\Tools\\Backup_saveLocales.txt"),
        _ => panic!("expected the saves file to be read"),
    }
    assert_eq!(s.target_root(), "\\\\server\\share\\Backups\\");
    let a = s.on_saves_file(Some(saves));
    assert!(matches!(a, Action::ReadComputerName));
    let a = s.on_computer_name(&padded("DESK"));
    assert_eq!(s.computer(), "DESK");
    (s, a)
}

#[test]
fn a_clean_run_copies_every_folder_in_order_and_finishes() {
    let (mut s, a) = ready("C:\\Users\\me\\Documents\r\nD:\\Photos\r\n");
    assert_eq!(s.locales(), vec!["C:\\Users\\me\\Documents", "D:\\Photos"]);
    assert_eq!(
        s.targets(),
        vec!["\\\\server\\share\\Backups\\DESK\\C\\Users\\me\\Documents", "\\\\server\\share\\Backups\\DESK\\D\\Photos"]
    );
    match &a {
        Action::Copy { index, tooltip, arguments } => {
            assert_eq!(*index, 0);
            let want: Vec<u16> = "Backing up 1/2: C:\\Users\\me\\Documents".encode_utf16().collect();
            assert_eq!(&tooltip[..want.len()], &want[..]);
            assert_eq!(tooltip.len(), 128);
            assert_eq!(arguments[0], "C:\\Users\\me\\Documents");
            assert_eq!(arguments[1], "\\\\server\\share\\Backups\\DESK\\C\\Users\\me\\Documents");
            assert_eq!(arguments[9], "/LOG:C:\\Tools\\Backup-backup.log");
        }
        _ => panic!("expected the first copy"),
    }
    let a = s.on_copy("ExitStatus(ExitStatus(1))", b"");
    assert_eq!(s.last_code(), 1);
    match &a {
        Action::Copy { index, arguments, .. } => {
            assert_eq!(*index, 1);
            assert_eq!(arguments[0], "D:\\Photos");
        }
        _ => panic!("expected the second copy"),
    }
    let a = s.on_copy("ExitStatus(ExitStatus(3))", b"");
    match &a {
        Action::Finish { tooltip } => {
            let want: Vec<u16> = "Basic Bitch Backup has completed successfully".encode_utf16().collect();
            assert_eq!(&tooltip[..want.len()], &want[..]);
        }
        _ => panic!("expected the end of the run"),
    }
    assert_eq!(s.phase(), Phase::Finished);
}

#[test]
fn some_failed_files_keep_the_log_and_go_on() {
    let (mut s, _) = ready("C:\\a\nC:\\b\n");
    let a = s.on_copy("ExitStatus(ExitStatus(9))", b"");
    match &a {
        Action::KeepLog { from, to, name } => {
            assert_eq!(from, "C:\\Tools\\Backup-backup.log");
            assert_eq!(to, "C:\\Tools\\01FILECOPYFAILURE.log");
            assert_eq!(name, "01FILECOPYFAILURE.log");
        }
        _ => panic!("expected the log to be kept"),
    }
    let a = s.on_log_kept(true);
    match &a {
        Action::Copy { index, arguments, .. } => {
            assert_eq!(*index, 1);
            assert_eq!(arguments[0], "C:\\b");
            assert_eq!(arguments[9], "/LOG:C:\\Tools\\Backup-backup.log");
        }
        _ => panic!("expected the second copy"),
    }
    match s.on_copy("ExitStatus(ExitStatus(12))", b"") {
        Action::KeepLog { from, to, name } => {
            assert_eq!(from, "C:\\Tools\\Backup-backup.log");
            assert_eq!(to, "C:\\Tools\\02FILECOPYFAILURE.log");
            assert_eq!(name, "02FILECOPYFAILURE.log");
        }
        _ => panic!("expected the log to be kept"),
    }
    assert!(matches!(s.on_log_kept(true), Action::Finish { .. }));
    assert_eq!(s.phase(), Phase::Finished);
}

#[test]
fn a_run_with_a_partly_failed_copy_still_finishes() {
    let mut s = started();
    match s.on_exe_path(&padded("C:\\B\\Backup.exe"), 15, 0) {
        Action::ReadDestinationFile { path, .. } => assert_eq!(path, "\\\\?\\C:\\B\\Backup_destinationLocale.txt"),
        _ => panic!("expected the destination file to be read"),
    }
    assert!(matches!(s.on_destination_file(Some("Z:")), Action::RunNetUse));
    match s.on_net_use(true, b"There are no entries in the list.\r\n") {
        Action::ReadSavesFile { path } => assert_eq!(path, "\\\\?\\C:\\B\\Backup_saveLocales.txt"),
        _ => panic!("expected the saves file to be read"),
    }
    assert!(matches!(s.on_saves_file(Some("C:\\Docs")), Action::ReadComputerName));
    match s.on_computer_name(&padded("PC")) {
        Action::Copy { index: 0, arguments, .. } => assert_eq!(
            arguments,
            vec![
                "C:\\Docs", "Z:\\PC\\C\\Docs", "/MIR", "/copy:DAT", "/MT:32", "/Z", "/R:2", "/W:03", "/v",
                "/LOG:C:\\B\\Backup-backup.log"
            ]
        ),
        _ => panic!("expected the copy"),
    }
    match s.on_copy("ExitStatus(ExitStatus(9))", b"") {
        Action::KeepLog { from, to, .. } => {
            assert_eq!(from, "C:\\B\\Backup-backup.log");
            assert_eq!(to, "C:\\B\\01FILECOPYFAILURE.log");
        }
        _ => panic!("expected the log to be kept"),
    }
    assert!(matches!(s.on_log_kept(true), Action::Finish { .. }));
}

#[test]
fn a_log_that_cannot_be_kept_stops_the_run_with_3() {
    let (mut s, _) = ready("C:\\a\n");
    let _ = s.on_copy("ExitStatus(ExitStatus(8))", b"");
    match s.on_log_kept(false) {
        Action::Fail(f) => {
            assert_eq!(f.exit_code(), 3);
            assert!(matches!(f, Failure::LogNotKept { .. }));
        }
        _ => panic!("expected a failure"),
    }
}

#[test]
fn nothing_copied_stops_the_run_with_the_cause() {
    let (mut s, _) = ready("C:\\missing\n");
    let out = b"   ERROR 2 (0x00000002) Accessing Source Directory C:\\missing\\";
    let _ = s.on_copy("ExitStatus(ExitStatus(16))", out);
    match s.on_log_kept(true) {
        Action::Fail(Failure::SourceMissing { code, source, kept_log }) => {
            assert_eq!(code, 16);
            assert_eq!(source, "C:\\missing");
            assert_eq!(kept_log, "01FILECOPYFAILURE.log");
        }
        _ => panic!("expected a missing source"),
    }

    let (mut s, _) = ready("C:\\a\n");
    let _ = s.on_copy("ExitStatus(ExitStatus(16))", b"ERROR 3 (0x00000003) Creating Destination Directory");
    match s.on_log_kept(true) {
        Action::Fail(f) => {
            assert_eq!(f.exit_code(), 3);
            match f {
                Failure::DestinationMissing { destination, .. } => assert_eq!(destination, "Z:\\Backups\\"),
                _ => panic!("expected a missing destination"),
            }
        }
        _ => panic!("expected a failure"),
    }
}

#[test]
fn nothing_copied_for_another_reason_reads_the_log() {
    let (mut s, _) = ready("C:\\a\nC:\\b\n");
    let _ = s.on_copy("ExitStatus(ExitStatus(1))", b"");
    let _ = s.on_copy("ExitStatus(ExitStatus(16))", b"something else");
    match s.on_log_kept(true) {
        Action::ReadKeptLog { path } => assert_eq!(path, "C:\\Tools\\02FILECOPYFAILURE.log"),
        _ => panic!("expected the kept log to be read"),
    }
    match s.on_kept_log("log text") {
        Action::Fail(Failure::CopyFailed { log, kept_log }) => {
            assert_eq!(log, "log text");
            assert_eq!(kept_log, "02FILECOPYFAILURE.log");
        }
        _ => panic!("expected a failed copy"),
    }
}

#[test]
fn an_unknown_code_stops_the_run_with_3() {
    let (mut s, _) = ready("C:\\a\n");
    let _ = s.on_copy("ExitStatus(ExitStatus(20))", b"");
    match s.on_log_kept(true) {
        Action::Fail(Failure::UnknownCode { code, kept_log }) => {
            assert_eq!(code, 20);
            assert_eq!(kept_log, "01FILECOPYFAILURE.log");
        }
        _ => panic!("expected an unknown code"),
    }
}

#[test]
fn an_unreadable_status_halts() {
    let (mut s, _) = ready("C:\\a\n");
    assert!(matches!(s.on_copy("exit code: 1", b""), Action::Halt(Halt::UnreadableExitCode)));
}

#[test]
fn exe_path_problems_stop_with_4_or_5() {
    let mut s = started();
    match s.on_exe_path(&padded("C:\\x.exe"), 1023, 0) {
        Action::Fail(f) => {
            assert_eq!(f.exit_code(), 4);
            match f {
                Failure::ExePathTooLong { length, last_error, path } => {
                    assert_eq!((length, last_error), (1023, 0));
                    assert_eq!(path, "C:\\x.exe");
                }
                _ => panic!("expected a path too long"),
            }
        }
        _ => panic!("expected a failure"),
    }
    let mut s = started();
    match s.on_exe_path(&padded(""), 0, 2) {
        Action::Fail(f) => {
            assert_eq!(f.exit_code(), 5);
            assert!(matches!(f, Failure::ExePathMissing { last_error: 2 }));
        }
        _ => panic!("expected a failure"),
    }
    let mut s = started();
    let bad = vec![0xDC00u16, 0, 0];
    assert!(matches!(s.on_exe_path(&bad, 1, 0), Action::Halt(Halt::ExePathNotUtf16)));
}

#[test]
fn missing_files_and_empty_lists_stop_the_run() {
    let mut s = started();
    let _ = s.on_exe_path(&padded("C:\\Tools\\Backup.exe"), 19, 0);
    match s.on_destination_file(None) {
        Action::Fail(f) => assert_eq!(f.exit_code(), 5),
        _ => panic!("expected a failure"),
    }

    let mut s = started();
    let _ = s.on_exe_path(&padded("C:\\Tools\\Backup.exe"), 19, 0);
    let long = "a".repeat(1100);
    match s.on_destination_file(Some(&long)) {
        Action::Fail(f) => {
            assert_eq!(f.exit_code(), 4);
            assert!(matches!(f, Failure::DestinationTooLong { chars: 1101, .. }));
        }
        _ => panic!("expected a failure"),
    }

    let mut s = started();
    let _ = s.on_exe_path(&padded("C:\\Tools\\Backup.exe"), 19, 0);
    let _ = s.on_destination_file(Some("C:\\Backup"));
    match s.on_net_use(false, b"") {
        Action::Fail(f) => assert_eq!(f.exit_code(), 1),
        _ => panic!("expected a failure"),
    }

    let mut s = started();
    let _ = s.on_exe_path(&padded("C:\\Tools\\Backup.exe"), 19, 0);
    let _ = s.on_destination_file(Some("C:\\Backup"));
    assert!(matches!(s.on_net_use(true, NET_USE_OK.as_bytes()), Action::ReadSavesFile { .. }));
    assert_eq!(s.target_root(), "C:\\Backup\\");
    match s.on_saves_file(Some("nothing\nto back up")) {
        Action::Fail(f) => {
            assert_eq!(f.exit_code(), 2);
            assert!(matches!(f, Failure::NoSaveLocations));
        }
        _ => panic!("expected a failure"),
    }

    let mut s = started();
    let _ = s.on_exe_path(&padded("C:\\Tools\\Backup.exe"), 19, 0);
    let _ = s.on_destination_file(Some("C:\\Backup"));
    let _ = s.on_net_use(true, b"");
    match s.on_saves_file(None) {
        Action::Fail(f) => assert_eq!(f.exit_code(), 5),
        _ => panic!("expected a failure"),
    }
}

#[test]
fn a_short_destination_halts() {
    let mut s = started();
    let _ = s.on_exe_path(&padded("C:\\Tools\\Backup.exe"), 19, 0);
    assert!(matches!(s.on_destination_file(Some("Z")), Action::Halt(Halt::DestinationTooShort)));
    let mut s = started();
    let _ = s.on_exe_path(&padded("C:\\Tools\\Backup.exe"), 19, 0);
    assert!(matches!(s.on_destination_file(Some("\nZ:")), Action::Halt(Halt::EmptyDestinationLine)));
}

#[test]
fn a_disconnected_drive_is_reconnected_first() {
    let mut s = started();
    let _ = s.on_exe_path(&padded("C:\\Tools\\Backup.exe"), 19, 0);
    let _ = s.on_destination_file(Some("Z:\\"));
    match s.on_net_use(true, NET_USE_DISCONNECTED.as_bytes()) {
        Action::Reconnect { drive, unc } => {
            assert_eq!(drive, "Z:");
            assert_eq!(unc, "\\\\server\\share\\");
        }
        _ => panic!("expected a reconnection"),
    }
    assert!(matches!(s.on_reconnected(), Action::ReadSavesFile { .. }));
}

#[test]
fn an_executable_without_extension_halts_before_copying() {
    let mut s = started();
    let _ = s.on_exe_path(&padded("C:\\Tools\\Backup"), 15, 0);
    let _ = s.on_destination_file(Some("C:\\Backup"));
    let _ = s.on_net_use(true, b"");
    let _ = s.on_saves_file(Some("C:\\a"));
    assert!(matches!(s.on_computer_name(&padded("PC")), Action::Halt(Halt::ExePathWithoutExtension)));
}

#[test]
fn an_executable_in_a_non_ascii_folder_reads_its_own_folder() {
    let mut s = started();
    match s.on_exe_path(&padded("C:\\Sauvegarde\u{e9}\\Backup.exe"), 26, 0) {
        Action::ReadDestinationFile { path, .. } => {
            assert_eq!(path, "\\\\?\\C:\\Sauvegarde\u{e9}\\Backup_destinationLocale.txt")
        }
        _ => panic!("expected the destination file to be read"),
    }
    let _ = s.on_destination_file(Some("C:\\Backup"));
    match s.on_net_use(true, b"") {
        Action::ReadSavesFile { path } => {
            assert_eq!(path, "\\\\?\\C:\\Sauvegarde\u{e9}\\Backup_saveLocales.txt")
        }
        _ => panic!("expected the saves file to be read"),
    }
}
