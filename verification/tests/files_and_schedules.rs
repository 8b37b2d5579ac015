use xamppify::file_sync::history::{append, SyncHistoryEntry};
use xamppify::file_browser::{list_directory, plan_uploads, valid_child_name, DirEntryFacts, UploadFacts};
use xamppify::file_sync::{build_unc_path, ping_args, robocopy_args, share_login, smb_address, wnet_error, SyncResult};
use xamppify::logs::{find_mysql_log_path, log_source, watch_reads_apache, watched_log_path, LogDirEntry, LogSource};
use xamppify::performance::{drive_root, filetime_value, CpuSampler, CpuTimes};
use xamppify::search::{build_search, record_match, search_full, search_pattern, searchable_size, skip_dir};
use xamppify::sync_scheduler::{scheduled_run_report, validate_schedule, Scheduler, SyncScheduleConfig};

#[test]
fn listing_puts_folders_first() {
    let e = |name: &str, dir: bool| DirEntryFacts {
        name: name.to_string(),
        path: format!("C:\\x\\{name}"),
        is_dir: dir,
        size: 0,
        modified_secs: None,
    };
    let l = list_directory(vec![e("b.txt", false), e("z", true), e("a.txt", false), e("c", true)]);
    let names: Vec<&str> = l.iter().map(|f| f.name.as_str()).collect();
    assert_eq!(names, ["c", "z", "a.txt", "b.txt"]);
    assert_eq!(l[0].modified, "");
}

#[test]
fn child_names() {
    assert_eq!(valid_child_name(" new.txt "), Ok("new.txt".to_string()));
    for bad in ["", "..", ".", "a/b", "a\\b"] {
        assert_eq!(valid_child_name(bad), Err("Enter a valid file or folder name".to_string()));
    }
}

#[test]
fn uploads_are_planned() {
    assert_eq!(plan_uploads("C:\\d", &Vec::new()), Err("Select one or more files to upload".to_string()));
    let f = |n: &str| UploadFacts::File { size: 10, name: Some(n.to_string()), target_exists: false };
    assert_eq!(plan_uploads("C:\\d", &vec![f("a"), f("b")]), Ok(vec!["C:\\d\\a".to_string(), "C:\\d\\b".to_string()]));
    assert_eq!(
        plan_uploads("C:\\d", &vec![f("a"), f("a")]),
        Err("Multiple selected files are named a".to_string())
    );
    let exists = UploadFacts::File { size: 1, name: Some("x".to_string()), target_exists: true };
    assert_eq!(plan_uploads("C:\\d", &vec![exists]), Err("x already exists in this folder".to_string()));
    let big = UploadFacts::File { size: 524_288_001, name: Some("x".to_string()), target_exists: false };
    assert_eq!(plan_uploads("C:\\d", &vec![big]), Err("Uploads are limited to 500 MB at a time".to_string()));
    assert_eq!(plan_uploads("C:\\d", &vec![UploadFacts::NotAFile]), Err("Only normal files can be uploaded".to_string()));
    assert_eq!(
        plan_uploads("C:\\d", &vec![UploadFacts::Unreadable("gone".to_string())]),
        Err("Failed to read upload: gone".to_string())
    );
}

#[test]
fn passes_through_full_unc_paths() {
    assert_eq!(build_unc_path("pc-01", r"\\pc-01\C$\www"), r"\\pc-01\C$\www");
}

#[test]
fn converts_drive_paths_to_admin_shares() {
    assert_eq!(build_unc_path("192.168.1.5", r"C:\www\site"), r"\\192.168.1.5\C$\www\site");
}

#[test]
fn normalizes_forward_slashes_in_drive_paths() {
    assert_eq!(build_unc_path("pc-01", "C:/www/site"), r"\\pc-01\C$\www\site");
}

#[test]
fn treats_plain_paths_as_share_relative() {
    assert_eq!(build_unc_path("pc-01", "shared/folder"), r"\\pc-01\shared\folder");
}

#[test]
fn trims_surrounding_whitespace() {
    assert_eq!(build_unc_path("  pc-01  ", "  C:\\www  "), r"\\pc-01\C$\www");
    assert_eq!(build_unc_path("  pc-01  ", "  C:\\\\www  "), r"\\pc-01\C$\www");
}

#[test]
fn unc_paths_are_stable() {
    let once = build_unc_path("pc-01", "C:/www/site");
    assert_eq!(build_unc_path("pc-01", &once), once);
}

#[test]
fn sync_commands() {
    assert_eq!(
        robocopy_args("C:\\src", "\\\\pc\\C$\\dst"),
        ["C:\\src", "\\\\pc\\C$\\dst", "/MIR", "/R:2", "/W:2", "/NP", "/NJH", "/NJS", "/NDL"]
    );
    assert_eq!(ping_args(" pc "), ["-n", "1", "-w", "1500", "pc"]);
    assert_eq!(smb_address(" pc "), "pc:445");
    assert_eq!(share_login(" pc ", Some(" admin "), None), Some(("pc".to_string(), "admin".to_string(), String::new())));
    assert_eq!(share_login("pc", Some("  "), Some("x")), None);
    assert_eq!(wnet_error("connection", 53), "SMB connection failed with Windows error code 53 (0x00000035)");
}

#[test]
fn log_sources() {
    assert_eq!(log_source("Apache"), Ok(LogSource::Apache));
    assert_eq!(log_source("MYSQL"), Ok(LogSource::MySql));
    assert_eq!(log_source("ftp"), Err("Unknown log source: ftp".to_string()));
    assert!(watch_reads_apache("Apache"));
    assert!(!watch_reads_apache("apache"));
    assert_eq!(watched_log_path("D:\\tools\\xampp", LogSource::Apache), "D:\\tools\\xampp\\apache\\logs\\error.log");
    assert_eq!(watched_log_path("C:\\xampp", LogSource::MySql), "C:\\xampp\\mysql\\data\\mysql.err");
}

#[test]
fn mysql_log_is_found() {
    let cands = vec!["a".to_string(), "b".to_string()];
    let e = |name: &str, file: bool| LogDirEntry { name: name.to_string(), path: format!("d\\{name}"), is_file: file };
    assert_eq!(find_mysql_log_path(&cands, &vec![false, true], &Vec::new(), &Vec::new()), Some("b".to_string()));
    assert_eq!(
        find_mysql_log_path(&cands, &vec![false, false], &vec![e("ibdata1", true), e("x.log", false), e("host.ERR", true)], &Vec::new()),
        Some("d\\host.ERR".to_string())
    );
    assert_eq!(find_mysql_log_path(&cands, &vec![false, false], &Vec::new(), &vec![e("z.log", true)]), Some("d\\z.log".to_string()));
    assert_eq!(find_mysql_log_path(&cands, &vec![false, false], &Vec::new(), &Vec::new()), None);
}

#[test]
fn processor_time() {
    assert_eq!(filetime_value(1, 2), (1u64 << 32) | 2);
    let mut s = CpuSampler::new();
    assert_eq!(s.sample(CpuTimes { idle: 10, kernel: 20, user: 30 }), None);
    assert_eq!(s.sample(CpuTimes { idle: 15, kernel: 30, user: 40 }), Some((15, 20)));
    assert_eq!(s.sample(CpuTimes { idle: 15, kernel: 30, user: 40 }), None);
    assert_eq!(drive_root("D:\\xampp"), "D:\\");
    assert_eq!(drive_root("\\\\server\\x"), "C:\\");
}

#[test]
fn search_patterns() {
    assert_eq!(search_pattern("   ", true), None);
    assert_eq!(search_pattern(" a.b ", true), Some("a\\.b".to_string()));
    assert_eq!(search_pattern(" a.b ", false), Some("a.b".to_string()));
    assert!(matches!(build_search("  ", false), Ok(None)));
    assert!(matches!(build_search("fn main", true), Ok(Some(_))));
    match build_search("(", false) {
        Err(e) => assert!(e.starts_with("Invalid search pattern: ")),
        _ => panic!("an unbalanced group must be refused"),
    }
    assert!(skip_dir("Node_Modules"));
    assert!(!skip_dir("src"));
    assert!(searchable_size(1));
    assert!(!searchable_size(0));
    assert!(!searchable_size(10 * 1024 * 1024 + 1));
    let mut results = Vec::new();
    assert!(record_match(&mut results, "p", Some(3), b"hello  \n"));
    assert_eq!(results[0].line, "hello");
    assert_eq!(results[0].line_number, 3);
    assert!(!search_full(&results));
}

fn config(interval: u64, source: &str) -> SyncScheduleConfig {
    SyncScheduleConfig {
        source: source.to_string(),
        destination: "C:\\www".to_string(),
        remote_host: "pc".to_string(),
        username: None,
        password: None,
        interval_minutes: interval,
    }
}

#[test]
fn schedules() {
    assert_eq!(validate_schedule(&config(0, "a")), Err("The sync interval must be at least 1 minute".to_string()));
    assert_eq!(validate_schedule(&config(5, " ")), Err("Source, destination, and remote host are required".to_string()));
    let mut s = Scheduler::new();
    assert!(!s.is_running());
    assert!(s.start(config(0, "a")).is_err());
    assert!(s.status().is_none());
    assert!(s.start(config(5, "C:\\src")).is_ok());
    assert!(s.is_running());
    s.record_run("t1".to_string(), "t2".to_string());
    let st = s.status().unwrap();
    assert_eq!(st.last_run, Some("t1".to_string()));
    assert_eq!(st.interval_minutes, 5);
    s.stop();
    assert!(s.status().is_none());
    let ok = scheduled_run_report("pc", &Ok(SyncResult { success: true, output: String::new(), files_copied: 4 }));
    assert_eq!(ok.2, "Scheduled sync to pc: 4 items");
    let err = scheduled_run_report("pc", &Err("boom".to_string()));
    assert_eq!(err, (false, 0, "Scheduled sync failed: boom".to_string()));
}

#[test]
fn history_keeps_the_newest_fifty_first() {
    let entry = |i: usize| SyncHistoryEntry {
        timestamp: format!("t{i}"),
        result: "success".to_string(),
        message: format!("m{i}"),
        remote_host: "pc-01".to_string(),
        source: "C:\\src".to_string(),
        destination: "D:\\dst".to_string(),
    };
    let mut entries = Vec::new();
    for i in 0..55 {
        entries = append(entries, entry(i));
    }
    assert_eq!(entries.len(), 50);
    assert_eq!(entries[0].timestamp, "t54");
    assert_eq!(entries[49].timestamp, "t5");
}
