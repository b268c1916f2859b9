use archive_me_plz::file_handling::processor::Processor;
use archive_me_plz::{Date, DirScan, EntryInfo, Error, PreProcessor, UserInput};

fn input(min: usize, cutoff: Date, folder: &str) -> UserInput {
    UserInput { required_min_files: min, oldest_to_keep: cutoff, folder_path: folder.to_string() }
}

fn d(year: i32, month: u32, day: u32) -> Date {
    Date { year, month, day }
}

fn entry(path: &str, modified: Option<Date>) -> EntryInfo {
    EntryInfo { path: path.to_string(), modified }
}

#[test]
fn needs_modified_date_only_for_handled_kinds() {
    let inp = input(1, d(2024, 1, 1), "/data");
    let pre = PreProcessor::new(&inp);
    assert!(pre.needs_modified_date("/data/report.xlsx"));
    assert!(pre.needs_modified_date("/data/REPORT.XLSX"));
    assert!(pre.needs_modified_date("/data/notes.txt"));
    assert!(pre.needs_modified_date("/data/mail.eml"));
    assert!(!pre.needs_modified_date("/data/photo.png"));
    assert!(!pre.needs_modified_date("/data/Makefile"));
    assert!(!pre.needs_modified_date("/data/_archive"));
    let pro = Processor::new(&inp);
    assert!(pro.needs_modified_date("/data/report.csv"));
    assert!(!pro.needs_modified_date("/data/notes.txt"));
}

#[test]
fn is_recent_includes_the_cut_off_day() {
    let inp = input(1, d(2024, 1, 1), "/data");
    let pre = PreProcessor::new(&inp);
    assert!(pre.is_recent(&d(2024, 1, 1)));
    assert!(pre.is_recent(&d(2023, 12, 31)));
    assert!(!pre.is_recent(&d(2024, 1, 2)));
}

#[test]
fn process_file_keeps_old_files_of_handled_kinds() {
    let inp = input(1, d(2024, 1, 1), "/data");
    let pre = PreProcessor::new(&inp);
    assert_eq!(
        pre.process_file(&entry("/data/a.csv", Some(d(2023, 5, 5)))),
        Some("/data/a.csv".to_string())
    );
    assert_eq!(pre.process_file(&entry("/data/a.csv", Some(d(2024, 5, 5)))), None);
    assert_eq!(pre.process_file(&entry("/data/a.csv", None)), None);
    assert_eq!(pre.process_file(&entry("/data/a.doc", Some(d(2020, 1, 1)))), None);
}

#[test]
fn process_dir_keeps_order_and_checks_the_minimum() {
    let inp = input(2, d(2024, 1, 1), "/data");
    let pre = PreProcessor::new(&inp);
    let entries = vec![
        entry("/data/b.xls", Some(d(2022, 1, 1))),
        entry("/data/skip.png", None),
        entry("/data/new.csv", Some(d(2024, 3, 1))),
        entry("/data/a.XLSM", Some(d(2021, 7, 7))),
    ];
    assert_eq!(
        pre.process_dir(&entries).unwrap(),
        vec!["/data/b.xls".to_string(), "/data/a.XLSM".to_string()]
    );
    let strict = input(3, d(2024, 1, 1), "/data");
    let pre = PreProcessor::new(&strict);
    assert!(matches!(pre.process_dir(&entries), Err(Error::NoFilesOutsideOfGivenBounds)));
}

#[test]
fn process_dir_skips_the_archive_folder() {
    let inp = input(0, d(2024, 1, 1), "/data.csv");
    let pre = PreProcessor::new(&inp);
    let entries = vec![
        entry("/data.csv/_archive", Some(d(2020, 1, 1))),
        entry("/data.csv/old.csv", Some(d(2020, 1, 1))),
    ];
    assert_eq!(pre.process_dir(&entries).unwrap(), vec!["/data.csv/old.csv".to_string()]);
}

#[test]
fn process_refuses_what_is_not_a_directory() {
    let inp = input(1, d(2024, 1, 1), "/data");
    let pre = PreProcessor::new(&inp);
    assert!(matches!(pre.process(DirScan::NotADirectory), Err(Error::InvalidInput)));
    assert!(matches!(
        pre.process(DirScan::Unreadable(Error::Generic("denied".to_string()))),
        Err(Error::Generic(m)) if m == "denied"
    ));
}

#[test]
fn process_refuses_an_empty_selection() {
    let inp = input(0, d(2024, 1, 1), "/data");
    let pre = PreProcessor::new(&inp);
    let entries = vec![entry("/data/new.csv", Some(d(2025, 1, 1)))];
    assert!(matches!(pre.process(DirScan::Entries(entries)), Err(Error::NoFilesFoundInGivenDir)));
    assert!(matches!(pre.process(DirScan::Entries(Vec::new())), Err(Error::NoFilesFoundInGivenDir)));
}

#[test]
fn process_gives_the_files_of_a_folder_that_qualifies() {
    let inp = input(5, d(2024, 1, 1), "/data");
    let pre = PreProcessor::new(&inp);
    let mut entries = Vec::new();
    for i in 0..5 {
        entries.push(entry(&format!("/data/f{}.xlsx", i), Some(d(2023, 1, 1 + i))));
    }
    let files = pre.process(DirScan::Entries(entries)).unwrap();
    assert_eq!(files.len(), 5);
    let mut fewer = Vec::new();
    for i in 0..4 {
        fewer.push(entry(&format!("/data/f{}.xlsx", i), Some(d(2023, 1, 1 + i))));
    }
    assert!(matches!(pre.process(DirScan::Entries(fewer)), Err(Error::NoFilesOutsideOfGivenBounds)));
}

#[test]
fn processor_handles_spreadsheets_only() {
    let inp = input(1, d(2024, 1, 1), "/data");
    let pro = Processor::new(&inp);
    let entries = vec![
        entry("/data/notes.txt", Some(d(2020, 1, 1))),
        entry("/data/sheet.xlsx", Some(d(2020, 1, 1))),
    ];
    assert_eq!(pro.process(DirScan::Entries(entries)).unwrap(), vec!["/data/sheet.xlsx".to_string()]);
    assert!(matches!(pro.process(DirScan::NotADirectory), Err(Error::InvalidInput)));
    assert!(pro.is_recent(&d(2024, 1, 1)));
    assert!(!pro.is_recent(&d(2024, 1, 2)));
}

#[test]
fn extension_is_taken_after_the_last_dot_of_the_file_name() {
    let inp = input(1, d(2024, 1, 1), "/data");
    let pre = PreProcessor::new(&inp);
    assert!(pre.needs_modified_date("/data/backup.tar.csv"));
    assert!(!pre.needs_modified_date("/data/.csv"));
    assert!(!pre.needs_modified_date("/data/report.csv."));
    assert!(!pre.needs_modified_date("/data/dir.csv/file"));
    assert!(pre.needs_modified_date("/data/.hidden.eml"));
}
