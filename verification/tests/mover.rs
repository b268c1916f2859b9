use archive_me_plz::file_handling::mover::{CopyStep, MoveOutcome, MAX_CONCURRENT_TASKS};
use archive_me_plz::{Date, Error, Mover, UserInput};

fn input(min: usize, folder: &str) -> UserInput {
    UserInput {
        required_min_files: min,
        oldest_to_keep: Date { year: 2024, month: 1, day: 1 },
        folder_path: folder.to_string(),
    }
}

fn strings(list: &[&str]) -> Vec<String> {
    list.iter().map(|s| s.to_string()).collect()
}

#[test]
fn archive_dir_is_inside_the_folder() {
    let inp = input(1, "/home/user/folder");
    let mover = Mover::new(&inp);
    assert_eq!(mover.archive_dir(), "/home/user/folder/_archive");
    let inp = input(1, "/home/user/folder/");
    assert_eq!(Mover::new(&inp).archive_dir(), "/home/user/folder/_archive");
}

#[test]
fn chunk_size_is_a_sixth_and_at_least_one() {
    assert_eq!(Mover::chunk_size(0), 1);
    assert_eq!(Mover::chunk_size(5), 1);
    assert_eq!(Mover::chunk_size(6), 1);
    assert_eq!(Mover::chunk_size(13), 2);
    assert_eq!(Mover::chunk_size(60), 10);
}

#[test]
fn destination_keeps_the_file_name() {
    assert_eq!(
        Mover::destination("/data/_archive", "/data/report.xlsx"),
        Some("/data/_archive/report.xlsx".to_string())
    );
    assert_eq!(Mover::destination("/data/_archive", "/"), None);
    assert_eq!(Mover::destination("/data/_archive", "/data/.."), None);
}

#[test]
fn check_files_passes_on_matching_names() {
    let originals = strings(&["/data/a.csv", "/data/b.xlsx"]);
    let copies = strings(&["/data/_archive/a.csv", "/data/_archive/b.xlsx"]);
    assert!(Mover::check_files(&originals, &copies).is_ok());
    assert!(Mover::check_files(&strings(&[]), &strings(&[])).is_ok());
}

#[test]
fn check_files_refuses_copies_that_do_not_match() {
    let originals = strings(&["/data/a.csv"]);
    assert!(matches!(
        Mover::check_files(&originals, &strings(&["/data/_archive/b.csv"])),
        Err(Error::CopiedFilesDontMatch)
    ));
    assert!(matches!(Mover::check_files(&originals, &strings(&[])), Err(Error::CopiedFilesDontMatch)));
    assert!(matches!(Mover::check_files(&strings(&["/"]), &strings(&["/"])), Err(Error::CopiedFilesDontMatch)));
}

#[test]
fn after_copy_decides_the_next_step() {
    assert!(matches!(
        Mover::after_copy(Ok(()), "/data/a.csv", "/data/_archive/a.csv"),
        CopyStep::RemoveOriginal
    ));
    assert!(matches!(
        Mover::after_copy(Ok(()), "/data/a.csv", "/data/_archive/b.csv"),
        CopyStep::Finished(MoveOutcome::Failed(Error::CopiedFilesDontMatch))
    ));
    assert!(matches!(
        Mover::after_copy(Err(Error::Generic("disk full".to_string())), "/data/a.csv", "/data/_archive/a.csv"),
        CopyStep::Finished(MoveOutcome::Failed(Error::Generic(m))) if m == "disk full"
    ));
}

#[test]
fn after_remove_ends_the_move() {
    assert!(matches!(Mover::after_remove(Ok(())), MoveOutcome::Moved));
    assert!(matches!(
        Mover::after_remove(Err("busy".to_string())),
        MoveOutcome::RemoveFailed(m) if m == "busy"
    ));
}

#[test]
fn a_move_succeeds_when_enough_files_moved() {
    let inp = input(2, "/data");
    let mover = Mover::new(&inp);
    let outcomes = vec![
        MoveOutcome::Moved,
        MoveOutcome::RemoveFailed("busy".to_string()),
        MoveOutcome::Failed(Error::CopiedFilesDontMatch),
        MoveOutcome::Moved,
    ];
    assert_eq!(Mover::count_moved(&outcomes), 2);
    assert!(mover.par_move_files_copy(&outcomes).is_ok());
    assert!(mover.par_move_files(&outcomes).is_ok());
    assert!(mover.chunked_move_files(&outcomes).is_ok());
}

#[test]
fn a_move_fails_when_too_few_files_moved() {
    let inp = input(3, "/data");
    let mover = Mover::new(&inp);
    let outcomes = vec![MoveOutcome::Moved, MoveOutcome::Moved, MoveOutcome::RemoveFailed("x".to_string())];
    assert!(matches!(mover.par_move_files_copy(&outcomes), Err(Error::InvalidInput)));
    assert!(matches!(mover.par_move_files(&outcomes), Err(Error::InvalidInput)));
    assert!(matches!(mover.chunked_move_files(&Vec::new()), Err(Error::InvalidInput)));
    let none_needed = input(0, "/data");
    assert!(Mover::new(&none_needed).par_move_files_copy(&Vec::new()).is_ok());
}

#[test]
fn concurrency_bound_is_fifty() {
    assert_eq!(MAX_CONCURRENT_TASKS, 50);
}

#[test]
fn the_verdict_ignores_the_order_of_outcomes() {
    let inp = input(2, "/data");
    let mover = Mover::new(&inp);
    let forward = vec![MoveOutcome::Moved, MoveOutcome::RemoveFailed("x".to_string()), MoveOutcome::Moved];
    let backward = vec![MoveOutcome::Moved, MoveOutcome::Moved, MoveOutcome::RemoveFailed("x".to_string())];
    assert_eq!(Mover::count_moved(&forward), Mover::count_moved(&backward));
    assert!(mover.par_move_files(&forward).is_ok());
    assert!(mover.chunked_move_files(&backward).is_ok());
}
