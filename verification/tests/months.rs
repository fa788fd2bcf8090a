use expense_tracker::archive::{
    create_and_move_file, destination, CloseAction, CloseError, CloseEvent, CloseState,
};
use expense_tracker::month::{
    ask_or_get_current_month, done_path, get_month_file_name, in_progress_path, named_month_path,
    CurrentMonth,
};

fn names(list: &[&str]) -> Vec<String> {
    list.iter().map(|name| name.to_string()).collect()
}

#[test]
fn names_the_paths_of_a_month() {
    assert_eq!(in_progress_path("January"), "./in_progress/January.csv");
    assert_eq!(done_path("January"), "./done/January.csv");
    assert_eq!(in_progress_path(""), "./in_progress/.csv");
    assert_eq!(named_month_path("  March \n"), "./in_progress/March.csv");
}

#[test]
fn the_first_ledger_names_the_active_month() {
    assert_eq!(get_month_file_name(&names(&["notes.txt", "May.csv", "June.csv"])), Some("May".to_string()));
    assert_eq!(get_month_file_name(&names(&["June.csv", "May.csv"])), Some("June".to_string()));
    assert_eq!(get_month_file_name(&names(&["a.b.csv"])), Some("a.b".to_string()));
    assert_eq!(get_month_file_name(&names(&[".csv"])), Some(".csv".to_string()));
    assert_eq!(get_month_file_name(&names(&["..csv"])), Some(".".to_string()));
}

#[test]
fn without_a_ledger_there_is_no_active_month() {
    assert_eq!(get_month_file_name(&names(&[])), None);
    assert_eq!(get_month_file_name(&names(&["notes.txt", "May.CSV", "csv", "May.csv.bak"])), None);
}

#[test]
fn names_months_as_the_standard_library_names_file_stems() {
    for name in ["May.csv", "a.b.csv", ".csv", "..csv", "x.csv", " .csv"] {
        let stem = std::path::Path::new(name).file_stem().unwrap().to_str().unwrap().to_string();
        assert_eq!(get_month_file_name(&names(&[name])), Some(stem), "{:?}", name);
    }
}

#[test]
fn settles_the_current_ledger() {
    assert_eq!(
        ask_or_get_current_month(&names(&["x", "May.csv"])),
        CurrentMonth::Detected { month: "May".to_string(), path: "./in_progress/May.csv".to_string() }
    );
    assert_eq!(ask_or_get_current_month(&names(&["x"])), CurrentMonth::Unknown);
}

#[test]
fn a_ledger_keeps_its_file_name_when_it_is_closed() {
    assert_eq!(destination("./in_progress/May.csv"), Some("done/May.csv".to_string()));
    assert_eq!(destination("May.csv"), Some("done/May.csv".to_string()));
    assert_eq!(destination("a/b/"), Some("done/b".to_string()));
    assert_eq!(destination("a/b/."), Some("done/b".to_string()));
    assert_eq!(destination("/x"), Some("done/x".to_string()));
    assert_eq!(destination("a//b"), Some("done/b".to_string()));
}

#[test]
fn a_path_without_a_file_name_has_no_destination() {
    for path in ["", "/", ".", "..", "a/..", "./", "a/../", "//"] {
        assert_eq!(destination(path), None, "{:?}", path);
    }
}

#[test]
fn names_files_as_the_standard_library_does() {
    let samples = [
        "./in_progress/May.csv", "May.csv", "a/b/", "a/b/.", "/x", "a//b", "", "/", ".", "..",
        "a/..", "./", "a/../", "...", "a/.../", ".hidden", "a/.b/./",
    ];
    for path in samples {
        let expected = std::path::Path::new(path)
            .file_name()
            .map(|name| std::path::Path::new("done").join(name).to_str().unwrap().to_string());
        assert_eq!(destination(path), expected, "{:?}", path);
    }
}

fn run(path: &Option<String>, events: &[CloseEvent]) -> (CloseState, Vec<CloseAction>) {
    let mut state = CloseState::Idle;
    let mut actions = Vec::new();
    for event in events {
        let (next, action) = create_and_move_file(path, state, *event);
        state = next;
        actions.push(action);
    }
    (state, actions)
}

#[test]
fn closing_creates_the_folder_that_is_missing() {
    let path = Some("./in_progress/May.csv".to_string());
    let (state, actions) = run(
        &path,
        &[
            CloseEvent::Start,
            CloseEvent::FolderAbsent,
            CloseEvent::Completed,
            CloseEvent::FolderFound,
            CloseEvent::Completed,
        ],
    );
    assert_eq!(state, CloseState::Closed);
    assert_eq!(
        actions,
        vec![
            CloseAction::CheckFolder,
            CloseAction::CreateFolder,
            CloseAction::CheckFolder,
            CloseAction::Move("done/May.csv".to_string()),
            CloseAction::Succeed,
        ]
    );
}

#[test]
fn closing_uses_the_folder_that_is_there() {
    let path = Some("./in_progress/May.csv".to_string());
    let (state, actions) = run(
        &path,
        &[CloseEvent::Start, CloseEvent::FolderFound, CloseEvent::FolderFound, CloseEvent::Completed],
    );
    assert_eq!(state, CloseState::Closed);
    assert_eq!(
        actions,
        vec![
            CloseAction::CheckFolder,
            CloseAction::CheckFolder,
            CloseAction::Move("done/May.csv".to_string()),
            CloseAction::Succeed,
        ]
    );
}

#[test]
fn closing_without_a_ledger_fails_at_once() {
    let (state, actions) = run(&None, &[CloseEvent::Start]);
    assert_eq!(state, CloseState::Failed);
    assert_eq!(actions, vec![CloseAction::Fail(CloseError::MissingPath)]);
}

#[test]
fn closing_fails_where_the_folder_cannot_be_made() {
    let path = Some("./in_progress/May.csv".to_string());
    let (state, actions) =
        run(&path, &[CloseEvent::Start, CloseEvent::FolderAbsent, CloseEvent::IoError]);
    assert_eq!(state, CloseState::Failed);
    assert_eq!(actions[2], CloseAction::Fail(CloseError::Io));
}

#[test]
fn closing_fails_where_the_folder_is_still_missing() {
    let path = Some("./in_progress/May.csv".to_string());
    let (state, actions) = run(
        &path,
        &[CloseEvent::Start, CloseEvent::FolderAbsent, CloseEvent::Completed, CloseEvent::FolderAbsent],
    );
    assert_eq!(state, CloseState::Failed);
    assert_eq!(actions[3], CloseAction::Fail(CloseError::FolderNotFound));
}

#[test]
fn closing_fails_where_the_ledger_cannot_be_moved() {
    let path = Some("./in_progress/May.csv".to_string());
    let (state, actions) = run(
        &path,
        &[CloseEvent::Start, CloseEvent::FolderFound, CloseEvent::FolderFound, CloseEvent::IoError],
    );
    assert_eq!(state, CloseState::Failed);
    assert_eq!(actions[3], CloseAction::Fail(CloseError::Io));
}

#[test]
fn closing_fails_on_a_path_without_a_file_name() {
    let path = Some("./in_progress/..".to_string());
    let (state, actions) =
        run(&path, &[CloseEvent::Start, CloseEvent::FolderFound, CloseEvent::FolderFound]);
    assert_eq!(state, CloseState::Failed);
    assert_eq!(actions[2], CloseAction::Fail(CloseError::InvalidPath));
}

#[test]
fn an_event_out_of_turn_is_passed_over() {
    let path = Some("./in_progress/May.csv".to_string());
    assert_eq!(
        create_and_move_file(&path, CloseState::Idle, CloseEvent::Completed),
        (CloseState::Idle, CloseAction::Nothing)
    );
    assert_eq!(
        create_and_move_file(&path, CloseState::Closed, CloseEvent::Start),
        (CloseState::Closed, CloseAction::Nothing)
    );
    assert_eq!(
        create_and_move_file(&path, CloseState::Failed, CloseEvent::Start),
        (CloseState::Failed, CloseAction::Nothing)
    );
    assert_eq!(
        create_and_move_file(&path, CloseState::Moving, CloseEvent::FolderFound),
        (CloseState::Moving, CloseAction::Nothing)
    );
}

#[test]
fn says_why_a_month_is_not_closed() {
    assert_eq!(CloseError::MissingPath.message(), "Expense file path is missing or invalid.");
    assert_eq!(CloseError::FolderNotFound.message(), "The 'done' folder does not exist");
    assert_eq!(CloseError::InvalidPath.message(), "The expense file path has no file name.");
    assert_eq!(
        CloseError::Io.message(),
        "The folder could not be created or the file could not be moved."
    );
}
