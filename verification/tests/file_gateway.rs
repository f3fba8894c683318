//! Tests of the file-access gateway's decision logic: picker outcomes,
//! display names, filters, and the read/write result handling.

use editor_host::gateway::FileFilter;
use editor_host::gateway::OpenOutcome;
use editor_host::gateway::OpenStep;
use editor_host::gateway::PickedSource;
use editor_host::gateway::ResaveOutcome;
use editor_host::gateway::SaveOutcome;
use editor_host::gateway::SaveStep;
use editor_host::gateway::default_save_file_name;
use editor_host::gateway::display_name_of;
use editor_host::gateway::finish_open;
use editor_host::gateway::finish_resave;
use editor_host::gateway::finish_save_as;
use editor_host::gateway::open_step;
use editor_host::gateway::picker_filters;
use editor_host::gateway::save_step;

#[test]
fn cancellation_is_a_distinct_outcome_and_reads_nothing() {
    // Cancelling the open picker finishes the flow at once: no path is
    // handed out to read, and the outcome is Cancelled, distinguishable
    // from every failure kind.
    match open_step(PickedSource::Cancelled) {
        OpenStep::Done(OpenOutcome::Cancelled) => {}
        OpenStep::Read(_) => panic!("cancellation must not read"),
        _ => panic!("cancellation must yield Cancelled"),
    }
    assert!(!matches!(
        open_step(PickedSource::Cancelled),
        OpenStep::Done(OpenOutcome::ReadFailed(_))
            | OpenStep::Done(OpenOutcome::UnsupportedLocation)
            | OpenStep::Done(OpenOutcome::ExecutionFailed(_))
    ));
    match save_step(PickedSource::Cancelled) {
        SaveStep::Done(SaveOutcome::Cancelled) => {}
        _ => panic!("cancellation must yield Cancelled"),
    }
}

#[test]
fn abstract_resources_are_unsupported_and_touch_nothing() {
    match open_step(PickedSource::AbstractResource) {
        OpenStep::Done(OpenOutcome::UnsupportedLocation) => {}
        OpenStep::Read(_) => panic!("an abstract resource must not be read"),
        _ => panic!("an abstract resource must yield UnsupportedLocation"),
    }
    match save_step(PickedSource::AbstractResource) {
        SaveStep::Done(SaveOutcome::UnsupportedLocation) => {}
        SaveStep::Write(_) => panic!("an abstract resource must not be written"),
        _ => panic!("an abstract resource must yield UnsupportedLocation"),
    }
}

#[test]
fn open_flow_reads_the_picked_path_and_names_the_file() {
    // The picker chose a local notes.md; the read returned its content.
    let step = open_step(PickedSource::Local(String::from("/home/user/notes.md")));
    let path = match step {
        OpenStep::Read(p) => p,
        _ => panic!("a local path must be read"),
    };
    assert_eq!(path, "/home/user/notes.md");
    match finish_open(&path, Ok(String::from("# Title\n"))) {
        OpenOutcome::Opened { content, display_name } => {
            assert_eq!(content, "# Title\n");
            assert_eq!(display_name, "notes.md");
        }
        _ => panic!("a successful read must open"),
    }
}

#[test]
fn open_flow_surfaces_read_failures() {
    match finish_open("/gone.txt", Err(String::from("no such file"))) {
        OpenOutcome::ReadFailed(reason) => assert_eq!(reason, "no such file"),
        _ => panic!("a failed read must yield ReadFailed"),
    }
}

#[test]
fn save_as_returns_the_chosen_path_and_resave_overwrites() {
    let step = save_step(PickedSource::Local(String::from("/tmp/out.txt")));
    let path = match step {
        SaveStep::Write(p) => p,
        _ => panic!("a local destination must be written"),
    };
    match finish_save_as(path, Ok(())) {
        SaveOutcome::Saved(saved) => assert_eq!(saved, "/tmp/out.txt"),
        _ => panic!("a successful write must yield the path"),
    }
    match finish_resave(Ok(())) {
        ResaveOutcome::Saved => {}
        _ => panic!("a successful re-save must succeed"),
    }
    match finish_resave(Err(String::from("disk full"))) {
        ResaveOutcome::WriteFailed(reason) => assert_eq!(reason, "disk full"),
        _ => panic!("a failed re-save must yield WriteFailed"),
    }
}

#[test]
fn save_as_surfaces_write_failures() {
    match finish_save_as(String::from("/tmp/out.txt"), Err(String::from("denied"))) {
        SaveOutcome::WriteFailed(reason) => assert_eq!(reason, "denied"),
        _ => panic!("a failed write must yield WriteFailed"),
    }
}

#[test]
fn display_names_take_the_final_component() {
    assert_eq!(display_name_of("/home/user/notes.md"), "notes.md");
    assert_eq!(display_name_of("C:\\docs\\memo.txt"), "memo.txt");
    assert_eq!(display_name_of("plain.txt"), "plain.txt");
    // Paths without a usable final component fall back to the placeholder.
    assert_eq!(display_name_of("/home/user/"), "不明なファイル");
    assert_eq!(display_name_of(""), "不明なファイル");
    assert_eq!(display_name_of("/a/.."), "不明なファイル");
    assert_eq!(display_name_of("/a/."), "不明なファイル");
}

#[test]
fn picker_filters_are_fixed_and_ordered() {
    let filters: Vec<FileFilter> = picker_filters();
    assert_eq!(filters.len(), 2);
    assert_eq!(filters[0].name, "テキストファイル");
    let exts: Vec<&str> = filters[0].extensions.iter().map(|e| e.as_str()).collect();
    assert_eq!(exts, ["txt", "md", "json", "js", "ts", "jsx", "tsx", "html", "css", "xml"]);
    assert_eq!(filters[1].name, "すべてのファイル");
    let all: Vec<&str> = filters[1].extensions.iter().map(|e| e.as_str()).collect();
    assert_eq!(all, ["*"]);
}

#[test]
fn save_picker_default_name_is_fixed() {
    assert_eq!(default_save_file_name(), "untitled.txt");
}

#[test]
fn execution_failure_is_its_own_kind() {
    let open_failed = OpenOutcome::ExecutionFailed(String::from("worker did not run"));
    assert!(matches!(open_failed, OpenOutcome::ExecutionFailed(_)));
    assert!(!matches!(open_failed, OpenOutcome::ReadFailed(_)));
    let save_failed = SaveOutcome::ExecutionFailed(String::from("worker did not run"));
    assert!(matches!(save_failed, SaveOutcome::ExecutionFailed(_)));
}
