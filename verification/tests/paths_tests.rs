use courtyard_core::clock::DateTimeParts;
use courtyard_core::paths::{
    first_marked, format_datetime_display, fresh_project_id, is_supported_file,
    ollama_candidate_paths, pick_import_name, project_subdir_names, script_dir_candidates,
    uv_candidate_paths, ProjectDirManager, ProjectInfo, PythonExecutor,
};

#[test]
fn supported_extensions_are_recognized_case_insensitively() {
    assert!(is_supported_file("/data/notes.txt"));
    assert!(is_supported_file("/data/NOTES.TXT"));
    assert!(is_supported_file("report.Md"));
    assert!(is_supported_file("corpus.jsonl"));
    assert!(is_supported_file("a/b/c.docx"));
    assert!(is_supported_file("paper.pdf"));
    assert!(is_supported_file("payload.json"));
}

#[test]
fn unsupported_and_missing_extensions_are_rejected() {
    assert!(!is_supported_file("binary.exe"));
    assert!(!is_supported_file("no_extension"));
    assert!(!is_supported_file("/data/.bashrc"));
    assert!(!is_supported_file("archive.tar.gz"));
    assert!(!is_supported_file("dir.d/file"));
    assert!(!is_supported_file(""));
}

#[test]
fn import_keeps_a_free_name() {
    let existing = vec![String::from("other.txt")];
    let picked = pick_import_name("notes.txt", "notes", "txt", &existing).unwrap();
    assert_eq!(picked.as_str(), "notes.txt");
}

#[test]
fn import_appends_the_first_free_counter() {
    let existing = vec![String::from("notes.txt"), String::from("notes_1.txt")];
    let picked = pick_import_name("notes.txt", "notes", "txt", &existing).unwrap();
    assert_eq!(picked.as_str(), "notes_2.txt");
}

#[test]
fn import_rename_works_without_an_extension() {
    let existing = vec![String::from("README")];
    let picked = pick_import_name("README", "README", "", &existing).unwrap();
    assert_eq!(picked.as_str(), "README_1");
}

#[test]
fn project_paths_are_joined_under_the_base_directory() {
    let mgr = ProjectDirManager::new(Some(String::from("/home/u")));
    assert_eq!(mgr.base_dir.as_str(), "/home/u/Courtyard");
    assert_eq!(mgr.project_path("p1").as_str(), "/home/u/Courtyard/projects/p1");
    let mgr = ProjectDirManager::new(None);
    assert_eq!(mgr.project_path("p1").as_str(), "./Courtyard/projects/p1");
}

#[test]
fn executor_locates_the_interpreter_under_the_venv() {
    let exec = PythonExecutor::locate(Some(String::from("/home/u")), true);
    assert_eq!(
        exec.python_bin().as_str(),
        "/home/u/Courtyard/python/.venv/bin/python"
    );
    assert_eq!(exec.venv_dir().as_str(), "/home/u/Courtyard/python/.venv");
    assert!(exec.is_ready());
    let exec = PythonExecutor::locate(Some(String::from("/home/u")), false);
    assert!(!exec.is_ready());
}

#[test]
fn candidate_lists_match_the_probed_locations() {
    let uv = uv_candidate_paths("/home/u");
    let uv: Vec<&str> = uv.iter().map(|s| s.as_str()).collect();
    assert_eq!(
        uv,
        vec![
            "/usr/local/bin/uv",
            "/opt/homebrew/bin/uv",
            "/home/u/.cargo/bin/uv",
            "/home/u/.local/bin/uv",
        ]
    );
    let ollama = ollama_candidate_paths();
    assert_eq!(ollama[0].as_str(), "/usr/local/bin/ollama");
    assert_eq!(ollama[1].as_str(), "/opt/homebrew/bin/ollama");
    let scripts = script_dir_candidates("/app/bin");
    assert_eq!(scripts[0].as_str(), "/app/bin/../Resources/scripts");
    assert_eq!(scripts[3].as_str(), "/app/bin/../../scripts");
}

#[test]
fn first_marked_picks_the_first_present_candidate() {
    assert_eq!(first_marked(&vec![false, true, true]), Some(1));
    assert_eq!(first_marked(&vec![true]), Some(0));
    assert_eq!(first_marked(&vec![false, false]), None);
    assert_eq!(first_marked(&Vec::new()), None);
}

#[test]
fn fixed_project_subdirectories() {
    let dirs = project_subdir_names();
    let dirs: Vec<&str> = dirs.iter().map(|s| s.as_str()).collect();
    assert_eq!(dirs, vec!["raw", "cleaned", "dataset", "adapters", "logs"]);
}

#[test]
fn fresh_project_records_carry_the_creation_time() {
    let info = ProjectInfo::fresh(
        String::from("id-1"),
        String::from("My Project"),
        String::from("/home/u/Courtyard/projects/id-1"),
        String::from("2025-01-01 00:05:12"),
    );
    assert_eq!(info.id.as_str(), "id-1");
    assert_eq!(info.status.as_str(), "created");
    assert!(info.model_path.is_none());
    assert_eq!(info.created_at.as_str(), "2025-01-01 00:05:12");
    assert_eq!(info.updated_at.as_str(), "2025-01-01 00:05:12");
}

#[test]
fn project_identifiers_are_hyphenated_and_fresh() {
    let a = fresh_project_id();
    let b = fresh_project_id();
    assert_eq!(a.len(), 36);
    assert_eq!(b.len(), 36);
    assert_ne!(a, b);
}

#[test]
fn datetime_display_is_zero_padded() {
    let p = DateTimeParts { year: 2025, month: 1, day: 1, hour: 0, minute: 5, second: 12 };
    assert_eq!(format_datetime_display(&p).as_str(), "2025-01-01 00:05:12");
}
