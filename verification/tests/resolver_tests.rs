use file2book_launcher::bundled_python_candidates;
use file2book_launcher::discover_bundled_python;
use file2book_launcher::locate_python_path;
use file2book_launcher::ExeDirStatus;

#[test]
fn candidate_lists_are_fixed() {
    assert_eq!(
        bundled_python_candidates("/app", false),
        vec![
            "/app/python/bin/python3".to_string(),
            "/app/python/bin/python".to_string(),
            "/app/resources/python/bin/python3".to_string(),
        ]
    );
    assert_eq!(
        bundled_python_candidates("C:/app", true),
        vec![
            "C:/app/python/python.exe".to_string(),
            "C:/app/resources/python/python.exe".to_string(),
        ]
    );
}

#[test]
fn override_returns_exact_value_without_probing() {
    // No existence information is supplied at all: a set override decides
    // alone, whatever the directory lookup said.
    let r = locate_python_path(
        Some("/custom/python".to_string()),
        &ExeDirStatus::Found("/app".to_string()),
        &vec![],
        false,
    );
    assert_eq!(r, Ok("/custom/python".to_string()));

    let r = locate_python_path(
        Some("py-override".to_string()),
        &ExeDirStatus::NoParent,
        &vec![],
        true,
    );
    assert_eq!(r, Ok("py-override".to_string()));
}

#[test]
fn system_fallback_when_nothing_bundled() {
    let r = locate_python_path(
        None,
        &ExeDirStatus::Found("/app".to_string()),
        &vec![false, false, false],
        false,
    );
    assert_eq!(r, Ok("python3".to_string()));

    let r = locate_python_path(
        None,
        &ExeDirStatus::Found("C:/app".to_string()),
        &vec![false, false],
        true,
    );
    assert_eq!(r, Ok("python.exe".to_string()));
}

#[test]
fn first_existing_candidate_wins() {
    let r = locate_python_path(
        None,
        &ExeDirStatus::Found("/app".to_string()),
        &vec![true, true, false],
        false,
    );
    assert_eq!(r, Ok("/app/python/bin/python3".to_string()));

    let r = locate_python_path(
        None,
        &ExeDirStatus::Found("/app".to_string()),
        &vec![false, true, true],
        false,
    );
    assert_eq!(r, Ok("/app/python/bin/python".to_string()));
}

#[test]
fn discover_reports_nothing_when_nothing_exists() {
    let cands = bundled_python_candidates("/app", false);
    assert_eq!(discover_bundled_python(&cands, &vec![false, false, false]), None);
    assert_eq!(
        discover_bundled_python(&cands, &vec![false, false, true]),
        Some("/app/resources/python/bin/python3".to_string())
    );
}

#[test]
fn unknown_application_directory_is_a_hard_error() {
    let r = locate_python_path(None, &ExeDirStatus::NoParent, &vec![], false);
    assert_eq!(r, Err("Failed to determine executable directory".to_string()));

    let r = locate_python_path(
        None,
        &ExeDirStatus::Unreadable("exe path unreadable".to_string()),
        &vec![],
        false,
    );
    assert_eq!(r, Err("exe path unreadable".to_string()));
}
