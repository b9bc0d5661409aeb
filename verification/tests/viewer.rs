use md_viewer::document::build_document;
use md_viewer::viewer::{first_dropped_path, theme_palette, Palette, ViewerState};

#[test]
fn opening_and_reloading() {
    let mut state = ViewerState::new(false);
    assert_eq!(state.window_title(), "MD Viewer");
    assert_eq!(state.toolbar_label(), "No file open");
    assert_eq!(state.reload_path(), None);
    assert_eq!(state.status_line(), None);

    let document = build_document(b"/docs/notes.md", None, "# T\n\n- [ ] a\n".to_string());
    assert!(state.apply_open_result(Ok(document)));
    assert_eq!(state.window_title(), "notes.md — MD Viewer");
    assert_eq!(state.toolbar_label(), "notes.md");
    assert_eq!(state.reload_path().as_deref(), Some(&b"/docs/notes.md"[..]));
    assert_eq!(state.dialog_directory().as_deref(), Some(&b"/docs"[..]));
    assert_eq!(
        state.status_line().as_deref(),
        Some("3 lines · 13 B · file read-only")
    );

    state.note_task_change();
    assert_eq!(
        state.status_line().as_deref(),
        Some("3 lines · 13 B · file read-only · temporary task checks")
    );

    assert!(!state.apply_open_result(Err("Not a Markdown file: x.txt".to_string())));
    assert_eq!(state.error.as_deref(), Some("Not a Markdown file: x.txt"));
    assert!(state.temporary_task_changes);
    assert_eq!(state.reload_path().as_deref(), Some(&b"/docs/notes.md"[..]));

    state.dismiss_error();
    assert_eq!(state.error, None);

    let reloaded = build_document(b"/docs/notes.md", None, "# T\n\n- [ ] a\n".to_string());
    assert!(state.apply_open_result(Ok(reloaded)));
    assert!(!state.temporary_task_changes);
}

#[test]
fn theme_switching() {
    let mut state = ViewerState::new(true);
    assert_eq!(state.theme_button_label(), "Light");
    state.toggle_theme();
    assert!(!state.dark_mode);
    assert_eq!(state.theme_button_label(), "Dark");
    state.toggle_theme();
    assert!(state.dark_mode);
    assert_eq!(
        theme_palette(true),
        Palette { panel_fill: (25, 27, 32), extreme_bg: (18, 20, 24) }
    );
    assert_eq!(
        theme_palette(false),
        Palette { panel_fill: (246, 247, 249), extreme_bg: (255, 255, 255) }
    );
}

#[test]
fn dropped_files() {
    assert_eq!(first_dropped_path(vec![]), None);
    assert_eq!(
        first_dropped_path(vec![None, Some(b"/a.md".to_vec()), Some(b"/b.md".to_vec())]),
        Some(b"/a.md".to_vec())
    );
    assert_eq!(first_dropped_path(vec![None, None]), None);
}
