use giglog_devtools::api_messages::{ActiveView, InputMode, LayoutMode};
use giglog_devtools::editor_layout::{
    clamp_editor_scroll_offset, editor_aligned_start, editor_content_viewport_height,
    editor_mode_text, editor_sections, editor_total_height, editor_visible_range,
    ensure_editor_section_visible, layout_mode_for_width, scroll_editor_by, scroll_editor_page,
    EditorSectionKind,
};
use giglog_devtools::help_view::{
    keymap_help_lines, keymap_help_target_view, keymap_scroll_metrics, page_step,
    request_preview_scroll_metrics, scroll_offset_by, view_keymap_entries, KeymapHelpState,
};
use giglog_devtools::nav_history::{is_history_view, NavHistory, MAX_NAVIGATION_HISTORY};

fn lines(items: &[&str]) -> Vec<String> {
    items.iter().map(|s| s.to_string()).collect()
}

#[test]
fn request_preview_scroll_metrics_detect_one_line_overflow() {
    let lines = lines(&["line-1", "line-2", "line-3", "line-4", "line-5"]);

    let (total_lines, viewport_height, max_offset) = request_preview_scroll_metrics(&lines, 40, 4);

    assert_eq!(total_lines, 5);
    assert_eq!(viewport_height, 4);
    assert_eq!(max_offset, 1);
}

#[test]
fn request_preview_scroll_metrics_account_for_wrapping() {
    let lines = lines(&["0123456789 0123456789 0123456789"]);

    let (total_lines, viewport_height, max_offset) = request_preview_scroll_metrics(&lines, 10, 2);

    assert!(total_lines > lines.len());
    assert_eq!(viewport_height, 2);
    assert!(max_offset > 0);
}

#[test]
fn keymap_entries_include_expected_route_editor_shortcuts() {
    let (title, entries) = view_keymap_entries(ActiveView::RouteEditor);

    assert_eq!(title, "Route Editor");
    assert!(entries.iter().any(|entry| entry.contains("Ctrl+S")));
    assert!(entries.iter().any(|entry| entry.contains("v: Global vars")));
}

#[test]
fn keymap_entries_include_keymap_help_fallback() {
    let (title, entries) = view_keymap_entries(ActiveView::KeymapHelp);

    assert_eq!(title, "Keymaps");
    assert!(entries.iter().any(|entry| entry.contains("?")));
}

#[test]
fn keymap_scroll_metrics_account_for_wrapping() {
    let lines = lines(&["a: Add variable | e: Edit variable | d: Delete variable | Ctrl+S: Save variable"]);

    let (total_lines, viewport_height, max_offset) = keymap_scroll_metrics(&lines, 16, 2);

    assert!(total_lines > lines.len());
    assert_eq!(viewport_height, 2);
    assert!(max_offset > 0);
}

#[test]
fn empty_areas_have_no_scroll() {
    let l = lines(&["a", "b"]);
    assert_eq!(request_preview_scroll_metrics(&l, 0, 5), (0, 0, 0));
    assert_eq!(keymap_scroll_metrics(&l, 5, 0), (0, 0, 0));
    assert_eq!(scroll_offset_by(3, -10, 7), 0);
    assert_eq!(scroll_offset_by(3, 10, 7), 7);
    assert_eq!(scroll_offset_by(3, 2, 7), 5);
    assert_eq!(page_step(40), 36);
    assert_eq!(page_step(3), 1);
}

#[test]
fn help_page_lists_global_then_view_shortcuts() {
    let l = keymap_help_lines(ActiveView::ResponseViewer);
    assert_eq!(l[0], "Global");
    assert_eq!(l[1], "q: Quit");
    assert_eq!(l[6], "");
    assert_eq!(l[7], "Response Viewer");
    assert_eq!(l.len(), 11);
    assert_eq!(keymap_help_target_view(None, ActiveView::KeymapHelp), ActiveView::RouteList);
    assert_eq!(keymap_help_target_view(Some(ActiveView::RouteEditor), ActiveView::KeymapHelp), ActiveView::RouteEditor);
    let mut state = KeymapHelpState { return_view: None, scroll_offset: 9 };
    let shown = state.open(ActiveView::VariableManager);
    assert_eq!(shown, ActiveView::KeymapHelp);
    assert_eq!(state.scroll_offset, 0);
    assert_eq!(state.close(shown), ActiveView::VariableManager);
}

#[test]
fn navigation_history_goes_back_and_forward() {
    let mut h: NavHistory<u32> = NavHistory::new();
    assert!(!h.back(0));
    h.push(1);
    h.push(2);
    h.push(3);
    assert_eq!(h.index, 2);
    assert!(h.back(30));
    assert_eq!(h.index, 1);
    assert_eq!(h.entries, vec![1, 2, 30]);
    assert!(h.forward(20));
    assert_eq!(h.index, 2);
    assert_eq!(h.entries[2], 30);
    assert!(!h.forward(0));
    h.back(31);
    h.back(21);
    h.push(9);
    assert_eq!(h.entries, vec![1, 9]);
    assert_eq!(h.index, 1);
    assert!(is_history_view(ActiveView::RouteList));
    assert!(!is_history_view(ActiveView::KeymapHelp));
}

#[test]
fn navigation_history_is_bounded() {
    let mut h: NavHistory<usize> = NavHistory::new();
    for i in 0..150 {
        h.push(i);
    }
    assert_eq!(h.entries.len(), MAX_NAVIGATION_HISTORY);
    assert_eq!(h.entries[0], 50);
    assert_eq!(h.index, MAX_NAVIGATION_HISTORY - 1);
}

#[test]
fn editor_sections_and_visible_ranges() {
    let plain = editor_sections(false, None);
    assert_eq!(plain.len(), 6);
    let full = editor_sections(true, Some(10));
    assert_eq!(full.len(), 8);
    assert_eq!(full[2].kind, EditorSectionKind::NewGroup);
    assert_eq!(full[7].kind, EditorSectionKind::BodyPreview);
    assert_eq!(full[7].height, 14);
    assert_eq!(editor_sections(false, Some(0))[6].height, 5);
    assert_eq!(editor_total_height(&full), 35);
    assert_eq!(editor_visible_range(&full, 0, 10), (0, 3));
    assert_eq!(editor_visible_range(&full, 99, 10), (7, 7));
    assert_eq!(editor_visible_range(&full, 2, 0), (0, 0));
    assert_eq!(editor_aligned_start(&full, 7, 20), 5);
    assert_eq!(editor_aligned_start(&full, 0, 10), 0);
    assert_eq!(editor_content_viewport_height(24), 23);
    assert_eq!(editor_content_viewport_height(0), 0);
}

#[test]
fn editor_scrolling_by_sections() {
    let s = editor_sections(false, None);
    assert_eq!(scroll_editor_by(0, -3, s.len()), 0);
    assert_eq!(scroll_editor_by(2, 10, s.len()), 5);
    assert_eq!(scroll_editor_by(2, 1, 0), 0);
    assert_eq!(clamp_editor_scroll_offset(9, 6), 5);
    assert_eq!(scroll_editor_page(0, 1, &s, 9), 2);
    assert_eq!(scroll_editor_page(4, -1, &s, 9), 3);
    assert_eq!(ensure_editor_section_visible(0, &s, EditorSectionKind::Headers, 9), 2);
    assert_eq!(ensure_editor_section_visible(5, &s, EditorSectionKind::Name, 9), 0);
    assert_eq!(ensure_editor_section_visible(1, &s, EditorSectionKind::Group, 9), 1);
    assert_eq!(ensure_editor_section_visible(1, &s, EditorSectionKind::NewGroup, 9), 1);
}

#[test]
fn editor_footer_and_layout_modes() {
    assert_eq!(editor_mode_text(InputMode::Normal, false, false), "-- NORMAL --");
    assert_eq!(editor_mode_text(InputMode::Insert, true, true), "-- INSERT -- | scroll: up/down");
    assert_eq!(editor_mode_text(InputMode::Normal, false, true), "-- NORMAL -- | scroll: down");
    assert_eq!(layout_mode_for_width(120), LayoutMode::Wide);
    assert_eq!(layout_mode_for_width(110), LayoutMode::Wide);
    assert_eq!(layout_mode_for_width(90), LayoutMode::Medium);
    assert_eq!(layout_mode_for_width(79), LayoutMode::Narrow);
}
