use moyu::pdf_progress::{
    bookmark_for, default_pdf_progress, normalize_visual_mode, pdf_progress_from_entries, save_bookmark, set_visual_mode,
    PdfBookmark,
};

#[test]
fn bookmarks_read_back_what_was_saved() {
    let mut progress = default_pdf_progress();
    assert_eq!(progress.visual_mode, "transparent");
    assert_eq!(bookmark_for(&progress, "a.pdf"), None);
    save_bookmark(&mut progress, "a.pdf".to_string(), 3, Some(10), "t1".to_string());
    save_bookmark(&mut progress, "b.pdf".to_string(), 1, None, "t2".to_string());
    save_bookmark(&mut progress, "a.pdf".to_string(), 7, Some(10), "t3".to_string());
    assert_eq!(progress.bookmarks.len(), 2);
    assert_eq!(
        bookmark_for(&progress, "a.pdf"),
        Some(PdfBookmark { page: 7, total_pages: Some(10), last_read: "t3".to_string() })
    );
    assert_eq!(
        bookmark_for(&progress, "b.pdf"),
        Some(PdfBookmark { page: 1, total_pages: None, last_read: "t2".to_string() })
    );
}

#[test]
fn visual_modes() {
    let mut progress = default_pdf_progress();
    assert!(set_visual_mode(&mut progress, "dark".to_string()));
    assert_eq!(progress.visual_mode, "dark");
    assert!(!set_visual_mode(&mut progress, "sepia".to_string()));
    assert_eq!(progress.visual_mode, "dark");
    progress.visual_mode = "sepia".to_string();
    normalize_visual_mode(&mut progress);
    assert_eq!(progress.visual_mode, "transparent");
    progress.visual_mode = "default".to_string();
    normalize_visual_mode(&mut progress);
    assert_eq!(progress.visual_mode, "default");
}

#[test]
fn stored_pairs_give_one_bookmark_per_file() {
    let mark = |page: u32, t: &str| PdfBookmark { page, total_pages: None, last_read: t.to_string() };
    let progress = pdf_progress_from_entries(
        vec![
            ("a.pdf".to_string(), mark(1, "t1")),
            ("b.pdf".to_string(), mark(2, "t2")),
            ("a.pdf".to_string(), mark(5, "t3")),
        ],
        "dark".to_string(),
    );
    assert_eq!(progress.visual_mode, "dark");
    assert_eq!(progress.bookmarks.len(), 2);
    assert_eq!(bookmark_for(&progress, "a.pdf"), Some(mark(5, "t3")));
    assert_eq!(bookmark_for(&progress, "b.pdf"), Some(mark(2, "t2")));
    assert_eq!(bookmark_for(&progress, "c.pdf"), None);
}
