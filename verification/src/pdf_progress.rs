//! The PDF reader's saved state: a bookmark per file and the visual mode.

use vstd::prelude::*;
use crate::text::str_equal;

verus! {

/// Where reading stopped in one file.
#[derive(Clone, Debug, PartialEq, Eq)]
pub struct PdfBookmark {
    pub page: u32,
    pub total_pages: Option<u32>,
    pub last_read: String,
}

/// The saved state of the PDF reader: bookmarks keyed by file path (one per
/// path) and the visual mode.
#[derive(Clone, Debug, PartialEq, Eq)]
pub struct PdfProgress {
    pub bookmarks: Vec<(String, PdfBookmark)>,
    pub visual_mode: String,
}

/// A bookmark as plain values.
pub ghost struct BookmarkView {
    pub page: u32,
    pub total_pages: Option<u32>,
    pub last_read: Seq<char>,
}

/// The bookmark as plain values.
pub open spec fn bookmark_view(b: PdfBookmark) -> BookmarkView {
    BookmarkView { page: b.page, total_pages: b.total_pages, last_read: b.last_read@ }
}

/// The visual modes the reader offers.
pub open spec fn is_visual_mode(mode: Seq<char>) -> bool {
    mode == "default"@ || mode == "dark"@ || mode == "transparent"@
}

/// Whether `mode` is one of the reader's visual modes.
pub fn known_visual_mode(mode: &str) -> (res: bool)
    ensures
        res == is_visual_mode(mode@),
{
    str_equal(mode, "default") || str_equal(mode, "dark") || str_equal(mode, "transparent")
}

impl PdfProgress {
    /// No two bookmarks for one path.
    pub open spec fn wf(&self) -> bool {
        forall|i: int, j: int|
            0 <= i < self.bookmarks@.len() && 0 <= j < self.bookmarks@.len() && i != j
                ==> (#[trigger] self.bookmarks@[i]).0@ != (#[trigger] self.bookmarks@[j]).0@
    }

    /// The bookmarks by path.
    pub open spec fn bookmark_map(&self) -> Map<Seq<char>, BookmarkView> {
        Map::new(
            |p: Seq<char>| exists|i: int| 0 <= i < self.bookmarks@.len() && #[trigger] self.bookmarks@[i].0@ == p,
            |p: Seq<char>|
                bookmark_view(
                    self.bookmarks@[choose|i: int|
                        0 <= i < self.bookmarks@.len() && #[trigger] self.bookmarks@[i].0@ == p].1,
                ),
        )
    }
}

/// The state before anything was saved (`default_pdf_progress`).
pub fn default_pdf_progress() -> (progress: PdfProgress)
    ensures
        progress.wf(),
        progress.bookmarks@.len() == 0,
        progress.visual_mode@ == "transparent"@,
{
    PdfProgress { bookmarks: Vec::new(), visual_mode: String::from_str("transparent") }
}

/// Replaces an unknown visual mode by `transparent` (as loading does).
pub fn normalize_visual_mode(progress: &mut PdfProgress)
    ensures
        final(progress).bookmarks@ == old(progress).bookmarks@,
        final(progress).visual_mode@ == if is_visual_mode(old(progress).visual_mode@) {
            old(progress).visual_mode@
        } else {
            "transparent"@
        },
{
    if !known_visual_mode(progress.visual_mode.as_str()) {
        progress.visual_mode = String::from_str("transparent");
    }
}

/// Sets the visual mode (`pdf_save_visual_mode`); an unknown mode is refused
/// and changes nothing. Reports whether the mode was accepted.
pub fn set_visual_mode(progress: &mut PdfProgress, mode: String) -> (accepted: bool)
    ensures
        accepted == is_visual_mode(mode@),
        final(progress).bookmarks@ == old(progress).bookmarks@,
        final(progress).visual_mode@ == if accepted {
            mode@
        } else {
            old(progress).visual_mode@
        },
{
    if !known_visual_mode(mode.as_str()) {
        return false;
    }
    progress.visual_mode = mode;
    true
}

fn bookmark_position(progress: &PdfProgress, file_path: &str) -> (res: Option<usize>)
    requires
        progress.wf(),
    ensures
        match res {
            Some(i) => i < progress.bookmarks@.len() && progress.bookmarks@[i as int].0@ == file_path@,
            None => forall|i: int|
                0 <= i < progress.bookmarks@.len() ==> (#[trigger] progress.bookmarks@[i]).0@
                    != file_path@,
        },
{
    let mut i: usize = 0;
    while i < progress.bookmarks.len()
        invariant
            i <= progress.bookmarks@.len(),
            forall|k: int| 0 <= k < i ==> (#[trigger] progress.bookmarks@[k]).0@ != file_path@,
        decreases progress.bookmarks.len() - i,
    {
        if str_equal(progress.bookmarks[i].0.as_str(), file_path) {
            return Some(i);
        }
        i = i + 1;
    }
    None
}

fn copy_bookmark(b: &PdfBookmark) -> (res: PdfBookmark)
    ensures
        bookmark_view(res) == bookmark_view(*b),
{
    PdfBookmark { page: b.page, total_pages: b.total_pages, last_read: b.last_read.clone() }
}

/// The bookmark saved for a file (`pdf_load_progress`).
pub fn bookmark_for(progress: &PdfProgress, file_path: &str) -> (res: Option<PdfBookmark>)
    requires
        progress.wf(),
    ensures
        match res {
            Some(b) => progress.bookmark_map().contains_key(file_path@) && progress.bookmark_map()[file_path@]
                == bookmark_view(b),
            None => !progress.bookmark_map().contains_key(file_path@),
        },
{
    match bookmark_position(progress, file_path) {
        Some(i) => {
            let b = copy_bookmark(&progress.bookmarks[i].1);
            proof {
                let k = choose|k: int|
                    0 <= k < progress.bookmarks@.len() && #[trigger] progress.bookmarks@[k].0@
                        == file_path@;
                assert(k == i);
            }
            Some(b)
        },
        None => None,
    }
}

/// Saves the bookmark of a file, replacing an earlier one
/// (`pdf_save_progress`); `last_read` is the time stamp of the save.
pub fn save_bookmark(
    progress: &mut PdfProgress,
    file_path: String,
    page: u32,
    total_pages: Option<u32>,
    last_read: String,
)
    requires
        old(progress).wf(),
    ensures
        final(progress).wf(),
        final(progress).visual_mode == old(progress).visual_mode,
        final(progress).bookmark_map() == old(progress).bookmark_map().insert(
            file_path@,
            BookmarkView { page, total_pages, last_read: last_read@ },
        ),
{
    let ghost old_map = progress.bookmark_map();
    let ghost key = file_path@;
    let ghost value = BookmarkView { page, total_pages, last_read: last_read@ };
    let bookmark = PdfBookmark { page, total_pages, last_read };
    match bookmark_position(progress, file_path.as_str()) {
        Some(i) => {
            let ghost before = progress.bookmarks@;
            progress.bookmarks.set(i, (file_path, bookmark));
            proof {
                let m = progress.bookmark_map();
                assert forall|p: Seq<char>| #[trigger] m.contains_key(p) == old_map.insert(
                    key,
                    value,
                ).contains_key(p) by {
                    assert(progress.bookmarks@[i as int].0@ == key);
                    if p != key && old_map.contains_key(p) {
                        let k = choose|k: int| 0 <= k < before.len() && #[trigger] before[k].0@ == p;
                        assert(k != i as int);
                        assert(progress.bookmarks@[k] == before[k]);
                    }
                    if m.contains_key(p) && p != key {
                        let k = choose|k: int|
                            0 <= k < progress.bookmarks@.len() && #[trigger] progress.bookmarks@[k].0@
                                == p;
                        assert(k != i as int);
                        assert(before[k] == progress.bookmarks@[k]);
                    }
                }
                assert forall|p: Seq<char>| #[trigger] m.contains_key(p) implies m[p] == old_map.insert(
                    key,
                    value,
                )[p] by {
                    let k = choose|k: int|
                        0 <= k < progress.bookmarks@.len() && #[trigger] progress.bookmarks@[k].0@ == p;
                    if p == key {
                        if k != i as int {
                            assert(progress.bookmarks@[k] == before[k]);
                            assert(before[i as int].0@ == key);
                        }
                        assert(k == i);
                    } else {
                        assert(before[k] == progress.bookmarks@[k]);
                        let k2 = choose|k2: int| 0 <= k2 < before.len() && #[trigger] before[k2].0@ == p;
                        assert(k2 == k);
                    }
                }
                assert(m =~= old_map.insert(key, value));
            }
        },
        None => {
            let ghost before = progress.bookmarks@;
            progress.bookmarks.push((file_path, bookmark));
            proof {
                let m = progress.bookmark_map();
                let last = before.len() as int;
                assert(progress.bookmarks@[last].0@ == key);
                assert forall|p: Seq<char>| #[trigger] m.contains_key(p) == old_map.insert(
                    key,
                    value,
                ).contains_key(p) by {
                    if p != key && old_map.contains_key(p) {
                        let k = choose|k: int| 0 <= k < before.len() && #[trigger] before[k].0@ == p;
                        assert(progress.bookmarks@[k] == before[k]);
                    }
                    if m.contains_key(p) && p != key {
                        let k = choose|k: int|
                            0 <= k < progress.bookmarks@.len() && #[trigger] progress.bookmarks@[k].0@
                                == p;
                        assert(k != last);
                        assert(before[k] == progress.bookmarks@[k]);
                    }
                }
                assert forall|p: Seq<char>| #[trigger] m.contains_key(p) implies m[p] == old_map.insert(
                    key,
                    value,
                )[p] by {
                    let k = choose|k: int|
                        0 <= k < progress.bookmarks@.len() && #[trigger] progress.bookmarks@[k].0@ == p;
                    if p == key {
                        assert(k == last);
                    } else {
                        assert(k != last);
                        assert(before[k] == progress.bookmarks@[k]);
                        let k2 = choose|k2: int| 0 <= k2 < before.len() && #[trigger] before[k2].0@ == p;
                        assert(k2 == k);
                    }
                }
                assert(m =~= old_map.insert(key, value));
            }
        },
    }
}

/// The stored (path, bookmark) pairs as plain values.
pub open spec fn entry_views(entries: Seq<(String, PdfBookmark)>) -> Seq<(Seq<char>, BookmarkView)> {
    entries.map_values(|e: (String, PdfBookmark)| (e.0@, bookmark_view(e.1)))
}

/// The bookmarks a list of (path, bookmark) pairs gives, a later pair for a
/// path replacing an earlier one.
pub open spec fn bookmarks_of(entries: Seq<(Seq<char>, BookmarkView)>) -> Map<Seq<char>, BookmarkView>
    decreases entries.len(),
{
    if entries.len() == 0 {
        Map::empty()
    } else {
        bookmarks_of(entries.drop_last()).insert(entries.last().0, entries.last().1)
    }
}

/// The reader state made of stored (path, bookmark) pairs and a visual mode,
/// one bookmark per path (a later pair for a path replaces an earlier one).
pub fn pdf_progress_from_entries(entries: Vec<(String, PdfBookmark)>, visual_mode: String) -> (progress:
    PdfProgress)
    ensures
        progress.wf(),
        progress.visual_mode@ == visual_mode@,
        progress.bookmark_map() == bookmarks_of(entry_views(entries@)),
{
    let ghost all = entries@;
    let mut progress = PdfProgress { bookmarks: Vec::new(), visual_mode };
    assert(progress.bookmark_map() =~= Map::<Seq<char>, BookmarkView>::empty());
    assert(entry_views(all.subrange(0, 0)) =~= Seq::<(Seq<char>, BookmarkView)>::empty());
    let mut rest = entries;
    let ghost mut k: int = 0;
    assert(rest@ =~= all.subrange(0, all.len() as int));
    while rest.len() > 0
        invariant
            0 <= k <= all.len(),
            rest@ == all.subrange(k, all.len() as int),
            progress.wf(),
            progress.visual_mode@ == visual_mode@,
            progress.bookmark_map() == bookmarks_of(entry_views(all.subrange(0, k))),
        decreases rest.len(),
    {
        let (path, bookmark) = rest.remove(0);
        proof {
            assert(all[k] == (path, bookmark));
        }
        let PdfBookmark { page, total_pages, last_read } = bookmark;
        save_bookmark(&mut progress, path, page, total_pages, last_read);
        proof {
            let done = entry_views(all.subrange(0, k + 1));
            assert(done.drop_last() =~= entry_views(all.subrange(0, k)));
            assert(done.last() == (all[k].0@, bookmark_view(all[k].1)));
            k = k + 1;
            assert(rest@ =~= all.subrange(k, all.len() as int));
        }
    }
    assert(all.subrange(0, k) =~= all);
    progress
}

/// A read after a write gives back what was written: after a bookmark is
/// saved for a file, the bookmark found for that file is the saved one, and
/// other files keep theirs.
pub proof fn lemma_saved_bookmark_reads_back(
    before: Map<Seq<char>, BookmarkView>,
    after: Map<Seq<char>, BookmarkView>,
    file_path: Seq<char>,
    saved: BookmarkView,
    other: Seq<char>,
)
    requires
        after == before.insert(file_path, saved),
        other != file_path,
    ensures
        after.contains_key(file_path) && after[file_path] == saved,
        after.contains_key(other) == before.contains_key(other),
        before.contains_key(other) ==> after[other] == before[other],
{
}

} // verus!
