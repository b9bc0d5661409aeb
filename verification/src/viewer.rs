//! The state of a viewer window apart from its widgets: the open document,
//! the error on show, the colour theme, and whether task boxes were
//! ticked since the file was read; and the texts the window shows for it.

use vstd::prelude::*;
use crate::document::{title_text, Document};
use vstd::slice::slice_to_vec;
use crate::paths::{parent_of, path_parent};
use crate::size::human_size_text;
use crate::text::{decimal, push_decimal};
use crate::document::human_size;

verus! {

/// What the window shows, short of its widgets and zoom.
#[derive(Debug)]
pub struct ViewerState {
    /// The document on show, if any.
    pub document: Option<Document>,
    /// The message of the last failed open, until it is dismissed.
    pub error: Option<String>,
    /// Whether the dark theme is used.
    pub dark_mode: bool,
    /// Whether task boxes were ticked in the window since the file was read.
    pub temporary_task_changes: bool,
}

/// Panel and background colours of a theme, as RGB triples.
#[derive(Debug, Clone, Copy, PartialEq, Eq)]
pub struct Palette {
    pub panel_fill: (u8, u8, u8),
    pub extreme_bg: (u8, u8, u8),
}

/// The colours of the dark or the light theme.
pub fn theme_palette(dark_mode: bool) -> (p: Palette)
    ensures
        dark_mode ==> p == (Palette { panel_fill: (25, 27, 32), extreme_bg: (18, 20, 24) }),
        !dark_mode ==> p == (Palette { panel_fill: (246, 247, 249), extreme_bg: (255, 255, 255) }),
{
    if dark_mode {
        Palette { panel_fill: (25, 27, 32), extreme_bg: (18, 20, 24) }
    } else {
        Palette { panel_fill: (246, 247, 249), extreme_bg: (255, 255, 255) }
    }
}

/// The window title: the document's title and the application name, or the
/// application name alone.
pub open spec fn window_title_text(document: Option<Document>) -> Seq<char> {
    match document {
        Some(d) => title_text(d.path@) + " — MD Viewer"@,
        None => "MD Viewer"@,
    }
}

/// The status line of a document: its lines, its size, that the file is
/// only read, and whether task boxes were ticked in the window.
pub open spec fn status_text(d: Document, temporary_task_changes: bool) -> Seq<char> {
    decimal(d.lines as nat) + " lines · "@ + human_size_text(d.bytes as nat) + " · file read-only"@
        + if temporary_task_changes {
        " · temporary task checks"@
    } else {
        Seq::empty()
    }
}

/// The first path among the dropped files that have one.
pub open spec fn first_path(paths: Seq<Option<Seq<u8>>>) -> Option<Seq<u8>>
    decreases paths.len(),
{
    if paths.len() == 0 {
        None
    } else if paths[0] is Some {
        paths[0]
    } else {
        first_path(paths.drop_first())
    }
}

/// The bytes of a path, if there is one.
pub open spec fn path_bytes(path: Option<Vec<u8>>) -> Option<Seq<u8>> {
    match path {
        Some(p) => Some(p@),
        None => None,
    }
}

/// The path of the file to open among files dropped on the window (each
/// given as the bytes of its path, if it has one).
pub fn first_dropped_path(paths: Vec<Option<Vec<u8>>>) -> (r: Option<Vec<u8>>)
    ensures
        path_bytes(r) == first_path(paths@.map_values(|p: Option<Vec<u8>>| path_bytes(p))),
{
    let ghost all = paths@.map_values(|p: Option<Vec<u8>>| path_bytes(p));
    let mut i: usize = 0;
    assert(all.skip(0) =~= all);
    while i < paths.len()
        invariant
            all == paths@.map_values(|p: Option<Vec<u8>>| path_bytes(p)),
            i <= paths.len(),
            first_path(all) == first_path(all.skip(i as int)),
        decreases paths.len() - i,
    {
        assert(all.skip(i as int)[0] == path_bytes(paths@[i as int]));
        assert(all.skip(i as int).drop_first() =~= all.skip(i + 1));
        match &paths[i] {
            Some(path) => {
                return Some(slice_to_vec(path.as_slice()));
            },
            None => {},
        }
        i = i + 1;
    }
    None
}

impl ViewerState {
    /// The state after opening a file: on success the document is shown,
    /// the error is cleared and no task box counts as ticked; on failure the
    /// error is shown and the rest stays.
    pub open spec fn after_open(self, result: Result<Document, String>) -> ViewerState {
        match result {
            Ok(d) => ViewerState {
                document: Some(d),
                error: None,
                dark_mode: self.dark_mode,
                temporary_task_changes: false,
            },
            Err(message) => ViewerState { error: Some(message), ..self },
        }
    }

    /// The state with the other theme.
    pub open spec fn after_toggle_theme(self) -> ViewerState {
        ViewerState { dark_mode: !self.dark_mode, ..self }
    }

    /// The state with the error dismissed.
    pub open spec fn after_dismiss(self) -> ViewerState {
        ViewerState { error: None, ..self }
    }

    /// The state once a task box was ticked in the window.
    pub open spec fn after_task_change(self) -> ViewerState {
        ViewerState { temporary_task_changes: true, ..self }
    }

    /// The path that a reload reads again: that of the document on show.
    pub open spec fn reload_target(self) -> Option<Seq<u8>> {
        match self.document {
            Some(d) => Some(d.path@),
            None => None,
        }
    }

    /// A window with no document, in the given theme.
    pub fn new(dark_mode: bool) -> (s: ViewerState)
        ensures
            s.document is None,
            s.error is None,
            s.dark_mode == dark_mode,
            !s.temporary_task_changes,
    {
        ViewerState { document: None, error: None, dark_mode, temporary_task_changes: false }
    }

    /// Takes the outcome of opening a file; returns whether a document was
    /// opened (the window then starts the new document afresh).
    pub fn apply_open_result(&mut self, result: Result<Document, String>) -> (opened: bool)
        ensures
            opened == result is Ok,
            *final(self) == old(self).after_open(result),
    {
        match result {
            Ok(d) => {
                self.document = Some(d);
                self.error = None;
                self.temporary_task_changes = false;
                true
            },
            Err(message) => {
                self.error = Some(message);
                false
            },
        }
    }

    /// Switches between the dark and the light theme.
    pub fn toggle_theme(&mut self)
        ensures
            *final(self) == old(self).after_toggle_theme(),
    {
        self.dark_mode = !self.dark_mode;
    }

    /// Hides the error.
    pub fn dismiss_error(&mut self)
        ensures
            *final(self) == old(self).after_dismiss(),
    {
        self.error = None;
    }

    /// Notes that a task box was ticked in the window; the file is not
    /// written.
    pub fn note_task_change(&mut self)
        ensures
            *final(self) == old(self).after_task_change(),
    {
        self.temporary_task_changes = true;
    }

    /// The path to read again on reload, if a document is open.
    pub fn reload_path(&self) -> (r: Option<Vec<u8>>)
        ensures
            path_bytes(r) == self.reload_target(),
    {
        match &self.document {
            Some(d) => Some(slice_to_vec(d.path.as_slice())),
            None => None,
        }
    }

    /// The directory in which the file dialog starts: that of the open
    /// document, if any.
    pub fn dialog_directory(&self) -> (r: Option<Vec<u8>>)
        ensures
            path_bytes(r) == match self.document {
                Some(d) => path_parent(d.path@),
                None => None,
            },
    {
        match &self.document {
            Some(d) => {
                let parent = parent_of(d.path.as_slice());
                assert(parent matches Some(p) ==> p.deep_view() =~= p@);
                parent
            },
            None => None,
        }
    }

    /// The window title.
    pub fn window_title(&self) -> (r: String)
        ensures
            r@ == window_title_text(self.document),
    {
        match &self.document {
            Some(d) => {
                let mut title = d.title();
                title.append(" — MD Viewer");
                title
            },
            None => String::from_str("MD Viewer"),
        }
    }

    /// The text in the toolbar: the document's title or that no file is open.
    pub fn toolbar_label(&self) -> (r: String)
        ensures
            r@ == match self.document {
                Some(d) => title_text(d.path@),
                None => "No file open"@,
            },
    {
        match &self.document {
            Some(d) => d.title(),
            None => String::from_str("No file open"),
        }
    }

    /// The label of the theme button: the theme it switches to.
    pub fn theme_button_label(&self) -> (r: &'static str)
        ensures
            r@ == if self.dark_mode { "Light"@ } else { "Dark"@ },
    {
        if self.dark_mode {
            "Light"
        } else {
            "Dark"
        }
    }

    /// The status line, shown while a document is open.
    pub fn status_line(&self) -> (r: Option<String>)
        ensures
            r.deep_view() == match self.document {
                Some(d) => Some(status_text(d, self.temporary_task_changes)),
                None => None,
            },
    {
        match &self.document {
            Some(d) => {
                let mut line = String::new();
                push_decimal(&mut line, d.lines as u64);
                line.append(" lines · ");
                let size = human_size(d.bytes);
                line.append(size.as_str());
                line.append(" · file read-only");
                if self.temporary_task_changes {
                    line.append(" · temporary task checks");
                }
                assert(line@ =~= status_text(*d, self.temporary_task_changes));
                Some(line)
            },
            None => None,
        }
    }
}

/// After a file is opened its document is on show, with no error and no
/// ticked task boxes, and a reload reads that same file again.
pub proof fn law_open_then_reload(s: ViewerState, d: Document)
    ensures
        s.after_open(Ok(d)).document == Some(d),
        s.after_open(Ok(d)).error is None,
        !s.after_open(Ok(d)).temporary_task_changes,
        s.after_open(Ok(d)).reload_target() == Some(d.path@),
{
}

/// Task boxes ticked in the window exist only there: reading the file
/// again gives the same state as if none had been ticked.
pub proof fn law_reload_forgets_task_changes(s: ViewerState, d: Document)
    ensures
        s.after_task_change().after_open(Ok(d)) == s.after_open(Ok(d)),
{
}

/// A failed open shows its error and leaves the document, its ticked task
/// boxes and the theme as they were.
pub proof fn law_failed_open_keeps_document(s: ViewerState, message: String)
    ensures
        s.after_open(Err(message)).document == s.document,
        s.after_open(Err(message)).temporary_task_changes == s.temporary_task_changes,
        s.after_open(Err(message)).dark_mode == s.dark_mode,
        s.after_open(Err(message)).error == Some(message),
        s.after_open(Err(message)).reload_target() == s.reload_target(),
{
}

/// Dismissing the error of a failed open returns to the state before it,
/// without an error.
pub proof fn law_dismiss_after_failed_open(s: ViewerState, message: String)
    ensures
        s.after_open(Err(message)).after_dismiss() == s.after_dismiss(),
{
}

/// Switching the theme twice changes nothing.
pub proof fn law_toggle_theme_twice(s: ViewerState)
    ensures
        s.after_toggle_theme().after_toggle_theme() == s,
{
}


/// The status line depends on a document only through its line count and
/// its size in bytes: two documents that agree on both show the same line,
/// whatever their text (so the size shown is the byte count, not a count of
/// characters).
pub proof fn law_status_line_shows_lines_and_bytes(d1: Document, d2: Document, ticked: bool)
    requires
        d1.lines == d2.lines,
        d1.bytes == d2.bytes,
    ensures
        status_text(d1, ticked) == status_text(d2, ticked),
{
}

/// The status line reads: the line count, `lines`, the size of the
/// document's bytes, and that the file is only read; ticked task boxes add
/// a note at its end.
pub proof fn law_status_line_parts(d: Document)
    ensures
        status_text(d, false) == decimal(d.lines as nat) + " lines · "@ + human_size_text(d.bytes as nat)
            + " · file read-only"@,
        status_text(d, true) == status_text(d, false) + " · temporary task checks"@,
{
    assert(status_text(d, false) =~= decimal(d.lines as nat) + " lines · "@ + human_size_text(d.bytes as nat)
        + " · file read-only"@);
}

/// The first dropped file that has a path is the one opened: a file with a
/// path in front is chosen, entries without one are skipped, and nothing is
/// chosen among no files.
pub proof fn law_first_dropped_file_is_opened(p: Seq<u8>, rest: Seq<Option<Seq<u8>>>)
    ensures
        first_path(seq![Some(p)] + rest) == Some(p),
        first_path(seq![None] + rest) == first_path(rest),
        first_path(Seq::empty()) == None::<Seq<u8>>,
{
    assert((seq![Some(p)] + rest)[0] == Some(p));
    assert((seq![None::<Seq<u8>>] + rest)[0] == None::<Seq<u8>>);
    assert((seq![None::<Seq<u8>>] + rest).drop_first() =~= rest);
}

} // verus!
