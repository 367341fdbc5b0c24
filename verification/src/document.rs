//! The document shared by all editor windows: its text and the file it was
//! opened from or saved to, and the payload that keeps windows in sync.

use vstd::prelude::*;
use crate::paths::{opt_string_view, parent_dir, path_parent};
use crate::render::{markdown_html, markdown_to_html};
use crate::text::owned;

verus! {

/// What is broadcast to every window when the document changes.
pub struct SyncPayload {
    pub content: String,
    pub html: String,
    pub source_window: String,
}

/// A file's path together with its text.
pub struct FileInfo {
    pub path: String,
    pub content: String,
}

/// The single source of truth for the document being edited.
pub struct DocumentState {
    pub content: String,
    pub file_path: Option<String>,
}

/// The document as text and optional path.
pub struct DocModel {
    pub content: Seq<char>,
    pub file_path: Option<Seq<char>>,
}

/// The directory against which the document's relative images resolve: the
/// parent of its file, when it has one.
pub open spec fn base_dir_of(file_path: Option<Seq<char>>) -> Option<Seq<char>> {
    match file_path {
        Some(p) => path_parent(p),
        None => None,
    }
}

/// The preview HTML of the document.
pub open spec fn document_html(d: DocModel) -> Seq<char> {
    markdown_html(d.content, base_dir_of(d.file_path))
}

/// A payload's three texts.
pub struct PayloadModel {
    pub content: Seq<char>,
    pub html: Seq<char>,
    pub source_window: Seq<char>,
}

impl SyncPayload {
    /// The payload's three texts.
    pub open spec fn view(&self) -> PayloadModel {
        PayloadModel { content: self.content@, html: self.html@, source_window: self.source_window@ }
    }
}

/// The payload describing a document, sent on behalf of `window`.
pub open spec fn payload_of(d: DocModel, window: Seq<char>) -> PayloadModel {
    PayloadModel { content: d.content, html: document_html(d), source_window: window }
}

/// The document after its text is replaced.
pub open spec fn after_update(d: DocModel, content: Seq<char>) -> DocModel {
    DocModel { content: content, file_path: d.file_path }
}

/// The document after it is saved to `path`.
pub open spec fn after_save(d: DocModel, path: Seq<char>) -> DocModel {
    DocModel { content: d.content, file_path: Some(path) }
}

/// The document after the file at `path`, holding `content`, is opened.
pub open spec fn after_open(path: Seq<char>, content: Seq<char>) -> DocModel {
    DocModel { content: content, file_path: Some(path) }
}

/// The window name used for payloads sent after a file was opened.
pub open spec fn file_open_window() -> Seq<char> {
    "__file_open__"@
}

impl DocumentState {
    /// The document as text and optional path.
    pub open spec fn view(&self) -> DocModel {
        DocModel { content: self.content@, file_path: opt_string_view(self.file_path) }
    }

    /// A document with the given text and no file.
    pub fn new(content: String) -> (s: Self)
        ensures
            s@.content == content@,
            s@.file_path is None,
    {
        DocumentState { content, file_path: None }
    }

    /// The parent directory of the document's file, if it has one.
    pub fn base_dir(&self) -> (d: Option<String>)
        ensures
            opt_string_view(d) == base_dir_of(self@.file_path),
    {
        match &self.file_path {
            Some(p) => parent_dir(p.as_str()),
            None => None,
        }
    }

    /// The document's path, if it has one.
    pub fn get_file_path(&self) -> (p: Option<String>)
        ensures
            opt_string_view(p) == self@.file_path,
    {
        match &self.file_path {
            Some(p) => Some(p.clone()),
            None => None,
        }
    }

    /// Replaces the text (typed in `source_window`) and gives what is broadcast to
    /// all windows: the new text and its HTML. The path does not change.
    pub fn update_content(&mut self, content: String, source_window: String) -> (p: SyncPayload)
        ensures
            final(self)@ == after_update(old(self)@, content@),
            p@ == payload_of(final(self)@, source_window@),
    {
        let base_dir = self.base_dir();
        let html = match &base_dir {
            Some(d) => markdown_to_html(content.as_str(), Some(d.as_str())),
            None => markdown_to_html(content.as_str(), None),
        };
        self.content = content.clone();
        SyncPayload { content, html, source_window }
    }

    /// The current text and its HTML, for a window that has just opened.
    pub fn get_content(&self) -> (p: SyncPayload)
        ensures
            p@ == payload_of(self@, Seq::<char>::empty()),
    {
        let content = self.content.clone();
        let base_dir = self.base_dir();
        let html = match &base_dir {
            Some(d) => markdown_to_html(content.as_str(), Some(d.as_str())),
            None => markdown_to_html(content.as_str(), None),
        };
        SyncPayload { content, html, source_window: String::new() }
    }

    /// Records that the text was written to `path`, which becomes the document's file.
    pub fn saved_to(&mut self, path: String)
        ensures
            final(self)@ == after_save(old(self)@, path@),
    {
        self.file_path = Some(path);
    }

    /// Takes in a file's text read from `path`: it becomes the document, `path`
    /// its file, and the payload broadcast carries the text and its HTML.
    pub fn open_file(&mut self, path: String, content: String) -> (p: SyncPayload)
        ensures
            final(self)@ == after_open(path@, content@),
            p@ == payload_of(final(self)@, file_open_window()),
    {
        let base_dir = parent_dir(path.as_str());
        let html = match &base_dir {
            Some(d) => markdown_to_html(content.as_str(), Some(d.as_str())),
            None => markdown_to_html(content.as_str(), None),
        };
        self.content = content.clone();
        self.file_path = Some(path);
        SyncPayload { content, html, source_window: owned("__file_open__") }
    }
}

/// Reading the document after an update gives back what the update broadcast:
/// the text just written and the same HTML, rendered against the unchanged file's
/// directory.
pub proof fn lemma_get_after_update(d: DocModel, content: Seq<char>, window: Seq<char>)
    ensures
        payload_of(after_update(d, content), Seq::<char>::empty()).content == payload_of(
            after_update(d, content),
            window,
        ).content,
        payload_of(after_update(d, content), Seq::<char>::empty()).html == payload_of(
            after_update(d, content),
            window,
        ).html,
        payload_of(after_update(d, content), window).content == content,
        payload_of(after_update(d, content), window).html == markdown_html(
            content,
            base_dir_of(d.file_path),
        ),
{
}

/// Of two updates, the later one decides the document.
pub proof fn lemma_last_update_wins(d: DocModel, first: Seq<char>, second: Seq<char>)
    ensures
        after_update(after_update(d, first), second) == after_update(d, second),
{
}

/// Updates after opening a file keep that file, and images keep resolving
/// against its directory.
pub proof fn lemma_update_keeps_opened_file(path: Seq<char>, opened: Seq<char>, typed: Seq<char>)
    ensures
        after_update(after_open(path, opened), typed).file_path == Some(path),
        document_html(after_update(after_open(path, opened), typed)) == markdown_html(
            typed,
            path_parent(path),
        ),
{
}

/// Saving keeps the text and makes the saved-to path the document's file.
pub proof fn lemma_save_keeps_text(d: DocModel, path: Seq<char>)
    ensures
        after_save(d, path).content == d.content,
        after_save(d, path).file_path == Some(path),
{
}

/// Opening a file makes its whole text the document and its path the file: the
/// broadcast carries that text, rendered against the file's directory.
pub proof fn lemma_open_makes_file_the_document(path: Seq<char>, content: Seq<char>, window: Seq<char>)
    ensures
        after_open(path, content).content == content,
        after_open(path, content).file_path == Some(path),
        payload_of(after_open(path, content), window).content == content,
        payload_of(after_open(path, content), window).html == markdown_html(content, path_parent(path)),
        payload_of(after_open(path, content), window).source_window == window,
{
}

} // verus!
