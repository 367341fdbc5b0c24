use slipstream::document::{DocumentState, FileInfo, SyncPayload};
use slipstream::render::markdown_to_html;

#[test]
fn new_document_has_no_file() {
    let doc = DocumentState::new("hi".to_string());
    assert_eq!(doc.content, "hi");
    assert_eq!(doc.get_file_path(), None);
    assert_eq!(doc.base_dir(), None);
}

#[test]
fn update_then_get_gives_back_the_same_text_and_html() {
    let mut doc = DocumentState::new(String::new());
    let sent = doc.update_content("# A\n".to_string(), "main".to_string());
    assert_eq!(sent.content, "# A\n");
    assert_eq!(sent.html, "<h1 data-source-line=\"0\">A</h1>\n");
    assert_eq!(sent.source_window, "main");
    let got = doc.get_content();
    assert_eq!(got.content, sent.content);
    assert_eq!(got.html, sent.html);
    assert_eq!(got.source_window, "");
    assert_eq!(doc.get_file_path(), None);
}

#[test]
fn open_file_sets_path_and_resolves_images_next_to_it() {
    let mut doc = DocumentState::new(String::new());
    let sent = doc.open_file("/tmp/notes/doc.md".to_string(), "![p](pic.png)\n".to_string());
    assert_eq!(sent.source_window, "__file_open__");
    assert_eq!(sent.content, "![p](pic.png)\n");
    assert_eq!(
        sent.html,
        "<p data-source-line=\"0\"><img src=\"localimage://localhost/tmp/notes/pic.png\" alt=\"p\" /></p>\n"
    );
    assert_eq!(doc.get_file_path(), Some("/tmp/notes/doc.md".to_string()));
    assert_eq!(doc.base_dir(), Some("/tmp/notes".to_string()));
    assert_eq!(doc.get_content().html, sent.html);
}

#[test]
fn update_keeps_the_file_and_its_base_dir() {
    let mut doc = DocumentState::new(String::new());
    doc.saved_to("/srv/a/b.md".to_string());
    let sent = doc.update_content("![q](q.gif)".to_string(), "w2".to_string());
    assert_eq!(doc.get_file_path(), Some("/srv/a/b.md".to_string()));
    assert_eq!(sent.html, markdown_to_html("![q](q.gif)", Some("/srv/a")));
}

#[test]
fn saving_keeps_the_text() {
    let mut doc = DocumentState::new("keep".to_string());
    doc.saved_to("x.md".to_string());
    assert_eq!(doc.content, "keep");
    assert_eq!(doc.get_file_path(), Some("x.md".to_string()));
    // A bare file name has the empty directory as its parent.
    assert_eq!(doc.base_dir(), Some(String::new()));
}

#[test]
fn payload_and_file_info_hold_their_fields() {
    let p = SyncPayload { content: "c".to_string(), html: "h".to_string(), source_window: "w".to_string() };
    assert_eq!((p.content.as_str(), p.html.as_str(), p.source_window.as_str()), ("c", "h", "w"));
    let f = FileInfo { path: "p".to_string(), content: "c".to_string() };
    assert_eq!((f.path.as_str(), f.content.as_str()), ("p", "c"));
}
