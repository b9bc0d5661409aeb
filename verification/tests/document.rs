use std::path::Path;

use md_viewer::paths::{extension_of, file_name_of, parent_of};
use md_viewer::document::{load_step, LoadNext, 
    access_error_message, build_document, check_markdown_path, check_metadata, human_size,
    is_markdown_path, markdown_extensions, read_error_message, Document, MAX_DOCUMENT_BYTES,
};

#[test]
fn recognizes_markdown_extensions_case_insensitively() {
    assert!(is_markdown_path("README.md".as_bytes()));
    assert!(is_markdown_path("README.MARKDOWN".as_bytes()));
    assert!(!is_markdown_path("notes.txt".as_bytes()));
    assert!(!is_markdown_path("README".as_bytes()));
}

#[test]
fn accepts_every_markdown_extension() {
    assert_eq!(markdown_extensions(), vec!["md", "markdown", "mdown", "mkd"]);
    assert!(is_markdown_path("a/b/notes.mdown".as_bytes()));
    assert!(is_markdown_path("/x/y.MkD".as_bytes()));
    assert!(is_markdown_path("..md".as_bytes()));
    assert!(!is_markdown_path(".md".as_bytes()));
    assert!(!is_markdown_path("notes.md/..".as_bytes()));
    assert!(!is_markdown_path("notes.mdx".as_bytes()));
    assert!(!is_markdown_path("notes.".as_bytes()));
    assert!(!is_markdown_path("".as_bytes()));
}

#[test]
fn loads_utf8_document_and_strips_bom() {
    let document = build_document(b"/tmp/md-viewer-test.md",
        None,
        "\u{feff}# Überschrift\n\nText\n".to_string(),
    );
    assert_eq!(document.content, "# Überschrift\n\nText\n");
    assert_eq!(document.lines, 3);
    assert!(document
        .image_base_uri
        .as_deref()
        .unwrap()
        .starts_with("file:"));
}

#[test]
fn document_fields_follow_the_text() {
    let document = build_document(b"notes.md",
        Some(b"/home/user/docs/notes.md".to_vec()),
        "a\r\nb\nlast".to_string(),
    );
    assert_eq!(document.path, b"/home/user/docs/notes.md".to_vec());
    assert_eq!(document.bytes, 9);
    assert_eq!(document.lines, 3);
    assert_eq!(
        document.image_base_uri.as_deref(),
        Some("file:///home/user/docs/")
    );
    assert_eq!(document.title(), "notes.md");
    assert_eq!(document.display_path(), "/home/user/docs/notes.md");

    let relative = build_document(b"notes.md", None, String::new());
    assert_eq!(relative.path, b"notes.md".to_vec());
    assert_eq!(relative.lines, 0);
    assert_eq!(relative.bytes, 0);
    assert_eq!(relative.image_base_uri, None);

    let only_one_bom = build_document(b"/a.md", None, "\u{feff}\u{feff}x".to_string());
    assert_eq!(only_one_bom.content, "\u{feff}x");
    assert_eq!(only_one_bom.bytes, 4);

    let wide = build_document(b"/a.md", None, "é€😀\n\n".to_string());
    assert_eq!(wide.bytes, 2 + 3 + 4 + 2);
    assert_eq!(wide.lines, 2);
}

#[test]
fn title_falls_back_to_markdown() {
    let document = Document {
        path: b"/".to_vec(),
        content: String::new(),
        bytes: 0,
        lines: 0,
        image_base_uri: None,
    };
    assert_eq!(document.title(), "Markdown");
    let parent = Document {
        path: b"docs/..".to_vec(),
        ..document.clone()
    };
    assert_eq!(parent.title(), "Markdown");
}

#[test]
fn refusal_messages() {
    assert_eq!(
        check_markdown_path(b"notes.txt").unwrap_err(),
        "Not a Markdown file: notes.txt"
    );
    assert!(check_markdown_path(b"notes.md").is_ok());
    assert_eq!(
        check_metadata(b"dir.md", false, 0).unwrap_err(),
        "Not a regular file: dir.md"
    );
    assert_eq!(
        check_metadata(b"big.md", true, MAX_DOCUMENT_BYTES + 1).unwrap_err(),
        "Markdown file is larger than the 64 MiB safety limit: big.md"
    );
    assert!(check_metadata(b"full.md", true, MAX_DOCUMENT_BYTES).is_ok());
    assert_eq!(
        access_error_message(b"x.md", "No such file"),
        "Cannot access x.md: No such file"
    );
    assert_eq!(
        read_error_message(b"x.md", "stream did not contain valid UTF-8"),
        "Cannot read x.md as UTF-8 text: stream did not contain valid UTF-8"
    );
}

#[test]
fn formats_sizes() {
    assert_eq!(human_size(12), "12 B");
    assert_eq!(human_size(1536), "1.5 KiB");
    assert_eq!(human_size(2 * 1024 * 1024), "2.0 MiB");
}

#[test]
fn size_edges() {
    assert_eq!(human_size(0), "0 B");
    assert_eq!(human_size(1023), "1023 B");
    assert_eq!(human_size(1024), "1.0 KiB");
    assert_eq!(human_size(1280), "1.2 KiB");
    assert_eq!(human_size(1048575), "1024.0 KiB");
    assert_eq!(human_size(64 * 1024 * 1024), "64.0 MiB");
}

fn float_reference(bytes: usize) -> String {
    if bytes < 1024 {
        format!("{bytes} B")
    } else if bytes < 1024 * 1024 {
        format!("{:.1} KiB", bytes as f64 / 1024.0)
    } else {
        format!("{:.1} MiB", bytes as f64 / (1024.0 * 1024.0))
    }
}

#[test]
fn sizes_agree_with_float_formatting() {
    let mut values: Vec<usize> = Vec::new();
    for n in 0..5000usize {
        values.push(n);
        values.push(1024 * 1024 - 2500 + n);
        values.push(n * 52429);
        values.push(n * 104857 + 7);
    }
    for k in [0usize, 1, 2, 5, 100, 3000] {
        values.push((1usize << 53) + k);
        values.push((1usize << 53) - k);
        values.push(usize::MAX - k);
        values.push((1usize << 60) + k * 1024);
    }
    for n in values {
        assert_eq!(human_size(n), float_reference(n), "size {n}");
    }
}

#[test]
fn loading_steps() {
    match load_step(b"notes.txt", None, None, None) {
        LoadNext::Finish(Err(message)) => assert_eq!(message, "Not a Markdown file: notes.txt"),
        other => panic!("unexpected step {other:?}"),
    }
    assert!(matches!(load_step(b"notes.md", None, None, None), LoadNext::ReadMetadata));
    match load_step(b"notes.md", Some(Err("gone".to_string())), None, None) {
        LoadNext::Finish(Err(message)) => assert_eq!(message, "Cannot access notes.md: gone"),
        other => panic!("unexpected step {other:?}"),
    }
    match load_step(b"notes.md", Some(Ok((false, 0))), None, None) {
        LoadNext::Finish(Err(message)) => assert_eq!(message, "Not a regular file: notes.md"),
        other => panic!("unexpected step {other:?}"),
    }
    match load_step(b"big.md", Some(Ok((true, MAX_DOCUMENT_BYTES + 1))), None, None) {
        LoadNext::Finish(Err(message)) => assert_eq!(
            message,
            "Markdown file is larger than the 64 MiB safety limit: big.md"
        ),
        other => panic!("unexpected step {other:?}"),
    }
    assert!(matches!(
        load_step(b"notes.md", Some(Ok((true, 12))), None, None),
        LoadNext::ReadText
    ));
    match load_step(b"notes.md",
        Some(Ok((true, 3))),
        Some(Err("stream did not contain valid UTF-8".to_string())),
        None,
    ) {
        LoadNext::Finish(Err(message)) => assert_eq!(
            message,
            "Cannot read notes.md as UTF-8 text: stream did not contain valid UTF-8"
        ),
        other => panic!("unexpected step {other:?}"),
    }
    match load_step(b"notes.md",
        Some(Ok((true, 9))),
        Some(Ok("\u{feff}# T\n".to_string())),
        Some(b"/docs/notes.md".to_vec()),
    ) {
        LoadNext::Finish(Ok(document)) => {
            assert_eq!(document.path, b"/docs/notes.md".to_vec());
            assert_eq!(document.content, "# T\n");
            assert_eq!(document.bytes, 4);
            assert_eq!(document.lines, 1);
            assert_eq!(document.image_base_uri.as_deref(), Some("file:///docs/"));
        }
        other => panic!("unexpected step {other:?}"),
    }
}

#[test]
fn file_names_agree_with_std_path() {
    let parts = [
        "", "/", "//", ".", "..", "a", "b.md", ".md", "..md", "c.", "d.e.MD", "é.mkd", "./", "/.",
    ];
    let mut paths: Vec<String> = Vec::new();
    for first in parts {
        for second in parts {
            for third in ["", "/", "/.", "/..", "/x.md", "//", "/./", "./"] {
                paths.push(format!("{first}{second}{third}"));
                paths.push(format!("{first}/{second}{third}"));
            }
        }
    }
    for path in paths {
        let std_path = Path::new(&path);
        let name = std_path
            .file_name()
            .map(|name| name.to_str().unwrap().as_bytes().to_vec());
        let extension = std_path
            .extension()
            .map(|extension| extension.to_str().unwrap().as_bytes().to_vec());
        let parent = std_path
            .parent()
            .map(|parent| parent.to_str().unwrap().as_bytes().to_vec());
        assert_eq!(file_name_of(path.as_bytes()), name, "file name of {path:?}");
        assert_eq!(extension_of(path.as_bytes()), extension, "extension of {path:?}");
        assert_eq!(parent_of(path.as_bytes()), parent, "parent of {path:?}");
    }
}

#[test]
fn paths_that_are_not_utf8() {
    let name = vec![b'/', b'd', 0xff, b'/', b'n', 0xfe, b'.', b'm', b'd'];
    assert!(is_markdown_path(&name));
    assert!(!is_markdown_path(&[b'n', b'.', b'm', 0xff]));
    let document = build_document(&name, None, "x".to_string());
    assert_eq!(document.path, name);
    assert_eq!(document.title(), "n\u{fffd}.md");
    assert_eq!(document.display_path(), "/d\u{fffd}/n\u{fffd}.md");
    assert_eq!(document.image_base_uri, None);
    assert_eq!(
        check_markdown_path(&[b'n', 0xff, b'.', b't']).unwrap_err(),
        "Not a Markdown file: n\u{fffd}.t"
    );
}
