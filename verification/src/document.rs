//! Markdown documents: which paths are accepted, which files are refused,
//! how a loaded text becomes a `Document`, and how its size is shown.

use vstd::prelude::*;
use vstd::slice::slice_to_vec;
use vstd::utf8::{decode_utf8, encode_utf8, valid_utf8};
use crate::paths::{
    directory_url, directory_url_of, extension_of, file_name_of, parent_of, path_extension,
    dot, lemma_file_name_of_last_component, path_file_name, path_parent, slash,
};
use crate::size::{human_size_text, nearest_f64_value, round_div_half_even, tenths_text};
use crate::text::{
    ascii_lower_code, count_lines, lossy_text, utf8_lossy, utf8_text, decimal, digit_char, eq_ignore_ascii_case, line_count, push_decimal,
    text_eq_ignore_ascii_case,
};

verus! {

/// The largest file, in bytes, that is opened (64 MiB).
pub const MAX_DOCUMENT_BYTES: u64 = 64 * 1024 * 1024;

/// A Markdown file that was read: where it is (the bytes of its path), its
/// text (without a leading byte order mark), its size in bytes and lines, and the `file:` URL of its
/// directory, against which relative image links are resolved.
#[derive(Debug, Clone)]
pub struct Document {
    pub path: Vec<u8>,
    pub content: String,
    pub bytes: usize,
    pub lines: usize,
    pub image_base_uri: Option<String>,
}

/// The window title of a document at `path`: its file name as text
/// (invalid UTF-8 replaced), or `Markdown` where the path has none.
pub open spec fn title_text(path: Seq<u8>) -> Seq<char> {
    match path_file_name(path) {
        Some(name) => utf8_lossy(name),
        None => "Markdown"@,
    }
}

impl Document {
    /// The file name of the document, or `Markdown` if its path has none.
    pub fn title(&self) -> (r: String)
        ensures
            r@ == title_text(self.path@),
    {
        match file_name_of(self.path.as_slice()) {
            Some(name) => {
                assert(name.deep_view() =~= name@);
                lossy_text(name.as_slice())
            },
            None => String::from_str("Markdown"),
        }
    }

    /// The path of the document as text (invalid UTF-8 replaced).
    pub fn display_path(&self) -> (r: String)
        ensures
            r@ == utf8_lossy(self.path@),
    {
        lossy_text(self.path.as_slice())
    }
}

/// The extensions under which a file is taken for Markdown.
pub open spec fn markdown_extension_names() -> Seq<Seq<char>> {
    seq!["md"@, "markdown"@, "mdown"@, "mkd"@]
}

/// An extension is a Markdown extension when it matches one of
/// `md`, `markdown`, `mdown` or `mkd` without regard to ASCII case.
pub open spec fn is_markdown_extension(extension: Seq<char>) -> bool {
    exists|i: int|
        0 <= i < markdown_extension_names().len() && eq_ignore_ascii_case(
            extension,
            #[trigger] markdown_extension_names()[i],
        )
}

/// A path names a Markdown file when its extension is valid UTF-8 and, as
/// text, a Markdown extension.
pub open spec fn is_markdown(path: Seq<u8>) -> bool {
    match path_extension(path) {
        Some(extension) => valid_utf8(extension) && is_markdown_extension(decode_utf8(extension)),
        None => false,
    }
}

/// The extensions that the file dialog offers and that `is_markdown_path`
/// accepts.
pub fn markdown_extensions() -> (r: Vec<&'static str>)
    ensures
        r@.len() == markdown_extension_names().len(),
        forall|i: int| 0 <= i < r@.len() ==> #[trigger] r@[i]@ == markdown_extension_names()[i],
{
    vec!["md", "markdown", "mdown", "mkd"]
}

/// Whether `path` has one of the Markdown extensions, in any ASCII case.
pub fn is_markdown_path(path: &[u8]) -> (r: bool)
    ensures
        r == is_markdown(path@),
{
    let extension_bytes = match extension_of(path) {
        Some(extension_bytes) => extension_bytes,
        None => return false,
    };
    assert(extension_bytes.deep_view() =~= extension_bytes@);
    let extension = match utf8_text(extension_bytes.as_slice()) {
        Some(extension) => extension,
        None => return false,
    };
    let allowed = markdown_extensions();
    let mut i: usize = 0;
    while i < allowed.len()
        invariant
            allowed@.len() == markdown_extension_names().len(),
            forall|j: int| 0 <= j < allowed@.len() ==> #[trigger] allowed@[j]@ == markdown_extension_names()[j],
            i <= allowed@.len(),
            path_extension(path@) == Some(extension_bytes@),
            valid_utf8(extension_bytes@),
            extension@ == decode_utf8(extension_bytes@),
            forall|j: int| 0 <= j < i ==> !eq_ignore_ascii_case(extension@, #[trigger] markdown_extension_names()[j]),
        decreases allowed.len() - i,
    {
        if text_eq_ignore_ascii_case(extension.as_str(), allowed[i]) {
            return true;
        }
        i = i + 1;
    }
    false
}

/// The message for a path without a Markdown extension.
pub open spec fn not_markdown_message(path: Seq<u8>) -> Seq<char> {
    "Not a Markdown file: "@ + utf8_lossy(path)
}

/// The message for a path that is not a regular file.
pub open spec fn not_regular_file_message(path: Seq<u8>) -> Seq<char> {
    "Not a regular file: "@ + utf8_lossy(path)
}

/// The message for a file above `MAX_DOCUMENT_BYTES`.
pub open spec fn too_large_message(path: Seq<u8>) -> Seq<char> {
    "Markdown file is larger than the 64 MiB safety limit: "@ + utf8_lossy(path)
}

fn message_with_path(prefix: &str, path: &[u8]) -> (r: String)
    ensures
        r@ == prefix@ + utf8_lossy(path@),
{
    let mut message = String::from_str(prefix);
    let shown = lossy_text(path);
    message.append(shown.as_str());
    message
}

/// The first test of a path to open, made before the file is touched:
/// only paths with a Markdown extension are opened.
pub fn check_markdown_path(path: &[u8]) -> (r: Result<(), String>)
    ensures
        r is Ok <==> is_markdown(path@),
        r matches Err(message) ==> message@ == not_markdown_message(path@),
{
    if is_markdown_path(path) {
        Ok(())
    } else {
        Err(message_with_path("Not a Markdown file: ", path))
    }
}

/// The test of what the file system says of the path: it must be a
/// regular file of at most `MAX_DOCUMENT_BYTES` bytes.
pub fn check_metadata(path: &[u8], is_file: bool, len: u64) -> (r: Result<(), String>)
    ensures
        r is Ok <==> is_file && len <= MAX_DOCUMENT_BYTES,
        r matches Err(message) ==> message@ == if !is_file {
            not_regular_file_message(path@)
        } else {
            too_large_message(path@)
        },
{
    if !is_file {
        Err(message_with_path("Not a regular file: ", path))
    } else if len > MAX_DOCUMENT_BYTES {
        Err(message_with_path("Markdown file is larger than the 64 MiB safety limit: ", path))
    } else {
        Ok(())
    }
}

/// The message for a path whose metadata cannot be read.
pub open spec fn access_error_text(path: Seq<u8>, detail: Seq<char>) -> Seq<char> {
    "Cannot access "@ + utf8_lossy(path) + ": "@ + detail
}

/// The message for a file that cannot be read as UTF-8 text.
pub open spec fn read_error_text(path: Seq<u8>, detail: Seq<char>) -> Seq<char> {
    "Cannot read "@ + utf8_lossy(path) + " as UTF-8 text: "@ + detail
}

/// The message for a path whose metadata cannot be read; `detail` is what
/// the file system reported.
pub fn access_error_message(path: &[u8], detail: &str) -> (r: String)
    ensures
        r@ == access_error_text(path@, detail@),
{
    let mut message = message_with_path("Cannot access ", path);
    message.append(": ");
    message.append(detail);
    message
}

/// The message for a file that cannot be read as UTF-8 text; `detail` is
/// what the file system reported.
pub fn read_error_message(path: &[u8], detail: &str) -> (r: String)
    ensures
        r@ == read_error_text(path@, detail@),
{
    let mut message = message_with_path("Cannot read ", path);
    message.append(" as UTF-8 text: ");
    message.append(detail);
    message
}

/// `text` without a leading byte order mark (U+FEFF), if it has one.
pub open spec fn without_bom(text: Seq<char>) -> Seq<char> {
    if text.len() > 0 && text[0] == '\u{feff}' {
        text.drop_first()
    } else {
        text
    }
}

/// The `file:` URL of the directory that holds `path`, if there is one
/// and its path is valid UTF-8 (`url` is given the directory as text).
pub open spec fn image_base_of(path: Seq<u8>) -> Option<Seq<char>> {
    match path_parent(path) {
        Some(parent) => if valid_utf8(parent) {
            directory_url(decode_utf8(parent))
        } else {
            None
        },
        None => None,
    }
}

/// `d` is the document made of the text `raw` of the file at `supplied`,
/// whose canonical path is `canonical` where one was found.
pub open spec fn built_from(d: Document, supplied: Seq<u8>, canonical: Option<Seq<u8>>, raw: Seq<char>) -> bool {
    &&& d.path@ == match canonical {
        Some(p) => p,
        None => supplied,
    }
    &&& d.content@ == without_bom(raw)
    &&& d.bytes == encode_utf8(d.content@).len() as usize
    &&& d.lines == line_count(d.content@)
    &&& d.image_base_uri.deep_view() == image_base_of(d.path@)
}

/// The document made of a file's text once it was read. Its path is the
/// canonical path where one was found, else the path as given; its text
/// loses one leading byte order mark; its size, line count and image base
/// URL are those of that path and text.
pub fn build_document(supplied_path: &[u8], canonical_path: Option<Vec<u8>>, raw_content: String) -> (d: Document)
    ensures
        built_from(d, supplied_path@, canonical_path.deep_view(), raw_content@),
{
    let path = match canonical_path {
        Some(p) => {
            assert(p.deep_view() =~= p@);
            p
        },
        None => slice_to_vec(supplied_path),
    };
    let raw = raw_content.as_str();
    let n = raw.unicode_len();
    let content = if n > 0 && raw.get_char(0) == '\u{feff}' {
        let rest = raw.substring_char(1, n);
        assert(rest@ =~= raw_content@.drop_first());
        rest.to_owned()
    } else {
        raw_content.clone()
    };
    let image_base_uri = match parent_of(path.as_slice()) {
        Some(parent) => {
            assert(parent.deep_view() =~= parent@);
            match utf8_text(parent.as_slice()) {
                Some(directory) => directory_url_of(directory.as_str()),
                None => None,
            }
        },
        None => None,
    };
    let bytes = content.as_str().len();
    let lines = count_lines(content.as_str());
    Document { path, content, bytes, lines, image_base_uri }
}

/// The next thing to do while a document is loaded.
#[derive(Debug)]
pub enum LoadNext {
    /// Ask the file system whether the path is a regular file, and its length.
    ReadMetadata,
    /// Read the file as UTF-8 text and find its canonical path.
    ReadText,
    /// Stop with this document or this message.
    Finish(Result<Document, String>),
}

/// Where loading stands, given what was learnt so far.
pub enum LoadStage {
    ReadMetadata,
    ReadText,
    Refused(Seq<char>),
    Loaded { text: Seq<char>, canonical: Option<Seq<u8>> },
}

/// What the file system said of a path: whether it is a regular file and
/// its length in bytes, or the error it reported.
pub open spec fn metadata_view(metadata: Option<Result<(bool, u64), String>>) -> Option<Result<(bool, u64), Seq<char>>> {
    match metadata {
        Some(Ok(facts)) => Some(Ok(facts)),
        Some(Err(detail)) => Some(Err(detail@)),
        None => None,
    }
}

/// What reading the file gave: its text, or the error reported.
pub open spec fn text_view(text: Option<Result<String, String>>) -> Option<Result<Seq<char>, Seq<char>>> {
    match text {
        Some(Ok(t)) => Some(Ok(t@)),
        Some(Err(detail)) => Some(Err(detail@)),
        None => None,
    }
}

/// Loading a path: first its extension is tested, before the file system
/// is asked anything; then the metadata must say a regular file of at most
/// `MAX_DOCUMENT_BYTES` bytes; then the file must read as UTF-8 text. The
/// first test that fails gives the message; `None` means "not asked yet".
pub open spec fn load_stage(
    path: Seq<u8>,
    metadata: Option<Result<(bool, u64), Seq<char>>>,
    text: Option<Result<Seq<char>, Seq<char>>>,
    canonical: Option<Seq<u8>>,
) -> LoadStage {
    if !is_markdown(path) {
        LoadStage::Refused(not_markdown_message(path))
    } else {
        match metadata {
            None => LoadStage::ReadMetadata,
            Some(Err(detail)) => LoadStage::Refused(access_error_text(path, detail)),
            Some(Ok((is_file, len))) => if !is_file {
                LoadStage::Refused(not_regular_file_message(path))
            } else if len > MAX_DOCUMENT_BYTES {
                LoadStage::Refused(too_large_message(path))
            } else {
                match text {
                    None => LoadStage::ReadText,
                    Some(Err(detail)) => LoadStage::Refused(read_error_text(path, detail)),
                    Some(Ok(t)) => LoadStage::Loaded { text: t, canonical },
                }
            },
        }
    }
}

/// Decides the next step of loading the file at `path`, given the answers
/// of the file system so far (`None` for a question not asked yet) and the
/// canonical path found when the text was read.
pub fn load_step(
    path: &[u8],
    metadata: Option<Result<(bool, u64), String>>,
    text: Option<Result<String, String>>,
    canonical: Option<Vec<u8>>,
) -> (r: LoadNext)
    ensures
        match r {
            LoadNext::ReadMetadata => load_stage(path@, metadata_view(metadata), text_view(text), canonical.deep_view())
                == LoadStage::ReadMetadata,
            LoadNext::ReadText => load_stage(path@, metadata_view(metadata), text_view(text), canonical.deep_view())
                == LoadStage::ReadText,
            LoadNext::Finish(Err(message)) => load_stage(
                path@,
                metadata_view(metadata),
                text_view(text),
                canonical.deep_view(),
            ) == LoadStage::Refused(message@),
            LoadNext::Finish(Ok(d)) => load_stage(path@, metadata_view(metadata), text_view(text), canonical.deep_view())
                matches LoadStage::Loaded { text: t, canonical: c } && built_from(d, path@, c, t),
        },
{
    if let Err(message) = check_markdown_path(path) {
        return LoadNext::Finish(Err(message));
    }
    let (is_file, len) = match metadata {
        None => return LoadNext::ReadMetadata,
        Some(Err(detail)) => return LoadNext::Finish(Err(access_error_message(path, detail.as_str()))),
        Some(Ok(facts)) => facts,
    };
    if let Err(message) = check_metadata(path, is_file, len) {
        return LoadNext::Finish(Err(message));
    }
    match text {
        None => LoadNext::ReadText,
        Some(Err(detail)) => LoadNext::Finish(Err(read_error_message(path, detail.as_str()))),
        Some(Ok(t)) => LoadNext::Finish(Ok(build_document(path, canonical, t))),
    }
}

/// The extension is tested first: a path without a Markdown extension is
/// refused whatever the file system would say, so it is never asked.
pub proof fn law_extension_tested_first(
    path: Seq<u8>,
    metadata: Option<Result<(bool, u64), Seq<char>>>,
    text: Option<Result<Seq<char>, Seq<char>>>,
    canonical: Option<Seq<u8>>,
)
    requires
        !is_markdown(path),
    ensures
        load_stage(path, metadata, text, canonical) == LoadStage::Refused(not_markdown_message(path)),
{
}

/// A document is loaded only when every test passed: a Markdown extension,
/// a regular file of at most `MAX_DOCUMENT_BYTES` bytes, and UTF-8 text.
pub proof fn law_loaded_only_after_every_test(
    path: Seq<u8>,
    metadata: Option<Result<(bool, u64), Seq<char>>>,
    text: Option<Result<Seq<char>, Seq<char>>>,
    canonical: Option<Seq<u8>>,
)
    requires
        load_stage(path, metadata, text, canonical) is Loaded,
    ensures
        is_markdown(path),
        metadata matches Some(Ok((is_file, len))) && is_file && len <= MAX_DOCUMENT_BYTES,
        text matches Some(Ok(_)),
{
}

proof fn lemma_without_bom_not_longer(text: Seq<char>)
    ensures
        encode_utf8(without_bom(text)).len() <= encode_utf8(text).len(),
{
}

/// A loaded document counts its bytes and lines from its text, and, when
/// the text read is no longer than the length the file system reported, it
/// is within `MAX_DOCUMENT_BYTES`. (A file that grows between the two
/// questions can give a longer text.)
pub proof fn law_loaded_document(path: Seq<u8>, len: u64, text: Seq<char>, canonical: Option<Seq<u8>>, d: Document)
    requires
        load_stage(path, Some(Ok((true, len))), Some(Ok(text)), canonical) is Loaded,
        built_from(d, path, canonical, text),
        encode_utf8(text).len() <= len,
    ensures
        is_markdown(path),
        d.bytes as nat == encode_utf8(d.content@).len(),
        d.bytes <= MAX_DOCUMENT_BYTES,
        d.lines == line_count(d.content@),
{
    lemma_without_bom_not_longer(text);
}

/// The size in bytes for people to read: `12 B`, `1.5 KiB`, `2.0 MiB`.
pub fn human_size(bytes: usize) -> (r: String)
    ensures
        r@ == human_size_text(bytes as nat),
{
    let n = bytes as u64;
    let mut out = String::new();
    if n < 1024 {
        push_decimal(&mut out, n);
        out.append(" B");
        proof { reveal_strlit(" B"); }
        assert(out@ =~= human_size_text(bytes as nat));
        return out;
    }
    let tenths = if n < 1048576 {
        round_div_half_even(10 * (n as u128), 1024)
    } else {
        round_div_half_even(10 * nearest_f64_value(n), 1048576)
    };
    assert(tenths / 10 < 0x1_0000_0000_0000_0000);
    push_decimal(&mut out, (tenths / 10) as u64);
    out.append(".");
    push_decimal(&mut out, (tenths % 10) as u64);
    if n < 1048576 {
        out.append(" KiB");
    } else {
        out.append(" MiB");
    }
    proof {
        reveal_strlit(".");
        reveal_strlit(" KiB");
        reveal_strlit(" MiB");
        assert(decimal((tenths % 10) as nat) == seq![digit_char((tenths % 10) as nat)]);
        assert(tenths_text(tenths as nat) =~= decimal((tenths / 10) as nat) + seq!['.'] + decimal((tenths % 10) as nat));
    }
    assert(out@ =~= human_size_text(bytes as nat));
    out
}

/// Extensions are told apart without regard to ASCII case: two extensions
/// that match that way are both Markdown extensions or both not.
pub proof fn law_extension_case_insensitive(a: Seq<char>, b: Seq<char>)
    requires
        eq_ignore_ascii_case(a, b),
    ensures
        is_markdown_extension(a) == is_markdown_extension(b),
{
    if is_markdown_extension(a) {
        let i = choose|i: int|
            0 <= i < markdown_extension_names().len() && eq_ignore_ascii_case(
                a,
                #[trigger] markdown_extension_names()[i],
            );
        let k = markdown_extension_names()[i];
        assert forall|j: int| 0 <= j < b.len() implies #[trigger] ascii_lower_code(b[j]) == ascii_lower_code(k[j]) by {
            assert(ascii_lower_code(a[j]) == ascii_lower_code(b[j]));
            assert(ascii_lower_code(a[j]) == ascii_lower_code(k[j]));
        }
        assert(eq_ignore_ascii_case(b, k));
    }
    if is_markdown_extension(b) {
        let i = choose|i: int|
            0 <= i < markdown_extension_names().len() && eq_ignore_ascii_case(
                b,
                #[trigger] markdown_extension_names()[i],
            );
        let k = markdown_extension_names()[i];
        assert forall|j: int| 0 <= j < a.len() implies #[trigger] ascii_lower_code(a[j]) == ascii_lower_code(k[j]) by {
            assert(ascii_lower_code(a[j]) == ascii_lower_code(b[j]));
            assert(ascii_lower_code(b[j]) == ascii_lower_code(k[j]));
        }
        assert(eq_ignore_ascii_case(a, k));
    }
}

/// A leading byte order mark is all that is removed from a text: the text
/// is the mark followed by what is kept, or is kept whole.
pub proof fn law_bom_removed_once(text: Seq<char>)
    ensures
        text.len() > 0 && text[0] == '\u{feff}' ==> seq!['\u{feff}'] + without_bom(text) == text,
        !(text.len() > 0 && text[0] == '\u{feff}') ==> without_bom(text) == text,
{
    if text.len() > 0 && text[0] == '\u{feff}' {
        assert(seq!['\u{feff}'] + text.drop_first() =~= text);
    }
}

/// Only the last component of a path decides whether it names a Markdown
/// file: a file name behind any directory is judged as the name alone.
pub proof fn law_only_last_component_counts(dir: Seq<u8>, name: Seq<u8>)
    requires
        name.len() > 0,
        forall|j: int| 0 <= j < name.len() ==> name[j] != slash(),
        name != seq![dot()],
        name != seq![dot(), dot()],
    ensures
        is_markdown(dir + seq![slash()] + name) == is_markdown(name),
        title_text(dir + seq![slash()] + name) == utf8_lossy(name),
{
    lemma_file_name_of_last_component(dir, name);
}


/// Once a path has a Markdown extension, the file system is asked for its
/// metadata; a regular file of at most 64 MiB (67108864 bytes) is then read,
/// whatever its size below that limit, and the text read is what is loaded.
/// A larger file, or one that is not a regular file, is refused with the
/// message for it, whatever the text would be.
pub proof fn law_files_within_the_limit_are_read(
    path: Seq<u8>,
    is_file: bool,
    len: u64,
    text: Option<Result<Seq<char>, Seq<char>>>,
    canonical: Option<Seq<u8>>,
)
    requires
        is_markdown(path),
    ensures
        load_stage(path, None, text, canonical) == LoadStage::ReadMetadata,
        is_file && len <= 67108864 ==> load_stage(path, Some(Ok((is_file, len))), None, canonical)
            == LoadStage::ReadText,
        is_file && len <= 67108864 ==> (text matches Some(Ok(t)) ==> load_stage(
            path,
            Some(Ok((is_file, len))),
            text,
            canonical,
        ) == (LoadStage::Loaded { text: t, canonical })),
        is_file && len > 67108864 ==> load_stage(path, Some(Ok((is_file, len))), text, canonical)
            == LoadStage::Refused(too_large_message(path)),
        !is_file ==> load_stage(path, Some(Ok((is_file, len))), text, canonical)
            == LoadStage::Refused(not_regular_file_message(path)),
{
}

/// Each refusal names the path, as text, at its end, after a phrase that
/// does not depend on the path.
pub proof fn law_refusals_name_the_path(a: Seq<u8>, b: Seq<u8>)
    ensures
        not_markdown_message(a).subrange(0, not_markdown_message(a).len() - utf8_lossy(a).len())
            == not_markdown_message(b).subrange(0, not_markdown_message(b).len() - utf8_lossy(b).len()),
        not_markdown_message(a).subrange(not_markdown_message(a).len() - utf8_lossy(a).len(), not_markdown_message(a).len() as int)
            == utf8_lossy(a),
        not_regular_file_message(a).subrange(0, not_regular_file_message(a).len() - utf8_lossy(a).len())
            == not_regular_file_message(b).subrange(0, not_regular_file_message(b).len() - utf8_lossy(b).len()),
        not_regular_file_message(a).subrange(not_regular_file_message(a).len() - utf8_lossy(a).len(), not_regular_file_message(a).len() as int)
            == utf8_lossy(a),
        too_large_message(a).subrange(0, too_large_message(a).len() - utf8_lossy(a).len())
            == too_large_message(b).subrange(0, too_large_message(b).len() - utf8_lossy(b).len()),
        too_large_message(a).subrange(too_large_message(a).len() - utf8_lossy(a).len(), too_large_message(a).len() as int)
            == utf8_lossy(a),
{
    let p1 = "Not a Markdown file: "@;
    let p2 = "Not a regular file: "@;
    let p3 = "Markdown file is larger than the 64 MiB safety limit: "@;
    assert((p1 + utf8_lossy(a)).subrange(0, p1.len() as int) =~= p1);
    assert((p1 + utf8_lossy(b)).subrange(0, p1.len() as int) =~= p1);
    assert((p1 + utf8_lossy(a)).subrange(p1.len() as int, (p1 + utf8_lossy(a)).len() as int) =~= utf8_lossy(a));
    assert((p2 + utf8_lossy(a)).subrange(0, p2.len() as int) =~= p2);
    assert((p2 + utf8_lossy(b)).subrange(0, p2.len() as int) =~= p2);
    assert((p2 + utf8_lossy(a)).subrange(p2.len() as int, (p2 + utf8_lossy(a)).len() as int) =~= utf8_lossy(a));
    assert((p3 + utf8_lossy(a)).subrange(0, p3.len() as int) =~= p3);
    assert((p3 + utf8_lossy(b)).subrange(0, p3.len() as int) =~= p3);
    assert((p3 + utf8_lossy(a)).subrange(p3.len() as int, (p3 + utf8_lossy(a)).len() as int) =~= utf8_lossy(a));
}


/// A failure of the file system is reported with what it said: a failed
/// metadata read before anything else is read, and a failed text read of a
/// regular file within the limit.
pub proof fn law_file_system_errors_are_reported(path: Seq<u8>, len: u64, detail: Seq<char>, canonical: Option<Seq<u8>>)
    requires
        is_markdown(path),
        len <= 67108864,
    ensures
        load_stage(path, Some(Err(detail)), None, canonical) == LoadStage::Refused(access_error_text(path, detail)),
        load_stage(path, Some(Ok((true, len))), Some(Err(detail)), canonical) == LoadStage::Refused(
            read_error_text(path, detail),
        ),
{
}

} // verus!
