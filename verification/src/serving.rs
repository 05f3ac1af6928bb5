//! What a server decides about the files of the host that it hands out while
//! the host is being worked on: which files it holds, as what it hands each
//! out, and which it reads again when they change.

use vstd::prelude::*;
use vstd::string::{StrSliceExecFns, StringExecFns};
use vstd::utf8::encode_utf8;

verus! {

/// What a file holds: text, or bytes.
#[derive(Clone, Debug)]
pub enum FileType {
    Text(String),
    Bin(Vec<u8>),
}

/// What is said in place of the text of a file that holds bytes.
pub open spec fn no_text() -> Seq<char> {
    "ERROR. FILE IS BINARY."@
}

impl FileType {
    /// What the file holds, as text.
    pub open spec fn spec_text(self) -> Seq<char> {
        match self {
            FileType::Text(value) => value@,
            FileType::Bin(_) => no_text(),
        }
    }

    /// What the file holds, as bytes: a text is its bytes in UTF-8.
    pub open spec fn spec_bin(self) -> Seq<u8> {
        match self {
            FileType::Text(value) => encode_utf8(value@),
            FileType::Bin(value) => value@,
        }
    }

    /// The text of the file. A file that holds bytes has none, and says so.
    pub fn text(self) -> (text: String)
        ensures
            text@ == self.spec_text(),
    {
        match self {
            FileType::Text(value) => value,
            FileType::Bin(_) => String::from_str("ERROR. FILE IS BINARY."),
        }
    }

    /// The bytes of the file.
    pub fn bin(self) -> (bytes: Vec<u8>)
        ensures
            bytes@ == self.spec_bin(),
    {
        match self {
            FileType::Bin(value) => value,
            FileType::Text(value) => value.as_str().as_bytes_vec(),
        }
    }
}

/// A file as it is handed out: a page, a drawing, or bytes of a kind that
/// is named.
#[derive(Debug)]
pub enum Served {
    Html(String),
    Svg(String),
    Data { content_type: &'static str, body: Vec<u8> },
}

/// The kind that is named for the bytes of a file, by the extension of its
/// name. Pages and drawings are not handed out as bytes.
pub open spec fn content_type(extension: Seq<char>) -> Seq<char> {
    if extension == "css"@ {
        "text/css; charset=utf-8"@
    } else if extension == "js"@ {
        "text/javascript; charset=utf-8"@
    } else if extension == "wasm"@ {
        "application/wasm"@
    } else {
        "application/octet-stream"@
    }
}

/// A file as it is handed out, by the extension of its name. A name
/// without extension is a page.
pub open spec fn served(extension: Seq<char>, data: FileType, out: Served) -> bool {
    if extension == ""@ || extension == "html"@ {
        out matches Served::Html(text) && text@ == data.spec_text()
    } else if extension == "svg"@ {
        out matches Served::Svg(text) && text@ == data.spec_text()
    } else {
        out matches Served::Data { content_type: kind, body } && kind@ == content_type(extension)
            && body@ == data.spec_bin()
    }
}

/// Whether two texts are the same.
fn same_text(a: &str, b: &str) -> (same: bool)
    ensures
        same == (a@ == b@),
{
    a.to_owned() == b.to_owned()
}

/// Hands a file out as what the extension of its name says it is.
pub fn response_from_url(extension: &str, data: FileType) -> (out: Served)
    ensures
        served(extension@, data, out),
{
    if same_text(extension, "") || same_text(extension, "html") {
        Served::Html(data.text())
    } else if same_text(extension, "svg") {
        Served::Svg(data.text())
    } else if same_text(extension, "css") {
        Served::Data { content_type: "text/css; charset=utf-8", body: data.bin() }
    } else if same_text(extension, "js") {
        Served::Data { content_type: "text/javascript; charset=utf-8", body: data.bin() }
    } else if same_text(extension, "wasm") {
        Served::Data { content_type: "application/wasm", body: data.bin() }
    } else {
        Served::Data { content_type: "application/octet-stream", body: data.bin() }
    }
}

/// The extensions of the files that are read again when they change.
pub open spec fn reloads(extension: Seq<char>) -> bool {
    ||| extension == ""@
    ||| extension == "html"@
    ||| extension == "js"@
    ||| extension == "css"@
    ||| extension == "svg"@
    ||| extension == "wasm"@
    ||| extension == "glsl"@
    ||| extension == "png"@
    ||| extension == "csv"@
    ||| extension == "ttf"@
}

/// Whether a file is read again. `modified` says that what happened to it
/// is a change of what it holds; `extension` is the extension of its name,
/// or nothing where what happened names no file.
pub fn must_reload_file(modified: bool, extension: Option<&str>) -> (reload: bool)
    ensures
        reload == (modified && match extension {
            Some(text) => reloads(text@),
            None => false,
        }),
{
    if !modified {
        return false;
    }
    match extension {
        Some(text) => {
            same_text(text, "") || same_text(text, "html") || same_text(text, "js") || same_text(
                text,
                "css",
            ) || same_text(text, "svg") || same_text(text, "wasm") || same_text(text, "glsl")
                || same_text(text, "png") || same_text(text, "csv") || same_text(text, "ttf")
        },
        None => false,
    }
}

/// `part` stands in `text` at place `i`.
pub open spec fn part_at(text: Seq<char>, part: Seq<char>, i: int) -> bool {
    0 <= i && i + part.len() <= text.len() && text.subrange(i, i + part.len()) == part
}

/// `part` stands somewhere in `text`.
pub open spec fn has_part(text: Seq<char>, part: Seq<char>) -> bool {
    exists|i: int| part_at(text, part, i)
}

fn stands_at(text: &str, part: &str, at: usize, length: usize, size: usize) -> (found: bool)
    requires
        length == part@.len(),
        size == text@.len(),
        at + length <= size,
    ensures
        found == part_at(text@, part@, at as int),
{
    let mut j: usize = 0;
    while j < length
        invariant
            j <= length == part@.len(),
            size == text@.len(),
            at + length <= size,
            forall|k: int| 0 <= k < j ==> text@[at + k] == part@[k],
        decreases length - j,
    {
        if text.get_char(at + j) != part.get_char(j) {
            assert(text@.subrange(at as int, at + length)[j as int] != part@[j as int]);
            return false;
        }
        j = j + 1;
    }
    assert(text@.subrange(at as int, at + length) =~= part@);
    true
}

/// Whether `part` stands somewhere in `text`.
pub fn contains_text(text: &str, part: &str) -> (found: bool)
    ensures
        found == has_part(text@, part@),
{
    let size: usize = text.unicode_len();
    let length: usize = part.unicode_len();
    if length > size {
        return false;
    }
    let last: usize = size - length;
    let mut i: usize = 0;
    while i < last
        invariant
            i <= last,
            last == size - length,
            size == text@.len(),
            length == part@.len(),
            forall|k: int| 0 <= k < i ==> !part_at(text@, part@, k),
        decreases last - i,
    {
        if stands_at(text, part, i, length, size) {
            return true;
        }
        i = i + 1;
    }
    stands_at(text, part, last, length, size)
}

/// A file that the server does not hold: one of a build, or one of the
/// sources.
pub open spec fn left_out(web_path: Seq<char>) -> bool {
    has_part(web_path, "/build/"@) || has_part(web_path, "src/"@)
}

/// Whether the server does not hold the file with the given path.
pub fn skipped(web_path: &str) -> (skip: bool)
    ensures
        skip == left_out(web_path@),
{
    contains_text(web_path, "/build/") || contains_text(web_path, "src/")
}

} // verus!
