//! The sendable encoder: wraps command results and file attachments into
//! backend-neutral messages, inferring a media type from the file extension.

use vstd::prelude::*;

use crate::backend::Sendable;
use crate::runner::CommandInfo;
use crate::text::str_eq;

verus! {

broadcast use vstd::string::group_string_axioms;

/// The media types the encoder can infer. Unknown extensions degrade to
/// plain text; there is no error path.
#[derive(Clone, Copy, Debug, PartialEq, Eq, Structural)]
pub enum MimeKind {
    ImagePng,
    ImageJpeg,
    ApplicationJson,
    TextCsv,
    TextPlain,
}

/// The standard name of each media type.
pub open spec fn mime_text(m: MimeKind) -> Seq<char> {
    match m {
        MimeKind::ImagePng => "image/png"@,
        MimeKind::ImageJpeg => "image/jpeg"@,
        MimeKind::ApplicationJson => "application/json"@,
        MimeKind::TextCsv => "text/csv"@,
        MimeKind::TextPlain => "text/plain"@,
    }
}

impl MimeKind {
    /// The media type's standard name, e.g. `"image/png"`.
    pub fn as_name(&self) -> (r: &'static str)
        ensures
            r@ == mime_text(*self),
    {
        match self {
            MimeKind::ImagePng => "image/png",
            MimeKind::ImageJpeg => "image/jpeg",
            MimeKind::ApplicationJson => "application/json",
            MimeKind::TextCsv => "text/csv",
            MimeKind::TextPlain => "text/plain",
        }
    }

    /// Whether the media type is an image type.
    pub fn is_image(&self) -> (r: bool)
        ensures
            r == (*self == MimeKind::ImagePng || *self == MimeKind::ImageJpeg),
    {
        match self {
            MimeKind::ImagePng => true,
            MimeKind::ImageJpeg => true,
            _ => false,
        }
    }
}

/// The media type inferred from a file extension: `png`, `jpg`/`jpeg`,
/// `json` and `csv` have fixed types; every other extension is plain text.
pub open spec fn spec_infer_mime(ext: Seq<char>) -> MimeKind {
    if ext == "png"@ {
        MimeKind::ImagePng
    } else if ext == "jpg"@ || ext == "jpeg"@ {
        MimeKind::ImageJpeg
    } else if ext == "json"@ {
        MimeKind::ApplicationJson
    } else if ext == "csv"@ {
        MimeKind::TextCsv
    } else {
        MimeKind::TextPlain
    }
}

/// Infers a media type from a file extension. Pure and total: every
/// extension outside the known five maps to plain text.
pub fn infer_mime(ext: &str) -> (r: MimeKind)
    ensures
        r == spec_infer_mime(ext@),
{
    proof {
        reveal_strlit("png");
        reveal_strlit("jpg");
        reveal_strlit("jpeg");
        reveal_strlit("json");
        reveal_strlit("csv");
        assert("png"@.len() == 3);
        assert("jpg"@.len() == 3);
        assert("jpeg"@.len() == 4);
        assert("json"@.len() == 4);
        assert("csv"@.len() == 3);
    }
    if str_eq(ext, "png") {
        MimeKind::ImagePng
    } else if str_eq(ext, "jpg") || str_eq(ext, "jpeg") {
        MimeKind::ImageJpeg
    } else if str_eq(ext, "json") {
        MimeKind::ApplicationJson
    } else if str_eq(ext, "csv") {
        MimeKind::TextCsv
    } else {
        MimeKind::TextPlain
    }
}

/// Position of the last `'.'` in `s`, or `-1` if there is none.
pub open spec fn last_dot(s: Seq<char>) -> int
    decreases s.len(),
{
    if s.len() == 0 {
        -1
    } else if s.last() == '.' {
        s.len() - 1
    } else {
        last_dot(s.drop_last())
    }
}

/// The extension a file name carries: what follows the last `'.'`, or the
/// whole name when it has no dot.
pub open spec fn extension_of(s: Seq<char>) -> Seq<char> {
    if last_dot(s) >= 0 {
        s.subrange(last_dot(s) + 1, s.len() as int)
    } else {
        s
    }
}

proof fn lemma_last_dot_bounds(s: Seq<char>)
    ensures
        -1 <= last_dot(s) < s.len(),
        last_dot(s) >= 0 ==> s[last_dot(s)] == '.',
        forall|j: int| last_dot(s) < j < s.len() ==> s[j] != '.',
    decreases s.len(),
{
    if s.len() == 0 {
    } else if s.last() == '.' {
    } else {
        lemma_last_dot_bounds(s.drop_last());
        assert forall|j: int| last_dot(s) < j < s.len() implies s[j] != '.' by {
            if j < s.len() - 1 {
                assert(s.drop_last()[j] != '.');
            }
        }
    }
}

proof fn lemma_last_dot_at(s: Seq<char>, d: int)
    requires
        0 <= d < s.len(),
        s[d] == '.',
        forall|j: int| d < j < s.len() ==> s[j] != '.',
    ensures
        last_dot(s) == d,
    decreases s.len(),
{
    if d == s.len() - 1 {
    } else {
        assert(s.last() != '.');
        assert(forall|j: int| d < j < s.drop_last().len() ==> s.drop_last()[j] != '.');
        lemma_last_dot_at(s.drop_last(), d);
    }
}

/// Extracts the file extension: the part after the last `'.'`, or the whole
/// name when there is no dot.
pub fn file_extension(name: &str) -> (r: &str)
    ensures
        r@ == extension_of(name@),
{
    let n = name.unicode_len();
    let mut i: usize = n;
    while i > 0
        invariant
            i <= n,
            n == name@.len(),
            forall|j: int| i <= j < n ==> name@[j] != '.',
        decreases i,
    {
        if name.get_char(i - 1) == '.' {
            proof {
                lemma_last_dot_at(name@, i - 1);
            }
            return name.substring_char(i, n);
        }
        i -= 1;
    }
    proof {
        lemma_last_dot_bounds(name@);
        assert(name@.subrange(0, n as int) =~= name@);
    }
    name.substring_char(0, n)
}

/// Wraps a command result for sending; the result is carried unchanged.
pub fn encode_result(info: CommandInfo) -> (r: Sendable)
    ensures
        r == Sendable::CommandInfo(info),
{
    Sendable::CommandInfo(info)
}

/// Wraps a plain text message for sending.
pub fn encode_text(text: String) -> (r: Sendable)
    ensures
        r == Sendable::Raw(text),
{
    Sendable::Raw(text)
}

/// Wraps a file attachment for sending: the media type is inferred from the
/// file name's extension; image types become an image message, everything
/// else a file message.
pub fn encode_attachment(name: String, data: Vec<u8>) -> (r: Sendable)
    ensures
        ({
            let m = spec_infer_mime(extension_of(name@));
            if m == MimeKind::ImagePng || m == MimeKind::ImageJpeg {
                r == Sendable::Image(m, name, data)
            } else {
                r == Sendable::File(m, name, data)
            }
        }),
{
    let ext = file_extension(name.as_str());
    let m = infer_mime(ext);
    if m.is_image() {
        Sendable::Image(m, name, data)
    } else {
        Sendable::File(m, name, data)
    }
}

} // verus!
