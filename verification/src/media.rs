//! Media bookkeeping: filename recovery from headers and links, MIME
//! normalization and sniffing, the size ceilings, and the per-attachment
//! delivery decisions. The downloads and uploads themselves are plumbing
//! outside the library.

use vstd::prelude::*;

use vstd::string::StringSliceAdditionalSpecFns;

use crate::text::push_char;
use crate::text::spec_starts_with;
use crate::text::string_eq_str;
use crate::text::str_eq;
use crate::text::trim;

verus! {

pub const MAX_SLACK_FILE_SIZE: usize = 8 * 1024 * 1024;

pub const MAX_MATRIX_FILE_SIZE: usize = 50 * 1024 * 1024;

/// One downloaded attachment, ready to re-upload.
#[derive(Debug, Clone, PartialEq, Eq)]
pub struct MediaInfo {
    pub data: Vec<u8>,
    pub content_type: String,
    pub filename: String,
    pub size: usize,
}

/// Whether a file fits under the Slack upload ceiling; the error carries the
/// user-facing explanation.
pub fn check_slack_file_size(size: usize) -> (r: Result<(), String>)
    ensures
        (size <= MAX_SLACK_FILE_SIZE) == (r is Ok),
{
    if size > MAX_SLACK_FILE_SIZE {
        let mut msg = "file too large for Slack: ".to_owned();
        let rendered = crate::text::usize_to_string(size);
        msg.append(rendered.as_str());
        msg.append(" bytes (max ");
        let ceiling = crate::text::usize_to_string(MAX_SLACK_FILE_SIZE);
        msg.append(ceiling.as_str());
        msg.append(" bytes)");
        Err(msg)
    } else {
        Ok(())
    }
}

/// The value without one wrapping pair of double quotes.
pub open spec fn spec_trim_wrapping_quotes(s: Seq<char>) -> Seq<char> {
    if s.len() >= 2 && s[0] == '"' && s[s.len() - 1] == '"' {
        s.subrange(1, s.len() - 1)
    } else {
        s
    }
}

pub fn trim_wrapping_quotes(value: &str) -> (r: String)
    ensures
        r@ == spec_trim_wrapping_quotes(value@),
{
    let n = value.unicode_len();
    if n >= 2 && value.get_char(0) == '"' && value.get_char(n - 1) == '"' {
        value.substring_char(1, n - 1).to_owned()
    } else {
        value.to_owned()
    }
}

/// The control characters a filename sheds.
pub open spec fn is_control_char(c: char) -> bool {
    (c as u32) < 0x20 || (0x7f <= (c as u32) && (c as u32) <= 0x9f)
}

fn is_control_char_exec(c: char) -> (r: bool)
    ensures
        r == is_control_char(c),
{
    (c as u32) < 0x20 || (0x7f <= (c as u32) && (c as u32) <= 0x9f)
}

pub open spec fn spec_remove_controls(s: Seq<char>) -> Seq<char>
    decreases s.len(),
{
    if s.len() == 0 {
        s
    } else if is_control_char(s[0]) {
        spec_remove_controls(s.drop_first())
    } else {
        seq![s[0]] + spec_remove_controls(s.drop_first())
    }
}

fn remove_controls(s: &str) -> (r: String)
    ensures
        r@ == spec_remove_controls(s@),
{
    let n = s.unicode_len();
    let mut out = String::new();
    let mut i: usize = 0;
    proof {
        assert(s@.subrange(0, n as int) =~= s@);
    }
    while i < n
        invariant
            i <= n,
            n == s@.len(),
            out@ + spec_remove_controls(s@.subrange(i as int, n as int)) =~= spec_remove_controls(
                s@,
            ),
        decreases n - i,
    {
        let ghost rest = s@.subrange(i as int, n as int);
        let c = s.get_char(i);
        proof {
            assert(rest[0] == c);
            assert(rest.drop_first() =~= s@.subrange(i as int + 1, n as int));
        }
        if !is_control_char_exec(c) {
            push_char(&mut out, c);
        }
        i = i + 1;
    }
    proof {
        assert(s@.subrange(n as int, n as int) =~= Seq::<char>::empty());
    }
    out
}

/// The last index at which a character satisfying the test occurs.
pub open spec fn spec_rfind(s: Seq<char>, pred: spec_fn(char) -> bool) -> Option<int>
    decreases s.len(),
{
    if s.len() == 0 {
        None
    } else if pred(s[s.len() - 1]) {
        Some(s.len() - 1)
    } else {
        spec_rfind(s.drop_last(), pred)
    }
}

pub open spec fn is_path_separator(c: char) -> bool {
    c == '/' || c == '\\'
}

/// The separator test as a function value.
pub open spec fn sep_pred() -> spec_fn(char) -> bool {
    |c: char| is_path_separator(c)
}

/// The dot test as a function value.
pub open spec fn dot_pred() -> spec_fn(char) -> bool {
    |c: char| c == '.'
}

fn rfind_separator(s: &str) -> (r: Option<usize>)
    ensures
        match r {
            Some(i) => spec_rfind(s@, sep_pred()) == Some(i as int),
            None => spec_rfind(s@, sep_pred()) is None,
        },
    decreases s@.len(),
{
    let n = s.unicode_len();
    if n == 0 {
        None
    } else {
        let c = s.get_char(n - 1);
        if c == '/' || c == '\\' {
            Some(n - 1)
        } else {
            let head = s.substring_char(0, n - 1);
            proof {
                assert(head@ =~= s@.drop_last());
            }
            rfind_separator(head)
        }
    }
}

fn rfind_dot(s: &str) -> (r: Option<usize>)
    ensures
        match r {
            Some(i) => spec_rfind(s@, dot_pred()) == Some(i as int),
            None => spec_rfind(s@, dot_pred()) is None,
        },
    decreases s@.len(),
{
    let n = s.unicode_len();
    if n == 0 {
        None
    } else {
        let c = s.get_char(n - 1);
        if c == '.' {
            Some(n - 1)
        } else {
            let head = s.substring_char(0, n - 1);
            proof {
                assert(head@ =~= s@.drop_last());
            }
            rfind_dot(head)
        }
    }
}

proof fn lemma_rfind_bounds(s: Seq<char>, pred: spec_fn(char) -> bool)
    ensures
        match spec_rfind(s, pred) {
            Some(i) => 0 <= i < s.len() && pred(s[i]) && (forall|j: int|
                i < j < s.len() ==> !pred(#[trigger] s[j])),
            None => forall|j: int| 0 <= j < s.len() ==> !pred(#[trigger] s[j]),
        },
    decreases s.len(),
{
    if s.len() > 0 && !pred(s[s.len() - 1]) {
        let dl = s.drop_last();
        lemma_rfind_bounds(dl, pred);
        match spec_rfind(s, pred) {
            Some(i) => {
                assert forall|j: int| i < j < s.len() implies !pred(#[trigger] s[j]) by {
                    if j < s.len() - 1 {
                        assert(s[j] == dl[j]);
                    }
                }
            },
            None => {
                assert forall|j: int| 0 <= j < s.len() implies !pred(#[trigger] s[j]) by {
                    if j < s.len() - 1 {
                        assert(s[j] == dl[j]);
                    }
                }
            },
        }
    }
}

/// A usable filename distilled from a raw candidate: the part after the last
/// path separator, trimmed, with control characters dropped; nothing, when
/// nothing printable remains.
pub fn sanitize_filename(raw: &str) -> (r: Option<String>)
    ensures
        match r {
            Some(name) => name@.len() > 0 && (forall|i: int|
                0 <= i < name@.len() ==> !is_control_char(name@[i])),
            None => true,
        },
{
    let trimmed = trim(raw);
    if trimmed.as_str().is_empty() {
        return None;
    }
    let basename: String = match rfind_separator(trimmed.as_str()) {
        Some(j) => {
            let len = trimmed.as_str().unicode_len();
            proof {
                lemma_rfind_bounds(trimmed@, sep_pred());
            }
            trimmed.as_str().substring_char(j + 1, len).to_owned()
        },
        None => trimmed,
    };
    let basename = trim(basename.as_str());
    if basename.as_str().is_empty() {
        return None;
    }
    let cleaned = remove_controls(basename.as_str());
    if cleaned.as_str().is_empty() {
        None
    } else {
        proof {
            lemma_remove_controls_clean(basename@);
        }
        Some(cleaned)
    }
}

proof fn lemma_remove_controls_clean(s: Seq<char>)
    ensures
        forall|i: int|
            0 <= i < spec_remove_controls(s).len() ==> !is_control_char(
                #[trigger] spec_remove_controls(s)[i],
            ),
    decreases s.len(),
{
    if s.len() > 0 {
        lemma_remove_controls_clean(s.drop_first());
        if !is_control_char(s[0]) {
            assert forall|i: int|
                0 <= i < spec_remove_controls(s).len() implies !is_control_char(
                #[trigger] spec_remove_controls(s)[i],
            ) by {
                if i > 0 {
                    assert(spec_remove_controls(s)[i] == spec_remove_controls(s.drop_first())[i
                        - 1]);
                }
            }
        }
    }
}

/// The numeric value of one hexadecimal digit.
pub open spec fn spec_hex_val(b: u8) -> Option<int> {
    if 48 <= b <= 57 {
        Some(b - 48)
    } else if 97 <= b <= 102 {
        Some(b - 97 + 10)
    } else if 65 <= b <= 70 {
        Some(b - 65 + 10)
    } else {
        None
    }
}

fn hex_val(b: u8) -> (r: Option<u8>)
    ensures
        match r {
            Some(v) => spec_hex_val(b) == Some(v as int) && v < 16,
            None => spec_hex_val(b) is None,
        },
{
    if 48 <= b && b <= 57 {
        Some(b - 48)
    } else if 97 <= b && b <= 102 {
        Some(b - 97 + 10)
    } else if 65 <= b && b <= 70 {
        Some(b - 65 + 10)
    } else {
        None
    }
}

/// The name of what `String::from_utf8` returns: the decoded text when the
/// bytes are well-formed, nothing otherwise; a function of the bytes alone.
pub uninterp spec fn utf8_decode_of(bytes: Seq<u8>) -> Option<Seq<char>>;

/// Relies on `String::from_utf8`: decodes the bytes or reports them
/// ill-formed.
#[verifier::external_body]
fn string_from_utf8(bytes: Vec<u8>) -> (r: Option<String>)
    ensures
        match r {
            Some(s) => utf8_decode_of(bytes@) == Some(s@),
            None => utf8_decode_of(bytes@) is None,
        },
{
    String::from_utf8(bytes).ok()
}

/// What percent-decoding makes of a byte string: a `%` followed by two hex
/// digits becomes one byte, a malformed escape fails the whole decode, and
/// everything else passes through.
pub open spec fn spec_percent_decode_bytes(b: Seq<u8>) -> Option<Seq<u8>>
    decreases b.len(),
{
    if b.len() == 0 {
        Some(Seq::empty())
    } else if b[0] == 37 && b.len() > 2 {
        match (spec_hex_val(b[1]), spec_hex_val(b[2])) {
            (Some(h), Some(l)) => match spec_percent_decode_bytes(
                b.subrange(3, b.len() as int),
            ) {
                Some(rest) => Some(seq![(h * 16 + l) as u8] + rest),
                None => None,
            },
            _ => None,
        }
    } else {
        match spec_percent_decode_bytes(b.drop_first()) {
            Some(rest) => Some(seq![b[0]] + rest),
            None => None,
        }
    }
}

/// Percent-decoding over the text's bytes; the decoded bytes must read as
/// text again.
pub fn percent_decode(value: &str) -> (r: Option<String>)
    ensures
        match r {
            Some(s) => spec_percent_decode_bytes(value.spec_bytes()) matches Some(d)
                && utf8_decode_of(d) == Some(s@),
            None => spec_percent_decode_bytes(value.spec_bytes()) is None || (
            spec_percent_decode_bytes(value.spec_bytes()) matches Some(d) && utf8_decode_of(d)
                is None),
        },
{
    let bytes = value.as_bytes_vec();
    percent_decode_bytes(bytes)
}

/// Decodes percent escapes in a byte string, then the bytes as text.
fn percent_decode_bytes(bytes: Vec<u8>) -> (r: Option<String>)
    ensures
        match r {
            Some(s) => spec_percent_decode_bytes(bytes@) matches Some(d) && utf8_decode_of(d)
                == Some(s@),
            None => spec_percent_decode_bytes(bytes@) is None || (spec_percent_decode_bytes(
                bytes@,
            ) matches Some(d) && utf8_decode_of(d) is None),
        },
{
    let n = bytes.len();
    let mut out: Vec<u8> = Vec::new();
    let mut i: usize = 0;
    proof {
        assert(bytes@.subrange(0, n as int) =~= bytes@);
    }
    while i < n
        invariant
            i <= n,
            n == bytes@.len(),
            spec_percent_decode_bytes(bytes@) is Some <==> spec_percent_decode_bytes(
                bytes@.subrange(i as int, n as int),
            ) is Some,
            spec_percent_decode_bytes(bytes@) matches Some(w) ==> (spec_percent_decode_bytes(
                bytes@.subrange(i as int, n as int),
            ) matches Some(rest) && w == out@ + rest),
        decreases n - i,
    {
        let ghost rest = bytes@.subrange(i as int, n as int);
        proof {
            assert(rest[0] == bytes@[i as int]);
        }
        if bytes[i] == 37 && n - i > 2 {
            proof {
                assert(rest[1] == bytes@[i as int + 1]);
                assert(rest[2] == bytes@[i as int + 2]);
                assert(rest.subrange(3, rest.len() as int) =~= bytes@.subrange(
                    i as int + 3,
                    n as int,
                ));
            }
            let hi = match hex_val(bytes[i + 1]) {
                Some(v) => v,
                None => {
                    return None;
                },
            };
            let lo = match hex_val(bytes[i + 2]) {
                Some(v) => v,
                None => {
                    return None;
                },
            };
            out.push(hi * 16 + lo);
            i = i + 3;
        } else {
            proof {
                assert(rest.drop_first() =~= bytes@.subrange(i as int + 1, n as int));
            }
            out.push(bytes[i]);
            i = i + 1;
        }
    }
    proof {
        assert(bytes@.subrange(n as int, n as int) =~= Seq::<u8>::empty());
    }
    string_from_utf8(out)
}

/// The extension of a filename: what follows the final dot of its last path
/// component, provided the dot neither leads nor ends the name.
pub fn filename_extension(filename: &str) -> (r: Option<String>)
    ensures
        match r {
            Some(ext) => ext@.len() > 0 && (forall|i: int|
                0 <= i < ext@.len() ==> ext@[i] != '.' && !is_path_separator(ext@[i])),
            None => true,
        },
{
    let basename: String = match rfind_separator(filename) {
        Some(j) => {
            let len = filename.unicode_len();
            proof {
                lemma_rfind_bounds(filename@, sep_pred());
            }
            filename.substring_char(j + 1, len).to_owned()
        },
        None => filename.to_owned(),
    };
    proof {
        lemma_rfind_bounds(filename@, sep_pred());
        assert forall|i: int| 0 <= i < basename@.len() implies !is_path_separator(
            #[trigger] basename@[i],
        ) by {
            match spec_rfind(filename@, sep_pred()) {
                Some(k) => {
                    assert(basename@[i] == filename@[k + 1 + i]);
                    assert(!sep_pred()(filename@[k + 1 + i]));
                },
                None => {
                    assert(basename@[i] == filename@[i]);
                    assert(!sep_pred()(filename@[i]));
                },
            }
        }
    }
    let n = basename.as_str().unicode_len();
    match rfind_dot(basename.as_str()) {
        Some(j) => {
            proof {
                lemma_rfind_bounds(basename@, dot_pred());
            }
            if j == 0 || j + 1 == n {
                None
            } else {
                let ext = basename.as_str().substring_char(j + 1, n).to_owned();
                proof {
                    assert forall|i: int| 0 <= i < ext@.len() implies ext@[i] != '.'
                        && !is_path_separator(#[trigger] ext@[i]) by {
                        assert(ext@[i] == basename@[j + 1 + i]);
                        assert(!dot_pred()(basename@[j + 1 + i]));
                    }
                }
                Some(ext)
            }
        },
        None => None,
    }
}

/// The MIME type an extension implies, over the fixed table.
pub open spec fn spec_extension_to_mime(ext: Seq<char>) -> Option<Seq<char>> {
    if ext == "png"@ {
        Some("image/png"@)
    } else if ext == "jpg"@ || ext == "jpeg"@ {
        Some("image/jpeg"@)
    } else if ext == "gif"@ {
        Some("image/gif"@)
    } else if ext == "webp"@ {
        Some("image/webp"@)
    } else if ext == "bmp"@ {
        Some("image/bmp"@)
    } else if ext == "svg"@ {
        Some("image/svg+xml"@)
    } else if ext == "mp4"@ {
        Some("video/mp4"@)
    } else if ext == "mov"@ {
        Some("video/quicktime"@)
    } else if ext == "mp3"@ {
        Some("audio/mpeg"@)
    } else if ext == "ogg"@ {
        Some("audio/ogg"@)
    } else if ext == "wav"@ {
        Some("audio/wav"@)
    } else if ext == "pdf"@ {
        Some("application/pdf"@)
    } else {
        None
    }
}

pub fn extension_to_mime(ext: &str) -> (r: Option<&'static str>)
    ensures
        match r {
            Some(m) => spec_extension_to_mime(ext@) == Some(m@),
            None => spec_extension_to_mime(ext@) is None,
        },
{
    if str_eq(ext, "png") {
        Some("image/png")
    } else if str_eq(ext, "jpg") || str_eq(ext, "jpeg") {
        Some("image/jpeg")
    } else if str_eq(ext, "gif") {
        Some("image/gif")
    } else if str_eq(ext, "webp") {
        Some("image/webp")
    } else if str_eq(ext, "bmp") {
        Some("image/bmp")
    } else if str_eq(ext, "svg") {
        Some("image/svg+xml")
    } else if str_eq(ext, "mp4") {
        Some("video/mp4")
    } else if str_eq(ext, "mov") {
        Some("video/quicktime")
    } else if str_eq(ext, "mp3") {
        Some("audio/mpeg")
    } else if str_eq(ext, "ogg") {
        Some("audio/ogg")
    } else if str_eq(ext, "wav") {
        Some("audio/wav")
    } else if str_eq(ext, "pdf") {
        Some("application/pdf")
    } else {
        None
    }
}

/// The extension a MIME type implies, over the fixed table.
pub open spec fn spec_extension_from_mime(content_type: Seq<char>) -> Option<Seq<char>> {
    if content_type == "image/png"@ {
        Some("png"@)
    } else if content_type == "image/jpeg"@ {
        Some("jpg"@)
    } else if content_type == "image/gif"@ {
        Some("gif"@)
    } else if content_type == "image/webp"@ {
        Some("webp"@)
    } else if content_type == "image/bmp"@ {
        Some("bmp"@)
    } else if content_type == "image/svg+xml"@ {
        Some("svg"@)
    } else if content_type == "video/mp4"@ {
        Some("mp4"@)
    } else if content_type == "video/quicktime"@ {
        Some("mov"@)
    } else if content_type == "audio/mpeg"@ {
        Some("mp3"@)
    } else if content_type == "audio/ogg"@ {
        Some("ogg"@)
    } else if content_type == "audio/wav"@ {
        Some("wav"@)
    } else if content_type == "application/pdf"@ {
        Some("pdf"@)
    } else {
        None
    }
}

pub fn extension_from_mime(content_type: &str) -> (r: Option<&'static str>)
    ensures
        match r {
            Some(e) => spec_extension_from_mime(content_type@) == Some(e@),
            None => spec_extension_from_mime(content_type@) is None,
        },
{
    if str_eq(content_type, "image/png") {
        Some("png")
    } else if str_eq(content_type, "image/jpeg") {
        Some("jpg")
    } else if str_eq(content_type, "image/gif") {
        Some("gif")
    } else if str_eq(content_type, "image/webp") {
        Some("webp")
    } else if str_eq(content_type, "image/bmp") {
        Some("bmp")
    } else if str_eq(content_type, "image/svg+xml") {
        Some("svg")
    } else if str_eq(content_type, "video/mp4") {
        Some("mp4")
    } else if str_eq(content_type, "video/quicktime") {
        Some("mov")
    } else if str_eq(content_type, "audio/mpeg") {
        Some("mp3")
    } else if str_eq(content_type, "audio/ogg") {
        Some("ogg")
    } else if str_eq(content_type, "audio/wav") {
        Some("wav")
    } else if str_eq(content_type, "application/pdf") {
        Some("pdf")
    } else {
        None
    }
}

/// The MIME type a payload's magic bytes reveal: the four image signatures
/// the bridge recognizes.
pub fn sniff_mime(data: &[u8]) -> (r: Option<&'static str>)
    ensures
        data@.len() >= 8 && data@[0] == 0x89 && data@[1] == 0x50 && data@[2] == 0x4e && data@[3]
            == 0x47 && data@[4] == 0x0d && data@[5] == 0x0a && data@[6] == 0x1a && data@[7] == 0x0a
            ==> (r matches Some(m) && m@ == "image/png"@),
{
    if data.len() >= 8 && data[0] == 0x89 && data[1] == 0x50 && data[2] == 0x4e && data[3] == 0x47
        && data[4] == 0x0d && data[5] == 0x0a && data[6] == 0x1a && data[7] == 0x0a {
        return Some("image/png");
    }
    if data.len() >= 3 && data[0] == 0xff && data[1] == 0xd8 && data[2] == 0xff {
        return Some("image/jpeg");
    }
    if data.len() >= 6 && data[0] == 0x47 && data[1] == 0x49 && data[2] == 0x46 && data[3] == 0x38
        && (data[4] == 0x37 || data[4] == 0x39) && data[5] == 0x61 {
        return Some("image/gif");
    }
    if data.len() >= 12 && data[0] == 0x52 && data[1] == 0x49 && data[2] == 0x46 && data[3] == 0x46
        && data[8] == 0x57 && data[9] == 0x45 && data[10] == 0x42 && data[11] == 0x50 {
        return Some("image/webp");
    }
    None
}

/// The effective content type: the header's media type when it says anything
/// more specific than a raw byte stream, else the filename's extension, else
/// the payload's magic bytes, else the raw byte stream type.
pub fn normalize_content_type(header_value: Option<&str>, filename: &str, data: &[u8]) -> (r:
    String)
    ensures
        r@.len() > 0,
{
    let header: String = match header_value {
        Some(v) => {
            let upto: String = match crate::text::find_char(v, ';') {
                Some(j) => {
                    proof {
                        crate::text::lemma_find_bounds(v@, ';');
                    }
                    v.substring_char(0, j).to_owned()
                },
                None => v.to_owned(),
            };
            trim(upto.as_str())
        },
        None => "application/octet-stream".to_owned(),
    };
    let header: String = if header.as_str().is_empty() {
        "application/octet-stream".to_owned()
    } else {
        header
    };

    if !string_eq_str(&header, "application/octet-stream") {
        proof {
            reveal_strlit("application/octet-stream");
        }
        return header;
    }

    if let Some(ext) = filename_extension(filename) {
        let lowered = crate::text::ascii_lower(ext.as_str());
        if let Some(m) = extension_to_mime(lowered.as_str()) {
            proof {
                reveal_strlit("image/png");
                reveal_strlit("image/jpeg");
                reveal_strlit("image/gif");
                reveal_strlit("image/webp");
                reveal_strlit("image/bmp");
                reveal_strlit("image/svg+xml");
                reveal_strlit("video/mp4");
                reveal_strlit("video/quicktime");
                reveal_strlit("audio/mpeg");
                reveal_strlit("audio/ogg");
                reveal_strlit("audio/wav");
                reveal_strlit("application/pdf");
            }
            return m.to_owned();
        }
    }
    if let Some(m) = sniff_mime(data) {
        let owned = m.to_owned();
        if !owned.as_str().is_empty() {
            return owned;
        }
        proof {
            reveal_strlit("application/octet-stream");
        }
        return "application/octet-stream".to_owned();
    }
    proof {
        reveal_strlit("application/octet-stream");
    }
    "application/octet-stream".to_owned()
}

/// The filename, guaranteed an extension: one implied by the content type is
/// appended when the name has none.
pub fn ensure_filename_extension(filename: &str, content_type: &str) -> (r: String)
    ensures
        match spec_extension_from_mime(content_type@) {
            Some(e) => r@ == filename@ || r@ == filename@ + "."@ + e,
            None => r@ == filename@,
        },
{
    if filename_extension(filename).is_some() {
        return filename.to_owned();
    }
    match extension_from_mime(content_type) {
        Some(ext) => {
            let mut out = filename.to_owned();
            out.append(".");
            out.append(ext);
            out
        },
        None => filename.to_owned(),
    }
}


/// How one attachment reaches Slack: an oversized or undownloadable file
/// falls back to a plain link, anything else uploads with a link fallback
/// ready.
#[derive(Debug, Clone, PartialEq, Eq)]
pub enum SlackAttachmentStep {
    SendLink(String),
    UploadFile { filename: String, fallback: String },
}

/// Plans one Slack-bound attachment from its source link and, when the
/// download succeeded, the file's size and name.
pub fn plan_slack_attachment(original_url: &str, media: Option<(usize, &str)>) -> (r:
    SlackAttachmentStep)
    ensures
        match media {
            None => r matches SlackAttachmentStep::SendLink(t) && t@ == "Attachment: "@
                + original_url@,
            Some(m) => if m.0 > MAX_SLACK_FILE_SIZE {
                r matches SlackAttachmentStep::SendLink(t) && t@ == m.1@ + ": "@ + original_url@
            } else {
                r matches SlackAttachmentStep::UploadFile { filename, fallback } && filename@
                    == m.1@ && fallback@ == m.1@ + ": "@ + original_url@
            },
        },
{
    match media {
        None => {
            let mut text = "Attachment: ".to_owned();
            text.append(original_url);
            SlackAttachmentStep::SendLink(text)
        },
        Some((size, filename)) => {
            let mut fallback = filename.to_owned();
            fallback.append(": ");
            fallback.append(original_url);
            if size > MAX_SLACK_FILE_SIZE {
                SlackAttachmentStep::SendLink(fallback)
            } else {
                SlackAttachmentStep::UploadFile { filename: filename.to_owned(), fallback }
            }
        },
    }
}

/// How one attachment reaches Matrix: an oversized or undownloadable file
/// becomes a plain link body, anything else uploads under the message type
/// its content type implies.
#[derive(Debug, Clone, PartialEq, Eq)]
pub enum MatrixAttachmentStep {
    SendLinkBody(String),
    UploadFile { msgtype: &'static str, filename: String },
}

/// The Matrix message type a content type implies.
pub open spec fn spec_msgtype_for_content_type(ct: Seq<char>) -> Seq<char> {
    if spec_starts_with(ct, "image/"@) {
        "m.image"@
    } else if spec_starts_with(ct, "video/"@) {
        "m.video"@
    } else if spec_starts_with(ct, "audio/"@) {
        "m.audio"@
    } else {
        "m.file"@
    }
}

pub fn msgtype_for_content_type(content_type: &str) -> (r: &'static str)
    ensures
        r@ == spec_msgtype_for_content_type(content_type@),
{
    if crate::text::starts_with(content_type, "image/") {
        "m.image"
    } else if crate::text::starts_with(content_type, "video/") {
        "m.video"
    } else if crate::text::starts_with(content_type, "audio/") {
        "m.audio"
    } else {
        "m.file"
    }
}

/// Plans one Matrix-bound attachment from its source link and, when the
/// download succeeded, the file's size, name and content type.
pub fn plan_matrix_attachment(original_url: &str, media: Option<(usize, &str, &str)>) -> (r:
    MatrixAttachmentStep)
    ensures
        match media {
            None => r matches MatrixAttachmentStep::SendLinkBody(t) && t@ == "Attachment: "@
                + original_url@,
            Some(m) => if m.0 > MAX_MATRIX_FILE_SIZE {
                r matches MatrixAttachmentStep::SendLinkBody(t) && t@ == m.1@ + ": "@
                    + original_url@
            } else {
                r matches MatrixAttachmentStep::UploadFile { msgtype, filename } && msgtype@
                    == spec_msgtype_for_content_type(m.2@) && filename@ == m.1@
            },
        },
{
    match media {
        None => {
            let mut text = "Attachment: ".to_owned();
            text.append(original_url);
            MatrixAttachmentStep::SendLinkBody(text)
        },
        Some((size, filename, content_type)) => {
            if size > MAX_MATRIX_FILE_SIZE {
                let mut body = filename.to_owned();
                body.append(": ");
                body.append(original_url);
                MatrixAttachmentStep::SendLinkBody(body)
            } else {
                MatrixAttachmentStep::UploadFile {
                    msgtype: msgtype_for_content_type(content_type),
                    filename: filename.to_owned(),
                }
            }
        },
    }
}

/// The download address of a Matrix avatar for the other platform: a content
/// address is rewritten through the homeserver's media endpoint, an ordinary
/// address passes through.
pub fn avatar_download_url(url: &str, homeserver_url: &str) -> (r: String)
    ensures
        crate::text::spec_starts_with(url@, "mxc://"@) ==> r@ == crate::text::spec_trim_end_char(
            homeserver_url@,
            '/',
        ) + "/_matrix/media/r0/download/"@ + url@.subrange("mxc://"@.len() as int, url@.len() as int),
        !crate::text::spec_starts_with(url@, "mxc://"@) ==> r@ == url@,
{
    match crate::text::strip_prefix_str(url, "mxc://") {
        Some(rest) => {
            let mut out = crate::text::trim_end_char(homeserver_url, '/');
            out.append("/_matrix/media/r0/download/");
            out.append(rest.as_str());
            out
        },
        None => url.to_owned(),
    }
}

/// The Matrix media endpoint for a content address, for downloads the bridge
/// itself performs.
pub fn mxc_download_url(mxc_url: &str, homeserver_url: &str) -> (r: Option<String>)
    ensures
        match r {
            Some(u) => crate::text::spec_starts_with(mxc_url@, "mxc://"@) && u@
                == crate::text::spec_trim_end_char(homeserver_url@, '/')
                + "/_matrix/media/v3/download/"@ + mxc_url@.subrange(
                "mxc://"@.len() as int,
                mxc_url@.len() as int,
            ),
            None => !crate::text::spec_starts_with(mxc_url@, "mxc://"@),
        },
{
    match crate::text::strip_prefix_str(mxc_url, "mxc://") {
        Some(rest) => {
            let mut out = crate::text::trim_end_char(homeserver_url, '/');
            out.append("/_matrix/media/v3/download/");
            out.append(rest.as_str());
            Some(out)
        },
        None => None,
    }
}

/// The text of a Slack send: the trimmed content with the attachment links
/// appended line by line, a placeholder when everything is empty, and the
/// impersonated sender's name in front when one is given.
pub fn compose_slack_text(content: &str, attachments: &Vec<String>, username: Option<&str>) -> (r:
    String)
    ensures
        r@.len() > 0,
{
    let mut text = trim(content);
    let mut i: usize = 0;
    while i < attachments.len()
        invariant
            i <= attachments@.len(),
        decreases attachments@.len() - i,
    {
        if !text.as_str().is_empty() {
            text.append("\n");
        }
        text.append(attachments[i].as_str());
        i = i + 1;
    }
    if text.as_str().is_empty() {
        proof {
            reveal_strlit("(empty message)");
        }
        text = "(empty message)".to_owned();
    }
    match username {
        Some(name) => {
            let mut out = "*".to_owned();
            out.append(name);
            out.append("*: ");
            out.append(text.as_str());
            proof {
                reveal_strlit("*");
            }
            out
        },
        None => {
            proof {
                if text@.len() == 0 {
                    assert(false);
                }
            }
            text
        },
    }
}

/// The name of what `url::Url::parse` exposes as the last segment of a
/// link's path: a function of the link text alone.
pub uninterp spec fn url_last_segment_of(url: Seq<char>) -> Option<Seq<char>>;

/// Relies on `url::Url::parse` and `Url::path_segments`: the last path
/// segment of a link that parses, nothing for one that does not or whose
/// scheme has no segmented path.
#[verifier::external_body]
fn url_last_path_segment(link: &str) -> (r: Option<String>)
    ensures
        match r {
            Some(s) => url_last_segment_of(link@) == Some(s@),
            None => url_last_segment_of(link@) is None,
        },
{
    let parsed = url::Url::parse(link).ok()?;
    let segment = parsed.path_segments()?.next_back()?;
    Some(segment.to_string())
}

/// A filename recovered from a download link: the link's last path segment
/// when it parses, else the tail after the last slash with any query
/// stripped; sanitized either way.
pub fn filename_from_url(link: &str) -> (r: Option<String>)
    ensures
        match r {
            Some(name) => name@.len() > 0 && (forall|i: int|
                0 <= i < name@.len() ==> !is_control_char(name@[i])),
            None => true,
        },
{
    if let Some(segment) = url_last_path_segment(link) {
        if let Some(name) = sanitize_filename(segment.as_str()) {
            return Some(name);
        }
    }
    let without_query: String = match crate::text::find_char(link, '?') {
        Some(j) => {
            proof {
                crate::text::lemma_find_bounds(link@, '?');
            }
            link.substring_char(0, j).to_owned()
        },
        None => link.to_owned(),
    };
    sanitize_filename(without_query.as_str())
}


/// What follows the last `''` marker of an extended-value parameter, or the
/// whole text when none occurs.
fn after_charset_marker(s: &str) -> (r: String)
{
    let n = s.unicode_len();
    if n < 2 {
        return s.to_owned();
    }
    let mut i: usize = n - 2;
    loop
        invariant_except_break
            i <= n - 2,
            n == s@.len(),
            n >= 2,
        ensures
            true,
        decreases i,
    {
        if s.get_char(i) == '\'' && s.get_char(i + 1) == '\'' {
            return s.substring_char(i + 2, n).to_owned();
        }
        if i == 0 {
            break ;
        }
        i = i - 1;
    }
    s.to_owned()
}

/// A filename recovered from a `Content-Disposition` header: the extended
/// `filename*=` parameter wins (percent-decoded, past its charset marker),
/// else a plain `filename=` parameter; quotes are dropped and the result is
/// sanitized.
pub fn filename_from_content_disposition(value: &str) -> (r: Option<String>)
    ensures
        match r {
            Some(name) => name@.len() > 0 && (forall|i: int|
                0 <= i < name@.len() ==> !is_control_char(name@[i])),
            None => true,
        },
{
    let parts = crate::text::split_on_char(value, ';');
    let mut i: usize = 0;
    while i < parts.len()
        invariant
            i <= parts@.len(),
        decreases parts@.len() - i,
    {
        let part = trim(parts[i].as_str());
        if let Some(raw) = crate::text::strip_prefix_str(part.as_str(), "filename*=") {
            let trimmed_raw = trim(raw.as_str());
            let unquoted = trim_wrapping_quotes(trimmed_raw.as_str());
            let encoded = after_charset_marker(unquoted.as_str());
            if let Some(decoded) = percent_decode(encoded.as_str()) {
                if let Some(name) = sanitize_filename(decoded.as_str()) {
                    return Some(name);
                }
            }
        }
        i = i + 1;
    }
    let mut j: usize = 0;
    while j < parts.len()
        invariant
            j <= parts@.len(),
        decreases parts@.len() - j,
    {
        let part = trim(parts[j].as_str());
        if let Some(raw) = crate::text::strip_prefix_str(part.as_str(), "filename=") {
            let trimmed_raw = trim(raw.as_str());
            let unquoted = trim_wrapping_quotes(trimmed_raw.as_str());
            if let Some(name) = sanitize_filename(unquoted.as_str()) {
                return Some(name);
            }
        }
        j = j + 1;
    }
    None
}

} // verus!
