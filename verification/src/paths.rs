//! Resolving image references against the document's directory, and guessing
//! the MIME type of a served image from its file extension.

use vstd::prelude::*;
use vstd::string::*;
use vstd::utf8::*;
use crate::text::{has_prefix, owned, starts_with};
use crate::percent::{
    decode_splits_char, encode_byte, lemma_percent_round_trip, percent_decoded, percent_encoded, percent_encode_path,
};

verus! {

/// The path that std's `Path::new(base).join(rel)` forms, read back as text.
pub uninterp spec fn path_joined(base: Seq<char>, rel: Seq<char>) -> Seq<char>;

/// The parent directory that std's `Path::parent` finds for a path, as text.
pub uninterp spec fn path_parent(path: Seq<char>) -> Option<Seq<char>>;

/// The extension that std's `Path::extension` finds for a path, as text.
pub uninterp spec fn path_extension(path: Seq<char>) -> Option<Seq<char>>;

/// The view of an optional owned string.
pub open spec fn opt_string_view(o: Option<String>) -> Option<Seq<char>> {
    match o {
        Some(s) => Some(s@),
        None => None,
    }
}

/// The view of an optional string slice.
pub open spec fn opt_str_view(o: Option<&str>) -> Option<Seq<char>> {
    match o {
        Some(s) => Some(s@),
        None => None,
    }
}

/// Calls std's `Path::join`; the result, as text, is named by `path_joined`. As
/// std documents for `PathBuf::push`, joining a relative path (one not starting
/// with `/`) extends the base, so the result begins with the base.
#[verifier::external_body]
fn join_path(base: &str, rel: &str) -> (res: String)
    ensures
        res@ == path_joined(base@, rel@),
        rel@.len() == 0 || rel@[0] != '/' ==> has_prefix(res@, base@),
{
    std::path::Path::new(base).join(rel).to_string_lossy().into_owned()
}

/// Calls std's `Path::parent`; the result, as text, is named by `path_parent`.
#[verifier::external_body]
pub(crate) fn parent_dir(path: &str) -> (res: Option<String>)
    ensures
        opt_string_view(res) == path_parent(path@),
{
    std::path::Path::new(path).parent().map(|d| d.to_string_lossy().into_owned())
}

/// Calls std's `Path::extension`; the result, as text, is named by `path_extension`.
/// std documents the extension as the text after the last `.` of the last
/// component (none when that component has no `.` but a leading one, or is `..`).
/// Components and dots are ASCII `/` and `.`, which ASCII case mapping leaves
/// alone, so the extension of a case-mapped path is the case-mapped extension.
#[verifier::external_body]
fn extension_of(path: &str) -> (res: Option<String>)
    ensures
        opt_string_view(res) == path_extension(path@),
        opt_lower(opt_string_view(res)) == path_extension(ascii_lower(path@)),
        opt_upper(opt_string_view(res)) == path_extension(ascii_upper(path@)),
{
    std::path::Path::new(path).extension().and_then(|e| e.to_str()).map(|e| e.to_string())
}

/// URLs that are already absolute and are left as they are.
pub open spec fn is_absolute_url(u: Seq<char>) -> bool {
    ||| has_prefix(u, "http://"@)
    ||| has_prefix(u, "https://"@)
    ||| has_prefix(u, "data:"@)
    ||| has_prefix(u, "file://"@)
    ||| has_prefix(u, "localimage://"@)
}

/// The `localimage://` URL under which an absolute filesystem path is served.
pub open spec fn local_image_url_text(abs_path: Seq<char>) -> Seq<char> {
    "localimage://localhost"@ + percent_encoded(encode_utf8(abs_path))
}

/// Where an image reference points once resolved against the document's directory.
pub open spec fn resolved_image_url(dest: Seq<char>, base_dir: Option<Seq<char>>) -> Seq<char> {
    if is_absolute_url(dest) {
        dest
    } else {
        match base_dir {
            None => dest,
            Some(base) => local_image_url_text(
                if dest.len() > 0 && dest[0] == '/' {
                    dest
                } else {
                    path_joined(base, dest)
                },
            ),
        }
    }
}

/// The `localimage://` URL for an absolute filesystem path: the fixed prefix
/// followed by the percent-encoded path.
pub fn local_image_url(abs_path: &str) -> (res: String)
    ensures
        res@ == local_image_url_text(abs_path@),
{
    let mut url = String::new();
    url.append("localimage://localhost");
    let encoded = percent_encode_path(abs_path);
    url.append(encoded.as_str());
    proof {
        assert(Seq::<char>::empty() + "localimage://localhost"@ =~= "localimage://localhost"@);
    }
    url
}

/// Resolves a possibly relative image URL: absolute URLs, and any URL when no
/// base directory is known, are returned as they are; other paths are made
/// absolute (joined to `base_dir` unless they start with `/`) and turned into
/// a `localimage://` URL.
pub fn resolve_image_url(dest_url: &str, base_dir: Option<&str>) -> (res: String)
    ensures
        res@ == resolved_image_url(dest_url@, opt_str_view(base_dir)),
        opt_str_view(base_dir) matches Some(b) && b.len() > 0 && b[0] == '/' && !is_absolute_url(
            dest_url@,
        ) ==> has_prefix(res@, "localimage://localhost"@.push('/')),
{
    if starts_with(dest_url, "http://") || starts_with(dest_url, "https://") || starts_with(
        dest_url,
        "data:",
    ) || starts_with(dest_url, "file://") || starts_with(dest_url, "localimage://") {
        return owned(dest_url);
    }
    let base = match base_dir {
        Some(dir) => dir,
        None => {
            return owned(dest_url);
        },
    };
    let abs_path = if dest_url.unicode_len() > 0 && dest_url.get_char(0) == '/' {
        owned(dest_url)
    } else {
        join_path(base, dest_url)
    };
    let url = local_image_url(abs_path.as_str());
    proof {
        if base@.len() > 0 && base@[0] == '/' {
            assert(abs_path@.len() > 0 && abs_path@[0] == '/') by {
                if !(dest_url@.len() > 0 && dest_url@[0] == '/') {
                    assert(abs_path@.subrange(0, base@.len() as int)[0] == base@[0]);
                }
            }
            lemma_encoded_rooted(abs_path@);
            let prefix = "localimage://localhost"@;
            let e = percent_encoded(encode_utf8(abs_path@));
            assert(url@.subrange(0, prefix.len() + 1int) =~= prefix.push('/'));
        }
    }
    url
}

/// The encoding of a path starting with `/` starts with `/`.
proof fn lemma_encoded_rooted(abs: Seq<char>)
    requires
        abs.len() > 0,
        abs[0] == '/',
    ensures
        percent_encoded(encode_utf8(abs)).len() > 0,
        percent_encoded(encode_utf8(abs))[0] == '/',
{
    let one = seq![abs[0]];
    assert(is_ascii_chars(one));
    is_ascii_chars_encode_utf8(one);
    assert(one.drop_first() =~= Seq::<char>::empty());
    assert(encode_utf8(Seq::<char>::empty()) =~= Seq::<u8>::empty());
    assert(encode_utf8(one) =~= encode_scalar(abs[0] as u32));
    let b = encode_utf8(abs);
    assert(b == encode_scalar(abs[0] as u32) + encode_utf8(abs.drop_first()));
    assert(b[0] == 47u8);
    assert(percent_encoded(b) == encode_byte(b[0]) + percent_encoded(b.drop_first()));
    assert(encode_byte(47u8) == seq![47u8 as char]);
}

/// ASCII lower-casing of one character (std's `char::to_ascii_lowercase`).
pub open spec fn lower_char(c: char) -> char {
    if 'A' <= c <= 'Z' {
        ((c as u32) + 32) as char
    } else {
        c
    }
}

/// ASCII lower-casing of a text (std's `str::to_ascii_lowercase`).
pub open spec fn ascii_lower(s: Seq<char>) -> Seq<char> {
    s.map_values(|c: char| lower_char(c))
}

/// ASCII upper-casing of one character (std's `char::to_ascii_uppercase`).
pub open spec fn upper_char(c: char) -> char {
    if 'a' <= c <= 'z' {
        ((c as u32) - 32) as char
    } else {
        c
    }
}

/// ASCII upper-casing of a text (std's `str::to_ascii_uppercase`).
pub open spec fn ascii_upper(s: Seq<char>) -> Seq<char> {
    s.map_values(|c: char| upper_char(c))
}

/// ASCII lower-casing of an optional text.
pub open spec fn opt_lower(o: Option<Seq<char>>) -> Option<Seq<char>> {
    match o {
        Some(e) => Some(ascii_lower(e)),
        None => None,
    }
}

/// ASCII upper-casing of an optional text.
pub open spec fn opt_upper(o: Option<Seq<char>>) -> Option<Seq<char>> {
    match o {
        Some(e) => Some(ascii_upper(e)),
        None => None,
    }
}

/// The MIME type served for a lower-case file extension.
pub open spec fn mime_type_of(ext: Seq<char>) -> Seq<char> {
    if ext == "png"@ {
        "image/png"@
    } else if ext == "jpg"@ || ext == "jpeg"@ {
        "image/jpeg"@
    } else if ext == "gif"@ {
        "image/gif"@
    } else if ext == "svg"@ {
        "image/svg+xml"@
    } else if ext == "webp"@ {
        "image/webp"@
    } else if ext == "ico"@ {
        "image/x-icon"@
    } else if ext == "bmp"@ {
        "image/bmp"@
    } else if ext == "avif"@ {
        "image/avif"@
    } else {
        "application/octet-stream"@
    }
}

fn lower_char_exec(c: char) -> (r: char)
    ensures
        r == lower_char(c),
{
    if 'A' <= c && c <= 'Z' {
        let b: u8 = c as u8;
        proof {
            assert(b as u32 == c as u32);
        }
        (b + 32) as char
    } else {
        c
    }
}

/// Whether the ASCII lower-casing of `s` equals `lit`.
fn eq_ascii_lower(s: &str, lit: &str) -> (res: bool)
    ensures
        res == (ascii_lower(s@) == lit@),
{
    let n = s.unicode_len();
    if n != lit.unicode_len() {
        assert(ascii_lower(s@).len() != lit@.len());
        return false;
    }
    let mut j: usize = 0;
    while j < n
        invariant
            n == s@.len(),
            n == lit@.len(),
            j <= n,
            forall|k: int| 0 <= k < j ==> lower_char(s@[k]) == lit@[k],
        decreases n - j,
    {
        if lower_char_exec(s.get_char(j)) != lit.get_char(j) {
            assert(ascii_lower(s@)[j as int] != lit@[j as int]);
            return false;
        }
        j = j + 1;
    }
    assert(ascii_lower(s@) =~= lit@);
    true
}

/// The MIME type for a file extension, compared without regard to ASCII case;
/// unknown extensions give `application/octet-stream`.
pub fn mime_for_extension(ext: &str) -> (res: &'static str)
    ensures
        res@ == mime_type_of(ascii_lower(ext@)),
{
    if eq_ascii_lower(ext, "png") {
        "image/png"
    } else if eq_ascii_lower(ext, "jpg") || eq_ascii_lower(ext, "jpeg") {
        "image/jpeg"
    } else if eq_ascii_lower(ext, "gif") {
        "image/gif"
    } else if eq_ascii_lower(ext, "svg") {
        "image/svg+xml"
    } else if eq_ascii_lower(ext, "webp") {
        "image/webp"
    } else if eq_ascii_lower(ext, "ico") {
        "image/x-icon"
    } else if eq_ascii_lower(ext, "bmp") {
        "image/bmp"
    } else if eq_ascii_lower(ext, "avif") {
        "image/avif"
    } else {
        "application/octet-stream"
    }
}

/// The MIME type guessed for a path: that of its extension, lower-cased (a path
/// without an extension counts as having an empty one).
pub open spec fn guessed_mime_type(path: Seq<char>) -> Seq<char> {
    mime_type_of(
        ascii_lower(
            match path_extension(path) {
                Some(e) => e,
                None => Seq::<char>::empty(),
            },
        ),
    )
}

/// Guesses the MIME type of a file from its extension (none counts as empty).
pub fn guess_mime_type(path: &str) -> (res: &'static str)
    ensures
        res@ == guessed_mime_type(path@),
        res@ == guessed_mime_type(ascii_lower(path@)),
        res@ == guessed_mime_type(ascii_upper(path@)),
{
    let ext = extension_of(path);
    proof {
        let e = match opt_string_view(ext) {
            Some(e) => e,
            None => Seq::<char>::empty(),
        };
        assert(ascii_lower(ascii_lower(e)) =~= ascii_lower(e));
        assert forall|i: int| 0 <= i < e.len() implies lower_char(upper_char(e[i])) == lower_char(e[i]) by {
            lemma_lower_upper(e[i]);
        }
        assert(ascii_lower(ascii_upper(e)) =~= ascii_lower(e));
        assert(ascii_lower(Seq::<char>::empty()) =~= Seq::<char>::empty());
    }
    match ext {
        Some(ext) => mime_for_extension(ext.as_str()),
        None => {
            proof {
                reveal_strlit("");
                assert(""@ =~= Seq::<char>::empty());
            }
            mime_for_extension("")
        },
    }
}

/// Extensions are matched without regard to ASCII case: lower-casing the
/// extension first never changes the MIME type.
pub proof fn lemma_mime_case_insensitive(ext: Seq<char>)
    ensures
        mime_type_of(ascii_lower(ascii_lower(ext))) == mime_type_of(ascii_lower(ext)),
{
    assert(ascii_lower(ascii_lower(ext)) =~= ascii_lower(ext));
}

/// How a `localimage://` request for a file is answered.
pub struct ImageReply {
    /// The HTTP status: 200, or 404 when the file could not be read.
    pub status: u16,
    /// The `Content-Type` header, if one is sent.
    pub content_type: Option<&'static str>,
    /// Whether `Access-Control-Allow-Origin: *` is sent.
    pub allow_any_origin: bool,
    pub body: Vec<u8>,
}

/// The answer to a `localimage://` request for `path`, given the file's bytes
/// if it could be read: the bytes with their guessed MIME type and open CORS,
/// or an empty 404.
pub fn local_image_reply(path: &str, data: Option<Vec<u8>>) -> (r: ImageReply)
    ensures
        match data {
            Some(d) => {
                &&& r.status == 200
                &&& r.content_type matches Some(t) && t@ == guessed_mime_type(path@)
                &&& r.allow_any_origin
                &&& r.body@ == d@
            },
            None => {
                &&& r.status == 404
                &&& r.content_type is None
                &&& !r.allow_any_origin
                &&& r.body@.len() == 0
            },
        },
{
    match data {
        Some(d) => ImageReply {
            status: 200,
            content_type: Some(guess_mime_type(path)),
            allow_any_origin: true,
            body: d,
        },
        None => ImageReply { status: 404, content_type: None, allow_any_origin: false, body: Vec::new() },
    }
}

/// The absolute path that a relative image reference stands for, given the
/// document's directory.
pub open spec fn image_abs_path(dest: Seq<char>, base: Seq<char>) -> Seq<char> {
    if dest.len() > 0 && dest[0] == '/' {
        dest
    } else {
        path_joined(base, dest)
    }
}

/// A resolved `localimage://` URL is the fixed prefix followed by an encoded
/// part, and decoding that part (as `percent_decode_path` does, without ever
/// splitting a character) gives back the absolute path of the image.
pub proof fn lemma_resolved_url_decodes(dest: Seq<char>, base: Seq<char>)
    requires
        !is_absolute_url(dest),
    ensures
        resolved_image_url(dest, Some(base)) == "localimage://localhost"@ + percent_encoded(
            encode_utf8(image_abs_path(dest, base)),
        ),
        !decode_splits_char(encode_utf8(percent_encoded(encode_utf8(image_abs_path(dest, base))))),
        valid_utf8(percent_decoded(encode_utf8(percent_encoded(encode_utf8(image_abs_path(dest, base)))))),
        decode_utf8(percent_decoded(encode_utf8(percent_encoded(encode_utf8(image_abs_path(dest, base))))))
            == image_abs_path(dest, base),
{
    lemma_percent_round_trip(image_abs_path(dest, base));
}

/// Two paths whose extensions agree up to ASCII case get the same MIME type, and
/// the type is always one of the nine that the table knows.
pub proof fn lemma_mime_by_extension(p1: Seq<char>, p2: Seq<char>)
    requires
        ascii_lower(
            match path_extension(p1) {
                Some(e) => e,
                None => Seq::<char>::empty(),
            },
        ) == ascii_lower(
            match path_extension(p2) {
                Some(e) => e,
                None => Seq::<char>::empty(),
            },
        ),
    ensures
        guessed_mime_type(p1) == guessed_mime_type(p2),
        guessed_mime_type(p1) == "image/png"@ || guessed_mime_type(p1) == "image/jpeg"@
            || guessed_mime_type(p1) == "image/gif"@ || guessed_mime_type(p1) == "image/svg+xml"@
            || guessed_mime_type(p1) == "image/webp"@ || guessed_mime_type(p1) == "image/x-icon"@
            || guessed_mime_type(p1) == "image/bmp"@ || guessed_mime_type(p1) == "image/avif"@
            || guessed_mime_type(p1) == "application/octet-stream"@,
{
}

proof fn lemma_lower_upper(c: char)
    ensures
        lower_char(upper_char(c)) == lower_char(c),
{
    if 'a' <= c <= 'z' {
        let u = ((c as u32) - 32) as char;
        assert(u as u32 == (c as u32) - 32);
        assert(((u as u32) + 32) as char == c);
    }
}

/// How an image reference resolves, stated against std's join: absolute URLs
/// and references without a base directory stay as they are; a reference
/// starting with `/` is served as that path; any other reference is handed to
/// `Path::join` with the base, unchanged, and the joined path is served.
pub proof fn lemma_image_resolution(dest: Seq<char>, base: Seq<char>)
    ensures
        resolved_image_url(dest, None) == dest,
        is_absolute_url(dest) ==> resolved_image_url(dest, Some(base)) == dest,
        !is_absolute_url(dest) && dest.len() > 0 && dest[0] == '/' ==> resolved_image_url(
            dest,
            Some(base),
        ) == "localimage://localhost"@ + percent_encoded(encode_utf8(dest)),
        !is_absolute_url(dest) && !(dest.len() > 0 && dest[0] == '/') ==> resolved_image_url(
            dest,
            Some(base),
        ) == "localimage://localhost"@ + percent_encoded(encode_utf8(path_joined(base, dest))),
{
}

} // verus!
