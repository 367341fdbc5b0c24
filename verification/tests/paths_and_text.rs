use slipstream::lines::byte_offset_to_line;
use slipstream::paths::{
    guess_mime_type, local_image_reply, local_image_url, mime_for_extension, resolve_image_url,
};
use slipstream::percent::{percent_decode_path, percent_decode_splits_char, percent_encode_path};
use slipstream::text::{owned, push_decimal, starts_with};
use slipstream::window::{editor_window_label, unique_id_from, uuid_simple};

#[test]
fn line_of_offset_counts_newlines_before() {
    let src = "a\nb\nc";
    assert_eq!(byte_offset_to_line(src, 0), 0);
    assert_eq!(byte_offset_to_line(src, 1), 0);
    assert_eq!(byte_offset_to_line(src, 2), 1);
    assert_eq!(byte_offset_to_line(src, 4), 2);
}

#[test]
fn line_of_offset_past_end_is_last_line() {
    assert_eq!(byte_offset_to_line("a\nb\n", 100), 2);
    assert_eq!(byte_offset_to_line("", 0), 0);
}

#[test]
fn line_of_offset_counts_bytes_not_chars() {
    // "é" takes two bytes, so the second line starts at byte 3.
    let src = "é\nx";
    assert_eq!(byte_offset_to_line(src, 2), 0);
    assert_eq!(byte_offset_to_line(src, 3), 1);
}

#[test]
fn encode_keeps_unreserved_bytes() {
    assert_eq!(percent_encode_path("/Users/me/a-b_c.d~e/F9.png"), "/Users/me/a-b_c.d~e/F9.png");
}

#[test]
fn encode_escapes_other_bytes_in_upper_case_hex() {
    assert_eq!(percent_encode_path("/My Pics/ä.png"), "/My%20Pics/%C3%A4.png");
    assert_eq!(percent_encode_path("100%#?"), "100%25%23%3F");
    assert_eq!(percent_encode_path(""), "");
}

#[test]
fn decode_turns_hex_escapes_into_bytes() {
    assert_eq!(percent_decode_path("/a%20b/%C3%A4.png"), "/a b/ä.png");
    assert_eq!(percent_decode_path("%c3%a4"), "ä");
}

#[test]
fn decode_leaves_incomplete_or_invalid_escapes() {
    assert_eq!(percent_decode_path("100%"), "100%");
    assert_eq!(percent_decode_path("a%4"), "a%4");
    assert_eq!(percent_decode_path("%zz%"), "%zz%");
    // A '%' needs two more bytes after it, even when they would be the last two.
    assert_eq!(percent_decode_path("%41"), "A");
    assert_eq!(percent_decode_path("%%41"), "%A");
}

#[test]
fn decode_needs_two_hex_digits_after_percent() {
    assert_eq!(percent_decode_path("%+9x"), "%+9x");
    assert_eq!(percent_decode_path("%+41"), "%+41");
    assert_eq!(percent_decode_path("%-41"), "%-41");
    assert_eq!(percent_decode_path("%4g%2B"), "%4g+");
}

#[test]
fn decode_replaces_invalid_utf8() {
    assert_eq!(percent_decode_path("a%FFb"), "a\u{FFFD}b");
}

#[test]
fn decode_split_check_finds_escapes_ending_inside_a_char() {
    // bytes: % E2 82 AC x -- the two bytes after '%' end inside the euro sign
    assert!(percent_decode_splits_char("%€x"));
    assert!(!percent_decode_splits_char("%ab€"));
    assert!(!percent_decode_splits_char("plain/path.png"));
    assert!(percent_decode_splits_char("%€"));
    assert!(!percent_decode_splits_char("%é"));
}

#[test]
fn decode_of_encode_is_identity() {
    for path in ["/Users/me/My Pics/ä.png", "", "%41", "a+b%2", "/日本語/ファイル.jpg", "tab\there"] {
        let encoded = percent_encode_path(path);
        assert!(!percent_decode_splits_char(&encoded));
        assert_eq!(percent_decode_path(&encoded), path);
    }
}

#[test]
fn absolute_urls_are_kept() {
    let base = Some("/docs");
    for url in [
        "http://x.org/a.png",
        "https://x.org/a.png",
        "data:image/png;base64,AAAA",
        "file:///tmp/a.png",
        "localimage://localhost/a.png",
    ] {
        assert_eq!(resolve_image_url(url, base), url);
    }
}

#[test]
fn relative_urls_without_base_are_kept() {
    assert_eq!(resolve_image_url("img/a.png", None), "img/a.png");
    assert_eq!(resolve_image_url("/abs/a.png", None), "/abs/a.png");
}

#[test]
fn relative_urls_are_joined_to_the_base() {
    assert_eq!(
        resolve_image_url("img/a b.png", Some("/docs")),
        "localimage://localhost/docs/img/a%20b.png"
    );
    assert_eq!(resolve_image_url("a.png", Some("/docs/")), "localimage://localhost/docs/a.png");
}

#[test]
fn rooted_paths_ignore_the_base() {
    assert_eq!(resolve_image_url("/x/y.png", Some("/docs")), "localimage://localhost/x/y.png");
}

#[test]
fn local_image_url_encodes_the_path() {
    assert_eq!(local_image_url("/a/ü.png"), "localimage://localhost/a/%C3%BC.png");
}

#[test]
fn mime_types_by_extension() {
    assert_eq!(guess_mime_type("a/b.png"), "image/png");
    assert_eq!(guess_mime_type("a/b.PNG"), "image/png");
    assert_eq!(guess_mime_type("x.jpg"), "image/jpeg");
    assert_eq!(guess_mime_type("x.JpEg"), "image/jpeg");
    assert_eq!(guess_mime_type("x.gif"), "image/gif");
    assert_eq!(guess_mime_type("x.svg"), "image/svg+xml");
    assert_eq!(guess_mime_type("x.webp"), "image/webp");
    assert_eq!(guess_mime_type("x.ico"), "image/x-icon");
    assert_eq!(guess_mime_type("x.bmp"), "image/bmp");
    assert_eq!(guess_mime_type("x.avif"), "image/avif");
}

#[test]
fn unknown_or_missing_extensions_are_octet_streams() {
    assert_eq!(guess_mime_type("x.tar.gz"), "application/octet-stream");
    assert_eq!(guess_mime_type("noext"), "application/octet-stream");
    assert_eq!(guess_mime_type(".png"), "application/octet-stream");
    assert_eq!(guess_mime_type(""), "application/octet-stream");
}

#[test]
fn mime_for_extension_ignores_ascii_case() {
    assert_eq!(mime_for_extension("JPG"), "image/jpeg");
    assert_eq!(mime_for_extension("Svg"), "image/svg+xml");
    assert_eq!(mime_for_extension(""), "application/octet-stream");
    assert_eq!(mime_for_extension("pngx"), "application/octet-stream");
}

#[test]
fn decimal_numbers() {
    let mut s = String::from("n=");
    push_decimal(&mut s, 0);
    assert_eq!(s, "n=0");
    let mut s = String::new();
    push_decimal(&mut s, 1234567890123);
    assert_eq!(s, "1234567890123");
}

#[test]
fn prefixes() {
    assert!(starts_with("https://a", "http"));
    assert!(starts_with("abc", ""));
    assert!(!starts_with("ab", "abc"));
    assert!(!starts_with("abd", "abc"));
    assert_eq!(owned("xyz"), "xyz");
}

#[test]
fn unique_ids_join_millis_and_nanos() {
    assert_eq!(unique_id_from(12, 345), "12345");
    assert_eq!(unique_id_from(0, 0), "00");
    let id = uuid_simple();
    assert!(!id.is_empty());
    assert!(id.chars().all(|c| c.is_ascii_digit()));
}

#[test]
fn window_labels() {
    assert_eq!(editor_window_label("42"), "editor-42");
}

#[test]
fn image_replies() {
    let ok = local_image_reply("/a/B.PNG", Some(vec![1, 2, 3]));
    assert_eq!(ok.status, 200);
    assert_eq!(ok.content_type, Some("image/png"));
    assert!(ok.allow_any_origin);
    assert_eq!(ok.body, vec![1, 2, 3]);
    let missing = local_image_reply("/a/b.png", None);
    assert_eq!(missing.status, 404);
    assert_eq!(missing.content_type, None);
    assert!(!missing.allow_any_origin);
    assert!(missing.body.is_empty());
}

#[test]
fn resolved_urls_decode_to_the_image_path() {
    let url = resolve_image_url("pics/ä b.png", Some("/docs/My Notes"));
    let encoded = url.strip_prefix("localimage://localhost").unwrap();
    assert!(!percent_decode_splits_char(encoded));
    assert_eq!(percent_decode_path(encoded), "/docs/My Notes/pics/ä b.png");
}

#[test]
fn same_extension_up_to_case_gives_the_same_mime_type() {
    assert_eq!(guess_mime_type("/x/a.GiF"), guess_mime_type("/y/b.gif"));
    assert_eq!(guess_mime_type("/x/a.Txt"), guess_mime_type("/y/b"));
}

#[test]
fn relative_images_under_a_rooted_base_give_rooted_urls() {
    for dest in ["a.png", "", "sub/dir/b.gif", "/abs.png"] {
        let url = resolve_image_url(dest, Some("/home/me"));
        assert!(url.starts_with("localimage://localhost/"));
    }
}

#[test]
fn mime_type_ignores_the_case_of_the_whole_path() {
    for path in ["/Pics/A.Png", "x.JPEG", "/a.b/c", "Notes.TXT", ".Gif"] {
        let t = guess_mime_type(path);
        assert_eq!(t, guess_mime_type(&path.to_ascii_lowercase()));
        assert_eq!(t, guess_mime_type(&path.to_ascii_uppercase()));
    }
}
