use logo_test::css::{build_css, commons_query_url, LogoImageInfo};
use logo_test::page::{inject_css, render_preview, rewrite_links};
use logo_test::text::{find_first, replace_all_str};

fn css_template(thumb: &str, one_half: &str, two: &str) -> String {
    let mut s = String::from("\n<style type=\"text/css\">\n.mw-wiki-logo {\n background-image:");
    s.push_str("url(");
    s.push_str(thumb);
    s.push_str(")\n}\n\n@media (-webkit-min-device-pixel-ratio:1.5),(min--moz-device-pixel-ratio:1.5),(min-resolution:1.5dppx),(min-resolution:144dpi) {\n .mw-wiki-logo {\n  background-image:");
    s.push_str("url(");
    s.push_str(one_half);
    s.push_str(");\n  background-size:135px auto\n }\n}\n@media (-webkit-min-device-pixel-ratio:2),(min--moz-device-pixel-ratio:2),(min-resolution:2dppx),(min-resolution:192dpi) {\n .mw-wiki-logo {\n  background-image:");
    s.push_str("url(");
    s.push_str(two);
    s.push_str(");\n  background-size:135px auto;\n }\n}\n</style>\n</head>\n");
    s
}

#[test]
fn test_commons_thumbs() {
    // The image URLs the media repository answers with for this logo.
    let info = LogoImageInfo {
        thumb_url: "https://upload.wikimedia.org/wikipedia/commons/thumb/f/f6/Wikipedia-logo-v2-wordmark.svg/135px-Wikipedia-logo-v2-wordmark.svg.png".to_string(),
        url_1_5x: "https://upload.wikimedia.org/wikipedia/commons/thumb/f/f6/Wikipedia-logo-v2-wordmark.svg/203px-Wikipedia-logo-v2-wordmark.svg.png".to_string(),
        url_2x: "https://upload.wikimedia.org/wikipedia/commons/thumb/f/f6/Wikipedia-logo-v2-wordmark.svg/270px-Wikipedia-logo-v2-wordmark.svg.png".to_string(),
    };
    let resp = build_css(&info);
    assert_eq!(
        &resp,
        r#"
<style type="text/css">
.mw-wiki-logo {
 background-image:url(https://upload.wikimedia.org/wikipedia/commons/thumb/f/f6/Wikipedia-logo-v2-wordmark.svg/135px-Wikipedia-logo-v2-wordmark.svg.png)
}

@media (-webkit-min-device-pixel-ratio:1.5),(min--moz-device-pixel-ratio:1.5),(min-resolution:1.5dppx),(min-resolution:144dpi) {
 .mw-wiki-logo {
  background-image:url(https://upload.wikimedia.org/wikipedia/commons/thumb/f/f6/Wikipedia-logo-v2-wordmark.svg/202px-Wikipedia-logo-v2-wordmark.svg.png);
  background-size:135px auto
 }
}
@media (-webkit-min-device-pixel-ratio:2),(min--moz-device-pixel-ratio:2),(min-resolution:2dppx),(min-resolution:192dpi) {
 .mw-wiki-logo {
  background-image:url(https://upload.wikimedia.org/wikipedia/commons/thumb/f/f6/Wikipedia-logo-v2-wordmark.svg/270px-Wikipedia-logo-v2-wordmark.svg.png);
  background-size:135px auto;
 }
}
</style>
</head>
"#
    );
}

#[test]
fn test_build_css_substitutes_in_place() {
    let info = LogoImageInfo {
        thumb_url: "THUMB".to_string(),
        url_1_5x: "HALF".to_string(),
        url_2x: "TWO".to_string(),
    };
    let css = build_css(&info);
    assert_eq!(css, css_template("THUMB", "HALF", "TWO"));
    assert!(css.contains("url(THUMB)"));
    assert!(css.contains("url(HALF)"));
    assert!(css.contains("url(TWO)"));
    assert!(!css.contains("$logo"));
}

#[test]
fn test_build_css_idempotent() {
    let info = LogoImageInfo {
        thumb_url: "a/135px-x.png".to_string(),
        url_1_5x: "a/203px-x.png".to_string(),
        url_2x: "a/270px-x.png".to_string(),
    };
    let first = build_css(&info);
    let second = build_css(&info);
    assert_eq!(first, second);
}

#[test]
fn test_width_correction() {
    // Every `203` of the 1.5x URL is turned into `202`.
    let info = LogoImageInfo {
        thumb_url: "t".to_string(),
        url_1_5x: "a/203px-203.png".to_string(),
        url_2x: "u".to_string(),
    };
    let css = build_css(&info);
    assert!(css.contains("url(a/202px-202.png)"));
    assert_eq!(replace_all_str("203203x203", "203", "202"), "202202x202");
    assert_eq!(replace_all_str("20303", "203", "202"), "20203");
}

#[test]
fn test_commons_query_url() {
    assert_eq!(
        commons_query_url("File:Example.svg"),
        "https://commons.wikimedia.org/w/api.php?action=query&format=json&prop=imageinfo&titles=File:Example.svg&formatversion=2&iiprop=url&iiurlwidth=135"
    );
}

#[test]
fn test_rewrite_single_letter_paths() {
    assert_eq!(
        rewrite_links("<a href=\"/a\">x</a>", "example.org"),
        "<a href=\"//example.org/a\">x</a>"
    );
    assert_eq!(
        rewrite_links("<img src=\"/w\">", "example.org"),
        "<img src=\"//example.org/w\">"
    );
}

#[test]
fn test_rewrite_leaves_other_urls() {
    // Multi-letter paths are left unchanged.
    assert_eq!(rewrite_links("<a href=\"/ab\">", "example.org"), "<a href=\"/ab\">");
    // Absolute URLs are left unchanged.
    assert_eq!(
        rewrite_links("<a href=\"https://x/a\">", "example.org"),
        "<a href=\"https://x/a\">"
    );
    // Protocol-relative URLs are left unchanged.
    assert_eq!(rewrite_links("<a href=\"//x/a\">", "example.org"), "<a href=\"//x/a\">");
    // Digits are not letters.
    assert_eq!(rewrite_links("<a href=\"/1\">", "example.org"), "<a href=\"/1\">");
}

#[test]
fn test_rewrite_mixed_text() {
    let page = "<img src=\"/b\"><a href=\"/cd\"><a href=\"/Z\">";
    assert_eq!(
        rewrite_links(page, "de.wikipedia.org"),
        "<img src=\"//de.wikipedia.org/b\"><a href=\"/cd\"><a href=\"//de.wikipedia.org/Z\">"
    );
}

#[test]
fn test_inject_css_at_first_head_close() {
    let page = "<html><head><title>t</title></head><body></body></html>";
    let css = "FRAGMENT";
    let out = inject_css(page, css);
    assert_eq!(out, "<html><head><title>t</title>FRAGMENT<body></body></html>");
    // One tag replaced by the fragment: the length grows by the
    // fragment's length less the tag's.
    assert_eq!(out.len(), page.len() + css.len() - "</head>".len());
    let at = find_first(page, "</head>").unwrap();
    assert_eq!(&out[at..at + css.len()], css);
}

#[test]
fn test_inject_css_without_head_close() {
    let page = "<html><body>no head</body></html>";
    assert_eq!(inject_css(page, "FRAGMENT"), page);
}

#[test]
fn test_render_preview() {
    let info = LogoImageInfo {
        thumb_url: "T".to_string(),
        url_1_5x: "H".to_string(),
        url_2x: "X".to_string(),
    };
    let page = "<html><head></head><body><a href=\"/a\">l</a></body></html>";
    let out = render_preview("example.org", page, &info);
    let expected = format!(
        "<html><head>{}<body><a href=\"//example.org/a\">l</a></body></html>",
        css_template("T", "H", "X")
    );
    assert_eq!(out, expected);
}
