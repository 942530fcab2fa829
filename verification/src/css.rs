//! The logo CSS fragment: MediaWiki's logo style block with the three
//! image URLs substituted into its three `url(...)` positions, and the
//! query URL the media repository is asked for those image URLs.

use vstd::prelude::*;
use vstd::string::*;

use crate::text::{replace_all, replace_all_str};

verus! {

/// The three image URLs the media repository hands back for a logo: the
/// 135px thumbnail and its 1.5x and 2x responsive variants.
pub struct LogoImageInfo {
    pub thumb_url: String,
    pub url_1_5x: String,
    pub url_2x: String,
}

/// Template up to the first image URL.
pub open spec fn css_head() -> Seq<char> {
    "\n<style type=\"text/css\">\n.mw-wiki-logo {\n background-image:"@
}

/// Opens each of the three image references.
pub open spec fn css_url_open() -> Seq<char> {
    "url("@
}

/// Template between the thumbnail URL and the 1.5x URL.
pub open spec fn css_mid_1() -> Seq<char> {
    ")\n}\n\n@media (-webkit-min-device-pixel-ratio:1.5),(min--moz-device-pixel-ratio:1.5),(min-resolution:1.5dppx),(min-resolution:144dpi) {\n .mw-wiki-logo {\n  background-image:"@
}

/// Template between the 1.5x URL and the 2x URL.
pub open spec fn css_mid_2() -> Seq<char> {
    ");\n  background-size:135px auto\n }\n}\n@media (-webkit-min-device-pixel-ratio:2),(min--moz-device-pixel-ratio:2),(min-resolution:2dppx),(min-resolution:192dpi) {\n .mw-wiki-logo {\n  background-image:"@
}

/// Template after the 2x URL, closing head tag included: the fragment
/// re-emits the tag it is spliced in place of.
pub open spec fn css_tail() -> Seq<char> {
    ");\n  background-size:135px auto;\n }\n}\n</style>\n</head>\n"@
}

/// The substituted fragment. The 1.5x URL is taken with every `203`
/// replaced by `202`, a carried-over correction for an upstream
/// off-by-one in generated thumbnail widths.
pub open spec fn spec_css(thumb: Seq<char>, one_half: Seq<char>, two: Seq<char>) -> Seq<char> {
    css_head() + css_url_open() + thumb + css_mid_1() + css_url_open() + replace_all(
        one_half,
        "203"@,
        "202"@,
    ) + css_mid_2() + css_url_open() + two + css_tail()
}

/// Build the CSS fragment for the given image info.
pub fn build_css(info: &LogoImageInfo) -> (out: String)
    ensures
        out@ == spec_css(info.thumb_url@, info.url_1_5x@, info.url_2x@),
{
    proof {
        reveal_strlit("203");
    }
    let fixed = replace_all_str(info.url_1_5x.as_str(), "203", "202");
    let mut out = String::from_str(
        "\n<style type=\"text/css\">\n.mw-wiki-logo {\n background-image:",
    );
    out.append("url(");
    out.append(info.thumb_url.as_str());
    out.append(
        ")\n}\n\n@media (-webkit-min-device-pixel-ratio:1.5),(min--moz-device-pixel-ratio:1.5),(min-resolution:1.5dppx),(min-resolution:144dpi) {\n .mw-wiki-logo {\n  background-image:",
    );
    out.append("url(");
    out.append(fixed.as_str());
    out.append(
        ");\n  background-size:135px auto\n }\n}\n@media (-webkit-min-device-pixel-ratio:2),(min--moz-device-pixel-ratio:2),(min-resolution:2dppx),(min-resolution:192dpi) {\n .mw-wiki-logo {\n  background-image:",
    );
    out.append("url(");
    out.append(info.url_2x.as_str());
    out.append(");\n  background-size:135px auto;\n }\n}\n</style>\n</head>\n");
    out
}

/// The fragment is a pure substitution: two infos with the same three
/// URLs give the same fragment, character for character.
pub proof fn lemma_css_deterministic(
    thumb1: Seq<char>,
    one_half1: Seq<char>,
    two1: Seq<char>,
    thumb2: Seq<char>,
    one_half2: Seq<char>,
    two2: Seq<char>,
)
    requires
        thumb1 == thumb2,
        one_half1 == one_half2,
        two1 == two2,
    ensures
        spec_css(thumb1, one_half1, two1) == spec_css(thumb2, one_half2, two2),
{
}

/// The three URLs stand in the fragment's three `url(...)` positions, in
/// template order, each closed right after it.
pub proof fn lemma_css_positions(thumb: Seq<char>, one_half: Seq<char>, two: Seq<char>)
    ensures
        ({
            let css = spec_css(thumb, one_half, two);
            let fixed = replace_all(one_half, "203"@, "202"@);
            let p1 = css_head().len() as int;
            let p2 = p1 + css_url_open().len() + thumb.len() + css_mid_1().len();
            let p3 = p2 + css_url_open().len() + fixed.len() + css_mid_2().len();
            &&& css.subrange(p1, p2) == css_url_open() + thumb + css_mid_1()
            &&& css.subrange(p2, p3) == css_url_open() + fixed + css_mid_2()
            &&& css.subrange(p3, css.len() as int) == css_url_open() + two + css_tail()
            &&& css.subrange(0, p1) == css_head()
        }),
{
    let css = spec_css(thumb, one_half, two);
    let fixed = replace_all(one_half, "203"@, "202"@);
    let p1 = css_head().len() as int;
    let p2 = p1 + css_url_open().len() + thumb.len() + css_mid_1().len();
    let p3 = p2 + css_url_open().len() + fixed.len() + css_mid_2().len();
    assert(css.subrange(0, p1) =~= css_head());
    assert(css.subrange(p1, p2) =~= css_url_open() + thumb + css_mid_1());
    assert(css.subrange(p2, p3) =~= css_url_open() + fixed + css_mid_2());
    assert(css.subrange(p3, css.len() as int) =~= css_url_open() + two + css_tail());
}

/// No character of `s` is `c`.
pub open spec fn no_char(s: Seq<char>, c: char) -> bool {
    forall|i: int| 0 <= i < s.len() ==> s[i] != c
}

proof fn lemma_no_char_concat(a: Seq<char>, b: Seq<char>, c: char)
    requires
        no_char(a, c),
        no_char(b, c),
    ensures
        no_char(a + b, c),
{
    assert forall|i: int| 0 <= i < (a + b).len() implies (a + b)[i] != c by {
        if i < a.len() {
            assert((a + b)[i] == a[i]);
        } else {
            assert((a + b)[i] == b[i - a.len()]);
        }
    }
}

proof fn lemma_replace_all_no_char(t: Seq<char>, p: Seq<char>, r: Seq<char>, c: char)
    requires
        no_char(t, c),
        no_char(r, c),
    ensures
        no_char(replace_all(t, p, r), c),
    decreases t.len(),
{
    if p.len() == 0 || t.len() == 0 {
    } else if crate::text::match_at(t, p, 0) {
        assert(no_char(t.skip(p.len() as int), c));
        lemma_replace_all_no_char(t.skip(p.len() as int), p, r, c);
        lemma_no_char_concat(r, replace_all(t.skip(p.len() as int), p, r), c);
    } else {
        assert(no_char(t.skip(1), c));
        lemma_replace_all_no_char(t.skip(1), p, r, c);
        assert(no_char(seq![t[0]], c));
        lemma_no_char_concat(seq![t[0]], replace_all(t.skip(1), p, r), c);
    }
}

proof fn lemma_segments_no_dollar()
    ensures
        no_char(css_head(), '$'),
        no_char(css_url_open(), '$'),
        no_char(css_mid_1(), '$'),
        no_char(css_mid_2(), '$'),
        no_char(css_tail(), '$'),
{
    reveal_strlit("\n<style type=\"text/css\">\n.mw-wiki-logo {\n background-image:");
    reveal_strlit("url(");
    reveal_strlit(
        ")\n}\n\n@media (-webkit-min-device-pixel-ratio:1.5),(min--moz-device-pixel-ratio:1.5),(min-resolution:1.5dppx),(min-resolution:144dpi) {\n .mw-wiki-logo {\n  background-image:",
    );
    reveal_strlit(
        ");\n  background-size:135px auto\n }\n}\n@media (-webkit-min-device-pixel-ratio:2),(min--moz-device-pixel-ratio:2),(min-resolution:2dppx),(min-resolution:192dpi) {\n .mw-wiki-logo {\n  background-image:",
    );
    reveal_strlit(");\n  background-size:135px auto;\n }\n}\n</style>\n</head>\n");
}

/// With image URLs free of `$`, no `$logo` placeholder remains anywhere
/// in the built fragment: every token was substituted.
pub proof fn lemma_css_no_tokens(thumb: Seq<char>, one_half: Seq<char>, two: Seq<char>)
    requires
        no_char(thumb, '$'),
        no_char(one_half, '$'),
        no_char(two, '$'),
    ensures
        forall|i: int| !crate::text::match_at(spec_css(thumb, one_half, two), "$logo"@, i),
{
    let css = spec_css(thumb, one_half, two);
    lemma_segments_no_dollar();
    reveal_strlit("203");
    reveal_strlit("202");
    lemma_replace_all_no_char(one_half, "203"@, "202"@, '$');
    let fixed = replace_all(one_half, "203"@, "202"@);
    lemma_no_char_concat(css_head(), css_url_open(), '$');
    lemma_no_char_concat(css_head() + css_url_open(), thumb, '$');
    lemma_no_char_concat(css_head() + css_url_open() + thumb, css_mid_1(), '$');
    lemma_no_char_concat(css_head() + css_url_open() + thumb + css_mid_1(), css_url_open(), '$');
    lemma_no_char_concat(
        css_head() + css_url_open() + thumb + css_mid_1() + css_url_open(),
        fixed,
        '$',
    );
    lemma_no_char_concat(
        css_head() + css_url_open() + thumb + css_mid_1() + css_url_open() + fixed,
        css_mid_2(),
        '$',
    );
    lemma_no_char_concat(
        css_head() + css_url_open() + thumb + css_mid_1() + css_url_open() + fixed + css_mid_2(),
        css_url_open(),
        '$',
    );
    lemma_no_char_concat(
        css_head() + css_url_open() + thumb + css_mid_1() + css_url_open() + fixed + css_mid_2()
            + css_url_open(),
        two,
        '$',
    );
    lemma_no_char_concat(
        css_head() + css_url_open() + thumb + css_mid_1() + css_url_open() + fixed + css_mid_2()
            + css_url_open() + two,
        css_tail(),
        '$',
    );
    assert(no_char(css, '$'));
    reveal_strlit("$logo");
    assert forall|i: int| !crate::text::match_at(css, "$logo"@, i) by {
        if crate::text::match_at(css, "$logo"@, i) {
            assert(css.subrange(i, i + "$logo"@.len() as int)[0] == css[i]);
            assert(css[i] == '$');
        }
    }
}

/// The media-repository query for a logo's image info: image URLs with a
/// thumbnail no wider than 135 pixels, responsive variants included.
pub fn commons_query_url(logo: &str) -> (out: String)
    ensures
        out@
            == "https://commons.wikimedia.org/w/api.php?action=query&format=json&prop=imageinfo&titles="@
            + logo@ + "&formatversion=2&iiprop=url&iiurlwidth=135"@,
{
    let mut out = String::from_str(
        "https://commons.wikimedia.org/w/api.php?action=query&format=json&prop=imageinfo&titles=",
    );
    out.append(logo);
    out.append("&formatversion=2&iiprop=url&iiurlwidth=135");
    out
}

} // verus!
