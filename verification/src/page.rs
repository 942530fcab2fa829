//! The fetched wiki page's two transformations: root-relative
//! single-letter `src`/`href` attributes rewritten to protocol-relative
//! URLs on the wiki's own host, and the logo CSS spliced in at the first
//! closing head tag.

use vstd::prelude::*;
use vstd::string::*;

use crate::css::{spec_css, LogoImageInfo, build_css};
use crate::text::{match_at, match_at_exec, lemma_match_at_shift, push_char, find_first};

verus! {

/// One ASCII letter.
pub open spec fn is_ascii_letter(c: char) -> bool {
    ('A' as u32 <= c as u32 && c as u32 <= 'Z' as u32) || ('a' as u32 <= c as u32 && c as u32
        <= 'z' as u32)
}

fn is_letter(c: char) -> (r: bool)
    ensures
        r == is_ascii_letter(c),
{
    let u = c as u32;
    ('A' as u32 <= u && u <= 'Z' as u32) || ('a' as u32 <= u && u <= 'z' as u32)
}

/// `src="/L"` stands at position `i` of `t`, `L` a single ASCII letter.
pub open spec fn src_match_at(t: Seq<char>, i: int) -> bool {
    &&& match_at(t, "src=\"/"@, i)
    &&& i + 8 <= t.len()
    &&& is_ascii_letter(t[i + 6])
    &&& t[i + 7] == '"'
}

/// `href="/L"` stands at position `i` of `t`, `L` a single ASCII letter.
pub open spec fn href_match_at(t: Seq<char>, i: int) -> bool {
    &&& match_at(t, "href=\"/"@, i)
    &&& i + 9 <= t.len()
    &&& is_ascii_letter(t[i + 7])
    &&& t[i + 8] == '"'
}

/// What a matched `src` attribute is rewritten to.
pub open spec fn src_repl(host: Seq<char>, l: char) -> Seq<char> {
    "src=\"//"@ + host + seq!['/', l, '"']
}

/// What a matched `href` attribute is rewritten to.
pub open spec fn href_repl(host: Seq<char>, l: char) -> Seq<char> {
    "href=\"//"@ + host + seq!['/', l, '"']
}

/// Every root-relative single-letter `src`/`href` attribute rewritten to
/// a protocol-relative URL on `host`; all other text kept. Multi-letter
/// paths and absolute URLs never match, so they pass through unchanged.
pub open spec fn spec_rewrite(t: Seq<char>, host: Seq<char>) -> Seq<char>
    decreases t.len(),
{
    if src_match_at(t, 0) {
        src_repl(host, t[6]) + spec_rewrite(t.skip(8), host)
    } else if href_match_at(t, 0) {
        href_repl(host, t[7]) + spec_rewrite(t.skip(9), host)
    } else if t.len() == 0 {
        t
    } else {
        seq![t[0]] + spec_rewrite(t.skip(1), host)
    }
}

/// Rewrite every root-relative single-letter `src`/`href` attribute of
/// `text` to point at `host`.
pub fn rewrite_links(text: &str, host: &str) -> (out: String)
    ensures
        out@ == spec_rewrite(text@, host@),
{
    proof {
        reveal_strlit("src=\"/");
        reveal_strlit("href=\"/");
    }
    let n = text.unicode_len();
    let mut out = String::new();
    let mut i: usize = 0;
    proof {
        assert(text@.skip(0) =~= text@);
        assert(Seq::<char>::empty() + spec_rewrite(text@, host@) =~= spec_rewrite(text@, host@));
    }
    while i < n
        invariant
            i <= n,
            n == text@.len(),
            spec_rewrite(text@, host@) == out@ + spec_rewrite(text@.skip(i as int), host@),
        decreases n - i,
    {
        let ghost tail = text@.skip(i as int);
        let ghost prev = out@;
        proof {
            lemma_match_at_shift(text@, "src=\"/"@, i as int, i as int);
            lemma_match_at_shift(text@, "href=\"/"@, i as int, i as int);
        }
        if match_at_exec(text, "src=\"/", i) && n - i >= 8 && is_letter(text.get_char(i + 6))
            && text.get_char(i + 7) == '"' {
            let l = text.get_char(i + 6);
            proof {
                assert(tail[6] == text@[i + 6]);
                assert(tail[7] == text@[i + 7]);
                assert(src_match_at(tail, 0));
            }
            out.append("src=\"//");
            out.append(host);
            push_char(&mut out, '/');
            push_char(&mut out, l);
            push_char(&mut out, '"');
            proof {
                assert(tail.skip(8) =~= text@.skip(i + 8));
                assert(spec_rewrite(tail, host@) == src_repl(host@, l) + spec_rewrite(
                    text@.skip(i + 8),
                    host@,
                ));
                assert(out@ =~= prev + src_repl(host@, l));
                assert(prev + (src_repl(host@, l) + spec_rewrite(text@.skip(i + 8), host@)) =~= (
                prev + src_repl(host@, l)) + spec_rewrite(text@.skip(i + 8), host@));
            }
            i += 8;
        } else if match_at_exec(text, "href=\"/", i) && n - i >= 9 && is_letter(
            text.get_char(i + 7),
        ) && text.get_char(i + 8) == '"' {
            let l = text.get_char(i + 7);
            proof {
                assert(tail[7] == text@[i + 7]);
                assert(tail[8] == text@[i + 8]);
                assert(href_match_at(tail, 0));
                assert(!src_match_at(tail, 0)) by {
                    if src_match_at(tail, 0) {
                        assert(match_at(text@, "src=\"/"@, i as int));
                    }
                }
            }
            out.append("href=\"//");
            out.append(host);
            push_char(&mut out, '/');
            push_char(&mut out, l);
            push_char(&mut out, '"');
            proof {
                assert(tail.skip(9) =~= text@.skip(i + 9));
                assert(spec_rewrite(tail, host@) == href_repl(host@, l) + spec_rewrite(
                    text@.skip(i + 9),
                    host@,
                ));
                assert(out@ =~= prev + href_repl(host@, l));
                assert(prev + (href_repl(host@, l) + spec_rewrite(text@.skip(i + 9), host@)) =~= (
                prev + href_repl(host@, l)) + spec_rewrite(text@.skip(i + 9), host@));
            }
            i += 9;
        } else {
            let c = text.get_char(i);
            push_char(&mut out, c);
            proof {
                assert(tail.len() >= 8 ==> tail[6] == text@[i + 6] && tail[7] == text@[i + 7]);
                assert(tail.len() >= 9 ==> tail[8] == text@[i + 8]);
                assert(!src_match_at(tail, 0));
                assert(!href_match_at(tail, 0));
                assert(tail[0] == text@[i as int]);
                assert(tail.skip(1) =~= text@.skip(i + 1));
                assert(spec_rewrite(tail, host@) == seq![text@[i as int]] + spec_rewrite(
                    text@.skip(i + 1),
                    host@,
                ));
                assert(prev.push(c) =~= prev + seq![c]);
                assert(prev + (seq![c] + spec_rewrite(text@.skip(i + 1), host@)) =~= (prev
                    + seq![c]) + spec_rewrite(text@.skip(i + 1), host@));
            }
            i += 1;
        }
    }
    proof {
        assert(text@.skip(n as int) =~= Seq::<char>::empty());
        assert(out@ + spec_rewrite(text@.skip(n as int), host@) =~= out@);
    }
    out
}

/// The rewrite only matches root-relative single-letter attributes:
/// text with no such attribute passes through unchanged.
pub proof fn lemma_rewrite_untouched(t: Seq<char>, host: Seq<char>)
    requires
        forall|i: int| !src_match_at(t, i) && !href_match_at(t, i),
    ensures
        spec_rewrite(t, host) == t,
    decreases t.len(),
{
    if t.len() == 0 {
    } else {
        assert(!src_match_at(t, 0));
        assert(!href_match_at(t, 0));
        assert(forall|i: int| !src_match_at(t.skip(1), i) && !href_match_at(t.skip(1), i)) by {
            assert forall|i: int| !src_match_at(t.skip(1), i) && !href_match_at(t.skip(1), i) by {
                if 0 <= i {
                    lemma_match_at_shift(t, "src=\"/"@, 1, i + 1);
                    lemma_match_at_shift(t, "href=\"/"@, 1, i + 1);
                    if i + 8 <= t.len() - 1 {
                        assert(t.skip(1)[i + 6] == t[i + 7]);
                        assert(t.skip(1)[i + 7] == t[i + 8]);
                    }
                    if i + 9 <= t.len() - 1 {
                        assert(t.skip(1)[i + 8] == t[i + 9]);
                    }
                    assert(!src_match_at(t, i + 1));
                    assert(!href_match_at(t, i + 1));
                }
            }
        }
        lemma_rewrite_untouched(t.skip(1), host);
        assert(seq![t[0]] + t.skip(1) =~= t);
    }
}

/// The closing head tag, the splice anchor.
pub open spec fn head_tag() -> Seq<char> {
    seq!['<', '/', 'h', 'e', 'a', 'd', '>']
}

/// `css` put in place of the first closing head tag of `t`; text without
/// such a tag is kept unchanged, with no error.
pub open spec fn spec_inject(t: Seq<char>, css: Seq<char>) -> Seq<char>
    decreases t.len(),
{
    if match_at(t, head_tag(), 0) {
        css + t.skip(7)
    } else if t.len() == 0 {
        t
    } else {
        seq![t[0]] + spec_inject(t.skip(1), css)
    }
}

/// When the first closing head tag of `t` stands at `i`, the splice
/// keeps the text on both sides and puts `css` in the tag's place.
pub proof fn lemma_inject_at(t: Seq<char>, css: Seq<char>, i: int)
    requires
        match_at(t, head_tag(), i),
        forall|j: int| 0 <= j < i ==> !match_at(t, head_tag(), j),
    ensures
        spec_inject(t, css) == t.subrange(0, i) + css + t.skip(i + 7),
    decreases i,
{
    if i == 0 {
        assert(t.subrange(0, 0) + css + t.skip(7) =~= css + t.skip(7));
    } else {
        assert(!match_at(t, head_tag(), 0));
        assert(t.len() > 0);
        lemma_match_at_shift(t, head_tag(), 1, i);
        assert(forall|j: int| 0 <= j < i - 1 ==> !match_at(t.skip(1), head_tag(), j)) by {
            assert forall|j: int| 0 <= j < i - 1 implies !match_at(t.skip(1), head_tag(), j) by {
                lemma_match_at_shift(t, head_tag(), 1, j + 1);
            }
        }
        lemma_inject_at(t.skip(1), css, i - 1);
        assert(t.skip(1).subrange(0, i - 1) =~= t.subrange(1, i));
        assert(t.skip(1).skip(i - 1 + 7) =~= t.skip(i + 7));
        assert(seq![t[0]] + (t.subrange(1, i) + css + t.skip(i + 7)) =~= t.subrange(0, i) + css
            + t.skip(i + 7));
    }
}

/// Text without a closing head tag passes the splice unchanged.
pub proof fn lemma_inject_none(t: Seq<char>, css: Seq<char>)
    requires
        forall|j: int| !match_at(t, head_tag(), j),
    ensures
        spec_inject(t, css) == t,
    decreases t.len(),
{
    if t.len() == 0 {
    } else {
        assert(!match_at(t, head_tag(), 0));
        assert(forall|j: int| !match_at(t.skip(1), head_tag(), j)) by {
            assert forall|j: int| !match_at(t.skip(1), head_tag(), j) by {
                if 0 <= j {
                    lemma_match_at_shift(t, head_tag(), 1, j + 1);
                }
            }
        }
        lemma_inject_none(t.skip(1), css);
        assert(seq![t[0]] + t.skip(1) =~= t);
    }
}

/// Splice correctness: in text holding exactly one closing head tag, at
/// `i`, the spliced text keeps the prefix, carries the whole fragment at
/// `i`, keeps the rest, and is longer by the fragment's length less the
/// tag the fragment stands in place of.
pub proof fn lemma_splice_once(t: Seq<char>, css: Seq<char>, i: int)
    requires
        match_at(t, head_tag(), i),
        forall|j: int| j != i ==> !match_at(t, head_tag(), j),
    ensures
        spec_inject(t, css) == t.subrange(0, i) + css + t.skip(i + 7),
        spec_inject(t, css).len() == t.len() + css.len() - 7,
        spec_inject(t, css).subrange(i, i + css.len() as int) == css,
        spec_inject(t, css).subrange(0, i) == t.subrange(0, i),
{
    lemma_inject_at(t, css, i);
    assert(spec_inject(t, css).subrange(i, i + css.len() as int) =~= css);
    assert(spec_inject(t, css).subrange(0, i) =~= t.subrange(0, i));
}

/// Splice the CSS fragment in before the first closing head tag.
pub fn inject_css(text: &str, css: &str) -> (out: String)
    ensures
        out@ == spec_inject(text@, css@),
{
    proof {
        reveal_strlit("</head>");
        assert("</head>"@ =~= head_tag());
    }
    let r = find_first(text, "</head>");
    match r {
        Some(i) => {
            let n = text.unicode_len();
            let pre = text.substring_char(0, i);
            let post = text.substring_char(i + 7, n);
            let mut out = String::from_str(pre);
            out.append(css);
            out.append(post);
            proof {
                lemma_inject_at(text@, css@, i as int);
                assert(text@.subrange(i + 7, n as int) =~= text@.skip(i + 7));
            }
            out
        },
        None => {
            let out = String::from_str(text);
            proof {
                lemma_inject_none(text@, css@);
            }
            out
        },
    }
}

/// The rendered preview page: the fetched page text with its links
/// rewritten to the wiki's host and the logo CSS for `info` spliced in
/// before the first closing head tag.
pub fn render_preview(wiki: &str, page: &str, info: &LogoImageInfo) -> (out: String)
    ensures
        out@ == spec_inject(
            spec_rewrite(page@, wiki@),
            spec_css(info.thumb_url@, info.url_1_5x@, info.url_2x@),
        ),
{
    let fixed = rewrite_links(page, wiki);
    let css = build_css(info);
    inject_css(fixed.as_str(), css.as_str())
}

} // verus!
