//! A post of the blog, read from the stem of its file name:
//! `YYYY-MM-DD Title.md`.
use vstd::prelude::*;
use vstd::string::{StringExecFns, StringSliceAdditionalSpecFns};
use vstd::utf8::{decode_utf8, encode_utf8, encode_utf8_decode_utf8, is_char_boundary};
use chrono::Datelike;
use crate::slugs::{SlugRegistry, is_claim, slug_chars, slug_of};
use crate::text::{encode_scalar_of, lemma_encode_concat, trim, trimmed};

verus! {

broadcast use vstd::string::group_string_axioms;

/// What `chrono::NaiveDate::parse_from_str(text, format)` gives, as
/// (year, month, day), or `None` where it fails.
pub uninterp spec fn naive_date_of(text: Seq<char>, format: Seq<char>) -> Option<(i32, u32, u32)>;

/// Calls `chrono::NaiveDate::parse_from_str` and gives the date as
/// (year, month, day). The result is named `naive_date_of(text, format)`;
/// which texts chrono accepts is not stated.
#[verifier::external_body]
fn parse_naive_date(text: &str, format: &str) -> (r: Option<(i32, u32, u32)>)
    ensures
        r == naive_date_of(text@, format@),
{
    chrono::NaiveDate::parse_from_str(text, format).ok().map(|d| (d.year(), d.month(), d.day()))
}

/// What `pulldown_cmark` renders of `markdown` as HTML, with the default
/// options.
pub uninterp spec fn html_of(markdown: Seq<char>) -> Seq<char>;

/// Renders `markdown` with `pulldown_cmark::html::push_html` into a new
/// string. The result is named `html_of(markdown)`.
#[verifier::external_body]
fn render_markdown(markdown: &str) -> (html: String)
    ensures
        html@ == html_of(markdown@),
{
    let mut html = String::new();
    pulldown_cmark::html::push_html(&mut html, pulldown_cmark::Parser::new(markdown));
    html
}

/// The format of the date that starts a post's file name.
pub open spec fn date_format() -> Seq<char> {
    "%Y-%m-%d"@
}

/// A calendar date.
#[derive(Clone, Copy, Debug, PartialEq, Eq)]
pub struct Date {
    pub year: i32,
    pub month: u32,
    pub day: u32,
}

/// The (date text, title, date) that a file stem, given by its UTF-8 bytes,
/// names: the first ten bytes are the date, the rest, trimmed, the title.
/// `None` where the stem is too short, the title empty or the date invalid.
pub open spec fn stem_fields(stem: Seq<u8>) -> Option<(Seq<char>, Seq<char>, (i32, u32, u32))> {
    if stem.len() <= 10 {
        None
    } else {
        let ymd = decode_utf8(stem.subrange(0, 10));
        let title = trimmed(decode_utf8(stem.subrange(10, stem.len() as int)));
        if title.len() == 0 {
            None
        } else {
            match naive_date_of(ymd, date_format()) {
                Some(d) => Some((ymd, title, d)),
                None => None,
            }
        }
    }
}

/// How a stem names a post: cut the stem `t` after its first ten bytes, at
/// `k` characters; the post is dated by the first part as `chrono` reads it
/// with `%Y-%m-%d`, and titled by the rest, trimmed; there is none where
/// the rest is only white space or the date is not one.
pub proof fn lemma_stem_cut_after_date(t: Seq<char>, k: int)
    requires
        0 <= k <= t.len(),
        encode_utf8(t.take(k)).len() == 10,
    ensures
        stem_fields(encode_utf8(t)) == if trimmed(t.skip(k)).len() == 0 {
            None
        } else {
            match naive_date_of(t.take(k), "%Y-%m-%d"@) {
                Some(d) => Some((t.take(k), trimmed(t.skip(k)), d)),
                None => None,
            }
        },
{
    let a = t.take(k);
    let b = t.skip(k);
    assert(t =~= a + b);
    lemma_encode_concat(a, b);
    let bytes = encode_utf8(t);
    encode_utf8_decode_utf8(a);
    encode_utf8_decode_utf8(b);
    if b.len() == 0 {
        assert(encode_utf8(b) =~= Seq::<u8>::empty());
        assert(trimmed(b) =~= b);
    } else {
        assert(encode_utf8(b) == encode_scalar_of(b[0]) + encode_utf8(b.drop_first()));
        assert(encode_scalar_of(b[0]).len() >= 1);
        assert(bytes.subrange(0, 10) =~= encode_utf8(a));
        assert(bytes.subrange(10, bytes.len() as int) =~= encode_utf8(b));
    }
}

/// The stem can be cut after its tenth byte, which must end a character.
pub open spec fn stem_cuttable(stem: Seq<u8>) -> bool {
    stem.len() > 10 ==> is_char_boundary(stem, 10)
}

/// A post.
#[derive(Debug)]
pub struct Post {
    /// The path of the post's file.
    pub path: String,
    /// The title, from the file name.
    pub title: String,
    /// The date as written in the file name.
    pub ymd: String,
    /// The date.
    pub date: Date,
    /// The slug, unique within the site.
    pub slug: String,
}

/// What the templates show of a post beside others: title, date, slug.
#[derive(Debug)]
pub struct Summary {
    pub title: String,
    pub date: String,
    pub slug: String,
}

impl Post {
    /// Reads the post at `path`, whose file stem is `stem` (`None` where it
    /// has none or it is not UTF-8). Gives `None` where the stem does not
    /// name a post; else claims a slug for the title from `slugs`.
    pub fn new(path: &str, stem: Option<&str>, slugs: &mut SlugRegistry) -> (r: Option<Post>)
        requires
            old(slugs).wf(),
            stem matches Some(s) ==> stem_cuttable(s.spec_bytes()),
        ensures
            final(slugs).wf(),
            match stem {
                None => r is None && final(slugs)@ == old(slugs)@,
                Some(s) => match stem_fields(s.spec_bytes()) {
                    None => r is None && final(slugs)@ == old(slugs)@,
                    Some((ymd, title, d)) => r matches Some(p) && {
                        &&& p.path@ == path@
                        &&& p.ymd@ == ymd
                        &&& p.title@ == title
                        &&& p.date == (Date { year: d.0, month: d.1, day: d.2 })
                        &&& is_claim(old(slugs)@, slug_of(title), p.slug@)
                        &&& slug_chars(p.slug@)
                        &&& final(slugs)@ == old(slugs)@.push(p.slug@)
                    },
                },
            },
    {
        let stem = match stem {
            Some(s) => s,
            None => return None,
        };
        if stem.as_bytes().len() <= 10 {
            return None;
        }
        let (ymd, rest) = stem.split_at(10);
        proof {
            encode_utf8_decode_utf8(ymd@);
            encode_utf8_decode_utf8(rest@);
        }
        let title = trim(rest);
        if title.is_empty() {
            return None;
        }
        let parsed = parse_naive_date(ymd, "%Y-%m-%d");
        let (year, month, day) = match parsed {
            Some(d) => d,
            None => return None,
        };
        let slug = slugs.claim(title);
        Some(
            Post {
                path: String::from_str(path),
                title: title.to_owned(),
                ymd: ymd.to_owned(),
                date: Date { year, month, day },
                slug,
            },
        )
    }

    /// The post's HTML, rendered from `markdown`, the text of its file.
    pub fn content(&self, markdown: &str) -> (html: String)
        ensures
            html@ == html_of(markdown@),
    {
        render_markdown(markdown)
    }

    /// Title, date and slug of the post.
    pub fn summary(&self) -> (s: Summary)
        ensures
            s.title@ == self.title@,
            s.date@ == self.ymd@,
            s.slug@ == self.slug@,
    {
        Summary { title: self.title.clone(), date: self.ymd.clone(), slug: self.slug.clone() }
    }
}

} // verus!
