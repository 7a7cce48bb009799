//! Resolution of internal links against the permalink table, validation of
//! anchor targets in rendered HTML, and the reading-time estimator.

use vstd::prelude::*;

use crate::permalinks::PermalinkTable;
use crate::text::{contains_char, contains_seq, contains_str, find_char, first_index_of};
use crate::text::{lemma_first_index_of, lemma_first_index_unique};

verus! {

/// A failed link or anchor check. Severity is the caller's decision, made
/// through the policy; the check itself only reports what was not found.
#[derive(Debug, Clone, PartialEq)]
pub enum LinkError {
    /// The link's decoded path has no entry in the permalink table.
    LinkNotFound { link: String },
    /// The target page's body shows none of the recognized anchor patterns.
    AnchorNotFound { anchor: String },
}

/// What percent-decoding (UTF-8, lossy) makes of a candidate path.
pub uninterp spec fn decoded_path_of(s: Seq<char>) -> Seq<char>;

/// How many Unicode words a text holds.
pub uninterp spec fn word_count_of(s: Seq<char>) -> nat;

/// Relies on `percent_encoding::percent_decode` and
/// `PercentDecode::decode_utf8_lossy`: every `%XX` hex escape becomes the
/// byte it names, every other byte passes through, and the decoded bytes are
/// read as UTF-8 with invalid sequences replaced. The result is a function of
/// the input alone, and an input without `'%'` is returned unchanged.
#[verifier::external_body]
fn decode_path(s: &str) -> (r: String)
    ensures
        r@ == decoded_path_of(s@),
        !contains_char(s@, '%') ==> r@ == s@,
{
    percent_encoding::percent_decode(s.as_bytes()).decode_utf8_lossy().to_string()
}

/// Relies on `unicode_segmentation`'s `UnicodeSegmentation::unicode_words`:
/// the iterator yields the word substrings of the text under UAX#29
/// segmentation, so its length is a function of the characters alone, and an
/// empty text has no words.
#[verifier::external_body]
fn count_unicode_words(s: &str) -> (r: usize)
    ensures
        r as nat == word_count_of(s@),
        s@.len() == 0 ==> r == 0,
{
    unicode_segmentation::UnicodeSegmentation::unicode_words(s).count()
}

/// Word count and estimated reading time in minutes, at 200 words a minute,
/// rounded up; an empty text takes zero minutes.
pub fn get_reading_analytics(content: &str) -> (r: (usize, usize))
    ensures
        r.0 as nat == word_count_of(content@),
        r.1 == (r.0 + 199) / 200,
        content@.len() == 0 ==> r == (0usize, 0usize),
{
    let word_count = count_unicode_words(content);
    let reading_time = word_count / 200 + (if word_count % 200 == 0 {
        0
    } else {
        1
    });
    proof {
        assert(word_count / 200 + (if word_count % 200 == 0 {
            0int
        } else {
            1int
        }) == (word_count + 199) / 200) by (nonlinear_arith);
    }
    (word_count, reading_time)
}

/// The anchor name addressed by a URL: what stands after the first `'#'`, or
/// the whole string when it has none.
pub open spec fn spec_anchor_name(url: Seq<char>) -> Seq<char> {
    if contains_char(url, '#') {
        url.subrange(first_index_of(url, '#') + 1, url.len() as int)
    } else {
        url
    }
}

/// The twelve recognized anchor patterns: attribute `id` or `name`, lowercase
/// or uppercase, with the value double-quoted, single-quoted, or bare; each
/// with one leading space, so that the match cannot start inside a larger
/// identifier.
pub open spec fn anchor_present(body: Seq<char>, anchor: Seq<char>) -> bool {
    ||| contains_seq(body, " id="@ + anchor)
    ||| contains_seq(body, " ID="@ + anchor)
    ||| contains_seq(body, " id='"@ + anchor + "'"@)
    ||| contains_seq(body, " ID='"@ + anchor + "'"@)
    ||| contains_seq(body, " id=\""@ + anchor + "\""@)
    ||| contains_seq(body, " ID=\""@ + anchor + "\""@)
    ||| contains_seq(body, " name="@ + anchor)
    ||| contains_seq(body, " NAME="@ + anchor)
    ||| contains_seq(body, " name='"@ + anchor + "'"@)
    ||| contains_seq(body, " NAME='"@ + anchor + "'"@)
    ||| contains_seq(body, " name=\""@ + anchor + "\""@)
    ||| contains_seq(body, " NAME=\""@ + anchor + "\""@)
}

/// `prefix`, then `anchor`: one unquoted candidate pattern.
fn prefixed_candidate(prefix: &str, anchor: &str) -> (r: String)
    ensures
        r@ == prefix@ + anchor@,
{
    let mut s = prefix.to_owned();
    s.append(anchor);
    s
}

/// `prefix`, then `anchor`, then `suffix`: one quoted candidate pattern.
fn wrapped_candidate(prefix: &str, anchor: &str, suffix: &str) -> (r: String)
    ensures
        r@ == prefix@ + anchor@ + suffix@,
{
    let mut s = prefix.to_owned();
    s.append(anchor);
    s.append(suffix);
    s
}

/// Confirm that the fragment a URL addresses exists in the rendered `body` as
/// one of the twelve recognized anchor patterns; the check is deliberately a
/// literal substring search, tolerant of malformed markup.
pub fn check_page_for_anchor(url: &str, body: &String) -> (r: Result<(), LinkError>)
    ensures
        (r is Ok) == anchor_present(body@, spec_anchor_name(url@)),
        r matches Err(e) ==> (e matches LinkError::AnchorNotFound { anchor }
            && anchor@ == spec_anchor_name(url@)),
{
    let n = url.unicode_len();
    let anchor: &str = match find_char(url, '#') {
        Some(i) => {
            proof {
                lemma_first_index_of(url@, '#');
            }
            url.substring_char(i + 1, n)
        },
        None => url,
    };
    let c01 = prefixed_candidate(" id=", anchor);
    let c02 = prefixed_candidate(" ID=", anchor);
    let c03 = wrapped_candidate(" id='", anchor, "'");
    let c04 = wrapped_candidate(" ID='", anchor, "'");
    let c05 = wrapped_candidate(" id=\"", anchor, "\"");
    let c06 = wrapped_candidate(" ID=\"", anchor, "\"");
    let c07 = prefixed_candidate(" name=", anchor);
    let c08 = prefixed_candidate(" NAME=", anchor);
    let c09 = wrapped_candidate(" name='", anchor, "'");
    let c10 = wrapped_candidate(" NAME='", anchor, "'");
    let c11 = wrapped_candidate(" name=\"", anchor, "\"");
    let c12 = wrapped_candidate(" NAME=\"", anchor, "\"");
    let found = contains_str(body.as_str(), c01.as_str()) || contains_str(
        body.as_str(),
        c02.as_str(),
    ) || contains_str(body.as_str(), c03.as_str()) || contains_str(body.as_str(), c04.as_str())
        || contains_str(body.as_str(), c05.as_str()) || contains_str(body.as_str(), c06.as_str())
        || contains_str(body.as_str(), c07.as_str()) || contains_str(body.as_str(), c08.as_str())
        || contains_str(body.as_str(), c09.as_str()) || contains_str(body.as_str(), c10.as_str())
        || contains_str(body.as_str(), c11.as_str()) || contains_str(body.as_str(), c12.as_str());
    if found {
        Ok(())
    } else {
        Err(LinkError::AnchorNotFound { anchor: anchor.to_owned() })
    }
}

/// Result of a successful resolution of an internal link.
#[derive(Debug, PartialEq, Clone)]
pub struct ResolvedInternalLink {
    /// Resolved link target, as absolute URL address, with the anchor
    /// appended when the link carried one.
    pub permalink: String,
    /// Internal path to the content file, without the leading `@/` marker,
    /// percent-decoded.
    pub md_path: String,
    /// Optional anchor target, echoed verbatim from the link.
    pub anchor: Option<String>,
}

/// The link with a single leading `@/` marker removed.
pub open spec fn spec_strip_marker(link: Seq<char>) -> Seq<char> {
    if link.len() >= 2 && link[0] == '@' && link[1] == '/' {
        link.subrange(2, link.len() as int)
    } else {
        link
    }
}

/// The candidate path of a stripped link: what stands before its first `'#'`,
/// or all of it when it has none.
pub open spec fn spec_link_path(clean: Seq<char>) -> Seq<char> {
    if contains_char(clean, '#') {
        clean.subrange(0, first_index_of(clean, '#'))
    } else {
        clean
    }
}

/// The raw anchor of a stripped link: what stands after its first `'#'`, if
/// any.
pub open spec fn spec_link_fragment(clean: Seq<char>) -> Option<Seq<char>> {
    if contains_char(clean, '#') {
        Some(clean.subrange(first_index_of(clean, '#') + 1, clean.len() as int))
    } else {
        None
    }
}

/// The decoded path a raw link asks the table for: marker stripped, split at
/// the first `'#'`, percent-decoded.
pub open spec fn spec_resolved_path(link: Seq<char>) -> Seq<char> {
    decoded_path_of(spec_link_path(spec_strip_marker(link)))
}

/// Resolution succeeds exactly when the table knows the decoded path.
pub open spec fn spec_resolve_succeeds(link: Seq<char>, table: Map<Seq<char>, Seq<char>>) -> bool {
    table.contains_key(spec_resolved_path(link))
}

/// The absolute URL a successful resolution returns: the table's URL, with
/// the raw anchor appended after `'#'` when the link carried one.
pub open spec fn spec_resolved_permalink(link: Seq<char>, table: Map<Seq<char>, Seq<char>>) -> Seq<
    char,
> {
    let url = table[spec_resolved_path(link)];
    match spec_link_fragment(spec_strip_marker(link)) {
        Some(f) => url + "#"@ + f,
        None => url,
    }
}

/// The anchor a successful resolution reports: the raw fragment, undecoded.
pub open spec fn spec_resolved_anchor(link: Seq<char>) -> Option<Seq<char>> {
    spec_link_fragment(spec_strip_marker(link))
}

/// Resolve an internal link (of the `@/posts/something.md#hey` sort) to its
/// absolute URL, the decoded content path, and the optional anchor. A decoded
/// path absent from the table is a `LinkNotFound` failure carrying the raw
/// link.
pub fn resolve_internal_link(link: &str, permalinks: &PermalinkTable) -> (r: Result<
    ResolvedInternalLink,
    LinkError,
>)
    ensures
        (r is Ok) == spec_resolve_succeeds(link@, permalinks@),
        r matches Ok(res) ==> ({
            &&& res.permalink@ == spec_resolved_permalink(link@, permalinks@)
            &&& res.md_path@ == spec_resolved_path(link@)
            &&& match spec_resolved_anchor(link@) {
                Some(f) => res.anchor matches Some(a) && a@ == f,
                None => res.anchor is None,
            }
        }),
        r matches Err(e) ==> (e matches LinkError::LinkNotFound { link: l } && l@ == link@),
{
    let n = link.unicode_len();
    let has_marker = n >= 2 && link.get_char(0) == '@' && link.get_char(1) == '/';
    let clean: &str = if has_marker {
        link.substring_char(2, n)
    } else {
        link
    };
    let cn = clean.unicode_len();
    let (path_str, frag): (&str, Option<&str>) = match find_char(clean, '#') {
        Some(i) => {
            proof {
                lemma_first_index_of(clean@, '#');
            }
            (clean.substring_char(0, i), Some(clean.substring_char(i + 1, cn)))
        },
        None => (clean, None),
    };
    let decoded = decode_path(path_str);
    match permalinks.get(&decoded) {
        Some(url) => {
            match frag {
                Some(f) => {
                    let mut permalink = url.clone();
                    permalink.append("#");
                    permalink.append(f);
                    Ok(
                        ResolvedInternalLink {
                            permalink,
                            md_path: decoded,
                            anchor: Some(f.to_owned()),
                        },
                    )
                },
                None => Ok(
                    ResolvedInternalLink {
                        permalink: url.clone(),
                        md_path: decoded,
                        anchor: None,
                    },
                ),
            }
        },
        None => Err(LinkError::LinkNotFound { link: link.to_owned() }),
    }
}

/// For every `(path, url)` pair of the table, resolving `"@/" + path` yields
/// the table's URL, the path itself, and no anchor. Holds for every path that
/// contains no `'#'` and that percent-decoding leaves unchanged.
pub proof fn lemma_resolve_table_entry(
    path: Seq<char>,
    url: Seq<char>,
    table: Map<Seq<char>, Seq<char>>,
)
    requires
        table.contains_key(path),
        table[path] == url,
        !contains_char(path, '#'),
        decoded_path_of(path) == path,
    ensures
        spec_resolve_succeeds("@/"@ + path, table),
        spec_resolved_permalink("@/"@ + path, table) == url,
        spec_resolved_path("@/"@ + path) == path,
        spec_resolved_anchor("@/"@ + path) is None,
{
    reveal_strlit("@/");
    let link = "@/"@ + path;
    assert(link[0] == '@' && link[1] == '/');
    assert(link.subrange(2, link.len() as int) =~= path);
    assert(spec_strip_marker(link) == path);
}

/// For every `(path, url)` pair of the table and every fragment `f`,
/// resolving `"@/" + path + "#" + f` yields the URL with `"#" + f` appended
/// and the anchor `f`. Holds for every path that contains no `'#'` and that
/// percent-decoding leaves unchanged.
pub proof fn lemma_resolve_table_entry_with_fragment(
    path: Seq<char>,
    url: Seq<char>,
    f: Seq<char>,
    table: Map<Seq<char>, Seq<char>>,
)
    requires
        table.contains_key(path),
        table[path] == url,
        !contains_char(path, '#'),
        decoded_path_of(path) == path,
    ensures
        spec_resolve_succeeds("@/"@ + path + "#"@ + f, table),
        spec_resolved_permalink("@/"@ + path + "#"@ + f, table) == url + "#"@ + f,
        spec_resolved_path("@/"@ + path + "#"@ + f) == path,
        spec_resolved_anchor("@/"@ + path + "#"@ + f) matches Some(a) && a == f,
{
    reveal_strlit("@/");
    reveal_strlit("#");
    let link = "@/"@ + path + "#"@ + f;
    assert(link[0] == '@' && link[1] == '/');
    let clean = link.subrange(2, link.len() as int);
    assert(clean =~= path + "#"@ + f);
    assert(spec_strip_marker(link) == clean);
    assert(clean[path.len() as int] == '#');
    assert forall|j: int| 0 <= j < path.len() implies clean[j] != '#' by {
        assert(clean[j] == path[j]);
    }
    lemma_first_index_unique(clean, '#', path.len() as int);
    assert(clean.subrange(0, path.len() as int) =~= path);
    assert(clean.subrange(path.len() as int + 1, clean.len() as int) =~= f);
}

} // verus!
