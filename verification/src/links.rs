//! Links to the project's pages.

use vstd::prelude::*;
use crate::text::opt_view;

verus! {

/// The user documentation.
pub const USER_DOCS_URL: &'static str = "https://github.com/tzero86/Zterm";

/// The issue tracker.
pub const GITHUB_ISSUES_URL: &'static str = "https://github.com/tzero86/Zterm/issues";

/// The discussion forum.
pub const SLACK_URL: &'static str = "https://github.com/tzero86/Zterm/discussions";

/// The privacy policy.
pub const PRIVACY_POLICY_URL: &'static str = "https://github.com/tzero86/Zterm/blob/main/PRIVACY.md";

/// The number of characters the keys and values of `pairs` hold.
pub open spec fn pairs_text_len(pairs: Seq<(Seq<char>, Seq<char>)>) -> int
    decreases pairs.len(),
{
    if pairs.len() == 0 {
        0
    } else {
        pairs_text_len(pairs.drop_last()) + pairs.last().0.len() + pairs.last().1.len()
    }
}

/// Whether the query that `pairs` make fits in a `String`: percent-encoded,
/// each character takes at most 12 bytes and each pair two more, after at most
/// a mebibyte of URL.
pub open spec fn query_fits(pairs: Seq<(Seq<char>, Seq<char>)>) -> bool {
    12 * pairs_text_len(pairs) + 2 * pairs.len() + 0x10_0000 <= isize::MAX
}

/// Key/value pairs of owned strings as plain text.
pub open spec fn pairs_view(pairs: Seq<(String, String)>) -> Seq<(Seq<char>, Seq<char>)> {
    pairs.map_values(|p: (String, String)| (p.0@, p.1@))
}

/// The URL that `url::Url` makes of `url` with the query pairs `pairs`
/// appended in order (percent-encoded as `application/x-www-form-urlencoded`);
/// `None` when `url` does not parse.
pub uninterp spec fn url_with_query_pairs(url: Seq<char>, pairs: Seq<(Seq<char>, Seq<char>)>) -> Option<Seq<char>>;

/// `url::Url::parse`, then `query_pairs_mut().extend_pairs(pairs)`, then the
/// URL's serialization. The result is named by `url_with_query_pairs`; it
/// depends on the texts alone. When the query is written, `Url` moves a
/// fragment out and back, and putting it back panics once the URL is longer
/// than `u32::MAX` bytes; a URL without `#` has no fragment. Opening the query
/// of a parsed URL without one also takes its length as a `u32`; a URL of at
/// most 1024 characters parses to far less. The query is written into a
/// `String`, bounded by `isize::MAX` bytes (`query_fits`).
#[verifier::external_body]
fn append_query_pairs(url: &str, pairs: &Vec<(String, String)>) -> (r: Option<String>)
    requires
        !url@.contains('#'),
        url@.len() <= 1024,
        query_fits(pairs_view(pairs@)),
    ensures
        opt_view(r) == url_with_query_pairs(url@, pairs_view(pairs@)),
{
    let mut parsed = url::Url::parse(url).ok()?;
    parsed.query_pairs_mut().extend_pairs(pairs.iter());
    Some(parsed.to_string())
}

/// The page where a new issue is chosen.
pub open spec fn new_issue_url() -> Seq<char> {
    "https://github.com/tzero86/Zterm/issues/new/choose"@
}

/// The query pairs of the feedback form: the app's version, when known, then
/// the operating system's version.
pub open spec fn feedback_pairs(app_version: Option<Seq<char>>, os_version: Seq<char>) -> Seq<(Seq<char>, Seq<char>)> {
    match app_version {
        Some(v) => seq![("zterm-version"@, v), ("os-version"@, os_version)],
        None => seq![("os-version"@, os_version)],
    }
}

/// The feedback form's URL: the new-issue page with the feedback pairs as
/// its query.
pub open spec fn spec_feedback_form_url(app_version: Option<Seq<char>>, os_version: Seq<char>) -> Option<Seq<char>> {
    url_with_query_pairs(new_issue_url(), feedback_pairs(app_version, os_version))
}

/// The feedback form's URL for the given app and operating system versions;
/// `None` only where the page's URL fails to parse.
pub fn feedback_form_url(app_version: Option<&str>, os_version: &str) -> (r: Option<String>)
    requires
        query_fits(
            feedback_pairs(
                match app_version {
                    Some(v) => Some(v@),
                    None => None,
                },
                os_version@,
            ),
        ),
    ensures
        opt_view(r) == spec_feedback_form_url(
            match app_version {
                Some(v) => Some(v@),
                None => None,
            },
            os_version@,
        ),
{
    let base = "https://github.com/tzero86/Zterm/issues/new/choose";
    proof {
        reveal_strlit("https://github.com/tzero86/Zterm/issues/new/choose");
        reveal_strlit("zterm-version");
        reveal_strlit("os-version");
    }
    let ghost app = match app_version {
        Some(v) => Some(v@),
        None => None,
    };
    let mut pairs: Vec<(String, String)> = Vec::new();
    match app_version {
        Some(v) => {
            pairs.push((String::from_str("zterm-version"), String::from_str(v)));
        },
        None => {},
    }
    pairs.push((String::from_str("os-version"), String::from_str(os_version)));
    assert(pairs_view(pairs@) =~= feedback_pairs(app, os_version@));
    assert(!base@.contains('#'));
    append_query_pairs(base, &pairs)
}

} // verus!
