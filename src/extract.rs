//! Details that issue texts carry: the clients named in an issue's body, the
//! modules it touches, whether its title marks a feature, and the escaping
//! that titles and bodies need in a report.

use crate::pull_list::pr_iterator::opt_view;
use crate::text::{replace, replace_seq, split, split_seq, str_eq, trim, trimmed, views};
use vstd::prelude::*;

verus! {

/// What capture group `group` of the first match of regular expression
/// `pattern` in `haystack` holds (with `.` matching line breaks when
/// `dot_all`); none when the pattern is invalid, nothing matches, or the
/// group took no part in the match. Group 0 is the whole match.
pub uninterp spec fn regex_capture(
    pattern: Seq<char>,
    dot_all: bool,
    haystack: Seq<char>,
    group: nat,
) -> Option<Seq<char>>;

/// Relies on `regex::RegexBuilder::build` and `regex::Regex::captures`: the
/// text of a capture group of the leftmost-first match.
#[verifier::external_body]
fn capture(pattern: &str, dot_all: bool, haystack: &str, group: usize) -> (r: Option<String>)
    ensures
        opt_view(r) == regex_capture(pattern@, dot_all, haystack@, group as nat),
{
    let re = regex::RegexBuilder::new(pattern).dot_matches_new_line(dot_all).build().ok()?;
    re.captures(haystack)?.get(group).map(|m| m.as_str().to_string())
}

/// The section of an issue form that names clients, in its older wording.
pub open spec fn old_client_pattern() -> Seq<char> {
    "### Have any clients (encountered|requested) this\\?\n+(.*?)\n*(###|$)"@
}

/// The section of an issue form that names clients, in its newer wording.
pub open spec fn new_client_pattern() -> Seq<char> {
    "### List the company names of any affected clients\n+(.*?)\n*(###|$)"@
}

/// A title that marks a feature, an epic or a request.
pub open spec fn feature_pattern() -> Seq<char> {
    "(\\[Feature\\]|\\[Epic\\]|\\[Request\\]):"@
}

/// The section of an issue form that names the modules touched.
pub open spec fn module_pattern() -> Seq<char> {
    "### Which module\\(s\\) (is this bug related to|would developing this feature affect|would this epic affect|would making this change affect)\\?\n+(.*?)\n*(###|$)"@
}

/// The pattern for the older client section.
pub fn old_client_regexp() -> (r: &'static str)
    ensures
        r@ == old_client_pattern(),
{
    "### Have any clients (encountered|requested) this\\?\n+(.*?)\n*(###|$)"
}

/// The pattern for the newer client section.
pub fn new_client_regexp() -> (r: &'static str)
    ensures
        r@ == new_client_pattern(),
{
    "### List the company names of any affected clients\n+(.*?)\n*(###|$)"
}

/// The pattern for feature titles.
pub fn feature_regexp() -> (r: &'static str)
    ensures
        r@ == feature_pattern(),
{
    "(\\[Feature\\]|\\[Epic\\]|\\[Request\\]):"
}

/// The pattern for the module section.
pub fn module_regexp() -> (r: &'static str)
    ensures
        r@ == module_pattern(),
{
    "### Which module\\(s\\) (is this bug related to|would developing this feature affect|would this epic affect|would making this change affect)\\?\n+(.*?)\n*(###|$)"
}

/// `&` and `#` escaped for LaTeX.
pub open spec fn latex_escaped(s: Seq<char>) -> Seq<char> {
    replace_seq(replace_seq(s, "&"@, "\\&"@), "#"@, "\\#"@)
}

/// The answer that an unanswered form section holds.
pub open spec fn no_response() -> Seq<char> {
    "_No response_"@
}

/// The text of the client section of a body, under either wording.
pub open spec fn client_capture(body: Seq<char>) -> Option<Seq<char>> {
    if regex_capture(old_client_pattern(), true, body, 0) is None {
        regex_capture(new_client_pattern(), true, body, 1)
    } else {
        regex_capture(old_client_pattern(), true, body, 2)
    }
}

/// The clients of a captured client section, one line each in the form, as
/// one comma-separated and escaped line; none when the section is missing,
/// unanswered or blank.
pub open spec fn clients_from_capture(raw: Option<Seq<char>>) -> Option<Seq<char>> {
    match raw {
        Some(m) => {
            let t = latex_escaped(replace_seq(m, "\n"@, ", "@));
            if t == no_response() || trimmed(t).len() == 0 {
                None
            } else {
                Some(t)
            }
        },
        None => None,
    }
}

/// The clients that a body names.
pub open spec fn client_text(body: Seq<char>) -> Option<Seq<char>> {
    clients_from_capture(client_capture(body))
}

/// The modules of a captured module section, split at `", "`;
/// "Unsure/Other" when the section is missing, unanswered or blank.
pub open spec fn modules_from_capture(raw: Option<Seq<char>>) -> Seq<Seq<char>> {
    let chosen = match raw {
        Some(m) => if m != no_response() && trimmed(m).len() > 0 {
            m
        } else {
            "Unsure/Other"@
        },
        None => "Unsure/Other"@,
    };
    split_seq(chosen, ", "@)
}

/// The modules that a body names.
pub open spec fn module_list(body: Seq<char>) -> Seq<Seq<char>> {
    modules_from_capture(regex_capture(module_pattern(), false, body, 2))
}

/// Whether a title marks a feature.
pub open spec fn is_feature_title(title: Seq<char>) -> bool {
    regex_capture(feature_pattern(), false, title, 0) is Some
}

fn latex_escape(s: &str) -> (r: String)
    ensures
        r@ == latex_escaped(s@),
{
    proof {
        reveal_strlit("&");
        reveal_strlit("#");
    }
    let a = replace(s, "&", "\\&");
    replace(a.as_str(), "#", "\\#")
}

/// The clients of a captured client section.
pub fn clients_from(raw: Option<String>) -> (r: Option<String>)
    ensures
        opt_view(r) == clients_from_capture(opt_view(raw)),
{
    match raw {
        Some(m) => {
            proof {
                reveal_strlit("\n");
            }
            let joined = replace(m.as_str(), "\n", ", ");
            let t = latex_escape(joined.as_str());
            let blank = trim(t.as_str());
            if str_eq(t.as_str(), "_No response_") || blank.unicode_len() == 0 {
                None
            } else {
                Some(t)
            }
        },
        None => None,
    }
}

/// The clients that an issue body names.
pub fn client_details(haystack: &str) -> (r: Option<String>)
    ensures
        opt_view(r) == client_text(haystack@),
{
    let old_re = old_client_regexp();
    let new_re = new_client_regexp();
    let raw = if capture(old_re, true, haystack, 0).is_none() {
        capture(new_re, true, haystack, 1)
    } else {
        capture(old_re, true, haystack, 2)
    };
    clients_from(raw)
}

/// The modules of a captured module section.
pub fn modules_from(raw: Option<String>) -> (r: Vec<String>)
    ensures
        views(r@) == modules_from_capture(opt_view(raw)),
{
    let chosen = match raw {
        Some(m) => {
            let blank = trim(m.as_str());
            if !str_eq(m.as_str(), "_No response_") && blank.unicode_len() > 0 {
                m
            } else {
                String::from_str("Unsure/Other")
            }
        },
        None => String::from_str("Unsure/Other"),
    };
    proof {
        reveal_strlit(", ");
    }
    split(chosen.as_str(), ", ")
}

/// The modules that an issue body names.
pub fn module_details(haystack: &str) -> (r: Option<Vec<String>>)
    ensures
        r matches Some(v) && views(v@) == module_list(haystack@),
{
    Some(modules_from(capture(module_regexp(), false, haystack, 2)))
}

/// Whether a title marks a feature.
pub fn feature_title(title: &str) -> (r: bool)
    ensures
        r == is_feature_title(title@),
{
    capture(feature_regexp(), false, title, 0).is_some()
}

/// A title trimmed, with `_`, `&` and `#` escaped for LaTeX.
pub open spec fn clean_title(t: Seq<char>) -> Seq<char> {
    latex_escaped(replace_seq(trimmed(t), "_"@, "\\_"@))
}

/// A body trimmed, with Windows line ends made plain; empty when missing.
pub open spec fn clean_body(b: Option<Seq<char>>) -> Seq<char> {
    match b {
        Some(x) => replace_seq(trimmed(x), "\r\n"@, "\n"@),
        None => Seq::empty(),
    }
}

/// An issue title as a report shows it.
pub fn title(raw: &str) -> (r: String)
    ensures
        r@ == clean_title(raw@),
{
    proof {
        reveal_strlit("_");
    }
    let t = trim(raw);
    let u = replace(t.as_str(), "_", "\\_");
    latex_escape(u.as_str())
}

/// An issue body as the extraction reads it.
pub fn body(raw: &Option<String>) -> (r: String)
    ensures
        r@ == clean_body(opt_view(*raw)),
{
    match raw {
        Some(b) => {
            proof {
                reveal_strlit("\r\n");
            }
            let t = trim(b.as_str());
            replace(t.as_str(), "\r\n", "\n")
        },
        None => String::new(),
    }
}

} // verus!
