//! Building a pre-filled pull-request URL for the fixed set of
//! Bitwarden repositories: the remote URL picks the repository, the
//! branch name carries the ticket code, the pull-request template is
//! filled with a link to the ticket, and everything is assembled into
//! a comparison URL.
//!
//! The logic here is pure string work; the shell around the library
//! inspects the working copy, reads the template file and launches
//! the URL.

use vstd::prelude::*;

use crate::colorx::is_dec_digit;
use crate::colorx::is_dec_digit_exec;
use crate::errors::ErrorWithContext;

verus! {

// ---------------------------------------------------------------------------
// Substring search
// ---------------------------------------------------------------------------
/// `p` occurs in `s` at position `i`.
pub open spec fn occurs_at(s: Seq<char>, p: Seq<char>, i: int) -> bool {
    0 <= i && i + p.len() <= s.len() && s.subrange(i, i + p.len()) == p
}

/// `p` occurs somewhere in `s`.
pub open spec fn contains_seq(s: Seq<char>, p: Seq<char>) -> bool {
    exists|i: int| occurs_at(s, p, i)
}

fn match_at(s: &str, p: &str, i: usize) -> (r: bool)
    requires
        i + p@.len() <= s@.len(),
        s@.len() <= usize::MAX,
    ensures
        r == occurs_at(s@, p@, i as int),
{
    let m = p.unicode_len();
    let mut j: usize = 0;
    while j < m
        invariant
            j <= m,
            m == p@.len(),
            i + m <= s@.len(),
            s@.len() <= usize::MAX,
            forall|t: int| 0 <= t < j ==> s@[i + t] == p@[t],
        decreases m - j,
    {
        if s.get_char(i + j) != p.get_char(j) {
            proof {
                if occurs_at(s@, p@, i as int) {
                    assert(s@.subrange(i as int, i + p@.len())[j as int] == p@[j as int]);
                }
            }
            return false;
        }
        j = j + 1;
    }
    proof {
        assert(s@.subrange(i as int, i + p@.len()) =~= p@);
    }
    true
}

/// Finds the leftmost occurrence of `p` in `s`.
pub fn find_first(s: &str, p: &str) -> (r: Option<usize>)
    ensures
        (match r {
            Some(i) => occurs_at(s@, p@, i as int) && (forall|j: int|
                occurs_at(s@, p@, j) ==> i <= j),
            None => !contains_seq(s@, p@),
        }),
{
    let n = s.unicode_len();
    let m = p.unicode_len();
    if m > n {
        proof {
            if contains_seq(s@, p@) {
                let i = choose|i: int| occurs_at(s@, p@, i);
            }
        }
        return None;
    }
    if m == 0 {
        proof {
            assert(s@.subrange(0, 0) =~= p@);
        }
        return Some(0);
    }
    let mut i: usize = 0;
    while i <= n - m
        invariant
            1 <= m <= n,
            n == s@.len(),
            m == p@.len(),
            i <= n - m + 1,
            forall|j: int| 0 <= j < i ==> !occurs_at(s@, p@, j),
        decreases n - i,
    {
        if match_at(s, p, i) {
            return Some(i);
        }
        i = i + 1;
    }
    proof {
        assert forall|j: int| !occurs_at(s@, p@, j) by {
            if occurs_at(s@, p@, j) {
                assert(0 <= j && j + m <= n);
            }
        }
    }
    None
}

// ---------------------------------------------------------------------------
// Remote classification
// ---------------------------------------------------------------------------
/// The web address of the Bitwarden repository that a remote URL
/// names, if any.  The first matching substring wins, in the fixed
/// order clients, server, sdk-internal.
pub open spec fn bitwarden_repo_of(url: Seq<char>) -> Option<Seq<char>> {
    if contains_seq(url, "bitwarden/clients"@) {
        Some("https://github.com/bitwarden/clients"@)
    } else if contains_seq(url, "bitwarden/server"@) {
        Some("https://github.com/bitwarden/server"@)
    } else if contains_seq(url, "bitwarden/sdk-internal"@) {
        Some("https://github.com/bitwarden/sdk-internal"@)
    } else {
        None
    }
}

/// Determines the Bitwarden repository's web address from the remote
/// URL, or `None` for an unrecognized remote.
pub fn classify_remote(remote_url: &str) -> (r: Option<String>)
    ensures
        r is Some <==> bitwarden_repo_of(remote_url@) is Some,
        (match r {
            Some(u) => u@ == bitwarden_repo_of(remote_url@).unwrap(),
            None => true,
        }),
{
    if find_first(remote_url, "bitwarden/clients").is_some() {
        Some(String::from_str("https://github.com/bitwarden/clients"))
    } else if find_first(remote_url, "bitwarden/server").is_some() {
        Some(String::from_str("https://github.com/bitwarden/server"))
    } else if find_first(remote_url, "bitwarden/sdk-internal").is_some() {
        Some(String::from_str("https://github.com/bitwarden/sdk-internal"))
    } else {
        None
    }
}

// ---------------------------------------------------------------------------
// Small string building blocks
// ---------------------------------------------------------------------------
/// Relies on std's `String::push`: appends exactly the given
/// character to the end of the string.
#[verifier::external_body]
fn push_char(s: &mut String, c: char)
    ensures
        final(s)@ == old(s)@.push(c),
{
    s.push(c);
}

// ---------------------------------------------------------------------------
// Ticket extraction
//
// A ticket code is two ASCII letters, a dash and 1 to 5 digits,
// standing between two slashes of the branch name; it is reported
// without the slashes and with the letters uppercased.
// ---------------------------------------------------------------------------
/// A character is an ASCII letter.
pub open spec fn is_ascii_letter(c: char) -> bool {
    ('a' <= c && c <= 'z') || ('A' <= c && c <= 'Z')
}

/// The uppercase form of an ASCII letter; other characters are kept.
pub open spec fn upper_char(c: char) -> char {
    if 'a' <= c && c <= 'z' {
        (((c as u8) - 32) as u8) as char
    } else {
        c
    }
}

fn is_ascii_letter_exec(c: char) -> (r: bool)
    ensures
        r == is_ascii_letter(c),
{
    ('a' <= c && c <= 'z') || ('A' <= c && c <= 'Z')
}

fn upper_char_exec(c: char) -> (r: char)
    ensures
        r == upper_char(c),
{
    if 'a' <= c && c <= 'z' {
        ((c as u8) - 32) as char
    } else {
        c
    }
}

/// The slash-delimited ticket pattern matches at position `i` of `s`
/// with `k` digits: `/`, two letters, `-`, `k` digits, `/`.
pub open spec fn ticket_match_at(s: Seq<char>, i: int, k: int) -> bool {
    &&& 0 <= i
    &&& 1 <= k <= 5
    &&& i + k + 5 <= s.len()
    &&& s[i] == '/'
    &&& is_ascii_letter(s[i + 1])
    &&& is_ascii_letter(s[i + 2])
    &&& s[i + 3] == '-'
    &&& (forall|j: int| i + 4 <= j < i + 4 + k ==> is_dec_digit(#[trigger] s[j]))
    &&& s[i + 4 + k] == '/'
}

/// The branch name holds a ticket pattern somewhere.
pub open spec fn has_ticket(s: Seq<char>) -> bool {
    exists|i: int, k: int| ticket_match_at(s, i, k)
}

/// No ticket pattern matches to the left of position `i`.
pub open spec fn ticket_leftmost(s: Seq<char>, i: int) -> bool {
    forall|i2: int, k2: int| ticket_match_at(s, i2, k2) ==> i <= i2
}

/// The ticket code of the match at `(i, k)`: the letters uppercased,
/// the dash and the digits verbatim, without the slashes.
pub open spec fn ticket_at(s: Seq<char>, i: int, k: int) -> Seq<char> {
    seq![upper_char(s[i + 1]), upper_char(s[i + 2]), '-'] + s.subrange(i + 4, i + 4 + k)
}

/// Tests the ticket pattern at one position; at most one digit count
/// can match there.
fn ticket_match_len(s: &str, i: usize) -> (r: Option<usize>)
    requires
        i < s@.len(),
        s@.len() <= usize::MAX,
    ensures
        (match r {
            Some(k) => ticket_match_at(s@, i as int, k as int),
            None => forall|k: int| !ticket_match_at(s@, i as int, k),
        }),
{
    let n = s.unicode_len();
    if s.get_char(i) != '/' {
        return None;
    }
    if n < 6 || i > n - 6 {
        return None;
    }
    if !is_ascii_letter_exec(s.get_char(i + 1)) {
        return None;
    }
    if !is_ascii_letter_exec(s.get_char(i + 2)) {
        return None;
    }
    if s.get_char(i + 3) != '-' {
        return None;
    }
    let mut k: usize = 0;
    while k < 5 && i + 4 + k < n && is_dec_digit_exec(s.get_char(i + 4 + k))
        invariant
            k <= 5,
            i + 4 + k <= n,
            n == s@.len(),
            i + 6 <= n,
            forall|j: int| i + 4 <= j < i + 4 + k ==> is_dec_digit(#[trigger] s@[j]),
        decreases 5 - k,
    {
        k = k + 1;
    }
    if k >= 1 && i + 4 + k < n && s.get_char(i + 4 + k) == '/' {
        Some(k)
    } else {
        proof {
            assert forall|k2: int| !ticket_match_at(s@, i as int, k2) by {
                if ticket_match_at(s@, i as int, k2) {
                    if k2 < k {
                        assert(is_dec_digit(s@[i + 4 + k2]));
                        assert(s@[i + 4 + k2] == '/');
                    } else if k2 == k {
                    } else {
                        // k2 > k: the loop stopped at a position every
                        // longer match needs to be a digit
                        assert(k < 5);
                        assert(i + 4 + k < n);
                        assert(is_dec_digit(s@[i + 4 + k]));
                    }
                }
            }
        }
        None
    }
}

/// Extracts the ticket code from the branch name: the leftmost
/// slash-delimited ticket pattern, uppercased and without the
/// slashes.  `None` when the branch holds no such pattern.
pub fn get_ticket_from_branch(branch: &str) -> (r: Option<String>)
    ensures
        (match r {
            Some(t) => exists|i: int, k: int|
                #![auto]
                ticket_match_at(branch@, i, k) && ticket_leftmost(branch@, i) && t@ == ticket_at(
                    branch@,
                    i,
                    k,
                ),
            None => !has_ticket(branch@),
        }),
{
    let n = branch.unicode_len();
    let mut i: usize = 0;
    while i < n
        invariant
            i <= n,
            n == branch@.len(),
            forall|i2: int, k2: int| 0 <= i2 < i ==> !ticket_match_at(branch@, i2, k2),
        decreases n - i,
    {
        match ticket_match_len(branch, i) {
            Some(k) => {
                let mut t = String::new();
                push_char(&mut t, upper_char_exec(branch.get_char(i + 1)));
                push_char(&mut t, upper_char_exec(branch.get_char(i + 2)));
                push_char(&mut t, '-');
                let mut j: usize = i + 4;
                while j < i + 4 + k
                    invariant
                        i + 4 <= j <= i + 4 + k,
                        i + k + 5 <= n == branch@.len(),
                        t@ == seq![
                            upper_char(branch@[i as int + 1]),
                            upper_char(branch@[i as int + 2]),
                            '-',
                        ] + branch@.subrange(i + 4, j as int),
                    decreases i + 4 + k - j,
                {
                    push_char(&mut t, branch.get_char(j));
                    proof {
                        assert(branch@.subrange(i + 4, j + 1) =~= branch@.subrange(
                            i + 4,
                            j as int,
                        ).push(branch@[j as int]));
                    }
                    j = j + 1;
                }
                proof {
                    assert(t@ =~= ticket_at(branch@, i as int, k as int));
                }
                return Some(t);
            },
            None => {},
        }
        i = i + 1;
    }
    proof {
        assert forall|i2: int, k2: int| !ticket_match_at(branch@, i2, k2) by {
            if ticket_match_at(branch@, i2, k2) {
                assert(0 <= i2 && i2 + k2 + 5 <= n);
            }
        }
    }
    None
}

// ---------------------------------------------------------------------------
// Filling the pull-request template
// ---------------------------------------------------------------------------
/// `s` with every occurrence of `pat` replaced by `rep`, scanning
/// left to right over non-overlapping occurrences; a string without
/// the pattern, or an empty pattern, leaves `s` unchanged.
pub open spec fn replaced_all(s: Seq<char>, pat: Seq<char>, rep: Seq<char>) -> Seq<char>
    decreases s.len(),
{
    if pat.len() == 0 || pat.len() > s.len() {
        s
    } else if s.subrange(0, pat.len() as int) == pat {
        rep + replaced_all(s.skip(pat.len() as int), pat, rep)
    } else {
        seq![s[0]] + replaced_all(s.skip(1), pat, rep)
    }
}

/// Replaces every occurrence of `pattern` in `text` with
/// `replacement`, left to right, without overlapping; a text without
/// the pattern is returned unchanged.
pub fn replace_all(text: &str, pattern: &str, replacement: &str) -> (r: String)
    ensures
        r@ == replaced_all(text@, pattern@, replacement@),
{
    let n = text.unicode_len();
    let m = pattern.unicode_len();
    if m == 0 {
        return String::from_str(text);
    }
    let mut r = String::new();
    proof {
        assert(text@.skip(0) =~= text@);
        assert(r@ + replaced_all(text@, pattern@, replacement@) =~= replaced_all(
            text@,
            pattern@,
            replacement@,
        ));
    }
    let mut i: usize = 0;
    while i < n
        invariant
            i <= n,
            n == text@.len(),
            m == pattern@.len(),
            1 <= m,
            r@ + replaced_all(text@.skip(i as int), pattern@, replacement@) == replaced_all(
                text@,
                pattern@,
                replacement@,
            ),
        decreases n - i,
    {
        let ghost old_r = r@;
        let ghost rem = text@.skip(i as int);
        if m <= n - i && match_at(text, pattern, i) {
            r.append(replacement);
            proof {
                assert(rem.subrange(0, m as int) =~= text@.subrange(i as int, i + m));
                assert(rem.skip(m as int) =~= text@.skip(i + m));
                assert(replaced_all(rem, pattern@, replacement@) == replacement@ + replaced_all(
                    text@.skip(i + m),
                    pattern@,
                    replacement@,
                ));
                assert(old_r + (replacement@ + replaced_all(text@.skip(i + m), pattern@, replacement@))
                    =~= (old_r + replacement@) + replaced_all(text@.skip(i + m), pattern@, replacement@));
            }
            i = i + m;
        } else {
            push_char(&mut r, text.get_char(i));
            proof {
                assert(rem.skip(1) =~= text@.skip(i + 1));
                assert(rem[0] == text@[i as int]);
                if i + m <= n {
                    assert(rem.subrange(0, m as int) =~= text@.subrange(i as int, i + m));
                    assert(replaced_all(rem, pattern@, replacement@) == seq![rem[0]]
                        + replaced_all(rem.skip(1), pattern@, replacement@));
                } else {
                    // the remainder is shorter than the pattern: both
                    // tails stay unchanged
                    assert(replaced_all(rem, pattern@, replacement@) == rem);
                    assert(replaced_all(rem.skip(1), pattern@, replacement@) == rem.skip(1));
                    assert(rem =~= seq![rem[0]] + rem.skip(1));
                }
                assert(old_r + (seq![rem[0]] + replaced_all(text@.skip(i + 1), pattern@, replacement@))
                    =~= old_r.push(rem[0]) + replaced_all(text@.skip(i + 1), pattern@, replacement@));
            }
            i = i + 1;
        }
    }
    proof {
        assert(text@.skip(n as int) =~= Seq::<char>::empty());
        assert(r@ + replaced_all(Seq::<char>::empty(), pattern@, replacement@) =~= r@);
    }
    r
}

/// The fixed tracking-section header of the pull-request template.
pub open spec fn tracking_header() -> Seq<char> {
    "## 🎟️ Tracking\n\n<!-- Paste the link to the Jira or GitHub issue or otherwise describe / point to where this change is coming from. -->"@
}

/// The issue-tracker URL of a ticket.
pub open spec fn jira_url(ticket: Seq<char>) -> Seq<char> {
    "https://bitwarden.atlassian.net/browse/"@ + ticket
}

/// The markdown link to a ticket: the code as link text, the
/// issue-tracker URL as target.
pub open spec fn jira_link_markdown(ticket: Seq<char>) -> Seq<char> {
    seq!['['] + ticket + seq![']', '('] + jira_url(ticket) + seq![')']
}

/// What the tracking-section header is replaced with: the same short
/// header followed by the markdown link to the ticket.
pub open spec fn tracking_replacement(ticket: Seq<char>) -> Seq<char> {
    "## 🎟️ Tracking\n\n"@ + jira_link_markdown(ticket)
}

/// The pull-request description: the template with every occurrence
/// of the tracking-section header replaced by the header plus the
/// ticket link; a template without the header stays unchanged.
pub open spec fn pr_description_of(template: Seq<char>, ticket: Seq<char>) -> Seq<char> {
    replaced_all(template, tracking_header(), tracking_replacement(ticket))
}

/// Builds the pull-request description: the template with a markdown
/// link to the ticket placed under the tracking-section header,
/// wherever the header occurs.
pub fn create_pr_description(template: &str, ticket: &str) -> (r: String)
    ensures
        r@ == pr_description_of(template@, ticket@),
{
    let mut replacement = String::from_str("## 🎟️ Tracking\n\n");
    replacement.append("[");
    replacement.append(ticket);
    replacement.append("](");
    replacement.append("https://bitwarden.atlassian.net/browse/");
    replacement.append(ticket);
    replacement.append(")");
    proof {
        reveal_strlit("[");
        reveal_strlit("](");
        reveal_strlit(")");
        assert(replacement@ =~= tracking_replacement(ticket@));
    }
    let r = replace_all(
        template,
        "## 🎟️ Tracking\n\n<!-- Paste the link to the Jira or GitHub issue or otherwise describe / point to where this change is coming from. -->",
        replacement.as_str(),
    );
    r
}

// ---------------------------------------------------------------------------
// The comparison URL
// ---------------------------------------------------------------------------
/// What the URL builder returns for a base URL and three query pairs:
/// the serialized URL with the pairs appended percent-encoded, or
/// nothing when the base does not parse as an absolute URL.
pub uninterp spec fn url_with_query(
    base: Seq<char>,
    k1: Seq<char>,
    v1: Seq<char>,
    k2: Seq<char>,
    v2: Seq<char>,
    k3: Seq<char>,
    v3: Seq<char>,
) -> Option<Seq<char>>;

/// Relies on url::Url::parse, url::Url::query_pairs_mut with
/// form_urlencoded::Serializer::append_pair, and url::Url's string
/// serialization: parsing an absolute URL, appending three
/// percent-encoded query pairs and serializing the result depend on
/// the given strings alone; parse failure depends on the base alone.
#[verifier::external_body]
fn url_append_query(
    base: &str,
    k1: &str,
    v1: &str,
    k2: &str,
    v2: &str,
    k3: &str,
    v3: &str,
) -> (r: Result<String, String>)
    ensures
        (match r {
            Ok(u) => url_with_query(base@, k1@, v1@, k2@, v2@, k3@, v3@) == Some(u@),
            Err(_) => url_with_query(base@, k1@, v1@, k2@, v2@, k3@, v3@) is None,
        }),
{
    match url::Url::parse(base) {
        Ok(mut u) => {
            u.query_pairs_mut().append_pair(k1, v1).append_pair(k2, v2).append_pair(k3, v3);
            Ok(u.to_string())
        },
        Err(e) => Err(e.to_string()),
    }
}

/// The comparison address before the query: the repository's web
/// address plus `/compare/main...` plus the branch.
pub open spec fn compare_url_base(repo_url: Seq<char>, branch: Seq<char>) -> Seq<char> {
    repo_url + "/compare/main..."@ + branch
}

/// Builds the pull-request comparison URL: base address plus
/// `/compare/main...branch`, with `quick_pull`, `title` and `body`
/// query parameters appended percent-encoded.  Fails exactly when the
/// assembled address does not parse as an absolute URL.
pub fn construct_pull_request_url(
    repo_url: &str,
    branch: &str,
    title: &str,
    description: &str,
) -> (r: Result<String, ErrorWithContext>)
    ensures
        (match r {
            Ok(u) => url_with_query(
                compare_url_base(repo_url@, branch@),
                "quick_pull"@,
                "1"@,
                "title"@,
                title@,
                "body"@,
                description@,
            ) == Some(u@),
            Err(e) => {
                &&& url_with_query(
                    compare_url_base(repo_url@, branch@),
                    "quick_pull"@,
                    "1"@,
                    "title"@,
                    title@,
                    "body"@,
                    description@,
                ) is None
                &&& e.user_message@ == "Invalid GitHub URL: "@ + compare_url_base(
                    repo_url@,
                    branch@,
                )
                &&& e.technical_details is Some
            },
        }),
{
    let mut full = String::from_str(repo_url);
    full.append("/compare/main...");
    full.append(branch);
    assert(full@ == compare_url_base(repo_url@, branch@));
    match url_append_query(full.as_str(), "quick_pull", "1", "title", title, "body", description) {
        Ok(u) => Ok(u),
        Err(detail) => {
            let mut msg = String::from_str("Invalid GitHub URL: ");
            msg.append(full.as_str());
            Err(ErrorWithContext::new(msg, Some(detail)))
        },
    }
}

// ---------------------------------------------------------------------------
// The whole pull-request preparation
// ---------------------------------------------------------------------------
/// The comparison URL cannot be built for this remote, branch,
/// template and ticket: the assembled address does not parse.
pub open spec fn url_fails_for(
    remote_url: Seq<char>,
    branch: Seq<char>,
    template: Seq<char>,
    ticket: Seq<char>,
) -> bool {
    url_with_query(
        compare_url_base(bitwarden_repo_of(remote_url).unwrap(), branch),
        "quick_pull"@,
        "1"@,
        "title"@,
        seq!['['] + ticket + seq![']'],
        "body"@,
        pr_description_of(template, ticket),
    ) is None
}

/// Everything a prepared pull request consists of.
#[derive(Debug)]
pub struct PullRequest {
    pub repo_url: String,
    pub branch: String,
    pub ticket: String,
    pub title: String,
    pub description: String,
    pub url: String,
}

/// Prepares a pull request from the remote URL, the branch name and
/// the template text: picks the repository, extracts the ticket,
/// fills the template and builds the comparison URL.  Each failing
/// step reports its own error, in this order: unrecognized remote,
/// branch without a ticket, address that does not parse as a URL.
pub fn prepare_pull_request(remote_url: &str, branch: &str, template: &str) -> (r: Result<
    PullRequest,
    ErrorWithContext,
>)
    ensures
        (match r {
            Ok(pr) => {
                &&& bitwarden_repo_of(remote_url@) is Some
                &&& has_ticket(branch@)
                &&& pr.repo_url@ == bitwarden_repo_of(remote_url@).unwrap()
                &&& pr.branch@ == branch@
                &&& exists|i: int, k: int|
                    #![auto]
                    ticket_match_at(branch@, i, k) && ticket_leftmost(branch@, i) && pr.ticket@
                        == ticket_at(branch@, i, k)
                &&& pr.title@ == seq!['['] + pr.ticket@ + seq![']']
                &&& pr.description@ == pr_description_of(template@, pr.ticket@)
                &&& url_with_query(
                    compare_url_base(pr.repo_url@, branch@),
                    "quick_pull"@,
                    "1"@,
                    "title"@,
                    pr.title@,
                    "body"@,
                    pr.description@,
                ) == Some(pr.url@)
            },
            Err(e) => {
                ||| (bitwarden_repo_of(remote_url@) is None && e.user_message@
                    == "Not a recognized Bitwarden repository"@)
                ||| (bitwarden_repo_of(remote_url@) is Some && !has_ticket(branch@)
                    && e.user_message@ == "No ticket found in branch name: "@ + branch@)
                ||| (bitwarden_repo_of(remote_url@) is Some && has_ticket(branch@) && (exists|
                    i: int,
                    k: int,
                |
                    #![auto]
                    ticket_match_at(branch@, i, k) && ticket_leftmost(branch@, i) && url_fails_for(
                        remote_url@,
                        branch@,
                        template@,
                        ticket_at(branch@, i, k),
                    )) && e.user_message@ == "Invalid GitHub URL: "@ + compare_url_base(
                    bitwarden_repo_of(remote_url@).unwrap(),
                    branch@,
                ))
            },
        }),
{
    let repo_url = match classify_remote(remote_url) {
        None => {
            return Err(
                ErrorWithContext::new(
                    String::from_str("Not a recognized Bitwarden repository"),
                    None,
                ),
            );
        },
        Some(u) => u,
    };
    let ticket = match get_ticket_from_branch(branch) {
        None => {
            let mut msg = String::from_str("No ticket found in branch name: ");
            msg.append(branch);
            return Err(ErrorWithContext::new(msg, None));
        },
        Some(t) => t,
    };
    let mut title = String::from_str("[");
    title.append(ticket.as_str());
    title.append("]");
    proof {
        reveal_strlit("[");
        reveal_strlit("]");
        assert(title@ =~= seq!['['] + ticket@ + seq![']']);
    }
    let description = create_pr_description(template, ticket.as_str());
    match construct_pull_request_url(
        repo_url.as_str(),
        branch,
        title.as_str(),
        description.as_str(),
    ) {
        Ok(url) => Ok(
            PullRequest {
                repo_url,
                branch: String::from_str(branch),
                ticket,
                title,
                description,
                url,
            },
        ),
        Err(e) => Err(e),
    }
}

} // verus!
