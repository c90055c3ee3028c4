//! Decisions of the update downloads: which redirects are followed and what
//! a failed request is reported as.
use vstd::prelude::*;
use crate::text::{chars_of, lowercase, push_str, string_from_chars, to_lowercase, trim_chars, trimmed};
use crate::updater::{allowed_url, is_allowed_download_url, MAX_REDIRECT_HOPS};

verus! {

broadcast use vstd::string::group_string_axioms;

/// The first position at or after `i` where `needle` occurs in `s`.
pub open spec fn find_from(s: Seq<char>, needle: Seq<char>, i: int) -> Option<int>
    decreases s.len() + 1 - i,
{
    if i < 0 || i + needle.len() > s.len() {
        None
    } else if s.subrange(i, i + needle.len()) == needle {
        Some(i)
    } else {
        find_from(s, needle, i + 1)
    }
}

/// Whether `c` ends the value of a header hint.
pub open spec fn is_hint_separator(c: char) -> bool {
    c == ',' || c == '\n' || c == ';'
}

/// The position of the first separator at or after `i`, or the length.
pub open spec fn segment_end(s: Seq<char>, i: int) -> int
    decreases s.len() - i,
{
    if i < 0 || i >= s.len() || is_hint_separator(s[i]) {
        i
    } else {
        segment_end(s, i + 1)
    }
}

/// The number of bytes `c` takes in UTF-8.
pub open spec fn utf8_width(c: char) -> nat {
    let n = c as u32;
    if n < 0x80 {
        1
    } else if n < 0x800 {
        2
    } else if n < 0x10000 {
        3
    } else {
        4
    }
}

/// The number of bytes `s` takes in UTF-8.
pub open spec fn utf8_len(s: Seq<char>) -> nat
    decreases s.len(),
{
    if s.len() == 0 {
        0
    } else {
        utf8_len(s.drop_last()) + utf8_width(s.last())
    }
}

/// The character position of `s` at which byte offset `b` falls, when it
/// falls on a character boundary (the end of `s` counts as one).
pub open spec fn boundary_at(s: Seq<char>, b: int) -> Option<int> {
    if exists|q: int| 0 <= q <= s.len() && #[trigger] utf8_len(s.take(q)) == b {
        Some(choose|q: int| 0 <= q <= s.len() && #[trigger] utf8_len(s.take(q)) == b)
    } else {
        None
    }
}

/// The byte offset just past the first `<header>:` in the lower-cased text,
/// when there is one.
pub open spec fn hint_value_offset(text: Seq<char>, header: Seq<char>) -> Option<int> {
    let needle = header + ":"@;
    match find_from(lowercase(text), needle, 0) {
        None => None,
        Some(p) => Some((utf8_len(lowercase(text).take(p)) + utf8_len(needle)) as int),
    }
}

/// Whether the hint's byte offset, found in the lower-cased text, is a
/// character boundary of the text as given, so that the text can be cut
/// there. Lower-casing can change a character's UTF-8 length, and cutting
/// a string elsewhere panics.
pub open spec fn hint_readable(text: Seq<char>, header: Seq<char>) -> bool {
    match hint_value_offset(text, header) {
        None => true,
        Some(b) => boundary_at(text, b) is Some,
    }
}

/// The value that follows `<header>:` in an error text, found in the
/// lower-cased text and read from the text as given at the same byte
/// offset, up to the first `,`, newline or `;`, trimmed; none when absent or
/// blank.
pub open spec fn header_hint(text: Seq<char>, header: Seq<char>) -> Option<Seq<char>> {
    match hint_value_offset(text, header) {
        None => None,
        Some(b) => match boundary_at(text, b) {
            None => None,
            Some(q) => {
                let rest = text.skip(q);
                let value = trimmed(rest.take(segment_end(rest, 0)));
                if value.len() == 0 {
                    None
                } else {
                    Some(value)
                }
            },
        },
    }
}

proof fn lemma_utf8_len_step(s: Seq<char>, q: int)
    requires
        0 <= q < s.len(),
    ensures
        utf8_len(s.take(q + 1)) == utf8_len(s.take(q)) + utf8_width(s[q]),
{
    assert(s.take(q + 1).drop_last() =~= s.take(q));
}

proof fn lemma_utf8_len_grows(s: Seq<char>, a: int, b: int)
    requires
        0 <= a < b <= s.len(),
    ensures
        utf8_len(s.take(a)) < utf8_len(s.take(b)),
    decreases b - a,
{
    lemma_utf8_len_step(s, b - 1);
    if a < b - 1 {
        lemma_utf8_len_grows(s, a, b - 1);
    }
}

fn char_utf8_width(c: char) -> (r: u128)
    ensures
        r == utf8_width(c),
{
    let n = c as u32;
    if n < 0x80 {
        1
    } else if n < 0x800 {
        2
    } else if n < 0x10000 {
        3
    } else {
        4
    }
}

fn chars_utf8_len(s: &[char]) -> (r: u128)
    ensures
        r == utf8_len(s@),
        r <= 4 * s@.len(),
        r <= 0x4_0000_0000_0000_0000,
{
    let mut total: u128 = 0;
    let mut i: usize = 0;
    while i < s.len()
        invariant
            i <= s@.len(),
            total == utf8_len(s@.take(i as int)),
            total <= 4 * i,
        decreases s@.len() - i,
    {
        proof {
            lemma_utf8_len_step(s@, i as int);
        }
        total = total + char_utf8_width(s[i]);
        i = i + 1;
    }
    assert(s@.take(s@.len() as int) =~= s@);
    assert(s@.len() <= usize::MAX);
    total
}

/// The character position where byte offset `b` falls on a boundary of `s`.
fn boundary_position(s: &Vec<char>, b: u128) -> (r: Option<usize>)
    ensures
        match boundary_at(s@, b as int) {
            Some(q) => r == Some(q as usize),
            None => r is None,
        },
{
    let mut q: usize = 0;
    let mut acc: u128 = 0;
    assert(s@.take(0) =~= Seq::<char>::empty());
    while q < s.len() && acc < b
        invariant
            q <= s@.len(),
            acc == utf8_len(s@.take(q as int)),
            acc <= 4 * q,
            q > 0 ==> utf8_len(s@.take(q - 1)) < b,
        decreases s@.len() - q,
    {
        proof {
            lemma_utf8_len_step(s@, q as int);
        }
        acc = acc + char_utf8_width(s[q]);
        q = q + 1;
    }
    proof {
        assert forall|x: int| 0 <= x < q implies #[trigger] utf8_len(s@.take(x)) < b by {
            if x < q - 1 {
                lemma_utf8_len_grows(s@, x, q - 1);
            }
        }
        assert forall|x: int| q < x <= s@.len() implies #[trigger] utf8_len(s@.take(x)) > acc by {
            lemma_utf8_len_grows(s@, q as int, x);
        }
    }
    if acc == b {
        proof {
            assert(utf8_len(s@.take(q as int)) == b);
            let c = choose|x: int| 0 <= x <= s@.len() && #[trigger] utf8_len(s@.take(x)) == b;
            if c < q {
                assert(utf8_len(s@.take(c)) < b);
            }
            if c > q {
                assert(utf8_len(s@.take(c)) > acc);
            }
        }
        Some(q)
    } else {
        proof {
            assert forall|x: int| 0 <= x <= s@.len() implies #[trigger] utf8_len(s@.take(x)) != b by {
                if x > q {
                    assert(utf8_len(s@.take(x)) > acc);
                    if q < s@.len() {
                        assert(acc >= b);
                    }
                }
            }
        }
        None
    }
}

fn find_chars(s: &Vec<char>, needle: &Vec<char>) -> (r: Option<usize>)
    ensures
        r matches Some(k) ==> find_from(s@, needle@, 0) == Some(k as int) && k + needle@.len() <= s@.len(),
        r is None ==> find_from(s@, needle@, 0) is None,
{
    if needle.len() == 0 {
        assert(s@.subrange(0, 0) =~= needle@);
        return Some(0);
    }
    if needle.len() > s.len() {
        return None;
    }
    let last = s.len() - needle.len();
    let mut i: usize = 0;
    while i <= last
        invariant
            last == s@.len() - needle@.len(),
            last < usize::MAX,
            needle@.len() > 0,
            i <= last + 1,
            find_from(s@, needle@, 0) == find_from(s@, needle@, i as int),
        decreases last + 1 - i,
    {
        let mut k: usize = 0;
        let mut same = true;
        while k < needle.len()
            invariant
                i <= last,
                last == s@.len() - needle@.len(),
                k <= needle@.len(),
                same == (forall|j: int| 0 <= j < k ==> s@[i + j] == needle@[j]),
            decreases needle@.len() - k,
        {
            assert(i + k < s.len());
            if s[i + k] != needle[k] {
                same = false;
            }
            k = k + 1;
        }
        if same {
            assert(s@.subrange(i as int, i + needle@.len()) =~= needle@);
            return Some(i);
        }
        assert(s@.subrange(i as int, i + needle@.len()) != needle@) by {
            let j = choose|j: int| 0 <= j < needle@.len() && s@[i + j] != needle@[j];
            assert(s@.subrange(i as int, i + needle@.len())[j] == s@[i + j]);
        }
        i = i + 1;
    }
    None
}

fn segment_length(s: &Vec<char>) -> (r: usize)
    ensures
        r == segment_end(s@, 0),
        r <= s@.len(),
{
    let mut i: usize = 0;
    while i < s.len()
        invariant
            i <= s@.len(),
            segment_end(s@, 0) == segment_end(s@, i as int),
        decreases s@.len() - i,
    {
        let c = s[i];
        if c == ',' || c == '\n' || c == ';' {
            return i;
        }
        i = i + 1;
    }
    i
}

/// Best-effort extraction of a header hint from an error string when the
/// typed response headers are unavailable.
pub fn parse_header_hint(text: &str, header: &str) -> (r: Option<String>)
    requires
        hint_readable(text@, header@),
    ensures
        match header_hint(text@, header@) {
            Some(v) => r matches Some(s) && s@ == v,
            None => r is None,
        },
{
    let lower = to_lowercase(text);
    let lower_chars = chars_of(lower.as_str());
    let mut needle_text = String::new();
    push_str(&mut needle_text, header);
    push_str(&mut needle_text, ":");
    let needle = chars_of(needle_text.as_str());
    let text_chars = chars_of(text);
    proof {
        reveal_strlit(":");
        assert(needle@ =~= header@ + ":"@);
        assert(lower_chars@ == lowercase(text@));
        assert(text_chars@ == text@);
    }
    match find_chars(&lower_chars, &needle) {
        None => None,
        Some(start) => {
            let before = &lower_chars.as_slice()[0..start];
            assert(before@ =~= lowercase(text@).take(start as int));
            let offset = chars_utf8_len(before) + chars_utf8_len(needle.as_slice());
            let from = match boundary_position(&text_chars, offset) {
                Some(q) => q,
                None => return None,
            };
            let rest_slice = &text_chars.as_slice()[from..text_chars.len()];
            let mut rest: Vec<char> = Vec::new();
            let mut k: usize = 0;
            while k < rest_slice.len()
                invariant
                    rest@ == rest_slice@.take(k as int),
                    k <= rest_slice@.len(),
                decreases rest_slice@.len() - k,
            {
                rest.push(rest_slice[k]);
                k = k + 1;
            }
            assert(rest@ =~= text@.skip(from as int));
            let end = segment_length(&rest);
            let segment = &rest.as_slice()[0..end];
            assert(segment@ =~= rest@.take(end as int));
            let value = trim_chars(segment);
            if value.len() == 0 {
                None
            } else {
                Some(string_from_chars(value.as_slice()))
            }
        },
    }
}

/// The hint appended to a rate-limit failure.
pub open spec fn rate_limit_hint(retry_after: Option<Seq<char>>, reset: Option<Seq<char>>) -> Seq<char> {
    "rate limited; retry later"@ + match retry_after {
        Some(v) => " (Retry-After: "@ + v + ")"@,
        None => match reset {
            Some(v) => " (X-RateLimit-Reset: "@ + v + ")"@,
            None => " (no Retry-After header; back off before retrying)"@,
        },
    }
}

/// A header value, else the hint read from the error text.
pub open spec fn header_or_hint(header: Option<Seq<char>>, text: Seq<char>, name: Seq<char>) -> Option<Seq<char>> {
    match header {
        Some(v) => Some(v),
        None => header_hint(text, name),
    }
}

/// Whether a status means the request was rate limited.
pub open spec fn is_rate_limited(status: Option<u16>) -> bool {
    status == Some(403u16) || status == Some(429u16)
}

/// Whether every hint that a rate-limited failure looks for in the error
/// text (one for each header the response lacks) can be read without
/// cutting the text inside a character.
pub open spec fn hints_readable(
    error: Seq<char>,
    status: Option<u16>,
    retry_after: Option<Seq<char>>,
    reset: Option<Seq<char>>,
) -> bool {
    is_rate_limited(status) ==> {
        &&& retry_after is None ==> hint_readable(error, "retry-after"@)
        &&& reset is None ==> hint_readable(error, "x-ratelimit-reset"@)
    }
}

/// The message of a failed HTTP request: a rate-limit hint for 403 and 429.
pub open spec fn http_error_text(
    error: Seq<char>,
    status: Option<u16>,
    retry_after: Option<Seq<char>>,
    reset: Option<Seq<char>>,
) -> Seq<char> {
    if is_rate_limited(status) {
        "HTTP request failed: "@ + error + " ["@ + rate_limit_hint(
            header_or_hint(retry_after, error, "retry-after"@),
            header_or_hint(reset, error, "x-ratelimit-reset"@),
        ) + "]"@
    } else {
        "HTTP request failed: "@ + error
    }
}

/// Optional string as plain characters.
pub open spec fn opt_view(o: Option<&str>) -> Option<Seq<char>> {
    match o {
        Some(s) => Some(s@),
        None => None,
    }
}

fn header_or_parsed(header: Option<&str>, text: &str, name: &str) -> (r: Option<String>)
    requires
        header is None ==> hint_readable(text@, name@),
    ensures
        match header_or_hint(opt_view(header), text@, name@) {
            Some(v) => r matches Some(s) && s@ == v,
            None => r is None,
        },
{
    match header {
        Some(v) => {
            let mut s = String::new();
            push_str(&mut s, v);
            Some(s)
        },
        None => parse_header_hint(text, name),
    }
}

/// Format HTTP failures with an explicit rate-limit hint for 403/429.
///
/// `status` is the response status when the server answered with an error
/// status; `retry_after` and `reset` are the `Retry-After` and
/// `X-RateLimit-Reset` headers of that response. A missing header is looked
/// for in the error text.
pub fn http_error_message(
    error: &str,
    status: Option<u16>,
    retry_after: Option<&str>,
    reset: Option<&str>,
) -> (r: String)
    requires
        hints_readable(error@, status, opt_view(retry_after), opt_view(reset)),
    ensures
        r@ == http_error_text(error@, status, opt_view(retry_after), opt_view(reset)),
{
    let mut m = String::new();
    push_str(&mut m, "HTTP request failed: ");
    push_str(&mut m, error);
    let limited = match status {
        Some(code) => code == 403 || code == 429,
        None => false,
    };
    if !limited {
        return m;
    }
    let retry = header_or_parsed(retry_after, error, "retry-after");
    let reset_value = header_or_parsed(reset, error, "x-ratelimit-reset");
    push_str(&mut m, " [");
    push_str(&mut m, "rate limited; retry later");
    match retry {
        Some(v) => {
            push_str(&mut m, " (Retry-After: ");
            push_str(&mut m, v.as_str());
            push_str(&mut m, ")");
        },
        None => match reset_value {
            Some(v) => {
                push_str(&mut m, " (X-RateLimit-Reset: ");
                push_str(&mut m, v.as_str());
                push_str(&mut m, ")");
            },
            None => {
                push_str(&mut m, " (no Retry-After header; back off before retrying)");
            },
        },
    }
    push_str(&mut m, "]");
    m
}

/// What a failed request for the latest release is reported as.
pub open spec fn fetch_failure_text(
    error: Seq<char>,
    status: Option<u16>,
    retry_after: Option<Seq<char>>,
    reset: Option<Seq<char>>,
) -> Seq<char> {
    if status == Some(404u16) {
        "No releases found on GitHub for BurntToasters/deoxidizer (no releases published yet)"@
    } else {
        http_error_text(error, status, retry_after, reset)
    }
}

/// The message for a failed request of the latest release: no release yet
/// for 404, a rate-limit hint for 403 and 429, the error otherwise.
pub fn fetch_failure_message(
    error: &str,
    status: Option<u16>,
    retry_after: Option<&str>,
    reset: Option<&str>,
) -> (r: String)
    requires
        hints_readable(error@, status, opt_view(retry_after), opt_view(reset)),
    ensures
        r@ == fetch_failure_text(error@, status, opt_view(retry_after), opt_view(reset)),
{
    if status == Some(404u16) {
        let mut m = String::new();
        push_str(&mut m, "No releases found on GitHub for BurntToasters/deoxidizer (no releases published yet)");
        return m;
    }
    http_error_message(error, status, retry_after, reset)
}

/// What a failed download is reported as.
pub open spec fn download_failure_text(
    error: Seq<char>,
    status: Option<u16>,
    retry_after: Option<Seq<char>>,
    reset: Option<Seq<char>>,
) -> Seq<char> {
    if is_rate_limited(status) {
        http_error_text(error, status, retry_after, reset)
    } else {
        "Download failed: "@ + error
    }
}

/// The message for a failed download: a rate-limit hint for 403 and 429,
/// `Download failed: <error>` otherwise.
pub fn download_failure_message(
    error: &str,
    status: Option<u16>,
    retry_after: Option<&str>,
    reset: Option<&str>,
) -> (r: String)
    requires
        hints_readable(error@, status, opt_view(retry_after), opt_view(reset)),
    ensures
        r@ == download_failure_text(error@, status, opt_view(retry_after), opt_view(reset)),
{
    let limited = match status {
        Some(code) => code == 403 || code == 429,
        None => false,
    };
    if limited {
        return http_error_message(error, status, retry_after, reset);
    }
    let mut m = String::new();
    push_str(&mut m, "Download failed: ");
    push_str(&mut m, error);
    m
}

/// Whether the hint for `header` can be read from `text` (see
/// `hint_readable`).
pub fn is_hint_readable(text: &str, header: &str) -> (r: bool)
    ensures
        r == hint_readable(text@, header@),
{
    let lower = to_lowercase(text);
    let lower_chars = chars_of(lower.as_str());
    let mut needle_text = String::new();
    push_str(&mut needle_text, header);
    push_str(&mut needle_text, ":");
    let needle = chars_of(needle_text.as_str());
    let text_chars = chars_of(text);
    proof {
        reveal_strlit(":");
        assert(needle@ =~= header@ + ":"@);
    }
    match find_chars(&lower_chars, &needle) {
        None => true,
        Some(start) => {
            let before = &lower_chars.as_slice()[0..start];
            assert(before@ =~= lowercase(text@).take(start as int));
            let offset = chars_utf8_len(before) + chars_utf8_len(needle.as_slice());
            boundary_position(&text_chars, offset).is_some()
        },
    }
}

fn are_hints_readable(error: &str, status: Option<u16>, retry_after: Option<&str>, reset: Option<&str>) -> (r: bool)
    ensures
        r == hints_readable(error@, status, opt_view(retry_after), opt_view(reset)),
{
    let limited = match status {
        Some(code) => code == 403 || code == 429,
        None => false,
    };
    if !limited {
        return true;
    }
    let retry_ok = match retry_after {
        Some(_) => true,
        None => is_hint_readable(error, "retry-after"),
    };
    let reset_ok = match reset {
        Some(_) => true,
        None => is_hint_readable(error, "x-ratelimit-reset"),
    };
    retry_ok && reset_ok
}

/// The message for a failed request of the latest release, when every hint
/// it looks for can be read from the error text; `None` when one cannot
/// (cutting the text there would split a character).
pub fn checked_fetch_failure_message(
    error: &str,
    status: Option<u16>,
    retry_after: Option<&str>,
    reset: Option<&str>,
) -> (r: Option<String>)
    ensures
        r is Some <==> hints_readable(error@, status, opt_view(retry_after), opt_view(reset)),
        r matches Some(m) ==> m@ == fetch_failure_text(error@, status, opt_view(retry_after), opt_view(reset)),
{
    if are_hints_readable(error, status, retry_after, reset) {
        Some(fetch_failure_message(error, status, retry_after, reset))
    } else {
        None
    }
}

/// The message for a failed download, when every hint it looks for can be
/// read from the error text; `None` when one cannot.
pub fn checked_download_failure_message(
    error: &str,
    status: Option<u16>,
    retry_after: Option<&str>,
    reset: Option<&str>,
) -> (r: Option<String>)
    ensures
        r is Some <==> hints_readable(error@, status, opt_view(retry_after), opt_view(reset)),
        r matches Some(m) ==> m@ == download_failure_text(error@, status, opt_view(retry_after), opt_view(reset)),
{
    if are_hints_readable(error, status, retry_after, reset) {
        Some(download_failure_message(error, status, retry_after, reset))
    } else {
        None
    }
}

/// The next move after one response of a download.
#[derive(Debug)]
pub enum RedirectStep {
    /// Request the given URL next.
    Follow(String),
    /// The response is the download.
    Done,
    /// Stop with the given message.
    Blocked(String),
}

/// The decision for a response, as plain values.
pub enum RedirectDecision {
    Follow(Seq<char>),
    Done,
    Blocked(Seq<char>),
}

/// Whether a status is a redirect as the download loop reads it (300 to 398).
pub open spec fn is_redirect_status(status: u16) -> bool {
    300 <= status && status < 399
}

/// The decision after the response to request number `hop` (counted from
/// zero) answered `status` with the given `Location` header, `final_url`
/// being the URL that answered: a redirect must carry a permitted location
/// and leave a hop to follow it; any other response must come from a
/// permitted URL.
pub open spec fn redirect_decision(hop: nat, status: u16, location: Option<Seq<char>>, final_url: Seq<char>) -> RedirectDecision {
    if is_redirect_status(status) {
        match location {
            None => RedirectDecision::Blocked("redirect without location header"@),
            Some(l) => if !allowed_url(l) {
                RedirectDecision::Blocked("redirect target is not HTTPS GitHub-hosted content"@)
            } else if hop >= MAX_REDIRECT_HOPS {
                RedirectDecision::Blocked("too many redirects"@)
            } else {
                RedirectDecision::Follow(l)
            },
        }
    } else if !allowed_url(final_url) {
        RedirectDecision::Blocked("final download URL is not HTTPS GitHub-hosted content"@)
    } else {
        RedirectDecision::Done
    }
}

/// The step as plain values.
pub open spec fn step_view(s: RedirectStep) -> RedirectDecision {
    match s {
        RedirectStep::Follow(u) => RedirectDecision::Follow(u@),
        RedirectStep::Done => RedirectDecision::Done,
        RedirectStep::Blocked(m) => RedirectDecision::Blocked(m@),
    }
}

fn blocked(message: &str) -> (r: RedirectStep)
    ensures
        step_view(r) == RedirectDecision::Blocked(message@),
{
    let mut m = String::new();
    push_str(&mut m, message);
    RedirectStep::Blocked(m)
}

/// Redirects are never followed automatically: each `Location` target must
/// pass the download allowlist before it is followed, at most
/// `MAX_REDIRECT_HOPS` redirects are followed, and the URL that finally
/// answers must pass the allowlist too.
pub fn redirect_step(hop: usize, status: u16, location: Option<&str>, final_url: &str) -> (r: RedirectStep)
    ensures
        step_view(r) == redirect_decision(hop as nat, status, opt_view(location), final_url@),
{
    if 300 <= status && status < 399 {
        match location {
            None => blocked("redirect without location header"),
            Some(l) => {
                if !is_allowed_download_url(l) {
                    blocked("redirect target is not HTTPS GitHub-hosted content")
                } else if hop >= MAX_REDIRECT_HOPS {
                    blocked("too many redirects")
                } else {
                    let mut u = String::new();
                    push_str(&mut u, l);
                    RedirectStep::Follow(u)
                }
            },
        }
    } else if !is_allowed_download_url(final_url) {
        blocked("final download URL is not HTTPS GitHub-hosted content")
    } else {
        RedirectStep::Done
    }
}

/// A download URL is checked before the first request is made.
pub fn check_download_url(url: &str) -> (r: Result<(), String>)
    ensures
        r is Ok <==> allowed_url(url@),
        r matches Err(e) ==> e@ == "download URL is not HTTPS GitHub-hosted content"@,
{
    if is_allowed_download_url(url) {
        Ok(())
    } else {
        let mut m = String::new();
        push_str(&mut m, "download URL is not HTTPS GitHub-hosted content");
        Err(m)
    }
}


/// A download follows a redirect only to an allowlisted URL and only while
/// hops remain, and accepts a response only from an allowlisted URL that is
/// not itself a redirect.
pub proof fn law_redirects_stay_allowlisted(hop: nat, status: u16, location: Option<Seq<char>>, final_url: Seq<char>)
    ensures
        redirect_decision(hop, status, location, final_url) matches RedirectDecision::Follow(u) ==> allowed_url(u)
            && hop < MAX_REDIRECT_HOPS && location == Some(u),
        redirect_decision(hop, status, location, final_url) is Done ==> allowed_url(final_url) && !is_redirect_status(
            status,
        ),
{
}
} // verus!
