//! The login window's protocol: reading the session id out of the page's
//! final redirect, deciding what the window does with each navigation, and
//! reading the window's report back in the launcher.
//!
//! The window reports one line on its standard output: `SESSION_ID=<id>`,
//! `LOGIN_CANCELLED`, or `LOGIN_ERROR=<message>`.

use vstd::prelude::*;
use vstd::utf8::encode_utf8;

use crate::crypto::SESSION_ID_LEN;
use crate::text::{chars_match_at, chars_of, decimal, push_decimal, starts_with, string_of};

verus! {

/// Prefix of the line that reports a session id.
pub const SESSION_PREFIX: &'static str = "SESSION_ID=";
/// The line that reports a closed window.
pub const CANCEL_SENTINEL: &'static str = "LOGIN_CANCELLED";
/// Prefix of the line that reports an error.
pub const ERROR_PREFIX: &'static str = "LOGIN_ERROR=";
/// Argument that makes the launcher run as the login window.
pub const LOGIN_WEBVIEW_ARG: &'static str = "--login-webview";

/// The first position at or after `from` holding `c`.
pub open spec fn first_index(s: Seq<char>, c: char, from: int) -> Option<int>
    decreases s.len() - from,
{
    if from < 0 || from >= s.len() {
        None
    } else if s[from] == c {
        Some(from)
    } else {
        first_index(s, c, from + 1)
    }
}

/// The `key=value` pairs of `q` from `start` on, split at `&`: the value of the
/// first pair whose key is `sessionId` and whose value is `SESSION_ID_LEN` bytes
/// of UTF-8; nothing as soon as a pair has no `=`.
pub open spec fn scan_pairs(q: Seq<char>, start: int) -> Option<Seq<char>>
    decreases q.len() - start,
{
    if start < 0 || start > q.len() {
        None
    } else {
        let end = match first_index(q, '&', start) {
            Some(e) => e,
            None => q.len() as int,
        };
        let pair = q.subrange(start, end);
        match first_index(pair, '=', 0) {
            None => None,
            Some(e) => if pair.subrange(0, e) == "sessionId"@ && encode_utf8(pair.subrange(e + 1, pair.len() as int)).len()
                == SESSION_ID_LEN {
                Some(pair.subrange(e + 1, pair.len() as int))
            } else if end >= q.len() {
                None
            } else {
                proof {
                    lemma_first_index_bounds(q, '&', start);
                }
                scan_pairs(q, end + 1)
            },
        }
    }
}

/// The session id in the query of `uri` (after its first `?`).
pub open spec fn spec_session_id(uri: Seq<char>) -> Option<Seq<char>> {
    match first_index(uri, '?', 0) {
        None => None,
        Some(q) => scan_pairs(uri.subrange(q + 1, uri.len() as int), 0),
    }
}

/// The first `c` found from `from` on is a `c`, at or after `from`, with
/// none before it; when none is found there is none.
pub proof fn lemma_first_index_bounds(s: Seq<char>, c: char, from: int)
    ensures
        first_index(s, c, from) matches Some(i) ==> from <= i < s.len() && s[i] == c && forall|j: int|
            from <= j < i ==> s[j] != c,
        first_index(s, c, from) is None ==> forall|j: int| from <= j < s.len() && 0 <= from ==> s[j] != c,
    decreases s.len() - from,
{
    if 0 <= from < s.len() && s[from] != c {
        lemma_first_index_bounds(s, c, from + 1);
    }
}

fn find_char(v: &Vec<char>, c: char, from: usize, to: usize) -> (r: Option<usize>)
    requires
        from <= to <= v@.len(),
    ensures
        r == (match first_index(v@.subrange(0, to as int), c, from as int) {
            Some(i) => Some(i as usize),
            None => None::<usize>,
        }),
        r matches Some(i) ==> from <= i < to,
{
    let mut i = from;
    proof {
        lemma_first_index_bounds(v@.subrange(0, to as int), c, from as int);
    }
    while i < to
        invariant
            from <= i <= to <= v@.len(),
            forall|j: int| from <= j < i ==> v@[j] != c,
        decreases to - i,
    {
        if v[i] == c {
            proof {
                let s = v@.subrange(0, to as int);
                lemma_first_index_bounds(s, c, from as int);
                if let Some(k) = first_index(s, c, from as int) {
                    if k < i {
                        assert(s[k] == v@[k]);
                    } else if k > i {
                        assert(s[i as int] == c);
                    }
                } else {
                    assert(s[i as int] == c);
                }
            }
            return Some(i);
        }
        i += 1;
    }
    proof {
        let s = v@.subrange(0, to as int);
        lemma_first_index_bounds(s, c, from as int);
        if let Some(k) = first_index(s, c, from as int) {
            assert(s[k] == v@[k]);
        }
    }
    None
}

proof fn lemma_first_index_shift(s: Seq<char>, c: char, base: int, from: int, len: int)
    requires
        0 <= base,
        0 <= from,
        base + len <= s.len(),
        0 <= len,
    ensures
        first_index(s.subrange(base, base + len), c, from) == match first_index(s.subrange(0, base + len), c, base + from) {
            Some(i) => Some(i - base),
            None => None::<int>,
        },
    decreases len - from,
{
    if from < len {
        assert(s.subrange(base, base + len)[from] == s.subrange(0, base + len)[base + from]);
        lemma_first_index_shift(s, c, base, from + 1, len);
    }
}

fn sub_vec(v: &Vec<char>, from: usize, to: usize) -> (r: Vec<char>)
    requires
        from <= to <= v@.len(),
    ensures
        r@ == v@.subrange(from as int, to as int),
{
    let mut r: Vec<char> = Vec::with_capacity(to - from);
    let mut i = from;
    while i < to
        invariant
            from <= i <= to <= v@.len(),
            r@ == v@.subrange(from as int, i as int),
        decreases to - i,
    {
        r.push(v[i]);
        i += 1;
        proof {
            assert(r@ =~= v@.subrange(from as int, i as int));
        }
    }
    r
}

fn utf8_width(c: char) -> (w: usize)
    ensures
        w == vstd::utf8::encode_scalar(c as u32).len(),
{
    let u = c as u32;
    if u <= 0x7F {
        1
    } else if u <= 0x7FF {
        2
    } else if u <= 0xFFFF && !(0xD800 <= u && u <= 0xDFFF) {
        3
    } else {
        4
    }
}

/// Whether `v[from..to]` takes exactly `target` bytes in UTF-8.
fn utf8_len_is(v: &Vec<char>, from: usize, to: usize, target: usize) -> (b: bool)
    requires
        from <= to <= v@.len(),
    ensures
        b == (encode_utf8(v@.subrange(from as int, to as int)).len() == target),
{
    let mut total: usize = 0;
    let mut i = to;
    while i > from
        invariant
            from <= i <= to <= v@.len(),
            total <= target,
            total == encode_utf8(v@.subrange(i as int, to as int)).len(),
        decreases i - from,
    {
        let w = utf8_width(v[i - 1]);
        proof {
            assert(v@.subrange(i - 1, to as int).drop_first() =~= v@.subrange(i as int, to as int));
            assert(v@.subrange(i - 1, to as int)[0] == v@[i - 1]);
        }
        if w > target - total {
            proof {
                lemma_encode_len_mono(v@, from as int, i - 1, to as int);
            }
            return false;
        }
        total = total + w;
        i = i - 1;
    }
    total == target
}

proof fn lemma_encode_len_mono(v: Seq<char>, from: int, i: int, to: int)
    requires
        0 <= from <= i <= to <= v.len(),
    ensures
        encode_utf8(v.subrange(from, to)).len() >= encode_utf8(v.subrange(i, to)).len(),
    decreases i - from,
{
    if from < i {
        assert(v.subrange(from, to).drop_first() =~= v.subrange(from + 1, to));
        lemma_encode_len_mono(v, from + 1, i, to);
    }
}

/// One step of `scan_pairs`: the pair starting at `start` either settles the
/// result or hands over to the pair after the next `&`.
fn scan_step(qv: &Vec<char>, start: usize) -> (r: Result<Option<String>, usize>)
    requires
        start <= qv@.len(),
    ensures
        r matches Ok(res) ==> (match res {
            Some(s) => scan_pairs(qv@, start as int) == Some(s@),
            None => scan_pairs(qv@, start as int) is None,
        }),
        r matches Err(next) ==> start < next <= qv@.len() && scan_pairs(qv@, start as int) == scan_pairs(
            qv@,
            next as int,
        ),
{
    let n = qv.len();
    proof {
        assert(qv@.subrange(0, n as int) == qv@);
        lemma_first_index_bounds(qv@, '&', start as int);
    }
    let end = match find_char(qv, '&', start, n) {
        Some(e) => e,
        None => n,
    };
    let pv = sub_vec(qv, start, end);
    let plen = pv.len();
    proof {
        assert(pv@.subrange(0, plen as int) == pv@);
        lemma_first_index_bounds(pv@, '=', 0);
        let spec_end = match first_index(qv@, '&', start as int) {
            Some(e) => e,
            None => qv@.len() as int,
        };
        assert(spec_end == end);
    }
    let found = find_char(&pv, '=', 0, plen);
    proof {
        assert(found matches Some(e) ==> first_index(pv@, '=', 0) == Some(e as int));
        assert(found is None ==> first_index(pv@, '=', 0) is None);
    }
    match found {
        None => Ok(None),
        Some(e) => {
            let key_ok = e == 9 && chars_match_at(&pv, 0, "sessionId");
            let value = string_of(&pv, e + 1, plen);
            let len_ok = utf8_len_is(&pv, e + 1, plen, SESSION_ID_LEN);
            proof {
                reveal_strlit("sessionId");
                if e == 9 {
                    assert(pv@.subrange(0, 9) == pv@.subrange(0, e as int));
                }
                assert("sessionId"@.len() == 9);
                assert(key_ok == (pv@.subrange(0, e as int) == "sessionId"@));
                assert(value@ == pv@.subrange(e + 1, pv@.len() as int));
            }
            if key_ok && len_ok {
                Ok(Some(value))
            } else if end >= n {
                Ok(None)
            } else {
                Err(end + 1)
            }
        },
    }
}

/// The session id of the `ffxiv://login_success?...` address the login page
/// redirects to: the value of the first `sessionId` pair of the query that is
/// `SESSION_ID_LEN` bytes long. None when there is no query, or when a pair
/// before it has no `=`.
pub fn parse_session_id(uri: &str) -> (r: Option<String>)
    ensures
        r is Some <==> spec_session_id(uri@) is Some,
        r matches Some(s) ==> spec_session_id(uri@) == Some(s@),
{
    let v = chars_of(uri);
    let n = v.len();
    proof {
        assert(v@.subrange(0, n as int) == uri@);
        lemma_first_index_bounds(uri@, '?', 0);
    }
    let q = match find_char(&v, '?', 0, n) {
        None => {
            return None;
        },
        Some(q) => q,
    };
    let qv = sub_vec(&v, q + 1, n);
    let mut start: usize = 0;
    loop
        invariant
            start <= qv@.len(),
            spec_session_id(uri@) == scan_pairs(qv@, start as int),
        decreases qv@.len() - start,
    {
        match scan_step(&qv, start) {
            Ok(res) => {
                return res;
            },
            Err(next) => {
                start = next;
            },
        }
    }
}

/// What the login window does with a navigation to `uri`.
#[derive(Debug, Clone, PartialEq, Eq)]
pub enum NavigationAction {
    /// Print `line` on standard output and exit with `code`.
    ReportAndExit { line: String, code: i32 },
    /// Cancel the navigation.
    Block,
    /// Let the page navigate.
    Allow,
}

/// The line that reports a login redirect without a usable session id.
pub open spec fn missing_session_line() -> Seq<char> {
    ERROR_PREFIX@ + "login_success URL missing a "@ + decimal(SESSION_ID_LEN as nat) + "-char sessionId"@
}

/// The login window's decision on a navigation: the success redirect reports
/// the session id and exits 0, or reports an error and exits 1 when it has no
/// usable id; other `ffxiv://` addresses are blocked; everything else loads.
pub fn navigation_action(uri: &str) -> (a: NavigationAction)
    ensures
        starts_with(uri@, "ffxiv://login_success"@) ==> match spec_session_id(uri@) {
            Some(id) => a matches NavigationAction::ReportAndExit { line, code } && line@ == SESSION_PREFIX@ + id
                && code == 0,
            None => a matches NavigationAction::ReportAndExit { line, code } && line@ == missing_session_line()
                && code == 1,
        },
        !starts_with(uri@, "ffxiv://login_success"@) && starts_with(uri@, "ffxiv://"@) ==> a == NavigationAction::Block,
        !starts_with(uri@, "ffxiv://"@) ==> a == NavigationAction::Allow,
{
    let v = chars_of(uri);
    proof {
        reveal_strlit("ffxiv://login_success");
        reveal_strlit("ffxiv://");
        assert(v@.subrange(0, 8) =~= uri@.subrange(0, 8));
        if starts_with(uri@, "ffxiv://login_success"@) {
            assert(uri@.subrange(0, 21).subrange(0, 8) =~= uri@.subrange(0, 8));
            assert("ffxiv://login_success"@.subrange(0, 8) =~= "ffxiv://"@);
        }
    }
    if chars_match_at(&v, 0, "ffxiv://login_success") {
        match parse_session_id(uri) {
            Some(id) => {
                let mut line = String::from_str(SESSION_PREFIX);
                line.append(id.as_str());
                NavigationAction::ReportAndExit { line, code: 0 }
            },
            None => {
                let mut line = String::from_str(ERROR_PREFIX);
                line.append("login_success URL missing a ");
                push_decimal(&mut line, SESSION_ID_LEN as u64);
                line.append("-char sessionId");
                NavigationAction::ReportAndExit { line, code: 1 }
            },
        }
    } else if chars_match_at(&v, 0, "ffxiv://") {
        NavigationAction::Block
    } else {
        NavigationAction::Allow
    }
}

/// How a login ended.
#[derive(Debug, Clone, PartialEq, Eq)]
pub enum LoginOutcome {
    Success(String),
    Cancelled,
    Error(String),
}

/// What a line of the login window's output reports, if anything: a session
/// id, a cancellation, or an error; other lines (log output) report nothing.
pub fn classify_login_line(line: &str) -> (r: Option<LoginOutcome>)
    ensures
        starts_with(line@, SESSION_PREFIX@) ==> (r matches Some(LoginOutcome::Success(id)) && id@
            == line@.subrange(SESSION_PREFIX@.len() as int, line@.len() as int)),
        !starts_with(line@, SESSION_PREFIX@) && line@ == CANCEL_SENTINEL@ ==> r == Some(LoginOutcome::Cancelled),
        !starts_with(line@, SESSION_PREFIX@) && line@ != CANCEL_SENTINEL@ && starts_with(line@, ERROR_PREFIX@)
            ==> (r matches Some(LoginOutcome::Error(m)) && m@ == line@.subrange(ERROR_PREFIX@.len() as int, line@.len() as int)),
        !starts_with(line@, SESSION_PREFIX@) && line@ != CANCEL_SENTINEL@ && !starts_with(line@, ERROR_PREFIX@)
            ==> r is None,
{
    let v = chars_of(line);
    let n = v.len();
    if chars_match_at(&v, 0, SESSION_PREFIX) {
        let k = SESSION_PREFIX.unicode_len();
        proof {
            assert(v@.subrange(0, k as int) == SESSION_PREFIX@);
        }
        return Some(LoginOutcome::Success(string_of(&v, k, n)));
    }
    proof {
        assert(v@.subrange(0, v@.len() as int) =~= v@);
    }
    if n == CANCEL_SENTINEL.unicode_len() && chars_match_at(&v, 0, CANCEL_SENTINEL) {
        proof {
            assert(v@.subrange(0, n as int) =~= v@);
        }
        return Some(LoginOutcome::Cancelled);
    }
    if chars_match_at(&v, 0, ERROR_PREFIX) {
        let k = ERROR_PREFIX.unicode_len();
        return Some(LoginOutcome::Error(string_of(&v, k, n)));
    }
    None
}

/// The outcome when the window closes without reporting one.
pub fn unreported_outcome() -> (r: LoginOutcome)
    ensures
        r matches LoginOutcome::Error(m) && m@ == "login window exited without reporting an outcome"@,
{
    LoginOutcome::Error(String::from_str("login window exited without reporting an outcome"))
}

/// An outcome as text.
pub enum SpecLoginOutcome {
    Success(Seq<char>),
    Cancelled,
    Error(Seq<char>),
}

pub open spec fn outcome_view(o: LoginOutcome) -> SpecLoginOutcome {
    match o {
        LoginOutcome::Success(s) => SpecLoginOutcome::Success(s@),
        LoginOutcome::Cancelled => SpecLoginOutcome::Cancelled,
        LoginOutcome::Error(s) => SpecLoginOutcome::Error(s@),
    }
}

/// What a line of the login window's output reports (see
/// `classify_login_line`).
pub open spec fn spec_line_outcome(line: Seq<char>) -> Option<SpecLoginOutcome> {
    if starts_with(line, SESSION_PREFIX@) {
        Some(SpecLoginOutcome::Success(line.subrange(SESSION_PREFIX@.len() as int, line.len() as int)))
    } else if line == CANCEL_SENTINEL@ {
        Some(SpecLoginOutcome::Cancelled)
    } else if starts_with(line, ERROR_PREFIX@) {
        Some(SpecLoginOutcome::Error(line.subrange(ERROR_PREFIX@.len() as int, line.len() as int)))
    } else {
        None
    }
}

/// The outcome the first reporting line of `lines` gives, if any.
pub open spec fn spec_lines_outcome(lines: Seq<Seq<char>>) -> Option<SpecLoginOutcome>
    decreases lines.len(),
{
    if lines.len() == 0 {
        None
    } else {
        match spec_lines_outcome(lines.drop_last()) {
            Some(o) => Some(o),
            None => spec_line_outcome(lines.last()),
        }
    }
}

pub open spec fn line_texts(s: Seq<String>) -> Seq<Seq<char>> {
    Seq::new(s.len(), |i: int| s[i]@)
}

/// The outcome of a login window whose output was `lines`: the first line
/// that reports one decides; when none does, the window exited without
/// reporting.
pub fn outcome_from_lines(lines: &Vec<String>) -> (r: LoginOutcome)
    ensures
        outcome_view(r) == match spec_lines_outcome(line_texts(lines@)) {
            Some(o) => o,
            None => SpecLoginOutcome::Error("login window exited without reporting an outcome"@),
        },
{
    let mut i: usize = 0;
    while i < lines.len()
        invariant
            i <= lines@.len(),
            spec_lines_outcome(line_texts(lines@).subrange(0, i as int)) is None,
        decreases lines@.len() - i,
    {
        let found = classify_login_line(lines[i].as_str());
        proof {
            let pre = line_texts(lines@).subrange(0, i + 1);
            assert(pre.drop_last() =~= line_texts(lines@).subrange(0, i as int));
            assert(pre.last() == lines@[i as int]@);
        }
        match found {
            Some(o) => {
                proof {
                    lemma_lines_outcome_prefix(line_texts(lines@), i + 1);
                }
                return o;
            },
            None => {},
        }
        i += 1;
    }
    proof {
        assert(line_texts(lines@).subrange(0, i as int) =~= line_texts(lines@));
    }
    unreported_outcome()
}

proof fn lemma_lines_outcome_prefix(lines: Seq<Seq<char>>, k: int)
    requires
        0 <= k <= lines.len(),
        spec_lines_outcome(lines.subrange(0, k)) is Some,
    ensures
        spec_lines_outcome(lines) == spec_lines_outcome(lines.subrange(0, k)),
    decreases lines.len() - k,
{
    if k < lines.len() {
        let next = lines.subrange(0, k + 1);
        assert(next.drop_last() =~= lines.subrange(0, k));
        lemma_lines_outcome_prefix(lines, k + 1);
    } else {
        assert(lines.subrange(0, k) =~= lines);
    }
}

/// Why the login window was not started.
#[derive(Debug, Clone, Copy, PartialEq, Eq, Structural)]
pub enum LoginStartError {
    /// The server has no login page.
    EmptyUrl,
}

impl LoginStartError {
    /// The message reported for this error.
    pub fn message(&self) -> (s: String)
        ensures
            s@ == "login URL is empty"@,
    {
        String::from_str("login URL is empty")
    }
}

/// The arguments that start this program as the login window for
/// `login_url`; refused for an empty URL.
pub fn login_window_args(login_url: &str) -> (r: Result<Vec<String>, LoginStartError>)
    ensures
        login_url@.len() == 0 ==> r == Err::<Vec<String>, LoginStartError>(LoginStartError::EmptyUrl),
        login_url@.len() > 0 ==> (r matches Ok(args) && line_texts(args@) == seq![LOGIN_WEBVIEW_ARG@, login_url@]),
{
    if login_url.unicode_len() == 0 {
        return Err(LoginStartError::EmptyUrl);
    }
    let mut args: Vec<String> = Vec::new();
    args.push(String::from_str(LOGIN_WEBVIEW_ARG));
    args.push(String::from_str(login_url));
    proof {
        assert(line_texts(args@) =~= seq![LOGIN_WEBVIEW_ARG@, login_url@]);
    }
    Ok(args)
}

/// The outcome when reading the window's output fails with `message`.
pub fn read_error_outcome(message: &str) -> (r: LoginOutcome)
    ensures
        outcome_view(r) == SpecLoginOutcome::Error("reading login stdout: "@ + message@),
{
    let mut s = String::from_str("reading login stdout: ");
    s.append(message);
    LoginOutcome::Error(s)
}

/// What the next read of the login window's output gave.
#[derive(Debug)]
pub enum LineRead<'a> {
    /// A line of output.
    Line(&'a str),
    /// Reading failed, with this message.
    Failed(&'a str),
    /// The output ended.
    Closed,
}

/// The outcome decided by one read of the login window's output, if it
/// decides one: a reporting line gives what it reports, a failed read an
/// error, the end of the output the error that nothing was reported; any
/// other line decides nothing and the reader goes on.
pub fn login_step(read: LineRead) -> (r: Option<LoginOutcome>)
    ensures
        match read {
            LineRead::Line(l) => match spec_line_outcome(l@) {
                Some(o) => r matches Some(x) && outcome_view(x) == o,
                None => r is None,
            },
            LineRead::Failed(m) => r matches Some(x) && outcome_view(x) == SpecLoginOutcome::Error(
                "reading login stdout: "@ + m@,
            ),
            LineRead::Closed => r matches Some(x) && outcome_view(x) == SpecLoginOutcome::Error(
                "login window exited without reporting an outcome"@,
            ),
        },
{
    match read {
        LineRead::Line(l) => classify_login_line(l),
        LineRead::Failed(m) => Some(read_error_outcome(m)),
        LineRead::Closed => Some(unreported_outcome()),
    }
}

} // verus!
