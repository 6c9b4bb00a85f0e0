//! The grammar parser: decodes one terminated line into a structured
//! message, and the event mapper that turns recognized messages into
//! typed events.

use crate::event::Event;
use crate::event::Prefix;
use crate::event::RawEvent;
use crate::event::SpecEvent;
use crate::event::SpecPrefix;
use crate::event::SpecRawEvent;
use vstd::prelude::*;

verus! {

/// The character classes of the line grammar. Each token of the grammar is
/// a maximal run of one class (with small side conditions stated where the
/// token is read).
#[derive(Clone, Copy, Debug, PartialEq, Eq)]
pub enum CharClass {
    /// Alphanumeric or `.`: the characters of a hostname.
    Host,
    /// Alphanumeric or one of `[ ] \ ` _ ^ { | } -`: the characters of a nick.
    Nick,
    /// ASCII letters and digits: the characters of a username.
    AlphaNum,
    /// ASCII digits: a numeric reply code.
    Digit,
    /// ASCII letters: an alphabetic command name.
    Alpha,
    /// Anything but NUL, CR, LF and space: the characters of a middle
    /// parameter (its first character may additionally not be `:`).
    MiddleTail,
    /// Anything but NUL, CR and LF: the characters of a trailing parameter.
    Trailing,
}

pub open spec fn is_alphanum_char(c: char) -> bool {
    (97 <= c as u32 && c as u32 <= 122)  // 'a' ..= 'z'
    || (65 <= c as u32 && c as u32 <= 90)  // 'A' ..= 'Z'
    || (48 <= c as u32 && c as u32 <= 57)  // '0' ..= '9'
}

pub open spec fn is_nick_special(c: char) -> bool {
    c == '[' || c == ']' || c == '\\' || c == '`' || c == '_' || c == '^' || c == '{'
        || c == '|' || c == '}' || c == '-'
}

/// Whether character `c` belongs to class `k`.
pub open spec fn class_holds(k: CharClass, c: char) -> bool {
    match k {
        CharClass::Host => is_alphanum_char(c) || c == '.',
        CharClass::Nick => is_alphanum_char(c) || is_nick_special(c),
        CharClass::AlphaNum => is_alphanum_char(c),
        CharClass::Digit => 48 <= c as u32 && c as u32 <= 57,
        CharClass::Alpha => (97 <= c as u32 && c as u32 <= 122) || (65 <= c as u32 && c as u32 <= 90),
        CharClass::MiddleTail => c != '\u{0}' && c != '\r' && c != '\n' && c != ' ',
        CharClass::Trailing => c != '\u{0}' && c != '\r' && c != '\n',
    }
}

/// The end of the maximal run of class `k` starting at position `i` of `s`:
/// the least `j >= i` such that `j == s.len()` or `s[j]` is not in the class.
pub open spec fn run_end(s: Seq<char>, i: int, k: CharClass) -> int
    decreases s.len() - i,
{
    if i < 0 || i >= s.len() || !class_holds(k, s[i]) {
        i
    } else {
        run_end(s, i + 1, k)
    }
}

// ---------------------------------------------------------------------------
// The grammar, as functions over character sequences. Positions are absolute
// indices into the line. Each parsing function either fails or returns the
// position just past what it consumed, together with what it recognized.
//
//   line      := [prefix] command params CRLF
//   prefix    := ':' (user-prefix | server-prefix) ' '   (user form tried first)
//   user-prefix   := nick ['!' username] '@' host
//   server-prefix := host
//   params    := middle{0,14} [trailing]
// ---------------------------------------------------------------------------

/// The end of the optional `!username` part when the nick ends at `ne`:
/// consumed only when a `!` stands at `ne` and at least one alphanumeric
/// character follows it.
pub open spec fn username_end(s: Seq<char>, ne: int) -> int {
    if ne < s.len() && s[ne] == '!' && run_end(s, ne + 1, CharClass::AlphaNum) > ne + 1 {
        run_end(s, ne + 1, CharClass::AlphaNum)
    } else {
        ne
    }
}

/// The username recognized by the optional `!username` part, if any.
pub open spec fn username_token(s: Seq<char>, ne: int) -> Option<Seq<char>> {
    if ne < s.len() && s[ne] == '!' && run_end(s, ne + 1, CharClass::AlphaNum) > ne + 1 {
        Some(s.subrange(ne + 1, run_end(s, ne + 1, CharClass::AlphaNum)))
    } else {
        None
    }
}

/// The user form of a prefix body at `i`: `nick ['!' username] '@' host`.
/// Fails when no `@` follows the nick (and optional username).
pub open spec fn user_prefix_at(s: Seq<char>, i: int) -> Option<(int, SpecPrefix)> {
    let ne = run_end(s, i, CharClass::Nick);
    let au = username_end(s, ne);
    if au < s.len() && s[au] == '@' {
        let he = run_end(s, au + 1, CharClass::Host);
        Some(
            (
                he,
                SpecPrefix::User {
                    nick: s.subrange(i, ne),
                    username: username_token(s, ne),
                    host: s.subrange(au + 1, he),
                },
            ),
        )
    } else {
        None
    }
}

/// The body of a prefix at `i`: the user form when it matches, otherwise the
/// server form (a possibly empty run of hostname characters), which always
/// matches.
pub open spec fn prefix_body_at(s: Seq<char>, i: int) -> (int, SpecPrefix) {
    match user_prefix_at(s, i) {
        Some(r) => r,
        None => (
            run_end(s, i, CharClass::Host),
            SpecPrefix::Server { host: s.subrange(i, run_end(s, i, CharClass::Host)) },
        ),
    }
}

/// A whole prefix at `i`: `':'` body `' '`. Once the body has matched, a
/// missing closing space fails the prefix as a whole (the alternation does
/// not reopen).
pub open spec fn prefix_at(s: Seq<char>, i: int) -> Option<(int, SpecPrefix)> {
    if i < s.len() && s[i] == ':' {
        let r = prefix_body_at(s, i + 1);
        if r.0 < s.len() && s[r.0] == ' ' {
            Some((r.0 + 1, r.1))
        } else {
            None
        }
    } else {
        None
    }
}

/// The end of a command token at `i`: a nonempty run of digits, or else a
/// nonempty run of letters (digits tried first).
pub open spec fn command_end(s: Seq<char>, i: int) -> Option<int> {
    if run_end(s, i, CharClass::Digit) > i {
        Some(run_end(s, i, CharClass::Digit))
    } else if run_end(s, i, CharClass::Alpha) > i {
        Some(run_end(s, i, CharClass::Alpha))
    } else {
        None
    }
}

/// The end of a middle parameter starting at `i`: its first character may
/// not be NUL, CR, LF, space or `:`; the rest may not be NUL, CR, LF or
/// space. Returns `i` itself when no middle parameter starts at `i`.
pub open spec fn middle_token_end(s: Seq<char>, i: int) -> int {
    if i < s.len() && class_holds(CharClass::MiddleTail, s[i]) && s[i] != ':' {
        run_end(s, i + 1, CharClass::MiddleTail)
    } else {
        i
    }
}

/// Up to `fuel` middle parameters from `i`, each preceded by one space.
/// Returns the position past the last one and the recognized tokens.
pub open spec fn middles_at(s: Seq<char>, i: int, fuel: nat) -> (int, Seq<Seq<char>>)
    decreases fuel,
{
    if fuel == 0 {
        (i, Seq::empty())
    } else if i < s.len() && s[i] == ' ' && middle_token_end(s, i + 1) > i + 1 {
        let te = middle_token_end(s, i + 1);
        let r = middles_at(s, te, (fuel - 1) as nat);
        (r.0, seq![s.subrange(i + 1, te)] + r.1)
    } else {
        (i, Seq::empty())
    }
}

/// The trailing parameter at `i`, if one starts there: after a space, either
/// `':'` and then a nonempty run free of NUL, CR and LF, or — when the
/// character after the space is not `:` — such a run directly. A space
/// followed by `:` commits to the first form.
pub open spec fn trailing_at(s: Seq<char>, i: int) -> Option<(int, Seq<char>)> {
    if i < s.len() && s[i] == ' ' {
        if i + 1 < s.len() && s[i + 1] == ':' {
            let te = run_end(s, i + 2, CharClass::Trailing);
            if te > i + 2 {
                Some((te, s.subrange(i + 2, te)))
            } else {
                None
            }
        } else {
            let te = run_end(s, i + 1, CharClass::Trailing);
            if te > i + 1 {
                Some((te, s.subrange(i + 1, te)))
            } else {
                None
            }
        }
    } else {
        None
    }
}

/// The whole parameter list at `i`: up to 14 middle parameters, then an
/// optional trailing parameter, which becomes the last entry.
pub open spec fn params_at(s: Seq<char>, i: int) -> (int, Seq<Seq<char>>) {
    let m = middles_at(s, i, 14);
    match trailing_at(s, m.0) {
        Some(t) => (t.0, m.1.push(t.1)),
        None => m,
    }
}

/// The position past the optional prefix of the line (0 when none matches).
pub open spec fn prefix_opt_end(s: Seq<char>) -> int {
    match prefix_at(s, 0) {
        Some(r) => r.0,
        None => 0,
    }
}

/// The optional prefix of the line.
pub open spec fn prefix_opt(s: Seq<char>) -> Option<SpecPrefix> {
    match prefix_at(s, 0) {
        Some(r) => Some(r.1),
        None => None,
    }
}

/// One whole message at the start of `s`: optional prefix, command,
/// parameters, and the exact CR LF terminator. Returns the position past
/// the terminator and the structured message, or fails.
pub open spec fn message_at(s: Seq<char>) -> Option<(int, SpecRawEvent)> {
    let i0 = prefix_opt_end(s);
    match command_end(s, i0) {
        None => None,
        Some(ce) => {
            let pr = params_at(s, ce);
            if pr.0 + 2 <= s.len() && s[pr.0] == '\r' && s[pr.0 + 1] == '\n' {
                Some(
                    (
                        pr.0 + 2,
                        SpecRawEvent {
                            prefix: prefix_opt(s),
                            command: s.subrange(i0, ce),
                            params: pr.1,
                        },
                    ),
                )
            } else {
                None
            }
        },
    }
}

/// What the event mapper makes of a structured message: a recognized
/// command with its required parameters yields its typed event, anything
/// else yields `Unknown`.
pub open spec fn map_spec(m: SpecRawEvent) -> SpecEvent {
    if m.command == "PING"@ && m.params.len() >= 1 {
        SpecEvent::Ping {
            server: m.params[0],
            server2: if m.params.len() >= 2 {
                Some(m.params[1])
            } else {
                None
            },
        }
    } else {
        SpecEvent::Unknown
    }
}

/// The event produced for a whole input: the mapped message when the input
/// starts with a syntactically valid line, `Unknown` otherwise.
pub open spec fn parse_result(s: Seq<char>) -> SpecEvent {
    match message_at(s) {
        Some(r) => map_spec(r.1),
        None => SpecEvent::Unknown,
    }
}

/// Whether character `c` belongs to class `k` (executable form).
pub fn class_check(k: CharClass, c: char) -> (r: bool)
    ensures
        r == class_holds(k, c),
{
    let u = c as u32;
    match k {
        CharClass::Host => (97 <= u && u <= 122) || (65 <= u && u <= 90) || (48 <= u && u <= 57)
            || c == '.',
        CharClass::Nick => (97 <= u && u <= 122) || (65 <= u && u <= 90) || (48 <= u && u <= 57)
            || c == '[' || c == ']' || c == '\\' || c == '`' || c == '_' || c == '^' || c == '{'
            || c == '|' || c == '}' || c == '-',
        CharClass::AlphaNum => (97 <= u && u <= 122) || (65 <= u && u <= 90) || (48 <= u && u <= 57),
        CharClass::Digit => 48 <= u && u <= 57,
        CharClass::Alpha => (97 <= u && u <= 122) || (65 <= u && u <= 90),
        CharClass::MiddleTail => c != '\u{0}' && c != '\r' && c != '\n' && c != ' ',
        CharClass::Trailing => c != '\u{0}' && c != '\r' && c != '\n',
    }
}

/// Scans the maximal run of class `k` in `s` starting at `i` and returns
/// its end.
pub fn scan_class(s: &str, i: usize, k: CharClass) -> (j: usize)
    requires
        i <= s@.len(),
    ensures
        i <= j <= s@.len(),
        j == run_end(s@, i as int, k),
{
    let n = s.unicode_len();
    let mut j = i;
    while j < n && class_check(k, s.get_char(j))
        invariant
            i <= j <= n,
            n == s@.len(),
            run_end(s@, i as int, k) == run_end(s@, j as int, k),
        decreases n - j,
    {
        j = j + 1;
    }
    j
}

// ---------------------------------------------------------------------------
// Executable parsing, one function per grammar rule, each proved against the
// corresponding specification function above.
// ---------------------------------------------------------------------------

/// Character-by-character string equality.
fn str_eq(a: &str, b: &str) -> (r: bool)
    ensures
        r == (a@ == b@),
{
    let na = a.unicode_len();
    let nb = b.unicode_len();
    if na != nb {
        return false;
    }
    let mut i: usize = 0;
    while i < na
        invariant
            i <= na,
            na == a@.len(),
            na == b@.len(),
            forall|m: int| 0 <= m < i ==> a@[m] == b@[m],
        decreases na - i,
    {
        if a.get_char(i) != b.get_char(i) {
            return false;
        }
        i = i + 1;
    }
    proof {
        assert(a@ =~= b@);
    }
    true
}

/// Recognizes a whole prefix at the start of the input and returns the
/// position past its closing space, or fails.
fn exec_prefix(input: &str) -> (r: Option<(usize, Prefix)>)
    ensures
        match r {
            Some(t) => prefix_at(input@, 0) matches Some(sp) && t.0 as int == sp.0 && t.1@ == sp.1
                && t.0 <= input@.len(),
            None => prefix_at(input@, 0) is None,
        },
{
    let n = input.unicode_len();
    if n == 0 || input.get_char(0) != ':' {
        return None;
    }
    let ne = scan_class(input, 1, CharClass::Nick);
    let mut has_user = false;
    let mut ue = ne;
    if ne < n && input.get_char(ne) == '!' {
        let e = scan_class(input, ne + 1, CharClass::AlphaNum);
        if e > ne + 1 {
            has_user = true;
            ue = e;
        }
    }
    let au = if has_user {
        ue
    } else {
        ne
    };
    let (bend, pfx): (usize, Prefix) = if au < n && input.get_char(au) == '@' {
        let he = scan_class(input, au + 1, CharClass::Host);
        let nick = input.substring_char(1, ne).to_owned();
        let uname = if has_user {
            Some(input.substring_char(ne + 1, ue).to_owned())
        } else {
            None
        };
        let host = input.substring_char(au + 1, he).to_owned();
        (he, Prefix::User { nick, username: uname, host })
    } else {
        let he = scan_class(input, 1, CharClass::Host);
        (he, Prefix::Server { host: input.substring_char(1, he).to_owned() })
    };
    if bend < n && input.get_char(bend) == ' ' {
        Some((bend + 1, pfx))
    } else {
        None
    }
}

/// Recognizes a command token at `i`: digits first, then letters.
fn exec_command(input: &str, i: usize) -> (r: Option<(usize, String)>)
    requires
        i <= input@.len(),
    ensures
        match r {
            Some(t) => command_end(input@, i as int) matches Some(ce) && t.0 as int == ce
                && t.1@ == input@.subrange(i as int, ce) && t.0 <= input@.len(),
            None => command_end(input@, i as int) is None,
        },
{
    let de = scan_class(input, i, CharClass::Digit);
    if de > i {
        return Some((de, input.substring_char(i, de).to_owned()));
    }
    let ae = scan_class(input, i, CharClass::Alpha);
    if ae > i {
        return Some((ae, input.substring_char(i, ae).to_owned()));
    }
    None
}

/// Finds the end of a middle parameter starting at `i`, or returns `i`.
fn exec_middle_token_end(input: &str, i: usize) -> (j: usize)
    requires
        i <= input@.len(),
    ensures
        j as int == middle_token_end(input@, i as int),
        i <= j <= input@.len(),
{
    let n = input.unicode_len();
    if i < n {
        let c = input.get_char(i);
        if class_check(CharClass::MiddleTail, c) && c != ':' {
            return scan_class(input, i + 1, CharClass::MiddleTail);
        }
    }
    i
}

/// Collects up to 14 middle parameters starting at `i`.
fn exec_middles(input: &str, i: usize) -> (r: (usize, Vec<String>))
    requires
        i <= input@.len(),
    ensures
        r.0 as int == middles_at(input@, i as int, 14).0,
        r.1.deep_view() == middles_at(input@, i as int, 14).1,
        i <= r.0 <= input@.len(),
{
    let ghost s = input@;
    let n = input.unicode_len();
    let mut cur = i;
    let mut count: usize = 0;
    let mut acc: Vec<String> = Vec::new();
    let mut done = false;
    while !done && count < 14
        invariant
            i <= cur <= n,
            n == s.len(),
            s == input@,
            count <= 14,
            acc@.len() == count,
            middles_at(s, i as int, 14).0 == middles_at(s, cur as int, (14 - count) as nat).0,
            middles_at(s, i as int, 14).1 == acc.deep_view() + middles_at(
                s,
                cur as int,
                (14 - count) as nat,
            ).1,
            done ==> !(cur < s.len() && s[cur as int] == ' ' && middle_token_end(s, cur as int + 1)
                > cur as int + 1),
        decreases 14 - count + (if done {
            0int
        } else {
            1int
        }),
    {
        if cur < n && input.get_char(cur) == ' ' {
            let te = exec_middle_token_end(input, cur + 1);
            if te > cur + 1 {
                let tok = input.substring_char(cur + 1, te).to_owned();
                let ghost prev_dv = acc.deep_view();
                acc.push(tok);
                proof {
                    assert(acc.deep_view() =~= prev_dv.push(tok@));
                    assert(prev_dv.push(tok@) + middles_at(s, te as int, (14 - (count + 1)) as nat).1
                        =~= prev_dv + middles_at(s, cur as int, (14 - count) as nat).1);
                }
                cur = te;
                count = count + 1;
            } else {
                done = true;
            }
        } else {
            done = true;
        }
    }
    (cur, acc)
}

/// Recognizes a trailing parameter at `i`, or fails.
fn exec_trailing(input: &str, i: usize) -> (r: Option<(usize, String)>)
    requires
        i <= input@.len(),
    ensures
        match r {
            Some(t) => trailing_at(input@, i as int) matches Some(st) && t.0 as int == st.0
                && t.1@ == st.1 && i <= t.0 <= input@.len(),
            None => trailing_at(input@, i as int) is None,
        },
{
    let n = input.unicode_len();
    if i < n && input.get_char(i) == ' ' {
        if i + 1 < n && input.get_char(i + 1) == ':' {
            let te = scan_class(input, i + 2, CharClass::Trailing);
            if te > i + 2 {
                return Some((te, input.substring_char(i + 2, te).to_owned()));
            }
            return None;
        }
        let te = scan_class(input, i + 1, CharClass::Trailing);
        if te > i + 1 {
            return Some((te, input.substring_char(i + 1, te).to_owned()));
        }
        return None;
    }
    None
}

/// Recognizes the whole parameter list at `i`: middles, then an optional
/// trailing parameter appended as the last entry.
fn exec_params(input: &str, i: usize) -> (r: (usize, Vec<String>))
    requires
        i <= input@.len(),
    ensures
        r.0 as int == params_at(input@, i as int).0,
        r.1.deep_view() == params_at(input@, i as int).1,
        i <= r.0 <= input@.len(),
{
    let (me, mut ps) = exec_middles(input, i);
    match exec_trailing(input, me) {
        Some((te, t)) => {
            let ghost prev_dv = ps.deep_view();
            ps.push(t);
            proof {
                assert(ps.deep_view() =~= prev_dv.push(t@));
            }
            (te, ps)
        },
        None => (me, ps),
    }
}

/// Parses a prefix at the start of the input; on success returns the rest
/// of the input after the prefix's closing space, and the prefix.
pub fn prefix_parser<'a>(input: &'a str) -> (r: Option<(&'a str, Prefix)>)
    ensures
        match r {
            Some(t) => prefix_at(input@, 0) matches Some(sp) && t.0@ == input@.subrange(
                sp.0,
                input@.len() as int,
            ) && t.1@ == sp.1,
            None => prefix_at(input@, 0) is None,
        },
{
    match exec_prefix(input) {
        Some((j, p)) => {
            let n = input.unicode_len();
            Some((input.substring_char(j, n), p))
        },
        None => None,
    }
}

/// Parses up to 14 middle parameters at the start of the input; never
/// fails (zero middles is a valid result). Returns the rest and the tokens.
pub fn middle_params_parser<'a>(input: &'a str) -> (r: Option<(&'a str, Vec<String>)>)
    ensures
        r matches Some(t) && t.0@ == input@.subrange(
            middles_at(input@, 0, 14).0,
            input@.len() as int,
        ) && t.1.deep_view() == middles_at(input@, 0, 14).1,
{
    let (me, ps) = exec_middles(input, 0);
    let n = input.unicode_len();
    Some((input.substring_char(me, n), ps))
}

/// Parses an optional trailing parameter at the start of the input; never
/// fails. Returns the rest and the token, if one was there.
pub fn trailing_params_parser<'a>(input: &'a str) -> (r: (&'a str, Option<String>))
    ensures
        match trailing_at(input@, 0) {
            Some(st) => r.1 matches Some(t) && t@ == st.1 && r.0@ == input@.subrange(
                st.0,
                input@.len() as int,
            ),
            None => r.1 is None && r.0@ == input@,
        },
{
    let n = input.unicode_len();
    match exec_trailing(input, 0) {
        Some((te, t)) => (input.substring_char(te, n), Some(t)),
        None => {
            proof {
                assert(input@.subrange(0, n as int) =~= input@);
            }
            (input.substring_char(0, n), None)
        },
    }
}

/// Parses the whole parameter list at the start of the input; never fails.
pub fn params_parser<'a>(input: &'a str) -> (r: Option<(&'a str, Vec<String>)>)
    ensures
        r matches Some(t) && t.0@ == input@.subrange(
            params_at(input@, 0).0,
            input@.len() as int,
        ) && t.1.deep_view() == params_at(input@, 0).1,
{
    let (pe, ps) = exec_params(input, 0);
    let n = input.unicode_len();
    Some((input.substring_char(pe, n), ps))
}

/// Parses one whole message at the start of the input: optional prefix,
/// command, parameters and the CR LF terminator. Returns the rest of the
/// input past the terminator and the structured message, or fails when the
/// line does not match the grammar.
pub fn raw_event_parser<'a>(input: &'a str) -> (r: Option<(&'a str, RawEvent)>)
    ensures
        match r {
            Some(t) => message_at(input@) matches Some(m) && t.0@ == input@.subrange(
                m.0,
                input@.len() as int,
            ) && t.1@ == m.1,
            None => message_at(input@) is None,
        },
{
    let n = input.unicode_len();
    let (i0, pfx): (usize, Option<Prefix>) = match exec_prefix(input) {
        Some((j, p)) => (j, Some(p)),
        None => (0, None),
    };
    match exec_command(input, i0) {
        None => None,
        Some((ce, cmd)) => {
            let (pe, params) = exec_params(input, ce);
            if pe < n && pe + 1 < n && input.get_char(pe) == '\r' && input.get_char(pe + 1)
                == '\n' {
                let rest = input.substring_char(pe + 2, n);
                Some((rest, RawEvent { prefix: pfx, command: cmd, params }))
            } else {
                None
            }
        },
    }
}

/// Builds the server form of a prefix from a host name.
pub fn to_prefix_server(input: &str) -> (r: Prefix)
    ensures
        r@ == (SpecPrefix::Server { host: input@ }),
{
    Prefix::Server { host: input.to_owned() }
}

/// Maps one structured message to its typed event. Total: every message
/// yields exactly one event; a recognized command whose required parameter
/// is missing, or an unrecognized command, yields `Unknown`.
pub fn map_event(raw: &RawEvent) -> (r: Event)
    ensures
        r@ == map_spec(raw@),
{
    if str_eq(raw.command.as_str(), "PING") && raw.params.len() >= 1 {
        let server = raw.params[0].clone();
        let server2 = if raw.params.len() >= 2 {
            Some(raw.params[1].clone())
        } else {
            None
        };
        Event::Ping { server, server2 }
    } else {
        Event::Unknown
    }
}

/// Parses one line and maps it to a typed event. Total over every input:
/// a line that does not match the grammar, no less than an unrecognized
/// command, yields `Unknown` rather than an error.
pub fn parse_input(input: &str) -> (r: Event)
    ensures
        r@ == parse_result(input@),
{
    match raw_event_parser(input) {
        Some(t) => map_event(&t.1),
        None => Event::Unknown,
    }
}

} // verus!
