//! The handshake file protocol: the backend writes a small JSON document
//! `{"host": <string>, "port": <integer 0-65535>, "pid": <integer>}` to a path
//! the launcher supplies, and the launcher reads it back.
//!
//! The grammar accepted here is the JSON subset such documents use: one object
//! of string keys and scalar values, where a scalar is a string without escape
//! sequences or an integer of at most eighteen digits. The three known fields
//! may come in any order, each at most once; unknown fields are ignored. A
//! document that fails this grammar, or whose known fields are missing,
//! duplicated, ill-typed or out of range, yields no record — the caller treats
//! that as "not yet available" and retries.

use vstd::prelude::*;

verus! {

/// The record the backend publishes: its bound host and port, and its
/// process id.
pub struct HandshakeRecord {
    pub host: String,
    pub port: u16,
    pub pid: i64,
}

/// Whitespace accepted between tokens of the handshake document.
pub open spec fn is_ws_char(c: char) -> bool {
    c == ' ' || c == '\t' || c == '\n' || c == '\r'
}

/// A decimal digit.
pub open spec fn is_digit_char(c: char) -> bool {
    48 <= c as u32 <= 57
}

/// The numeric value of a decimal digit character.
pub open spec fn digit_val(c: char) -> int {
    c as u32 - 48
}

/// The first index at or after `i` holding no whitespace.
pub open spec fn skip_ws(s: Seq<char>, i: int) -> int
    decreases s.len() - i,
{
    if 0 <= i < s.len() && is_ws_char(s[i]) {
        skip_ws(s, i + 1)
    } else {
        i
    }
}

/// The index of the closing quote of a string body starting at `j`, if the
/// body runs to one without an escape or a control character.
pub open spec fn string_body_end(s: Seq<char>, j: int) -> Option<int>
    decreases s.len() - j,
{
    if !(0 <= j < s.len()) {
        None
    } else if s[j] == '"' {
        Some(j)
    } else if s[j] == '\\' || (s[j] as u32) < 32 {
        None
    } else {
        string_body_end(s, j + 1)
    }
}

/// Parses a quoted string at `i`: its character content and the index after
/// the closing quote.
pub open spec fn parse_string(s: Seq<char>, i: int) -> Option<(Seq<char>, int)> {
    if 0 <= i < s.len() && s[i] == '"' {
        match string_body_end(s, i + 1) {
            Some(e) => Some((s.subrange(i + 1, e), e + 1)),
            None => None,
        }
    } else {
        None
    }
}

/// The first index at or after `j` holding no digit.
pub open spec fn digits_end(s: Seq<char>, j: int) -> int
    decreases s.len() - j,
{
    if 0 <= j < s.len() && is_digit_char(s[j]) {
        digits_end(s, j + 1)
    } else {
        j
    }
}

/// The value of the digit run `s[j..e)`.
pub open spec fn digits_val(s: Seq<char>, j: int, e: int) -> int
    decreases e - j,
{
    if j < e {
        digits_val(s, j, e - 1) * 10 + digit_val(s[e - 1])
    } else {
        0
    }
}

/// Parses an unsigned integer at `i`: a single `0`, or a nonzero digit
/// followed by further digits, at most eighteen in all.
pub open spec fn parse_uint(s: Seq<char>, i: int) -> Option<(int, int)> {
    if !(0 <= i < s.len() && is_digit_char(s[i])) {
        None
    } else if s[i] == '0' {
        Some((0, i + 1))
    } else {
        let e = digits_end(s, i);
        if e - i <= 18 {
            Some((digits_val(s, i, e), e))
        } else {
            None
        }
    }
}

/// Parses an integer at `i`, with an optional leading minus sign.
pub open spec fn parse_int(s: Seq<char>, i: int) -> Option<(int, int)> {
    if 0 <= i < s.len() && s[i] == '-' {
        match parse_uint(s, i + 1) {
            Some((v, j)) => Some((-v, j)),
            None => None,
        }
    } else {
        parse_uint(s, i)
    }
}

/// Folds a string-valued member into the fields gathered so far. `host` takes
/// a string exactly once; `port` and `pid` never do; other keys are ignored.
pub open spec fn apply_string_field(
    acc: (Option<Seq<char>>, Option<int>, Option<int>),
    key: Seq<char>,
    v: Seq<char>,
) -> Option<(Option<Seq<char>>, Option<int>, Option<int>)> {
    if key == "host"@ {
        if acc.0 is None {
            Some((Some(v), acc.1, acc.2))
        } else {
            None
        }
    } else if key == "port"@ || key == "pid"@ {
        None
    } else {
        Some(acc)
    }
}

/// Folds an integer-valued member into the fields gathered so far. `port`
/// takes an integer in the port range exactly once, `pid` an integer exactly
/// once; `host` never does; other keys are ignored.
pub open spec fn apply_int_field(
    acc: (Option<Seq<char>>, Option<int>, Option<int>),
    key: Seq<char>,
    v: int,
) -> Option<(Option<Seq<char>>, Option<int>, Option<int>)> {
    if key == "port"@ {
        if acc.1 is None && 0 <= v <= 65535 {
            Some((acc.0, Some(v), acc.2))
        } else {
            None
        }
    } else if key == "pid"@ {
        if acc.2 is None {
            Some((acc.0, acc.1, Some(v)))
        } else {
            None
        }
    } else if key == "host"@ {
        None
    } else {
        Some(acc)
    }
}

/// Parses one `"key" : scalar` member at `i` and folds it into `acc`.
pub open spec fn parse_member(
    s: Seq<char>,
    i: int,
    acc: (Option<Seq<char>>, Option<int>, Option<int>),
) -> Option<((Option<Seq<char>>, Option<int>, Option<int>), int)> {
    match parse_string(s, i) {
        None => None,
        Some((key, j1)) => {
            let j2 = skip_ws(s, j1);
            if !(j2 < s.len() && s[j2] == ':') {
                None
            } else {
                let j3 = skip_ws(s, j2 + 1);
                if 0 <= j3 < s.len() && s[j3] == '"' {
                    match parse_string(s, j3) {
                        None => None,
                        Some((v, j4)) => match apply_string_field(acc, key, v) {
                            None => None,
                            Some(acc2) => Some((acc2, j4)),
                        },
                    }
                } else {
                    match parse_int(s, j3) {
                        None => None,
                        Some((v, j4)) => match apply_int_field(acc, key, v) {
                            None => None,
                            Some(acc2) => Some((acc2, j4)),
                        },
                    }
                }
            }
        },
    }
}

/// Parses a comma-separated member list at `i`, folding each member into
/// `acc`, and stops at the first index after the list (expected to hold the
/// closing brace). `fuel` only bounds the recursion; the callers pass the
/// document length, which one member can never consume less than one
/// character of.
pub open spec fn parse_members(
    s: Seq<char>,
    i: int,
    acc: (Option<Seq<char>>, Option<int>, Option<int>),
    fuel: nat,
) -> Option<((Option<Seq<char>>, Option<int>, Option<int>), int)>
    decreases fuel,
{
    if fuel == 0 {
        None
    } else {
        match parse_member(s, i, acc) {
            None => None,
            Some((acc2, j)) => {
                let j2 = skip_ws(s, j);
                if 0 <= j2 < s.len() && s[j2] == ',' {
                    parse_members(s, skip_ws(s, j2 + 1), acc2, (fuel - 1) as nat)
                } else {
                    Some((acc2, j2))
                }
            },
        }
    }
}

/// What the whole handshake document denotes: the host characters, the port
/// and the pid, if the text is one object carrying all three fields as the
/// grammar above demands — and nothing otherwise.
pub open spec fn parse_handshake_spec(s: Seq<char>) -> Option<(Seq<char>, u16, i64)> {
    let i0 = skip_ws(s, 0);
    if !(i0 < s.len() && s[i0] == '{') {
        None
    } else {
        match parse_members(s, skip_ws(s, i0 + 1), (None, None, None), s.len()) {
            None => None,
            Some((acc, j)) => {
                if !(j < s.len() && s[j] == '}') {
                    None
                } else if skip_ws(s, j + 1) != s.len() {
                    None
                } else {
                    match acc {
                        (Some(h), Some(p), Some(d)) => Some((h, p as u16, d as i64)),
                        _ => None,
                    }
                }
            },
        }
    }
}

/// Ten to the power `k`.
spec fn pow10(k: nat) -> int
    decreases k,
{
    if k == 0 {
        1
    } else {
        10 * pow10((k - 1) as nat)
    }
}

proof fn lemma_pow10_pos(k: nat)
    ensures
        pow10(k) >= 1,
    decreases k,
{
    if k > 0 {
        lemma_pow10_pos((k - 1) as nat);
    }
}

proof fn lemma_pow10_le(a: nat, b: nat)
    requires
        a <= b,
    ensures
        pow10(a) <= pow10(b),
    decreases b,
{
    if a < b {
        lemma_pow10_le(a, (b - 1) as nat);
        lemma_pow10_pos((b - 1) as nat);
    }
}

proof fn lemma_digits_end_bounds(s: Seq<char>, i: int)
    requires
        0 <= i <= s.len(),
    ensures
        i <= digits_end(s, i) <= s.len(),
    decreases s.len() - i,
{
    if i < s.len() && is_digit_char(s[i]) {
        lemma_digits_end_bounds(s, i + 1);
    }
}

proof fn lemma_digits_val_bound(s: Seq<char>, j: int, e: int)
    requires
        0 <= j <= e <= s.len(),
        forall|k: int| j <= k < e ==> is_digit_char(#[trigger] s[k]),
    ensures
        0 <= digits_val(s, j, e) < pow10((e - j) as nat),
    decreases e - j,
{
    if j < e {
        lemma_digits_val_bound(s, j, e - 1);
        assert(is_digit_char(s[e - 1]));
    } else {
        lemma_pow10_pos(0);
    }
}

fn skip_ws_x(s: &str, n: usize, i: usize) -> (j: usize)
    requires
        n == s@.len(),
        i <= n,
    ensures
        j == skip_ws(s@, i as int),
        i <= j <= n,
    decreases n - i,
{
    if i < n {
        let c = s.get_char(i);
        if c == ' ' || c == '\t' || c == '\n' || c == '\r' {
            return skip_ws_x(s, n, i + 1);
        }
    }
    i
}

fn string_body_end_x(s: &str, n: usize, j: usize) -> (r: Option<usize>)
    requires
        n == s@.len(),
        j <= n,
    ensures
        match r {
            Some(e) => string_body_end(s@, j as int) == Some(e as int) && j <= e < n,
            None => string_body_end(s@, j as int) is None,
        },
    decreases n - j,
{
    if j == n {
        return None;
    }
    let c = s.get_char(j);
    if c == '"' {
        Some(j)
    } else if c == '\\' || (c as u32) < 32 {
        None
    } else {
        string_body_end_x(s, n, j + 1)
    }
}

fn parse_string_x(s: &str, n: usize, i: usize) -> (r: Option<(String, usize)>)
    requires
        n == s@.len(),
        i <= n,
    ensures
        match r {
            Some(p) => parse_string(s@, i as int) == Some((p.0@, p.1 as int)) && i < p.1 <= n,
            None => parse_string(s@, i as int) is None,
        },
{
    if i == n {
        return None;
    }
    if s.get_char(i) != '"' {
        return None;
    }
    match string_body_end_x(s, n, i + 1) {
        None => None,
        Some(e) => {
            let v = s.substring_char(i + 1, e).to_owned();
            Some((v, e + 1))
        },
    }
}

fn digits_end_x(s: &str, n: usize, i: usize) -> (e: usize)
    requires
        n == s@.len(),
        i <= n,
    ensures
        e == digits_end(s@, i as int),
        i <= e <= n,
        forall|k: int| i <= k < e ==> is_digit_char(#[trigger] s@[k]),
    decreases n - i,
{
    if i < n {
        let c = s.get_char(i);
        let u = c as u32;
        if 48 <= u && u <= 57 {
            return digits_end_x(s, n, i + 1);
        }
    }
    i
}

fn digits_val_x(s: &str, n: usize, j: usize, e: usize) -> (v: i64)
    requires
        n == s@.len(),
        j <= e <= n,
        e - j <= 18,
        forall|k: int| j <= k < e ==> is_digit_char(#[trigger] s@[k]),
    ensures
        v == digits_val(s@, j as int, e as int),
        0 <= v,
    decreases e - j,
{
    if e == j {
        0
    } else {
        let prev = digits_val_x(s, n, j, e - 1);
        let c = s.get_char(e - 1);
        proof {
            assert(is_digit_char(s@[e - 1]));
            lemma_digits_val_bound(s@, j as int, (e - 1) as int);
            lemma_pow10_le((e - 1 - j) as nat, 17);
            assert(pow10(17) == 100000000000000000) by {
                reveal_with_fuel(pow10, 18);
            }
        }
        let d = (c as u32 - 48) as i64;
        prev * 10 + d
    }
}

fn parse_uint_x(s: &str, n: usize, i: usize) -> (r: Option<(i64, usize)>)
    requires
        n == s@.len(),
        i <= n,
    ensures
        match r {
            Some(p) => parse_uint(s@, i as int) == Some((p.0 as int, p.1 as int)) && i < p.1 <= n
                && 0 <= p.0,
            None => parse_uint(s@, i as int) is None,
        },
{
    if i == n {
        return None;
    }
    let c = s.get_char(i);
    let u = c as u32;
    if !(48 <= u && u <= 57) {
        return None;
    }
    if c == '0' {
        return Some((0, i + 1));
    }
    let e = digits_end_x(s, n, i);
    proof {
        lemma_digits_end_bounds(s@, i + 1);
    }
    if e - i > 18 {
        return None;
    }
    let v = digits_val_x(s, n, i, e);
    Some((v, e))
}

fn parse_int_x(s: &str, n: usize, i: usize) -> (r: Option<(i64, usize)>)
    requires
        n == s@.len(),
        i <= n,
    ensures
        match r {
            Some(p) => parse_int(s@, i as int) == Some((p.0 as int, p.1 as int)) && i < p.1 <= n,
            None => parse_int(s@, i as int) is None,
        },
{
    if i < n && s.get_char(i) == '-' {
        match parse_uint_x(s, n, i + 1) {
            Some(p) => Some((-p.0, p.1)),
            None => None,
        }
    } else {
        parse_uint_x(s, n, i)
    }
}

fn str_eq_from(a: &str, b: &str, n: usize, i: usize) -> (r: bool)
    requires
        a@.len() == n,
        b@.len() == n,
        i <= n,
    ensures
        r == (forall|k: int| i <= k < n ==> a@[k] == b@[k]),
    decreases n - i,
{
    if i == n {
        true
    } else {
        let ca = a.get_char(i);
        let cb = b.get_char(i);
        if ca != cb {
            false
        } else {
            str_eq_from(a, b, n, i + 1)
        }
    }
}

/// Character-wise string equality, tied to view equality.
fn str_eq(a: &str, b: &str) -> (r: bool)
    ensures
        r == (a@ == b@),
{
    let na = a.unicode_len();
    let nb = b.unicode_len();
    if na != nb {
        proof {
            assert(a@ != b@);
        }
        return false;
    }
    let r = str_eq_from(a, b, na, 0);
    proof {
        if r {
            assert(a@ =~= b@);
        }
    }
    r
}

/// The fields gathered while walking the document's members.
struct Acc {
    host: Option<String>,
    port: Option<u16>,
    pid: Option<i64>,
}

impl Acc {
    spec fn model(&self) -> (Option<Seq<char>>, Option<int>, Option<int>) {
        (
            match self.host {
                Some(h) => Some(h@),
                None => None,
            },
            match self.port {
                Some(p) => Some(p as int),
                None => None,
            },
            match self.pid {
                Some(d) => Some(d as int),
                None => None,
            },
        )
    }
}

fn apply_string_field_x(acc: Acc, key: &str, v: String) -> (r: Option<Acc>)
    ensures
        match r {
            Some(a2) => apply_string_field(acc.model(), key@, v@) == Some(a2.model()),
            None => apply_string_field(acc.model(), key@, v@) is None,
        },
{
    if str_eq(key, "host") {
        if acc.host.is_none() {
            Some(Acc { host: Some(v), port: acc.port, pid: acc.pid })
        } else {
            None
        }
    } else if str_eq(key, "port") || str_eq(key, "pid") {
        None
    } else {
        Some(acc)
    }
}

fn apply_int_field_x(acc: Acc, key: &str, v: i64) -> (r: Option<Acc>)
    ensures
        match r {
            Some(a2) => apply_int_field(acc.model(), key@, v as int) == Some(a2.model()),
            None => apply_int_field(acc.model(), key@, v as int) is None,
        },
{
    if str_eq(key, "port") {
        if acc.port.is_none() && 0 <= v && v <= 65535 {
            Some(Acc { host: acc.host, port: Some(v as u16), pid: acc.pid })
        } else {
            None
        }
    } else if str_eq(key, "pid") {
        if acc.pid.is_none() {
            Some(Acc { host: acc.host, port: acc.port, pid: Some(v) })
        } else {
            None
        }
    } else if str_eq(key, "host") {
        None
    } else {
        Some(acc)
    }
}

fn parse_member_x(s: &str, n: usize, i: usize, acc: Acc) -> (r: Option<(Acc, usize)>)
    requires
        n == s@.len(),
        i <= n,
    ensures
        match r {
            Some(p) => parse_member(s@, i as int, acc.model()) == Some((p.0.model(), p.1 as int))
                && p.1 <= n,
            None => parse_member(s@, i as int, acc.model()) is None,
        },
{
    match parse_string_x(s, n, i) {
        None => None,
        Some((key, j1)) => {
            let j2 = skip_ws_x(s, n, j1);
            if j2 == n {
                return None;
            }
            if s.get_char(j2) != ':' {
                return None;
            }
            let j3 = skip_ws_x(s, n, j2 + 1);
            if j3 < n && s.get_char(j3) == '"' {
                match parse_string_x(s, n, j3) {
                    None => None,
                    Some((v, j4)) => match apply_string_field_x(acc, key.as_str(), v) {
                        None => None,
                        Some(acc2) => Some((acc2, j4)),
                    },
                }
            } else {
                match parse_int_x(s, n, j3) {
                    None => None,
                    Some((v, j4)) => match apply_int_field_x(acc, key.as_str(), v) {
                        None => None,
                        Some(acc2) => Some((acc2, j4)),
                    },
                }
            }
        },
    }
}

fn parse_members_x(s: &str, n: usize, i: usize, acc: Acc, fuel: usize) -> (r: Option<(Acc, usize)>)
    requires
        n == s@.len(),
        i <= n,
    ensures
        match r {
            Some(p) => parse_members(s@, i as int, acc.model(), fuel as nat) == Some(
                (p.0.model(), p.1 as int),
            ) && p.1 <= n,
            None => parse_members(s@, i as int, acc.model(), fuel as nat) is None,
        },
    decreases fuel,
{
    if fuel == 0 {
        return None;
    }
    match parse_member_x(s, n, i, acc) {
        None => None,
        Some((acc2, j)) => {
            let j2 = skip_ws_x(s, n, j);
            if j2 < n && s.get_char(j2) == ',' {
                let j3 = skip_ws_x(s, n, j2 + 1);
                parse_members_x(s, n, j3, acc2, fuel - 1)
            } else {
                Some((acc2, j2))
            }
        },
    }
}

/// Reads a handshake document. Returns the record exactly when the text
/// denotes one under [`parse_handshake_spec`]; any other content — truncated,
/// malformed, missing or duplicated fields, port out of range — yields `None`
/// and never a panic, so a reader that caught the file mid-write simply
/// retries.
pub fn parse_handshake(s: &str) -> (r: Option<HandshakeRecord>)
    ensures
        match r {
            Some(rec) => parse_handshake_spec(s@) == Some((rec.host@, rec.port, rec.pid)),
            None => parse_handshake_spec(s@) is None,
        },
{
    let n = s.unicode_len();
    let i0 = skip_ws_x(s, n, 0);
    if i0 == n {
        return None;
    }
    if s.get_char(i0) != '{' {
        return None;
    }
    let i1 = skip_ws_x(s, n, i0 + 1);
    match parse_members_x(s, n, i1, Acc { host: None, port: None, pid: None }, n) {
        None => None,
        Some((acc, j)) => {
            if j == n {
                return None;
            }
            if s.get_char(j) != '}' {
                return None;
            }
            if skip_ws_x(s, n, j + 1) != n {
                return None;
            }
            match (acc.host, acc.port, acc.pid) {
                (Some(h), Some(p), Some(d)) => Some(HandshakeRecord { host: h, port: p, pid: d }),
                _ => None,
            }
        },
    }
}

} // verus!
