use vstd::prelude::*;
use vstd::string::StrSliceExecFns;
use crate::message_error::MessageError;
use crate::notification::Notification;
use crate::online::push_char;
use crate::payload_trait::OnlineMqttPayload;

verus! {

// The wire grammar of a notification body. A body is a JSON-style text in
// ASCII: an object whose members are `uuid` and `apiToken` (strings, both
// required and non-empty), `payload` (an object, required; its members are
// ignored), and any further members, whose values may be strings, numbers,
// booleans, nulls, arrays or objects. Strings take the eight single-letter
// escapes; characters outside printable ASCII are not part of the grammar.
// A duplicate of a required member makes the body malformed, as does any
// text after the closing brace.
//
// The grammar is written once as spec functions — they are the reference —
// and once as executable parsers proved to return exactly what the spec
// functions say. The recursive spec functions carry an explicit recursion
// budget; the budget the decoder passes is far larger than any input can
// consume, so it never cuts a parse short.

/// Insignificant whitespace.
pub open spec fn is_ws(b: u8) -> bool {
    b == 0x20 || b == 0x09 || b == 0x0a || b == 0x0d
}

/// An ASCII decimal digit.
pub open spec fn is_digit(b: u8) -> bool {
    0x30 <= b <= 0x39
}

/// First index at or after `i` holding a non-whitespace byte; `s.len()` if
/// none.
pub open spec fn ws_end(s: Seq<u8>, i: int) -> int
    decreases s.len() - i,
{
    if i < 0 || i >= s.len() {
        s.len() as int
    } else if is_ws(s[i]) {
        ws_end(s, i + 1)
    } else {
        i
    }
}

/// First index at or after `i` holding a non-digit byte; `s.len()` if none.
pub open spec fn digits_end(s: Seq<u8>, i: int) -> int
    decreases s.len() - i,
{
    if i < 0 || i >= s.len() {
        s.len() as int
    } else if is_digit(s[i]) {
        digits_end(s, i + 1)
    } else {
        i
    }
}

/// The character an escape letter stands for, if it is one of the eight the
/// grammar takes.
pub open spec fn escape_code(b: u8) -> Option<char> {
    if b == 0x22 {
        Option::Some('"')
    } else if b == 0x5c {
        Option::Some('\\')
    } else if b == 0x2f {
        Option::Some('/')
    } else if b == 0x62 {
        Option::Some('\u{0008}')
    } else if b == 0x66 {
        Option::Some('\u{000c}')
    } else if b == 0x6e {
        Option::Some('\n')
    } else if b == 0x72 {
        Option::Some('\r')
    } else if b == 0x74 {
        Option::Some('\t')
    } else {
        Option::None
    }
}

/// Scans a string body starting right after the opening quote, decoding
/// escapes onto `acc`; yields the decoded content and the index right after
/// the closing quote.
pub open spec fn str_body(s: Seq<u8>, i: int, acc: Seq<char>) -> Option<(Seq<char>, int)>
    decreases s.len() - i,
{
    if i < 0 || i >= s.len() {
        Option::None
    } else if s[i] == 0x22 {
        Option::Some((acc, i + 1))
    } else if s[i] == 0x5c {
        if i + 1 >= s.len() {
            Option::None
        } else {
            match escape_code(s[i + 1]) {
                Option::Some(c) => str_body(s, i + 2, acc.push(c)),
                Option::None => Option::None,
            }
        }
    } else if 0x20 <= s[i] && s[i] <= 0x7e {
        str_body(s, i + 1, acc.push(s[i] as char))
    } else {
        Option::None
    }
}

/// End of the integer part of a number: an optional minus, then `0` alone or
/// a nonzero digit followed by digits.
pub open spec fn int_end(s: Seq<u8>, i: int) -> Option<int> {
    let st = if i < s.len() && s[i] == 0x2d {
        i + 1
    } else {
        i
    };
    if st >= s.len() || !is_digit(s[st]) {
        Option::None
    } else if s[st] == 0x30 {
        Option::Some(st + 1)
    } else {
        Option::Some(digits_end(s, st))
    }
}

/// End of an optional fraction part: a dot must be followed by a digit.
pub open spec fn frac_end(s: Seq<u8>, i: int) -> Option<int> {
    if i < s.len() && s[i] == 0x2e {
        if i + 1 < s.len() && is_digit(s[i + 1]) {
            Option::Some(digits_end(s, i + 1))
        } else {
            Option::None
        }
    } else {
        Option::Some(i)
    }
}

/// End of an optional exponent part.
pub open spec fn exp_end(s: Seq<u8>, i: int) -> Option<int> {
    if i < s.len() && (s[i] == 0x65 || s[i] == 0x45) {
        let j = if i + 1 < s.len() && (s[i + 1] == 0x2b || s[i + 1] == 0x2d) {
            i + 2
        } else {
            i + 1
        };
        if j < s.len() && is_digit(s[j]) {
            Option::Some(digits_end(s, j))
        } else {
            Option::None
        }
    } else {
        Option::Some(i)
    }
}

/// End of a number starting at `i`.
pub open spec fn number_end(s: Seq<u8>, i: int) -> Option<int> {
    match int_end(s, i) {
        Option::None => Option::None,
        Option::Some(j) => match frac_end(s, j) {
            Option::None => Option::None,
            Option::Some(k) => exp_end(s, k),
        },
    }
}

/// A four-byte literal whose first byte was already seen at `i`.
pub open spec fn lit4_end(s: Seq<u8>, i: int, b1: u8, b2: u8, b3: u8) -> Option<int> {
    if i + 4 <= s.len() && s[i + 1] == b1 && s[i + 2] == b2 && s[i + 3] == b3 {
        Option::Some(i + 4)
    } else {
        Option::None
    }
}

/// A five-byte literal whose first byte was already seen at `i`.
pub open spec fn lit5_end(s: Seq<u8>, i: int, b1: u8, b2: u8, b3: u8, b4: u8) -> Option<int> {
    if i + 5 <= s.len() && s[i + 1] == b1 && s[i + 2] == b2 && s[i + 3] == b3 && s[i + 4] == b4 {
        Option::Some(i + 5)
    } else {
        Option::None
    }
}

/// End of one value starting at `i` (no surrounding whitespace consumed).
pub open spec fn value_end(s: Seq<u8>, i: int, fuel: nat) -> Option<int>
    decreases fuel,
{
    if fuel == 0 {
        Option::None
    } else if i < 0 || i >= s.len() {
        Option::None
    } else if s[i] == 0x22 {
        match str_body(s, i + 1, Seq::empty()) {
            Option::None => Option::None,
            Option::Some((t, j)) => Option::Some(j),
        }
    } else if s[i] == 0x7b {
        object_rest(s, i + 1, (fuel - 1) as nat)
    } else if s[i] == 0x5b {
        array_rest(s, i + 1, (fuel - 1) as nat)
    } else if s[i] == 0x74 {
        lit4_end(s, i, 0x72, 0x75, 0x65)
    } else if s[i] == 0x66 {
        lit5_end(s, i, 0x61, 0x6c, 0x73, 0x65)
    } else if s[i] == 0x6e {
        lit4_end(s, i, 0x75, 0x6c, 0x6c)
    } else if s[i] == 0x2d || is_digit(s[i]) {
        number_end(s, i)
    } else {
        Option::None
    }
}

/// End of an object body, entered right after the opening brace.
pub open spec fn object_rest(s: Seq<u8>, i: int, fuel: nat) -> Option<int>
    decreases fuel,
{
    if fuel == 0 {
        Option::None
    } else {
        let j = ws_end(s, i);
        if j < s.len() && s[j] == 0x7d {
            Option::Some(j + 1)
        } else {
            members(s, j, (fuel - 1) as nat)
        }
    }
}

/// A non-empty member list: a quoted key, a colon, a value, then a comma and
/// further members or the closing brace.
pub open spec fn members(s: Seq<u8>, i: int, fuel: nat) -> Option<int>
    decreases fuel,
{
    if fuel == 0 {
        Option::None
    } else if i < 0 || i >= s.len() || s[i] != 0x22 {
        Option::None
    } else {
        match str_body(s, i + 1, Seq::empty()) {
            Option::None => Option::None,
            Option::Some((key, j)) => {
                let j2 = ws_end(s, j);
                if j2 >= s.len() || s[j2] != 0x3a {
                    Option::None
                } else {
                    let j3 = ws_end(s, j2 + 1);
                    match value_end(s, j3, (fuel - 1) as nat) {
                        Option::None => Option::None,
                        Option::Some(j4) => {
                            let j5 = ws_end(s, j4);
                            if j5 < s.len() && s[j5] == 0x2c {
                                members(s, ws_end(s, j5 + 1), (fuel - 1) as nat)
                            } else if j5 < s.len() && s[j5] == 0x7d {
                                Option::Some(j5 + 1)
                            } else {
                                Option::None
                            }
                        },
                    }
                }
            },
        }
    }
}

/// End of an array body, entered right after the opening bracket.
pub open spec fn array_rest(s: Seq<u8>, i: int, fuel: nat) -> Option<int>
    decreases fuel,
{
    if fuel == 0 {
        Option::None
    } else {
        let j = ws_end(s, i);
        if j < s.len() && s[j] == 0x5d {
            Option::Some(j + 1)
        } else {
            elements(s, j, (fuel - 1) as nat)
        }
    }
}

/// A non-empty element list: a value, then a comma and further elements or
/// the closing bracket.
pub open spec fn elements(s: Seq<u8>, i: int, fuel: nat) -> Option<int>
    decreases fuel,
{
    if fuel == 0 {
        Option::None
    } else {
        match value_end(s, i, (fuel - 1) as nat) {
            Option::None => Option::None,
            Option::Some(j) => {
                let j2 = ws_end(s, j);
                if j2 < s.len() && s[j2] == 0x2c {
                    elements(s, ws_end(s, j2 + 1), (fuel - 1) as nat)
                } else if j2 < s.len() && s[j2] == 0x5d {
                    Option::Some(j2 + 1)
                } else {
                    Option::None
                }
            },
        }
    }
}

/// One envelope member, starting at its quoted key. Yields the gathered
/// identifier, credential and payload mark after taking the member in, and
/// the index right after its value. A required member seen twice, or with a
/// value of the wrong shape, makes the envelope malformed.
pub open spec fn env_member(
    s: Seq<u8>,
    i: int,
    fuel: nat,
    uuid: Option<Seq<char>>,
    api_token: Option<Seq<char>>,
    payload_seen: bool,
) -> Option<(Option<Seq<char>>, Option<Seq<char>>, bool, int)> {
    if i < 0 || i >= s.len() || s[i] != 0x22 {
        Option::None
    } else {
        match str_body(s, i + 1, Seq::empty()) {
            Option::None => Option::None,
            Option::Some((key, j)) => {
                let j2 = ws_end(s, j);
                if j2 >= s.len() || s[j2] != 0x3a {
                    Option::None
                } else {
                    let j3 = ws_end(s, j2 + 1);
                    if key == "uuid"@ {
                        if uuid is Some || j3 >= s.len() || s[j3] != 0x22 {
                            Option::None
                        } else {
                            match str_body(s, j3 + 1, Seq::empty()) {
                                Option::None => Option::None,
                                Option::Some((v, j4)) => Option::Some(
                                    (Option::Some(v), api_token, payload_seen, j4),
                                ),
                            }
                        }
                    } else if key == "apiToken"@ {
                        if api_token is Some || j3 >= s.len() || s[j3] != 0x22 {
                            Option::None
                        } else {
                            match str_body(s, j3 + 1, Seq::empty()) {
                                Option::None => Option::None,
                                Option::Some((v, j4)) => Option::Some(
                                    (uuid, Option::Some(v), payload_seen, j4),
                                ),
                            }
                        }
                    } else if key == "payload"@ {
                        if payload_seen || j3 >= s.len() || s[j3] != 0x7b {
                            Option::None
                        } else {
                            match object_rest(s, j3 + 1, fuel) {
                                Option::None => Option::None,
                                Option::Some(j4) => Option::Some((uuid, api_token, true, j4)),
                            }
                        }
                    } else {
                        match value_end(s, j3, fuel) {
                            Option::None => Option::None,
                            Option::Some(j4) => Option::Some(
                                (uuid, api_token, payload_seen, j4),
                            ),
                        }
                    }
                }
            },
        }
    }
}

/// The envelope's member list. When the closing brace is reached, the
/// envelope is well-formed exactly when both strings were seen and are
/// non-empty and the payload was seen; the yield is the identifier, the
/// credential and the index right after the brace.
pub open spec fn env_loop(
    s: Seq<u8>,
    i: int,
    fuel: nat,
    uuid: Option<Seq<char>>,
    api_token: Option<Seq<char>>,
    payload_seen: bool,
) -> Option<(Seq<char>, Seq<char>, int)>
    decreases fuel,
{
    if fuel == 0 {
        Option::None
    } else {
        match env_member(s, i, (fuel - 1) as nat, uuid, api_token, payload_seen) {
            Option::None => Option::None,
            Option::Some((u2, t2, p2, j4)) => {
                let j5 = ws_end(s, j4);
                if j5 < s.len() && s[j5] == 0x2c {
                    env_loop(s, ws_end(s, j5 + 1), (fuel - 1) as nat, u2, t2, p2)
                } else if j5 < s.len() && s[j5] == 0x7d {
                    match (u2, t2) {
                        (Option::Some(u), Option::Some(t)) => {
                            if p2 && u.len() > 0 && t.len() > 0 {
                                Option::Some((u, t, j5 + 1))
                            } else {
                                Option::None
                            }
                        },
                        _ => Option::None,
                    }
                } else {
                    Option::None
                }
            },
        }
    }
}

/// A well-formed envelope never yields an empty identifier or credential:
/// the member list checks both at the closing brace.
proof fn lemma_env_loop_nonempty(
    s: Seq<u8>,
    i: int,
    fuel: nat,
    uuid: Option<Seq<char>>,
    api_token: Option<Seq<char>>,
    payload_seen: bool,
)
    ensures
        (match env_loop(s, i, fuel, uuid, api_token, payload_seen) {
            Option::Some(q) => q.0.len() > 0 && q.1.len() > 0,
            Option::None => true,
        }),
    decreases fuel,
{
    if fuel > 0 {
        match env_member(s, i, (fuel - 1) as nat, uuid, api_token, payload_seen) {
            Option::Some(q2) => {
                let j5 = ws_end(s, q2.3);
                if j5 < s.len() && s[j5] == 0x2c {
                    lemma_env_loop_nonempty(
                        s,
                        ws_end(s, j5 + 1),
                        (fuel - 1) as nat,
                        q2.0,
                        q2.1,
                        q2.2,
                    );
                }
            },
            Option::None => {},
        }
    }
}

/// The longest body the decoder takes; anything longer is malformed
/// outright. Far beyond any real message, the cap only keeps the recursion
/// budget's arithmetic within machine bounds.
pub const MAX_BODY_LEN: u64 = 0x2000000000000000;

/// The recursion budget the decoder allows an input of length `n`; more than
/// any such input can consume.
pub open spec fn budget(n: int) -> int {
    4 * n + 16
}

/// What a whole body decodes to: the device identifier and the credential of
/// a well-formed envelope, or nothing. The body must hold exactly one
/// envelope object, surrounded by whitespace at most.
pub open spec fn envelope_of(s: Seq<u8>) -> Option<(Seq<char>, Seq<char>)> {
    let i = ws_end(s, 0);
    if i >= s.len() || s[i] != 0x7b {
        Option::None
    } else {
        let j = ws_end(s, i + 1);
        if j < s.len() && s[j] == 0x7d {
            Option::None
        } else {
            match env_loop(s, j, budget(s.len() as int) as nat, Option::None, Option::None, false) {
                Option::None => Option::None,
                Option::Some((u, t, end)) => {
                    if ws_end(s, end) == s.len() {
                        Option::Some((u, t))
                    } else {
                        Option::None
                    }
                },
            }
        }
    }
}

/// The view of a gathered optional member value.
pub open spec fn o_view(x: Option<String>) -> Option<Seq<char>> {
    match x {
        Option::Some(s) => Option::Some(s@),
        Option::None => Option::None,
    }
}

fn ws_end_exec(s: &Vec<u8>, start: usize) -> (r: usize)
    requires
        start <= s@.len(),
    ensures
        r == ws_end(s@, start as int),
        start <= r <= s@.len(),
{
    let n = s.len();
    let mut i = start;
    while i < n
        invariant
            start <= i <= n,
            n == s@.len(),
            ws_end(s@, start as int) == ws_end(s@, i as int),
        decreases n - i,
    {
        let b = s[i];
        if !(b == 0x20 || b == 0x09 || b == 0x0a || b == 0x0d) {
            return i;
        }
        i = i + 1;
    }
    i
}

fn digits_end_exec(s: &Vec<u8>, start: usize) -> (r: usize)
    requires
        start <= s@.len(),
    ensures
        r == digits_end(s@, start as int),
        start <= r <= s@.len(),
{
    let n = s.len();
    let mut i = start;
    while i < n
        invariant
            start <= i <= n,
            n == s@.len(),
            digits_end(s@, start as int) == digits_end(s@, i as int),
        decreases n - i,
    {
        let b = s[i];
        if !(0x30 <= b && b <= 0x39) {
            return i;
        }
        i = i + 1;
    }
    i
}

fn escape_exec(b: u8) -> (r: Option<char>)
    ensures
        r == escape_code(b),
{
    if b == 0x22 {
        Option::Some('"')
    } else if b == 0x5c {
        Option::Some('\\')
    } else if b == 0x2f {
        Option::Some('/')
    } else if b == 0x62 {
        Option::Some('\u{0008}')
    } else if b == 0x66 {
        Option::Some('\u{000c}')
    } else if b == 0x6e {
        Option::Some('\n')
    } else if b == 0x72 {
        Option::Some('\r')
    } else if b == 0x74 {
        Option::Some('\t')
    } else {
        Option::None
    }
}

#[verifier::loop_isolation(false)]
fn str_body_exec(s: &Vec<u8>, start: usize, acc: String) -> (r: Option<(String, usize)>)
    requires
        start <= s@.len(),
    ensures
        ({
            let g = str_body(s@, start as int, acc@);
            match r {
                Option::Some(p) => g == Option::Some((p.0@, p.1 as int)) && p.1 <= s@.len(),
                Option::None => g is None,
            }
        }),
{
    let ghost g0 = str_body(s@, start as int, acc@);
    let n = s.len();
    let mut i = start;
    let mut out = acc;
    while i < n
        invariant
            start <= i <= n,
            n == s@.len(),
            str_body(s@, i as int, out@) == g0,
        decreases n - i,
    {
        let b = s[i];
        if b == 0x22 {
            return Option::Some((out, i + 1));
        } else if b == 0x5c {
            if i + 1 >= n {
                return Option::None;
            }
            match escape_exec(s[i + 1]) {
                Option::Some(c) => {
                    push_char(&mut out, c);
                    i = i + 2;
                },
                Option::None => {
                    return Option::None;
                },
            }
        } else if 0x20 <= b && b <= 0x7e {
            push_char(&mut out, b as char);
            i = i + 1;
        } else {
            return Option::None;
        }
    }
    Option::None
}

fn int_end_exec(s: &Vec<u8>, i: usize) -> (r: Option<usize>)
    requires
        i <= s@.len(),
    ensures
        ({
            let g = int_end(s@, i as int);
            match r {
                Option::Some(j) => g == Option::Some(j as int) && i <= j <= s@.len(),
                Option::None => g is None,
            }
        }),
{
    let n = s.len();
    let st = if i < n && s[i] == 0x2d {
        i + 1
    } else {
        i
    };
    if st >= n || !(0x30 <= s[st] && s[st] <= 0x39) {
        Option::None
    } else if s[st] == 0x30 {
        Option::Some(st + 1)
    } else {
        Option::Some(digits_end_exec(s, st))
    }
}

fn frac_end_exec(s: &Vec<u8>, i: usize) -> (r: Option<usize>)
    requires
        i <= s@.len(),
    ensures
        ({
            let g = frac_end(s@, i as int);
            match r {
                Option::Some(j) => g == Option::Some(j as int) && i <= j <= s@.len(),
                Option::None => g is None,
            }
        }),
{
    let n = s.len();
    if i < n && s[i] == 0x2e {
        if i + 1 < n && 0x30 <= s[i + 1] && s[i + 1] <= 0x39 {
            Option::Some(digits_end_exec(s, i + 1))
        } else {
            Option::None
        }
    } else {
        Option::Some(i)
    }
}

fn exp_end_exec(s: &Vec<u8>, i: usize) -> (r: Option<usize>)
    requires
        i <= s@.len(),
    ensures
        ({
            let g = exp_end(s@, i as int);
            match r {
                Option::Some(j) => g == Option::Some(j as int) && i <= j <= s@.len(),
                Option::None => g is None,
            }
        }),
{
    let n = s.len();
    if i < n && (s[i] == 0x65 || s[i] == 0x45) {
        let j = if i + 1 < n && (s[i + 1] == 0x2b || s[i + 1] == 0x2d) {
            i + 2
        } else {
            i + 1
        };
        if j < n && 0x30 <= s[j] && s[j] <= 0x39 {
            Option::Some(digits_end_exec(s, j))
        } else {
            Option::None
        }
    } else {
        Option::Some(i)
    }
}

fn number_end_exec(s: &Vec<u8>, i: usize) -> (r: Option<usize>)
    requires
        i <= s@.len(),
    ensures
        ({
            let g = number_end(s@, i as int);
            match r {
                Option::Some(j) => g == Option::Some(j as int) && i <= j <= s@.len(),
                Option::None => g is None,
            }
        }),
{
    match int_end_exec(s, i) {
        Option::None => Option::None,
        Option::Some(j) => match frac_end_exec(s, j) {
            Option::None => Option::None,
            Option::Some(k) => exp_end_exec(s, k),
        },
    }
}

fn value_end_exec(s: &Vec<u8>, i: usize, fuel: u64) -> (r: Option<usize>)
    requires
        i <= s@.len(),
    ensures
        ({
            let g = value_end(s@, i as int, fuel as nat);
            match r {
                Option::Some(j) => g == Option::Some(j as int) && j <= s@.len(),
                Option::None => g is None,
            }
        }),
    decreases fuel,
{
    let n = s.len();
    if fuel == 0 {
        return Option::None;
    }
    if i >= n {
        return Option::None;
    }
    let b = s[i];
    if b == 0x22 {
        match str_body_exec(s, i + 1, String::new()) {
            Option::Some(p) => Option::Some(p.1),
            Option::None => Option::None,
        }
    } else if b == 0x7b {
        object_rest_exec(s, i + 1, fuel - 1)
    } else if b == 0x5b {
        array_rest_exec(s, i + 1, fuel - 1)
    } else if b == 0x74 {
        if n - i >= 4 && s[i + 1] == 0x72 && s[i + 2] == 0x75 && s[i + 3] == 0x65 {
            Option::Some(i + 4)
        } else {
            Option::None
        }
    } else if b == 0x66 {
        if n - i >= 5 && s[i + 1] == 0x61 && s[i + 2] == 0x6c && s[i + 3] == 0x73 && s[i + 4]
            == 0x65 {
            Option::Some(i + 5)
        } else {
            Option::None
        }
    } else if b == 0x6e {
        if n - i >= 4 && s[i + 1] == 0x75 && s[i + 2] == 0x6c && s[i + 3] == 0x6c {
            Option::Some(i + 4)
        } else {
            Option::None
        }
    } else if b == 0x2d || (0x30 <= b && b <= 0x39) {
        number_end_exec(s, i)
    } else {
        Option::None
    }
}

fn object_rest_exec(s: &Vec<u8>, i: usize, fuel: u64) -> (r: Option<usize>)
    requires
        i <= s@.len(),
    ensures
        ({
            let g = object_rest(s@, i as int, fuel as nat);
            match r {
                Option::Some(j) => g == Option::Some(j as int) && j <= s@.len(),
                Option::None => g is None,
            }
        }),
    decreases fuel,
{
    let n = s.len();
    if fuel == 0 {
        return Option::None;
    }
    let j = ws_end_exec(s, i);
    if j < n && s[j] == 0x7d {
        Option::Some(j + 1)
    } else {
        members_exec(s, j, fuel - 1)
    }
}

fn members_exec(s: &Vec<u8>, i: usize, fuel: u64) -> (r: Option<usize>)
    requires
        i <= s@.len(),
    ensures
        ({
            let g = members(s@, i as int, fuel as nat);
            match r {
                Option::Some(j) => g == Option::Some(j as int) && j <= s@.len(),
                Option::None => g is None,
            }
        }),
    decreases fuel,
{
    let n = s.len();
    if fuel == 0 {
        return Option::None;
    }
    if i >= n || s[i] != 0x22 {
        return Option::None;
    }
    match str_body_exec(s, i + 1, String::new()) {
        Option::None => Option::None,
        Option::Some(p) => {
            let j2 = ws_end_exec(s, p.1);
            if j2 >= n || s[j2] != 0x3a {
                return Option::None;
            }
            let j3 = ws_end_exec(s, j2 + 1);
            match value_end_exec(s, j3, fuel - 1) {
                Option::None => Option::None,
                Option::Some(j4) => {
                    let j5 = ws_end_exec(s, j4);
                    if j5 < n && s[j5] == 0x2c {
                        let i2 = ws_end_exec(s, j5 + 1);
                        members_exec(s, i2, fuel - 1)
                    } else if j5 < n && s[j5] == 0x7d {
                        Option::Some(j5 + 1)
                    } else {
                        Option::None
                    }
                },
            }
        },
    }
}

fn array_rest_exec(s: &Vec<u8>, i: usize, fuel: u64) -> (r: Option<usize>)
    requires
        i <= s@.len(),
    ensures
        ({
            let g = array_rest(s@, i as int, fuel as nat);
            match r {
                Option::Some(j) => g == Option::Some(j as int) && j <= s@.len(),
                Option::None => g is None,
            }
        }),
    decreases fuel,
{
    let n = s.len();
    if fuel == 0 {
        return Option::None;
    }
    let j = ws_end_exec(s, i);
    if j < n && s[j] == 0x5d {
        Option::Some(j + 1)
    } else {
        elements_exec(s, j, fuel - 1)
    }
}

fn elements_exec(s: &Vec<u8>, i: usize, fuel: u64) -> (r: Option<usize>)
    requires
        i <= s@.len(),
    ensures
        ({
            let g = elements(s@, i as int, fuel as nat);
            match r {
                Option::Some(j) => g == Option::Some(j as int) && j <= s@.len(),
                Option::None => g is None,
            }
        }),
    decreases fuel,
{
    let n = s.len();
    if fuel == 0 {
        return Option::None;
    }
    match value_end_exec(s, i, fuel - 1) {
        Option::None => Option::None,
        Option::Some(j) => {
            let j2 = ws_end_exec(s, j);
            if j2 < n && s[j2] == 0x2c {
                let i2 = ws_end_exec(s, j2 + 1);
                elements_exec(s, i2, fuel - 1)
            } else if j2 < n && s[j2] == 0x5d {
                Option::Some(j2 + 1)
            } else {
                Option::None
            }
        },
    }
}

fn env_member_exec(
    s: &Vec<u8>,
    i: usize,
    fuel: u64,
    uuid: Option<String>,
    api_token: Option<String>,
    payload_seen: bool,
) -> (r: Option<(Option<String>, Option<String>, bool, usize)>)
    requires
        i <= s@.len(),
    ensures
        ({
            let g = env_member(
                s@,
                i as int,
                fuel as nat,
                o_view(uuid),
                o_view(api_token),
                payload_seen,
            );
            match r {
                Option::Some(q) => g == Option::Some((o_view(q.0), o_view(q.1), q.2, q.3 as int))
                    && q.3 <= s@.len(),
                Option::None => g is None,
            }
        }),
{
    let n = s.len();
    if i >= n || s[i] != 0x22 {
        return Option::None;
    }
    match str_body_exec(s, i + 1, String::new()) {
        Option::None => Option::None,
        Option::Some(p) => {
            let key = p.0;
            let j2 = ws_end_exec(s, p.1);
            if j2 >= n || s[j2] != 0x3a {
                return Option::None;
            }
            let j3 = ws_end_exec(s, j2 + 1);
            let uuid_key: String = "uuid".to_owned();
            let token_key: String = "apiToken".to_owned();
            let payload_key: String = "payload".to_owned();
            if key == uuid_key {
                if uuid.is_some() || j3 >= n || s[j3] != 0x22 {
                    return Option::None;
                }
                match str_body_exec(s, j3 + 1, String::new()) {
                    Option::None => Option::None,
                    Option::Some(v) => Option::Some(
                        (Option::Some(v.0), api_token, payload_seen, v.1),
                    ),
                }
            } else if key == token_key {
                if api_token.is_some() || j3 >= n || s[j3] != 0x22 {
                    return Option::None;
                }
                match str_body_exec(s, j3 + 1, String::new()) {
                    Option::None => Option::None,
                    Option::Some(v) => Option::Some((uuid, Option::Some(v.0), payload_seen, v.1)),
                }
            } else if key == payload_key {
                if payload_seen || j3 >= n || s[j3] != 0x7b {
                    return Option::None;
                }
                match object_rest_exec(s, j3 + 1, fuel) {
                    Option::None => Option::None,
                    Option::Some(j4) => Option::Some((uuid, api_token, true, j4)),
                }
            } else {
                match value_end_exec(s, j3, fuel) {
                    Option::None => Option::None,
                    Option::Some(j4) => Option::Some((uuid, api_token, payload_seen, j4)),
                }
            }
        },
    }
}

#[verifier::loop_isolation(false)]
fn env_loop_exec(
    s: &Vec<u8>,
    start: usize,
    fuel0: u64,
    uuid0: Option<String>,
    api_token0: Option<String>,
    payload0: bool,
) -> (r: Option<(String, String, usize)>)
    requires
        start <= s@.len(),
    ensures
        ({
            let g = env_loop(
                s@,
                start as int,
                fuel0 as nat,
                o_view(uuid0),
                o_view(api_token0),
                payload0,
            );
            match r {
                Option::Some(q) => g == Option::Some((q.0@, q.1@, q.2 as int)) && q.2 <= s@.len(),
                Option::None => g is None,
            }
        }),
{
    let ghost g0 = env_loop(
        s@,
        start as int,
        fuel0 as nat,
        o_view(uuid0),
        o_view(api_token0),
        payload0,
    );
    let n = s.len();
    let mut i = start;
    let mut fuel = fuel0;
    let mut uuid = uuid0;
    let mut api_token = api_token0;
    let mut payload_seen = payload0;
    while fuel > 0
        invariant
            i <= n,
            n == s@.len(),
            env_loop(s@, i as int, fuel as nat, o_view(uuid), o_view(api_token), payload_seen)
                == g0,
        decreases fuel,
    {
        match env_member_exec(s, i, fuel - 1, uuid, api_token, payload_seen) {
            Option::None => {
                return Option::None;
            },
            Option::Some(q) => {
                let j5 = ws_end_exec(s, q.3);
                if j5 < n && s[j5] == 0x2c {
                    i = ws_end_exec(s, j5 + 1);
                    fuel = fuel - 1;
                    uuid = q.0;
                    api_token = q.1;
                    payload_seen = q.2;
                } else if j5 < n && s[j5] == 0x7d {
                    match (q.0, q.1) {
                        (Option::Some(u), Option::Some(t)) => {
                            if q.2 && u.as_str().unicode_len() > 0 && t.as_str().unicode_len()
                                > 0 {
                                return Option::Some((u, t, j5 + 1));
                            } else {
                                return Option::None;
                            }
                        },
                        _ => {
                            return Option::None;
                        },
                    }
                } else {
                    return Option::None;
                }
            },
        }
    }
    Option::None
}

/// Decodes a raw message body. An empty body is rejected before any parse is
/// attempted; a body that is not a well-formed envelope under the wire
/// grammar is a parse failure. A body longer than the decoder's length cap
/// (far beyond any real message) is treated as malformed. Pure: the result
/// is a function of the bytes alone.
pub fn decode(raw_bytes: &Vec<u8>) -> (r: Result<Notification<OnlineMqttPayload>, MessageError>)
    ensures
        raw_bytes@.len() == 0 ==> (r matches Err(e) && e == MessageError::EmptyMessageError),
        0 < raw_bytes@.len() < MAX_BODY_LEN ==> match envelope_of(raw_bytes@) {
            Option::Some(p) => (r matches Ok(nf) && nf.uuid@ == p.0 && nf.api_token@ == p.1),
            Option::None => (r matches Err(e) && e == MessageError::ParseMessageError),
        },
        raw_bytes@.len() >= MAX_BODY_LEN ==> (r matches Err(e) && e
            == MessageError::ParseMessageError),
        r matches Ok(nf) ==> nf.wf(),
{
    let n = raw_bytes.len();
    if n == 0 {
        return Result::Err(MessageError::EmptyMessageError);
    }
    if (n as u64) >= MAX_BODY_LEN {
        return Result::Err(MessageError::ParseMessageError);
    }
    let fuel: u64 = 4 * (n as u64) + 16;
    assert(fuel as nat == budget(raw_bytes@.len() as int) as nat);
    let i = ws_end_exec(raw_bytes, 0);
    if i >= n || raw_bytes[i] != 0x7b {
        return Result::Err(MessageError::ParseMessageError);
    }
    let j = ws_end_exec(raw_bytes, i + 1);
    if j < n && raw_bytes[j] == 0x7d {
        return Result::Err(MessageError::ParseMessageError);
    }
    match env_loop_exec(raw_bytes, j, fuel, Option::None, Option::None, false) {
        Option::None => Result::Err(MessageError::ParseMessageError),
        Option::Some(q) => {
            proof {
                lemma_env_loop_nonempty(
                    raw_bytes@,
                    j as int,
                    fuel as nat,
                    Option::None,
                    Option::None,
                    false,
                );
            }
            let e2 = ws_end_exec(raw_bytes, q.2);
            if e2 == n {
                Result::Ok(
                    Notification { uuid: q.0, api_token: q.1, payload: OnlineMqttPayload {  } },
                )
            } else {
                Result::Err(MessageError::ParseMessageError)
            }
        },
    }
}

} // verus!
