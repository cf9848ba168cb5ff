//! The formatter: pure functions turning a record's fields into one
//! delivery-ready text line, or into the structured payload sent to the
//! HTTP backend.
//!
//! A line reads `<timestamp> [<LEVEL>] [<file>:<line>] [<module>] <message>`,
//! with ` | Context: <context>` appended when a context string is present.
//! The payload is a JSON object with keys `timestamp`, `level`, `message`,
//! `file`, `line`, `module`, and an optional `context` key that is omitted
//! entirely when absent.

use vstd::prelude::*;
use vstd::string::StrSliceExecFns;
use vstd::string::StringExecFns;
use crate::level::{spec_level_chars, LogLevel};

verus! {

/// The character for one digit value, in lowercase hex order.
pub open spec fn digit_char(d: nat) -> char {
    if d == 0 {
        '0'
    } else if d == 1 {
        '1'
    } else if d == 2 {
        '2'
    } else if d == 3 {
        '3'
    } else if d == 4 {
        '4'
    } else if d == 5 {
        '5'
    } else if d == 6 {
        '6'
    } else if d == 7 {
        '7'
    } else if d == 8 {
        '8'
    } else if d == 9 {
        '9'
    } else if d == 10 {
        'a'
    } else if d == 11 {
        'b'
    } else if d == 12 {
        'c'
    } else if d == 13 {
        'd'
    } else if d == 14 {
        'e'
    } else {
        'f'
    }
}

/// The decimal representation of a number, most significant digit first,
/// with no leading zeros (`0` is rendered as `"0"`).
pub open spec fn dec_rep(n: nat) -> Seq<char>
    decreases n,
{
    if n < 10 {
        seq![digit_char(n)]
    } else {
        dec_rep(n / 10).push(digit_char(n % 10))
    }
}

/// The part of a path after its last `/`: the file's own name.
pub open spec fn spec_basename(s: Seq<char>) -> Seq<char>
    decreases s.len(),
{
    if s.len() == 0 {
        s
    } else if s.last() == '/' {
        Seq::empty()
    } else {
        spec_basename(s.drop_last()).push(s.last())
    }
}

/// One formatted log line, without a trailing newline.
pub open spec fn spec_log_line(
    ts: Seq<char>,
    level: LogLevel,
    msg: Seq<char>,
    file: Seq<char>,
    line: nat,
    module: Seq<char>,
    ctx: Option<Seq<char>>,
) -> Seq<char> {
    let base = ts + " ["@ + spec_level_chars(level) + "] ["@ + file + ":"@ + dec_rep(line)
        + "] ["@ + module + "] "@ + msg;
    match ctx {
        Option::Some(c) => base + " | Context: "@ + c,
        Option::None => base,
    }
}

/// How one character is written inside a JSON string: quotes, backslashes
/// and control characters are escaped, everything else passes through.
pub open spec fn json_escape_char(c: char) -> Seq<char> {
    if c == '"' {
        seq!['\\', '"']
    } else if c == '\\' {
        seq!['\\', '\\']
    } else if c == '\u{8}' {
        seq!['\\', 'b']
    } else if c == '\t' {
        seq!['\\', 't']
    } else if c == '\n' {
        seq!['\\', 'n']
    } else if c == '\u{c}' {
        seq!['\\', 'f']
    } else if c == '\r' {
        seq!['\\', 'r']
    } else if (c as u32) < 32 {
        seq!['\\', 'u', '0', '0', digit_char((c as u32 / 16) as nat), digit_char((c as u32 % 16) as nat)]
    } else {
        seq![c]
    }
}

/// A whole character sequence escaped for use inside a JSON string.
pub open spec fn json_escaped(s: Seq<char>) -> Seq<char>
    decreases s.len(),
{
    if s.len() == 0 {
        Seq::empty()
    } else {
        json_escape_char(s.first()) + json_escaped(s.drop_first())
    }
}

/// The structured payload for the HTTP backend: a JSON object holding the
/// record's fields, with the `context` key omitted entirely when absent.
pub open spec fn spec_json_payload(
    ts: Seq<char>,
    level: LogLevel,
    msg: Seq<char>,
    file: Seq<char>,
    line: nat,
    module: Seq<char>,
    ctx: Option<Seq<char>>,
) -> Seq<char> {
    let base = "{\"timestamp\":\""@ + json_escaped(ts) + "\",\"level\":\""@ + json_escaped(
        spec_level_chars(level),
    ) + "\",\"message\":\""@ + json_escaped(msg) + "\",\"file\":\""@ + json_escaped(file)
        + "\",\"line\":"@ + dec_rep(line) + ",\"module\":\""@ + json_escaped(module);
    match ctx {
        Option::Some(c) => base + "\",\"context\":\""@ + json_escaped(c) + "\"}"@,
        Option::None => base + "\"}"@,
    }
}

/// The single digit `d` as a string slice.
fn digit_str(d: u64) -> (s: &'static str)
    requires
        d < 16,
    ensures
        s@ == seq![digit_char(d as nat)],
{
    proof {
        reveal_strlit("0");
        reveal_strlit("1");
        reveal_strlit("2");
        reveal_strlit("3");
        reveal_strlit("4");
        reveal_strlit("5");
        reveal_strlit("6");
        reveal_strlit("7");
        reveal_strlit("8");
        reveal_strlit("9");
        reveal_strlit("a");
        reveal_strlit("b");
        reveal_strlit("c");
        reveal_strlit("d");
        reveal_strlit("e");
        reveal_strlit("f");
    }
    let s: &'static str = match d {
        0 => "0",
        1 => "1",
        2 => "2",
        3 => "3",
        4 => "4",
        5 => "5",
        6 => "6",
        7 => "7",
        8 => "8",
        9 => "9",
        10 => "a",
        11 => "b",
        12 => "c",
        13 => "d",
        14 => "e",
        _ => "f",
    };
    proof {
        assert(s@ =~= seq![digit_char(d as nat)]);
    }
    s
}

/// The digits of `ds`, least significant first, read back most significant
/// first.
spec fn rev_digit_chars(ds: Seq<u64>) -> Seq<char> {
    Seq::new(ds.len(), |i: int| digit_char(ds[ds.len() - 1 - i] as nat))
}

proof fn lemma_rev_digit_chars_push(ds: Seq<u64>, d: u64)
    ensures
        rev_digit_chars(ds.push(d)) =~= seq![digit_char(d as nat)] + rev_digit_chars(ds),
{
}

/// Render a number in decimal.
pub fn u64_to_string(n: u64) -> (s: String)
    ensures
        s@ == dec_rep(n as nat),
{
    let mut digits: Vec<u64> = Vec::new();
    let mut m: u64 = n / 10;
    digits.push(n % 10);
    proof {
        lemma_rev_digit_chars_push(Seq::<u64>::empty(), n % 10);
        assert(rev_digit_chars(Seq::<u64>::empty()) =~= Seq::<char>::empty());
        if m == 0 {
            assert(dec_rep(n as nat) =~= rev_digit_chars(digits@));
        } else {
            assert(dec_rep(n as nat) =~= dec_rep(m as nat) + rev_digit_chars(digits@));
        }
    }
    while m > 0
        invariant
            forall|j: int| 0 <= j < digits@.len() ==> #[trigger] digits@[j] < 10,
            m == 0 ==> dec_rep(n as nat) == rev_digit_chars(digits@),
            m > 0 ==> dec_rep(n as nat) == dec_rep(m as nat) + rev_digit_chars(digits@),
        decreases m,
    {
        let d = m % 10;
        let ghost pre = digits@;
        digits.push(d);
        proof {
            lemma_rev_digit_chars_push(pre, d);
            if m >= 10 {
                assert(dec_rep(m as nat) =~= dec_rep((m / 10) as nat) + seq![digit_char((m % 10) as nat)]);
                assert(dec_rep(n as nat) =~= dec_rep((m / 10) as nat) + rev_digit_chars(digits@));
            } else {
                assert(dec_rep(m as nat) =~= seq![digit_char((m % 10) as nat)]);
                assert(dec_rep(n as nat) =~= rev_digit_chars(digits@));
            }
        }
        m = m / 10;
    }
    let mut s = String::new();
    let mut i: usize = digits.len();
    while i > 0
        invariant
            i <= digits@.len(),
            forall|j: int| 0 <= j < digits@.len() ==> #[trigger] digits@[j] < 10,
            dec_rep(n as nat) == rev_digit_chars(digits@),
            s@ == rev_digit_chars(digits@).take(digits@.len() - i),
        decreases i,
    {
        i = i - 1;
        s.append(digit_str(digits[i]));
        proof {
            assert(s@ =~= rev_digit_chars(digits@).take(digits@.len() - i));
        }
    }
    proof {
        assert(rev_digit_chars(digits@).take(digits@.len() - 0) =~= rev_digit_chars(digits@));
    }
    s
}

/// The file's own name: everything after the last `/` of `path`.
pub fn basename<'a>(path: &'a str) -> (r: &'a str)
    ensures
        r@ == spec_basename(path@),
{
    let n = path.unicode_len();
    let mut cut: usize = 0;
    let mut i: usize = 0;
    while i < n
        invariant
            0 <= cut <= i <= n,
            n == path@.len(),
            forall|j: int| cut <= j < i ==> path@[j] != '/',
            cut > 0 ==> path@[cut - 1] == '/',
        decreases n - i,
    {
        if path.get_char(i) == '/' {
            cut = i + 1;
        }
        i += 1;
    }
    let r = path.substring_char(cut, n);
    proof {
        lemma_basename_is_suffix(path@, cut as int);
    }
    r
}

/// When no `/` occurs at or after position `k`, and `k` is either the start
/// of the path or just after a `/`, the basename is the suffix from `k`.
proof fn lemma_basename_is_suffix(s: Seq<char>, k: int)
    requires
        0 <= k <= s.len(),
        forall|j: int| k <= j < s.len() ==> s[j] != '/',
        k > 0 ==> s[k - 1] == '/',
    ensures
        spec_basename(s) =~= s.subrange(k, s.len() as int),
    decreases s.len(),
{
    if s.len() == 0 {
    } else if k == s.len() {
        assert(s.last() == '/');
    } else {
        assert(s.last() != '/');
        lemma_basename_is_suffix(s.drop_last(), k);
        assert(spec_basename(s) =~= s.drop_last().subrange(k, s.len() - 1).push(s.last()));
    }
}

/// Build one formatted log line from a record's fields.
pub fn format_log_line(
    timestamp: &str,
    level: &LogLevel,
    message: &str,
    file: &str,
    line: u32,
    module: &str,
    context: Option<&str>,
) -> (r: String)
    ensures
        r@ == spec_log_line(
            timestamp@,
            *level,
            message@,
            file@,
            line as nat,
            module@,
            match context {
                Option::Some(c) => Option::Some(c@),
                Option::None => Option::None,
            },
        ),
{
    let mut s = String::new();
    s.append(timestamp);
    s.append(" [");
    s.append(level.as_str());
    s.append("] [");
    s.append(file);
    s.append(":");
    let num = u64_to_string(line as u64);
    s.append(num.as_str());
    s.append("] [");
    s.append(module);
    s.append("] ");
    s.append(message);
    match context {
        Option::Some(c) => {
            s.append(" | Context: ");
            s.append(c);
        },
        Option::None => {},
    }
    proof {
        assert(s@ =~= spec_log_line(
            timestamp@,
            *level,
            message@,
            file@,
            line as nat,
            module@,
            match context {
                Option::Some(c) => Option::Some(c@),
                Option::None => Option::None,
            },
        ));
    }
    s
}

/// Escaping distributes over concatenation.
proof fn lemma_json_escaped_concat(a: Seq<char>, b: Seq<char>)
    ensures
        json_escaped(a + b) =~= json_escaped(a) + json_escaped(b),
    decreases a.len(),
{
    if a.len() == 0 {
        assert(a + b =~= b);
        assert(json_escaped(a) =~= Seq::<char>::empty());
    } else {
        lemma_json_escaped_concat(a.drop_first(), b);
        assert((a + b).drop_first() =~= a.drop_first() + b);
        assert((a + b).first() == a.first());
        assert(json_escaped(a + b) =~= json_escape_char(a.first()) + (json_escaped(a.drop_first())
            + json_escaped(b)));
    }
}

/// A sequence whose characters all escape to themselves is unchanged by
/// escaping.
proof fn lemma_json_escaped_plain(s: Seq<char>)
    requires
        forall|j: int| 0 <= j < s.len() ==> json_escape_char(#[trigger] s[j]) =~= seq![s[j]],
    ensures
        json_escaped(s) =~= s,
    decreases s.len(),
{
    if s.len() > 0 {
        assert(json_escape_char(s.first()) =~= seq![s[0]]);
        lemma_json_escaped_plain(s.drop_first());
        assert(json_escaped(s) =~= seq![s[0]] + s.drop_first());
    }
}

/// Escaping a single character is that character's escape sequence.
proof fn lemma_json_escaped_singleton(c: char)
    ensures
        json_escaped(seq![c]) =~= json_escape_char(c),
{
    let s = seq![c];
    assert(s.drop_first().len() == 0);
    assert(json_escaped(s.drop_first()) =~= Seq::<char>::empty());
    assert(json_escaped(s) =~= json_escape_char(c) + json_escaped(s.drop_first()));
}

/// Append the escape sequence of one character that needs escaping.
fn append_escape_code(out: &mut String, c: char)
    requires
        c == '"' || c == '\\' || (c as u32) < 32,
    ensures
        final(out)@ == old(out)@ + json_escape_char(c),
{
    let ghost pre = old(out)@;
    if c == '"' {
        out.append("\\\"");
        proof {
            reveal_strlit("\\\"");
            assert(final(out)@ =~= pre + json_escape_char(c));
        }
    } else if c == '\\' {
        out.append("\\\\");
        proof {
            reveal_strlit("\\\\");
            assert(final(out)@ =~= pre + json_escape_char(c));
        }
    } else if c == '\u{8}' {
        out.append("\\b");
        proof {
            reveal_strlit("\\b");
            assert(final(out)@ =~= pre + json_escape_char(c));
        }
    } else if c == '\t' {
        out.append("\\t");
        proof {
            reveal_strlit("\\t");
            assert(final(out)@ =~= pre + json_escape_char(c));
        }
    } else if c == '\n' {
        out.append("\\n");
        proof {
            reveal_strlit("\\n");
            assert(final(out)@ =~= pre + json_escape_char(c));
        }
    } else if c == '\u{c}' {
        out.append("\\f");
        proof {
            reveal_strlit("\\f");
            assert(final(out)@ =~= pre + json_escape_char(c));
        }
    } else if c == '\r' {
        out.append("\\r");
        proof {
            reveal_strlit("\\r");
            assert(final(out)@ =~= pre + json_escape_char(c));
        }
    } else {
        out.append("\\u00");
        let v = c as u32;
        out.append(digit_str((v / 16) as u64));
        out.append(digit_str((v % 16) as u64));
        proof {
            reveal_strlit("\\u00");
            assert(final(out)@ =~= pre + json_escape_char(c));
        }
    }
}

/// Append `s`, escaped for use inside a JSON string, to `out`.
fn json_escape_into(out: &mut String, s: &str)
    ensures
        final(out)@ == old(out)@ + json_escaped(s@),
{
    let ghost orig = old(out)@;
    let n = s.unicode_len();
    let mut start: usize = 0;
    let mut i: usize = 0;
    while i < n
        invariant
            0 <= start <= i <= n,
            n == s@.len(),
            forall|j: int| start <= j < i ==> json_escape_char(#[trigger] s@[j]) =~= seq![s@[j]],
            out@ == orig + json_escaped(s@.take(start as int)),
        decreases n - i,
    {
        let c = s.get_char(i);
        if c == '"' || c == '\\' || (c as u32) < 32 {
            let run = s.substring_char(start, i);
            out.append(run);
            append_escape_code(out, c);
            proof {
                lemma_json_escaped_concat(s@.take(start as int), s@.subrange(start as int, i as int));
                lemma_json_escaped_plain(s@.subrange(start as int, i as int));
                assert(s@.take(start as int) + s@.subrange(start as int, i as int) =~= s@.take(
                    i as int,
                ));
                lemma_json_escaped_concat(s@.take(i as int), seq![s@[i as int]]);
                assert(s@.take(i as int) + seq![s@[i as int]] =~= s@.take(i + 1));
                lemma_json_escaped_singleton(s@[i as int]);
                assert(out@ =~= orig + json_escaped(s@.take(i + 1)));
            }
            start = i + 1;
        }
        i += 1;
    }
    let run = s.substring_char(start, n);
    out.append(run);
    proof {
        lemma_json_escaped_concat(s@.take(start as int), s@.subrange(start as int, n as int));
        lemma_json_escaped_plain(s@.subrange(start as int, n as int));
        assert(s@.take(start as int) + s@.subrange(start as int, n as int) =~= s@);
        assert(final(out)@ =~= orig + json_escaped(s@));
    }
}

/// Build the JSON payload for one record, for the HTTP backend.
pub fn format_json_payload(
    timestamp: &str,
    level: &LogLevel,
    message: &str,
    file: &str,
    line: u32,
    module: &str,
    context: Option<&str>,
) -> (r: String)
    ensures
        r@ == spec_json_payload(
            timestamp@,
            *level,
            message@,
            file@,
            line as nat,
            module@,
            match context {
                Option::Some(c) => Option::Some(c@),
                Option::None => Option::None,
            },
        ),
{
    let mut s = String::new();
    s.append("{\"timestamp\":\"");
    json_escape_into(&mut s, timestamp);
    s.append("\",\"level\":\"");
    json_escape_into(&mut s, level.as_str());
    s.append("\",\"message\":\"");
    json_escape_into(&mut s, message);
    s.append("\",\"file\":\"");
    json_escape_into(&mut s, file);
    s.append("\",\"line\":");
    let num = u64_to_string(line as u64);
    s.append(num.as_str());
    s.append(",\"module\":\"");
    json_escape_into(&mut s, module);
    match context {
        Option::Some(c) => {
            s.append("\",\"context\":\"");
            json_escape_into(&mut s, c);
            s.append("\"}");
        },
        Option::None => {
            s.append("\"}");
        },
    }
    proof {
        assert(s@ =~= spec_json_payload(
            timestamp@,
            *level,
            message@,
            file@,
            line as nat,
            module@,
            match context {
                Option::Some(c) => Option::Some(c@),
                Option::None => Option::None,
            },
        ));
    }
    s
}

} // verus!
