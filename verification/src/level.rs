//! Severity levels and the threshold gate.
//!
//! The four levels are totally ordered `Debug < Info < Warn < Error`; a
//! record is delivered exactly when its level is at or above the configured
//! threshold.

use vstd::prelude::*;

verus! {

/// Severity of a log record, and also the type of the configured threshold.
#[derive(Debug, Clone, Copy, PartialEq, Eq, Structural)]
pub enum LogLevel {
    Debug,
    Info,
    Warn,
    Error,
}

/// Position of a level in the total order `Debug < Info < Warn < Error`.
pub open spec fn level_num(l: LogLevel) -> int {
    match l {
        LogLevel::Debug => 0,
        LogLevel::Info => 1,
        LogLevel::Warn => 2,
        LogLevel::Error => 3,
    }
}

/// The display name of a level, as a sequence of characters.
pub open spec fn spec_level_chars(l: LogLevel) -> Seq<char> {
    match l {
        LogLevel::Debug => seq!['D', 'E', 'B', 'U', 'G'],
        LogLevel::Info => seq!['I', 'N', 'F', 'O'],
        LogLevel::Warn => seq!['W', 'A', 'R', 'N'],
        LogLevel::Error => seq!['E', 'R', 'R', 'O', 'R'],
    }
}

/// ASCII lowering of one character: `'A'..='Z'` map to `'a'..='z'`, all
/// other characters stay as they are.
pub open spec fn lower_char(c: char) -> char {
    if 'A' <= c && c <= 'Z' {
        (((c as u8) + 32) as u8) as char
    } else {
        c
    }
}

/// ASCII lowering of a whole character sequence.
pub open spec fn lower_seq(s: Seq<char>) -> Seq<char> {
    s.map_values(|c: char| lower_char(c))
}

/// What `LogLevel::from_str` returns: a case-insensitive match against the
/// four level names, with `Info` as the permissive default for anything
/// unrecognized.
pub open spec fn parse_level(s: Seq<char>) -> LogLevel {
    if lower_seq(s) == seq!['d', 'e', 'b', 'u', 'g'] {
        LogLevel::Debug
    } else if lower_seq(s) == seq!['i', 'n', 'f', 'o'] {
        LogLevel::Info
    } else if lower_seq(s) == seq!['w', 'a', 'r', 'n'] {
        LogLevel::Warn
    } else if lower_seq(s) == seq!['e', 'r', 'r', 'o', 'r'] {
        LogLevel::Error
    } else {
        LogLevel::Info
    }
}

impl LogLevel {
    /// The capitalized display name of the level, used in formatted lines
    /// and payloads.
    pub fn as_str(&self) -> (s: &'static str)
        ensures
            s@ == spec_level_chars(*self),
    {
        match self {
            LogLevel::Debug => {
                let s = "DEBUG";
                proof {
                    reveal_strlit("DEBUG");
                    assert(s@ =~= spec_level_chars(LogLevel::Debug));
                }
                s
            },
            LogLevel::Info => {
                let s = "INFO";
                proof {
                    reveal_strlit("INFO");
                    assert(s@ =~= spec_level_chars(LogLevel::Info));
                }
                s
            },
            LogLevel::Warn => {
                let s = "WARN";
                proof {
                    reveal_strlit("WARN");
                    assert(s@ =~= spec_level_chars(LogLevel::Warn));
                }
                s
            },
            LogLevel::Error => {
                let s = "ERROR";
                proof {
                    reveal_strlit("ERROR");
                    assert(s@ =~= spec_level_chars(LogLevel::Error));
                }
                s
            },
        }
    }

    /// Case-insensitive parse of a level name; unrecognized input defaults
    /// to `Info` rather than failing.
    pub fn from_str(s: &str) -> (l: LogLevel)
        ensures
            l == parse_level(s@),
    {
        proof {
            reveal_strlit("debug");
            reveal_strlit("info");
            reveal_strlit("warn");
            reveal_strlit("error");
            assert("debug"@ =~= seq!['d', 'e', 'b', 'u', 'g']);
            assert("info"@ =~= seq!['i', 'n', 'f', 'o']);
            assert("warn"@ =~= seq!['w', 'a', 'r', 'n']);
            assert("error"@ =~= seq!['e', 'r', 'r', 'o', 'r']);
        }
        if str_eq_lowered(s, "debug") {
            LogLevel::Debug
        } else if str_eq_lowered(s, "info") {
            LogLevel::Info
        } else if str_eq_lowered(s, "warn") {
            LogLevel::Warn
        } else if str_eq_lowered(s, "error") {
            LogLevel::Error
        } else {
            LogLevel::Info
        }
    }

    /// Where `self` stands relative to `other` in the total order
    /// `Debug < Info < Warn < Error`.
    pub fn compare(&self, other: &LogLevel) -> (o: core::cmp::Ordering)
        ensures
            o == core::cmp::Ordering::Less <==> level_num(*self) < level_num(*other),
            o == core::cmp::Ordering::Equal <==> level_num(*self) == level_num(*other),
            o == core::cmp::Ordering::Greater <==> level_num(*self) > level_num(*other),
    {
        let a = self.rank();
        let b = other.rank();
        if a < b {
            core::cmp::Ordering::Less
        } else if a == b {
            core::cmp::Ordering::Equal
        } else {
            core::cmp::Ordering::Greater
        }
    }

    /// The level's position in the total order, as a machine integer.
    fn rank(&self) -> (n: u8)
        ensures
            n == level_num(*self),
    {
        match self {
            LogLevel::Debug => 0,
            LogLevel::Info => 1,
            LogLevel::Warn => 2,
            LogLevel::Error => 3,
        }
    }

    /// The threshold gate: a record at level `self` is delivered under
    /// threshold `threshold` exactly when `self` is at or above it in the
    /// order `Debug < Info < Warn < Error`.
    pub fn should_log(&self, threshold: &LogLevel) -> (r: bool)
        ensures
            r == (level_num(*self) >= level_num(*threshold)),
    {
        match threshold {
            LogLevel::Debug => true,
            LogLevel::Info => match self {
                LogLevel::Debug => false,
                _ => true,
            },
            LogLevel::Warn => match self {
                LogLevel::Debug | LogLevel::Info => false,
                _ => true,
            },
            LogLevel::Error => match self {
                LogLevel::Error => true,
                _ => false,
            },
        }
    }
}

/// Whether the ASCII lowering of `s` is exactly `t`; `t` must already be
/// lowercase.
fn str_eq_lowered(s: &str, t: &str) -> (r: bool)
    requires
        forall|i: int| 0 <= i < t@.len() ==> lower_char(#[trigger] t@[i]) == t@[i],
    ensures
        r == (lower_seq(s@) == t@),
{
    let n = s.unicode_len();
    let m = t.unicode_len();
    if n != m {
        proof {
            assert(lower_seq(s@).len() == s@.len());
        }
        return false;
    }
    let mut i: usize = 0;
    while i < n
        invariant
            n == s@.len(),
            n == t@.len(),
            0 <= i <= n,
            forall|j: int| 0 <= j < i ==> lower_char(#[trigger] s@[j]) == t@[j],
            forall|j: int| 0 <= j < t@.len() ==> lower_char(#[trigger] t@[j]) == t@[j],
        decreases n - i,
    {
        let a = s.get_char(i);
        let b = t.get_char(i);
        if !char_eq_lowered(a, b) {
            proof {
                assert(lower_seq(s@)[i as int] != t@[i as int]);
            }
            return false;
        }
        i += 1;
    }
    proof {
        assert(lower_seq(s@) =~= t@);
    }
    true
}

/// Whether the ASCII lowering of `a` is exactly `b`.
fn char_eq_lowered(a: char, b: char) -> (r: bool)
    ensures
        r == (lower_char(a) == b),
{
    if 'A' <= a && a <= 'Z' {
        proof {
            lemma_lower_char_value(a);
        }
        (a as u32) + 32 == (b as u32)
    } else {
        a == b
    }
}

/// For an ASCII capital letter, the lowered character sits exactly 32 code
/// points higher.
proof fn lemma_lower_char_value(a: char)
    requires
        'A' <= a && a <= 'Z',
    ensures
        lower_char(a) as u32 == a as u32 + 32,
        'a' <= lower_char(a) && lower_char(a) <= 'z',
{
    assert(65 <= a as u32 && a as u32 <= 90);
    assert(a as u8 == a as u32 as u8);
    assert(((a as u8) + 32) as u8 as char as u32 == a as u32 + 32);
}

/// Parsing a level's display name after lowering it recovers the level:
/// `parse_level(lower_seq(spec_level_chars(l))) == l` for each of the four
/// levels.
pub proof fn lemma_parse_display_round_trip(l: LogLevel)
    ensures
        parse_level(lower_seq(spec_level_chars(l))) == l,
{
    lemma_lower_seq_idempotent(spec_level_chars(l));
    match l {
        LogLevel::Debug => {
            assert(lower_seq(spec_level_chars(l)) =~= seq!['d', 'e', 'b', 'u', 'g']);
        },
        LogLevel::Info => {
            assert(lower_seq(spec_level_chars(l)) =~= seq!['i', 'n', 'f', 'o']);
        },
        LogLevel::Warn => {
            assert(lower_seq(spec_level_chars(l)) =~= seq!['w', 'a', 'r', 'n']);
        },
        LogLevel::Error => {
            assert(lower_seq(spec_level_chars(l)) =~= seq!['e', 'r', 'r', 'o', 'r']);
        },
    }
}

/// Lowering an already-lowered sequence changes nothing.
proof fn lemma_lower_seq_idempotent(s: Seq<char>)
    ensures
        lower_seq(lower_seq(s)) =~= lower_seq(s),
{
    assert forall|i: int| 0 <= i < s.len() implies lower_char(
        #[trigger] lower_seq(s)[i],
    ) == lower_seq(s)[i] by {
        let c = s[i];
        if 'A' <= c && c <= 'Z' {
            lemma_lower_char_value(c);
        }
    }
}

} // verus!
