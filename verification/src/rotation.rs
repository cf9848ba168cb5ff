//! Rotation numbering for the file backend.
//!
//! Rotated generations of a log file `<stem>.<ext>` are named
//! `<stem>.<ext>.<N>`. A new rotation renames the active file to the name
//! with `N` one past the highest number present, so prior generations are
//! preserved indefinitely.

use vstd::prelude::*;
use vstd::string::StrSliceExecFns;
use vstd::string::StringExecFns;
use crate::format::{dec_rep, u64_to_string};

verus! {

/// The prefix every numbered backup of `<stem>.<ext>` carries:
/// `<stem>.<ext>.`.
pub open spec fn backup_prefix(stem: Seq<char>, ext: Seq<char>) -> Seq<char> {
    stem + "."@ + ext + "."@
}

/// Whether every character of `s` is a decimal digit.
pub open spec fn all_digits(s: Seq<char>) -> bool {
    forall|i: int| 0 <= i < s.len() ==> '0' <= #[trigger] s[i] && s[i] <= '9'
}

/// The numeric value of a digit sequence, read most significant first.
pub open spec fn digits_val(s: Seq<char>) -> int
    decreases s.len(),
{
    if s.len() == 0 {
        0
    } else {
        digits_val(s.drop_last()) * 10 + (s.last() as int - 48)
    }
}

/// Whether `name` is a numbered backup of `<stem>.<ext>`: the backup prefix
/// followed by at least one digit and nothing else.
pub open spec fn is_backup_name(name: Seq<char>, stem: Seq<char>, ext: Seq<char>) -> bool {
    let pre = backup_prefix(stem, ext);
    name.len() > pre.len() && name.take(pre.len() as int) == pre && all_digits(
        name.skip(pre.len() as int),
    )
}

/// The generation number a backup name carries.
pub open spec fn backup_index(name: Seq<char>, stem: Seq<char>, ext: Seq<char>) -> int {
    digits_val(name.skip(backup_prefix(stem, ext).len() as int))
}

/// The highest generation number among `names` that parses as a backup of
/// `<stem>.<ext>` with a value a `u32` can carry; 0 when there is none.
pub open spec fn max_backup_index(names: Seq<Seq<char>>, stem: Seq<char>, ext: Seq<char>) -> int
    decreases names.len(),
{
    if names.len() == 0 {
        0
    } else {
        let rest = max_backup_index(names.drop_last(), stem, ext);
        let name = names.last();
        if is_backup_name(name, stem, ext) && backup_index(name, stem, ext) <= 0xffff_ffff
            && backup_index(name, stem, ext) > rest {
            backup_index(name, stem, ext)
        } else {
            rest
        }
    }
}

/// Whether `name` continues with exactly `part` at position `at`; on
/// success the position just past it.
fn match_at(name: &str, at: usize, part: &str) -> (r: Option<usize>)
    requires
        at <= name@.len(),
    ensures
        match r {
            Option::Some(p) => at + part@.len() <= name@.len() && p == at + part@.len()
                && name@.subrange(at as int, at + part@.len()) =~= part@,
            Option::None => !(at + part@.len() <= name@.len() && name@.subrange(
                at as int,
                at + part@.len(),
            ) =~= part@),
        },
{
    let n = name.unicode_len();
    let m = part.unicode_len();
    if n - at < m {
        return Option::None;
    }
    let mut j: usize = 0;
    while j < m
        invariant
            0 <= j <= m,
            m == part@.len(),
            n == name@.len(),
            at + m <= n,
            forall|i: int| 0 <= i < j ==> name@[at + i] == part@[i],
        decreases m - j,
    {
        if name.get_char(at + j) != part.get_char(j) {
            proof {
                assert(name@.subrange(at as int, at + part@.len())[j as int] != part@[j as int]);
            }
            return Option::None;
        }
        j += 1;
    }
    proof {
        assert(name@.subrange(at as int, at + part@.len()) =~= part@);
    }
    Option::Some(at + m)
}

/// A longer run of digits is worth at least as much as any of its prefixes.
proof fn lemma_digits_val_prefix_le(s: Seq<char>, j: int)
    requires
        all_digits(s),
        0 <= j <= s.len(),
    ensures
        digits_val(s.take(j)) <= digits_val(s),
        digits_val(s) >= 0,
    decreases s.len() - j,
{
    lemma_digits_val_nonneg(s.take(j));
    if j == s.len() {
        assert(s.take(j) =~= s);
        lemma_digits_val_nonneg(s);
    } else {
        lemma_digits_val_prefix_le(s, j + 1);
        assert(s.take(j + 1).drop_last() =~= s.take(j));
        assert(digits_val(s.take(j + 1)) == digits_val(s.take(j)) * 10 + (s[j] as int - 48));
        lemma_digits_val_nonneg(s.take(j));
    }
}

/// A digit run's value is never negative.
proof fn lemma_digits_val_nonneg(s: Seq<char>)
    requires
        all_digits(s),
    ensures
        digits_val(s) >= 0,
    decreases s.len(),
{
    if s.len() > 0 {
        assert(all_digits(s.drop_last()));
        lemma_digits_val_nonneg(s.drop_last());
        assert(s.last() as int - 48 >= 0);
    }
}

/// If `name` is a backup of `<stem>.<ext>`, its four leading segments are
/// the stem, a dot, the extension, and a dot.
proof fn lemma_backup_segments(name: Seq<char>, stem: Seq<char>, ext: Seq<char>)
    requires
        is_backup_name(name, stem, ext),
    ensures
        name.subrange(0, stem.len() as int) =~= stem,
        name.subrange(stem.len() as int, stem.len() as int + 1) =~= "."@,
        name.subrange(stem.len() as int + 1, stem.len() as int + 1 + ext.len() as int) =~= ext,
        name.subrange(
            stem.len() as int + 1 + ext.len() as int,
            stem.len() as int + 1 + ext.len() as int + 1,
        ) =~= "."@,
{
    reveal_strlit(".");
    let pre = backup_prefix(stem, ext);
    assert(name.take(pre.len() as int) == pre);
    assert forall|i: int| 0 <= i < pre.len() implies name[i] == pre[i] by {
        assert(name.take(pre.len() as int)[i] == pre[i]);
    }
    let sl = stem.len() as int;
    let el = ext.len() as int;
    assert forall|i: int| 0 <= i < sl implies pre[i] == stem[i] by {
        assert((stem + "."@)[i] == stem[i]);
        assert((stem + "."@ + ext)[i] == (stem + "."@)[i]);
        assert(pre[i] == (stem + "."@ + ext)[i]);
    }
    assert(pre[sl] == '.') by {
        assert((stem + "."@)[sl] == "."@[0]);
        assert((stem + "."@ + ext)[sl] == (stem + "."@)[sl]);
        assert(pre[sl] == (stem + "."@ + ext)[sl]);
    }
    assert forall|i: int| 0 <= i < el implies pre[sl + 1 + i] == ext[i] by {
        assert((stem + "."@ + ext)[sl + 1 + i] == ext[i]);
        assert(pre[sl + 1 + i] == (stem + "."@ + ext)[sl + 1 + i]);
    }
    assert(pre[sl + 1 + el] == '.') by {
        assert(pre[sl + 1 + el] == "."@[0]);
    }
    assert(name.subrange(0, sl) =~= stem);
    assert(name.subrange(sl, sl + 1) =~= "."@);
    assert(name.subrange(sl + 1, sl + 1 + el) =~= ext);
    assert(name.subrange(sl + 1 + el, sl + 1 + el + 1) =~= "."@);
}

/// Parse the generation number out of a backup name of `<stem>.<ext>`.
/// `None` means the name is no such backup, or its number does not fit a
/// `u32`; the scan over a folder ignores both alike.
fn parse_backup_index(name: &str, stem: &str, ext: &str) -> (r: Option<u32>)
    ensures
        match r {
            Option::Some(v) => is_backup_name(name@, stem@, ext@) && backup_index(
                name@,
                stem@,
                ext@,
            ) == v as int,
            Option::None => !is_backup_name(name@, stem@, ext@) || backup_index(
                name@,
                stem@,
                ext@,
            ) > 0xffff_ffff,
        },
{
    proof {
        reveal_strlit(".");
    }
    let ghost pre = backup_prefix(stem@, ext@);
    let p1 = match match_at(name, 0, stem) {
        Option::Some(p) => p,
        Option::None => {
            proof {
                if is_backup_name(name@, stem@, ext@) {
                    lemma_backup_segments(name@, stem@, ext@);
                }
            }
            return Option::None;
        },
    };
    let p2 = match match_at(name, p1, ".") {
        Option::Some(p) => p,
        Option::None => {
            proof {
                if is_backup_name(name@, stem@, ext@) {
                    lemma_backup_segments(name@, stem@, ext@);
                }
            }
            return Option::None;
        },
    };
    let p3 = match match_at(name, p2, ext) {
        Option::Some(p) => p,
        Option::None => {
            proof {
                if is_backup_name(name@, stem@, ext@) {
                    lemma_backup_segments(name@, stem@, ext@);
                }
            }
            return Option::None;
        },
    };
    let p4 = match match_at(name, p3, ".") {
        Option::Some(p) => p,
        Option::None => {
            proof {
                if is_backup_name(name@, stem@, ext@) {
                    lemma_backup_segments(name@, stem@, ext@);
                }
            }
            return Option::None;
        },
    };
    proof {
        assert(name@.take(p4 as int) =~= name@.subrange(0, p1 as int) + name@.subrange(
            p1 as int,
            p2 as int,
        ) + name@.subrange(p2 as int, p3 as int) + name@.subrange(p3 as int, p4 as int));
        assert(name@.take(p4 as int) =~= pre);
    }
    let n = name.unicode_len();
    if p4 >= n {
        proof {
            assert(!(name@.len() > pre.len()));
        }
        return Option::None;
    }
    let mut v: u64 = 0;
    let mut i: usize = p4;
    while i < n
        invariant
            p4 <= i <= n,
            n == name@.len(),
            pre == backup_prefix(stem@, ext@),
            p4 == pre.len(),
            name@.take(p4 as int) == pre,
            p4 < n,
            all_digits(name@.subrange(p4 as int, i as int)),
            v as int == digits_val(name@.subrange(p4 as int, i as int)),
            v <= 0xffff_ffff,
        decreases n - i,
    {
        let c = name.get_char(i);
        if !('0' <= c && c <= '9') {
            proof {
                assert(name@.skip(p4 as int)[i - p4] == name@[i as int]);
                assert(!all_digits(name@.skip(p4 as int)));
                assert(backup_prefix(stem@, ext@) == pre);
                assert(!is_backup_name(name@, stem@, ext@));
            }
            return Option::None;
        }
        let d: u64 = (c as u32 - 48) as u64;
        let v2: u64 = v * 10 + d;
        proof {
            assert(name@.subrange(p4 as int, i + 1).drop_last() =~= name@.subrange(
                p4 as int,
                i as int,
            ));
            assert(digits_val(name@.subrange(p4 as int, i + 1)) == v as int * 10 + (
            name@[i as int] as int - 48));
        }
        if v2 > 0xffff_ffff {
            proof {
                if all_digits(name@.skip(p4 as int)) {
                    assert(name@[i as int] == c);
                    assert(name@[i as int] as int == c as u32 as int);
                    assert(d as int == name@[i as int] as int - 48);
                    assert(v2 as int == v as int * 10 + d as int);
                    assert(digits_val(name@.subrange(p4 as int, i + 1)) == v2 as int);
                    assert(name@.subrange(p4 as int, i + 1) =~= name@.skip(p4 as int).take(
                        i + 1 - p4,
                    ));
                    lemma_digits_val_prefix_le(name@.skip(p4 as int), i + 1 - p4);
                    assert(digits_val(name@.skip(p4 as int)) >= digits_val(
                        name@.skip(p4 as int).take(i + 1 - p4),
                    ));
                    assert(digits_val(name@.skip(p4 as int)) >= v2 as int);
                    assert(backup_prefix(stem@, ext@).len() == p4);
                    assert(backup_index(name@, stem@, ext@) >= v2 as int);
                }
            }
            return Option::None;
        }
        v = v2;
        i += 1;
    }
    proof {
        assert(name@.subrange(p4 as int, n as int) =~= name@.skip(p4 as int));
        assert(is_backup_name(name@, stem@, ext@));
    }
    Option::Some(v as u32)
}

/// The number the next rotation of `<stem>.<ext>` gets: one past the
/// highest generation present among `names` (1 when none is).
pub fn next_backup_index(names: &Vec<String>, stem: &str, ext: &str) -> (r: u64)
    ensures
        r == max_backup_index(names@.map_values(|s: String| s@), stem@, ext@) + 1,
{
    let ghost views = names@.map_values(|s: String| s@);
    let mut max: u32 = 0;
    let mut k: usize = 0;
    while k < names.len()
        invariant
            0 <= k <= names@.len(),
            views == names@.map_values(|s: String| s@),
            max as int == max_backup_index(views.take(k as int), stem@, ext@),
        decreases names@.len() - k,
    {
        match parse_backup_index(names[k].as_str(), stem, ext) {
            Option::Some(v) => {
                if v > max {
                    max = v;
                }
            },
            Option::None => {},
        }
        proof {
            assert(views.take(k + 1).drop_last() =~= views.take(k as int));
            assert(views.take(k + 1).last() == names@[k as int]@);
        }
        k += 1;
    }
    proof {
        assert(views.take(names@.len() as int) =~= views);
    }
    max as u64 + 1
}

/// The position of the last `.` in a file name, not counting one at the
/// very start (a leading dot marks a hidden file, not an extension);
/// negative when there is none.
pub open spec fn spec_last_dot(s: Seq<char>) -> int
    decreases s.len(),
{
    if s.len() <= 1 {
        -1
    } else if s.last() == '.' {
        s.len() - 1
    } else {
        spec_last_dot(s.drop_last())
    }
}

/// The part of a file name before its extension.
pub open spec fn spec_file_stem(s: Seq<char>) -> Seq<char> {
    if spec_last_dot(s) < 0 {
        s
    } else {
        s.take(spec_last_dot(s))
    }
}

/// A file name's extension: what follows the last dot, empty when there
/// is none.
pub open spec fn spec_file_ext(s: Seq<char>) -> Seq<char> {
    if spec_last_dot(s) < 0 {
        Seq::empty()
    } else {
        s.skip(spec_last_dot(s) + 1)
    }
}

/// When position `k` holds a dot and nothing after it does, `k` is the
/// last dot.
proof fn lemma_last_dot_at(s: Seq<char>, k: int)
    requires
        1 <= k < s.len(),
        s[k] == '.',
        forall|j: int| k < j < s.len() ==> s[j] != '.',
    ensures
        spec_last_dot(s) == k,
    decreases s.len(),
{
    if k == s.len() - 1 {
    } else {
        assert(s.last() != '.');
        lemma_last_dot_at(s.drop_last(), k);
    }
}

/// When no position past the start holds a dot, there is no last dot.
proof fn lemma_no_last_dot(s: Seq<char>)
    requires
        forall|j: int| 1 <= j < s.len() ==> s[j] != '.',
    ensures
        spec_last_dot(s) == -1,
    decreases s.len(),
{
    if s.len() > 1 {
        assert(s.last() != '.');
        lemma_no_last_dot(s.drop_last());
    }
}

/// Split a file name into its stem and extension at the last dot. A dot
/// at the very start does not split, and a name without a dot has an
/// empty extension.
pub fn split_file_name<'a>(name: &'a str) -> (r: (&'a str, &'a str))
    ensures
        r.0@ == spec_file_stem(name@),
        r.1@ == spec_file_ext(name@),
{
    proof {
        reveal_strlit("");
    }
    let n = name.unicode_len();
    if n == 0 {
        proof {
            assert(name@ =~= Seq::<char>::empty());
            assert(""@ =~= Seq::<char>::empty());
        }
        return (name, "");
    }
    let mut cut: usize = 0;
    let mut i: usize = 1;
    while i < n
        invariant
            1 <= i <= n,
            n == name@.len(),
            cut < i,
            cut > 0 ==> name@[cut as int] == '.',
            forall|j: int| cut < j < i && j >= 1 ==> name@[j] != '.',
        decreases n - i,
    {
        if name.get_char(i) == '.' {
            cut = i;
        }
        i += 1;
    }
    if cut == 0 {
        proof {
            lemma_no_last_dot(name@);
        }
        let stem = name.substring_char(0, n);
        proof {
            assert(name@.subrange(0, n as int) =~= name@);
            assert(""@ =~= Seq::<char>::empty());
        }
        (stem, "")
    } else {
        proof {
            lemma_last_dot_at(name@, cut as int);
        }
        let stem = name.substring_char(0, cut);
        let ext = name.substring_char(cut + 1, n);
        (stem, ext)
    }
}

/// The name a rotated generation gets: `<stem>.<ext>.<index>`.
pub fn backup_file_name(stem: &str, ext: &str, index: u64) -> (r: String)
    ensures
        r@ == stem@ + "."@ + ext@ + "."@ + dec_rep(index as nat),
{
    let mut s = String::new();
    s.append(stem);
    s.append(".");
    s.append(ext);
    s.append(".");
    let num = u64_to_string(index);
    s.append(num.as_str());
    proof {
        assert(s@ =~= stem@ + "."@ + ext@ + "."@ + dec_rep(index as nat));
    }
    s
}

} // verus!
