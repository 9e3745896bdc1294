//! Character-level string operations on paths and generated text.

use vstd::prelude::*;
use vstd::string::*;

verus! {

/// The part of `s` after the last occurrence of `sep`, or all of `s` when
/// `sep` does not occur (what `s.split(sep).last()` gives).
pub open spec fn after_last(s: Seq<char>, sep: char) -> Seq<char>
    decreases s.len(),
{
    if s.len() == 0 {
        s
    } else if s.last() == sep {
        Seq::<char>::empty()
    } else {
        after_last(s.drop_last(), sep).push(s.last())
    }
}

/// `s` with every backslash turned into a forward slash.
pub open spec fn forward_slashes(s: Seq<char>) -> Seq<char> {
    s.map_values(|c: char| if c == '\\' { '/' } else { c })
}

/// Whether the character `c` occurs in `s`.
pub fn has_char(s: &str, c: char) -> (found: bool)
    ensures
        found == s@.contains(c),
{
    let n = s.unicode_len();
    let mut i: usize = 0;
    while i < n
        invariant
            n == s@.len(),
            i <= n,
            forall|j: int| 0 <= j < i ==> s@[j] != c,
        decreases n - i,
    {
        if s.get_char(i) == c {
            assert(s@[i as int] == c);
            return true;
        }
        i += 1;
    }
    false
}

/// The part of `s` after the last `sep` (all of `s` when there is none).
pub fn after_last_of(s: &str, sep: char) -> (part: String)
    ensures
        part@ == after_last(s@, sep),
{
    let n = s.unicode_len();
    let mut start: usize = 0;
    let mut i: usize = 0;
    assert(s@.subrange(0, 0) =~= Seq::<char>::empty());
    while i < n
        invariant
            n == s@.len(),
            start <= i <= n,
            after_last(s@.subrange(0, i as int), sep) == s@.subrange(start as int, i as int),
        decreases n - i,
    {
        let c = s.get_char(i);
        let ghost prefix = s@.subrange(0, i + 1);
        assert(prefix.drop_last() =~= s@.subrange(0, i as int));
        if c == sep {
            start = i + 1;
            assert(s@.subrange(start as int, i + 1) =~= Seq::<char>::empty());
        } else {
            assert(s@.subrange(start as int, i + 1) =~= s@.subrange(start as int, i as int).push(c));
        }
        i += 1;
    }
    assert(s@.subrange(0, n as int) =~= s@);
    let piece = s.substring_char(start, n);
    String::from_str(piece)
}

/// `s` with every backslash replaced by a forward slash.
pub fn with_forward_slashes(s: &str) -> (out: String)
    ensures
        out@ == forward_slashes(s@),
{
    let n = s.unicode_len();
    let mut out = String::new();
    let mut start: usize = 0;
    let mut i: usize = 0;
    proof {
        reveal_strlit("/");
    }
    while i < n
        invariant
            n == s@.len(),
            start <= i <= n,
            out@ == forward_slashes(s@.subrange(0, start as int)),
            forall|j: int| start <= j < i ==> s@[j] != '\\',
            "/"@ == seq!['/'],
        decreases n - i,
    {
        let c = s.get_char(i);
        if c == '\\' {
            let piece = s.substring_char(start, i);
            out.append(piece);
            out.append("/");
            assert(forward_slashes(s@.subrange(0, i + 1)) =~= forward_slashes(
                s@.subrange(0, start as int),
            ) + s@.subrange(start as int, i as int) + seq!['/']);
            start = i + 1;
        }
        i += 1;
    }
    let piece = s.substring_char(start, n);
    out.append(piece);
    assert(s@.subrange(0, n as int) =~= s@);
    assert(forward_slashes(s@) =~= forward_slashes(s@.subrange(0, start as int)) + s@.subrange(
        start as int,
        n as int,
    ));
    out
}

/// `s` with every occurrence of the nonempty pattern `from` replaced by `to`,
/// matching from the left without overlaps (as `str::replace` does).
pub open spec fn replaced(s: Seq<char>, from: Seq<char>, to: Seq<char>) -> Seq<char>
    decreases s.len(),
{
    if from.len() == 0 || s.len() < from.len() {
        s
    } else if s.take(from.len() as int) == from {
        to + replaced(s.skip(from.len() as int), from, to)
    } else {
        seq![s[0]] + replaced(s.skip(1), from, to)
    }
}

/// Whether `pattern` occurs in `s` at character position `at`.
fn matches_at(s: &str, pattern: &str, at: usize) -> (found: bool)
    requires
        at + pattern@.len() <= s@.len(),
    ensures
        found == (s@.skip(at as int).take(pattern@.len() as int) == pattern@),
{
    let m = pattern.unicode_len();
    let n = s.unicode_len();
    let mut j: usize = 0;
    while j < m
        invariant
            m == pattern@.len(),
            n == s@.len(),
            at + m <= s@.len(),
            j <= m,
            forall|k: int| 0 <= k < j ==> s@[at + k] == pattern@[k],
        decreases m - j,
    {
        if s.get_char(at + j) != pattern.get_char(j) {
            assert(s@.skip(at as int).take(m as int)[j as int] != pattern@[j as int]);
            return false;
        }
        j += 1;
    }
    assert(s@.skip(at as int).take(m as int) =~= pattern@);
    true
}

/// Replaces every occurrence of the nonempty pattern `from` in `s` by `to`.
pub fn replace_all(s: &str, from: &str, to: &str) -> (out: String)
    requires
        from@.len() > 0,
    ensures
        out@ == replaced(s@, from@, to@),
{
    let n = s.unicode_len();
    let m = from.unicode_len();
    let mut out = String::new();
    let mut seg: usize = 0;
    let mut i: usize = 0;
    assert(s@.skip(0) =~= s@);
    assert(s@.subrange(0, 0) =~= Seq::<char>::empty());
    while i < n
        invariant
            n == s@.len(),
            m == from@.len(),
            m > 0,
            seg <= i <= n,
            out@ + s@.subrange(seg as int, i as int) + replaced(s@.skip(i as int), from@, to@)
                == replaced(s@, from@, to@),
        decreases n - i,
    {
        let ghost rest = s@.skip(i as int);
        if n - i >= m && matches_at(s, from, i) {
            let piece = s.substring_char(seg, i);
            out.append(piece);
            out.append(to);
            assert(rest.skip(m as int) =~= s@.skip(i + m));
            i = i + m;
            seg = i;
            assert(s@.subrange(seg as int, i as int) =~= Seq::<char>::empty());
        } else {
            assert(rest.skip(1) =~= s@.skip(i + 1));
            assert(rest =~= seq![s@[i as int]] + rest.skip(1));
            proof {
                if rest.len() < m as nat {
                    assert(replaced(rest.skip(1), from@, to@) == rest.skip(1));
                }
            }
            assert(s@.subrange(seg as int, i + 1) =~= s@.subrange(seg as int, i as int) + seq![
                s@[i as int],
            ]);
            i = i + 1;
        }
    }
    assert(s@.skip(n as int) =~= Seq::<char>::empty());
    let piece = s.substring_char(seg, n);
    out.append(piece);
    assert(out@ =~= replaced(s@, from@, to@));
    out
}

/// Whether two strings hold the same characters.
pub fn same_text(a: &str, b: &str) -> (same: bool)
    ensures
        same == (a@ == b@),
{
    let n = a.unicode_len();
    if n != b.unicode_len() {
        return false;
    }
    let mut i: usize = 0;
    while i < n
        invariant
            n == a@.len(),
            n == b@.len(),
            i <= n,
            forall|j: int| 0 <= j < i ==> a@[j] == b@[j],
        decreases n - i,
    {
        if a.get_char(i) != b.get_char(i) {
            return false;
        }
        i += 1;
    }
    assert(a@ =~= b@);
    true
}

} // verus!
