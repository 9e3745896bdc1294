//! Password-protected file packaging: a file's name and contents are
//! DES-encrypted and appended to a platform stub binary, followed by a
//! ten-byte trailer that records where the encrypted data starts.

pub mod crypto;
pub mod digits;
pub mod gui;
pub mod laws;
pub mod outside;
pub mod platform;
pub mod self_release;
pub mod text;
pub mod trailer;

use vstd::prelude::*;

verus! {

/// The text that `generate_the_string(n)` builds: for even `n`, `n - 1`
/// letters `a` and one `b`; for odd `n`, `n` letters `a` (none when the count
/// is negative).
pub open spec fn odd_counts_text(n: int) -> Seq<char> {
    if n % 2 == 0 {
        Seq::new(if n >= 1 { (n - 1) as nat } else { 0 }, |i: int| 'a').push('b')
    } else {
        Seq::new(if n >= 0 { n as nat } else { 0 }, |i: int| 'a')
    }
}

/// Builds a string of `n` characters in which every character occurs an odd
/// number of times: `n` times `a` for odd `n`, else `n - 1` times `a` and a `b`.
pub fn generate_the_string(n: i32) -> (ans: String)
    requires
        n > i32::MIN,
    ensures
        ans@ == odd_counts_text(n as int),
{
    proof {
        reveal_strlit("a");
        reveal_strlit("b");
    }
    let mut ans = String::new();
    let count: i32 = if n % 2 == 0 { n - 1 } else { n };
    let mut k: i32 = 0;
    while k < count
        invariant
            0 <= k,
            k <= count || count < 0,
            count < 0 ==> k == 0,
            ans@ == Seq::new(k as nat, |i: int| 'a'),
            "a"@ == seq!['a'],
        decreases count - k,
    {
        ans.append("a");
        assert(ans@ =~= Seq::new((k + 1) as nat, |i: int| 'a'));
        k += 1;
    }
    if n % 2 == 0 {
        ans.append("b");
    }
    assert(ans@ =~= odd_counts_text(n as int));
    ans
}

} // verus!
