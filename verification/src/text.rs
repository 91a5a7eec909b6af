//! Character-level text functions: the Unicode whitespace set, UTF-8 byte
//! lengths, and trimming, exactly as `str::trim` and `str::len` behave.

use vstd::prelude::*;
use vstd::string::StrSliceExecFns;

verus! {

/// The code points with the Unicode `White_Space` property: exactly the
/// characters that `str::trim` strips from either end of a string.
pub open spec fn is_space(c: char) -> bool {
    let n: u32 = c as u32;
    n == 0x09 || n == 0x0A || n == 0x0B || n == 0x0C || n == 0x0D || n == 0x20
        || n == 0x85 || n == 0xA0 || n == 0x1680 || (0x2000 <= n && n <= 0x200A)
        || n == 0x2028 || n == 0x2029 || n == 0x202F || n == 0x205F || n == 0x3000
}

/// Whether `c` has the Unicode `White_Space` property.
pub fn is_space_char(c: char) -> (r: bool)
    ensures
        r == is_space(c),
{
    let n: u32 = c as u32;
    n == 0x09 || n == 0x0A || n == 0x0B || n == 0x0C || n == 0x0D || n == 0x20
        || n == 0x85 || n == 0xA0 || n == 0x1680 || (0x2000 <= n && n <= 0x200A)
        || n == 0x2028 || n == 0x2029 || n == 0x202F || n == 0x205F || n == 0x3000
}

/// Number of bytes in the UTF-8 encoding of `c`.
pub open spec fn utf8_len(c: char) -> int {
    let n: u32 = c as u32;
    if n < 0x80 {
        1
    } else if n < 0x800 {
        2
    } else if n < 0x10000 {
        3
    } else {
        4
    }
}

/// Number of bytes in the UTF-8 encoding of `c`.
pub fn utf8_len_char(c: char) -> (r: usize)
    ensures
        r as int == utf8_len(c),
        1 <= r <= 4,
{
    let n: u32 = c as u32;
    if n < 0x80 {
        1
    } else if n < 0x800 {
        2
    } else if n < 0x10000 {
        3
    } else {
        4
    }
}

/// Byte length of the UTF-8 encoding of a character sequence: what
/// `str::len` returns for the string holding these characters.
pub open spec fn byte_len(s: Seq<char>) -> int
    decreases s.len(),
{
    if s.len() == 0 {
        0
    } else {
        byte_len(s.drop_last()) + utf8_len(s.last())
    }
}

/// Every character takes between one and four bytes.
pub proof fn lemma_byte_len_bounds(s: Seq<char>)
    ensures
        s.len() <= byte_len(s) <= 4 * s.len(),
    decreases s.len(),
{
    if s.len() > 0 {
        lemma_byte_len_bounds(s.drop_last());
    }
}

/// Byte length adds up over a split of the sequence.
pub proof fn lemma_byte_len_split(s: Seq<char>, i: int)
    requires
        0 <= i <= s.len(),
    ensures
        byte_len(s) == byte_len(s.subrange(0, i)) + byte_len(
            s.subrange(i, s.len() as int),
        ),
    decreases s.len(),
{
    if i == s.len() {
        assert(s.subrange(0, i) =~= s);
        assert(s.subrange(i, s.len() as int) =~= Seq::<char>::empty());
    } else {
        let s0 = s.drop_last();
        lemma_byte_len_split(s0, i);
        assert(s0.subrange(0, i) =~= s.subrange(0, i));
        let right = s.subrange(i, s.len() as int);
        assert(right.len() > 0);
        assert(right.drop_last() =~= s0.subrange(i, s0.len() as int));
        assert(right.last() == s.last());
    }
}

/// `s` with its leading whitespace removed.
pub open spec fn trim_start_spec(s: Seq<char>) -> Seq<char>
    decreases s.len(),
{
    if s.len() > 0 && is_space(s[0]) {
        trim_start_spec(s.drop_first())
    } else {
        s
    }
}

/// `s` with its trailing whitespace removed.
pub open spec fn trim_end_spec(s: Seq<char>) -> Seq<char>
    decreases s.len(),
{
    if s.len() > 0 && is_space(s.last()) {
        trim_end_spec(s.drop_last())
    } else {
        s
    }
}

/// `s` with whitespace removed from both ends: what `str::trim` returns.
pub open spec fn trim_spec(s: Seq<char>) -> Seq<char> {
    trim_end_spec(trim_start_spec(s))
}

/// If the first `lo` characters are whitespace and the one after them (if
/// any) is not, trimming the start drops exactly those `lo` characters.
pub proof fn lemma_trim_start_at(s: Seq<char>, lo: int)
    requires
        0 <= lo <= s.len(),
        forall|j: int| 0 <= j < lo ==> is_space(s[j]),
        lo < s.len() ==> !is_space(s[lo]),
    ensures
        trim_start_spec(s) == s.subrange(lo, s.len() as int),
    decreases lo,
{
    if lo == 0 {
        assert(s.subrange(0, s.len() as int) =~= s);
    } else {
        assert(is_space(s[0]));
        let s1 = s.drop_first();
        assert forall|j: int| 0 <= j < lo - 1 implies is_space(s1[j]) by {
            assert(s1[j] == s[j + 1]);
        }
        assert(lo - 1 < s1.len() ==> !is_space(s1[lo - 1]));
        lemma_trim_start_at(s1, lo - 1);
        assert(s1.subrange(lo - 1, s1.len() as int) =~= s.subrange(lo, s.len() as int));
    }
}

/// If the characters from `hi` on are whitespace and the one before them (if
/// any) is not, trimming the end keeps exactly the first `hi` characters.
pub proof fn lemma_trim_end_at(s: Seq<char>, hi: int)
    requires
        0 <= hi <= s.len(),
        forall|j: int| hi <= j < s.len() ==> is_space(s[j]),
        hi > 0 ==> !is_space(s[hi - 1]),
    ensures
        trim_end_spec(s) == s.subrange(0, hi),
    decreases s.len(),
{
    if hi == s.len() {
        assert(s.subrange(0, hi) =~= s);
    } else {
        assert(is_space(s.last()));
        let s0 = s.drop_last();
        lemma_trim_end_at(s0, hi);
        assert(s0.subrange(0, hi) =~= s.subrange(0, hi));
    }
}

/// Whether `s`, with surrounding whitespace trimmed as `str::trim` trims it,
/// is at least eight bytes long in its UTF-8 encoding: the password rule.
pub fn password_long_enough(s: &str) -> (r: bool)
    ensures
        r == (byte_len(trim_spec(s@)) >= 8),
{
    let n: usize = s.unicode_len();
    let mut lo: usize = 0;
    while lo < n && is_space_char(s.get_char(lo))
        invariant
            n == s@.len(),
            0 <= lo <= n,
            forall|j: int| 0 <= j < lo ==> is_space(s@[j]),
        decreases n - lo,
    {
        lo = lo + 1;
    }
    let mut hi: usize = n;
    while hi > lo && is_space_char(s.get_char(hi - 1))
        invariant
            n == s@.len(),
            lo <= hi <= n,
            forall|j: int| 0 <= j < lo ==> is_space(s@[j]),
            lo < n ==> !is_space(s@[lo as int]),
            forall|j: int| hi <= j < n ==> is_space(s@[j]),
        decreases hi,
    {
        hi = hi - 1;
    }
    let ghost tseq = s@.subrange(lo as int, hi as int);
    proof {
        lemma_trim_start_at(s@, lo as int);
        let t = s@.subrange(lo as int, n as int);
        assert forall|j: int| hi - lo <= j < t.len() implies is_space(t[j]) by {
            assert(t[j] == s@[j + lo]);
        }
        assert(hi - lo > 0 ==> !is_space(t[hi - lo - 1]));
        lemma_trim_end_at(t, hi - lo);
        assert(t.subrange(0, hi - lo) =~= tseq);
        assert(trim_spec(s@) == tseq);
    }
    let mut i: usize = lo;
    let mut acc: u64 = 0;
    while i < hi && acc < 8
        invariant
            n == s@.len(),
            lo <= i <= hi <= n,
            acc <= 11,
            acc as int == byte_len(s@.subrange(lo as int, i as int)),
        decreases hi - i,
    {
        let c = s.get_char(i);
        let l: usize = utf8_len_char(c);
        proof {
            let pre = s@.subrange(lo as int, i as int);
            let post = s@.subrange(lo as int, i + 1 as int);
            assert(post.drop_last() =~= pre);
            assert(post.last() == s@[i as int]);
        }
        acc = acc + (l as u64);
        i = i + 1;
    }
    proof {
        if i < hi {
            lemma_byte_len_split(tseq, i - lo);
            assert(tseq.subrange(0, i - lo) =~= s@.subrange(lo as int, i as int));
            lemma_byte_len_bounds(tseq.subrange(i - lo, tseq.len() as int));
        } else {
            assert(s@.subrange(lo as int, i as int) =~= tseq);
        }
    }
    acc >= 8
}

} // verus!
