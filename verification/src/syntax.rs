//! Small pieces of the Raptor file syntax: file modes in octal and the
//! escapes of quoted strings.
use vstd::prelude::*;

use crate::text::chars_of;

verus! {

/// The value of an octal digit.
pub open spec fn oct_value(c: char) -> Option<nat> {
    if '0' <= c && c <= '7' {
        Some((c as nat - '0' as nat) as nat)
    } else {
        None
    }
}

/// The number written by the octal digits `s`, if all of them are
/// digits.
pub open spec fn oct_number(s: Seq<char>) -> Option<nat>
    decreases s.len(),
{
    if s.len() == 0 {
        Some(0)
    } else {
        match (oct_number(s.drop_last()), oct_value(s.last())) {
            (Some(h), Some(d)) => Some(h * 8 + d),
            _ => None,
        }
    }
}

/// What `u32::from_str_radix(s, 8)` accepts: an optional `+`, then at
/// least one octal digit, with a value that fits in 32 bits.
pub open spec fn parse_octal_u32(s: Seq<char>) -> Option<u32> {
    let digits = if s.len() > 0 && s[0] == '+' {
        s.drop_first()
    } else {
        s
    };
    if digits.len() == 0 {
        None
    } else {
        match oct_number(digits) {
            Some(v) => if v <= u32::MAX {
                Some(v as u32)
            } else {
                None
            },
            None => None,
        }
    }
}

/// Digits after a prefix that is already too large keep the number too
/// large, or make it invalid.
proof fn lemma_oct_grows(s: Seq<char>, n: int)
    requires
        0 <= n <= s.len(),
        oct_number(s.take(n)) matches Some(v) && v > u32::MAX,
    ensures
        oct_number(s) matches Some(w) ==> w > u32::MAX,
    decreases s.len() - n,
{
    if n < s.len() {
        let t = s.take(n + 1);
        assert(t.drop_last() =~= s.take(n));
        if oct_number(t) is None {
            lemma_oct_none_stays(s, n + 1);
        } else {
            lemma_oct_grows(s, n + 1);
        }
    } else {
        assert(s.take(n) =~= s);
    }
}

/// A prefix with a non-digit makes the whole invalid.
proof fn lemma_oct_none_stays(s: Seq<char>, n: int)
    requires
        0 <= n <= s.len(),
        oct_number(s.take(n)) is None,
    ensures
        oct_number(s) is None,
    decreases s.len() - n,
{
    if n < s.len() {
        assert(s.take(n + 1).drop_last() =~= s.take(n));
        lemma_oct_none_stays(s, n + 1);
    } else {
        assert(s.take(n) =~= s);
    }
}

/// The file mode written as octal digits (`chmod` option).
pub fn parse_chmod(s: &str) -> (r: Option<u32>)
    ensures
        r == parse_octal_u32(s@),
{
    let cs = chars_of(s);
    let start: usize = if cs.len() > 0 && cs[0] == '+' {
        1
    } else {
        0
    };
    let ghost digits = if s@.len() > 0 && s@[0] == '+' {
        s@.drop_first()
    } else {
        s@
    };
    proof {
        assert(digits =~= s@.subrange(start as int, s@.len() as int));
    }
    if start >= cs.len() {
        return None;
    }
    assert(digits.len() > 0);
    let mut acc: u64 = 0;
    let mut i: usize = start;
    proof {
        assert(digits.take(0) =~= Seq::<char>::empty());
    }
    while i < cs.len()
        invariant
            start <= i <= cs@.len(),
            cs@ == s@,
            digits == s@.subrange(start as int, s@.len() as int),
            oct_number(digits.take(i - start)) == Some(acc as nat),
            acc <= u32::MAX,
            digits.len() > 0,
            digits == (if s@.len() > 0 && s@[0] == '+' {
                s@.drop_first()
            } else {
                s@
            }),
        decreases cs@.len() - i,
    {
        let c = cs[i];
        proof {
            let t = digits.take(i - start + 1);
            assert(t.drop_last() =~= digits.take(i - start));
            assert(t.last() == c);
        }
        if c < '0' || c > '7' {
            proof {
                lemma_oct_none_stays(digits, i - start + 1);
                assert(digits.len() > 0);
                assert(parse_octal_u32(s@) is None);
            }
            return None;
        }
        let d = (c as u32 - '0' as u32) as u64;
        acc = acc * 8 + d;
        if acc > 0xffff_ffffu64 {
            proof {
                lemma_oct_grows(digits, i - start + 1);
                assert(digits.len() > 0);
                assert(parse_octal_u32(s@) is None);
            }
            return None;
        }
        i = i + 1;
    }
    proof {
        assert(digits.take(i - start) =~= digits);
    }
    Some(acc as u32)
}

/// The character that an escape of a quoted string stands for: `\t` and
/// `\n`; anything else is not an escape.
pub open spec fn spec_unescape(s: Seq<char>) -> Option<char> {
    if s == seq!['\\', 't'] {
        Some('\t')
    } else if s == seq!['\\', 'n'] {
        Some('\n')
    } else {
        None
    }
}

/// The character an escape sequence stands for, if it is one.
pub fn unescape(s: &str) -> (r: Option<char>)
    ensures
        r == spec_unescape(s@),
{
    let cs = chars_of(s);
    if cs.len() == 2 && cs[0] == '\\' && cs[1] == 't' {
        proof {
            assert(s@ =~= seq!['\\', 't']);
        }
        Some('\t')
    } else if cs.len() == 2 && cs[0] == '\\' && cs[1] == 'n' {
        proof {
            assert(s@ =~= seq!['\\', 'n']);
        }
        Some('\n')
    } else {
        proof {
            if s@ == seq!['\\', 't'] || s@ == seq!['\\', 'n'] {
                assert(cs@.len() == 2);
            }
        }
        None
    }
}

} // verus!
