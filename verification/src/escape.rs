//! Quoting of values for shell command lines, and of colons in paths
//! handed to `systemd-nspawn`.
use vstd::prelude::*;

use crate::text::{chars_of, push_char};

verus! {

/// A character that a shell could read as something other than a plain
/// word character.
pub open spec fn spec_blacklisted(ch: char) -> bool {
    !(('a' <= ch && ch <= 'z') || ('A' <= ch && ch <= 'Z') || ('0' <= ch && ch <= '9') || ch
        == '-' || ch == '_' || ch == '=' || ch == '/' || ch == ',' || ch == '.' || ch == '+')
}

/// The escaped form of one character inside double quotes.
pub open spec fn escape_char(c: char) -> Seq<char> {
    if c == '"' {
        seq!['\\', '"']
    } else if c == '\t' {
        seq!['\\', 't']
    } else if c == '\n' {
        seq!['\\', 'n']
    } else if c == '\\' {
        seq!['\\', '\\']
    } else {
        seq![c]
    }
}

/// The escaped form of a sequence of characters, character by character.
pub open spec fn escape_chars(s: Seq<char>) -> Seq<char>
    decreases s.len(),
{
    if s.len() == 0 {
        Seq::empty()
    } else {
        escape_chars(s.drop_last()) + escape_char(s.last())
    }
}

/// Whether any character of `s` is blacklisted.
pub open spec fn has_blacklisted(s: Seq<char>) -> bool {
    exists|i: int| 0 <= i < s.len() && spec_blacklisted(#[trigger] s[i])
}

/// What `escape` makes of `s`: `""` for the empty string, `s` itself when
/// it holds only safe characters, and otherwise `s` in double quotes with
/// quotes, tabs, newlines and backslashes escaped.
pub open spec fn spec_escape(s: Seq<char>) -> Seq<char> {
    if s.len() == 0 {
        seq!['"', '"']
    } else if !has_blacklisted(s) {
        s
    } else {
        seq!['"'] + escape_chars(s) + seq!['"']
    }
}

/// `s` with every `:` preceded by a backslash.
pub open spec fn spec_escape_colon(s: Seq<char>) -> Seq<char>
    decreases s.len(),
{
    if s.len() == 0 {
        Seq::empty()
    } else if s.last() == ':' {
        spec_escape_colon(s.drop_last()) + seq!['\\', ':']
    } else {
        spec_escape_colon(s.drop_last()).push(s.last())
    }
}

/// Whether `ch` must be quoted on a shell command line.
pub fn blacklisted(ch: char) -> (r: bool)
    ensures
        r == spec_blacklisted(ch),
{
    !(('a' <= ch && ch <= 'z') || ('A' <= ch && ch <= 'Z') || ('0' <= ch && ch <= '9') || ch
        == '-' || ch == '_' || ch == '=' || ch == '/' || ch == ',' || ch == '.' || ch == '+')
}

/// Quotes `value` so that a shell reads it back as one word.
pub fn escape(value: &str) -> (r: String)
    ensures
        r@ == spec_escape(value@),
{
    let cs = chars_of(value);
    let mut any = false;
    let mut i: usize = 0;
    while i < cs.len()
        invariant
            cs@ == value@,
            i <= cs@.len(),
            any <==> has_blacklisted(value@.take(i as int)),
        decreases cs@.len() - i,
    {
        let c = cs[i];
        proof {
            let t = value@.take(i as int);
            let t2 = value@.take(i + 1);
            assert(t2 =~= t.push(c));
            if has_blacklisted(t) {
                let w = choose|j: int| 0 <= j < t.len() && spec_blacklisted(#[trigger] t[j]);
                assert(t2[w] == t[w]);
            }
            if spec_blacklisted(c) {
                assert(t2[t.len() as int] == c);
            }
            if has_blacklisted(t2) && !spec_blacklisted(c) {
                let w = choose|j: int| 0 <= j < t2.len() && spec_blacklisted(#[trigger] t2[j]);
                assert(w < t.len());
                assert(t[w] == t2[w]);
            }
        }
        any = any || blacklisted(c);
        i = i + 1;
    }
    assert(value@.take(value@.len() as int) =~= value@);
    if cs.len() == 0 {
        let mut res = String::new();
        push_char(&mut res, '"');
        push_char(&mut res, '"');
        return res;
    }
    if !any {
        return value.to_owned();
    }
    let mut res = String::new();
    push_char(&mut res, '"');
    let mut i: usize = 0;
    while i < cs.len()
        invariant
            cs@ == value@,
            i <= cs@.len(),
            res@ == seq!['"'] + escape_chars(value@.take(i as int)),
        decreases cs@.len() - i,
    {
        let c = cs[i];
        proof {
            let t = value@.take(i as int);
            let t2 = value@.take(i + 1);
            assert(t2.drop_last() =~= t);
            assert(t2.last() == c);
        }
        if c == '"' {
            push_char(&mut res, '\\');
            push_char(&mut res, '"');
        } else if c == '\t' {
            push_char(&mut res, '\\');
            push_char(&mut res, 't');
        } else if c == '\n' {
            push_char(&mut res, '\\');
            push_char(&mut res, 'n');
        } else if c == '\\' {
            push_char(&mut res, '\\');
            push_char(&mut res, '\\');
        } else {
            push_char(&mut res, c);
        }
        i = i + 1;
        proof {
            let t = value@.take(i as int);
            assert(res@ =~= seq!['"'] + escape_chars(t));
        }
    }
    push_char(&mut res, '"');
    res
}

/// `path` with every `:` escaped, as `systemd-nspawn` expects in
/// colon-separated mount arguments.
pub fn escape_colon(path: &str) -> (r: String)
    ensures
        r@ == spec_escape_colon(path@),
{
    let cs = chars_of(path);
    let mut res = String::new();
    let mut i: usize = 0;
    while i < cs.len()
        invariant
            cs@ == path@,
            i <= cs@.len(),
            res@ == spec_escape_colon(path@.take(i as int)),
        decreases cs@.len() - i,
    {
        let c = cs[i];
        proof {
            let t = path@.take(i as int);
            let t2 = path@.take(i + 1);
            assert(t2.drop_last() =~= t);
            assert(t2.last() == c);
        }
        if c == ':' {
            push_char(&mut res, '\\');
            push_char(&mut res, ':');
        } else {
            push_char(&mut res, c);
        }
        i = i + 1;
        proof {
            let t = path@.take(i as int);
            assert(res@ =~= spec_escape_colon(t));
        }
    }
    assert(path@.take(path@.len() as int) =~= path@);
    res
}

/// A value is left as it is only when it is not empty and every one of
/// its characters is one of `a`-`z`, `A`-`Z`, `0`-`9`, `-`, `_`, `=`, `/`,
/// `,`, `.` and `+`; a value with any other character (a quote, a space,
/// `$`, ...) comes back between double quotes.
pub proof fn lemma_escape_quotes_unsafe(s: Seq<char>, i: int)
    requires
        0 <= i < s.len(),
    ensures
        !(('a' <= s[i] && s[i] <= 'z') || ('A' <= s[i] && s[i] <= 'Z') || ('0' <= s[i] && s[i]
            <= '9') || s[i] == '-' || s[i] == '_' || s[i] == '=' || s[i] == '/' || s[i] == ','
            || s[i] == '.' || s[i] == '+') ==> spec_escape(s).len() >= 2 && spec_escape(s)[0]
            == '"' && spec_escape(s).last() == '"',
        (forall|j: int|
            0 <= j < s.len() ==> ('a' <= #[trigger] s[j] && s[j] <= 'z') || ('A' <= s[j] && s[j]
                <= 'Z') || ('0' <= s[j] && s[j] <= '9') || s[j] == '-' || s[j] == '_' || s[j]
                == '=' || s[j] == '/' || s[j] == ',' || s[j] == '.' || s[j] == '+')
            ==> spec_escape(s) == s,
{
    let e = spec_escape(s);
    if !(('a' <= s[i] && s[i] <= 'z') || ('A' <= s[i] && s[i] <= 'Z') || ('0' <= s[i] && s[i]
        <= '9') || s[i] == '-' || s[i] == '_' || s[i] == '=' || s[i] == '/' || s[i] == ','
        || s[i] == '.' || s[i] == '+') {
        assert(spec_blacklisted(s[i]));
        assert(has_blacklisted(s));
        let q = seq!['"'] + escape_chars(s);
        assert(e == q + seq!['"']);
        assert(e[0] == '"');
        assert(e[e.len() - 1] == '"');
    }
}

} // verus!
