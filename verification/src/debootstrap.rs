//! Following the machine-readable progress that `debootstrap` prints
//! (`KEY: VALUE` lines) and turning it into two progress bars: one for the
//! whole install, one for the current step.
use vstd::prelude::*;

use vstd::string::StrSliceExecFns;

use crate::envmap::str_eq;
use crate::text::{chars_of, push_char, push_str, strings_view};

verus! {

/// Whether `c` is white space (`char::is_whitespace`: the Unicode
/// `White_Space` property).
pub open spec fn spec_is_space(c: char) -> bool {
    ('\u{9}' <= c && c <= '\u{d}') || c == ' ' || c == '\u{85}' || c == '\u{a0}' || c
        == '\u{1680}' || ('\u{2000}' <= c && c <= '\u{200a}') || c == '\u{2028}' || c
        == '\u{2029}' || c == '\u{202f}' || c == '\u{205f}' || c == '\u{3000}'
}

/// Whether `c` is white space.
pub fn is_space(c: char) -> (r: bool)
    ensures
        r == spec_is_space(c),
{
    ('\u{9}' <= c && c <= '\u{d}') || c == ' ' || c == '\u{85}' || c == '\u{a0}' || c
        == '\u{1680}' || ('\u{2000}' <= c && c <= '\u{200a}') || c == '\u{2028}' || c
        == '\u{2029}' || c == '\u{202f}' || c == '\u{205f}' || c == '\u{3000}'
}

/// The longest start of `s` without white space.
pub open spec fn first_word(s: Seq<char>) -> Seq<char>
    decreases s.len(),
{
    if s.len() == 0 || spec_is_space(s[0]) {
        Seq::empty()
    } else {
        seq![s[0]] + first_word(s.drop_first())
    }
}

/// The words of `s`, as `str::split_whitespace` gives them.
pub open spec fn words(s: Seq<char>) -> Seq<Seq<char>>
    decreases s.len(),
{
    if s.len() == 0 {
        Seq::empty()
    } else if spec_is_space(s[0]) {
        words(s.drop_first())
    } else {
        proof {
            lemma_first_word_len(s);
        }
        seq![first_word(s)] + words(s.skip(first_word(s).len() as int))
    }
}

/// A word is a non-empty start of a string that does not begin with
/// white space.
pub proof fn lemma_first_word_len(s: Seq<char>)
    ensures
        first_word(s).len() <= s.len(),
        s.len() > 0 && !spec_is_space(s[0]) ==> first_word(s).len() > 0,
        first_word(s) =~= s.take(first_word(s).len() as int),
        first_word(s).len() < s.len() ==> spec_is_space(s[first_word(s).len() as int]),
        forall|j: int| 0 <= j < first_word(s).len() ==> !spec_is_space(#[trigger] s[j]),
    decreases s.len(),
{
    if s.len() > 0 && !spec_is_space(s[0]) {
        lemma_first_word_len(s.drop_first());
        let w = first_word(s.drop_first());
        assert forall|j: int| 0 <= j < first_word(s).len() implies !spec_is_space(#[trigger] s[j]) by {
            if j > 0 {
                assert(s[j] == s.drop_first()[j - 1]);
            }
        }
    }
}

/// The word of `s` that starts at `i` ends before the first white space
/// after it.
proof fn lemma_word_at(s: Seq<char>, i: int, j: int)
    requires
        0 <= i <= j <= s.len(),
        forall|k: int| i <= k < j ==> !spec_is_space(#[trigger] s[k]),
        j == s.len() || spec_is_space(s[j]),
    ensures
        first_word(s.skip(i)) == s.subrange(i, j),
    decreases j - i,
{
    if i < j {
        lemma_word_at(s, i + 1, j);
        assert(s.skip(i).drop_first() =~= s.skip(i + 1));
        assert(s.subrange(i, j) =~= seq![s[i]] + s.subrange(i + 1, j));
    } else {
        if i < s.len() {
            assert(s.skip(i)[0] == s[i]);
        }
    }
}

/// The words of `s`, in order.
pub fn split_words(s: &str) -> (r: Vec<String>)
    ensures
        r@.map_values(|w: String| w@) == words(s@),
{
    let cs = chars_of(s);
    let ghost sv = s@;
    let mut res: Vec<String> = Vec::new();
    let mut i: usize = 0;
    proof {
        assert(sv.skip(0) =~= sv);
        assert(res@.map_values(|w: String| w@) =~= Seq::<Seq<char>>::empty());
    }
    while i < cs.len()
        invariant
            i <= cs@.len(),
            cs@ == sv,
            sv == s@,
            res@.map_values(|w: String| w@) + words(sv.skip(i as int)) == words(sv),
        decreases cs@.len() - i,
    {
        if is_space(cs[i]) {
            proof {
                assert(sv.skip(i as int)[0] == sv[i as int]);
                assert(sv.skip(i as int).drop_first() =~= sv.skip(i + 1));
            }
            i = i + 1;
        } else {
            let start = i;
            let mut w = String::new();
            while i < cs.len() && !is_space(cs[i])
                invariant
                    start <= i <= cs@.len(),
                    cs@ == sv,
                    w@ == sv.subrange(start as int, i as int),
                    forall|k: int| start <= k < i ==> !spec_is_space(#[trigger] sv[k]),
                decreases cs@.len() - i,
            {
                push_char(&mut w, cs[i]);
                proof {
                    assert(sv.subrange(start as int, i + 1) =~= sv.subrange(start as int, i as int).push(
                        sv[i as int],
                    ));
                }
                i = i + 1;
            }
            proof {
                lemma_word_at(sv, start as int, i as int);
                let t = sv.skip(start as int);
                assert(t[0] == sv[start as int]);
                lemma_first_word_len(t);
                assert(t.skip(first_word(t).len() as int) =~= sv.skip(i as int));
            }
            let ghost before = res@.map_values(|w: String| w@);
            res.push(w);
            proof {
                assert(res@.map_values(|w: String| w@) =~= before.push(w@));
                assert(before.push(w@) + words(sv.skip(i as int)) =~= before + (seq![w@] + words(
                    sv.skip(i as int),
                )));
            }
        }
    }
    proof {
        assert(sv.skip(i as int).len() == 0);
        assert(res@.map_values(|w: String| w@) + Seq::<Seq<char>>::empty() =~= res@.map_values(
            |w: String| w@,
        ));
    }
    res
}

/// Where `pat` first occurs in `s` at or after `from`, if it does.
pub open spec fn find_from(s: Seq<char>, pat: Seq<char>, from: int) -> Option<int>
    decreases s.len() + 1 - from,
{
    if from < 0 || from + pat.len() > s.len() {
        None
    } else if s.subrange(from, from + pat.len()) == pat {
        Some(from)
    } else {
        find_from(s, pat, from + 1)
    }
}

/// `s` with the first `pat` replaced by `rep` (`str::replacen` once).
pub open spec fn replace_first(s: Seq<char>, pat: Seq<char>, rep: Seq<char>) -> Seq<char> {
    match find_from(s, pat, 0) {
        Some(i) => s.take(i) + rep + s.skip(i + pat.len()),
        None => s,
    }
}

/// `fmt` with each `%s` in turn replaced by the next of `args`.
pub open spec fn fill(fmt: Seq<char>, args: Seq<Seq<char>>) -> Seq<char>
    decreases args.len(),
{
    if args.len() == 0 {
        fmt
    } else {
        replace_first(fill(fmt, args.drop_last()), seq!['%', 's'], args.last())
    }
}

/// Where the two characters `a b` first occur in `s` at or after `from`.
fn find_pair(s: &Vec<char>, a: char, b: char, from: usize) -> (r: Option<usize>)
    requires
        from <= s@.len(),
    ensures
        r matches Some(i) ==> find_from(s@, seq![a, b], from as int) == Some(i as int) && i + 2
            <= s@.len(),
        r is None ==> find_from(s@, seq![a, b], from as int) is None,
{
    let mut i = from;
    while i < s.len() && i + 1 < s.len()
        invariant
            from <= i <= s@.len(),
            find_from(s@, seq![a, b], from as int) == find_from(s@, seq![a, b], i as int),
        decreases s@.len() - i,
    {
        if s[i] == a && s[i + 1] == b {
            proof {
                assert(s@.subrange(i as int, i + 2) =~= seq![a, b]);
            }
            return Some(i);
        }
        proof {
            if s@.subrange(i as int, i + 2) == seq![a, b] {
                assert(s@.subrange(i as int, i + 2)[0] == s@[i as int]);
                assert(s@.subrange(i as int, i + 2)[1] == s@[i + 1]);
            }
        }
        i = i + 1;
    }
    None
}

/// `s` with the first `%s` replaced by `rep`.
pub fn replace_marker(s: &str, rep: &str) -> (r: String)
    ensures
        r@ == replace_first(s@, seq!['%', 's'], rep@),
{
    let cs = chars_of(s);
    match find_pair(&cs, '%', 's', 0) {
        Some(i) => {
            let n = cs.len();
            assert(i + 2 <= n);
            assert(seq!['%', 's'].len() == 2);
            let mut res = String::new();
            let mut k: usize = 0;
            while k < i
                invariant
                    k <= i,
                    i + 2 <= n,
                    n == cs@.len(),
                    res@ == s@.take(k as int),
                    cs@ == s@,
                decreases i - k,
            {
                push_char(&mut res, cs[k]);
                proof {
                    assert(s@.take(k + 1) =~= s@.take(k as int).push(s@[k as int]));
                }
                k = k + 1;
            }
            push_str(&mut res, rep);
            let ghost head = res@;
            let mut k: usize = i + 2;
            while k < n
                invariant
                    i + 2 <= k <= n,
                    n == cs@.len(),
                    res@ == head + s@.subrange(i + 2, k as int),
                    cs@ == s@,
                decreases cs@.len() - k,
            {
                push_char(&mut res, cs[k]);
                proof {
                    assert(s@.subrange(i + 2, k + 1) =~= s@.subrange(i + 2, k as int).push(
                        s@[k as int],
                    ));
                }
                k = k + 1;
            }
            proof {
                assert(s@.subrange(i + 2, s@.len() as int) =~= s@.skip(i + 2));
                assert(res@ =~= s@.take(i as int) + rep@ + s@.skip(i + 2));
                assert(find_from(s@, seq!['%', 's'], 0) == Some(i as int));
                assert(res@ == replace_first(s@, seq!['%', 's'], rep@));
            }
            res
        },
        None => {
            let r = s.to_owned();
            assert(find_from(s@, seq!['%', 's'], 0) is None);
            assert(r@ == s@);
            r
        },
    }
}

/// The value of a decimal digit.
pub open spec fn dec_value(c: char) -> Option<nat> {
    if '0' <= c && c <= '9' {
        Some((c as nat - '0' as nat) as nat)
    } else {
        None
    }
}

/// The number written by the decimal digits `s`, if all of them are
/// digits.
pub open spec fn dec_number(s: Seq<char>) -> Option<nat>
    decreases s.len(),
{
    if s.len() == 0 {
        Some(0)
    } else {
        match (dec_number(s.drop_last()), dec_value(s.last())) {
            (Some(h), Some(d)) => Some(h * 10 + d),
            _ => None,
        }
    }
}

/// What `str::parse::<u64>` accepts: an optional `+`, then at least one
/// decimal digit, with a value that fits in 64 bits.
pub open spec fn parse_dec_u64(s: Seq<char>) -> Option<u64> {
    let digits = if s.len() > 0 && s[0] == '+' {
        s.drop_first()
    } else {
        s
    };
    if digits.len() == 0 {
        None
    } else {
        match dec_number(digits) {
            Some(v) => if v <= u64::MAX {
                Some(v as u64)
            } else {
                None
            },
            None => None,
        }
    }
}

/// A prefix with a non-digit makes the whole invalid.
proof fn lemma_dec_none_stays(s: Seq<char>, n: int)
    requires
        0 <= n <= s.len(),
        dec_number(s.take(n)) is None,
    ensures
        dec_number(s) is None,
    decreases s.len() - n,
{
    if n < s.len() {
        assert(s.take(n + 1).drop_last() =~= s.take(n));
        lemma_dec_none_stays(s, n + 1);
    } else {
        assert(s.take(n) =~= s);
    }
}

/// Digits after a prefix that is already too large keep the number too
/// large, or make it invalid.
proof fn lemma_dec_grows(s: Seq<char>, n: int)
    requires
        0 <= n <= s.len(),
        dec_number(s.take(n)) matches Some(v) && v > u64::MAX,
    ensures
        dec_number(s) matches Some(w) ==> w > u64::MAX,
    decreases s.len() - n,
{
    if n < s.len() {
        let t = s.take(n + 1);
        assert(t.drop_last() =~= s.take(n));
        if dec_number(t) is None {
            lemma_dec_none_stays(s, n + 1);
        } else {
            lemma_dec_grows(s, n + 1);
        }
    } else {
        assert(s.take(n) =~= s);
    }
}

/// Reads a decimal number.
pub fn parse_u64(s: &str) -> (r: Option<u64>)
    ensures
        r == parse_dec_u64(s@),
{
    let cs = chars_of(s);
    let start: usize = if cs.len() > 0 && cs[0] == '+' {
        1
    } else {
        0
    };
    let ghost digits = if s@.len() > 0 && s@[0] == '+' {
        s@.drop_first()
    } else {
        s@
    };
    proof {
        assert(digits =~= s@.subrange(start as int, s@.len() as int));
    }
    if start >= cs.len() {
        return None;
    }
    let mut acc: u64 = 0;
    let mut i: usize = start;
    proof {
        assert(digits.take(0) =~= Seq::<char>::empty());
    }
    while i < cs.len()
        invariant
            start <= i <= cs@.len(),
            cs@ == s@,
            digits == s@.subrange(start as int, s@.len() as int),
            digits.len() > 0,
            digits == (if s@.len() > 0 && s@[0] == '+' {
                s@.drop_first()
            } else {
                s@
            }),
            dec_number(digits.take(i - start)) == Some(acc as nat),
        decreases cs@.len() - i,
    {
        let c = cs[i];
        proof {
            let t = digits.take(i - start + 1);
            assert(t.drop_last() =~= digits.take(i - start));
            assert(t.last() == c);
        }
        if c < '0' || c > '9' {
            proof {
                lemma_dec_none_stays(digits, i - start + 1);
            }
            return None;
        }
        let d = (c as u32 - '0' as u32) as u64;
        match acc.checked_mul(10) {
            Some(m) => match m.checked_add(d) {
                Some(v) => {
                    acc = v;
                },
                None => {
                    proof {
                        lemma_dec_grows(digits, i - start + 1);
                    }
                    return None;
                },
            },
            None => {
                proof {
                    lemma_dec_grows(digits, i - start + 1);
                }
                return None;
            },
        }
        i = i + 1;
    }
    proof {
        assert(digits.take(i - start) =~= digits);
    }
    Some(acc)
}

/// A `KEY: VALUE` line split at its first `: `.
pub open spec fn split_key(line: Seq<char>) -> Option<(Seq<char>, Seq<char>)> {
    match find_from(line, seq![':', ' '], 0) {
        Some(i) => Some((line.take(i), line.skip(i + 2))),
        None => None,
    }
}

/// What the progress display has learned so far: the arguments waiting
/// for the next message, the number of packages, and where the current
/// phase starts on the overall bar.
pub struct ProgressView {
    pub args: Seq<Seq<char>>,
    pub packages: u64,
    pub offset: u64,
}

/// What a line asks of the two progress bars.
pub enum ProgressAction {
    /// Nothing.
    Nothing,
    /// Package validation went one step: the step bar counts `length`
    /// packages and moves one on; the overall bar follows it.
    Validating { length: u64 },
    /// The step bar shows this message.
    StepMessage(String),
    /// The bars move: the overall bar gets a new length if one is given,
    /// and a new position; the step bar a new length and position.
    Progress { total_length: Option<u64>, total_position: u64, length: u64, position: u64 },
    /// The overall bar shows this message.
    TotalMessage(String),
    /// This error is printed.
    Error(String),
}

/// The parts of a `ProgressAction`.
pub enum ActionView {
    Nothing,
    Validating { length: u64 },
    StepMessage(Seq<char>),
    Progress { total_length: Option<u64>, total_position: u64, length: u64, position: u64 },
    TotalMessage(Seq<char>),
    Error(Seq<char>),
}

/// The view of an action.
pub open spec fn action_view(a: ProgressAction) -> ActionView {
    match a {
        ProgressAction::Nothing => ActionView::Nothing,
        ProgressAction::Validating { length } => ActionView::Validating { length },
        ProgressAction::StepMessage(m) => ActionView::StepMessage(m@),
        ProgressAction::Progress { total_length, total_position, length, position } => ActionView::Progress {
            total_length,
            total_position,
            length,
            position,
        },
        ProgressAction::TotalMessage(m) => ActionView::TotalMessage(m@),
        ProgressAction::Error(m) => ActionView::Error(m@),
    }
}

/// A number read from a word, or `0` when it is not one.
pub open spec fn number_or_zero(w: Seq<char>) -> u64 {
    match parse_dec_u64(w) {
        Some(v) => v,
        None => 0,
    }
}

/// `x * y`, wrapping around at 64 bits.
pub open spec fn wrap_mul(x: u64, y: u64) -> u64 {
    vstd::wrapping::u64_specs::wrapping_mul(x, y)
}

/// `x + y`, wrapping around at 64 bits.
pub open spec fn wrap_add(x: u64, y: u64) -> u64 {
    vstd::wrapping::u64_specs::wrapping_add(x, y)
}

/// The state after a `P: PROGRESS SIZE PHASE` line and the action it asks
/// for. A line with fewer than two or more than three words is ignored;
/// a missing phase is empty; words that are not numbers count as `0`.
/// `SIZEDEBS` with some progress sets the number of packages and the
/// overall length (four phases of that many); `EXTRACTPKGS`, `UNPACKREQ`
/// and `CONFREQ` start the second, third and fourth phase; `INSTCORE` is
/// ignored.
pub open spec fn progress_line(st: ProgressView, value: Seq<char>) -> (ProgressView, ActionView) {
    let parts = words(value);
    if parts.len() < 2 || parts.len() > 3 {
        (st, ActionView::Nothing)
    } else {
        let prog = number_or_zero(parts[0]);
        let size = number_or_zero(parts[1]);
        let phase = if parts.len() == 3 {
            parts[2]
        } else {
            Seq::empty()
        };
        if phase == "INSTCORE"@ || (phase == "SIZEDEBS"@ && prog == 0) {
            (st, ActionView::Nothing)
        } else {
            let packages = if phase == "SIZEDEBS"@ {
                size
            } else {
                st.packages
            };
            let offset = if phase == "EXTRACTPKGS"@ {
                st.packages
            } else if phase == "UNPACKREQ"@ {
                wrap_mul(st.packages, 2)
            } else if phase == "CONFREQ"@ {
                wrap_mul(st.packages, 3)
            } else {
                st.offset
            };
            (
                ProgressView { packages, offset, ..st },
                ActionView::Progress {
                    total_length: if phase == "SIZEDEBS"@ {
                        Some(wrap_mul(size, 4))
                    } else {
                        None
                    },
                    total_position: wrap_add(offset, prog),
                    length: size,
                    position: prog,
                },
            )
        }
    }
}

/// The state after a line and the action it asks for. Lines without
/// `: ` are ignored. `I`, `W` and `E` lines count validation steps;
/// `IA`, `WA` and `EA` lines collect arguments; `IF`, `WF` and `EF` lines
/// are messages whose `%s` take the collected arguments in turn; `P`
/// lines move the bars; `PF` lines name the overall step; other lines
/// are errors.
pub open spec fn spec_progress(st: ProgressView, line: Seq<char>) -> (ProgressView, ActionView) {
    match split_key(line) {
        None => (st, ActionView::Nothing),
        Some((key, value)) => if key == "I"@ || key == "W"@ || key == "E"@ {
            if value == "VALIDATING"@ {
                (st, ActionView::Validating { length: st.packages })
            } else {
                (st, ActionView::Nothing)
            }
        } else if key == "IA"@ || key == "WA"@ || key == "EA"@ {
            (ProgressView { args: st.args.push(value), ..st }, ActionView::Nothing)
        } else if key == "IF"@ || key == "WF"@ || key == "EF"@ {
            (ProgressView { args: Seq::empty(), ..st }, ActionView::StepMessage(fill(value, st.args)))
        } else if key == "P"@ {
            progress_line(st, value)
        } else if key == "PF"@ {
            (st, ActionView::TotalMessage(value))
        } else {
            (st, ActionView::Error(value))
        },
    }
}

/// The progress of a `debootstrap` run, read line by line.
pub struct Progress {
    args: Vec<String>,
    packages: u64,
    offset: u64,
}

impl Progress {
    /// What has been learned so far.
    pub closed spec fn view(&self) -> ProgressView {
        ProgressView { args: strings_view(self.args@), packages: self.packages, offset: self.offset }
    }

    /// Nothing learned yet.
    pub fn new() -> (r: Self)
        ensures
            r@ == (ProgressView { args: Seq::empty(), packages: 0, offset: 0 }),
    {
        let r = Progress { args: Vec::new(), packages: 0, offset: 0 };
        proof {
            assert(strings_view(r.args@) =~= Seq::<Seq<char>>::empty());
        }
        r
    }

    /// Takes in one line and says what the bars should do.
    pub fn line(&mut self, line: &str) -> (r: ProgressAction)
        ensures
            (final(self)@, action_view(r)) == spec_progress(old(self)@, line@),
    {
        let cs = chars_of(line);
        let n = line.unicode_len();
        let i = match find_pair(&cs, ':', ' ', 0) {
            Some(i) => i,
            None => {
                return ProgressAction::Nothing;
            },
        };
        let key = line.substring_char(0, i);
        let value = line.substring_char(i + 2, n);
        proof {
            assert(key@ =~= line@.take(i as int));
            assert(value@ =~= line@.skip(i + 2));
        }
        if str_eq(key, "I") || str_eq(key, "W") || str_eq(key, "E") {
            if str_eq(value, "VALIDATING") {
                ProgressAction::Validating { length: self.packages }
            } else {
                ProgressAction::Nothing
            }
        } else if str_eq(key, "IA") || str_eq(key, "WA") || str_eq(key, "EA") {
            let ghost before = strings_view(self.args@);
            self.args.push(value.to_owned());
            proof {
                assert(strings_view(self.args@) =~= before.push(value@));
            }
            ProgressAction::Nothing
        } else if str_eq(key, "IF") || str_eq(key, "WF") || str_eq(key, "EF") {
            let mut output = value.to_owned();
            let mut k: usize = 0;
            proof {
                assert(strings_view(self.args@).take(0) =~= Seq::<Seq<char>>::empty());
            }
            while k < self.args.len()
                invariant
                    k <= self.args@.len(),
                    output@ == fill(value@, strings_view(self.args@).take(k as int)),
                decreases self.args@.len() - k,
            {
                output = replace_marker(output.as_str(), self.args[k].as_str());
                proof {
                    let t = strings_view(self.args@).take(k + 1);
                    assert(t.drop_last() =~= strings_view(self.args@).take(k as int));
                    assert(t.last() == self.args@[k as int]@);
                }
                k = k + 1;
            }
            proof {
                assert(strings_view(self.args@).take(self.args@.len() as int) =~= strings_view(
                    self.args@,
                ));
            }
            self.args = Vec::new();
            proof {
                assert(strings_view(self.args@) =~= Seq::<Seq<char>>::empty());
            }
            ProgressAction::StepMessage(output)
        } else if str_eq(key, "P") {
            self.progress(value)
        } else if str_eq(key, "PF") {
            ProgressAction::TotalMessage(value.to_owned())
        } else {
            ProgressAction::Error(value.to_owned())
        }
    }

    /// Takes in the value of a `P` line.
    fn progress(&mut self, value: &str) -> (r: ProgressAction)
        ensures
            (final(self)@, action_view(r)) == progress_line(old(self)@, value@),
    {
        let parts = split_words(value);
        if parts.len() < 2 || parts.len() > 3 {
            return ProgressAction::Nothing;
        }
        let prog = match parse_u64(parts[0].as_str()) {
            Some(v) => v,
            None => 0,
        };
        let size = match parse_u64(parts[1].as_str()) {
            Some(v) => v,
            None => 0,
        };
        let empty = String::new();
        let phase: &String = if parts.len() == 3 {
            &parts[2]
        } else {
            &empty
        };
        proof {
            assert(parts@.map_values(|w: String| w@)[0] == parts@[0]@);
            assert(parts@.map_values(|w: String| w@)[1] == parts@[1]@);
            if parts@.len() == 3 {
                assert(parts@.map_values(|w: String| w@)[2] == parts@[2]@);
            }
            assert(empty@ =~= Seq::<char>::empty());
        }
        proof {
            reveal_strlit("SIZEDEBS");
            reveal_strlit("EXTRACTPKGS");
            reveal_strlit("UNPACKREQ");
            reveal_strlit("CONFREQ");
        }
        let sizedebs = str_eq(phase.as_str(), "SIZEDEBS");
        if str_eq(phase.as_str(), "INSTCORE") || (sizedebs && prog == 0) {
            return ProgressAction::Nothing;
        }
        if sizedebs {
            self.packages = size;
        }
        if str_eq(phase.as_str(), "EXTRACTPKGS") {
            self.offset = self.packages;
        } else if str_eq(phase.as_str(), "UNPACKREQ") {
            self.offset = self.packages.wrapping_mul(2);
        } else if str_eq(phase.as_str(), "CONFREQ") {
            self.offset = self.packages.wrapping_mul(3);
        }
        let total_length = if sizedebs {
            Some(size.wrapping_mul(4))
        } else {
            None
        };
        let total_position = self.offset.wrapping_add(prog);
        let r = ProgressAction::Progress { total_length, total_position, length: size, position: prog };
        r
    }
}

/// `x * k` does not wrap when it fits.
proof fn lemma_mul_fits(x: u64, k: u64)
    requires
        x * k <= u64::MAX,
    ensures
        wrap_mul(x, k) == x * k,
{
    vstd::arithmetic::div_mod::lemma_small_mod((x as nat * k as nat) as nat, 0x1_0000_0000_0000_0000nat);
}

/// The position on the overall bar after a `P: PROGRESS SIZE PHASE`
/// line, while the packages fit four times over: `EXTRACTPKGS` is in the
/// second quarter, `UNPACKREQ` in the third and `CONFREQ` in the fourth,
/// each at the phase's start plus the progress within it.
pub proof fn lemma_phase_quarters(st: ProgressView, value: Seq<char>)
    requires
        words(value).len() == 3,
        st.packages * 4 <= u64::MAX,
        number_or_zero(words(value)[0]) <= st.packages,
    ensures
        ({
            let phase = words(value)[2];
            let prog = number_or_zero(words(value)[0]);
            let a = progress_line(st, value).1;
            &&& phase == "EXTRACTPKGS"@ ==> (a matches ActionView::Progress { total_position, .. }
                && total_position == st.packages + prog)
            &&& phase == "UNPACKREQ"@ ==> (a matches ActionView::Progress { total_position, .. }
                && total_position == 2 * st.packages + prog)
            &&& phase == "CONFREQ"@ ==> (a matches ActionView::Progress { total_position, .. }
                && total_position == 3 * st.packages + prog)
            &&& (phase == "EXTRACTPKGS"@ || phase == "UNPACKREQ"@ || phase == "CONFREQ"@)
                ==> progress_line(st, value).0.packages == st.packages
        }),
{
    reveal_strlit("EXTRACTPKGS");
    reveal_strlit("UNPACKREQ");
    reveal_strlit("CONFREQ");
    reveal_strlit("INSTCORE");
    reveal_strlit("SIZEDEBS");
    lemma_mul_fits(st.packages, 2);
    lemma_mul_fits(st.packages, 3);
    let prog = number_or_zero(words(value)[0]);
    assert(st.packages + prog <= u64::MAX);
    assert(2 * st.packages + prog <= u64::MAX);
    assert(3 * st.packages + prog <= u64::MAX);
    assert("EXTRACTPKGS"@.len() == 11 && "UNPACKREQ"@.len() == 9 && "CONFREQ"@.len() == 7);
    assert("INSTCORE"@.len() == 8 && "SIZEDEBS"@.len() == 8);
    let phase = words(value)[2];
    if phase == "EXTRACTPKGS"@ || phase == "UNPACKREQ"@ || phase == "CONFREQ"@ {
        assert(phase != "INSTCORE"@ && phase != "SIZEDEBS"@);
    }
    if phase == "UNPACKREQ"@ || phase == "CONFREQ"@ {
        assert(phase != "EXTRACTPKGS"@);
    }
    if phase == "CONFREQ"@ {
        assert(phase != "UNPACKREQ"@);
    }
}

/// Configuration comes after unpacking on the overall bar: a `CONFREQ`
/// line that follows an `UNPACKREQ` line puts the bar at or after where
/// the `UNPACKREQ` line put it, and unpacking after extracting likewise.
pub proof fn lemma_phases_move_forward(st: ProgressView, earlier: Seq<char>, later: Seq<char>)
    requires
        words(earlier).len() == 3,
        words(later).len() == 3,
        (words(earlier)[2] == "EXTRACTPKGS"@ && words(later)[2] == "UNPACKREQ"@) || (words(
            earlier,
        )[2] == "UNPACKREQ"@ && words(later)[2] == "CONFREQ"@),
        st.packages * 4 <= u64::MAX,
        number_or_zero(words(earlier)[0]) <= st.packages,
        number_or_zero(words(later)[0]) <= st.packages,
    ensures
        progress_line(st, earlier).1 matches ActionView::Progress { total_position: p1, .. }
            && progress_line(progress_line(st, earlier).0, later).1 matches ActionView::Progress {
            total_position: p2,
            ..
        } && p1 <= p2,
{
    lemma_phase_quarters(st, earlier);
    let st2 = progress_line(st, earlier).0;
    lemma_phase_quarters(st2, later);
}

} // verus!
