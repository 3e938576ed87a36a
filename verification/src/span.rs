//! Byte-offset arithmetic on source text, used to point error reports at
//! the right place in a file.
use core::ops::Range;
use vstd::prelude::*;
use vstd::string::*;
use vstd::utf8::*;

verus! {

/// Index of the first occurrence of `b` in `s` at or after `from`, or
/// `s.len()` when there is none.
pub open spec fn find_byte(s: Seq<u8>, b: u8, from: int) -> int
    decreases s.len() - from,
{
    if from < 0 || from >= s.len() {
        s.len() as int
    } else if s[from] == b {
        from
    } else {
        find_byte(s, b, from + 1)
    }
}

/// Byte length of the line that starts at `start` and whose terminating
/// newline (or the end of the text) is at `nl`. A carriage return right
/// before a newline belongs to the line ending, not to the line.
pub open spec fn line_len(s: Seq<u8>, start: int, nl: int) -> int {
    if nl < s.len() && nl > start && s[nl - 1] == 0x0du8 {
        nl - 1 - start
    } else {
        nl - start
    }
}

/// Byte lengths of the lines of `s` from byte `pos` on, as `str::lines`
/// yields them: split at `\n`, a `\r` before the `\n` dropped, and no empty
/// line after a final newline.
pub open spec fn lines_from(s: Seq<u8>, pos: int) -> Seq<int>
    decreases s.len() + 1 - pos,
{
    if pos < 0 || pos >= s.len() {
        Seq::empty()
    } else {
        let nl = find_byte(s, 0x0au8, pos);
        proof {
            lemma_find_byte_bounds(s, 0x0au8, pos);
        }
        seq![line_len(s, pos, nl)] + lines_from(s, nl + 1)
    }
}

/// Byte lengths of all the lines of `s`.
pub open spec fn line_lens(s: Seq<u8>) -> Seq<int> {
    lines_from(s, 0)
}

/// Offset reached after the first `k` lines, counting one separator byte
/// after each line.
pub open spec fn line_offset(lens: Seq<int>, k: int) -> int
    decreases k,
{
    if k <= 0 || lens.len() == 0 {
        0
    } else if k > lens.len() {
        line_offset(lens, lens.len() as int)
    } else {
        line_offset(lens, k - 1) + lens[k - 1] + 1
    }
}

/// The span of line number `line` (1-based) as `line_number_to_span`
/// reports it: from the offset of the line before it to its own end
/// offset, with `line` clamped to the number of lines.
pub open spec fn line_span(lens: Seq<int>, line: int) -> (int, int) {
    let k = if line < lens.len() { line } else { lens.len() as int };
    if k <= 0 {
        (0, 0)
    } else {
        (line_offset(lens, k - 1), line_offset(lens, k))
    }
}

/// The range from `idx` to the end of the first line (offsets counted
/// with one separator byte per line) that ends after `idx`; past the last
/// line, the range up to the final offset if that is not before `idx`.
pub open spec fn remainder_from(lens: Seq<int>, size: int, idx: int) -> Option<(int, int)>
    decreases lens.len(),
{
    if lens.len() == 0 {
        if size >= idx {
            Some((idx, size))
        } else {
            None
        }
    } else if size + lens[0] > idx {
        Some((idx, size + lens[0]))
    } else {
        remainder_from(lens.drop_first(), size + lens[0] + 1, idx)
    }
}

/// Position of the last newline strictly before `a`, if any.
pub open spec fn last_nl_before(s: Seq<u8>, a: int) -> Option<int>
    decreases a,
{
    if a <= 0 {
        None
    } else if s[a - 1] == 0x0au8 {
        Some(a - 1)
    } else {
        last_nl_before(s, a - 1)
    }
}

/// Start of the context window: move from `a` back to the previous
/// newline, at most `k` times.
pub open spec fn context_back(s: Seq<u8>, a: int, k: nat) -> int
    decreases k,
{
    if k == 0 {
        a
    } else {
        match last_nl_before(s, a) {
            Some(m) => context_back(s, m, (k - 1) as nat),
            None => a,
        }
    }
}

/// End of the context window: move from `b` past the next newline, at
/// most `k` times.
pub open spec fn context_forward(s: Seq<u8>, b: int, k: nat) -> int
    decreases k,
{
    if k == 0 {
        b
    } else {
        let m = find_byte(s, 0x0au8, b);
        if m >= s.len() {
            b
        } else {
            context_forward(s, m + 1, (k - 1) as nat)
        }
    }
}

pub proof fn lemma_find_byte_bounds(s: Seq<u8>, b: u8, from: int)
    requires
        0 <= from,
    ensures
        from <= find_byte(s, b, from) <= s.len() || (from > s.len() && find_byte(s, b, from)
            == s.len()),
        find_byte(s, b, from) < s.len() ==> s[find_byte(s, b, from)] == b,
        forall|j: int| from <= j < find_byte(s, b, from) ==> s[j] != b,
    decreases s.len() - from,
{
    if from < s.len() && s[from] != b {
        lemma_find_byte_bounds(s, b, from + 1);
    }
}

proof fn lemma_line_offset_step(lens: Seq<int>, k: int)
    requires
        0 <= k < lens.len(),
    ensures
        line_offset(lens, k + 1) == line_offset(lens, k) + lens[k] + 1,
{
}

proof fn lemma_lines_bounded(s: Seq<u8>, pos: int)
    requires
        0 <= pos,
    ensures
        forall|j: int| 0 <= j < lines_from(s, pos).len() ==> lines_from(s, pos)[j] >= 0,
        pos <= s.len() + 1 ==> line_offset(lines_from(s, pos), lines_from(s, pos).len() as int)
            <= s.len() - pos + 1,
    decreases s.len() + 1 - pos,
{
    if pos < s.len() {
        let nl = find_byte(s, 0x0au8, pos);
        lemma_find_byte_bounds(s, 0x0au8, pos);
        lemma_lines_bounded(s, nl + 1);
        let rest = lines_from(s, nl + 1);
        let all = lines_from(s, pos);
        assert(all == seq![line_len(s, pos, nl)] + rest);
        lemma_offset_cons(line_len(s, pos, nl), rest, rest.len() as int);
    }
}

proof fn lemma_offset_cons(x: int, rest: Seq<int>, k: int)
    requires
        0 <= k <= rest.len(),
    ensures
        line_offset(seq![x] + rest, k + 1) == x + 1 + line_offset(rest, k),
    decreases k,
{
    let all = seq![x] + rest;
    assert(all.len() == rest.len() + 1);
    if k > 0 {
        lemma_offset_cons(x, rest, k - 1);
        assert(all[k] == rest[k - 1]);
        assert(line_offset(all, k + 1) == line_offset(all, k) + all[k] + 1);
        assert(line_offset(rest, k) == line_offset(rest, k - 1) + rest[k - 1] + 1);
    } else {
        assert(all[0] == x);
        assert(line_offset(all, 1) == line_offset(all, 0) + all[0] + 1);
        assert(line_offset(all, 0) == 0);
    }
}

proof fn lemma_offset_monotone(lens: Seq<int>, i: int, j: int)
    requires
        0 <= i <= j <= lens.len(),
        forall|t: int| 0 <= t < lens.len() ==> lens[t] >= 0,
    ensures
        line_offset(lens, i) <= line_offset(lens, j),
    decreases j - i,
{
    if i < j {
        lemma_offset_monotone(lens, i, j - 1);
    }
}

/// Scans the line that starts at `pos`; returns its byte length (without
/// the line ending) and the position where the next line starts.
fn scan_line(s: &[u8], pos: usize) -> (r: (usize, usize))
    requires
        pos < s@.len(),
        s@.len() < usize::MAX,
    ensures
        r.1 == find_byte(s@, 0x0au8, pos as int) + 1,
        r.0 == line_len(s@, pos as int, find_byte(s@, 0x0au8, pos as int)),
        pos < r.1 <= s@.len() + 1,
{
    let mut i = pos;
    while i < s.len() && s[i] != 0x0au8
        invariant
            pos <= i <= s@.len(),
            find_byte(s@, 0x0au8, pos as int) == find_byte(s@, 0x0au8, i as int),
        decreases s@.len() - i,
    {
        i = i + 1;
    }
    proof {
        lemma_find_byte_bounds(s@, 0x0au8, pos as int);
    }
    let len = if i < s.len() && i > pos && s[i - 1] == 0x0du8 {
        i - 1 - pos
    } else {
        i - pos
    };
    (len, i + 1)
}

/// Byte range that `line_number_to_span` assigns to line number `line`
/// (1-based): it runs from the end offset of the line before to the end
/// offset of this line, offsets counting one separator byte per line.
/// Past the last line, the span of the last line is returned.
pub fn line_number_to_span(text: &str, line: usize) -> (r: Range<usize>)
    requires
        text.spec_bytes().len() < usize::MAX,
    ensures
        r.start == line_span(line_lens(text.spec_bytes()), line as int).0,
        r.end == line_span(line_lens(text.spec_bytes()), line as int).1,
{
    let s = text.as_bytes();
    let ghost lens = line_lens(s@);
    let mut pos: usize = 0;
    let mut k: usize = 0;
    let mut a: usize = 0;
    let mut b: usize = 0;
    proof {
        lemma_lines_bounded(s@, 0);
        assert(lens.subrange(0, lens.len() as int) =~= lens);
    }
    while k < line && pos < s.len()
        invariant
            s@ == text.spec_bytes(),
            s@.len() < usize::MAX,
            lens == line_lens(s@),
            k <= line,
            pos <= s@.len() + 1,
            k <= lens.len(),
            lines_from(s@, pos as int) == lens.subrange(k as int, lens.len() as int),
            forall|t: int| 0 <= t < lens.len() ==> lens[t] >= 0,
            line_offset(lens, lens.len() as int) <= s@.len() + 1,
            b == line_offset(lens, k as int),
            k == 0 ==> a == 0,
            k > 0 ==> a == line_offset(lens, k - 1),
        decreases s@.len() + 1 - pos,
    {
        let (len, next) = scan_line(s, pos);
        proof {
            let nl = find_byte(s@, 0x0au8, pos as int);
            assert(lines_from(s@, pos as int) == seq![line_len(s@, pos as int, nl)] + lines_from(
                s@,
                nl + 1,
            ));
            let sub = lines_from(s@, pos as int);
            assert(sub[0] == len);
            assert(sub.len() > 0);
            assert(k < lens.len());
            assert(lens[k as int] == sub[0]);
            assert(lines_from(s@, next as int) =~= sub.drop_first());
            assert(sub.drop_first() =~= lens.subrange(k + 1, lens.len() as int));
            lemma_line_offset_step(lens, k as int);
            lemma_offset_monotone(lens, k + 1, lens.len() as int);
        }
        a = b;
        b = b + len + 1;
        k = k + 1;
        pos = next;
    }
    proof {
        if pos >= s@.len() {
            assert(lines_from(s@, pos as int).len() == 0);
            assert(k == lens.len());
        }
    }
    a..b
}

/// For a byte index `idx`, the range from `idx` to the end of the line
/// that holds it, lines taken as `str::lines` yields them and offsets
/// counting one separator byte per line; `None` when `idx` lies beyond
/// the text.
pub fn index_to_line_remainder(text: &str, idx: usize) -> (r: Option<Range<usize>>)
    requires
        text.spec_bytes().len() < usize::MAX,
    ensures
        match remainder_from(line_lens(text.spec_bytes()), 0, idx as int) {
            Some((x, y)) => r matches Some(rr) && rr.start == x && rr.end == y,
            None => r is None,
        },
{
    let s = text.as_bytes();
    let ghost lens = line_lens(s@);
    let mut pos: usize = 0;
    let mut size: usize = 0;
    let ghost mut k: int = 0;
    proof {
        lemma_lines_bounded(s@, 0);
        assert(lens.subrange(0, lens.len() as int) =~= lens);
    }
    while pos < s.len()
        invariant
            s@ == text.spec_bytes(),
            s@.len() < usize::MAX,
            lens == line_lens(s@),
            pos <= s@.len() + 1,
            0 <= k <= lens.len(),
            lines_from(s@, pos as int) == lens.subrange(k, lens.len() as int),
            forall|t: int| 0 <= t < lens.len() ==> lens[t] >= 0,
            line_offset(lens, lens.len() as int) <= s@.len() + 1,
            size == line_offset(lens, k),
            remainder_from(lens, 0, idx as int) == remainder_from(
                lens.subrange(k, lens.len() as int),
                size as int,
                idx as int,
            ),
        decreases s@.len() + 1 - pos,
    {
        let (len, next) = scan_line(s, pos);
        proof {
            let nl = find_byte(s@, 0x0au8, pos as int);
            assert(lines_from(s@, pos as int) == seq![line_len(s@, pos as int, nl)] + lines_from(
                s@,
                nl + 1,
            ));
            let sub = lines_from(s@, pos as int);
            assert(sub[0] == len);
            assert(sub.len() > 0);
            assert(k < lens.len());
            assert(lens[k] == sub[0]);
            assert(lines_from(s@, next as int) =~= sub.drop_first());
            assert(sub.drop_first() =~= lens.subrange(k + 1, lens.len() as int));
            lemma_line_offset_step(lens, k);
            lemma_offset_monotone(lens, k + 1, lens.len() as int);
            assert(lens.subrange(k, lens.len() as int).drop_first() == lens.subrange(
                k + 1,
                lens.len() as int,
            ));
        }
        let line_end = size + len;
        if line_end > idx {
            return Some(idx..line_end);
        }
        size = line_end + 1;
        pos = next;
        proof {
            k = k + 1;
        }
    }
    proof {
        assert(lines_from(s@, pos as int).len() == 0);
        assert(lens.subrange(k, lens.len() as int).len() == 0);
    }
    if size >= idx {
        return Some(idx..size);
    }
    None
}

proof fn lemma_last_nl_bounds(s: Seq<u8>, a: int)
    requires
        0 <= a <= s.len(),
    ensures
        last_nl_before(s, a) matches Some(m) ==> 0 <= m < a && s[m] == 0x0au8,
        last_nl_before(s, a) is None ==> forall|j: int| 0 <= j < a ==> s[j] != 0x0au8,
        last_nl_before(s, a) matches Some(m) ==> forall|j: int| m < j < a ==> s[j] != 0x0au8,
    decreases a,
{
    if a > 0 && s[a - 1] != 0x0au8 {
        lemma_last_nl_bounds(s, a - 1);
    }
}

/// Widens `range` to show `lines` lines of context on each side: the
/// start moves back to a newline up to `lines` times, the end moves past
/// a newline up to `lines` times.
pub fn context_lines(src: &str, range: Range<usize>, lines: usize) -> (r: Range<usize>)
    requires
        range.start <= src.spec_bytes().len(),
        range.end <= src.spec_bytes().len(),
        is_char_boundary(src.spec_bytes(), range.start as int),
        is_char_boundary(src.spec_bytes(), range.end as int),
    ensures
        r.start == context_back(src.spec_bytes(), range.start as int, lines as nat),
        r.end == context_forward(src.spec_bytes(), range.end as int, lines as nat),
{
    let s = src.as_bytes();
    let mut a = range.start;
    let mut i: usize = 0;
    let mut done = false;
    while i < lines && !done
        invariant
            s@ == src.spec_bytes(),
            a <= s@.len(),
            i <= lines,
            !done ==> context_back(s@, range.start as int, lines as nat) == context_back(
                s@,
                a as int,
                (lines - i) as nat,
            ),
            done ==> context_back(s@, range.start as int, lines as nat) == a,
        decreases (lines - i) * 2 + (if done { 0int } else { 1int }),
    {
        let mut j = a;
        while j > 0 && s[j - 1] != 0x0au8
            invariant
                j <= a <= s@.len(),
                last_nl_before(s@, a as int) == last_nl_before(s@, j as int),
            decreases j,
        {
            j = j - 1;
        }
        if j == 0 {
            done = true;
        } else {
            a = j - 1;
            i = i + 1;
        }
    }
    let mut b = range.end;
    let mut i: usize = 0;
    let mut done = false;
    while i < lines && !done
        invariant
            s@ == src.spec_bytes(),
            b <= s@.len(),
            i <= lines,
            !done ==> context_forward(s@, range.end as int, lines as nat) == context_forward(
                s@,
                b as int,
                (lines - i) as nat,
            ),
            done ==> context_forward(s@, range.end as int, lines as nat) == b,
        decreases (lines - i) * 2 + (if done { 0int } else { 1int }),
    {
        let mut j = b;
        while j < s.len() && s[j] != 0x0au8
            invariant
                b <= j <= s@.len(),
                find_byte(s@, 0x0au8, b as int) == find_byte(s@, 0x0au8, j as int),
            decreases s@.len() - j,
        {
            j = j + 1;
        }
        if j >= s.len() {
            done = true;
        } else {
            b = j + 1;
            i = i + 1;
        }
    }
    a..b
}

/// Moving back over lines stays between the start of the text and `a`.
proof fn lemma_context_back_bounds(s: Seq<u8>, a: int, k: nat)
    requires
        0 <= a <= s.len(),
    ensures
        0 <= context_back(s, a, k) <= a,
    decreases k,
{
    if k > 0 {
        lemma_last_nl_bounds(s, a);
        if let Some(m) = last_nl_before(s, a) {
            lemma_context_back_bounds(s, m, (k - 1) as nat);
        }
    }
}

/// Moving forward over lines stays between `b` and the end of the text.
proof fn lemma_context_forward_bounds(s: Seq<u8>, b: int, k: nat)
    requires
        0 <= b <= s.len(),
    ensures
        b <= context_forward(s, b, k) <= s.len(),
    decreases k,
{
    if k > 0 {
        lemma_find_byte_bounds(s, 0x0au8, b);
        let m = find_byte(s, 0x0au8, b);
        if m < s.len() {
            lemma_context_forward_bounds(s, m + 1, (k - 1) as nat);
        }
    }
}

/// The context around a range holds the range and stays inside the
/// text: it starts no later and ends no earlier than the range.
pub proof fn lemma_context_contains(s: Seq<u8>, a: int, b: int, k: nat)
    requires
        0 <= a <= s.len(),
        0 <= b <= s.len(),
    ensures
        0 <= context_back(s, a, k) <= a,
        b <= context_forward(s, b, k) <= s.len(),
{
    lemma_context_back_bounds(s, a, k);
    lemma_context_forward_bounds(s, b, k);
}

} // verus!
