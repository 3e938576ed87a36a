//! Names of built layers: a layer is stored under its name and the hash
//! of everything that went into it, as `NAME-HASH` with the hash in 16
//! upper-case hexadecimal digits.
use vstd::prelude::*;
use vstd::utf8::*;

use crate::error::RaptorError;
use crate::text::{chars_of, push_char, push_str};
use crate::paths::{is_absolute, path_join, path_join_result};

verus! {

/// Number of hexadecimal digits in a layer hash.
pub const HASH_WIDTH: usize = 16;

/// The upper-case hexadecimal digit for `d`.
pub open spec fn hex_digit(d: int) -> char {
    if d < 10 {
        ((d + 48) as u8) as char
    } else {
        ((d - 10 + 65) as u8) as char
    }
}

/// The value of a hexadecimal digit, either case.
pub open spec fn hex_value(c: char) -> Option<int> {
    if '0' <= c && c <= '9' {
        Some(c as int - 48)
    } else if 'a' <= c && c <= 'f' {
        Some(c as int - 97 + 10)
    } else if 'A' <= c && c <= 'F' {
        Some(c as int - 65 + 10)
    } else {
        None
    }
}

/// `v` written with exactly `n` upper-case hexadecimal digits, zero
/// padded (only the low `n` digits when `v` needs more).
pub open spec fn hex_upper(v: nat, n: nat) -> Seq<char>
    decreases n,
{
    if n == 0 {
        Seq::empty()
    } else {
        hex_upper(v / 16, (n - 1) as nat).push(hex_digit((v % 16) as int))
    }
}

/// The number written by the hexadecimal digits `s`, if all of them are
/// digits.
pub open spec fn hex_number(s: Seq<char>) -> Option<nat>
    decreases s.len(),
{
    if s.len() == 0 {
        Some(0)
    } else {
        match (hex_number(s.drop_last()), hex_value(s.last())) {
            (Some(h), Some(d)) => Some((h * 16 + d) as nat),
            _ => None,
        }
    }
}

/// What `u64::from_str_radix(s, 16)` accepts: an optional `+`, then at
/// least one hexadecimal digit, with a value that fits in 64 bits.
pub open spec fn parse_hex_u64(s: Seq<char>) -> Option<u64> {
    let digits = if s.len() > 0 && s[0] == '+' {
        s.drop_first()
    } else {
        s
    };
    if digits.len() == 0 {
        None
    } else {
        match hex_number(digits) {
            Some(v) => if v <= u64::MAX {
                Some(v as u64)
            } else {
                None
            },
            None => None,
        }
    }
}

/// Position of the last `-` in `s`, if any.
pub open spec fn last_dash(s: Seq<char>) -> Option<int>
    decreases s.len(),
{
    if s.len() == 0 {
        None
    } else if s.last() == '-' {
        Some(s.len() - 1)
    } else {
        last_dash(s.drop_last())
    }
}

/// The layer that `LayerInfo::try_from` reads from `s`, or `None` when it
/// fails because there is no `-` or the part after the last `-` is not
/// 16 bytes long; `Some(Err(()))` when that part does not parse as a
/// hexadecimal number.
pub open spec fn spec_parse_layer(s: Seq<char>) -> Option<Result<(Seq<char>, u64), ()>> {
    match last_dash(s) {
        None => None,
        Some(p) => {
            let head = s.subrange(0, p);
            let tail = s.subrange(p + 1, s.len() as int);
            if encode_utf8(tail).len() != 16 {
                None
            } else {
                match parse_hex_u64(tail) {
                    Some(h) => Some(Ok((head, h))),
                    None => Some(Err(())),
                }
            }
        },
    }
}

/// A layer: its name and the hash of its inputs.
#[derive(Debug, Clone)]
pub struct LayerInfo {
    name: String,
    hash: u64,
}

/// The identifier `NAME-HASH` of a layer.
pub open spec fn spec_layer_id(name: Seq<char>, hash: u64) -> Seq<char> {
    name + seq!['-'] + hex_upper(hash as nat, 16)
}

impl LayerInfo {
    /// The name of the layer, as a mathematical string.
    pub closed spec fn spec_name(&self) -> Seq<char> {
        self.name@
    }

    /// The hash of the layer.
    pub closed spec fn spec_hash(&self) -> u64 {
        self.hash
    }

    /// A layer with the given name and hash.
    pub fn new(name: String, hash: u64) -> (r: Self)
        ensures
            r.spec_name() == name@,
            r.spec_hash() == hash,
    {
        LayerInfo { name, hash }
    }

    /// The name of the layer.
    pub fn name(&self) -> (r: &str)
        ensures
            r@ == self.spec_name(),
    {
        self.name.as_str()
    }

    /// The hash of the layer.
    pub fn hash_value(&self) -> (r: u64)
        ensures
            r == self.spec_hash(),
    {
        self.hash
    }

    /// The hash in 16 upper-case hexadecimal digits.
    pub fn hash(&self) -> (r: String)
        ensures
            r@ == hex_upper(self.spec_hash() as nat, 16),
    {
        format_hex16(self.hash)
    }

    /// The identifier `NAME-HASH`.
    pub fn id(&self) -> (r: String)
        ensures
            r@ == spec_layer_id(self.spec_name(), self.spec_hash()),
    {
        let mut res = self.name.clone();
        push_char(&mut res, '-');
        let h = format_hex16(self.hash);
        push_str(&mut res, h.as_str());
        res
    }

    /// Where the layer is built: `layers/build-ID`.
    pub fn work_path(&self) -> (r: String)
        ensures
            r@ == "layers"@ + seq!['/'] + "build-"@ + spec_layer_id(
                self.spec_name(),
                self.spec_hash(),
            ),
    {
        let mut dir = String::new();
        push_str(&mut dir, "build-");
        let id = self.id();
        push_str(&mut dir, id.as_str());
        proof {
            reveal_strlit("layers");
            reveal_strlit("build-");
        }
        path_join("layers", dir.as_str())
    }

    /// Where the finished layer is kept: `layers/ID` (or the identifier
    /// itself, when the name is an absolute path).
    pub fn done_path(&self) -> (r: String)
        ensures
            r@ == path_join_result("layers"@, spec_layer_id(self.spec_name(), self.spec_hash())),
            !is_absolute(self.spec_name()) ==> r@ == "layers"@ + seq!['/'] + spec_layer_id(
                self.spec_name(),
                self.spec_hash(),
            ),
    {
        let id = self.id();
        proof {
            reveal_strlit("layers");
        }
        let r = path_join("layers", id.as_str());
        proof {
            let name = self.spec_name();
            let id = spec_layer_id(name, self.spec_hash());
            assert(id[name.len() as int] == '-');
            if name.len() > 0 {
                assert(id[0] == name[0]);
            }
        }
        r
    }

    /// Reads a layer back from its identifier `NAME-HASH`: the name is
    /// everything before the last `-`, the hash the 16 bytes after it.
    pub fn try_from(value: &str) -> (r: Result<Self, RaptorError>)
        ensures
            match spec_parse_layer(value@) {
                None => r matches Err(RaptorError::LayerCacheParseError),
                Some(Err(())) => r matches Err(RaptorError::ParseIntError),
                Some(Ok((name, hash))) => r matches Ok(l) && l.spec_name() == name
                    && l.spec_hash() == hash,
            },
    {
        let cs = chars_of(value);
        let mut p = cs.len();
        assert(value@.take(value@.len() as int) =~= value@);
        while p > 0 && cs[p - 1] != '-'
            invariant
                p <= cs@.len(),
                cs@ == value@,
                last_dash(value@) == last_dash(value@.take(p as int)),
            decreases p,
        {
            proof {
                assert(value@.take(p as int).drop_last() =~= value@.take(p - 1));
            }
            p = p - 1;
        }
        if p == 0 {
            proof {
                assert(value@.take(0) =~= Seq::<char>::empty());
            }
            return Err(RaptorError::LayerCacheParseError);
        }
        let dash = p - 1;
        proof {
            assert(value@.take(p as int).last() == '-');
            assert(last_dash(value@) == Some(dash as int));
        }
        let mut head = String::new();
        let mut i: usize = 0;
        while i < dash
            invariant
                i <= dash < cs@.len(),
                cs@ == value@,
                head@ == value@.subrange(0, i as int),
            decreases dash - i,
        {
            push_char(&mut head, cs[i]);
            proof {
                assert(value@.subrange(0, i + 1) =~= value@.subrange(0, i as int).push(cs@[i as int]));
            }
            i = i + 1;
        }
        let mut tail = String::new();
        let mut j: usize = p;
        while j < cs.len()
            invariant
                p <= j <= cs@.len(),
                cs@ == value@,
                tail@ == value@.subrange(p as int, j as int),
            decreases cs@.len() - j,
        {
            push_char(&mut tail, cs[j]);
            proof {
                assert(value@.subrange(p as int, j + 1) =~= value@.subrange(p as int, j as int).push(
                    cs@[j as int],
                ));
            }
            j = j + 1;
        }
        if !utf8_len_is(&cs, p, HASH_WIDTH) {
            return Err(RaptorError::LayerCacheParseError);
        }
        proof {
            lemma_encode_len(tail@);
        }
        match parse_hex(&tail) {
            Some(hash) => Ok(LayerInfo::new(head, hash)),
            None => Err(RaptorError::ParseIntError),
        }
    }
}

/// Whether the characters of `cs` from `from` on take exactly `n` bytes
/// in UTF-8.
fn utf8_len_is(cs: &Vec<char>, from: usize, n: usize) -> (r: bool)
    requires
        from <= cs@.len(),
        n <= 16,
    ensures
        r == (encode_utf8(cs@.subrange(from as int, cs@.len() as int)).len() == n),
{
    let mut j = cs.len();
    let mut acc: usize = 0;
    proof {
        assert(cs@.subrange(j as int, cs@.len() as int) =~= Seq::<char>::empty());
    }
    while j > from
        invariant
            from <= j <= cs@.len(),
            n <= 16,
            acc <= 16,
            acc == encode_utf8(cs@.subrange(j as int, cs@.len() as int)).len(),
        decreases j,
    {
        let c = cs[j - 1];
        let w: usize = if (c as u32) <= 0x7F {
            1
        } else if (c as u32) <= 0x7FF {
            2
        } else if (c as u32) <= 0xFFFF {
            3
        } else {
            4
        };
        proof {
            let sub = cs@.subrange(j - 1, cs@.len() as int);
            assert(sub.drop_first() =~= cs@.subrange(j as int, cs@.len() as int));
            assert(sub[0] == c);
            vstd::utf8::char_is_scalar(c);
            assert(encode_scalar(c as u32).len() == w);
        }
        if acc + w > 16 {
            proof {
                lemma_encode_suffix_grows(cs@, from as int, j - 1);
            }
            return false;
        }
        acc = acc + w;
        j = j - 1;
    }
    acc == n
}

/// A longer suffix never has a shorter encoding.
proof fn lemma_encode_suffix_grows(s: Seq<char>, a: int, b: int)
    requires
        0 <= a <= b <= s.len(),
    ensures
        encode_utf8(s.subrange(a, s.len() as int)).len() >= encode_utf8(
            s.subrange(b, s.len() as int),
        ).len(),
    decreases b - a,
{
    if a < b {
        lemma_encode_suffix_grows(s, a + 1, b);
        let sub = s.subrange(a, s.len() as int);
        assert(sub.drop_first() =~= s.subrange(a + 1, s.len() as int));
    }
}

/// `v` in 16 upper-case hexadecimal digits.
fn format_hex16(v: u64) -> (r: String)
    ensures
        r@ == hex_upper(v as nat, 16),
{
    let mut digits: Vec<char> = Vec::new();
    let mut x = v;
    let mut k: usize = 0;
    assert(pow16(0) == 1);
    while k < 16
        invariant
            k <= 16,
            digits@.len() == k,
            forall|t: int|
                0 <= t < k ==> #[trigger] digits@[t] == hex_upper(v as nat, 16)[15 - t],
            x as nat == v as nat / pow16(k as nat),
        decreases 16 - k,
    {
        let d = x % 16;
        let c = if d < 10 {
            ((d as u8) + 48) as char
        } else {
            ((d as u8) - 10 + 65) as char
        };
        proof {
            lemma_hex_upper_digit(v as nat, k as nat);
            lemma_pow16_step(v as nat, k as nat);
        }
        digits.push(c);
        x = x / 16;
        k = k + 1;
    }
    let mut res = String::new();
    let mut i: usize = 16;
    while i > 0
        invariant
            i <= 16,
            digits@.len() == 16,
            forall|t: int| 0 <= t < 16 ==> #[trigger] digits@[t] == hex_upper(v as nat, 16)[15 - t],
            res@ == hex_upper(v as nat, 16).subrange(0, 16 - i),
        decreases i,
    {
        push_char(&mut res, digits[i - 1]);
        proof {
            lemma_hex_upper_len(v as nat, 16);
            assert(hex_upper(v as nat, 16).subrange(0, 16 - i + 1) =~= hex_upper(
                v as nat,
                16,
            ).subrange(0, 16 - i).push(hex_upper(v as nat, 16)[16 - i]));
        }
        i = i - 1;
    }
    proof {
        lemma_hex_upper_len(v as nat, 16);
        assert(hex_upper(v as nat, 16).subrange(0, 16) =~= hex_upper(v as nat, 16));
    }
    res
}

/// `16` to the power `k`.
pub open spec fn pow16(k: nat) -> nat
    decreases k,
{
    if k == 0 {
        1
    } else {
        16 * pow16((k - 1) as nat)
    }
}

proof fn lemma_hex_upper_len(v: nat, n: nat)
    ensures
        hex_upper(v, n).len() == n,
    decreases n,
{
    if n > 0 {
        lemma_hex_upper_len(v / 16, (n - 1) as nat);
    }
}

proof fn lemma_pow16_pos(k: nat)
    ensures
        pow16(k) >= 1,
    decreases k,
{
    if k > 0 {
        lemma_pow16_pos((k - 1) as nat);
    }
}

proof fn lemma_pow16_step(v: nat, k: nat)
    ensures
        v / pow16(k) / 16 == v / pow16(k + 1),
{
    lemma_pow16_pos(k);
    assert(pow16(k + 1) == 16 * pow16(k));
    vstd::arithmetic::div_mod::lemma_div_denominator(v as int, pow16(k) as int, 16);
    vstd::arithmetic::mul::lemma_mul_is_commutative(pow16(k) as int, 16);
}

/// The digit at position `15 - k` of `hex_upper(v, 16)` is the `k`-th
/// lowest hexadecimal digit of `v`.
proof fn lemma_hex_upper_digit(v: nat, k: nat)
    requires
        k < 16,
    ensures
        hex_upper(v, 16)[15 - k] == hex_digit(((v / pow16(k)) % 16) as int),
{
    lemma_hex_upper_digit_gen(v, 16, k);
}

proof fn lemma_hex_upper_digit_gen(v: nat, n: nat, k: nat)
    requires
        k < n,
    ensures
        hex_upper(v, n)[n - 1 - k] == hex_digit(((v / pow16(k)) % 16) as int),
    decreases n,
{
    lemma_hex_upper_len(v / 16, (n - 1) as nat);
    if k == 0 {
        assert(pow16(0) == 1);
        assert(v / pow16(0) == v);
    } else {
        lemma_hex_upper_digit_gen(v / 16, (n - 1) as nat, (k - 1) as nat);
        lemma_pow16_pos((k - 1) as nat);
        assert(pow16(k) == 16 * pow16((k - 1) as nat));
        vstd::arithmetic::div_mod::lemma_div_denominator(v as int, 16, pow16((k - 1) as nat) as int);
    }
}

/// Reads a hexadecimal number as `u64::from_str_radix(s, 16)` does, for a
/// string of at most 16 characters.
fn parse_hex(s: &String) -> (r: Option<u64>)
    requires
        s@.len() <= 16,
    ensures
        r == parse_hex_u64(s@),
{
    let cs = chars_of(s.as_str());
    let start: usize = if cs.len() > 0 && cs[0] == '+' {
        1
    } else {
        0
    };
    let ghost digits = if s@.len() > 0 && s@[0] == '+' {
        s@.drop_first()
    } else {
        s@
    };
    proof {
        assert(digits =~= s@.subrange(start as int, s@.len() as int));
    }
    if start >= cs.len() {
        return None;
    }
    let mut acc: u64 = 0;
    let mut i: usize = start;
    while i < cs.len()
        invariant
            start <= i <= cs@.len(),
            cs@.len() <= 16,
            cs@ == s@,
            digits == s@.subrange(start as int, s@.len() as int),
            digits == (if s@.len() > 0 && s@[0] == '+' {
                s@.drop_first()
            } else {
                s@
            }),
            start < cs@.len(),
            hex_number(s@.subrange(start as int, i as int)) == Some(acc as nat),
            acc < pow16((i - start) as nat),
        decreases cs@.len() - i,
    {
        let c = cs[i];
        let d: u64 = if '0' <= c && c <= '9' {
            (c as u64) - 48
        } else if 'a' <= c && c <= 'f' {
            (c as u64) - 97 + 10
        } else if 'A' <= c && c <= 'F' {
            (c as u64) - 65 + 10
        } else {
            proof {
                let dg = s@.subrange(start as int, s@.len() as int);
                assert(dg[i - start] == c);
                assert(hex_value(c) is None);
                lemma_hex_number_none(dg, (i - start) as int);
                assert(dg == digits);
                assert(hex_number(digits) is None);
            }
            return None;
        };
        proof {
            let pre = s@.subrange(start as int, i as int);
            let next = s@.subrange(start as int, i + 1);
            assert(next.drop_last() =~= pre);
            assert(next.last() == c);
            lemma_pow16_le((i - start) as nat);
            assert(pow16((i + 1 - start) as nat) == 16 * pow16((i - start) as nat));
        }
        acc = acc * 16 + d;
        i = i + 1;
    }
    proof {
        assert(s@.subrange(start as int, s@.len() as int) == digits);
        lemma_pow16_bound((cs@.len() - start) as nat);
    }
    Some(acc)
}

proof fn lemma_pow16_le(k: nat)
    requires
        k <= 15,
    ensures
        pow16(k) <= 0x1000_0000_0000_0000,
    decreases 15 - k,
{
    reveal_with_fuel(pow16, 16);
    if k < 15 {
        lemma_pow16_le(k + 1);
        assert(pow16(k + 1) == 16 * pow16(k));
    }
}

/// A UTF-8 encoding has at least one byte per character.
proof fn lemma_encode_len(s: Seq<char>)
    ensures
        encode_utf8(s).len() >= s.len(),
    decreases s.len(),
{
    if s.len() > 0 {
        lemma_encode_len(s.drop_first());
        assert(encode_scalar(s[0] as u32).len() >= 1);
    }
}

proof fn lemma_pow16_bound(k: nat)
    requires
        k <= 16,
    ensures
        pow16(k) <= pow16(16),
        pow16(16) == 0x1_0000_0000_0000_0000,
    decreases 16 - k,
{
    reveal_with_fuel(pow16, 17);
    if k < 16 {
        lemma_pow16_bound(k + 1);
    }
}

/// A non-digit at position `k` makes the whole string fail to parse.
proof fn lemma_hex_number_none(s: Seq<char>, k: int)
    requires
        0 <= k < s.len(),
        hex_value(s[k]) is None,
    ensures
        hex_number(s) is None,
    decreases s.len(),
{
    if k < s.len() - 1 {
        lemma_hex_number_none(s.drop_last(), k);
    }
}

/// A layer is read back unchanged from its identifier: for every name and
/// hash, parsing `NAME-HASH` gives that name and that hash.
pub proof fn lemma_layer_id_roundtrip(name: Seq<char>, hash: u64)
    ensures
        spec_parse_layer(spec_layer_id(name, hash)) == Some(Ok::<(Seq<char>, u64), ()>((name, hash))),
{
    let hex = hex_upper(hash as nat, 16);
    let id = spec_layer_id(name, hash);
    lemma_hex_upper_len(hash as nat, 16);
    lemma_hex_upper_chars(hash as nat, 16);
    lemma_last_dash_suffix(name, hex);
    assert(id.subrange(0, name.len() as int) =~= name);
    assert(id.subrange(name.len() as int + 1, id.len() as int) =~= hex);
    assert(is_ascii_chars(hex));
    is_ascii_chars_encode_utf8(hex);
    lemma_hex_number_upper(hash as nat, 16);
    lemma_pow16_bound(16);
    assert(hash as nat % pow16(16) == hash as nat);
    assert(hex[0] != '+');
}

/// Every digit that `hex_upper` writes is an ASCII hexadecimal digit,
/// never `-` or `+`.
proof fn lemma_hex_upper_chars(v: nat, n: nat)
    ensures
        forall|i: int|
            0 <= i < hex_upper(v, n).len() ==> {
                let c = #[trigger] hex_upper(v, n)[i];
                &&& hex_value(c) is Some
                &&& c != '-'
                &&& c != '+'
                &&& '\0' <= c <= '\u{7f}'
            },
    decreases n,
{
    if n > 0 {
        lemma_hex_upper_chars(v / 16, (n - 1) as nat);
        lemma_hex_digit_value((v % 16) as int);
        let prev = hex_upper(v / 16, (n - 1) as nat);
        assert forall|i: int| 0 <= i < hex_upper(v, n).len() implies {
            let c = #[trigger] hex_upper(v, n)[i];
            &&& hex_value(c) is Some
            &&& c != '-'
            &&& c != '+'
            &&& '\0' <= c <= '\u{7f}'
        } by {
            if i < prev.len() {
                assert(hex_upper(v, n)[i] == prev[i]);
            }
        }
    }
}

/// `hex_value` reads back the digit that `hex_digit` writes.
proof fn lemma_hex_digit_value(d: int)
    requires
        0 <= d < 16,
    ensures
        hex_value(hex_digit(d)) == Some(d),
        hex_digit(d) != '-',
        hex_digit(d) != '+',
        '\0' <= hex_digit(d) <= '\u{7f}',
{
    if d < 10 {
        assert(((d + 48) as u8) as char as int == d + 48);
    } else {
        assert(((d - 10 + 65) as u8) as char as int == d + 55);
    }
}

/// The digits of `hex_upper(v, n)` read back as `v` modulo `16^n`.
proof fn lemma_hex_number_upper(v: nat, n: nat)
    ensures
        hex_number(hex_upper(v, n)) == Some(v % pow16(n)),
    decreases n,
{
    lemma_pow16_pos(n);
    if n == 0 {
        assert(hex_upper(v, n) =~= Seq::<char>::empty());
    } else {
        lemma_hex_number_upper(v / 16, (n - 1) as nat);
        lemma_hex_digit_value((v % 16) as int);
        let s = hex_upper(v, n);
        assert(s.drop_last() =~= hex_upper(v / 16, (n - 1) as nat));
        lemma_pow16_pos((n - 1) as nat);
        let p = pow16((n - 1) as nat);
        assert(pow16(n) == 16 * p);
        lemma_mod_split(v, p);
    }
}

/// `v % (16 p) == (v / 16 % p) * 16 + v % 16`.
proof fn lemma_mod_split(v: nat, p: nat)
    requires
        p >= 1,
    ensures
        v % (16 * p) == ((v / 16) % p) * 16 + v % 16,
{
    vstd::arithmetic::div_mod::lemma_breakdown(v as int, 16, p as int);
    vstd::arithmetic::mul::lemma_mul_is_commutative(16, p as int);
}

/// The last `-` of `a-t` is the one after `a` when `t` holds none.
proof fn lemma_last_dash_suffix(a: Seq<char>, t: Seq<char>)
    requires
        forall|i: int| 0 <= i < t.len() ==> #[trigger] t[i] != '-',
    ensures
        last_dash(a + seq!['-'] + t) == Some(a.len() as int),
    decreases t.len(),
{
    let s = a + seq!['-'] + t;
    if t.len() == 0 {
        assert(s.last() == '-');
    } else {
        lemma_last_dash_suffix(a, t.drop_last());
        assert(s.drop_last() =~= a + seq!['-'] + t.drop_last());
        assert(s.last() == t.last());
    }
}

/// What to do for a layer of a build.
#[derive(Debug, PartialEq, Eq, Structural)]
pub enum LayerStep {
    /// Its finished directory exists: it is reused as it is.
    Reuse,
    /// It would be built, but this is a dry run: show its statements.
    Simulate,
    /// Build it in its work directory, then move that into place.
    Build,
}

/// What to do for a layer, given whether its finished directory exists
/// and whether this is a dry run: a finished layer is never built again.
pub fn layer_step(done_exists: bool, dry_run: bool) -> (r: LayerStep)
    ensures
        done_exists ==> r == LayerStep::Reuse,
        !done_exists && dry_run ==> r == LayerStep::Simulate,
        !done_exists && !dry_run ==> r == LayerStep::Build,
{
    if done_exists {
        LayerStep::Reuse
    } else if dry_run {
        LayerStep::Simulate
    } else {
        LayerStep::Build
    }
}

} // verus!
