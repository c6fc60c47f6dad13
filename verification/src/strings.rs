//! Character-level string model shared by the whole library.
//!
//! Strings are reasoned about as `Seq<char>` (the view of `str`/`String`).
//! Executable helpers work on `Vec<char>` and convert at the edges.

use vstd::prelude::*;

verus! {

// ---------------------------------------------------------------------------
// Specification helpers
// ---------------------------------------------------------------------------

/// Unicode `White_Space` property (the set `char::is_whitespace` tests).
pub open spec fn is_ws(c: char) -> bool {
    let u = c as u32;
    ||| (0x09 <= u && u <= 0x0d)
    ||| u == 0x20
    ||| u == 0x85
    ||| u == 0xa0
    ||| u == 0x1680
    ||| (0x2000 <= u && u <= 0x200a)
    ||| u == 0x2028
    ||| u == 0x2029
    ||| u == 0x202f
    ||| u == 0x205f
    ||| u == 0x3000
}

/// Number of bytes of the UTF-8 encoding of `c`.
pub open spec fn utf8_width(c: char) -> nat {
    let u = c as u32;
    if u < 0x80 {
        1
    } else if u < 0x800 {
        2
    } else if u < 0x10000 {
        3
    } else {
        4
    }
}

/// Number of bytes of the UTF-8 encoding of `s`.
pub open spec fn byte_len(s: Seq<char>) -> nat
    decreases s.len(),
{
    if s.len() == 0 {
        0
    } else {
        byte_len(s.drop_last()) + utf8_width(s.last())
    }
}

/// `s` starts with `p`.
pub open spec fn has_prefix(s: Seq<char>, p: Seq<char>) -> bool {
    p.len() <= s.len() && s.subrange(0, p.len() as int) == p
}

/// `s` ends with `p`.
pub open spec fn has_suffix(s: Seq<char>, p: Seq<char>) -> bool {
    p.len() <= s.len() && s.subrange(s.len() - p.len(), s.len() as int) == p
}

/// `s` with leading white space removed.
pub open spec fn trim_start(s: Seq<char>) -> Seq<char>
    decreases s.len(),
{
    if s.len() > 0 && is_ws(s[0]) {
        trim_start(s.drop_first())
    } else {
        s
    }
}

/// `s` with trailing white space removed.
pub open spec fn trim_end(s: Seq<char>) -> Seq<char>
    decreases s.len(),
{
    if s.len() > 0 && is_ws(s.last()) {
        trim_end(s.drop_last())
    } else {
        s
    }
}

/// `s` with leading and trailing white space removed (what `str::trim` returns).
pub open spec fn trim(s: Seq<char>) -> Seq<char> {
    trim_end(trim_start(s))
}

/// Index of the first occurrence of `c` in `s` at or after `from`, or `s.len()` when absent.
pub open spec fn find_char_from(s: Seq<char>, c: char, from: int) -> int
    decreases s.len() - from,
{
    if from >= s.len() {
        s.len() as int
    } else if s[from] == c {
        from
    } else {
        find_char_from(s, c, from + 1)
    }
}

/// `find_char_from` lands within `[from, len]`, on `c` when below `len`, and skips no `c`.
pub proof fn lemma_find_char_bounds(s: Seq<char>, c: char, from: int)
    requires
        0 <= from,
    ensures
        from <= s.len() ==> from <= find_char_from(s, c, from) <= s.len(),
        find_char_from(s, c, from) < s.len() ==> s[find_char_from(s, c, from)] == c,
        forall|k: int| from <= k < find_char_from(s, c, from) ==> s[k] != c,
    decreases s.len() - from,
{
    if from < s.len() && s[from] != c {
        lemma_find_char_bounds(s, c, from + 1);
    }
}

/// One line as `str::lines` yields it: the text before `\n`, minus a final `\r`.
pub open spec fn strip_line_ending(seg: Seq<char>, had_newline: bool) -> Seq<char> {
    if had_newline && seg.len() > 0 && seg.last() == '\r' {
        seg.drop_last()
    } else {
        seg
    }
}

/// The lines of `s` in the sense of `str::lines`: split after each `\n`,
/// drop the `\n` (and a `\r` right before it); a last line without `\n`
/// is kept as is; the empty string has no lines.
pub open spec fn lines_of(s: Seq<char>) -> Seq<Seq<char>>
    decreases s.len(),
{
    if s.len() == 0 {
        Seq::empty()
    } else {
        let i = find_char_from(s, '\n', 0);
        proof {
            lemma_find_char_bounds(s, '\n', 0);
        }
        if i < s.len() {
            seq![strip_line_ending(s.subrange(0, i), true)] + lines_of(s.subrange(i + 1, s.len() as int))
        } else {
            seq![s]
        }
    }
}

/// Join `parts` with `sep` between consecutive parts.
pub open spec fn join(parts: Seq<Seq<char>>, sep: Seq<char>) -> Seq<char>
    decreases parts.len(),
{
    if parts.len() == 0 {
        Seq::empty()
    } else if parts.len() == 1 {
        parts[0]
    } else {
        join(parts.drop_last(), sep) + sep + parts.last()
    }
}

/// Decimal digits of `n` (no sign, no leading zeros; `0` is `"0"`).
pub open spec fn dec(n: nat) -> Seq<char>
    decreases n,
{
    if n < 10 {
        seq![digit_char(n)]
    } else {
        dec(n / 10) + seq![digit_char(n % 10)]
    }
}

/// The character of a digit value below 16 (lower-case for 10..15).
pub open spec fn digit_char(d: nat) -> char {
    if d < 10 {
        ((d + 48) as u32) as char
    } else {
        ((d + 87) as u32) as char
    }
}

/// The `k` lowest hexadecimal digits of `n`, most significant first, zero padded.
pub open spec fn hex_digits(n: nat, k: nat) -> Seq<char>
    decreases k,
{
    if k == 0 {
        Seq::empty()
    } else {
        hex_digits(n / 16, (k - 1) as nat) + seq![digit_char(n % 16)]
    }
}

/// The first `n` characters of `s` (all of `s` when shorter).
pub open spec fn take_chars_spec(s: Seq<char>, n: nat) -> Seq<char> {
    if n <= s.len() {
        s.subrange(0, n as int)
    } else {
        s
    }
}

// ---------------------------------------------------------------------------
// Conversions at the edges (std)
// ---------------------------------------------------------------------------

/// The characters of `s`, in order.
pub fn chars_of(s: &str) -> (r: Vec<char>)
    ensures
        r@ == s@,
{
    broadcast use vstd::string::axiom_spec_iter;

    let mut out: Vec<char> = Vec::new();
    for c in it: s.chars()
        invariant
            it.seq() == s@,
            out@ == it.seq().subrange(0, it.index() as int),
    {
        assert(it.seq().subrange(0, it.index() + 1) =~= out@.push(c));
        out.push(c);
    }
    assert(out@ =~= s@);
    out
}

/// A `String` holding exactly the characters `v` (`FromIterator<char>`).
#[verifier::external_body]
pub(crate) fn string_of(v: &[char]) -> (r: String)
    ensures
        r@ == v@,
{
    v.iter().collect()
}

// ---------------------------------------------------------------------------
// Executable helpers
// ---------------------------------------------------------------------------

/// Whether `c` has the Unicode `White_Space` property.
pub fn is_whitespace_char(c: char) -> (r: bool)
    ensures
        r == is_ws(c),
{
    let u = c as u32;
    (0x09 <= u && u <= 0x0d) || u == 0x20 || u == 0x85 || u == 0xa0 || u == 0x1680 || (0x2000
        <= u && u <= 0x200a) || u == 0x2028 || u == 0x2029 || u == 0x202f || u == 0x205f || u
        == 0x3000
}

/// Number of UTF-8 bytes of `c`.
pub fn char_utf8_width(c: char) -> (r: usize)
    ensures
        r == utf8_width(c),
        1 <= r <= 4,
{
    let u = c as u32;
    if u < 0x80 {
        1
    } else if u < 0x800 {
        2
    } else if u < 0x10000 {
        3
    } else {
        4
    }
}

/// `byte_len` of a prefix grows by the width of the next character.
pub proof fn lemma_byte_len_push(s: Seq<char>, c: char)
    ensures
        byte_len(s.push(c)) == byte_len(s) + utf8_width(c),
{
    assert(s.push(c).drop_last() =~= s);
}

/// `byte_len` is additive over concatenation.
pub proof fn lemma_byte_len_concat(a: Seq<char>, b: Seq<char>)
    ensures
        byte_len(a + b) == byte_len(a) + byte_len(b),
    decreases b.len(),
{
    if b.len() == 0 {
        assert(a + b =~= a);
    } else {
        lemma_byte_len_concat(a, b.drop_last());
        assert((a + b).drop_last() =~= a + b.drop_last());
        assert((a + b).last() == b.last());
    }
}

/// `byte_len` never exceeds four bytes per character and is at least one per character.
pub proof fn lemma_byte_len_bounds(s: Seq<char>)
    ensures
        s.len() <= byte_len(s) <= 4 * s.len(),
    decreases s.len(),
{
    if s.len() > 0 {
        lemma_byte_len_bounds(s.drop_last());
    }
}

/// Number of UTF-8 bytes of `s`, or `None` when it exceeds `limit`.
pub fn byte_len_capped(s: &[char], limit: usize) -> (r: Option<usize>)
    ensures
        r matches Some(n) ==> n == byte_len(s@) && n <= limit,
        r is None ==> byte_len(s@) > limit,
{
    let mut total: usize = 0;
    let mut i: usize = 0;
    while i < s.len()
        invariant
            i <= s@.len(),
            total == byte_len(s@.subrange(0, i as int)),
            total <= limit,
        decreases s@.len() - i,
    {
        proof {
            lemma_byte_len_push(s@.subrange(0, i as int), s@[i as int]);
            assert(s@.subrange(0, i as int).push(s@[i as int]) =~= s@.subrange(0, i + 1));
        }
        let w = char_utf8_width(s[i]);
        if w > limit - total {
            proof {
                lemma_byte_len_concat(s@.subrange(0, i + 1), s@.subrange(i + 1, s@.len() as int));
                assert(s@.subrange(0, i + 1) + s@.subrange(i + 1, s@.len() as int) =~= s@);
            }
            return None;
        }
        total = total + w;
        i = i + 1;
    }
    assert(s@.subrange(0, i as int) =~= s@);
    Some(total)
}

/// Whether `s` starts with `p`.
pub fn starts_with(s: &[char], p: &[char]) -> (r: bool)
    ensures
        r == has_prefix(s@, p@),
{
    if p.len() > s.len() {
        return false;
    }
    let mut i: usize = 0;
    while i < p.len()
        invariant
            p@.len() <= s@.len(),
            i <= p@.len(),
            forall|k: int| 0 <= k < i ==> s@[k] == p@[k],
        decreases p@.len() - i,
    {
        if s[i] != p[i] {
            assert(s@.subrange(0, p@.len() as int)[i as int] != p@[i as int]);
            return false;
        }
        i = i + 1;
    }
    assert(s@.subrange(0, p@.len() as int) =~= p@);
    true
}

/// Whether `s` starts with the characters of the literal `p`.
pub fn starts_with_str(s: &[char], p: &str) -> (r: bool)
    ensures
        r == has_prefix(s@, p@),
{
    let pc = chars_of(p);
    starts_with(s, pc.as_slice())
}

/// Whether `s` ends with `p`.
pub fn ends_with(s: &[char], p: &[char]) -> (r: bool)
    ensures
        r == has_suffix(s@, p@),
{
    if p.len() > s.len() {
        return false;
    }
    let off = s.len() - p.len();
    let mut i: usize = 0;
    while i < p.len()
        invariant
            p@.len() <= s@.len(),
            off + p.len() == s.len(),
            p@.len() == p.len(),
            s@.len() == s.len(),
            i <= p@.len(),
            forall|k: int| 0 <= k < i ==> s@[off + k] == p@[k],
        decreases p@.len() - i,
    {
        if s[off + i] != p[i] {
            assert(s@.subrange(off as int, s@.len() as int)[i as int] != p@[i as int]);
            return false;
        }
        i = i + 1;
    }
    assert(s@.subrange(off as int, s@.len() as int) =~= p@);
    true
}

/// Whether the two character sequences are equal.
pub fn chars_eq(a: &[char], b: &[char]) -> (r: bool)
    ensures
        r == (a@ == b@),
{
    if a.len() != b.len() {
        return false;
    }
    let r = starts_with(a, b);
    proof {
        assert(a@.subrange(0, b@.len() as int) =~= a@);
    }
    r
}

/// A copy of `s[from..to]`.
pub fn slice_to_vec(s: &[char], from: usize, to: usize) -> (r: Vec<char>)
    requires
        from <= to <= s@.len(),
    ensures
        r@ == s@.subrange(from as int, to as int),
{
    let mut r: Vec<char> = Vec::new();
    let mut i = from;
    while i < to
        invariant
            from <= i <= to <= s@.len(),
            r@ == s@.subrange(from as int, i as int),
        decreases to - i,
    {
        r.push(s[i]);
        i = i + 1;
        assert(r@ =~= s@.subrange(from as int, i as int));
    }
    r
}

/// Append all of `src` to `dst`.
pub fn push_all(dst: &mut Vec<char>, src: &[char])
    ensures
        final(dst)@ == old(dst)@ + src@,
{
    let mut i: usize = 0;
    let ghost d0 = dst@;
    while i < src.len()
        invariant
            i <= src@.len(),
            dst@ == d0 + src@.subrange(0, i as int),
        decreases src@.len() - i,
    {
        dst.push(src[i]);
        i = i + 1;
        assert(dst@ =~= d0 + src@.subrange(0, i as int));
    }
    assert(src@.subrange(0, i as int) =~= src@);
}

/// Append the characters of the literal `src` to `dst`.
pub fn push_str(dst: &mut Vec<char>, src: &str)
    ensures
        final(dst)@ == old(dst)@ + src@,
{
    let c = chars_of(src);
    push_all(dst, c.as_slice());
}

/// Index of the first `c` in `s` at or after `from`, or `s.len()`.
pub fn find_char(s: &[char], c: char, from: usize) -> (r: usize)
    requires
        from <= s@.len(),
    ensures
        r == find_char_from(s@, c, from as int),
        from <= r <= s@.len(),
        r < s@.len() ==> s@[r as int] == c,
        forall|k: int| from <= k < r ==> s@[k] != c,
{
    let mut i = from;
    while i < s.len()
        invariant
            from <= i <= s@.len(),
            find_char_from(s@, c, from as int) == find_char_from(s@, c, i as int),
            forall|k: int| from <= k < i ==> s@[k] != c,
        decreases s@.len() - i,
    {
        if s[i] == c {
            return i;
        }
        i = i + 1;
    }
    i
}

/// The lines of `s` (see `lines_of`).
pub fn split_lines(s: &[char]) -> (r: Vec<Vec<char>>)
    ensures
        r@.len() == lines_of(s@).len(),
        forall|k: int| 0 <= k < r@.len() ==> #[trigger] r@[k]@ == lines_of(s@)[k],
{
    let mut out: Vec<Vec<char>> = Vec::new();
    let mut pos: usize = 0;
    assert(s@.subrange(0, s@.len() as int) =~= s@);
    assert(out@.map_values(|v: Vec<char>| v@) =~= Seq::<Seq<char>>::empty());
    while pos < s.len()
        invariant
            pos <= s@.len(),
            lines_of(s@) =~= out@.map_values(|v: Vec<char>| v@) + lines_of(
                s@.subrange(pos as int, s@.len() as int),
            ),
        decreases s@.len() - pos,
    {
        let ghost rest = s@.subrange(pos as int, s@.len() as int);
        let nl = find_char(s, '\n', pos);
        proof {
            lemma_find_char_shift(s@, '\n', pos as int, 0);
        }
        if nl < s.len() {
            let mut seg = slice_to_vec(s, pos, nl);
            if seg.len() > 0 && seg[seg.len() - 1] == '\r' {
                seg.pop();
            }
            proof {
                assert(rest.subrange(0, nl - pos) =~= s@.subrange(pos as int, nl as int));
                assert(rest.subrange(nl - pos + 1, rest.len() as int) =~= s@.subrange(
                    nl + 1,
                    s@.len() as int,
                ));
                assert(seg@ =~= strip_line_ending(s@.subrange(pos as int, nl as int), true));
            }
            out.push(seg);
            pos = nl + 1;
        } else {
            let seg = slice_to_vec(s, pos, s.len());
            out.push(seg);
            pos = s.len();
            proof {
                assert(lines_of(s@.subrange(pos as int, s@.len() as int)) =~= Seq::<
                    Seq<char>,
                >::empty());
            }
        }
    }
    proof {
        r_eq_map(&out, lines_of(s@));
    }
    out
}

proof fn r_eq_map(out: &Vec<Vec<char>>, target: Seq<Seq<char>>)
    requires
        target =~= out@.map_values(|v: Vec<char>| v@) + lines_of(Seq::<char>::empty()),
    ensures
        out@.len() == target.len(),
        forall|k: int| 0 <= k < out@.len() ==> #[trigger] out@[k]@ == target[k],
{
    assert(lines_of(Seq::<char>::empty()) =~= Seq::<Seq<char>>::empty());
    assert forall|k: int| 0 <= k < out@.len() implies #[trigger] out@[k]@ == target[k] by {
        assert(target[k] == out@.map_values(|v: Vec<char>| v@)[k]);
    }
}

/// Searching in a suffix is searching in the whole sequence, shifted.
pub proof fn lemma_find_char_shift(s: Seq<char>, c: char, pos: int, k: int)
    requires
        0 <= pos <= s.len(),
        0 <= k <= s.len() - pos,
    ensures
        find_char_from(s.subrange(pos, s.len() as int), c, k) + pos == find_char_from(
            s,
            c,
            pos + k,
        ),
    decreases s.len() - pos - k,
{
    if k < s.len() - pos {
        lemma_find_char_shift(s, c, pos, k + 1);
    }
}

/// Decimal rendering of `n`.
pub fn fmt_dec(n: usize) -> (r: Vec<char>)
    ensures
        r@ == dec(n as nat),
    decreases n,
{
    let d = n % 10;
    let ch = digit_to_char(d);
    if n < 10 {
        let mut v = Vec::new();
        v.push(ch);
        v
    } else {
        let mut v = fmt_dec(n / 10);
        v.push(ch);
        v
    }
}

/// Decimal rendering of a 64-bit `n`.
pub fn fmt_dec_u64(n: u64) -> (r: Vec<char>)
    ensures
        r@ == dec(n as nat),
    decreases n,
{
    let d = (n % 10) as usize;
    let ch = digit_to_char(d);
    if n < 10 {
        let mut v = Vec::new();
        v.push(ch);
        v
    } else {
        let mut v = fmt_dec_u64(n / 10);
        v.push(ch);
        v
    }
}

/// The character for a digit value below 16.
pub fn digit_to_char(d: usize) -> (c: char)
    requires
        d < 16,
    ensures
        c == digit_char(d as nat),
{
    if d < 10 {
        ((d + 48) as u8) as char
    } else {
        ((d + 87) as u8) as char
    }
}

/// Lower-case hexadecimal rendering of `n`, zero padded to 16 digits.
pub fn fmt_hex16(n: u64) -> (r: Vec<char>)
    ensures
        r@ == hex_digits(n as nat, 16),
        r@.len() == 16,
{
    let mut digits: Vec<char> = Vec::new();
    let mut k: usize = 0;
    let mut m = n;
    assert(pow16(0) == 1);
    assert(n as nat / 1 == n as nat) by (nonlinear_arith);
    assert(hex_digits(n as nat, 0) =~= reverse_seq(digits@));
    // digits collected least significant first, then reversed
    while k < 16
        invariant
            k <= 16,
            digits@.len() == k,
            m as nat == n as nat / pow16(k as nat),
            hex_digits(n as nat, k as nat) =~= reverse_seq(digits@),
        decreases 16 - k,
    {
        let d = (m % 16) as usize;
        let c = digit_to_char(d);
        proof {
            lemma_pow16_step(n as nat, k as nat);
            lemma_hex_digits_step(n as nat, k as nat);
            assert(reverse_seq(digits@.push(c)) =~= seq![c] + reverse_seq(digits@));
        }
        digits.push(c);
        m = m / 16;
        k = k + 1;
    }
    let mut out: Vec<char> = Vec::new();
    let mut i: usize = 16;
    while i > 0
        invariant
            i <= 16,
            digits@.len() == 16,
            out@ =~= reverse_seq(digits@).subrange(0, 16 - i as int),
        decreases i,
    {
        i = i - 1;
        out.push(digits[i]);
    }
    assert(reverse_seq(digits@).subrange(0, 16) =~= reverse_seq(digits@));
    out
}

/// `s` in reverse order.
pub open spec fn reverse_seq(s: Seq<char>) -> Seq<char> {
    Seq::new(s.len(), |i: int| s[s.len() - 1 - i])
}

/// `16^k`.
pub open spec fn pow16(k: nat) -> nat
    decreases k,
{
    if k == 0 {
        1
    } else {
        16 * pow16((k - 1) as nat)
    }
}

proof fn lemma_pow16_pos(k: nat)
    ensures
        pow16(k) >= 1,
    decreases k,
{
    if k > 0 {
        lemma_pow16_pos((k - 1) as nat);
    }
}

proof fn lemma_pow16_step(n: nat, k: nat)
    ensures
        n / pow16(k + 1) == (n / pow16(k)) / 16,
{
    lemma_pow16_pos(k);
    assert(pow16(k + 1) == pow16(k) * 16);
    vstd::arithmetic::div_mod::lemma_div_denominator(n as int, pow16(k) as int, 16);
}

proof fn lemma_hex_digits_step(n: nat, k: nat)
    ensures
        hex_digits(n, k + 1) == seq![digit_char((n / pow16(k)) % 16)] + hex_digits(n, k),
    decreases k,
{
    if k == 0 {
        assert(hex_digits(n / 16, 0) =~= Seq::<char>::empty());
        assert(hex_digits(n, 0) =~= Seq::<char>::empty());
        assert(hex_digits(n, 1) =~= seq![digit_char(n % 16)]);
        assert(pow16(0) == 1);
        assert(n / 1 == n) by (nonlinear_arith);
    } else {
        let k1 = (k - 1) as nat;
        lemma_hex_digits_step(n / 16, k1);
        lemma_pow16_pos(k1);
        vstd::arithmetic::div_mod::lemma_div_denominator(n as int, 16, pow16(k1) as int);
        assert(pow16(k) == 16 * pow16(k1));
        let d = digit_char((n / pow16(k)) % 16);
        assert((n / 16) / pow16(k1) == n / pow16(k));
        assert(hex_digits(n / 16, k) == seq![d] + hex_digits(n / 16, k1));
        assert(hex_digits(n, k) == hex_digits(n / 16, k1) + seq![digit_char(n % 16)]);
        assert(hex_digits(n, k + 1) == hex_digits(n / 16, k) + seq![digit_char(n % 16)]);
        assert(hex_digits(n, k + 1) =~= seq![d] + hex_digits(n, k));
    }
}

/// The first `n` characters of `s`.
pub fn take_chars_vec(s: &[char], n: usize) -> (r: Vec<char>)
    ensures
        r@ == take_chars_spec(s@, n as nat),
{
    if n <= s.len() {
        slice_to_vec(s, 0, n)
    } else {
        slice_to_vec(s, 0, s.len())
    }
}

/// `s` with leading and trailing white space removed.
pub fn trim_chars(s: &[char]) -> (r: Vec<char>)
    ensures
        r@ == trim(s@),
{
    let mut a: usize = 0;
    assert(s@.subrange(0, s@.len() as int) =~= s@);
    while a < s.len() && is_whitespace_char(s[a])
        invariant
            a <= s@.len(),
            trim_start(s@) == trim_start(s@.subrange(a as int, s@.len() as int)),
        decreases s@.len() - a,
    {
        assert(s@.subrange(a as int, s@.len() as int).drop_first() =~= s@.subrange(
            a + 1,
            s@.len() as int,
        ));
        a = a + 1;
    }
    let ghost ts = s@.subrange(a as int, s@.len() as int);
    assert(trim_start(ts) == ts);
    let mut b: usize = s.len();
    while b > a && is_whitespace_char(s[b - 1])
        invariant
            a <= b <= s@.len(),
            trim_end(ts) == trim_end(s@.subrange(a as int, b as int)),
        decreases b,
    {
        assert(s@.subrange(a as int, b as int).drop_last() =~= s@.subrange(a as int, b - 1));
        b = b - 1;
    }
    slice_to_vec(s, a, b)
}

} // verus!
