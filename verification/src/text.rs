//! Text buffer with O(1) line slicing.

use vstd::prelude::*;



verus! {

/// `input` with every `\r\n` pair replaced by `\n`, scanning left to right.
pub open spec fn crlf_normalized(input: Seq<u8>) -> Seq<u8>
    decreases input.len(),
{
    if input.len() == 0 {
        Seq::empty()
    } else if input.len() >= 2 && input[0] == 13u8 && input[1] == 10u8 {
        seq![10u8] + crlf_normalized(input.subrange(2, input.len() as int))
    } else {
        seq![input[0]] + crlf_normalized(input.subrange(1, input.len() as int))
    }
}

/// Offsets just after each `\n` among the first `n` bytes of `b`, in order.
pub open spec fn newline_ends(b: Seq<u8>, n: nat) -> Seq<usize>
    decreases n,
{
    if n == 0 {
        Seq::empty()
    } else if b[n - 1] == 10u8 {
        newline_ends(b, (n - 1) as nat).push(n as usize)
    } else {
        newline_ends(b, (n - 1) as nat)
    }
}

/// Byte offsets at which the lines of `b` start, followed by the end of the
/// last line: `0`, then one past each `\n`, then `b.len()` when `b` is
/// non-empty and does not end with `\n`.
pub open spec fn line_starts_of(b: Seq<u8>) -> Seq<usize> {
    let base = seq![0usize] + newline_ends(b, b.len());
    if b.len() > 0 && b.last() != 10u8 {
        base.push(b.len() as usize)
    } else {
        base
    }
}

/// Number of lines of `b`: zero when empty, else one per line start.
pub open spec fn line_count_of(b: Seq<u8>) -> nat {
    if b.len() == 0 {
        0
    } else {
        (line_starts_of(b).len() - 1) as nat
    }
}

/// Line `i` of `b` (0-indexed), without its trailing `\n`.
pub open spec fn line_of(b: Seq<u8>, i: int) -> Seq<u8> {
    let ls = line_starts_of(b);
    let start = ls[i] as int;
    let end = ls[i + 1] as int;
    if end > start && b[end - 1] == 10u8 {
        b.subrange(start, end - 1)
    } else {
        b.subrange(start, end)
    }
}

/// How many leading bytes the binary heuristic looks at.
pub open spec fn binary_sample_len(b: Seq<u8>) -> nat {
    if b.len() < 8000 {
        b.len()
    } else {
        8000
    }
}

/// A byte that occurs in text: printable ASCII, tab, newline, form feed,
/// carriage return, escape, or any byte of a multi-byte UTF-8 sequence.
pub open spec fn is_text_byte(c: u8) -> bool {
    (c >= 0x20u8 && c != 0x7fu8) || c == 9u8 || c == 10u8 || c == 12u8 || c == 13u8 || c == 27u8
}

/// Number of non-text bytes among the first `n` bytes of `b`.
pub open spec fn non_text_count(b: Seq<u8>, n: nat) -> nat
    decreases n,
{
    if n == 0 {
        0
    } else {
        non_text_count(b, (n - 1) as nat) + if is_text_byte(b[n - 1]) {
            0nat
        } else {
            1nat
        }
    }
}

/// The binary heuristic: among the first 8000 bytes there is a NUL byte,
/// or more than 30% of them are non-text bytes.
pub open spec fn looks_binary(b: Seq<u8>) -> bool {
    let n = binary_sample_len(b);
    (exists|i: int| 0 <= i < n && b[i] == 0u8) || 10 * non_text_count(b, n) > 3 * n
}

/// Result of `String::from_utf8_lossy` on `bytes`.
pub uninterp spec fn utf8_lossy(bytes: Seq<u8>) -> Seq<char>;

/// `String::from_utf8_lossy`: decodes `bytes`, replacing each invalid
/// sequence with U+FFFD. The contract says only that the result is a
/// function of the bytes and that valid UTF-8 is decoded as is.
#[verifier::external_body]
pub(crate) fn lossy_string(bytes: &[u8]) -> (r: String)
    ensures
        r@ == utf8_lossy(bytes@),
        vstd::utf8::valid_utf8(bytes@) ==> r@ == vstd::utf8::decode_utf8(bytes@),
{
    String::from_utf8_lossy(bytes).into_owned()
}

/// A text buffer optimized for line-based access.
///
/// - Precomputes line start offsets for O(1) line slicing.
/// - Handles missing trailing newline.
/// - Normalizes CRLF to LF internally.
#[derive(Debug)]
pub struct TextBuffer {
    /// Raw bytes (CRLF normalized to LF).
    bytes: Vec<u8>,
    /// Byte offsets where each line starts, then the end of the last line.
    line_starts: Vec<usize>,
    /// Whether content appears to be binary.
    is_binary: bool,
}

impl Clone for TextBuffer {
    fn clone(&self) -> (r: Self)
        ensures
            r@ == self@,
            r.spec_binary() == self.spec_binary(),
    {
        proof {
            use_type_invariant(self);
        }
        let bytes = self.bytes.clone();
        let line_starts = self.line_starts.clone();
        assert(bytes@ =~= self.bytes@);
        assert(line_starts@ =~= self.line_starts@);
        TextBuffer { bytes, line_starts, is_binary: self.is_binary }
    }
}

impl View for TextBuffer {
    type V = Seq<u8>;

    open spec fn view(&self) -> Seq<u8> {
        self.spec_bytes()
    }
}

impl TextBuffer {
    /// The stored (normalized) bytes.
    pub closed spec fn spec_bytes(&self) -> Seq<u8> {
        self.bytes@
    }

    /// Whether the buffer was classified as binary.
    pub closed spec fn spec_binary(&self) -> bool {
        self.is_binary
    }

    #[verifier::type_invariant]
    spec fn wf(&self) -> bool {
        self.line_starts@ == line_starts_of(self.bytes@)
    }

    /// Create a new TextBuffer from raw bytes.
    /// Normalizes CRLF to LF. Detects binary content on the raw input.
    pub fn new(input: &[u8]) -> (r: Self)
        ensures
            r@ == crlf_normalized(input@),
            r.spec_binary() == looks_binary(input@),
    {
        let is_binary = detect_binary(input);
        let bytes = normalize_crlf(input);
        let line_starts = compute_line_starts(&bytes);
        TextBuffer { bytes, line_starts, is_binary }
    }

    /// Create an empty TextBuffer.
    pub fn empty() -> (r: Self)
        ensures
            r@ == Seq::<u8>::empty(),
            !r.spec_binary(),
    {
        let bytes: Vec<u8> = Vec::new();
        let line_starts = compute_line_starts(&bytes);
        TextBuffer { bytes, line_starts, is_binary: false }
    }

    /// Whether content appears to be binary (a NUL byte, or a high share of
    /// non-text bytes, early on).
    pub fn is_binary(&self) -> (r: bool)
        ensures
            r == self.spec_binary(),
    {
        self.is_binary
    }

    /// Number of lines in the buffer.
    /// An empty buffer has 0 lines; a buffer with content has at least 1.
    pub fn line_count(&self) -> (r: usize)
        ensures
            r == line_count_of(self@),
            self@.len() > 0 ==> r >= 1,
    {
        proof {
            use_type_invariant(self);
            assert(self.bytes.len() == self.bytes@.len());
            lemma_line_starts_shape(self.bytes@);
        }
        if self.bytes.len() == 0 {
            0
        } else {
            self.line_starts.len() - 1
        }
    }

    /// Get the bytes for a specific line (0-indexed), without the trailing
    /// newline; `None` when `line_num` is out of bounds.
    pub fn line(&self, line_num: usize) -> (r: Option<&[u8]>)
        ensures
            line_num < line_count_of(self@) ==> (r matches Some(l) && l@ == line_of(self@, line_num as int)),
            line_num >= line_count_of(self@) ==> r is None,
    {
        proof {
            use_type_invariant(self);
            assert(self.bytes.len() == self.bytes@.len());
            lemma_line_starts_shape(self.bytes@);
        }
        if line_num >= self.line_count() {
            return None;
        }
        let start = self.line_starts[line_num];
        let end = self.line_starts[line_num + 1];
        proof {
            lemma_line_starts_sorted(self.bytes@, line_num as int, line_num + 1);
        }
        let end = if end > start && self.bytes[end - 1] == 10u8 {
            end - 1
        } else {
            end
        };
        Some(slice_range(self.bytes.as_slice(), start, end))
    }

    /// Get line as a lossy UTF-8 string.
    pub fn line_str(&self, line_num: usize) -> (r: Option<String>)
        ensures
            line_num < line_count_of(self@) ==> (r matches Some(s) && s@ == utf8_lossy(
                line_of(self@, line_num as int),
            )),
            line_num < line_count_of(self@) && vstd::utf8::valid_utf8(line_of(self@, line_num as int)) ==> (r matches Some(
                s,
            ) && s@ == vstd::utf8::decode_utf8(line_of(self@, line_num as int))),
            line_num >= line_count_of(self@) ==> r is None,
    {
        match self.line(line_num) {
            Some(b) => Some(lossy_string(b)),
            None => None,
        }
    }

    /// Get all lines as strings (for diffing).
    /// Invalid UTF-8 is replaced with U+FFFD.
    pub fn lines(&self) -> (r: Vec<String>)
        ensures
            r@.len() == line_count_of(self@),
            forall|i: int| 0 <= i < r@.len() ==> #[trigger] r@[i]@ == utf8_lossy(line_of(self@, i)),
            forall|i: int|
                0 <= i < r@.len() && vstd::utf8::valid_utf8(line_of(self@, i)) ==> #[trigger] r@[i]@
                    == vstd::utf8::decode_utf8(line_of(self@, i)),
    {
        let n = self.line_count();
        let mut out: Vec<String> = Vec::new();
        let mut i: usize = 0;
        while i < n
            invariant
                n == line_count_of(self@),
                i <= n,
                out@.len() == i,
                forall|k: int| 0 <= k < i ==> #[trigger] out@[k]@ == utf8_lossy(line_of(self@, k)),
                forall|k: int|
                    0 <= k < i && vstd::utf8::valid_utf8(line_of(self@, k)) ==> #[trigger] out@[k]@
                        == vstd::utf8::decode_utf8(line_of(self@, k)),
            decreases n - i,
        {
            let s = self.line_str(i);
            match s {
                Some(s) => out.push(s),
                None => {},
            }
            i = i + 1;
        }
        out
    }

    /// Total byte length.
    pub fn len(&self) -> (r: usize)
        ensures
            r == self@.len(),
    {
        self.bytes.len()
    }

    /// Is the buffer empty?
    pub fn is_empty(&self) -> (r: bool)
        ensures
            r == (self@.len() == 0),
    {
        self.bytes.len() == 0
    }

    /// Raw bytes access.
    pub fn as_bytes(&self) -> (r: &[u8])
        ensures
            r@ == self@,
    {
        self.bytes.as_slice()
    }
}

/// `s[from..to]` as a slice.
pub fn slice_range(s: &[u8], from: usize, to: usize) -> (r: &[u8])
    requires
        from <= to <= s@.len(),
    ensures
        r@ == s@.subrange(from as int, to as int),
{
    &s[from..to]
}

/// Normalize CRLF to LF.
pub fn normalize_crlf(input: &[u8]) -> (r: Vec<u8>)
    ensures
        r@ == crlf_normalized(input@),
{
    let mut output: Vec<u8> = Vec::new();
    let mut i: usize = 0;
    assert(input@.subrange(0, input@.len() as int) =~= input@);
    while i < input.len()
        invariant
            i <= input@.len(),
            crlf_normalized(input@) =~= output@ + crlf_normalized(
                input@.subrange(i as int, input@.len() as int),
            ),
        decreases input@.len() - i,
    {
        let ghost rest = input@.subrange(i as int, input@.len() as int);
        let ghost out0 = output@;
        if i + 1 < input.len() && input[i] == 13u8 && input[i + 1] == 10u8 {
            assert(rest.subrange(2, rest.len() as int) =~= input@.subrange(i + 2, input@.len() as int));
            assert(crlf_normalized(rest) == seq![10u8] + crlf_normalized(input@.subrange(i + 2, input@.len() as int)));
            output.push(10u8);
            i = i + 2;
        } else {
            assert(rest.subrange(1, rest.len() as int) =~= input@.subrange(i + 1, input@.len() as int));
            assert(crlf_normalized(rest) == seq![input@[i as int]] + crlf_normalized(input@.subrange(i + 1, input@.len() as int)));
            output.push(input[i]);
            i = i + 1;
        }
        assert(out0 + crlf_normalized(rest) =~= output@ + crlf_normalized(input@.subrange(i as int, input@.len() as int)));
    }
    assert(input@.subrange(i as int, input@.len() as int) =~= Seq::<u8>::empty());
    output
}

/// Compute line start offsets (see `line_starts_of`).
pub fn compute_line_starts(bytes: &[u8]) -> (r: Vec<usize>)
    ensures
        r@ == line_starts_of(bytes@),
{
    let mut starts: Vec<usize> = Vec::new();
    starts.push(0);
    let mut i: usize = 0;
    while i < bytes.len()
        invariant
            i <= bytes@.len(),
            starts@ == seq![0usize] + newline_ends(bytes@, i as nat),
        decreases bytes@.len() - i,
    {
        if bytes[i] == 10u8 {
            starts.push(i + 1);
            assert(starts@ =~= seq![0usize] + newline_ends(bytes@, (i + 1) as nat));
        } else {
            assert(starts@ =~= seq![0usize] + newline_ends(bytes@, (i + 1) as nat));
        }
        i = i + 1;
    }
    if bytes.len() > 0 && bytes[bytes.len() - 1] != 10u8 {
        starts.push(bytes.len());
    }
    starts
}

/// Detect if content is likely binary: a NUL byte, or more than 30%
/// non-text bytes, among the first 8000 bytes.
pub fn detect_binary(bytes: &[u8]) -> (r: bool)
    ensures
        r == looks_binary(bytes@),
{
    let check_len = if bytes.len() < 8000 {
        bytes.len()
    } else {
        8000
    };
    let mut non_text: usize = 0;
    let mut i: usize = 0;
    while i < check_len
        invariant
            i <= check_len,
            check_len == binary_sample_len(bytes@),
            check_len <= bytes@.len(),
            check_len <= 8000,
            non_text == non_text_count(bytes@, i as nat),
            non_text <= i,
            forall|k: int| 0 <= k < i ==> bytes@[k] != 0u8,
        decreases check_len - i,
    {
        let c = bytes[i];
        if c == 0u8 {
            assert(bytes@[i as int] == 0u8);
            return true;
        }
        if !((c >= 0x20u8 && c != 0x7fu8) || c == 9u8 || c == 10u8 || c == 12u8 || c == 13u8 || c == 27u8) {
            non_text = non_text + 1;
        }
        i = i + 1;
    }
    10 * non_text > 3 * check_len
}

/// Every entry of `newline_ends(b, n)` lies in `1..=n`, entries strictly increase,
/// and each marks the byte after a newline.
pub proof fn lemma_newline_ends(b: Seq<u8>, n: nat)
    requires
        n <= b.len(),
        b.len() <= usize::MAX,
    ensures
        forall|k: int| 0 <= k < newline_ends(b, n).len() ==> 1 <= #[trigger] newline_ends(b, n)[k] <= n,
        forall|j: int, k: int|
            0 <= j < k < newline_ends(b, n).len() ==> newline_ends(b, n)[j] < newline_ends(b, n)[k],
        forall|k: int| 0 <= k < newline_ends(b, n).len() ==> b[#[trigger] newline_ends(b, n)[k] - 1] == 10u8,
        newline_ends(b, n).len() <= n,
    decreases n,
{
    if n > 0 {
        let n1 = (n - 1) as nat;
        lemma_newline_ends(b, n1);
        let p = newline_ends(b, n1);
        if b[n - 1] == 10u8 {
            assert(newline_ends(b, n) == p.push(n as usize));
            assert forall|k: int| 0 <= k < newline_ends(b, n).len() implies b[#[trigger] newline_ends(b, n)[k] - 1] == 10u8 by {
                if k < p.len() {
                    assert(newline_ends(b, n)[k] == p[k]);
                }
            }
        } else {
            assert(newline_ends(b, n) == p);
        }
    }
}

/// Shape of the line starts: begins with 0, at least one entry, ends at
/// `b.len()`, and has at least two entries for non-empty `b`.
pub proof fn lemma_line_starts_shape(b: Seq<u8>)
    requires
        b.len() <= usize::MAX,
    ensures
        line_starts_of(b).len() >= 1,
        line_starts_of(b)[0] == 0,
        b.len() > 0 ==> line_starts_of(b).len() >= 2,
        line_starts_of(b).len() <= b.len() + 2,
        line_starts_of(b).last() == b.len(),
{
    lemma_newline_ends(b, b.len());
    if b.len() > 0 && b.last() == 10u8 {
        let n1 = (b.len() - 1) as nat;
        assert(b[b.len() - 1] == 10u8);
        assert(newline_ends(b, b.len()) == newline_ends(b, n1).push(b.len() as usize));
    }
}

/// Line starts are sorted and bounded by `b.len()`.
pub proof fn lemma_line_starts_sorted(b: Seq<u8>, i: int, j: int)
    requires
        b.len() <= usize::MAX,
        0 <= i <= j < line_starts_of(b).len(),
    ensures
        line_starts_of(b)[i] <= line_starts_of(b)[j] <= b.len(),
{
    lemma_newline_ends(b, b.len());
    lemma_line_starts_shape(b);
}


/// The first `k` lines of `b`, each followed by `\n`.
pub open spec fn terminated_lines(b: Seq<u8>, k: nat) -> Seq<u8>
    decreases k,
{
    if k == 0 {
        Seq::empty()
    } else {
        terminated_lines(b, (k - 1) as nat) + line_of(b, k - 1).push(10u8)
    }
}

/// The lines ended by a `\n`, each with its `\n`, give back `b` up to the
/// start of the next line.
proof fn lemma_terminated_prefix(b: Seq<u8>, k: nat)
    requires
        b.len() <= usize::MAX,
        k <= newline_ends(b, b.len()).len(),
    ensures
        terminated_lines(b, k) == b.subrange(0, line_starts_of(b)[k as int] as int),
    decreases k,
{
    let ne = newline_ends(b, b.len());
    let ls = line_starts_of(b);
    lemma_newline_ends(b, b.len());
    assert(ls[0] == 0);
    if k == 0 {
        assert(b.subrange(0, 0) =~= Seq::<u8>::empty());
    } else {
        lemma_terminated_prefix(b, (k - 1) as nat);
        assert(ls[k as int] == ne[k - 1]);
        let start = ls[k - 1] as int;
        let end = ls[k as int] as int;
        if k >= 2 {
            assert(ls[k - 1] == ne[k - 2]);
            assert(ne[k - 2] < ne[k - 1]);
        }
        assert(start < end);
        assert(b[end - 1] == 10u8);
        assert(line_of(b, k - 1) == b.subrange(start, end - 1));
        assert(b.subrange(0, start) + b.subrange(start, end - 1).push(10u8) =~= b.subrange(0, end));
    }
}

/// Law: the lines of a buffer, rejoined with `\n` between them and a final
/// `\n` exactly when the buffer ends with one, give back the buffer.
pub proof fn lemma_lines_rejoin(b: Seq<u8>)
    requires
        b.len() <= usize::MAX,
    ensures
        b.len() == 0 ==> line_count_of(b) == 0,
        b.len() > 0 && b.last() == 10u8 ==> b == terminated_lines(b, line_count_of(b)),
        b.len() > 0 && b.last() != 10u8 ==> line_count_of(b) >= 1 && b == terminated_lines(
            b,
            (line_count_of(b) - 1) as nat,
        ) + line_of(b, line_count_of(b) - 1),
{
    let ne = newline_ends(b, b.len());
    let ls = line_starts_of(b);
    lemma_newline_ends(b, b.len());
    lemma_line_starts_shape(b);
    if b.len() > 0 {
        if b.last() == 10u8 {
            let n1 = (b.len() - 1) as nat;
            assert(b[b.len() - 1] == 10u8);
            assert(ne == newline_ends(b, n1).push(b.len() as usize));
            assert(ls =~= seq![0usize] + ne);
            lemma_terminated_prefix(b, ne.len());
            assert(ls[ne.len() as int] == b.len());
            assert(b.subrange(0, b.len() as int) =~= b);
        } else {
            let n = line_count_of(b);
            assert(ls =~= (seq![0usize] + ne).push(b.len() as usize));
            assert(n == ne.len() + 1);
            lemma_terminated_prefix(b, ne.len());
            let start = ls[ne.len() as int] as int;
            assert(ls[n as int] == b.len());
            if ne.len() > 0 {
                assert(start == ne[ne.len() - 1]);
            }
            assert(start <= b.len());
            assert(!(b.len() > start && b[b.len() - 1] == 10u8));
            assert(line_of(b, n - 1) == b.subrange(start, b.len() as int));
            assert(b.subrange(0, start) + b.subrange(start, b.len() as int) =~= b);
        }
    }
}


/// Every `\n` among the first `n` bytes is recorded in `newline_ends`.
proof fn lemma_newline_ends_complete(b: Seq<u8>, n: nat, p: int)
    requires
        n <= b.len(),
        b.len() <= usize::MAX,
        0 <= p < n,
        b[p] == 10u8,
    ensures
        exists|m: int| 0 <= m < newline_ends(b, n).len() && newline_ends(b, n)[m] == p + 1,
    decreases n,
{
    let n1 = (n - 1) as nat;
    if p == n - 1 {
        assert(newline_ends(b, n) == newline_ends(b, n1).push(n as usize));
        assert(newline_ends(b, n)[newline_ends(b, n1).len() as int] == p + 1);
    } else {
        lemma_newline_ends_complete(b, n1, p);
        let m = choose|m: int| 0 <= m < newline_ends(b, n1).len() && newline_ends(b, n1)[m] == p + 1;
        if b[n - 1] == 10u8 {
            assert(newline_ends(b, n) == newline_ends(b, n1).push(n as usize));
            assert(newline_ends(b, n)[m] == newline_ends(b, n1)[m]);
        } else {
            assert(newline_ends(b, n) == newline_ends(b, n1));
        }
    }
}

/// Law: no line holds a `\n`.
pub proof fn lemma_lines_have_no_newline(b: Seq<u8>, i: int, q: int)
    requires
        b.len() <= usize::MAX,
        0 <= i < line_count_of(b),
        0 <= q < line_of(b, i).len(),
    ensures
        line_of(b, i)[q] != 10u8,
{
    let ne = newline_ends(b, b.len());
    let ls = line_starts_of(b);
    lemma_newline_ends(b, b.len());
    lemma_line_starts_shape(b);
    lemma_line_starts_sorted(b, i, i + 1);
    let start = ls[i] as int;
    let end = ls[i + 1] as int;
    let p = start + q;
    assert(line_of(b, i)[q] == b[p]);
    if b[p] == 10u8 {
        lemma_newline_ends_complete(b, b.len(), p);
        let m = choose|m: int| 0 <= m < ne.len() && ne[m] == p + 1;
        if i >= 1 {
            assert(ls[i] == ne[i - 1]);
            if m <= i - 1 {
                if m < i - 1 {
                    assert(ne[m] < ne[i - 1]);
                }
                assert(false);
            }
        }
        if i < ne.len() {
            assert(ls[i + 1] == ne[i]);
            assert(b[end - 1] == 10u8);
            assert(p < end - 1);
            if m >= i {
                if m > i {
                    assert(ne[i] < ne[m]);
                }
                assert(false);
            }
        } else {
            assert(m < i);
            assert(m >= i) by {
                if m < i - 1 {
                    assert(ne[m] < ne[i - 1]);
                }
            }
        }
    }
}

} // verus!
