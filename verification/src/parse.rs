use vstd::prelude::*;
use vstd::slice::slice_subrange;
use vstd::slice::slice_to_vec;
use vstd::string::StringExecFns;

verus! {

/// Labels naming the construct being decoded when a parse step failed; outer
/// combinators add their own label as a failure propagates upward.
#[derive(Clone, Copy, PartialEq, Eq, Structural, Debug)]
pub enum ParseContext {
    Magic,
    Type,
    Machine,
    Entry,
    HeaderCount,
    ProgramHeader,
    SegmentType,
    SegmentFlags,
    VirtualRange,
    DataExtent,
}

impl ParseContext {
    /// The label's human-readable text.
    pub open spec fn label_spec(self) -> Seq<char> {
        match self {
            ParseContext::Magic => "Magic"@,
            ParseContext::Type => "Type"@,
            ParseContext::Machine => "Machine"@,
            ParseContext::Entry => "Entry"@,
            ParseContext::HeaderCount => "HeaderCount"@,
            ParseContext::ProgramHeader => "ProgramHeader"@,
            ParseContext::SegmentType => "SegmentType"@,
            ParseContext::SegmentFlags => "SegmentFlags"@,
            ParseContext::VirtualRange => "VirtualRange"@,
            ParseContext::DataExtent => "DataExtent"@,
        }
    }

    pub fn label(&self) -> (r: &'static str)
        ensures
            r@ == self.label_spec(),
    {
        match self {
            ParseContext::Magic => "Magic",
            ParseContext::Type => "Type",
            ParseContext::Machine => "Machine",
            ParseContext::Entry => "Entry",
            ParseContext::HeaderCount => "HeaderCount",
            ParseContext::ProgramHeader => "ProgramHeader",
            ParseContext::SegmentType => "SegmentType",
            ParseContext::SegmentFlags => "SegmentFlags",
            ParseContext::VirtualRange => "VirtualRange",
            ParseContext::DataExtent => "DataExtent",
        }
    }
}

/// How bad a parse failure is: a recoverable failure only signals "no match,
/// try an alternative" inside a choice; a malformed failure is definitive and
/// aborts the whole parse.
#[derive(Clone, Copy, PartialEq, Eq, Structural, Debug)]
pub enum Severity {
    Recoverable,
    Malformed,
}

/// What went wrong: too little input, a fixed byte tag that did not match, or
/// an enumerated code outside the known set (the rejected code is preserved).
#[derive(Clone, Copy, PartialEq, Eq, Structural, Debug)]
pub enum ErrorKind {
    Truncated,
    TagMismatch,
    UnknownCode(u64),
    BadSegmentBounds,
}

/// One entry of the context stack: which construct was being decoded, and at
/// which input offset its decoding began.
#[derive(Clone, Copy, PartialEq, Eq, Structural, Debug)]
pub struct ContextFrame {
    pub label: ParseContext,
    pub offset: usize,
}

/// A structured parse failure: the offset at which the input was rejected,
/// what was wrong there, how definitive the failure is, and the stack of
/// enclosing constructs, innermost first.
#[derive(Debug, PartialEq, Eq)]
pub struct ParseError {
    pub severity: Severity,
    pub kind: ErrorKind,
    pub offset: usize,
    pub context: Vec<ContextFrame>,
}

impl ParseError {
    pub fn new(kind: ErrorKind, severity: Severity, offset: usize) -> (r: ParseError)
        ensures
            r.kind == kind,
            r.severity == severity,
            r.offset == offset,
            r.context@ == Seq::<ContextFrame>::empty(),
    {
        ParseError { severity, kind, offset, context: Vec::new() }
    }

    /// An enclosing combinator records itself on the context stack as the
    /// failure propagates; the innermost construct stays first.
    pub fn with_context(self, label: ParseContext, offset: usize) -> (r: ParseError)
        ensures
            r.kind == self.kind,
            r.severity == self.severity,
            r.offset == self.offset,
            r.context@ == self.context@.push(ContextFrame { label, offset }),
    {
        let mut context = self.context;
        context.push(ContextFrame { label, offset });
        ParseError { severity: self.severity, kind: self.kind, offset: self.offset, context }
    }

    /// Whether the failure aborts the whole parse rather than signalling
    /// "try an alternative".
    pub fn is_definitive(&self) -> (r: bool)
        ensures
            r == (self.severity == Severity::Malformed),
    {
        match self.severity {
            Severity::Malformed => true,
            Severity::Recoverable => false,
        }
    }
}

/// The little-endian value of the `n` bytes of `s` starting at `p`.
pub open spec fn le_bytes_at(s: Seq<u8>, p: int, n: nat) -> int
    decreases n,
{
    if n == 0 {
        0
    } else {
        s[p] + 256 * le_bytes_at(s, p + 1, (n - 1) as nat)
    }
}

/// 256 to the power `n`: the number of values `n` bytes can take.
pub open spec fn pow256(n: nat) -> int
    decreases n,
{
    if n == 0 {
        1
    } else {
        256 * pow256((n - 1) as nat)
    }
}

pub proof fn lemma_pow256_increases(a: nat, b: nat)
    requires
        a <= b,
    ensures
        1 <= pow256(a) <= pow256(b),
    decreases b,
{
    if a < b {
        lemma_pow256_increases(a, (b - 1) as nat);
    } else if a == b && a > 0 {
        lemma_pow256_increases((a - 1) as nat, (b - 1) as nat);
    }
}

pub proof fn lemma_le_bytes_at_bound(s: Seq<u8>, p: int, n: nat)
    requires
        0 <= p,
        p + n <= s.len(),
    ensures
        0 <= le_bytes_at(s, p, n) < pow256(n),
    decreases n,
{
    if n > 0 {
        lemma_le_bytes_at_bound(s, p + 1, (n - 1) as nat);
    }
}

/// Eight bytes cover exactly the range of a `u64`.
pub proof fn lemma_pow256_u64()
    ensures
        pow256(8) == 0x1_0000_0000_0000_0000,
{
    assert(pow256(0) == 1);
    assert(pow256(1) == 0x100);
    assert(pow256(2) == 0x1_0000);
    assert(pow256(3) == 0x100_0000);
    assert(pow256(4) == 0x1_0000_0000);
    assert(pow256(5) == 0x100_0000_0000);
    assert(pow256(6) == 0x1_0000_0000_0000);
    assert(pow256(7) == 0x100_0000_0000_0000);
    assert(pow256(8) == 0x1_0000_0000_0000_0000);
}

/// Decode an `n`-byte little-endian unsigned integer at `pos`. Consumes
/// exactly `n` bytes; fails definitively when fewer remain.
pub fn le_uint(buf: &[u8], pos: usize, n: usize) -> (r: Result<(usize, u64), ParseError>)
    requires
        n <= 8,
    ensures
        pos + n <= buf@.len() <==> r is Ok,
        r matches Ok((p, v)) ==> p == pos + n && v == le_bytes_at(buf@, pos as int, n as nat),
        r matches Err(e) ==> e.offset == pos && e.kind == ErrorKind::Truncated
            && e.severity == Severity::Malformed && e.context@.len() == 0,
{
    if n > buf.len() || pos > buf.len() - n {
        return Err(ParseError::new(ErrorKind::Truncated, Severity::Malformed, pos));
    }
    proof {
        lemma_pow256_u64();
    }
    let mut val: u64 = 0;
    let mut i: usize = n;
    while i > 0
        invariant
            i <= n,
            n <= 8,
            pos + n <= buf@.len(),
            buf@.len() <= usize::MAX,
            val == le_bytes_at(buf@, pos + i, (n - i) as nat),
            0 <= val < pow256((n - i) as nat),
            pow256(8) == 0x1_0000_0000_0000_0000,
        decreases i,
    {
        i = i - 1;
        proof {
            lemma_pow256_increases((n - i) as nat, 8);
            assert(pow256((n - i) as nat) == 256 * pow256((n - i - 1) as nat));
        }
        val = val * 256 + (buf[pos + i] as u64);
    }
    Ok((pos + n, val))
}

/// Decode a little-endian 16-bit integer.
pub fn le_u16(buf: &[u8], pos: usize) -> (r: Result<(usize, u16), ParseError>)
    ensures
        pos + 2 <= buf@.len() <==> r is Ok,
        r matches Ok((p, v)) ==> p == pos + 2 && v == le_bytes_at(buf@, pos as int, 2),
        r matches Err(e) ==> e.offset == pos && e.kind == ErrorKind::Truncated
            && e.severity == Severity::Malformed && e.context@.len() == 0,
{
    match le_uint(buf, pos, 2) {
        Ok((p, v)) => {
            proof {
                lemma_le_bytes_at_bound(buf@, pos as int, 2);
                assert(pow256(2) == 256 * pow256(1) && pow256(1) == 256 * pow256(0));
            }
            Ok((p, v as u16))
        },
        Err(e) => Err(e),
    }
}

/// Decode a little-endian 32-bit integer.
pub fn le_u32(buf: &[u8], pos: usize) -> (r: Result<(usize, u32), ParseError>)
    ensures
        pos + 4 <= buf@.len() <==> r is Ok,
        r matches Ok((p, v)) ==> p == pos + 4 && v == le_bytes_at(buf@, pos as int, 4),
        r matches Err(e) ==> e.offset == pos && e.kind == ErrorKind::Truncated
            && e.severity == Severity::Malformed && e.context@.len() == 0,
{
    match le_uint(buf, pos, 4) {
        Ok((p, v)) => {
            proof {
                lemma_le_bytes_at_bound(buf@, pos as int, 4);
                assert(pow256(4) == 256 * pow256(3) && pow256(3) == 256 * pow256(2)
                    && pow256(2) == 256 * pow256(1) && pow256(1) == 256 * pow256(0));
            }
            Ok((p, v as u32))
        },
        Err(e) => Err(e),
    }
}

/// Decode a little-endian 64-bit integer.
pub fn le_u64(buf: &[u8], pos: usize) -> (r: Result<(usize, u64), ParseError>)
    ensures
        pos + 8 <= buf@.len() <==> r is Ok,
        r matches Ok((p, v)) ==> p == pos + 8 && v == le_bytes_at(buf@, pos as int, 8),
        r matches Err(e) ==> e.offset == pos && e.kind == ErrorKind::Truncated
            && e.severity == Severity::Malformed && e.context@.len() == 0,
{
    le_uint(buf, pos, 8)
}

/// Whether the bytes of `s` at `p` equal the whole of `t`.
pub open spec fn tag_matches(s: Seq<u8>, p: int, t: Seq<u8>) -> bool {
    &&& 0 <= p
    &&& p + t.len() <= s.len()
    &&& forall|k: int| 0 <= k < t.len() ==> s[p + k] == t[k]
}

/// Match a fixed byte tag (such as the magic signature). A mismatch is
/// definitive: the input is malformed at `pos`.
pub fn tag(buf: &[u8], pos: usize, expected: &[u8]) -> (r: Result<usize, ParseError>)
    ensures
        r is Ok <==> tag_matches(buf@, pos as int, expected@),
        r matches Ok(p) ==> p == pos + expected@.len(),
        r matches Err(e) ==> e.offset == pos && e.severity == Severity::Malformed
            && e.context@.len() == 0
            && e.kind == (if pos + expected@.len() <= buf@.len() {
                ErrorKind::TagMismatch
            } else {
                ErrorKind::Truncated
            }),
{
    if expected.len() > buf.len() || pos > buf.len() - expected.len() {
        return Err(ParseError::new(ErrorKind::Truncated, Severity::Malformed, pos));
    }
    let mut k: usize = 0;
    while k < expected.len()
        invariant
            0 <= k <= expected@.len(),
            pos + expected@.len() <= buf@.len(),
            buf@.len() <= usize::MAX,
            forall|m: int| 0 <= m < k ==> buf@[pos + m] == expected@[m],
        decreases expected@.len() - k,
    {
        if buf[pos + k] != expected[k] {
            return Err(ParseError::new(ErrorKind::TagMismatch, Severity::Malformed, pos));
        }
        k = k + 1;
    }
    Ok(pos + expected.len())
}

/// Take a fixed-size slice of the input as an owned copy.
pub fn take(buf: &[u8], pos: usize, n: usize) -> (r: Result<(usize, Vec<u8>), ParseError>)
    ensures
        pos + n <= buf@.len() <==> r is Ok,
        r matches Ok((p, v)) ==> p == pos + n
            && v@ == buf@.subrange(pos as int, pos + n as int),
        r matches Err(e) ==> e.offset == pos && e.kind == ErrorKind::Truncated
            && e.severity == Severity::Malformed && e.context@.len() == 0,
{
    if n > buf.len() || pos > buf.len() - n {
        return Err(ParseError::new(ErrorKind::Truncated, Severity::Malformed, pos));
    }
    let piece: &[u8] = slice_subrange(buf, pos, pos + n);
    Ok((pos + n, slice_to_vec(piece)))
}

/// The character for one hex digit value; digit values run 0 to 15.
pub open spec fn hex_char(n: u8) -> char {
    if n == 0 { '0' }
    else if n == 1 { '1' }
    else if n == 2 { '2' }
    else if n == 3 { '3' }
    else if n == 4 { '4' }
    else if n == 5 { '5' }
    else if n == 6 { '6' }
    else if n == 7 { '7' }
    else if n == 8 { '8' }
    else if n == 9 { '9' }
    else if n == 10 { 'a' }
    else if n == 11 { 'b' }
    else if n == 12 { 'c' }
    else if n == 13 { 'd' }
    else if n == 14 { 'e' }
    else { 'f' }
}

/// Each byte rendered as two hex digits and a trailing space.
pub open spec fn hex_bytes(s: Seq<u8>) -> Seq<char>
    decreases s.len(),
{
    if s.len() == 0 {
        Seq::empty()
    } else {
        hex_bytes(s.drop_last()) + seq![hex_char(s.last() / 16), hex_char(s.last() % 16), ' ']
    }
}

/// The hex preview of an input: its first bytes, at most twenty.
pub open spec fn hex_preview(s: Seq<u8>) -> Seq<char> {
    hex_bytes(if s.len() <= 20 { s } else { s.take(20) })
}

fn hex_digit_str(n: u8) -> (r: &'static str)
    requires
        n < 16,
    ensures
        r@ == seq![hex_char(n)],
{
    if n == 0 { proof { reveal_strlit("0"); assert("0"@ =~= seq![hex_char(n)]); } "0" }
    else if n == 1 { proof { reveal_strlit("1"); assert("1"@ =~= seq![hex_char(n)]); } "1" }
    else if n == 2 { proof { reveal_strlit("2"); assert("2"@ =~= seq![hex_char(n)]); } "2" }
    else if n == 3 { proof { reveal_strlit("3"); assert("3"@ =~= seq![hex_char(n)]); } "3" }
    else if n == 4 { proof { reveal_strlit("4"); assert("4"@ =~= seq![hex_char(n)]); } "4" }
    else if n == 5 { proof { reveal_strlit("5"); assert("5"@ =~= seq![hex_char(n)]); } "5" }
    else if n == 6 { proof { reveal_strlit("6"); assert("6"@ =~= seq![hex_char(n)]); } "6" }
    else if n == 7 { proof { reveal_strlit("7"); assert("7"@ =~= seq![hex_char(n)]); } "7" }
    else if n == 8 { proof { reveal_strlit("8"); assert("8"@ =~= seq![hex_char(n)]); } "8" }
    else if n == 9 { proof { reveal_strlit("9"); assert("9"@ =~= seq![hex_char(n)]); } "9" }
    else if n == 10 { proof { reveal_strlit("a"); assert("a"@ =~= seq![hex_char(n)]); } "a" }
    else if n == 11 { proof { reveal_strlit("b"); assert("b"@ =~= seq![hex_char(n)]); } "b" }
    else if n == 12 { proof { reveal_strlit("c"); assert("c"@ =~= seq![hex_char(n)]); } "c" }
    else if n == 13 { proof { reveal_strlit("d"); assert("d"@ =~= seq![hex_char(n)]); } "d" }
    else if n == 14 { proof { reveal_strlit("e"); assert("e"@ =~= seq![hex_char(n)]); } "e" }
    else { proof { reveal_strlit("f"); assert("f"@ =~= seq![hex_char(n)]); } "f" }
}

/// A short hex view of the bytes at a failure point, for diagnostics.
pub struct HexDump<'a>(pub &'a [u8]);

impl<'a> HexDump<'a> {
    /// Render the preview: the first bytes (at most twenty), each as two hex
    /// digits and a space.
    pub fn render(&self) -> (r: String)
        ensures
            r@ == hex_preview(self.0@),
    {
        let n: usize = if self.0.len() <= 20 { self.0.len() } else { 20 };
        let mut out = String::new();
        let mut i: usize = 0;
        while i < n
            invariant
                0 <= i <= n,
                n <= self.0@.len(),
                out@ == hex_bytes(self.0@.take(i as int)),
            decreases n - i,
        {
            let b: u8 = *vstd::slice::slice_index_get(self.0, i);
            let ghost prev = out@;
            out.append(hex_digit_str(b / 16));
            out.append(hex_digit_str(b % 16));
            out.append(" ");
            proof {
                reveal_strlit(" ");
                assert(" "@ =~= seq![' ']);
                let s = self.0@;
                assert(s.take(i + 1).drop_last() =~= s.take(i as int));
                assert(s.take(i + 1).last() == s[i as int]);
                assert(out@ =~= hex_bytes(s.take(i + 1)));
            }
            i = i + 1;
        }
        proof {
            if self.0@.len() <= 20 {
                assert(self.0@.take(n as int) =~= self.0@);
            }
        }
        out
    }
}

} // verus!
