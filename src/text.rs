//! Reading and writing arbitrary text containers by byte offset.
//!
//! Offsets handed in are clamped to the container, and every slice handed
//! out starts and ends on a character boundary.

use vstd::prelude::*;
use vstd::utf8::*;
use std::ops::Range;

verus! {

broadcast use vstd::seq::group_seq_axioms, vstd::slice::group_slice_axioms;

/// An offset clamped to a container of `len` bytes.
pub open spec fn clamp(off: int, len: int) -> int {
    if off < 0 {
        0
    } else if off > len {
        len
    } else {
        off
    }
}

/// The nearest offset at or before `i` that does not fall inside the
/// encoding of a character: `0`, the end, or an offset whose byte is not a
/// continuation byte.
pub open spec fn boundary_at_or_before(b: Seq<u8>, i: int) -> int
    decreases i,
{
    if i <= 0 {
        0
    } else if i >= b.len() {
        b.len() as int
    } else if !is_continuation_byte(b[i]) {
        i
    } else {
        boundary_at_or_before(b, i - 1)
    }
}

/// The nearest offset at or after `i` that does not fall inside the encoding
/// of a character.
pub open spec fn boundary_at_or_after(b: Seq<u8>, i: int) -> int
    decreases b.len() - i,
{
    if i >= b.len() {
        b.len() as int
    } else if i <= 0 {
        0
    } else if !is_continuation_byte(b[i]) {
        i
    } else {
        boundary_at_or_after(b, i + 1)
    }
}

/// Where a read forward from `off` starts.
pub open spec fn forward_start(b: Seq<u8>, off: int) -> int {
    boundary_at_or_before(b, clamp(off, b.len() as int))
}

/// Where a read backward from `off` ends.
pub open spec fn backward_end(b: Seq<u8>, off: int) -> int {
    boundary_at_or_after(b, clamp(off, b.len() as int))
}

/// The bytes from the read position `off` to the end.
pub open spec fn forward_bytes(b: Seq<u8>, off: int) -> Seq<u8> {
    b.subrange(forward_start(b, off), b.len() as int)
}

/// The bytes from the start to the read position `off`.
pub open spec fn backward_bytes(b: Seq<u8>, off: int) -> Seq<u8> {
    b.subrange(0, backward_end(b, off))
}

/// An offset that does not split the encoding of a character.
pub open spec fn on_boundary(b: Seq<u8>, i: int) -> bool {
    0 <= i <= b.len() && (i == 0 || i == b.len() || !is_continuation_byte(b[i]))
}

proof fn lemma_boundary_before(b: Seq<u8>, i: int)
    ensures
        0 <= boundary_at_or_before(b, i) <= clamp(i, b.len() as int),
        on_boundary(b, boundary_at_or_before(b, i)),
        i > 0 ==> boundary_at_or_before(b, i) > 0 || !on_boundary(b, clamp(i, b.len() as int)) || clamp(i, b.len() as int) == 0,
    decreases i,
{
    if i > 0 && i < b.len() && is_continuation_byte(b[i]) {
        lemma_boundary_before(b, i - 1);
    }
}

proof fn lemma_boundary_after(b: Seq<u8>, i: int)
    ensures
        clamp(i, b.len() as int) <= boundary_at_or_after(b, i) <= b.len(),
        on_boundary(b, boundary_at_or_after(b, i)),
    decreases b.len() - i,
{
    if i < b.len() && i > 0 && is_continuation_byte(b[i]) {
        lemma_boundary_after(b, i + 1);
    }
}

/// The bytes that a replacement with `replacement` leaves in a container
/// that held `b`: the clamped range `[s, e)` (an end before the start counts
/// as the start) gives way to `replacement`.
pub open spec fn replaced_bytes(b: Seq<u8>, range: Range<usize>, replacement: Seq<u8>) -> Seq<u8> {
    let s = clamp(range.start as int, b.len() as int);
    let e = if (range.end as int) < s { s } else { clamp(range.end as int, b.len() as int) };
    b.subrange(0, s) + replacement + b.subrange(e, b.len() as int)
}

/// The range that a replacement may take: both ends, once clamped, fall on
/// character boundaries.
pub open spec fn replaceable(b: Seq<u8>, range: Range<usize>) -> bool {
    on_boundary(b, clamp(range.start as int, b.len() as int))
        && on_boundary(b, clamp(range.end as int, b.len() as int))
}

/// What `String::from_utf8_lossy` makes of a byte sequence.
pub uninterp spec fn lossy_decode(b: Seq<u8>) -> Seq<char>;

/// The valid text that a replacement with the bytes `b` writes.
pub open spec fn sanitized(b: Seq<u8>) -> Seq<u8> {
    encode_utf8(lossy_decode(b))
}

/// Relies on `String::from_utf8_lossy`: it decodes the bytes, with the
/// replacement character for each invalid sequence, and hands valid input
/// back as it stands.
#[verifier::external_body]
fn decode_lossy(b: &[u8]) -> (r: String)
    ensures
        r@ == lossy_decode(b@),
        valid_utf8(b@) ==> r@ == decode_utf8(b@),
{
    String::from_utf8_lossy(b).into_owned()
}

/// The suffix of `s` that starts at the read position `off`.
pub fn slice_forward(s: &[u8], off: usize) -> (r: &[u8])
    ensures
        r@ == forward_bytes(s@, off as int),
{
    let len = s.len();
    let mut i: usize = if off > len { len } else { off };
    while i > 0 && i < len && 0x80u8 <= s[i] && s[i] <= 0xBFu8
        invariant
            len == s@.len(),
            0 <= i <= len,
            boundary_at_or_before(s@, i as int) == forward_start(s@, off as int),
        decreases i,
    {
        i = i - 1;
    }
    vstd::slice::slice_subrange(s, i, len)
}

/// The prefix of `s` that ends at the read position `off`.
pub fn slice_backward(s: &[u8], off: usize) -> (r: &[u8])
    ensures
        r@ == backward_bytes(s@, off as int),
{
    let len = s.len();
    let mut i: usize = if off > len { len } else { off };
    while i > 0 && i < len && 0x80u8 <= s[i] && s[i] <= 0xBFu8
        invariant
            len == s@.len(),
            0 <= i <= len,
            boundary_at_or_after(s@, i as int) == backward_end(s@, off as int),
        decreases len - i,
    {
        i = i + 1;
    }
    vstd::slice::slice_subrange(s, 0, i)
}


fn push_range(v: &mut Vec<u8>, src: &[u8], from: usize, to: usize)
    requires
        from <= to <= src@.len(),
    ensures
        final(v)@ == old(v)@ + src@.subrange(from as int, to as int),
{
    let mut i: usize = from;
    while i < to
        invariant
            from <= i <= to <= src@.len(),
            v@ == old(v)@ + src@.subrange(from as int, i as int),
        decreases to - i,
    {
        v.push(src[i]);
        assert(src@.subrange(from as int, i + 1) == src@.subrange(from as int, i as int).push(src@[i as int]));
        i = i + 1;
    }
}

proof fn lemma_on_boundary_is_char_boundary(b: Seq<u8>, i: int)
    requires
        valid_utf8(b),
        on_boundary(b, i),
    ensures
        is_char_boundary(b, i),
{
    is_char_boundary_start_end_of_seq(b);
    if 0 < i < b.len() {
        is_char_boundary_iff_not_is_continuation_byte(b, i);
    }
}

/// Replaces, inside the text `s`, the clamped `range` by the sanitized
/// form of `replacement`.
pub(crate) fn replace_in_string(s: &mut String, range: Range<usize>, replacement: &[u8])
    requires
        replaceable(encode_utf8(old(s)@), range),
    ensures
        encode_utf8(final(s)@) == replaced_bytes(encode_utf8(old(s)@), range, sanitized(replacement@)),
        valid_utf8(replacement@) ==> sanitized(replacement@) == replacement@,
{
    let ghost old_bytes = encode_utf8(s@);
    let clean = decode_lossy(replacement);
    proof {
        if valid_utf8(replacement@) {
            decode_utf8_encode_utf8(replacement@);
        }
    }
    let clean_bytes = clean.as_str().as_bytes();
    let mut v: Vec<u8> = Vec::new();
    {
        let bytes = s.as_str().as_bytes();
        let len = bytes.len();
        let st: usize = if range.start > len { len } else { range.start };
        let en: usize = if range.end < st { st } else if range.end > len { len } else { range.end };
        push_range(&mut v, bytes, 0, st);
        push_range(&mut v, clean_bytes, 0, clean_bytes.len());
        push_range(&mut v, bytes, en, len);
        proof {
            let b = bytes@;
            assert(clean_bytes@.subrange(0, clean_bytes@.len() as int) == clean_bytes@);
            assert(v@ == replaced_bytes(b, range, sanitized(replacement@)));
            encode_utf8_valid_utf8(s@);
            lemma_replace_keeps_text_valid(b, range, replacement@);
        }
    }
    let fresh = decode_lossy(v.as_slice());
    proof {
        decode_utf8_encode_utf8(v@);
    }
    *s = fresh;
}

/// Reading at or past the end gives nothing forward and everything
/// backward; reading at the start gives everything forward and nothing
/// backward.
pub proof fn lemma_reads_out_of_range(b: Seq<u8>, off: int)
    ensures
        off >= b.len() ==> forward_bytes(b, off) == Seq::<u8>::empty() && backward_bytes(b, off) == b,
        off <= 0 ==> forward_bytes(b, off) == b && backward_bytes(b, off) == Seq::<u8>::empty(),
{
    if off >= b.len() {
        assert(backward_bytes(b, off) == b);
    }
    if off <= 0 {
        assert(forward_bytes(b, off) == b);
    }
}

/// A read never starts or ends inside the encoding of a character: the
/// start of a forward read is at or before the clamped offset, the end of a
/// backward read at or after it, both on character boundaries, and neither
/// read is empty unless the offset clamps to its far end.
pub proof fn lemma_reads_keep_characters_whole(b: Seq<u8>, off: int)
    ensures
        on_boundary(b, forward_start(b, off)),
        on_boundary(b, backward_end(b, off)),
        forward_start(b, off) <= clamp(off, b.len() as int) <= backward_end(b, off),
        clamp(off, b.len() as int) < b.len() ==> forward_bytes(b, off).len() > 0,
        clamp(off, b.len() as int) > 0 ==> backward_bytes(b, off).len() > 0,
        valid_utf8(b) ==> is_char_boundary(b, forward_start(b, off)) && is_char_boundary(b, backward_end(b, off)),
        valid_utf8(b) ==> valid_utf8(forward_bytes(b, off)) && valid_utf8(backward_bytes(b, off)),
{
    let c = clamp(off, b.len() as int);
    lemma_boundary_before(b, c);
    lemma_boundary_after(b, c);
    if valid_utf8(b) {
        lemma_on_boundary_is_char_boundary(b, forward_start(b, off));
        lemma_on_boundary_is_char_boundary(b, backward_end(b, off));
        valid_utf8_split(b, forward_start(b, off));
        valid_utf8_split(b, backward_end(b, off));
    }
}

/// Whatever bytes are written, a replacement over a range on character
/// boundaries leaves valid text valid.
pub proof fn lemma_replace_keeps_text_valid(b: Seq<u8>, range: Range<usize>, replacement: Seq<u8>)
    requires
        valid_utf8(b),
        replaceable(b, range),
    ensures
        valid_utf8(replaced_bytes(b, range, sanitized(replacement))),
{
    let st = clamp(range.start as int, b.len() as int);
    let en = if (range.end as int) < st { st } else { clamp(range.end as int, b.len() as int) };
    let clean = sanitized(replacement);
    encode_utf8_valid_utf8(lossy_decode(replacement));
    lemma_on_boundary_is_char_boundary(b, st);
    lemma_on_boundary_is_char_boundary(b, en);
    valid_utf8_split(b, st);
    valid_utf8_split(b, en);
    valid_utf8_concat(b.subrange(0, st), clean);
    valid_utf8_concat(b.subrange(0, st) + clean, b.subrange(en, b.len() as int));
}

/// A container of text that can be read by byte offset.
pub trait ReadableDocument {
    /// The bytes that the container holds.
    spec fn content(&self) -> Seq<u8>;

    /// The bytes from `off` (clamped, then moved back to the start of the
    /// character it falls in) to the end: empty only at the end.
    fn read_forward(&self, off: usize) -> (r: &[u8])
        ensures
            r@ == forward_bytes(self.content(), off as int),
    ;

    /// The bytes from the start to `off` (clamped, then moved on to the end
    /// of the character it falls in): empty only at the start.
    fn read_backward(&self, off: usize) -> (r: &[u8])
        ensures
            r@ == backward_bytes(self.content(), off as int),
    ;
}

/// A container of text that can also be changed in place. It always holds
/// valid UTF-8.
pub trait WriteableDocument: ReadableDocument {
    /// What the container holds besides its text is that of `other`.
    spec fn same_beyond_content(&self, other: &Self) -> bool;

    /// Replaces the bytes of the clamped `range` by `replacement`, whose
    /// invalid sequences are first replaced by U+FFFD; valid bytes are
    /// written as they are.
    fn replace(&mut self, range: Range<usize>, replacement: &[u8])
        requires
            replaceable(old(self).content(), range),
        ensures
            final(self).content() == replaced_bytes(old(self).content(), range, sanitized(replacement@)),
            valid_utf8(replacement@) ==> final(self).content() == replaced_bytes(old(self).content(), range, replacement@),
            valid_utf8(final(self).content()),
            final(self).same_beyond_content(old(self)),
    ;
}

impl<'a> ReadableDocument for &'a [u8] {
    open spec fn content(&self) -> Seq<u8> {
        (*self)@
    }

    fn read_forward(&self, off: usize) -> (r: &[u8]) {
        slice_forward(*self, off)
    }

    fn read_backward(&self, off: usize) -> (r: &[u8]) {
        slice_backward(*self, off)
    }
}

impl ReadableDocument for String {
    open spec fn content(&self) -> Seq<u8> {
        encode_utf8(self@)
    }

    fn read_forward(&self, off: usize) -> (r: &[u8]) {
        slice_forward(self.as_str().as_bytes(), off)
    }

    fn read_backward(&self, off: usize) -> (r: &[u8]) {
        slice_backward(self.as_str().as_bytes(), off)
    }
}

impl WriteableDocument for String {
    /// A string holds nothing besides its text.
    open spec fn same_beyond_content(&self, other: &Self) -> bool {
        true
    }

    fn replace(&mut self, range: Range<usize>, replacement: &[u8]) {
        replace_in_string(self, range, replacement);
        proof {
            encode_utf8_valid_utf8(self@);
        }
    }
}

/// A file name or path held as text, which renaming edits in place.
pub struct PathBuffer {
    path: String,
}

impl View for PathBuffer {
    type V = Seq<char>;

    closed spec fn view(&self) -> Seq<char> {
        self.path@
    }
}

impl PathBuffer {
    /// A buffer holding `path`.
    pub fn new(path: String) -> (r: PathBuffer)
        ensures
            r@ == path@,
    {
        PathBuffer { path }
    }

    /// The path as text.
    pub fn as_str(&self) -> (r: &str)
        ensures
            r@ == self@,
    {
        self.path.as_str()
    }
}

impl ReadableDocument for PathBuffer {
    open spec fn content(&self) -> Seq<u8> {
        encode_utf8(self@)
    }

    fn read_forward(&self, off: usize) -> (r: &[u8]) {
        slice_forward(self.path.as_str().as_bytes(), off)
    }

    fn read_backward(&self, off: usize) -> (r: &[u8]) {
        slice_backward(self.path.as_str().as_bytes(), off)
    }
}

impl WriteableDocument for PathBuffer {
    /// A path buffer holds nothing besides its text.
    open spec fn same_beyond_content(&self, other: &Self) -> bool {
        true
    }

    fn replace(&mut self, range: Range<usize>, replacement: &[u8]) {
        replace_in_string(&mut self.path, range, replacement);
        proof {
            encode_utf8_valid_utf8(self.path@);
        }
    }
}

} // verus!
