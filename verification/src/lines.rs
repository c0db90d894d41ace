use vstd::prelude::*;
use vstd::string::*;
use vstd::utf8::*;

use crate::diagnostic::{Position, SourceSpan};

verus! {

broadcast use vstd::seq_lib::group_seq_properties;

pub const LINE_FEED: u8 = 10;

pub const CARRIAGE_RETURN: u8 = 13;

/// Offset of the first byte of every line of `bytes` that begins at or before
/// position `n`: offset 0, then every offset directly after a line feed that
/// still lies inside the text.
pub open spec fn line_starts_upto(bytes: Seq<u8>, n: nat) -> Seq<int>
    decreases n,
{
    if n == 0 {
        seq![0int]
    } else {
        let previous = line_starts_upto(bytes, (n - 1) as nat);
        if bytes[n - 1] == LINE_FEED && n < bytes.len() {
            previous.push(n as int)
        } else {
            previous
        }
    }
}

/// Offsets at which the lines of `bytes` start, in increasing order.
pub open spec fn line_starts(bytes: Seq<u8>) -> Seq<int> {
    line_starts_upto(bytes, bytes.len())
}

/// Number of physical lines: none for empty text, otherwise one per line
/// start, so that a final line feed does not open another line.
pub open spec fn physical_line_count(bytes: Seq<u8>) -> nat {
    if bytes.len() == 0 {
        0
    } else {
        line_starts(bytes).len()
    }
}

/// `n` as a `u32`, or `u32::MAX` when it does not fit.
pub open spec fn saturate_u32(n: int) -> u32 {
    if n > u32::MAX {
        u32::MAX
    } else {
        n as u32
    }
}

/// How many of the `starts` lie at or before `offset`.
pub open spec fn count_at_or_before(starts: Seq<int>, offset: int) -> nat
    decreases starts.len(),
{
    if starts.len() == 0 {
        0
    } else {
        count_at_or_before(starts.drop_last(), offset) + if starts.last() <= offset {
            1nat
        } else {
            0nat
        }
    }
}

/// The one-based number of the line that contains byte `offset`.
pub open spec fn line_of(bytes: Seq<u8>, offset: int) -> nat {
    count_at_or_before(line_starts(bytes), offset)
}

/// The reported line of `offset`, saturated to `u32`.
pub open spec fn reported_line(bytes: Seq<u8>, offset: int) -> u32 {
    saturate_u32(line_of(bytes, offset) as int)
}

/// The position of byte `offset`: its line, and one more than the number of
/// Unicode scalars between the start of that line and the offset.
pub open spec fn position_at(bytes: Seq<u8>, offset: int) -> Position {
    let line = reported_line(bytes, offset);
    let start = line_starts(bytes)[line - 1];
    Position {
        line,
        column: saturate_u32(decode_utf8(bytes.subrange(start, offset)).len() + 1int),
    }
}

/// `start` clamped to the text.
pub open spec fn clamped_start(bytes: Seq<u8>, start: int) -> int {
    if start < bytes.len() {
        start
    } else {
        bytes.len() as int
    }
}

/// `end` clamped to the text and to no less than the clamped start.
pub open spec fn clamped_end(bytes: Seq<u8>, start: int, end: int) -> int {
    let limited = if end < bytes.len() {
        end
    } else {
        bytes.len() as int
    };
    if limited < clamped_start(bytes, start) {
        clamped_start(bytes, start)
    } else {
        limited
    }
}

/// The span of the byte range `start..end`, clamped to the text.
pub open spec fn span_at(bytes: Seq<u8>, start: int, end: int) -> SourceSpan {
    let s = clamped_start(bytes, start);
    let e = clamped_end(bytes, start, end);
    SourceSpan {
        byte_start: saturate_u32(s),
        byte_end: saturate_u32(e),
        start: position_at(bytes, s),
        end: position_at(bytes, e),
    }
}

/// Number of lines that the exclusive byte range `start..end` touches.
pub open spec fn touched_line_count(bytes: Seq<u8>, start: int, end: int) -> int {
    if end <= start {
        0
    } else {
        let len = bytes.len() as int;
        let first = reported_line(bytes, if start < len { start } else { len });
        let last = reported_line(bytes, if end - 1 < len { end - 1 } else { len });
        last - first + 1
    }
}

/// Where the line with zero-based `index` ends: at the next line start, or at
/// the end of the text.
pub open spec fn line_end(bytes: Seq<u8>, index: int) -> int {
    if index + 1 < line_starts(bytes).len() {
        line_starts(bytes)[index + 1]
    } else {
        bytes.len() as int
    }
}

/// `bytes` without its trailing carriage returns and line feeds.
pub open spec fn trim_line_end(bytes: Seq<u8>) -> Seq<u8>
    decreases bytes.len(),
{
    if bytes.len() > 0 && (bytes.last() == LINE_FEED || bytes.last() == CARRIAGE_RETURN) {
        trim_line_end(bytes.drop_last())
    } else {
        bytes
    }
}

/// The bytes of the one-based line `line`, without its line ending.
pub open spec fn line_text_bytes(bytes: Seq<u8>, line: int) -> Seq<u8> {
    trim_line_end(bytes.subrange(line_starts(bytes)[line - 1], line_end(bytes, line - 1)))
}

/// Number of bytes that begin a UTF-8 encoded scalar.
pub open spec fn count_leading_bytes(bytes: Seq<u8>) -> nat
    decreases bytes.len(),
{
    if bytes.len() == 0 {
        0
    } else {
        count_leading_bytes(bytes.drop_last()) + if is_continuation_byte(bytes.last()) {
            0nat
        } else {
            1nat
        }
    }
}

proof fn lemma_line_starts_shape(bytes: Seq<u8>, n: nat)
    ensures
        line_starts_upto(bytes, n).len() >= 1,
        line_starts_upto(bytes, n)[0] == 0,
        forall|k: int|
            0 < k < line_starts_upto(bytes, n).len() ==> {
                let s = #[trigger] line_starts_upto(bytes, n)[k];
                &&& 0 < s <= n
                &&& s < bytes.len()
                &&& bytes[s - 1] == LINE_FEED
            },
        forall|i: int, j: int|
            0 <= i < j < line_starts_upto(bytes, n).len() ==> line_starts_upto(bytes, n)[i]
                < line_starts_upto(bytes, n)[j],
    decreases n,
{
    if n > 0 {
        lemma_line_starts_shape(bytes, (n - 1) as nat);
    }
}

proof fn lemma_line_starts(bytes: Seq<u8>)
    ensures
        line_starts(bytes).len() >= 1,
        line_starts(bytes)[0] == 0,
        forall|k: int|
            0 < k < line_starts(bytes).len() ==> {
                let s = #[trigger] line_starts(bytes)[k];
                &&& 0 < s < bytes.len()
                &&& bytes[s - 1] == LINE_FEED
            },
        forall|i: int, j: int|
            0 <= i < j < line_starts(bytes).len() ==> line_starts(bytes)[i]
                < line_starts(bytes)[j],
{
    lemma_line_starts_shape(bytes, bytes.len());
}

proof fn lemma_count_partition(starts: Seq<int>, offset: int, p: int)
    requires
        0 <= p <= starts.len(),
        forall|k: int| 0 <= k < p ==> #[trigger] starts[k] <= offset,
        forall|k: int| p <= k < starts.len() ==> #[trigger] starts[k] > offset,
    ensures
        count_at_or_before(starts, offset) == p,
    decreases starts.len(),
{
    if starts.len() > 0 {
        let rest = starts.drop_last();
        if p == starts.len() {
            assert(starts[starts.len() - 1] <= offset);
            lemma_count_partition(rest, offset, p - 1);
        } else {
            assert(starts[starts.len() - 1] > offset);
            lemma_count_partition(rest, offset, p);
        }
    }
}

proof fn lemma_count_monotonic(starts: Seq<int>, a: int, b: int)
    requires
        a <= b,
    ensures
        count_at_or_before(starts, a) <= count_at_or_before(starts, b),
    decreases starts.len(),
{
    if starts.len() > 0 {
        lemma_count_monotonic(starts.drop_last(), a, b);
    }
}

proof fn lemma_count_bounds(starts: Seq<int>, offset: int)
    requires
        starts.len() >= 1,
        starts[0] <= offset,
    ensures
        1 <= count_at_or_before(starts, offset) <= starts.len(),
    decreases starts.len(),
{
    if starts.len() > 1 {
        assert(starts.drop_last()[0] == starts[0]);
        lemma_count_bounds(starts.drop_last(), offset);
    } else {
        assert(starts.drop_last().len() == 0);
        assert(count_at_or_before(starts.drop_last(), offset) == 0);
    }
    assert(starts.last() == starts[starts.len() - 1]);
}

proof fn lemma_count_upper(starts: Seq<int>, offset: int)
    ensures
        count_at_or_before(starts, offset) <= starts.len(),
    decreases starts.len(),
{
    if starts.len() > 0 {
        lemma_count_upper(starts.drop_last(), offset);
    }
}

proof fn lemma_count_leading_split(bytes: Seq<u8>, k: int)
    requires
        0 <= k <= bytes.len(),
    ensures
        count_leading_bytes(bytes) == count_leading_bytes(bytes.subrange(0, k))
            + count_leading_bytes(bytes.subrange(k, bytes.len() as int)),
    decreases bytes.len() - k,
{
    if k == bytes.len() {
        assert(bytes.subrange(0, k) =~= bytes);
        assert(bytes.subrange(k, bytes.len() as int) =~= Seq::<u8>::empty());
    } else {
        let n = bytes.len() as int;
        lemma_count_leading_split(bytes.drop_last(), k);
        assert(bytes.drop_last().subrange(0, k) =~= bytes.subrange(0, k));
        assert(bytes.subrange(k, n).drop_last() =~= bytes.drop_last().subrange(k, n - 1));
        assert(bytes.subrange(k, n).last() == bytes.last());
    }
}

proof fn lemma_count_first_scalar(bytes: Seq<u8>)
    requires
        bytes.len() > 0,
        valid_first_scalar(bytes),
    ensures
        count_leading_bytes(bytes.subrange(0, length_of_first_scalar(bytes))) == 1,
{
    let k = length_of_first_scalar(bytes);
    assert(1 <= k <= 4 && k <= bytes.len());
    assert(!is_continuation_byte(bytes[0]));
    assert(bytes.subrange(0, 1).drop_last() =~= bytes.subrange(0, 0));
    assert(count_leading_bytes(bytes.subrange(0, 0)) == 0);
    assert(count_leading_bytes(bytes.subrange(0, 1)) == 1);
    if k >= 2 {
        assert(is_continuation_byte(bytes[1]));
        assert(bytes.subrange(0, 2).drop_last() =~= bytes.subrange(0, 1));
        assert(count_leading_bytes(bytes.subrange(0, 2)) == 1);
    }
    if k >= 3 {
        assert(is_continuation_byte(bytes[2]));
        assert(bytes.subrange(0, 3).drop_last() =~= bytes.subrange(0, 2));
        assert(count_leading_bytes(bytes.subrange(0, 3)) == 1);
    }
    if k >= 4 {
        assert(is_continuation_byte(bytes[3]));
        assert(bytes.subrange(0, 4).drop_last() =~= bytes.subrange(0, 3));
        assert(count_leading_bytes(bytes.subrange(0, 4)) == 1);
    }
}

/// In valid UTF-8, the number of decoded scalars is the number of leading bytes.
proof fn lemma_decode_len(bytes: Seq<u8>)
    requires
        valid_utf8(bytes),
    ensures
        decode_utf8(bytes).len() == count_leading_bytes(bytes),
    decreases bytes.len(),
{
    if bytes.len() > 0 {
        let k = length_of_first_scalar(bytes);
        let rest = pop_first_scalar(bytes);
        lemma_decode_len(rest);
        lemma_count_leading_split(bytes, k);
        lemma_count_first_scalar(bytes);
    }
}

/// Character boundaries of a text are also boundaries of each of its prefixes
/// that end at a boundary.
proof fn lemma_boundary_of_prefix(bytes: Seq<u8>, i: int, j: int)
    requires
        valid_utf8(bytes),
        is_char_boundary(bytes, i),
        is_char_boundary(bytes, j),
        0 <= i <= j <= bytes.len(),
    ensures
        valid_utf8(bytes.subrange(0, j)),
        is_char_boundary(bytes.subrange(0, j), i),
{
    let prefix = bytes.subrange(0, j);
    vstd::utf8::valid_utf8_split(bytes, j);
    vstd::utf8::is_char_boundary_start_end_of_seq(prefix);
    if i < j {
        vstd::utf8::is_char_boundary_iff_not_is_continuation_byte(bytes, i);
        vstd::utf8::is_char_boundary_iff_not_is_continuation_byte(prefix, i);
    }
}

/// The bytes between two boundaries form valid UTF-8.
proof fn lemma_valid_between(bytes: Seq<u8>, i: int, j: int)
    requires
        valid_utf8(bytes),
        is_char_boundary(bytes, i),
        is_char_boundary(bytes, j),
        0 <= i <= j <= bytes.len(),
    ensures
        valid_utf8(bytes.subrange(i, j)),
{
    lemma_boundary_of_prefix(bytes, i, j);
    let prefix = bytes.subrange(0, j);
    vstd::utf8::valid_utf8_split(prefix, i);
    assert(prefix.subrange(i, prefix.len() as int) =~= bytes.subrange(i, j));
}

/// The byte after a single-byte scalar starts a scalar.
proof fn lemma_boundary_after_ascii(bytes: Seq<u8>, i: int)
    requires
        valid_utf8(bytes),
        0 < i <= bytes.len(),
        bytes[i - 1] < 0x80,
    ensures
        is_char_boundary(bytes, i),
{
    vstd::utf8::is_char_boundary_start_end_of_seq(bytes);
    if i < bytes.len() {
        vstd::utf8::is_char_boundary_iff_not_is_continuation_byte(bytes, i - 1);
        vstd::utf8::valid_utf8_split(bytes, i - 1);
        let tail = bytes.subrange(i - 1, bytes.len() as int);
        assert(tail[0] == bytes[i - 1]);
        assert(valid_first_scalar(tail));
        let rest = pop_first_scalar(tail);
        assert(rest =~= bytes.subrange(i, bytes.len() as int));
        assert(valid_utf8(rest));
        assert(rest[0] == bytes[i]);
        assert(valid_first_scalar(rest));
        vstd::utf8::is_char_boundary_iff_not_is_continuation_byte(bytes, i);
    }
}

/// Every line start is a character boundary.
proof fn lemma_line_start_boundary(bytes: Seq<u8>, k: int)
    requires
        valid_utf8(bytes),
        0 <= k < line_starts(bytes).len(),
    ensures
        is_char_boundary(bytes, line_starts(bytes)[k]),
        0 <= line_starts(bytes)[k] <= bytes.len(),
{
    lemma_line_starts(bytes);
    vstd::utf8::is_char_boundary_start_end_of_seq(bytes);
    if k > 0 {
        lemma_boundary_after_ascii(bytes, line_starts(bytes)[k]);
    }
}

/// The end of every line is a character boundary.
proof fn lemma_line_end_boundary(bytes: Seq<u8>, k: int)
    requires
        valid_utf8(bytes),
        0 <= k < line_starts(bytes).len(),
    ensures
        is_char_boundary(bytes, line_end(bytes, k)),
        line_starts(bytes)[k] <= line_end(bytes, k) <= bytes.len(),
{
    lemma_line_starts(bytes);
    lemma_line_start_boundary(bytes, k);
    vstd::utf8::is_char_boundary_start_end_of_seq(bytes);
    if k + 1 < line_starts(bytes).len() {
        lemma_line_start_boundary(bytes, k + 1);
    }
}

/// `value` as a `u32`, saturating at `u32::MAX`.
pub fn to_u32(value: usize) -> (result: u32)
    ensures
        result == saturate_u32(value as int),
{
    if value > 0xffff_ffffusize {
        u32::MAX
    } else {
        value as u32
    }
}

/// Byte offsets of every line start of a text, for converting byte ranges
/// into line and column positions.
pub struct LineIndex {
    starts: Vec<usize>,
    text_len: usize,
    physical_lines: u32,
    text: Ghost<Seq<u8>>,
}

impl LineIndex {
    #[verifier::type_invariant]
    spec fn inv(self) -> bool {
        &&& valid_utf8(self.text@)
        &&& self.starts@.len() == line_starts(self.text@).len()
        &&& forall|k: int|
            0 <= k < self.starts@.len() ==> #[trigger] self.starts@[k] as int == line_starts(
                self.text@,
            )[k]
        &&& self.text_len == self.text@.len()
        &&& self.physical_lines == saturate_u32(physical_line_count(self.text@) as int)
    }

    /// The bytes of the text that this index describes.
    pub closed spec fn text_bytes(&self) -> Seq<u8> {
        self.text@
    }

    /// Indexes the line starts of `text`.
    pub fn new(text: &str) -> (index: Self)
        ensures
            index.text_bytes() == text.spec_bytes(),
    {
        let bytes = text.as_bytes();
        let len = bytes.len();
        proof {
            vstd::utf8::encode_utf8_valid_utf8(text@);
        }
        let ghost b = bytes@;
        let mut starts: Vec<usize> = Vec::new();
        starts.push(0);
        let mut index: usize = 0;
        while index < len
            invariant
                index <= len,
                len == b.len(),
                bytes@ == b,
                starts@.len() == line_starts_upto(b, index as nat).len(),
                forall|k: int|
                    0 <= k < starts@.len() ==> #[trigger] starts@[k] as int == line_starts_upto(
                        b,
                        index as nat,
                    )[k],
            decreases len - index,
        {
            if bytes[index] == LINE_FEED && index + 1 < len {
                starts.push(index + 1);
            }
            index = index + 1;
        }
        let physical_lines = if len == 0 {
            0
        } else {
            to_u32(starts.len())
        };
        LineIndex { starts, text_len: len, physical_lines, text: Ghost(b) }
    }

    /// Number of physical lines of the text.
    pub fn physical_lines(&self) -> (count: u32)
        ensures
            count == saturate_u32(physical_line_count(self.text_bytes()) as int),
    {
        proof {
            use_type_invariant(self);
        }
        self.physical_lines
    }

    /// The one-based line containing `offset`: the number of line starts at
    /// or before it.
    fn line_number(&self, offset: usize) -> (line: u32)
        ensures
            line == reported_line(self.text_bytes(), offset as int),
            1 <= line,
            line <= line_starts(self.text_bytes()).len(),
    {
        proof {
            use_type_invariant(self);
            lemma_line_starts(self.text@);
        }
        let ghost starts = line_starts(self.text@);
        let mut low: usize = 0;
        let mut high: usize = self.starts.len();
        while low < high
            invariant
                0 <= low <= high <= self.starts@.len(),
                self.starts@.len() == starts.len(),
                forall|k: int| 0 <= k < self.starts@.len() ==> #[trigger] self.starts@[k] as int == starts[k],
                forall|i: int, j: int| 0 <= i < j < starts.len() ==> starts[i] < starts[j],
                forall|k: int| 0 <= k < low ==> #[trigger] starts[k] <= offset,
                forall|k: int| high <= k < starts.len() ==> #[trigger] starts[k] > offset,
            decreases high - low,
        {
            let middle = low + (high - low) / 2;
            if self.starts[middle] <= offset {
                assert(forall|k: int| 0 <= k <= middle ==> #[trigger] starts[k] <= starts[middle as int]);
                low = middle + 1;
            } else {
                assert(forall|k: int| middle <= k < starts.len() ==> starts[middle as int] <= #[trigger] starts[k]);
                high = middle;
            }
        }
        proof {
            lemma_count_partition(starts, offset as int, low as int);
            assert(starts[0] <= offset);
        }
        to_u32(low)
    }

    /// The position of `offset`, which must start a scalar.
    fn position(&self, text: &str, offset: usize) -> (position: Position)
        requires
            text.spec_bytes() == self.text_bytes(),
            offset <= self.text_bytes().len(),
            is_char_boundary(self.text_bytes(), offset as int),
        ensures
            position == position_at(self.text_bytes(), offset as int),
    {
        proof {
            use_type_invariant(self);
        }
        let ghost b = self.text@;
        let line = self.line_number(offset);
        let start = self.starts[(line - 1) as usize];
        proof {
            lemma_line_starts(b);
            lemma_line_start_boundary(b, line - 1);
            let ls = line_starts(b);
            lemma_count_bounds(ls, offset as int);
            lemma_count_partition_inverse(ls, offset as int);
            lemma_valid_between(b, start as int, offset as int);
        }
        let bytes = text.as_bytes();
        let mut count: usize = 0;
        let mut index: usize = start;
        while index < offset
            invariant
                start <= index <= offset,
                offset <= bytes@.len(),
                bytes@ == b,
                count == count_leading_bytes(b.subrange(start as int, index as int)),
                count <= index - start,
            decreases offset - index,
        {
            proof {
                assert(b.subrange(start as int, index + 1).drop_last() =~= b.subrange(
                    start as int,
                    index as int,
                ));
            }
            if bytes[index] < 0x80u8 || bytes[index] > 0xbfu8 {
                count = count + 1;
            }
            index = index + 1;
        }
        proof {
            lemma_decode_len(b.subrange(start as int, offset as int));
        }
        let column = if count >= 0xffff_ffffusize {
            u32::MAX
        } else {
            (count + 1) as u32
        };
        Position { line, column }
    }

    /// The span of the byte range `start..end`, clamped to the text. Both
    /// clamped ends must start a scalar.
    pub fn span(&self, text: &str, start: usize, end: usize) -> (span: SourceSpan)
        requires
            text.spec_bytes() == self.text_bytes(),
            is_char_boundary(self.text_bytes(), clamped_start(self.text_bytes(), start as int)),
            is_char_boundary(
                self.text_bytes(),
                clamped_end(self.text_bytes(), start as int, end as int),
            ),
        ensures
            span == span_at(self.text_bytes(), start as int, end as int),
    {
        proof {
            use_type_invariant(self);
        }
        let safe_start = if start < self.text_len {
            start
        } else {
            self.text_len
        };
        let limited = if end < self.text_len {
            end
        } else {
            self.text_len
        };
        let safe_end = if limited < safe_start {
            safe_start
        } else {
            limited
        };
        SourceSpan {
            byte_start: to_u32(safe_start),
            byte_end: to_u32(safe_end),
            start: self.position(text, safe_start),
            end: self.position(text, safe_end),
        }
    }

    /// Number of lines touched by the exclusive byte range `start..end`.
    pub fn span_line_count(&self, start: usize, end: usize) -> (count: u32)
        ensures
            count == touched_line_count(self.text_bytes(), start as int, end as int),
    {
        proof {
            use_type_invariant(self);
        }
        if end <= start {
            return 0;
        }
        let first_offset = if start < self.text_len {
            start
        } else {
            self.text_len
        };
        let last_offset = if end - 1 < self.text_len {
            end - 1
        } else {
            self.text_len
        };
        let first = self.line_number(first_offset);
        let last = self.line_number(last_offset);
        proof {
            lemma_count_monotonic(line_starts(self.text@), first_offset as int, last_offset as int);
        }
        last - first + 1
    }

    /// The text of the one-based line `line`, without its line ending, or
    /// `None` when the text has no such line.
    pub fn line_text<'a>(&self, text: &'a str, line: u32) -> (result: Option<&'a str>)
        requires
            text.spec_bytes() == self.text_bytes(),
        ensures
            match result {
                None => line == 0 || line > line_starts(self.text_bytes()).len(),
                Some(found) => {
                    &&& 1 <= line <= line_starts(self.text_bytes()).len()
                    &&& found.spec_bytes() == line_text_bytes(self.text_bytes(), line as int)
                },
            },
            self.text_bytes().len() > 0 ==> (result is Some <==> 1 <= line <= physical_line_count(
                self.text_bytes(),
            )),
    {
        proof {
            use_type_invariant(self);
        }
        let ghost b = self.text@;
        if line == 0 {
            return None;
        }
        let index = (line - 1) as usize;
        if index >= self.starts.len() {
            return None;
        }
        let start = self.starts[index];
        let end = if index + 1 < self.starts.len() {
            self.starts[index + 1]
        } else {
            text.len()
        };
        proof {
            lemma_line_end_boundary(b, index as int);
            lemma_line_start_boundary(b, index as int);
        }
        let bytes = text.as_bytes();
        let mut trimmed = end;
        while trimmed > start && (bytes[trimmed - 1] == LINE_FEED || bytes[trimmed - 1]
            == CARRIAGE_RETURN)
            invariant
                start <= trimmed <= end <= b.len(),
                bytes@ == b,
                trim_line_end(b.subrange(start as int, end as int)) == trim_line_end(
                    b.subrange(start as int, trimmed as int),
                ),
                trimmed == end || b[trimmed as int] == LINE_FEED || b[trimmed as int]
                    == CARRIAGE_RETURN,
            decreases trimmed,
        {
            proof {
                assert(b.subrange(start as int, trimmed as int).drop_last() =~= b.subrange(
                    start as int,
                    trimmed - 1,
                ));
            }
            trimmed = trimmed - 1;
        }
        proof {
            vstd::utf8::encode_utf8_valid_utf8(text@);
            if trimmed == end {
            } else {
                lemma_boundary_after_ascii(b, trimmed + 1);
                vstd::utf8::is_char_boundary_iff_not_is_continuation_byte(b, trimmed as int);
                vstd::utf8::is_char_boundary_iff_not_is_continuation_byte(b, trimmed as int);
            }
            lemma_boundary_of_prefix(b, start as int, trimmed as int);
        }
        let (head, _) = text.split_at(trimmed);
        let (_, found) = head.split_at(start);
        proof {
            assert(b.subrange(0, trimmed as int).subrange(start as int, trimmed as int) =~= b.subrange(
                start as int,
                trimmed as int,
            ));
        }
        Some(found)
    }
}

/// In sorted line starts beginning at 0, the line of an offset starts at or
/// before it and the next line starts after it.
proof fn lemma_count_partition_inverse(starts: Seq<int>, offset: int)
    requires
        starts.len() >= 1,
        starts[0] <= offset,
        forall|i: int, j: int| 0 <= i < j < starts.len() ==> starts[i] < starts[j],
    ensures
        1 <= count_at_or_before(starts, offset) <= starts.len(),
        starts[count_at_or_before(starts, offset) - 1] <= offset,
        forall|k: int|
            0 <= k < count_at_or_before(starts, offset) ==> #[trigger] starts[k] <= offset,
    decreases starts.len(),
{
    lemma_count_bounds(starts, offset);
    if starts.len() > 1 {
        let rest = starts.drop_last();
        lemma_count_partition_inverse(rest, offset);
    }
}

/// Number of line feeds in `bytes`.
pub open spec fn line_feed_count(bytes: Seq<u8>) -> nat
    decreases bytes.len(),
{
    if bytes.len() == 0 {
        0
    } else {
        line_feed_count(bytes.drop_last()) + if bytes.last() == LINE_FEED {
            1nat
        } else {
            0nat
        }
    }
}

proof fn lemma_starts_count_line_feeds(bytes: Seq<u8>, n: nat)
    requires
        n < bytes.len(),
    ensures
        line_starts_upto(bytes, n).len() == 1 + line_feed_count(bytes.subrange(0, n as int)),
    decreases n,
{
    if n > 0 {
        lemma_starts_count_line_feeds(bytes, (n - 1) as nat);
        assert(bytes.subrange(0, n as int).drop_last() =~= bytes.subrange(0, n - 1));
    } else {
        assert(bytes.subrange(0, 0) =~= Seq::<u8>::empty());
    }
}

/// The physical lines of a text: every line feed ends one line, and a final
/// line without a line feed is one more; empty text has none.
pub proof fn lemma_physical_lines_count_line_feeds(bytes: Seq<u8>)
    ensures
        physical_line_count(bytes) == line_feed_count(bytes) + if bytes.len() > 0
            && bytes.last() != LINE_FEED {
            1nat
        } else {
            0nat
        },
{
    if bytes.len() > 0 {
        let n = (bytes.len() - 1) as nat;
        lemma_starts_count_line_feeds(bytes, n);
        assert(bytes.subrange(0, n as int) =~= bytes.drop_last());
    }
}

/// The whole of a non-empty text touches every one of its physical lines.
pub proof fn lemma_whole_text_touches_every_line(bytes: Seq<u8>)
    requires
        bytes.len() > 0,
    ensures
        touched_line_count(bytes, 0, bytes.len() as int) == saturate_u32(
            physical_line_count(bytes) as int,
        ),
{
    let starts = line_starts(bytes);
    lemma_line_starts(bytes);
    let last = bytes.len() - 1;
    lemma_count_partition(starts, last, starts.len() as int);
    assert forall|k: int| 1 <= k < starts.len() implies #[trigger] starts[k] > 0 by {}
    lemma_count_partition(starts, 0, 1);
}

proof fn lemma_count_upto(bytes: Seq<u8>, offset: nat, n: nat)
    requires
        offset <= n <= bytes.len(),
    ensures
        count_at_or_before(line_starts_upto(bytes, n), offset as int) == line_starts_upto(
            bytes,
            offset,
        ).len(),
    decreases n,
{
    if n == offset {
        lemma_line_starts_shape(bytes, n);
        let starts = line_starts_upto(bytes, n);
        lemma_count_partition(starts, offset as int, starts.len() as int);
    } else {
        lemma_count_upto(bytes, offset, (n - 1) as nat);
        let previous = line_starts_upto(bytes, (n - 1) as nat);
        if bytes[n - 1] == LINE_FEED && n < bytes.len() {
            assert(line_starts_upto(bytes, n).drop_last() =~= previous);
        }
    }
}

/// The line of a byte is one more than the line feeds before it.
pub proof fn lemma_line_counts_line_feeds_before(bytes: Seq<u8>, offset: int)
    requires
        0 <= offset < bytes.len(),
    ensures
        line_of(bytes, offset) == 1 + line_feed_count(bytes.subrange(0, offset)),
{
    lemma_count_upto(bytes, offset as nat, bytes.len());
    lemma_starts_count_line_feeds(bytes, offset as nat);
}

proof fn lemma_trim_line_end(t: Seq<u8>)
    ensures
        trim_line_end(t).len() <= t.len(),
        trim_line_end(t) == t.subrange(0, trim_line_end(t).len() as int),
        trim_line_end(t).len() > 0 ==> trim_line_end(t).last() != LINE_FEED && trim_line_end(t).last()
            != CARRIAGE_RETURN,
    decreases t.len(),
{
    if t.len() > 0 && (t.last() == LINE_FEED || t.last() == CARRIAGE_RETURN) {
        lemma_trim_line_end(t.drop_last());
        let r = trim_line_end(t.drop_last());
        assert(t.drop_last().subrange(0, r.len() as int) =~= t.subrange(0, r.len() as int));
    } else {
        assert(t.subrange(0, t.len() as int) =~= t);
    }
}

proof fn lemma_starts_extend(bytes: Seq<u8>, m: nat, n: nat)
    requires
        m <= n,
    ensures
        line_starts_upto(bytes, m).len() <= line_starts_upto(bytes, n).len(),
        forall|k: int|
            0 <= k < line_starts_upto(bytes, m).len() ==> line_starts_upto(bytes, n)[k]
                == #[trigger] line_starts_upto(bytes, m)[k],
    decreases n,
{
    if n > m {
        lemma_starts_extend(bytes, m, (n - 1) as nat);
    }
}

proof fn lemma_line_feed_starts_line(bytes: Seq<u8>, i: int)
    requires
        0 <= i,
        i + 1 < bytes.len(),
        bytes[i] == LINE_FEED,
    ensures
        exists|k: int| 0 <= k < line_starts(bytes).len() && #[trigger] line_starts(bytes)[k] == i + 1,
{
    let m = (i + 1) as nat;
    let upto = line_starts_upto(bytes, m);
    assert(upto.last() == i + 1);
    lemma_starts_extend(bytes, m, bytes.len());
    let k = upto.len() - 1;
    assert(line_starts(bytes)[k] == upto[k]);
}

/// The text of a line holds no line feed and does not end with a carriage
/// return.
pub proof fn lemma_line_text_is_one_line(bytes: Seq<u8>, line: int)
    requires
        1 <= line <= line_starts(bytes).len(),
    ensures
        forall|i: int|
            0 <= i < line_text_bytes(bytes, line).len() ==> #[trigger] line_text_bytes(bytes, line)[i]
                != LINE_FEED,
        line_text_bytes(bytes, line).len() > 0 ==> line_text_bytes(bytes, line).last()
            != CARRIAGE_RETURN,
{
    let starts = line_starts(bytes);
    lemma_line_starts(bytes);
    let s = starts[line - 1];
    let e = line_end(bytes, line - 1);
    assert(0 <= s <= e <= bytes.len()) by {
        if line < starts.len() {
            assert(starts[line - 1] < starts[line]);
        }
    }
    let t = bytes.subrange(s, e);
    lemma_trim_line_end(t);
    let r = trim_line_end(t);
    assert forall|j: int| 0 <= j < t.len() - 1 implies t[j] != LINE_FEED by {
        if t[j] == LINE_FEED {
            let i = s + j;
            assert(bytes[i] == LINE_FEED);
            lemma_line_feed_starts_line(bytes, i);
            let k = choose|k: int| 0 <= k < starts.len() && #[trigger] starts[k] == i + 1;
            if k <= line - 1 {
                if k < line - 1 {
                    assert(starts[k] < starts[line - 1]);
                }
            } else if line < starts.len() {
                if k > line {
                    assert(starts[line] < starts[k]);
                }
            }
        }
    }
    assert forall|i: int| 0 <= i < r.len() implies #[trigger] r[i] != LINE_FEED by {
        assert(r[i] == t[i]);
        if i == t.len() - 1 {
            assert(r.len() == t.len());
            assert(r.last() == r[i]);
        }
    }
}

} // verus!
