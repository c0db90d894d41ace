use vstd::prelude::*;
use vstd::string::*;
use vstd::utf8::*;

verus! {

/// The ASCII digit for `d < 10`.
pub open spec fn digit_char(d: nat) -> char {
    if d == 0 {
        '0'
    } else if d == 1 {
        '1'
    } else if d == 2 {
        '2'
    } else if d == 3 {
        '3'
    } else if d == 4 {
        '4'
    } else if d == 5 {
        '5'
    } else if d == 6 {
        '6'
    } else if d == 7 {
        '7'
    } else if d == 8 {
        '8'
    } else {
        '9'
    }
}

/// The decimal representation of `n`, without leading zeros.
pub open spec fn decimal(n: nat) -> Seq<char>
    decreases n,
{
    if n < 10 {
        seq![digit_char(n)]
    } else {
        decimal(n / 10).push(digit_char(n % 10))
    }
}

/// `text` preceded by spaces up to `width` characters.
pub open spec fn pad_left(text: Seq<char>, width: nat) -> Seq<char> {
    if text.len() >= width {
        text
    } else {
        Seq::new((width - text.len()) as nat, |_i: int| ' ') + text
    }
}

/// `text` followed by spaces up to `width` characters.
pub open spec fn pad_right(text: Seq<char>, width: nat) -> Seq<char> {
    if text.len() >= width {
        text
    } else {
        text + Seq::new((width - text.len()) as nat, |_i: int| ' ')
    }
}

/// `count` copies of `c`.
pub open spec fn repeat_char(c: char, count: nat) -> Seq<char> {
    Seq::new(count, |_i: int| c)
}

/// The items of `parts` separated by `separator`.
pub open spec fn join(parts: Seq<Seq<char>>, separator: Seq<char>) -> Seq<char>
    decreases parts.len(),
{
    if parts.len() == 0 {
        seq![]
    } else if parts.len() == 1 {
        parts[0]
    } else {
        join(parts.drop_last(), separator) + separator + parts.last()
    }
}

/// The one-character text of a decimal digit.
fn digit_text(d: u64) -> (text: &'static str)
    requires
        d < 10,
    ensures
        text@ == seq![digit_char(d as nat)],
{
    if d == 0 {
        proof {
            reveal_strlit("0");
        }
        "0"
    } else if d == 1 {
        proof {
            reveal_strlit("1");
        }
        "1"
    } else if d == 2 {
        proof {
            reveal_strlit("2");
        }
        "2"
    } else if d == 3 {
        proof {
            reveal_strlit("3");
        }
        "3"
    } else if d == 4 {
        proof {
            reveal_strlit("4");
        }
        "4"
    } else if d == 5 {
        proof {
            reveal_strlit("5");
        }
        "5"
    } else if d == 6 {
        proof {
            reveal_strlit("6");
        }
        "6"
    } else if d == 7 {
        proof {
            reveal_strlit("7");
        }
        "7"
    } else if d == 8 {
        proof {
            reveal_strlit("8");
        }
        "8"
    } else {
        proof {
            reveal_strlit("9");
        }
        "9"
    }
}

/// Appends the decimal representation of `n` to `out`.
pub fn push_decimal(out: &mut String, n: u64)
    ensures
        final(out)@ == old(out)@ + decimal(n as nat),
    decreases n,
{
    if n >= 10 {
        push_decimal(out, n / 10);
    }
    let digit = digit_text(n % 10);
    out.append(digit);
    proof {
        if n >= 10 {
            assert(old(out)@ + decimal(n as nat) =~= old(out)@ + decimal((n / 10) as nat) + seq![
                digit_char((n % 10) as nat),
            ]);
        }
    }
}

/// The decimal representation of `n`.
pub fn decimal_text(n: u64) -> (text: String)
    ensures
        text@ == decimal(n as nat),
{
    let mut text = String::new();
    push_decimal(&mut text, n);
    proof {
        assert(Seq::<char>::empty() + decimal(n as nat) =~= decimal(n as nat));
    }
    text
}

/// A new string holding `a` followed by `b`.
pub fn concat(a: &str, b: &str) -> (text: String)
    ensures
        text@ == a@ + b@,
{
    let mut text = String::from_str(a);
    text.append(b);
    text
}

/// Appends `count` copies of `piece` (a one-character string) to `out`.
pub fn push_repeated(out: &mut String, piece: &str, count: usize)
    requires
        piece@.len() == 1,
    ensures
        final(out)@ == old(out)@ + repeat_char(piece@[0], count as nat),
{
    let mut index: usize = 0;
    while index < count
        invariant
            index <= count,
            piece@.len() == 1,
            out@ == old(out)@ + repeat_char(piece@[0], index as nat),
        decreases count - index,
    {
        out.append(piece);
        index = index + 1;
        proof {
            assert(out@ =~= old(out)@ + repeat_char(piece@[0], index as nat));
        }
    }
}

/// `text` preceded by spaces up to `width` characters.
pub fn padded_left(text: &str, width: usize) -> (result: String)
    ensures
        result@ == pad_left(text@, width as nat),
{
    let length = text.unicode_len();
    let mut result = String::new();
    if length < width {
        proof {
            reveal_strlit(" ");
        }
        push_repeated(&mut result, " ", width - length);
    }
    result.append(text);
    proof {
        if length < width {
            assert(result@ =~= pad_left(text@, width as nat));
        } else {
            assert(result@ =~= pad_left(text@, width as nat));
        }
    }
    result
}

/// `text` followed by spaces up to `width` characters.
pub fn padded_right(text: &str, width: usize) -> (result: String)
    ensures
        result@ == pad_right(text@, width as nat),
{
    let length = text.unicode_len();
    let mut result = String::from_str(text);
    if length < width {
        proof {
            reveal_strlit(" ");
        }
        push_repeated(&mut result, " ", width - length);
    }
    proof {
        assert(result@ =~= pad_right(text@, width as nat));
    }
    result
}

/// Whether `text` starts with `prefix`.
pub fn starts_with(text: &str, prefix: &str) -> (result: bool)
    ensures
        result == (prefix@.len() <= text@.len() && text@.subrange(0, prefix@.len() as int)
            == prefix@),
{
    let prefix_len = prefix.unicode_len();
    let text_len = text.unicode_len();
    if prefix_len > text_len {
        return false;
    }
    let mut index: usize = 0;
    while index < prefix_len
        invariant
            index <= prefix_len <= text_len,
            prefix_len == prefix@.len(),
            text_len == text@.len(),
            forall|k: int| 0 <= k < index ==> text@[k] == prefix@[k],
        decreases prefix_len - index,
    {
        if text.get_char(index) != prefix.get_char(index) {
            assert(text@.subrange(0, prefix@.len() as int)[index as int] != prefix@[index as int]);
            return false;
        }
        index = index + 1;
    }
    assert(text@.subrange(0, prefix@.len() as int) =~= prefix@);
    true
}

/// Whether two strings hold the same characters.
pub fn same_text(a: &str, b: &str) -> (result: bool)
    ensures
        result == (a@ == b@),
{
    let a_bytes = a.as_bytes();
    let b_bytes = b.as_bytes();
    proof {
        vstd::utf8::encode_utf8_decode_utf8(a@);
        vstd::utf8::encode_utf8_decode_utf8(b@);
    }
    if a_bytes.len() != b_bytes.len() {
        return false;
    }
    let mut index: usize = 0;
    while index < a_bytes.len()
        invariant
            index <= a_bytes@.len(),
            a_bytes@.len() == b_bytes@.len(),
            a_bytes@ == a.spec_bytes(),
            b_bytes@ == b.spec_bytes(),
            forall|k: int| 0 <= k < index ==> a_bytes@[k] == b_bytes@[k],
        decreases a_bytes@.len() - index,
    {
        if a_bytes[index] != b_bytes[index] {
            return false;
        }
        index = index + 1;
    }
    assert(a_bytes@ =~= b_bytes@);
    true
}

/// Whether `piece` is a contiguous part of `text`.
pub open spec fn piece_of(piece: Seq<char>, text: Seq<char>) -> bool {
    exists|i: int, j: int| 0 <= i <= j <= text.len() && piece == text.subrange(i, j)
}

/// Whether `c` is white space in Unicode's White_Space property.
pub open spec fn is_white_space(c: char) -> bool {
    let n = c as u32;
    ||| 9 <= n <= 13
    ||| n == 32
    ||| n == 0x85
    ||| n == 0xa0
    ||| n == 0x1680
    ||| 0x2000 <= n <= 0x200a
    ||| n == 0x2028
    ||| n == 0x2029
    ||| n == 0x202f
    ||| n == 0x205f
    ||| n == 0x3000
}

/// `text` without its leading white space.
pub open spec fn trim_start_white_space(text: Seq<char>) -> Seq<char>
    decreases text.len(),
{
    if text.len() > 0 && is_white_space(text[0]) {
        trim_start_white_space(text.drop_first())
    } else {
        text
    }
}

/// `text` without its trailing white space.
pub open spec fn trim_end_white_space(text: Seq<char>) -> Seq<char>
    decreases text.len(),
{
    if text.len() > 0 && is_white_space(text.last()) {
        trim_end_white_space(text.drop_last())
    } else {
        text
    }
}

/// `text` without its leading and trailing white space.
pub open spec fn trim_white_space(text: Seq<char>) -> Seq<char> {
    trim_end_white_space(trim_start_white_space(text))
}

/// `text` without its leading and trailing whitespace.
///
/// Calls `str::trim`. Its documentation promises a slice of `text` without
/// leading and trailing whitespace, as Unicode's White_Space property
/// defines it (the code points listed in `is_white_space`).
#[verifier::external_body]
pub(crate) fn trimmed(text: &str) -> (piece: &str)
    ensures
        piece_of(piece@, text@),
        piece@ == trim_white_space(text@),
{
    text.trim()
}

/// Whether `piece` occurs in `text`.
pub open spec fn occurs_in(piece: Seq<char>, text: Seq<char>) -> bool {
    exists|i: int| 0 <= i <= text.len() - piece.len() && #[trigger] text.subrange(i, i + piece.len())
        == piece
}

/// Whether `piece` occurs in `text`.
pub fn contains_text(text: &str, piece: &str) -> (found: bool)
    ensures
        found == occurs_in(piece@, text@),
{
    let text_len = text.unicode_len();
    let piece_len = piece.unicode_len();
    if piece_len > text_len {
        return false;
    }
    let mut start: usize = 0;
    while start <= text_len - piece_len
        invariant
            text_len == text@.len(),
            piece_len == piece@.len(),
            piece_len <= text_len,
            start <= text_len - piece_len + 1,
            forall|i: int| 0 <= i < start ==> #[trigger] text@.subrange(i, i + piece_len) != piece@,
        decreases text_len - piece_len + 1 - start,
    {
        let mut k: usize = 0;
        let mut same = true;
        while k < piece_len
            invariant
                k <= piece_len,
                text_len == text@.len(),
                piece_len == piece@.len(),
                start + piece_len <= text_len,
                same == forall|m: int| 0 <= m < k ==> text@[start + m] == piece@[m],
            decreases piece_len - k,
        {
            if text.get_char(start + k) != piece.get_char(k) {
                same = false;
            }
            k = k + 1;
        }
        if same {
            assert(text@.subrange(start as int, start + piece_len) =~= piece@);
            return true;
        }
        assert(text@.subrange(start as int, start + piece_len) != piece@) by {
            let m = choose|m: int| 0 <= m < piece_len && text@[start + m] != piece@[m];
            assert(text@.subrange(start as int, start + piece_len)[m] == text@[start + m]);
        }
        start = start + 1;
    }
    false
}

} // verus!
