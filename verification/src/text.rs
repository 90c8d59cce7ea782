//! Byte-level building blocks for journal text: decimal numbers, line breaks
//! and lines.

use vstd::prelude::*;
use vstd::string::*;

verus! {

/// The line feed, which separates the lines of a document.
pub const LINE_FEED: u8 = 10;

/// The space.
pub const SPACE: u8 = 32;

/// The hash sign, which begins a title or a marker.
pub const HASH: u8 = 35;

/// The plus sign.
pub const PLUS: u8 = 43;

/// The minus sign, which also joins the parts of a date.
pub const MINUS: u8 = 45;

/// The slash, which parts the names of a path.
pub const SLASH: u8 = 47;

/// The digit zero; the other digits follow it.
pub const ZERO: u8 = 48;

/// The colon, which joins the parts of a time.
pub const COLON: u8 = 58;

/// The bar, which frames the fields of an entry's line.
pub const BAR: u8 = 124;

/// The byte of the decimal digit `d`.
pub open spec fn digit_byte(d: nat) -> u8
    recommends
        d < 10,
{
    (ZERO + d) as u8
}

/// The decimal digits of `n`, most significant first, without leading zeros
/// (a single `0` for zero).
pub open spec fn decimal(n: nat) -> Seq<u8>
    decreases n,
{
    if n < 10 {
        seq![digit_byte(n)]
    } else {
        decimal(n / 10).push(digit_byte(n % 10))
    }
}

/// A whole number in decimal digits, with a minus sign where it is negative.
pub open spec fn signed_decimal(n: int) -> Seq<u8> {
    if n < 0 {
        seq![MINUS] + decimal((-n) as nat)
    } else {
        decimal(n as nat)
    }
}

/// `count` zero digits.
pub open spec fn zeros(count: nat) -> Seq<u8> {
    Seq::new(count, |i: int| ZERO)
}

/// The decimal digits of `n`, with zeros in front where they are fewer than
/// `width`.
pub open spec fn padded(n: nat, width: nat) -> Seq<u8> {
    if decimal(n).len() < width {
        zeros((width - decimal(n).len()) as nat) + decimal(n)
    } else {
        decimal(n)
    }
}

/// No byte of `s` is a line feed.
pub open spec fn single_lined(s: Seq<u8>) -> bool {
    forall|i: int| 0 <= i < s.len() ==> #[trigger] s[i] != LINE_FEED
}

/// Every byte of `s` is a decimal digit.
pub open spec fn all_digits(s: Seq<u8>) -> bool {
    forall|i: int| 0 <= i < s.len() ==> ZERO <= #[trigger] s[i] <= ZERO + 9
}

/// A decimal number is never empty and holds digits only.
pub proof fn lemma_decimal_digits(n: nat)
    ensures
        decimal(n).len() >= 1,
        all_digits(decimal(n)),
    decreases n,
{
    if n >= 10 {
        lemma_decimal_digits(n / 10);
    }
}

/// A padded number is at least as wide as asked and holds digits only.
pub proof fn lemma_padded_digits(n: nat, width: nat)
    ensures
        padded(n, width).len() >= width,
        padded(n, width).len() >= 1,
        all_digits(padded(n, width)),
{
    lemma_decimal_digits(n);
}

/// The number that a row of decimal digits stands for.
pub open spec fn digits_value(digits: Seq<u8>) -> nat
    decreases digits.len(),
{
    if digits.len() == 0 {
        0
    } else {
        digits_value(digits.drop_last()) * 10 + (digits.last() - ZERO) as nat
    }
}

/// The decimal digits of a number stand for that number.
pub proof fn lemma_decimal_value(n: nat)
    ensures
        digits_value(decimal(n)) == n,
    decreases n,
{
    let digits = decimal(n);
    if n < 10 {
        assert(digits.drop_last() =~= Seq::<u8>::empty());
        assert(digits_value(digits.drop_last()) == 0);
        assert(digits.last() == digit_byte(n));
    } else {
        lemma_decimal_value(n / 10);
        assert(digits.drop_last() =~= decimal(n / 10));
        assert(digits.last() == digit_byte(n % 10));
        assert(digits_value(digits) == (n / 10) * 10 + (n % 10));
    }
}

/// Zeros in front of a row of digits change nothing in what it stands for.
pub proof fn lemma_zeros_value(count: nat, digits: Seq<u8>)
    ensures
        digits_value(zeros(count) + digits) == digits_value(digits),
    decreases digits.len(), count,
{
    if digits.len() > 0 {
        lemma_zeros_value(count, digits.drop_last());
        assert((zeros(count) + digits).drop_last() =~= zeros(count) + digits.drop_last());
    } else if count > 0 {
        lemma_zeros_value((count - 1) as nat, digits);
        assert((zeros(count) + digits).drop_last() =~= zeros((count - 1) as nat) + digits);
    } else {
        assert(zeros(count) + digits =~= Seq::<u8>::empty());
    }
}

/// A padded number stands for that number, so that two numbers padded to
/// one width are written alike only where they are equal.
pub proof fn lemma_padded_value(n: nat, width: nat)
    ensures
        digits_value(padded(n, width)) == n,
{
    lemma_decimal_value(n);
    if decimal(n).len() < width {
        lemma_zeros_value((width - decimal(n).len()) as nat, decimal(n));
    }
}

/// A number below one hundred, padded to two digits, is two bytes long.
pub proof fn lemma_padded_two_wide(n: nat)
    requires
        n < 100,
    ensures
        padded(n, 2).len() == 2,
{
    if n >= 10 {
        assert(decimal(n / 10).len() == 1);
    }
}

/// Appends the decimal digits of `n` to `out`.
pub fn push_decimal(out: &mut Vec<u8>, n: u64)
    ensures
        final(out)@ == old(out)@ + decimal(n as nat),
    decreases n,
{
    if n >= 10 {
        push_decimal(out, n / 10);
    }
    let digit: u8 = (n % 10) as u8;
    out.push(ZERO + digit);
    assert(out@ =~= old(out)@ + decimal(n as nat));
}

/// Appends a whole number in decimal digits, with a minus sign where it is
/// negative.
pub fn push_signed(out: &mut Vec<u8>, n: i64)
    ensures
        final(out)@ == old(out)@ + signed_decimal(n as int),
{
    let ghost before = out@;
    if n < 0 {
        out.push(MINUS);
        let size: u64 = if n == i64::MIN {
            9223372036854775808u64
        } else {
            (-n) as u64
        };
        push_decimal(out, size);
    } else {
        push_decimal(out, n as u64);
    }
    assert(out@ =~= before + signed_decimal(n as int));
}

/// Appends the decimal digits of `n` to `out`, padded with zeros to `width`.
pub fn push_padded(out: &mut Vec<u8>, n: u64, width: usize)
    ensures
        final(out)@ == old(out)@ + padded(n as nat, width as nat),
{
    let mut digits: Vec<u8> = Vec::new();
    push_decimal(&mut digits, n);
    assert(digits@ =~= decimal(n as nat));
    let ghost before = out@;
    let mut filled: usize = digits.len();
    while filled < width
        invariant
            digits@.len() <= filled,
            filled <= width || filled == digits@.len(),
            out@ == before + zeros((filled - digits@.len()) as nat),
        decreases width - filled,
    {
        out.push(ZERO);
        filled = filled + 1;
        assert(out@ =~= before + zeros((filled - digits@.len()) as nat));
    }
    out.extend_from_slice(digits.as_slice());
    assert(out@ =~= before + padded(n as nat, width as nat));
}

/// What stands for a line break inside a single line.
pub const BREAK_MARK: &'static str = "<br />";

/// The bytes that stand for a line break inside a single line.
pub open spec fn break_mark() -> Seq<u8> {
    BREAK_MARK.spec_bytes()
}

/// The break mark holds no line feed.
pub proof fn lemma_break_mark_single_lined()
    ensures
        single_lined(break_mark()),
{
    reveal_strlit("<br />");
    is_ascii_spec_bytes(BREAK_MARK);
}

/// `text` with each line feed replaced by the break mark, so that it fits on
/// one line.
pub open spec fn flattened(text: Seq<u8>) -> Seq<u8>
    decreases text.len(),
{
    if text.len() == 0 {
        Seq::empty()
    } else if text.last() == LINE_FEED {
        flattened(text.drop_last()) + break_mark()
    } else {
        flattened(text.drop_last()).push(text.last())
    }
}

/// `text` without its line feeds.
pub open spec fn unwrapped(text: Seq<u8>) -> Seq<u8>
    decreases text.len(),
{
    if text.len() == 0 {
        Seq::empty()
    } else if text.last() == LINE_FEED {
        unwrapped(text.drop_last())
    } else {
        unwrapped(text.drop_last()).push(text.last())
    }
}

/// Flattened text holds no line feed.
pub proof fn lemma_flattened_single_lined(text: Seq<u8>)
    ensures
        single_lined(flattened(text)),
    decreases text.len(),
{
    if text.len() > 0 {
        lemma_flattened_single_lined(text.drop_last());
        lemma_break_mark_single_lined();
    }
}

/// Unwrapped text holds no line feed.
pub proof fn lemma_unwrapped_single_lined(text: Seq<u8>)
    ensures
        single_lined(unwrapped(text)),
        unwrapped(text).len() <= text.len(),
    decreases text.len(),
{
    if text.len() > 0 {
        lemma_unwrapped_single_lined(text.drop_last());
    }
}

/// Replaces each line feed of `text` by the break mark.
pub fn flatten(text: &[u8]) -> (line: Vec<u8>)
    ensures
        line@ == flattened(text@),
        single_lined(line@),
{
    let mut line: Vec<u8> = Vec::new();
    let mut i: usize = 0;
    assert(text@.take(0) =~= Seq::empty());
    while i < text.len()
        invariant
            i <= text@.len(),
            line@ == flattened(text@.take(i as int)),
        decreases text@.len() - i,
    {
        let byte: u8 = text[i];
        assert(text@.take(i + 1).drop_last() =~= text@.take(i as int));
        if byte == LINE_FEED {
            line.extend_from_slice(BREAK_MARK.as_bytes());
        } else {
            line.push(byte);
        }
        i = i + 1;
    }
    assert(text@.take(i as int) =~= text@);
    proof {
        lemma_flattened_single_lined(text@);
    }
    line
}

/// Removes the line feeds of `text`.
pub fn unwrap_lines(text: &[u8]) -> (joined: Vec<u8>)
    ensures
        joined@ == unwrapped(text@),
        single_lined(joined@),
{
    let mut joined: Vec<u8> = Vec::new();
    let mut i: usize = 0;
    assert(text@.take(0) =~= Seq::empty());
    while i < text.len()
        invariant
            i <= text@.len(),
            joined@ == unwrapped(text@.take(i as int)),
        decreases text@.len() - i,
    {
        let byte: u8 = text[i];
        assert(text@.take(i + 1).drop_last() =~= text@.take(i as int));
        if byte != LINE_FEED {
            joined.push(byte);
        }
        i = i + 1;
    }
    assert(text@.take(i as int) =~= text@);
    proof {
        lemma_unwrapped_single_lined(text@);
    }
    joined
}

/// `line` stands in `body` as a whole line that begins at `start`: it begins
/// the text or follows a line feed, and it ends the text or a line feed
/// follows it.
pub open spec fn line_at(body: Seq<u8>, start: int, line: Seq<u8>) -> bool {
    &&& 0 <= start
    &&& start + line.len() <= body.len()
    &&& (start == 0 || body[start - 1] == LINE_FEED)
    &&& body.subrange(start, start + line.len()) == line
    &&& (start + line.len() == body.len() || body[start + line.len()] == LINE_FEED)
}

/// `line` is one of the lines of `body`.
pub open spec fn has_line(body: Seq<u8>, line: Seq<u8>) -> bool {
    exists|start: int| line_at(body, start, line)
}

/// The places in `body` where `line` stands as a whole line.
pub open spec fn line_starts(body: Seq<u8>, line: Seq<u8>) -> Set<int> {
    Set::new(|start: int| line_at(body, start, line))
}

/// `body` followed by a line feed and `row` as a new last line.
pub open spec fn with_line(body: Seq<u8>, row: Seq<u8>) -> Seq<u8> {
    body.push(LINE_FEED) + row
}

/// Appending a row keeps every line where it stood and adds the row as one
/// line after the text that was there: a line stands at a place of the new
/// text exactly if it stood there in the old, or the place is that of the row
/// and the line is the row.
pub proof fn lemma_with_line_at(body: Seq<u8>, row: Seq<u8>, line: Seq<u8>, start: int)
    requires
        single_lined(row),
        single_lined(line),
        line.len() > 0,
    ensures
        line_at(with_line(body, row), start, line) <==> (line_at(body, start, line) || (start
            == body.len() + 1 && row == line)),
{
    let longer = with_line(body, row);
    let end = start + line.len();
    if line_at(body, start, line) {
        assert(longer.subrange(start, end) =~= body.subrange(start, end));
        assert(line_at(longer, start, line));
    }
    if start == body.len() + 1 && row == line {
        assert(longer.subrange(start, end) =~= row);
        assert(line_at(longer, start, line));
    }
    if line_at(longer, start, line) {
        if end <= body.len() {
            assert(longer.subrange(start, end) =~= body.subrange(start, end));
            assert(line_at(body, start, line));
        } else if start <= body.len() {
            // the line would hold the line feed that follows the old text
            assert(longer.subrange(start, end)[body.len() - start] == LINE_FEED);
            assert(line[body.len() - start] == LINE_FEED);
        } else if start == body.len() + 1 {
            if end < longer.len() {
                assert(longer[end] == row[end - start]);
            }
            assert(longer.subrange(start, end) =~= row);
        } else {
            // the byte before is a byte of the row, which is no line feed
            assert(longer[start - 1] == row[start - 1 - body.len() - 1]);
        }
    }
}

/// The same, of every place at once.
pub proof fn lemma_with_line_starts(body: Seq<u8>, row: Seq<u8>, line: Seq<u8>)
    requires
        single_lined(row),
        single_lined(line),
        line.len() > 0,
    ensures
        forall|start: int|
            #[trigger] line_at(with_line(body, row), start, line) <==> (line_at(body, start, line)
                || (start == body.len() + 1 && row == line)),
{
    assert forall|start: int|
        #[trigger] line_at(with_line(body, row), start, line) <==> (line_at(body, start, line) || (
        start == body.len() + 1 && row == line)) by {
        lemma_with_line_at(body, row, line, start);
    }
}

/// Tests whether `line` stands in `body` as a whole line that begins at
/// `start`.
pub fn is_line_at(body: &[u8], start: usize, line: &[u8]) -> (found: bool)
    ensures
        found == line_at(body@, start as int, line@),
{
    if start > body.len() || line.len() > body.len() - start {
        return false;
    }
    if start > 0 && body[start - 1] != LINE_FEED {
        return false;
    }
    let end: usize = start + line.len();
    if end < body.len() && body[end] != LINE_FEED {
        return false;
    }
    let mut k: usize = 0;
    while k < line.len()
        invariant
            k <= line@.len(),
            end == start + line@.len(),
            end <= body@.len(),
            forall|j: int| 0 <= j < k ==> body@[start + j] == line@[j],
        decreases line@.len() - k,
    {
        if body[start + k] != line[k] {
            assert(body@.subrange(start as int, end as int)[k as int] != line@[k as int]);
            return false;
        }
        k = k + 1;
    }
    assert(body@.subrange(start as int, end as int) =~= line@);
    true
}

/// Tests whether `line` is one of the lines of `body`.
pub fn contains_line(body: &[u8], line: &[u8]) -> (found: bool)
    ensures
        found == has_line(body@, line@),
{
    let mut start: usize = 0;
    while start <= body.len()
        invariant
            start <= body@.len() + 1,
            forall|j: int| 0 <= j < start ==> !line_at(body@, j, line@),
        decreases body@.len() + 1 - start,
    {
        if is_line_at(body, start, line) {
            return true;
        }
        if start == body.len() {
            assert(forall|j: int| !line_at(body@, j, line@));
            return false;
        }
        start = start + 1;
    }
    false
}

} // verus!
