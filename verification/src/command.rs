//! The split command: its grammar, and the parser that reads the two counts
//! out of a message.
//!
//! A command is one of three keywords, a number of rows, a separator and a
//! number of columns, with white space allowed between them:
//!
//! ```text
//! command   = keyword gap number gap separator gap number
//! keyword   = "裁剪" | "切图" | "分割"
//! separator = "*" | "x" | "X" | "×" | " "
//! gap       = any run of white space, also empty
//! number    = one or more decimal digits
//! ```
//!
//! The whole message, without the white space around it, has to be the
//! command: a command inside a longer text is none.
//!
//! The two numbers are read as `u32`, written in the digits `0` to `9`. A
//! command with a number that cannot be read so, because it is too large or
//! in the digits of another script, asks for three rows and three columns.

use crate::text::{
    all_ascii_digits, chars_of, decimal_value, is_decimal_digit, is_whitespace, lemma_run_end,
    lemma_run_end_is, read_decimal, run_end, skip_run, trim, trim_end, trim_start, trimmed,
    CharClass,
};
use vstd::prelude::*;
use vstd::slice::slice_subrange;

verus! {

/// The number of rows, and of columns, of a command of which a number cannot
/// be read as a `u32`.
pub const DEFAULT_COUNT: u32 = 3;

/// The three keywords, each of two characters: `裁剪`, `切图`, `分割`.
pub open spec fn is_keyword(k: Seq<char>) -> bool {
    &&& k.len() == 2
    &&& {
        ||| (k[0] == '\u{88c1}' && k[1] == '\u{526a}')
        ||| (k[0] == '\u{5207}' && k[1] == '\u{56fe}')
        ||| (k[0] == '\u{5206}' && k[1] == '\u{5272}')
    }
}

/// A separator that is no white space: `*`, `x`, `X` or `×`.
pub open spec fn is_mark(c: char) -> bool {
    c == '*' || c == 'x' || c == 'X' || c == '\u{d7}'
}

/// The separators between the two numbers: a mark or a single space.
pub open spec fn is_separator(c: char) -> bool {
    is_mark(c) || c == ' '
}

/// A number of the grammar: one or more decimal digits.
pub open spec fn is_number(s: Seq<char>) -> bool {
    s.len() > 0 && CharClass::Digit.holds_of_all(s)
}

/// A command, written out in its seven parts.
pub struct CommandText {
    pub keyword: Seq<char>,
    pub gap_after_keyword: Seq<char>,
    pub rows: Seq<char>,
    pub gap_after_rows: Seq<char>,
    pub separator: char,
    pub gap_after_separator: Seq<char>,
    pub cols: Seq<char>,
}

impl CommandText {
    /// Each part is what the grammar asks of it.
    pub open spec fn well_formed(self) -> bool {
        &&& is_keyword(self.keyword)
        &&& CharClass::Whitespace.holds_of_all(self.gap_after_keyword)
        &&& is_number(self.rows)
        &&& CharClass::Whitespace.holds_of_all(self.gap_after_rows)
        &&& is_separator(self.separator)
        &&& CharClass::Whitespace.holds_of_all(self.gap_after_separator)
        &&& is_number(self.cols)
    }

    /// The parts put together.
    pub open spec fn text(self) -> Seq<char> {
        self.keyword + self.gap_after_keyword + self.rows + self.gap_after_rows + seq![
            self.separator,
        ] + self.gap_after_separator + self.cols
    }
}

/// `t` is a command whose numbers are written `rows` and `cols`.
pub open spec fn is_command(t: Seq<char>, rows: Seq<char>, cols: Seq<char>) -> bool {
    exists|c: CommandText|
        #![trigger c.well_formed()]
        c.well_formed() && c.text() == t && c.rows == rows && c.cols == cols
}

/// A number of the grammar can be read as a count: it is written in the
/// digits `0` to `9` and its value fits a `u32`.
pub open spec fn is_count(number: Seq<char>) -> bool {
    all_ascii_digits(number) && decimal_value(number) <= u32::MAX
}

/// The rows and columns that the two numbers of a command stand for: their
/// values where both can be read as counts, and [`DEFAULT_COUNT`] for both
/// where one of them cannot.
pub open spec fn counts_of(rows: Seq<char>, cols: Seq<char>) -> (u32, u32) {
    if is_count(rows) && is_count(cols) {
        (decimal_value(rows) as u32, decimal_value(cols) as u32)
    } else {
        (DEFAULT_COUNT, DEFAULT_COUNT)
    }
}

/// The rows and columns of the command that `t` is, and nothing where `t`
/// is no command.
pub open spec fn command_in(t: Seq<char>) -> Option<(u32, u32)> {
    if exists|rows: Seq<char>, cols: Seq<char>| is_command(t, rows, cols) {
        let (rows, cols) = choose|rows: Seq<char>, cols: Seq<char>| is_command(t, rows, cols);
        Some(counts_of(rows, cols))
    } else {
        None
    }
}

/// What a message asks for: the command that the message is once the white
/// space around it is gone.
pub open spec fn command_of(text: Seq<char>) -> Option<(u32, u32)> {
    command_in(trimmed(text))
}

/// A space somewhere in `t` from `lo` up to `hi`.
spec fn has_space(t: Seq<char>, lo: int, hi: int) -> bool {
    exists|k: int| lo <= k < hi && #[trigger] t[k] == ' '
}

/// Where the two numbers of a command stand: the start and the end of the
/// rows and the start of the columns, found by going through `t` once from
/// the left. Nothing where `t` is no command.
spec fn number_spans(t: Seq<char>) -> Option<(int, int, int)> {
    let rows_start = run_end(t, 2, CharClass::Whitespace);
    let rows_end = run_end(t, rows_start, CharClass::Digit);
    let gap_end = run_end(t, rows_end, CharClass::Whitespace);
    if !(t.len() >= 2 && is_keyword(t.subrange(0, 2)) && rows_end > rows_start) {
        None
    } else if gap_end < t.len() && is_mark(t[gap_end]) {
        let cols_start = run_end(t, gap_end + 1, CharClass::Whitespace);
        let cols_end = run_end(t, cols_start, CharClass::Digit);
        if cols_start < cols_end && cols_end == t.len() {
            Some((rows_start, rows_end, cols_start))
        } else {
            None
        }
    } else if has_space(t, rows_end, gap_end) {
        let cols_end = run_end(t, gap_end, CharClass::Digit);
        if gap_end < cols_end && cols_end == t.len() {
            Some((rows_start, rows_end, gap_end))
        } else {
            None
        }
    } else {
        None
    }
}

/// No character is both white space and a digit, and no mark is either.
proof fn lemma_classes_apart(c: char)
    ensures
        !(is_whitespace(c) && is_decimal_digit(c)),
        is_mark(c) ==> !is_whitespace(c) && !is_decimal_digit(c),
        c == ' ' ==> is_whitespace(c),
{
}

/// Where `number_spans` finds two numbers, `t` is a command with those
/// numbers.
proof fn lemma_spans_are_command(t: Seq<char>)
    requires
        number_spans(t) is Some,
    ensures
        ({
            let (a, b, c) = number_spans(t)->0;
            &&& 2 <= a < b < c < t.len()
            &&& is_command(t, t.subrange(a, b), t.subrange(c, t.len() as int))
        }),
{
    let n = t.len() as int;
    let (a, b, c) = number_spans(t)->0;
    let gap_end = run_end(t, b, CharClass::Whitespace);
    lemma_run_end(t, 2, CharClass::Whitespace);
    lemma_run_end(t, a, CharClass::Digit);
    lemma_run_end(t, b, CharClass::Whitespace);
    let p: int = if gap_end < n && is_mark(t[gap_end]) {
        gap_end
    } else {
        choose|k: int| b <= k < gap_end && #[trigger] t[k] == ' '
    };
    if gap_end < n && is_mark(t[gap_end]) {
        lemma_run_end(t, gap_end + 1, CharClass::Whitespace);
        lemma_run_end(t, c, CharClass::Digit);
    } else {
        lemma_run_end(t, gap_end, CharClass::Digit);
    }
    let parts = CommandText {
        keyword: t.subrange(0, 2),
        gap_after_keyword: t.subrange(2, a),
        rows: t.subrange(a, b),
        gap_after_rows: t.subrange(b, p),
        separator: t[p],
        gap_after_separator: t.subrange(p + 1, c),
        cols: t.subrange(c, n),
    };
    assert(parts.text() =~= t);
    assert(parts.well_formed());
}

/// A command has its numbers where `number_spans` finds them.
proof fn lemma_command_has_spans(c: CommandText)
    requires
        c.well_formed(),
    ensures
        ({
            let t = c.text();
            let a = 2 + c.gap_after_keyword.len();
            let b = a + c.rows.len();
            &&& number_spans(t) == Some((a as int, b as int, t.len() - c.cols.len()))
            &&& c.rows == t.subrange(a as int, b as int)
            &&& c.cols == t.subrange(t.len() - c.cols.len(), t.len() as int)
        }),
{
    let t = c.text();
    let n = t.len() as int;
    let a = 2 + c.gap_after_keyword.len() as int;
    let b = a + c.rows.len() as int;
    let p = b + c.gap_after_rows.len() as int;
    let d = p + 1 + c.gap_after_separator.len() as int;
    // Each part stands in the text where the lengths of the parts before it
    // put it.
    assert forall|i: int| 2 <= i < a implies #[trigger] t[i] == c.gap_after_keyword[i - 2] by {}
    assert forall|i: int| a <= i < b implies #[trigger] t[i] == c.rows[i - a] by {}
    assert forall|i: int| b <= i < p implies #[trigger] t[i] == c.gap_after_rows[i - b] by {}
    assert forall|i: int| p < i < d implies #[trigger] t[i] == c.gap_after_separator[i - p
        - 1] by {}
    assert forall|i: int| d <= i < n implies #[trigger] t[i] == c.cols[i - d] by {}
    // The rows: white space up to their first digit, digits up to what
    // follows them, which is white space or the separator.
    lemma_classes_apart(t[a]);
    lemma_run_end_is(t, 2, a, CharClass::Whitespace);
    lemma_classes_apart(t[b]);
    lemma_run_end_is(t, a, b, CharClass::Digit);
    // The columns: digits from their first one to the end of the text.
    lemma_classes_apart(t[d]);
    lemma_run_end_is(t, d, n, CharClass::Digit);
    if is_mark(c.separator) {
        // The white space after the rows ends at the mark.
        lemma_run_end_is(t, b, p, CharClass::Whitespace);
        lemma_run_end_is(t, p + 1, d, CharClass::Whitespace);
    } else {
        // The separator is a space in the white space after the rows, which
        // ends at the columns.
        lemma_run_end_is(t, b, d, CharClass::Whitespace);
        assert(has_space(t, b, d)) by {
            assert(t[p] == ' ');
        }
    }
}

/// The numbers of a command are fixed by its text: however a text is taken
/// apart by the grammar, the rows are the same characters, and so are the
/// columns.
pub proof fn law_numbers_are_unique(
    t: Seq<char>,
    rows: Seq<char>,
    cols: Seq<char>,
    rows2: Seq<char>,
    cols2: Seq<char>,
)
    requires
        is_command(t, rows, cols),
        is_command(t, rows2, cols2),
    ensures
        rows == rows2,
        cols == cols2,
{
    let c = choose|c: CommandText|
        #![trigger c.well_formed()]
        c.well_formed() && c.text() == t && c.rows == rows && c.cols == cols;
    let c2 = choose|c: CommandText|
        #![trigger c.well_formed()]
        c.well_formed() && c.text() == t && c.rows == rows2 && c.cols == cols2;
    lemma_command_has_spans(c);
    lemma_command_has_spans(c2);
}

/// A text is a command exactly where `number_spans` finds its numbers, and
/// they are the numbers of the command.
proof fn lemma_spans_decide(t: Seq<char>)
    ensures
        number_spans(t) is Some <==> exists|rows: Seq<char>, cols: Seq<char>|
            is_command(t, rows, cols),
        number_spans(t) is Some ==> ({
            let (a, b, c) = number_spans(t)->0;
            let rows = t.subrange(a, b);
            let cols = t.subrange(c, t.len() as int);
            &&& 2 <= a < b < c < t.len()
            &&& command_in(t) == Some(counts_of(rows, cols))
        }),
        number_spans(t) is None ==> command_in(t) is None,
{
    if number_spans(t) is Some {
        lemma_spans_are_command(t);
        let (a, b, c) = number_spans(t)->0;
        let (rows, cols) = choose|rows: Seq<char>, cols: Seq<char>| is_command(t, rows, cols);
        law_numbers_are_unique(t, rows, cols, t.subrange(a, b), t.subrange(c, t.len() as int));
    } else {
        assert forall|rows: Seq<char>, cols: Seq<char>| !is_command(t, rows, cols) by {
            if is_command(t, rows, cols) {
                let c = choose|c: CommandText|
                    #![trigger c.well_formed()]
                    c.well_formed() && c.text() == t && c.rows == rows && c.cols == cols;
                lemma_command_has_spans(c);
            }
        }
    }
}

/// White space before a text that starts with another character is all
/// that `trim_start` takes away.
proof fn lemma_trim_start_of(before: Seq<char>, s: Seq<char>)
    requires
        CharClass::Whitespace.holds_of_all(before),
        s.len() > 0,
        !is_whitespace(s.first()),
    ensures
        trim_start(before + s) == s,
    decreases before.len(),
{
    if before.len() > 0 {
        assert((before + s).drop_first() =~= before.drop_first() + s);
        lemma_trim_start_of(before.drop_first(), s);
    }
}

/// White space after a text that ends with another character is all that
/// `trim_end` takes away.
proof fn lemma_trim_end_of(s: Seq<char>, after: Seq<char>)
    requires
        CharClass::Whitespace.holds_of_all(after),
        s.len() > 0,
        !is_whitespace(s.last()),
    ensures
        trim_end(s + after) == s,
    decreases after.len(),
{
    if after.len() > 0 {
        assert((s + after).drop_last() =~= s + after.drop_last());
        lemma_trim_end_of(s, after.drop_last());
    }
}

/// Every message that writes a command is read as that command, whatever
/// keyword, separator and white space it is written with: the answer is the
/// pair of counts that its two numbers stand for. Two numbers written in the
/// digits `0` to `9` that fit a `u32` stand for their values; where one of
/// the two does not, both counts are [`DEFAULT_COUNT`].
pub proof fn law_written_command_is_read(c: CommandText, before: Seq<char>, after: Seq<char>)
    requires
        c.well_formed(),
        CharClass::Whitespace.holds_of_all(before),
        CharClass::Whitespace.holds_of_all(after),
    ensures
        command_of(before + c.text() + after) == Some(counts_of(c.rows, c.cols)),
        is_count(c.rows) && is_count(c.cols) ==> command_of(before + c.text() + after) == Some(
            (decimal_value(c.rows) as u32, decimal_value(c.cols) as u32),
        ),
        !is_count(c.rows) || !is_count(c.cols) ==> command_of(before + c.text() + after) == Some(
            (DEFAULT_COUNT, DEFAULT_COUNT),
        ),
{
    let t = c.text();
    // The command starts with a keyword and ends with a digit, so trimming
    // takes away what is before and after it, and no more.
    lemma_classes_apart(t.last());
    assert(before + t + after =~= before + (t + after));
    lemma_trim_start_of(before, t + after);
    lemma_trim_end_of(t, after);
    lemma_command_has_spans(c);
    lemma_spans_decide(t);
}

/// A message that is no command of the grammar once the white space around
/// it is gone is read as nothing.
pub proof fn law_other_text_is_not_read(text: Seq<char>)
    requires
        forall|c: CommandText| #[trigger] c.well_formed() ==> c.text() != trimmed(text),
    ensures
        command_of(text) is None,
{
}

/// Reading is a function of the text: the same message is read the same way
/// each time, and so are two messages that differ in the white space around
/// them only.
pub proof fn law_reading_is_a_function(a: Seq<char>, b: Seq<char>)
    requires
        trimmed(a) == trimmed(b),
    ensures
        command_of(a) == command_of(b),
{
}

/// Reads the rows and columns that the two numbers of a command stand for.
pub fn read_counts(rows: &[char], cols: &[char]) -> (counts: (u32, u32))
    ensures
        counts == counts_of(rows@, cols@),
{
    match (read_decimal(rows, 0xffff_ffff), read_decimal(cols, 0xffff_ffff)) {
        (Some(rows), Some(cols)) => (rows, cols),
        _ => (DEFAULT_COUNT, DEFAULT_COUNT),
    }
}

/// Tells whether `c` is a mark.
fn mark(c: char) -> (r: bool)
    ensures
        r == is_mark(c),
{
    c == '*' || c == 'x' || c == 'X' || c == '\u{d7}'
}

/// Tells whether `t` starts with a keyword.
fn starts_with_keyword(t: &[char]) -> (r: bool)
    ensures
        r == (t@.len() >= 2 && is_keyword(t@.subrange(0, 2))),
{
    if t.len() < 2 {
        return false;
    }
    let first = t[0];
    let second = t[1];
    (first == '\u{88c1}' && second == '\u{526a}') || (first == '\u{5207}' && second == '\u{56fe}')
        || (first == '\u{5206}' && second == '\u{5272}')
}

/// Tells whether `t` has a space from `lo` up to `hi`.
fn space_between(t: &[char], lo: usize, hi: usize) -> (r: bool)
    requires
        lo <= hi <= t@.len(),
    ensures
        r == has_space(t@, lo as int, hi as int),
{
    let mut k: usize = lo;
    while k < hi
        invariant
            lo <= k <= hi <= t@.len(),
            !has_space(t@, lo as int, k as int),
        decreases hi - k,
    {
        if t[k] == ' ' {
            return true;
        }
        k = k + 1;
    }
    false
}

/// Finds the two numbers of the command that `t` is.
fn find_numbers(t: &[char]) -> (r: Option<(usize, usize, usize)>)
    ensures
        match r {
            Some((a, b, c)) => number_spans(t@) == Some((a as int, b as int, c as int)),
            None => number_spans(t@) is None,
        },
{
    if !starts_with_keyword(t) {
        return None;
    }
    let n = t.len();
    let rows_start = skip_run(t, 2, CharClass::Whitespace);
    let rows_end = skip_run(t, rows_start, CharClass::Digit);
    if rows_end == rows_start {
        return None;
    }
    let gap_end = skip_run(t, rows_end, CharClass::Whitespace);
    if gap_end < n && mark(t[gap_end]) {
        let cols_start = skip_run(t, gap_end + 1, CharClass::Whitespace);
        let cols_end = skip_run(t, cols_start, CharClass::Digit);
        if cols_start < cols_end && cols_end == n {
            Some((rows_start, rows_end, cols_start))
        } else {
            None
        }
    } else if space_between(t, rows_end, gap_end) {
        let cols_end = skip_run(t, gap_end, CharClass::Digit);
        if gap_end < cols_end && cols_end == n {
            Some((rows_start, rows_end, gap_end))
        } else {
            None
        }
    } else {
        None
    }
}

/// Reads a split command out of a message.
///
/// The answer is the pair of rows and columns where the message, without
/// the white space around it, is a command of the grammar, and nothing where
/// it is not. Where one of the two numbers is too large for a `u32`, or
/// written in other digits than `0` to `9`, both rows and columns are
/// [`DEFAULT_COUNT`].
pub fn parse_command(text: &str) -> (r: Option<(u32, u32)>)
    ensures
        r == command_of(text@),
        r is Some <==> exists|rows: Seq<char>, cols: Seq<char>|
            is_command(trimmed(text@), rows, cols),
        r matches Some(counts) ==> exists|rows: Seq<char>, cols: Seq<char>|
            #![trigger is_command(trimmed(text@), rows, cols)]
            is_command(trimmed(text@), rows, cols) && counts == counts_of(rows, cols),
{
    let chars = chars_of(text);
    let t = trim(chars.as_slice());
    proof {
        lemma_spans_decide(t@);
    }
    match find_numbers(t) {
        None => None,
        Some((a, b, c)) => {
            let counts = read_counts(slice_subrange(t, a, b), slice_subrange(t, c, t.len()));
            proof {
                lemma_spans_are_command(t@);
            }
            Some(counts)
        },
    }
}

} // verus!
