//! An immutable text blob with a precomputed line index.
//!
//! [`LargeString`] stores one blob of UTF-8 bytes, possibly megabytes of
//! ANSI-styled text, and records the byte offset of every line start in a
//! single scan at construction. Every later windowed query costs time
//! proportional to the window, not to the document.
//!
//! A line ends at a line feed, a carriage return, or a carriage return
//! followed by a line feed (one terminator); the terminator bytes belong to
//! the line they end.

use vstd::prelude::*;
use vstd::string::StrSliceExecFns;
use vstd::utf8::encode_utf8;

verus! {

/// Line feed.
pub const LF: u8 = 10;

/// Carriage return.
pub const CR: u8 = 13;

/// Whether a byte terminates a line.
pub open spec fn is_eol(b: u8) -> bool {
    b == LF || b == CR
}

/// Index of the first line-terminator byte at or after `i`, or the length
/// of `s` when the rest of `s` has none.
pub open spec fn line_end(s: Seq<u8>, i: int) -> int
    decreases s.len() - i when 0 <= i <= s.len()
{
    if i >= s.len() {
        s.len() as int
    } else if is_eol(s[i]) {
        i
    } else {
        line_end(s, i + 1)
    }
}

pub proof fn lemma_line_end(s: Seq<u8>, i: int)
    requires
        0 <= i <= s.len(),
    ensures
        i <= line_end(s, i) <= s.len(),
        line_end(s, i) < s.len() ==> is_eol(s[line_end(s, i)]),
        forall|k: int| i <= k < line_end(s, i) ==> !is_eol(s[k]),
    decreases s.len() - i,
{
    if i < s.len() && !is_eol(s[i]) {
        lemma_line_end(s, i + 1);
    }
}

/// Start of the line that follows the line starting at `i`: one past the
/// terminator, with a carriage return followed by a line feed consumed as
/// one terminator; or the length of `s` for its last line.
pub open spec fn next_line_start(s: Seq<u8>, i: int) -> int {
    let j = line_end(s, i);
    if j >= s.len() {
        s.len() as int
    } else if s[j] == CR && j + 1 < s.len() && s[j + 1] == LF {
        j + 2
    } else {
        j + 1
    }
}

/// The starts of all lines of `s` at or after position `i`, in order.
pub open spec fn line_starts_from(s: Seq<u8>, i: int) -> Seq<int>
    decreases s.len() - i when 0 <= i <= s.len() via line_starts_from_dec
{
    if i >= s.len() {
        Seq::empty()
    } else {
        seq![i] + line_starts_from(s, next_line_start(s, i))
    }
}

#[via_fn]
proof fn line_starts_from_dec(s: Seq<u8>, i: int) {
    if 0 <= i < s.len() {
        lemma_line_end(s, i);
    }
}

/// The byte offsets of all line starts of `s`, in order. Its length is the
/// line count of `s`.
pub open spec fn line_starts(s: Seq<u8>) -> Seq<int> {
    line_starts_from(s, 0)
}

pub proof fn lemma_line_starts_from_props(s: Seq<u8>, i: int)
    requires
        0 <= i <= s.len(),
    ensures
        line_starts_from(s, i).len() <= s.len() - i,
        forall|k: int|
            0 <= k < line_starts_from(s, i).len() ==> i <= #[trigger] line_starts_from(s, i)[k]
                < s.len(),
        forall|k1: int, k2: int|
            0 <= k1 < k2 < line_starts_from(s, i).len() ==> line_starts_from(s, i)[k1]
                < line_starts_from(s, i)[k2],
        i < s.len() ==> line_starts_from(s, i).len() >= 1 && line_starts_from(s, i)[0] == i,
    decreases s.len() - i,
{
    if i < s.len() {
        lemma_line_end(s, i);
        lemma_line_starts_from_props(s, next_line_start(s, i));
    }
}

/// Byte offset of the start of line `line`, clamped to the end of the
/// content when `line` is at or past the last line.
pub open spec fn line_offset(s: Seq<u8>, line: int) -> int {
    let starts = line_starts(s);
    if 0 <= line < starts.len() {
        starts[line]
    } else {
        s.len() as int
    }
}

pub proof fn lemma_line_offset_mono(s: Seq<u8>, l1: int, l2: int)
    requires
        0 <= l1 <= l2,
    ensures
        0 <= line_offset(s, l1) <= s.len(),
        line_offset(s, l1) <= line_offset(s, l2),
{
    lemma_line_starts_from_props(s, 0);
    let starts = line_starts(s);
    if 0 <= l1 < starts.len() {
        assert(0 <= starts[l1] < s.len());
        if l2 < starts.len() && l1 < l2 {
            assert(starts[l1] < starts[l2]);
        }
    }
}

/// The bytes of the window of `line_count` lines starting at `top_line`,
/// clamped to the end of the content.
pub open spec fn window_spec(s: Seq<u8>, top_line: int, line_count: int) -> Seq<u8> {
    s.subrange(line_offset(s, top_line), line_offset(s, top_line + line_count))
}

/// A large ANSI-styled string stored together with the byte offset of every
/// line start, so that a small range of lines can be extracted quickly.
#[derive(Debug)]
pub struct LargeString {
    /// The stored bytes.
    content: Vec<u8>,
    /// First byte of each line in `content`.
    line_start: Vec<usize>,
}

impl View for LargeString {
    type V = Seq<u8>;

    closed spec fn view(&self) -> Seq<u8> {
        self.content@
    }
}

impl LargeString {
    #[verifier::type_invariant]
    spec fn wf(&self) -> bool {
        self.line_start@.map_values(|x: usize| x as int) == line_starts(self.content@)
    }

    /// Scan the content once and record every line start, so that later
    /// range queries need not rescan.
    pub fn new(content: String) -> (r: Self)
        ensures
            r@ == encode_utf8(content@),
    {
        let bytes: Vec<u8> = content.as_str().as_bytes_vec();
        let ghost s: Seq<u8> = bytes@;
        let n: usize = bytes.len();
        let mut line_start: Vec<usize> = Vec::new();
        let mut i: usize = 0;
        while i < n
            invariant
                s == bytes@,
                n == s.len(),
                0 <= i <= n,
                line_starts(s) == line_start@.map_values(|x: usize| x as int)
                    + line_starts_from(s, i as int),
            decreases n - i,
        {
            let ghost prev = line_start@.map_values(|x: usize| x as int);
            let ghost start_i = i as int;
            line_start.push(i);
            proof {
                lemma_line_end(s, start_i);
                assert(line_start@.map_values(|x: usize| x as int) =~= prev + seq![start_i]);
            }
            while i < n && !(bytes[i] == LF || bytes[i] == CR)
                invariant
                    s == bytes@,
                    n == s.len(),
                    start_i <= i <= n,
                    line_end(s, start_i) == line_end(s, i as int),
                decreases n - i,
            {
                i += 1;
            }
            proof {
                assert(i as int == line_end(s, start_i));
            }
            if i < n {
                if bytes[i] == CR && i + 1 < n && bytes[i + 1] == LF {
                    i += 2;
                } else {
                    i += 1;
                }
            }
            proof {
                assert(i as int == next_line_start(s, start_i));
                assert(line_starts(s) =~= (prev + seq![start_i]) + line_starts_from(
                    s,
                    i as int,
                ));
            }
        }
        proof {
            assert(line_starts(s) =~= line_start@.map_values(|x: usize| x as int));
        }
        LargeString { content: bytes, line_start }
    }

    /// Number of lines in the content.
    pub fn lines(&self) -> (r: usize)
        ensures
            r == line_starts(self@).len(),
    {
        proof {
            use_type_invariant(self);
        }
        self.line_start.len()
    }

    /// Byte offset of the start of line `line`, clamped to the end of the
    /// content.
    fn start_offset(&self, line: usize) -> (r: usize)
        ensures
            r == line_offset(self@, line as int),
    {
        proof {
            use_type_invariant(self);
        }
        if line < self.line_start.len() {
            self.line_start[line]
        } else {
            self.content.len()
        }
    }

    /// The bytes of `line_count` lines starting at `top_line`. Out of range
    /// is not an error: the window is clamped to the end of the content and
    /// may be truncated or empty.
    pub fn window(&self, top_line: usize, line_count: usize) -> (r: Vec<u8>)
        ensures
            r@ == window_spec(self@, top_line as int, line_count as int),
    {
        proof {
            use_type_invariant(self);
            lemma_line_starts_from_props(self@, 0);
            lemma_line_offset_mono(self@, top_line as int, top_line as int + line_count as int);
        }
        let start = self.start_offset(top_line);
        let end = match top_line.checked_add(line_count) {
            Some(top_end) => self.start_offset(top_end),
            None => self.content.len(),
        };
        let mut r: Vec<u8> = Vec::new();
        let mut j: usize = start;
        while j < end
            invariant
                start <= j <= end <= self@.len(),
                r@ == self@.subrange(start as int, j as int),
            decreases end - j,
        {
            r.push(self.content[j]);
            proof {
                assert(r@ =~= self@.subrange(start as int, j + 1));
            }
            j += 1;
        }
        r
    }
}

/// The concatenation of the one-line windows of the first `k` lines of `s`.
pub open spec fn windows_concat(s: Seq<u8>, k: int) -> Seq<u8>
    decreases k,
{
    if k <= 0 {
        Seq::empty()
    } else {
        windows_concat(s, k - 1) + window_spec(s, k - 1, 1)
    }
}

proof fn lemma_windows_concat_prefix(s: Seq<u8>, k: int)
    requires
        0 <= k <= line_starts(s).len(),
    ensures
        windows_concat(s, k) == s.subrange(0, line_offset(s, k)),
    decreases k,
{
    lemma_line_starts_from_props(s, 0);
    if k == 0 {
        assert(s.subrange(0, line_offset(s, 0)) =~= Seq::<u8>::empty());
    } else {
        lemma_windows_concat_prefix(s, k - 1);
        lemma_line_offset_mono(s, k - 1, k);
        assert(windows_concat(s, k) =~= s.subrange(0, line_offset(s, k)));
    }
}

/// Line-index round trip: concatenating the one-line windows of every line
/// of `s`, in order, reconstructs `s` exactly.
pub proof fn lemma_window_round_trip(s: Seq<u8>)
    ensures
        windows_concat(s, line_starts(s).len() as int) == s,
{
    lemma_line_starts_from_props(s, 0);
    lemma_windows_concat_prefix(s, line_starts(s).len() as int);
    assert(s.subrange(0, line_offset(s, line_starts(s).len() as int)) =~= s);
}

/// Window clamp: a window that starts at or past the last line is empty,
/// and a window that reaches past the last line holds exactly the
/// available trailing lines, with no error in either case.
pub proof fn lemma_window_clamp(s: Seq<u8>, top_line: int, line_count: int)
    requires
        0 <= top_line,
        0 <= line_count,
    ensures
        top_line >= line_starts(s).len() ==> window_spec(s, top_line, line_count)
            == Seq::<u8>::empty(),
        top_line + line_count >= line_starts(s).len() ==> window_spec(s, top_line, line_count)
            == s.subrange(line_offset(s, top_line), s.len() as int),
{
    lemma_line_starts_from_props(s, 0);
    if top_line >= line_starts(s).len() {
        assert(window_spec(s, top_line, line_count) =~= Seq::<u8>::empty());
    }
}

#[verifier::external_type_specification]
#[verifier::external_body]
pub struct ExText<'a>(ratatui::text::Text<'a>);

/// What a ratatui text holds: its lines, each line's characters in order.
/// The trusted wrappers below state what the texts they return hold over
/// this name.
pub uninterp spec fn text_lines_of(t: ratatui::text::Text<'static>) -> Seq<Seq<char>>;

/// The error the ANSI decoder reports for these bytes, or none when it
/// succeeds; the outcome depends on the bytes alone.
pub uninterp spec fn ansi_decode_err(bytes: Seq<u8>) -> Option<Seq<char>>;

/// The lines the ANSI decoder parses these bytes into when it succeeds;
/// the result depends on the bytes alone.
pub uninterp spec fn ansi_text_of(bytes: Seq<u8>) -> Seq<Seq<char>>;

/// The lines that rendering a message as plain unstyled text yields; the
/// result depends on the message alone.
pub uninterp spec fn plain_lines_of(s: Seq<char>) -> Seq<Seq<char>>;

/// Relies on `ansi_to_tui::IntoText::into_text`: parses ANSI-styled UTF-8
/// bytes into ratatui text, or reports a parse or encoding error; the
/// outcome depends on the bytes alone.
#[verifier::external_body]
fn decode_ansi(window: &Vec<u8>) -> (r: Result<ratatui::text::Text<'static>, String>)
    ensures
        (r is Ok) == (ansi_decode_err(window@) is None),
        r matches Ok(t) ==> text_lines_of(t) == ansi_text_of(window@),
        r matches Err(m) ==> ansi_decode_err(window@) == Some(m@),
{
    match ansi_to_tui::IntoText::into_text(window) {
        Ok(text) => Ok(text),
        Err(err) => Err(format!("{}", err)),
    }
}

/// Relies on `ratatui::text::Text::from`: renders the message as plain
/// unstyled text.
#[verifier::external_body]
fn plain_message(message: String) -> (r: ratatui::text::Text<'static>)
    ensures
        text_lines_of(r) == plain_lines_of(message@),
{
    ratatui::text::Text::from(message)
}

impl LargeString {
    /// Decode the window of `line_count` lines starting at `top_line` into
    /// styled text. The window is exactly [`LargeString::window`]; a decode
    /// failure is never an error, the failure's message is rendered as
    /// plain text in its place.
    pub fn render(&self, top_line: usize, line_count: usize) -> (r: ratatui::text::Text<'static>)
        ensures
            ansi_decode_err(window_spec(self@, top_line as int, line_count as int)) is None
                ==> text_lines_of(r) == ansi_text_of(
                window_spec(self@, top_line as int, line_count as int),
            ),
            ansi_decode_err(window_spec(self@, top_line as int, line_count as int)) matches Some(m)
                ==> text_lines_of(r) == plain_lines_of(m),
    {
        let w = self.window(top_line, line_count);
        match decode_ansi(&w) {
            Ok(text) => text,
            Err(message) => plain_message(message),
        }
    }
}

} // verus!
