//! Sources and lexical positions: where a token sits in a source text, how
//! positions combine, and the pretty-printed code context that diagnostics
//! show. Reading a source from disk is the embedder's business; everything
//! here computes over in-memory contents.

use vstd::prelude::*;
use vstd::string::StrSliceExecFns;

use crate::latin1::{chars_to_bytes, chars_to_string, fits_latin1, Latin1String};

verus! {

/// A source text: a file named on disk (whose contents the embedder reads),
/// or contents held in memory.
#[derive(PartialEq, Clone, Debug)]
pub enum Source {
    FileName(String),
    Contents(Latin1String),
}

/// Mathematical image of a source.
pub ghost enum SourceView {
    FileName(Seq<char>),
    Contents(Seq<u8>),
}

impl View for Source {
    type V = SourceView;

    open spec fn view(&self) -> SourceView {
        match *self {
            Source::FileName(ref s) => SourceView::FileName(s@),
            Source::Contents(ref l) => SourceView::Contents(l.bytes@),
        }
    }
}

impl Source {
    /// An in-memory source; fails exactly when the text does not fit
    /// latin-1.
    pub fn from_str(contents: &str) -> (r: Result<Source, String>)
        ensures
            match r {
                Ok(s) => fits_latin1(contents@) && s@ == SourceView::Contents(
                    chars_to_bytes(contents@),
                ),
                Err(_) => !fits_latin1(contents@),
            },
    {
        match Latin1String::from_utf8(contents) {
            Ok(l) => Ok(Source::Contents(l)),
            Err(e) => Err(e),
        }
    }

    /// A source named by its file name; nothing is read here.
    pub fn from_file(file_name: &str) -> (r: Source)
        ensures
            r@ == SourceView::FileName(file_name@),
    {
        Source::FileName(file_name.to_owned())
    }

    /// The file name, for sources that have one.
    pub fn file_name(&self) -> (r: Option<&str>)
        ensures
            match *self {
                Source::FileName(ref s) => r is Some && r->0@ == s@,
                Source::Contents(_) => r is None,
            },
    {
        match self {
            Source::FileName(s) => Some(s.as_str()),
            Source::Contents(_) => None,
        }
    }

    /// The position spanning `length` characters from `start` in this
    /// source.
    pub fn pos(&self, start: usize, length: usize) -> (r: SrcPos)
        ensures
            r.source@ == self@,
            r.start == start,
            r.length == length,
    {
        SrcPos { source: self.dup(), start, length }
    }

    /// A copy denoting the same source.
    pub fn dup(&self) -> (r: Source)
        ensures
            r@ == self@,
    {
        match self {
            Source::FileName(s) => Source::FileName(s.clone()),
            Source::Contents(l) => Source::Contents(l.clone()),
        }
    }

    /// The in-memory contents; callers must know the source holds some.
    pub fn contents_ref(&self) -> (r: &Latin1String)
        requires
            self@ is Contents,
        ensures
            r.bytes@ == self@->Contents_0,
    {
        match self {
            Source::Contents(l) => l,
            Source::FileName(_) => vstd::pervasive::unreached(),
        }
    }

    /// Position covering the entire contents, measured in the characters of
    /// the UTF-8 rendering, as the pretty printer counts them.
    pub fn entire_pos(&self) -> (r: SrcPos)
        requires
            self@ is Contents,
        ensures
            r.source@ == self@,
            r.start == 0,
    {
        let contents = self.contents_ref();
        let s = contents.to_string();
        let n = s.as_str().unicode_len();
        self.pos(0, n)
    }

    /// The position of the `occurence`-th occurrence of `substr` in the
    /// entire contents.
    pub fn substr_pos(&self, substr: &str, occurence: usize) -> (r: SrcPos)
        requires
            self@ is Contents,
            fits_latin1(substr@),
            substr@.len() >= 1,
            occurence >= 1,
            self@->Contents_0.len() >= substr@.len(),
            nth_match_from(
                self@->Contents_0,
                chars_to_bytes(substr@),
                0,
                self@->Contents_0.len() - substr@.len() + 1,
                occurence as int,
            ) is Some,
        ensures
            r.source@ == self@,
            Some(r.start as int) == nth_match_from(
                self@->Contents_0,
                chars_to_bytes(substr@),
                0,
                self@->Contents_0.len() - substr@.len() + 1,
                occurence as int,
            ),
            r.length == substr@.len(),
    {
        let contents = self.contents_ref();
        let sub = Latin1String::from_utf8_unchecked(substr);
        let end = contents.bytes.len() - sub.bytes.len() + 1;
        let found = nth_search(&contents.bytes, &sub.bytes, 0, end, occurence);
        self.pos(found, sub.bytes.len())
    }

    /// The position of the first occurrence of `substr`.
    pub fn first_substr_pos(&self, substr: &str) -> (r: SrcPos)
        requires
            self@ is Contents,
            fits_latin1(substr@),
            substr@.len() >= 1,
            self@->Contents_0.len() >= substr@.len(),
            nth_match_from(
                self@->Contents_0,
                chars_to_bytes(substr@),
                0,
                self@->Contents_0.len() - substr@.len() + 1,
                1,
            ) is Some,
        ensures
            r.source@ == self@,
            Some(r.start as int) == nth_match_from(
                self@->Contents_0,
                chars_to_bytes(substr@),
                0,
                self@->Contents_0.len() - substr@.len() + 1,
                1,
            ),
            r.length == substr@.len(),
    {
        self.substr_pos(substr, 1)
    }
}

/// Whether `sub` occurs in `bytes` at position `i`.
pub open spec fn matches_at(bytes: Seq<u8>, sub: Seq<u8>, i: int) -> bool {
    0 <= i && i + sub.len() <= bytes.len() && bytes.subrange(i, i + sub.len() as int) == sub
}

/// The position of the `count`-th match of `sub` at or after `i`, looking
/// at start positions below `end`.
pub open spec fn nth_match_from(
    bytes: Seq<u8>,
    sub: Seq<u8>,
    i: int,
    end: int,
    count: int,
) -> Option<int>
    decreases end - i,
{
    if i >= end {
        None
    } else if matches_at(bytes, sub, i) {
        if count <= 1 {
            Some(i)
        } else {
            nth_match_from(bytes, sub, i + 1, end, count - 1)
        }
    } else {
        nth_match_from(bytes, sub, i + 1, end, count)
    }
}

fn bytes_match_at(bytes: &Vec<u8>, sub: &Vec<u8>, i: usize) -> (r: bool)
    requires
        i + sub@.len() <= bytes@.len(),
    ensures
        r == matches_at(bytes@, sub@, i as int),
{
    let n = bytes.len();
    let m = sub.len();
    let mut j: usize = 0;
    while j < m
        invariant
            n == bytes@.len(),
            m == sub@.len(),
            i + sub@.len() <= bytes@.len(),
            j <= sub@.len(),
            forall|k: int| 0 <= k < j ==> bytes@[i + k] == sub@[k],
        decreases sub@.len() - j,
    {
        if bytes[i + j] != sub[j] {
            proof {
                assert(bytes@.subrange(i as int, i as int + sub@.len() as int)[j as int] != sub@[
                    j as int
                ]);
            }
            return false;
        }
        j = j + 1;
    }
    proof {
        assert(bytes@.subrange(i as int, i as int + sub@.len() as int) =~= sub@);
    }
    true
}

fn nth_search(bytes: &Vec<u8>, sub: &Vec<u8>, i: usize, end: usize, count: usize) -> (r: usize)
    requires
        count >= 1,
        nth_match_from(bytes@, sub@, i as int, end as int, count as int) is Some,
    ensures
        Some(r as int) == nth_match_from(bytes@, sub@, i as int, end as int, count as int),
    decreases end - i,
{
    proof {
        assert(i < end);
    }
    let fits = i <= bytes.len() && bytes.len() - i >= sub.len();
    let m = if fits {
        bytes_match_at(bytes, sub, i)
    } else {
        false
    };
    proof {
        if !fits {
            assert(!matches_at(bytes@, sub@, i as int));
        }
    }
    if m {
        if count <= 1 {
            i
        } else {
            nth_search(bytes, sub, i + 1, end, count - 1)
        }
    } else {
        nth_search(bytes, sub, i + 1, end, count)
    }
}

/// A lexical position: a source, a start character, and a length in
/// characters.
#[derive(PartialEq, Clone, Debug)]
pub struct SrcPos {
    /// The source.
    pub source: Source,
    /// The start character position.
    pub start: usize,
    /// The length of the token in characters.
    pub length: usize,
}

/// One line kept for a code context: its number, its character offset in
/// the contents, and its text.
pub struct ContextLine {
    pub lineno: usize,
    pub offset: usize,
    pub line: Latin1String,
}

impl SrcPos {
    /// The span's end fits the machine's address range.
    pub open spec fn wf_span(&self) -> bool {
        self.start + self.length <= usize::MAX
    }

    /// A copy denoting the same position.
    pub fn dup(&self) -> (r: SrcPos)
        ensures
            r.source@ == self.source@,
            r.start == self.start,
            r.length == self.length,
    {
        SrcPos { source: self.source.dup(), start: self.start, length: self.length }
    }

    /// The position of the `occurence`-th occurrence of `substr` within
    /// this span of `source`.
    pub fn substr_pos(&self, source: &Source, substr: &str, occurence: usize) -> (r: SrcPos)
        requires
            source@ is Contents,
            fits_latin1(substr@),
            substr@.len() >= 1,
            occurence >= 1,
            self.length >= substr@.len(),
            self.wf_span(),
            nth_match_from(
                source@->Contents_0,
                chars_to_bytes(substr@),
                self.start as int,
                self.start + self.length - substr@.len() + 1,
                occurence as int,
            ) is Some,
        ensures
            r.source@ == source@,
            Some(r.start as int) == nth_match_from(
                source@->Contents_0,
                chars_to_bytes(substr@),
                self.start as int,
                self.start + self.length - substr@.len() + 1,
                occurence as int,
            ),
            r.length == substr@.len(),
    {
        let contents = source.contents_ref();
        let sub = Latin1String::from_utf8_unchecked(substr);
        let end = self.start + self.length - sub.bytes.len() + 1;
        let found = nth_search(&contents.bytes, &sub.bytes, self.start, end, occurence);
        source.pos(found, sub.bytes.len())
    }

    /// Whether the line of `line_len` characters at `offset` overlaps this
    /// position.
    pub open spec fn spec_overlaps(&self, offset: int, line_len: int) -> bool {
        offset + line_len >= self.start + 1 && offset < self.start + self.length
    }

    /// Check whether a line at `offset` overlaps this position.
    pub fn overlaps(&self, offset: usize, line_len: usize) -> (r: bool)
        ensures
            r == self.spec_overlaps(offset as int, line_len as int),
    {
        self.overlaps_wide(offset, line_len as u128)
    }

    /// As `overlaps`, for line lengths already widened past the address
    /// range.
    fn overlaps_wide(&self, offset: usize, line_len: u128) -> (r: bool)
        requires
            line_len <= 4 * (usize::MAX as int),
        ensures
            r == self.spec_overlaps(offset as int, line_len as int),
    {
        (offset as u128) + line_len >= (self.start as u128) + 1 && (offset as u128) < (
        self.start as u128) + (self.length as u128)
    }

    /// Combine two positions into the smallest position covering both; they
    /// must lie in the same source.
    pub fn combine_into(self, other: &SrcPos) -> (r: SrcPos)
        requires
            self.source@ == other.source@,
            self.wf_span(),
            other.wf_span(),
        ensures
            r.source@ == self.source@,
            r.start == if self.start < other.start {
                self.start as int
            } else {
                other.start as int
            },
            r.start + r.length == if self.start + self.length > other.start + other.length {
                self.start + self.length
            } else {
                other.start + other.length
            },
    {
        let start = if self.start < other.start {
            self.start
        } else {
            other.start
        };
        let self_end = self.start + self.length;
        let other_end = other.start + other.length;
        let end = if self_end > other_end {
            self_end
        } else {
            other_end
        };
        SrcPos { source: self.source, start, length: end - start }
    }

    /// As `combine_into`, without consuming this position.
    pub fn combine(&self, other: &SrcPos) -> (r: SrcPos)
        requires
            self.source@ == other.source@,
            self.wf_span(),
            other.wf_span(),
        ensures
            r.source@ == self.source@,
            r.start == if self.start < other.start {
                self.start as int
            } else {
                other.start as int
            },
            r.start + r.length == if self.start + self.length > other.start + other.length {
                self.start + self.length
            } else {
                other.start + other.length
            },
    {
        self.dup().combine_into(other)
    }
}

/// The decimal digits of `n`, most significant first.
pub open spec fn dec_digits(n: nat) -> Seq<char>
    decreases n,
{
    if n < 10 {
        seq![((48 + n) as u8) as char]
    } else {
        dec_digits(n / 10).push(((48 + n % 10) as u8) as char)
    }
}

/// The decimal rendering of a number, as characters.
fn dec_chars(n: usize) -> (r: Vec<char>)
    ensures
        r@ == dec_digits(n as nat),
    decreases n,
{
    if n < 10 {
        let mut v: Vec<char> = Vec::new();
        v.push((48 + (n as u8)) as char);
        proof {
            assert(v@ =~= dec_digits(n as nat));
        }
        v
    } else {
        let mut v = dec_chars(n / 10);
        v.push((48 + ((n % 10) as u8)) as char);
        v
    }
}

/// Every decimal digit character lies between '0' and '9'.
pub proof fn lemma_dec_digits_are_digits(n: nat)
    ensures
        forall|i: int| 0 <= i < dec_digits(n).len() ==> '0' <= #[trigger] dec_digits(n)[i] <= '9',
    decreases n,
{
    if n < 10 {
        assert((((48 + n) as u8) as char) as int == 48 + n);
        assert('0' <= dec_digits(n)[0] <= '9');
    } else {
        lemma_dec_digits_are_digits(n / 10);
        let prev = dec_digits(n / 10);
        assert((((48 + n % 10) as u8) as char) as int == 48 + n % 10);
        assert forall|i: int| 0 <= i < dec_digits(n).len() implies '0' <= #[trigger] dec_digits(
            n,
        )[i] <= '9' by {
            if i < prev.len() {
                assert(dec_digits(n)[i] == prev[i]);
            } else {
                assert(dec_digits(n)[i] == ((48 + n % 10) as u8) as char);
            }
        }
    }
}

/// `s` padded with spaces on the left up to `width` characters.
pub open spec fn pad_left_spec(s: Seq<char>, width: nat) -> Seq<char> {
    if s.len() >= width {
        s
    } else {
        Seq::new((width - s.len()) as nat, |i: int| ' ') + s
    }
}

/// Relies on pad's `PadStr::pad_to_width_with_alignment` with right
/// alignment: spaces are added on the left up to `width` columns, and an
/// ASCII digit is one column wide.
#[verifier::external_body]
fn pad_lineno(s: &String, width: usize) -> (r: String)
    requires
        forall|i: int| 0 <= i < s@.len() ==> '0' <= #[trigger] s@[i] <= '9',
    ensures
        r@ == pad_left_spec(s@, width as nat),
{
    pad::PadStr::pad_to_width_with_alignment(s.as_str(), width, pad::Alignment::Right)
}

/// Append the characters of `s`.
fn push_str_chars(out: &mut Vec<char>, s: &str)
    ensures
        final(out)@ == old(out)@ + s@,
{
    let n = s.unicode_len();
    let mut i: usize = 0;
    while i < n
        invariant
            n == s@.len(),
            i <= n,
            out@ == old(out)@ + s@.take(i as int),
        decreases n - i,
    {
        out.push(s.get_char(i));
        i = i + 1;
        proof {
            assert(out@ =~= old(out)@ + s@.take(i as int));
        }
    }
    proof {
        assert(out@ =~= old(out)@ + s@);
    }
}

/// Append `times` copies of `chr`.
fn push_replicate(out: &mut Vec<char>, chr: char, times: usize)
    ensures
        final(out)@.len() == old(out)@.len() + times,
        final(out)@.take(old(out)@.len() as int) == old(out)@,
    decreases times,
{
    let mut i: usize = 0;
    while i < times
        invariant
            i <= times,
            out@.len() == old(out)@.len() + i,
            out@.take(old(out)@.len() as int) == old(out)@,
        decreases times - i,
    {
        out.push(chr);
        i = i + 1;
        proof {
            assert(out@.take(old(out)@.len() as int) =~= old(out)@);
        }
    }
}

/// How many columns a character occupies in the rendered context: a tab is
/// expanded to four columns, everything else takes one.
fn visual_width(chr: char) -> (r: usize)
    ensures
        r == if chr == '\t' {
            4int
        } else {
            1int
        },
{
    if chr == '\t' {
        4
    } else {
        1
    }
}

/// Whether a latin-1 byte stands for a whitespace character.
pub open spec fn is_space(b: u8) -> bool {
    b == 9 || b == 10 || b == 11 || b == 12 || b == 13 || b == 32 || b == 133 || b == 160
}

fn is_space_byte(b: u8) -> (r: bool)
    ensures
        r == is_space(b),
{
    b == 9 || b == 10 || b == 11 || b == 12 || b == 13 || b == 32 || b == 133 || b == 160
}

/// `bytes` without leading and trailing newlines: the subrange from the
/// first to the last byte that is no newline.
fn trim_newlines(bytes: &Vec<u8>) -> (r: Vec<u8>)
    ensures
        exists|lo: int, hi: int|
            {
                &&& 0 <= lo <= hi <= bytes@.len()
                &&& #[trigger] r@ == bytes@.subrange(lo, hi)
                &&& (forall|k: int| 0 <= k < lo ==> bytes@[k] == 10)
                &&& (forall|k: int| hi <= k < bytes@.len() ==> bytes@[k] == 10)
                &&& (lo < hi ==> bytes@[lo] != 10 && bytes@[hi - 1] != 10)
            },
{
    let mut lo: usize = 0;
    let n = bytes.len();
    while lo < n && bytes[lo] == 10
        invariant
            n == bytes@.len(),
            lo <= n,
            forall|k: int| 0 <= k < lo ==> bytes@[k] == 10,
        decreases n - lo,
    {
        lo = lo + 1;
    }
    let mut hi: usize = n;
    while hi > lo && bytes[hi - 1] == 10
        invariant
            n == bytes@.len(),
            lo <= hi <= n,
            forall|k: int| hi <= k < n ==> bytes@[k] == 10,
        decreases hi,
    {
        hi = hi - 1;
    }
    let mut out: Vec<u8> = Vec::new();
    let mut i: usize = lo;
    while i < hi
        invariant
            n == bytes@.len(),
            lo <= i <= hi <= n,
            out@ == bytes@.subrange(lo as int, i as int),
        decreases hi - i,
    {
        out.push(bytes[i]);
        i = i + 1;
        proof {
            assert(out@ =~= bytes@.subrange(lo as int, i as int));
        }
    }
    proof {
        assert(out@ == bytes@.subrange(lo as int, hi as int));
        if lo < hi {
            assert(bytes@[lo as int] != 10);
            assert(bytes@[hi as int - 1] != 10);
        }
    }
    out
}

/// The index after the last byte that is no whitespace.
fn trimmed_right_len(bytes: &Vec<u8>) -> (r: usize)
    ensures
        r <= bytes@.len(),
        forall|k: int| r <= k < bytes@.len() ==> is_space(#[trigger] bytes@[k]),
        r > 0 ==> !is_space(bytes@[r - 1]),
{
    let mut hi: usize = bytes.len();
    while hi > 0 && is_space_byte(bytes[hi - 1])
        invariant
            hi <= bytes@.len(),
            forall|k: int| hi <= k < bytes@.len() ==> is_space(#[trigger] bytes@[k]),
        decreases hi,
    {
        hi = hi - 1;
    }
    hi
}

/// The UTF-8 byte length of the character a latin-1 byte stands for.
fn utf8_width(b: u8) -> (r: usize)
    ensures
        1 <= r <= 2,
{
    if b < 128 {
        1
    } else {
        2
    }
}

/// The UTF-8 byte length of a latin-1 line, as the pretty printer measures
/// overlap.
fn utf8_len_of(bytes: &Vec<u8>) -> (r: u128)
    ensures
        r <= 2 * bytes@.len(),
{
    let mut total: u128 = 0;
    let mut i: usize = 0;
    let n = bytes.len();
    while i < n
        invariant
            n == bytes@.len(),
            i <= n,
            total <= 2 * i,
        decreases n - i,
    {
        total = total + (utf8_width(bytes[i]) as u128);
        i = i + 1;
    }
    total
}

impl SrcPos {
    /// Collect the lines around this position: up to `context_lines` lines
    /// before the first overlapping line and as many after it, each with
    /// its line number and character offset; a position past the end of the
    /// contents is padded with spaces. Returns the first overlapping line
    /// number (or the last line seen) along with the lines.
    fn get_line_context(&self, context_lines: usize, bytes: &Vec<u8>) -> (r: (
        usize,
        Vec<ContextLine>,
    ))
        requires
            self.wf_span(),
    {
        let n = bytes.len();
        let mut first_lineno: Option<usize> = None;
        let mut lines: Vec<ContextLine> = Vec::new();
        let mut lineno: usize = 1;
        let mut i: usize = 0;
        let mut early_eof = false;
        loop
            invariant
                n == bytes@.len(),
                i <= n,
                1 <= lineno,
                forall|k: int| 0 <= k < lines@.len() ==> (#[trigger] lines@[k]).offset <= i,
            ensures
                1 <= lineno,
                i <= n,
                forall|k: int| 0 <= k < lines@.len() ==> (#[trigger] lines@[k]).offset <= i,
            decreases n - i,
        {
            if i >= n {
                early_eof = true;
                break ;
            }
            let mut j: usize = i;
            while j < n && bytes[j] != 10
                invariant
                    n == bytes@.len(),
                    i <= j <= n,
                decreases n - j,
            {
                j = j + 1;
            }
            let line_end = if j < n {
                j + 1
            } else {
                j
            };
            match first_lineno {
                Some(fl) => {
                    if (lineno as u128) > (fl as u128) + (context_lines as u128) {
                        break ;
                    }
                },
                None => {
                    if self.overlaps(i, line_end - i) {
                        first_lineno = Some(lineno);
                    } else if lines.len() >= context_lines {
                        if lines.len() > 0 {
                            let _ = lines.remove(0);
                        }
                    }
                },
            }
            let mut lb: Vec<u8> = Vec::new();
            let mut k: usize = i;
            while k < line_end
                invariant
                    n == bytes@.len(),
                    i <= k <= line_end <= n,
                decreases line_end - k,
            {
                lb.push(bytes[k]);
                k = k + 1;
            }
            lines.push(ContextLine { lineno, offset: i, line: Latin1String::from_vec(lb) });
            i = line_end;
            if lineno < usize::MAX {
                lineno = lineno + 1;
            }
        }
        if early_eof && self.start + self.length > i {
            let tail = self.start + self.length;
            if lines.len() > 0 {
                match lines.pop() {
                    Some(cl) => {
                        let mut cl = cl;
                        let line_len = tail - cl.offset;
                        while cl.line.bytes.len() < line_len
                            decreases line_len - cl.line.bytes.len(),
                        {
                            cl.line.bytes.push(32);
                        }
                        lines.push(cl);
                    },
                    None => {},
                }
            } else {
                let line_len = tail - i;
                let mut lb: Vec<u8> = Vec::new();
                while lb.len() < line_len
                    decreases line_len - lb.len(),
                {
                    lb.push(32);
                }
                lines.push(ContextLine { lineno, offset: i, line: Latin1String::from_vec(lb) });
            }
        }
        let first = match first_lineno {
            Some(fl) => fl,
            None => lineno - 1,
        };
        (first, lines)
    }

    /// Write the `~~~` underline for this position under `line` (already
    /// stripped of newlines) sitting at `offset`.
    fn underline(&self, lineno_len: usize, offset: usize, line: &Vec<u8>, out: &mut Vec<char>) {
        let n0 = line.len();
        let utf8_len = utf8_len_of(line);
        proof {
            assert(utf8_len <= 2 * (n0 as int));
        }
        let end: u128 = {
            let line_end = (offset as u128) + utf8_len;
            let pos_end = (self.start as u128) + (self.length as u128);
            if line_end < pos_end {
                line_end
            } else {
                pos_end
            }
        };
        push_replicate(out, ' ', lineno_len);
        push_str_chars(out, "  |  ");
        let n = line.len();
        let mut i: usize = 0;
        while i < n
            invariant
                n == line@.len(),
                i <= n,
            decreases n - i,
        {
            let chr = line[i] as char;
            let idx = (offset as u128) + (i as u128);
            if idx < (self.start as u128) {
                push_replicate(out, ' ', visual_width(chr));
            } else if idx < end {
                push_replicate(out, '~', visual_width(chr));
            } else {
                break ;
            }
            i = i + 1;
        }
        push_str_chars(out, "\n");
    }

    /// Render the code context of this position over in-memory contents.
    fn render_code_context(&self, bytes: &Vec<u8>) -> (r: (usize, usize, String))
        requires
            self.wf_span(),
    {
        let lc = self.get_line_context(2, bytes);
        let first_lineno = lc.0;
        let lines = lc.1;
        let last_lineno = if lines.len() == 0 {
            1
        } else {
            lines[lines.len() - 1].lineno
        };
        let max_len = dec_chars(last_lineno).len();
        let mut out: Vec<char> = Vec::new();
        let mut li: usize = 0;
        while li < lines.len()
            invariant
                li <= lines@.len(),
            decreases lines@.len() - li,
        {
            let cl = &lines[li];
            let trimmed = trim_newlines(&cl.line.bytes);
            let tn = trimmed.len();
            let tw = utf8_len_of(&trimmed);
            proof {
                assert(tw <= 2 * (tn as int));
            }
            let ovl = self.overlaps_wide(cl.offset, tw);
            proof {
                lemma_dec_digits_are_digits(cl.lineno as nat);
            }
            let lineno_str = pad_lineno(&chars_to_string(&dec_chars(cl.lineno)), max_len);
            push_str_chars(&mut out, lineno_str.as_str());
            if ovl {
                push_str_chars(&mut out, " --> ");
            } else {
                push_str_chars(&mut out, "  |  ");
            }
            let visible = trimmed_right_len(&trimmed);
            let mut ci: usize = 0;
            while ci < visible
                invariant
                    visible <= trimmed@.len(),
                    ci <= visible,
                decreases visible - ci,
            {
                let b = trimmed[ci];
                if b == 9 {
                    push_replicate(&mut out, ' ', 4);
                } else {
                    out.push(b as char);
                }
                ci = ci + 1;
            }
            push_str_chars(&mut out, "\n");
            if ovl {
                self.underline(max_len, cl.offset, &trimmed, &mut out);
            }
            li = li + 1;
        }
        (first_lineno, max_len, chars_to_string(&out))
    }

    /// The code context of this position, rendered over the given
    /// contents; the embedder supplies them where the source names a file.
    pub fn code_context_of(&self, contents: &Latin1String) -> (r: String)
        requires
            self.wf_span(),
    {
        self.render_code_context(&contents.bytes).2
    }

    /// A string for pretty printing: the lines around this position with
    /// the position underlined.
    pub fn code_context(&self) -> (r: String)
        requires
            self.source@ is Contents,
            self.wf_span(),
    {
        self.code_context_of(self.source.contents_ref())
    }

    /// A message followed by the position's whereabouts and code context,
    /// rendered over the given contents.
    pub fn show_of(&self, contents: &Latin1String, message: &str) -> (r: String)
        requires
            self.wf_span(),
    {
        let ctx = self.render_code_context(&contents.bytes);
        let lineno = ctx.0;
        let lineno_len = ctx.1;
        let pretty_str = ctx.2;
        let mut out: Vec<char> = Vec::new();
        push_str_chars(&mut out, message);
        push_str_chars(&mut out, "\n");
        push_replicate(&mut out, ' ', lineno_len);
        push_str_chars(&mut out, " --> ");
        match self.source.file_name() {
            Some(name) => push_str_chars(&mut out, name),
            None => push_str_chars(&mut out, "{unknown file}"),
        }
        push_str_chars(&mut out, ":");
        let ln = dec_chars(lineno);
        let mut k: usize = 0;
        while k < ln.len()
            invariant
                k <= ln@.len(),
            decreases ln@.len() - k,
        {
            out.push(ln[k]);
            k = k + 1;
        }
        push_str_chars(&mut out, "\n");
        push_replicate(&mut out, ' ', lineno_len);
        push_str_chars(&mut out, "  |\n");
        push_str_chars(&mut out, pretty_str.as_str());
        chars_to_string(&out)
    }

    /// A message followed by the position's whereabouts and code context.
    pub fn show(&self, message: &str) -> (r: String)
        requires
            self.source@ is Contents,
            self.wf_span(),
    {
        self.show_of(self.source.contents_ref(), message)
    }
}

/// An error carrying the position it speaks of.
#[derive(PartialEq, Debug)]
pub struct Message {
    pub pos: SrcPos,
    pub message: String,
}

/// An error message at a position.
pub fn error(pos: &SrcPos, msg: &str) -> (r: Message)
    ensures
        r.pos.source@ == pos.source@,
        r.pos.start == pos.start,
        r.pos.length == pos.length,
        r.message@ == msg@,
{
    Message { pos: pos.dup(), message: msg.to_owned() }
}

/// A syntax item at a position.
#[derive(PartialEq, Debug)]
pub struct WithPos<T> {
    pub item: T,
    pub pos: SrcPos,
}

impl<T> WithPos<T> {
    /// Wrap an item at a position.
    pub fn new(item: T, pos: &SrcPos) -> (r: WithPos<T>)
        ensures
            r.item == item,
            r.pos.source@ == pos.source@,
            r.pos.start == pos.start,
            r.pos.length == pos.length,
    {
        WithPos { item, pos: pos.dup() }
    }

    /// Wrap an item, taking the position over.
    pub fn from(item: T, pos: SrcPos) -> (r: WithPos<T>)
        ensures
            r.item == item,
            r.pos == pos,
    {
        WithPos { item, pos }
    }

    /// Map the item, keeping the position.
    pub fn map_into<U, F: FnOnce(T) -> U>(self, f: F) -> (r: WithPos<U>)
        requires
            call_requires(f, (self.item,)),
        ensures
            call_ensures(f, (self.item,), r.item),
            r.pos == self.pos,
    {
        WithPos { item: f(self.item), pos: self.pos }
    }

    /// Map the item through a fallible function; a failure message becomes
    /// an error at this position.
    pub fn try_map_into<U, F: FnOnce(T) -> Result<U, String>>(self, f: F) -> (r: Result<
        WithPos<U>,
        Message,
    >)
        requires
            call_requires(f, (self.item,)),
        ensures
            match r {
                Ok(w) => call_ensures(f, (self.item,), Ok(w.item)) && w.pos == self.pos,
                Err(m) => call_ensures(f, (self.item,), Err(m.message)) && m.pos.source@
                    == self.pos.source@ && m.pos.start == self.pos.start && m.pos.length
                    == self.pos.length,
            },
    {
        match f(self.item) {
            Ok(item) => Ok(WithPos { item, pos: self.pos }),
            Err(msg) => Err(Message { pos: self.pos, message: msg }),
        }
    }

    /// Widen this item's position to also cover `other`.
    pub fn combine_pos_with(self, other: &SrcPos) -> (r: WithPos<T>)
        requires
            self.pos.source@ == other.source@,
            self.pos.wf_span(),
            other.wf_span(),
        ensures
            r.item == self.item,
            r.pos.source@ == other.source@,
    {
        WithPos { item: self.item, pos: self.pos.combine_into(other) }
    }
}

} // verus!
