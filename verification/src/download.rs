use vstd::prelude::*;
use crate::strings::chars_of;

verus! {

/// How an HTTP request failed.
#[derive(PartialEq, Eq, Structural, Clone, Copy, Debug)]
pub enum RequestError {
    /// The server answered with this error status.
    Status(u16),
    /// No answer came: connection, DNS, TLS or protocol failure.
    Transport,
}

/// How a download ended.
#[derive(PartialEq, Eq, Structural, Clone, Copy, Debug)]
pub enum DownloadOutcome {
    /// The request failed.
    RequestFailed(RequestError),
    /// The body was written to the file.
    Saved,
    /// The body could not be written to the file.
    SaveFailed,
}

/// The status that the `Download` function pushes: 0 when the file was
/// saved, 1 when it could not be written, the HTTP status of an error
/// answer, and 499 when no answer came.
pub open spec fn download_code(outcome: DownloadOutcome) -> int {
    match outcome {
        DownloadOutcome::RequestFailed(RequestError::Status(code)) => code as int,
        DownloadOutcome::RequestFailed(RequestError::Transport) => 499,
        DownloadOutcome::Saved => 0,
        DownloadOutcome::SaveFailed => 1,
    }
}

/// An error status from the server is passed on unchanged, for every
/// status; the other outcomes give 0 (saved), 1 (not written) and 499 (no
/// answer).
pub proof fn law_status_passed_through(code: u16)
    ensures
        download_code(DownloadOutcome::RequestFailed(RequestError::Status(code))) == code as int,
        download_code(DownloadOutcome::RequestFailed(RequestError::Transport)) == 499,
        download_code(DownloadOutcome::Saved) == 0,
        download_code(DownloadOutcome::SaveFailed) == 1,
{
}

/// Turns the outcome of a download into the status the plugin pushes.
pub fn download_status(outcome: DownloadOutcome) -> (r: i32)
    ensures
        r == download_code(outcome),
{
    match outcome {
        DownloadOutcome::RequestFailed(RequestError::Status(code)) => code as i32,
        DownloadOutcome::RequestFailed(RequestError::Transport) => 499,
        DownloadOutcome::Saved => 0,
        DownloadOutcome::SaveFailed => 1,
    }
}

/// The window style bit `WS_VISIBLE`.
pub const WS_VISIBLE: i32 = 0x1000_0000;

/// Whether a window with this style is visible: clearing the `WS_VISIBLE`
/// bit changes the style.
pub fn style_is_visible(style: i32) -> (r: bool)
    ensures
        r == (style & WS_VISIBLE != 0),
{
    let mask: i32 = !WS_VISIBLE;
    let r = (style & mask) != style;
    assert(((style & !0x1000_0000i32) != style) == ((style & 0x1000_0000i32) != 0)) by (bit_vector);
    r
}

/// Vertical positions, in the installer page, of the progress bar, the
/// line naming the download and the line counting bytes.
#[derive(PartialEq, Eq, Structural, Clone, Copy, Debug)]
pub struct ProgressRows {
    pub bar: i32,
    pub title: i32,
    pub counter: i32,
}

/// The rows sit higher when the details list is shown.
pub open spec fn rows_for(expanded: bool) -> ProgressRows {
    if expanded {
        ProgressRows { bar: 40, title: 60, counter: 78 }
    } else {
        ProgressRows { bar: 75, title: 95, counter: 113 }
    }
}

/// Where the progress rows go, depending on whether the details list is
/// shown.
pub fn progress_rows(expanded: bool) -> (r: ProgressRows)
    ensures
        r == rows_for(expanded),
{
    if expanded {
        ProgressRows { bar: 40, title: 60, counter: 78 }
    } else {
        ProgressRows { bar: 75, title: 95, counter: 113 }
    }
}

/// The progress display of a running download: bytes read so far, the
/// announced total, and whether the rows were moved up for the details
/// list and hidden at the end (each happens once).
pub struct DownloadProgress {
    pub read: usize,
    pub total: u128,
    pub moved: bool,
    pub hidden: bool,
}

/// What to show after a chunk arrived.
#[derive(PartialEq, Eq, Structural, Clone, Copy, Debug)]
pub struct ChunkUpdate {
    /// Move the rows up (and enlarge the details list) now.
    pub move_rows: bool,
    /// Bytes read so far.
    pub read: usize,
    /// Kibibytes read so far, rounded down.
    pub read_kib: usize,
    /// Kibibytes announced, rounded down.
    pub total_kib: u128,
}

impl DownloadProgress {
    /// The display before any byte arrived, for an announced total.
    pub fn new(total: u128) -> (r: DownloadProgress)
        ensures
            r.read == 0,
            r.total == total,
            !r.moved,
            !r.hidden,
    {
        DownloadProgress { read: 0, total, moved: false, hidden: false }
    }

    /// Accounts for a chunk of `progress` bytes; `expanded` tells whether
    /// the details list is shown. The rows move up the first time the list
    /// is seen shown, and never again.
    pub fn on_chunk(&mut self, progress: usize, expanded: bool) -> (u: ChunkUpdate)
        requires
            old(self).read + progress <= usize::MAX,
        ensures
            final(self).read == old(self).read + progress,
            final(self).total == old(self).total,
            final(self).hidden == old(self).hidden,
            final(self).moved == (old(self).moved || expanded),
            u.move_rows == (expanded && !old(self).moved),
            u.read == final(self).read,
            u.read_kib == final(self).read / 1024,
            u.total_kib == final(self).total / 1024,
    {
        let move_rows = expanded && !self.moved;
        if move_rows {
            self.moved = true;
        }
        self.read = self.read + progress;
        ChunkUpdate {
            move_rows,
            read: self.read,
            read_kib: self.read / 1024,
            total_kib: self.total / 1024,
        }
    }

    /// Told whether the download is complete (the shown percentage reached
    /// 100), answers whether to hide the rows now: the first time only.
    pub fn on_percentage(&mut self, complete: bool) -> (hide_now: bool)
        ensures
            hide_now == (complete && !old(self).hidden),
            final(self).hidden == (old(self).hidden || complete),
            final(self).read == old(self).read,
            final(self).total == old(self).total,
            final(self).moved == old(self).moved,
    {
        let hide_now = complete && !self.hidden;
        if hide_now {
            self.hidden = true;
        }
        hide_now
    }
}

/// An ASCII decimal digit.
pub open spec fn is_digit(c: char) -> bool {
    '0' <= c && c <= '9'
}

/// The number written by a sequence of decimal digits.
pub open spec fn digits_value(d: Seq<char>) -> nat
    decreases d.len(),
{
    if d.len() == 0 {
        0
    } else {
        digits_value(d.drop_last()) * 10 + ((d.last() as nat) - ('0' as nat)) as nat
    }
}

/// The text after an optional leading `+`.
pub open spec fn unsigned_digits(s: Seq<char>) -> Seq<char> {
    if s.len() > 0 && s[0] == '+' {
        s.drop_first()
    } else {
        s
    }
}

/// Every character is a decimal digit.
pub open spec fn all_digits(d: Seq<char>) -> bool {
    forall|i: int| 0 <= i < d.len() ==> is_digit(#[trigger] d[i])
}

/// What `str::parse::<u128>` gives for a text: an optional `+` followed by
/// one or more decimal digits whose value fits in a `u128`; else nothing.
pub open spec fn decimal_u128(s: Seq<char>) -> Option<u128> {
    let d = unsigned_digits(s);
    if d.len() > 0 && all_digits(d) && digits_value(d) <= u128::MAX {
        Some(digits_value(d) as u128)
    } else {
        None
    }
}

proof fn lemma_digits_value_grows(d: Seq<char>, k: int)
    requires
        0 <= k <= d.len(),
        all_digits(d),
    ensures
        digits_value(d.take(k)) <= digits_value(d),
    decreases d.len() - k,
{
    if k < d.len() {
        lemma_digits_value_grows(d, k + 1);
        assert(d.take(k + 1).drop_last() =~= d.take(k));
    } else {
        assert(d.take(k) =~= d);
    }
}

/// Reads a decimal number as `str::parse::<u128>` does.
pub fn parse_decimal_u128(text: &str) -> (r: Option<u128>)
    ensures
        r == decimal_u128(text@),
{
    let s = chars_of(text);
    let n = s.len();
    let start: usize = if n > 0 && s[0] == '+' { 1 } else { 0 };
    let ghost d = unsigned_digits(s@);
    assert(d =~= s@.skip(start as int));
    if start == n {
        return None;
    }
    let mut value: u128 = 0;
    let mut i: usize = start;
    assert(d.take(0) =~= Seq::<char>::empty());
    while i < n
        invariant
            n == s@.len(),
            start <= i <= n,
            d == s@.skip(start as int),
            s@ == text@,
            d == unsigned_digits(text@),
            forall|j: int| 0 <= j < i - start ==> is_digit(#[trigger] d[j]),
            value == digits_value(d.take(i - start)),
        decreases n - i,
    {
        let c = s[i];
        assert(d[i - start] == c);
        if !('0' <= c && c <= '9') {
            assert(!is_digit(d[i - start]));
            assert(!all_digits(d));
            return None;
        }
        let digit: u128 = (c as u32 - '0' as u32) as u128;
        assert(d.take(i - start + 1).drop_last() =~= d.take(i - start));
        assert(d.take(i - start + 1).last() == c);
        assert(digits_value(d.take(i - start + 1)) == value * 10 + digit);
        let next = match value.checked_mul(10) {
            Some(v) => v.checked_add(digit),
            None => None,
        };
        match next {
            Some(v) => {
                value = v;
            },
            None => {
                proof {
                    if all_digits(d) {
                        lemma_digits_value_grows(d, i - start + 1);
                    }
                }
                return None;
            },
        }
        i += 1;
    }
    assert(d.take(n - start) =~= d);
    Some(value)
}

/// The announced length of a download: the `Content-Length` header read
/// as a decimal number, 0 when there is none; `None` when it is not a
/// number.
pub fn content_length(header: Option<&str>) -> (r: Option<u128>)
    ensures
        r == (match header {
            Some(text) => decimal_u128(text@),
            None => Some(0u128),
        }),
{
    match header {
        Some(text) => parse_decimal_u128(text),
        None => Some(0),
    }
}

/// The rows sit one under the other, in the order bar, title, counter,
/// and all of them higher on the page when the details list is shown.
pub proof fn law_rows_layout(expanded: bool)
    ensures
        rows_for(expanded).bar < rows_for(expanded).title < rows_for(expanded).counter,
        rows_for(true).bar < rows_for(false).bar,
        rows_for(true).title < rows_for(false).title,
        rows_for(true).counter < rows_for(false).counter,
{
}

/// Appending a digit to a decimal number multiplies it by ten and adds the
/// digit.
pub proof fn law_decimal_digit_appended(d: Seq<char>, c: char)
    requires
        is_digit(c),
    ensures
        digits_value(d.push(c)) == digits_value(d) * 10 + (c as int - '0' as int),
        digits_value(seq![c]) == c as int - '0' as int,
{
    assert(d.push(c).drop_last() =~= d);
    assert(seq![c].drop_last() =~= Seq::<char>::empty());
    assert(digits_value(Seq::<char>::empty()) == 0);
    assert(seq![c].last() == c);
}

/// A leading `+` does not change the number read, and a `-` is refused.
pub proof fn law_decimal_sign(d: Seq<char>)
    requires
        d.len() > 0,
        d[0] != '+',
    ensures
        decimal_u128(seq!['+'] + d) == decimal_u128(d),
        decimal_u128(seq!['-'] + d) is None,
{
    assert((seq!['+'] + d).drop_first() =~= d);
    assert(!is_digit((seq!['-'] + d)[0]));
}

} // verus!
