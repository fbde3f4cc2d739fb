//! The download task: what to prepare before the tool runs, how to read the
//! progress that the tool prints, and what the run amounts to.

use vstd::prelude::*;
use crate::download_manager::command::{ExitInfo, WorkerError};
use crate::download_manager::worker::TaskFailure;
use crate::task::{TaskProgress, TaskResultData};

verus! {

/// What a line of the tool's output says about progress.
#[derive(Clone, Copy, Debug, PartialEq, Eq, Structural)]
pub enum ProgressLine {
    /// The line is no progress report.
    Other,
    /// The line starts like a progress report but does not have its four fields.
    Malformed,
    /// A progress report: the estimated size and the bytes downloaded so far,
    /// each where the tool knew it.
    Report { estimate: Option<i32>, downloaded: Option<i32> },
}

/// Whether `b` is ASCII white space: a space, a tab, a line feed, a form feed
/// or a carriage return.
pub open spec fn is_space(b: u8) -> bool {
    b == 0x20 || b == 0x09 || b == 0x0a || b == 0x0c || b == 0x0d
}

/// Whether `line` ends within a token.
pub open spec fn ends_in_token(line: Seq<u8>) -> bool {
    line.len() > 0 && !is_space(line.last())
}

/// The tokens of `line`: its longest runs of bytes that are no white space, in
/// order.
pub open spec fn tokens(line: Seq<u8>) -> Seq<Seq<u8>>
    decreases line.len(),
{
    if line.len() == 0 {
        Seq::empty()
    } else {
        let front = tokens(line.drop_last());
        if is_space(line.last()) {
            front
        } else if ends_in_token(line.drop_last()) {
            front.drop_last().push(front.last().push(line.last()))
        } else {
            front.push(seq![line.last()])
        }
    }
}

/// A line that ends within a token has a token.
pub proof fn lemma_token_at_end(line: Seq<u8>)
    requires
        ends_in_token(line),
    ensures
        tokens(line).len() > 0,
    decreases line.len(),
{
    if ends_in_token(line.drop_last()) {
        lemma_token_at_end(line.drop_last());
    }
}

/// The mark that opens a progress report: `[dl]`.
pub open spec fn progress_mark() -> Seq<u8> {
    seq![0x5bu8, 0x64u8, 0x6cu8, 0x5du8]
}

/// Whether `line` starts with the progress mark.
pub open spec fn has_progress_mark(line: Seq<u8>) -> bool {
    line.len() >= 4 && line.take(4) == progress_mark()
}

/// Whether `b` is an ASCII digit.
pub open spec fn is_digit(b: u8) -> bool {
    0x30 <= b <= 0x39
}

/// Whether `s` consists of ASCII digits only.
pub open spec fn all_digits(s: Seq<u8>) -> bool {
    forall|i: int| 0 <= i < s.len() ==> is_digit(#[trigger] s[i])
}

/// The number that a run of ASCII digits denotes.
pub open spec fn digits_value(s: Seq<u8>) -> nat
    decreases s.len(),
{
    if s.len() == 0 {
        0
    } else {
        digits_value(s.drop_last()) * 10 + (s.last() - 0x30) as nat
    }
}

/// Whether `s` starts with a sign.
pub open spec fn has_sign(s: Seq<u8>) -> bool {
    s.len() > 0 && (s[0] == 0x2b || s[0] == 0x2d)
}

/// `s` without its sign, if it has one.
pub open spec fn unsigned_part(s: Seq<u8>) -> Seq<u8> {
    if has_sign(s) {
        s.skip(1)
    } else {
        s
    }
}

/// Whether `s` starts with a minus sign.
pub open spec fn is_negative(s: Seq<u8>) -> bool {
    s.len() > 0 && s[0] == 0x2d
}

/// The whole number that `token` denotes: an optional sign and at least one
/// digit, and a value that fits 32 bits.
pub open spec fn parsed_integer(token: Seq<u8>) -> Option<i32> {
    let digits = unsigned_part(token);
    if digits.len() == 0 || !all_digits(digits) {
        None
    } else if is_negative(token) {
        if digits_value(digits) <= 0x8000_0000 {
            Some((-(digits_value(digits) as int)) as i32)
        } else {
            None
        }
    } else {
        if digits_value(digits) <= 0x7fff_ffff {
            Some(digits_value(digits) as i32)
        } else {
            None
        }
    }
}

/// The position of the first `.` in `s`, or the length of `s` if it has none.
pub open spec fn point_position(s: Seq<u8>) -> int
    decreases s.len(),
{
    if s.len() == 0 {
        0
    } else if s[0] == 0x2e {
        0
    } else {
        1 + point_position(s.skip(1))
    }
}

/// A magnitude with a sign, cut to 32 bits at either end.
pub open spec fn saturated(negative: bool, magnitude: nat) -> i32 {
    if negative {
        if magnitude >= 0x8000_0000 {
            i32::MIN
        } else {
            (-(magnitude as int)) as i32
        }
    } else {
        if magnitude >= 0x7fff_ffff {
            i32::MAX
        } else {
            magnitude as i32
        }
    }
}

/// The size that `token` denotes: an optional sign, then digits with an
/// optional decimal point among them and at least one digit in all. The
/// fraction is cut off; a size that does not fit 32 bits is reported as the
/// nearest that does.
pub open spec fn parsed_size(token: Seq<u8>) -> Option<i32> {
    let number = unsigned_part(token);
    let p = point_position(number);
    let whole = number.take(p);
    let fraction = if p < number.len() {
        number.skip(p + 1)
    } else {
        Seq::empty()
    };
    if whole.len() + fraction.len() == 0 || !all_digits(whole) || !all_digits(fraction) {
        None
    } else {
        Some(saturated(is_negative(token), digits_value(whole)))
    }
}

/// The percentage `downloaded * 100 / estimate`, rounded to the nearest whole
/// number, halves away from zero, and cut to 32 bits. With an estimate of zero
/// it is the greatest or least number for a positive or negative `downloaded`,
/// and zero for zero.
pub open spec fn percent_of(downloaded: i32, estimate: i32) -> i32 {
    let scaled = downloaded as int * 100;
    let magnitude: int = if scaled < 0 {
        -scaled
    } else {
        scaled
    };
    if estimate == 0 {
        if downloaded > 0 {
            i32::MAX
        } else if downloaded < 0 {
            i32::MIN
        } else {
            0
        }
    } else {
        let divisor: int = if estimate < 0 {
            -(estimate as int)
        } else {
            estimate as int
        };
        let rounded = (2 * magnitude + divisor) / (2 * divisor);
        saturated((scaled < 0) != (estimate < 0) && rounded > 0, rounded as nat)
    }
}

/// What `line` says about progress.
///
/// A line that starts with `[dl]` must have four tokens, separated by white
/// space: the mark itself, the elapsed time, the estimated size and the bytes
/// downloaded. The elapsed time is not looked at.
pub open spec fn progress_line(line: Seq<u8>) -> ProgressLine {
    if !has_progress_mark(line) {
        ProgressLine::Other
    } else {
        let parts = tokens(line);
        if parts.len() != 4 || parts[0] != progress_mark() {
            ProgressLine::Malformed
        } else {
            ProgressLine::Report {
                estimate: parsed_size(parts[2]),
                downloaded: parsed_integer(parts[3]),
            }
        }
    }
}

impl TaskProgress {
    /// The progress after a report: what the report knows replaces what was
    /// known, and the percentage is recomputed when the report knows both
    /// numbers.
    pub open spec fn after_report(self, estimate: Option<i32>, downloaded: Option<i32>) -> TaskProgress {
        TaskProgress {
            bytes_estimate: match estimate {
                Some(e) => e,
                None => self.bytes_estimate,
            },
            bytes_downloaded: match downloaded {
                Some(d) => d,
                None => self.bytes_downloaded,
            },
            percent: match (estimate, downloaded) {
                (Some(e), Some(d)) => percent_of(d, e),
                _ => self.percent,
            },
        }
    }

    /// Takes a progress report in.
    pub fn report(&mut self, estimate: Option<i32>, downloaded: Option<i32>)
        ensures
            *final(self) == old(self).after_report(estimate, downloaded),
    {
        if let Some(estimate) = estimate {
            self.bytes_estimate = estimate;
        }
        if let Some(downloaded) = downloaded {
            self.bytes_downloaded = downloaded;
        }
        match (estimate, downloaded) {
            (Some(estimate), Some(downloaded)) => {
                self.percent = percent(downloaded, estimate);
            },
            _ => {},
        }
    }
}

/// A magnitude with a sign, cut to 32 bits at either end.
fn saturate(negative: bool, magnitude: u64) -> (value: i32)
    ensures
        value == saturated(negative, magnitude as nat),
{
    if negative {
        if magnitude >= 0x8000_0000 {
            i32::MIN
        } else {
            (-(magnitude as i64)) as i32
        }
    } else {
        if magnitude >= 0x7fff_ffff {
            i32::MAX
        } else {
            magnitude as i32
        }
    }
}

/// The percentage of `estimate` that `downloaded` is.
pub fn percent(downloaded: i32, estimate: i32) -> (value: i32)
    ensures
        value == percent_of(downloaded, estimate),
{
    if estimate == 0 {
        return if downloaded > 0 {
            i32::MAX
        } else if downloaded < 0 {
            i32::MIN
        } else {
            0
        };
    }
    let scaled: i64 = downloaded as i64 * 100;
    let magnitude: u64 = if scaled < 0 {
        (-scaled) as u64
    } else {
        scaled as u64
    };
    let divisor: u64 = if estimate < 0 {
        (-(estimate as i64)) as u64
    } else {
        estimate as u64
    };
    let rounded: u64 = (2 * magnitude + divisor) / (2 * divisor);
    saturate((scaled < 0) != (estimate < 0) && rounded > 0, rounded)
}

/// Reads a run of digits. The value is cut at 2^32: a greater one is reported
/// as `None` in the second place.
fn read_digits(s: &[u8], from: usize, to: usize) -> (result: (bool, Option<u64>))
    requires
        from <= to <= s.len(),
    ensures
        result.0 == all_digits(s@.subrange(from as int, to as int)),
        result.0 ==> match result.1 {
            Some(v) => v == digits_value(s@.subrange(from as int, to as int)) && v <= 0xffff_ffff,
            None => digits_value(s@.subrange(from as int, to as int)) > 0xffff_ffff,
        },
{
    let ghost run = s@.subrange(from as int, to as int);
    let mut value: Option<u64> = Some(0);
    let mut i: usize = from;
    assert(run.take(0) =~= Seq::empty());
    while i < to
        invariant
            from <= i <= to <= s.len(),
            run == s@.subrange(from as int, to as int),
            all_digits(run.take(i - from)),
            match value {
                Some(v) => v == digits_value(run.take(i - from)) && v <= 0xffff_ffff,
                None => digits_value(run.take(i - from)) > 0xffff_ffff,
            },
        decreases to - i,
    {
        let b = s[i];
        assert(run[i - from] == b);
        assert(run.take(i - from + 1).drop_last() =~= run.take(i - from));
        assert(run.take(i - from + 1).last() == b);
        if b < 0x30 || b > 0x39 {
            assert(!is_digit(run[i - from]));
            return (false, None);
        }
        assert forall|k: int| 0 <= k < i - from + 1 implies is_digit(
            #[trigger] run.take(i - from + 1)[k],
        ) by {
            if k < i - from {
                assert(run.take(i - from)[k] == run.take(i - from + 1)[k]);
            }
        }
        value = match value {
            Some(v) => {
                let next = v * 10 + (b - 0x30) as u64;
                if next > 0xffff_ffff {
                    None
                } else {
                    Some(next)
                }
            },
            None => None,
        };
        i += 1;
    }
    assert(run.take(to - from) =~= run);
    (true, value)
}

/// Reads a whole number: an optional sign and at least one digit; `None` for
/// anything else and for a number that does not fit 32 bits.
pub fn parse_integer(token: &[u8]) -> (value: Option<i32>)
    ensures
        value == parsed_integer(token@),
{
    let signed = token.len() > 0 && (token[0] == 0x2b || token[0] == 0x2d);
    let negative = token.len() > 0 && token[0] == 0x2d;
    let from: usize = if signed {
        1
    } else {
        0
    };
    assert(token@.subrange(from as int, token.len() as int) =~= unsigned_part(token@));
    if from == token.len() {
        return None;
    }
    let (valid, value) = read_digits(token, from, token.len());
    if !valid {
        return None;
    }
    match value {
        None => None,
        Some(v) => {
            if negative {
                if v <= 0x8000_0000 {
                    Some((-(v as i64)) as i32)
                } else {
                    None
                }
            } else {
                if v <= 0x7fff_ffff {
                    Some(v as i32)
                } else {
                    None
                }
            }
        },
    }
}

/// Finds the first `.` from position `from` on.
fn find_point(s: &[u8], from: usize) -> (position: usize)
    requires
        from <= s.len(),
    ensures
        from <= position <= s.len(),
        position - from == point_position(s@.skip(from as int)),
{
    let mut i: usize = from;
    let ghost rest = s@.skip(from as int);
    assert(rest.skip(0) =~= rest);
    while i < s.len() && s[i] != 0x2e
        invariant
            from <= i <= s.len(),
            rest == s@.skip(from as int),
            point_position(rest) == (i - from) + point_position(rest.skip(i - from)),
        decreases s.len() - i,
    {
        assert(rest.skip(i - from)[0] == s[i as int]);
        assert(rest.skip(i - from).skip(1) =~= rest.skip(i - from + 1));
        i += 1;
    }
    proof {
        if i < s.len() {
            assert(rest.skip(i - from)[0] == s[i as int]);
        } else {
            assert(rest.skip(i - from).len() == 0);
        }
    }
    i
}

/// Reads a size: an optional sign, then digits with an optional decimal point
/// among them. The fraction is cut off.
pub fn parse_size(token: &[u8]) -> (value: Option<i32>)
    ensures
        value == parsed_size(token@),
{
    let signed = token.len() > 0 && (token[0] == 0x2b || token[0] == 0x2d);
    let negative = token.len() > 0 && token[0] == 0x2d;
    let from: usize = if signed {
        1
    } else {
        0
    };
    let ghost number = unsigned_part(token@);
    assert(token@.skip(from as int) =~= number);
    let point = find_point(token, from);
    let ghost p = point_position(number);
    assert(token@.subrange(from as int, point as int) =~= number.take(p));
    let fraction_from: usize = if point < token.len() {
        point + 1
    } else {
        point
    };
    proof {
        if point < token.len() {
            assert(token@.subrange(fraction_from as int, token.len() as int) =~= number.skip(
                p + 1,
            ));
        } else {
            assert(token@.subrange(fraction_from as int, token.len() as int) =~= Seq::<
                u8,
            >::empty());
        }
    }
    if (point - from) + (token.len() - fraction_from) == 0 {
        return None;
    }
    let (whole_valid, whole) = read_digits(token, from, point);
    if !whole_valid {
        return None;
    }
    let (fraction_valid, _) = read_digits(token, fraction_from, token.len());
    if !fraction_valid {
        return None;
    }
    match whole {
        Some(v) => Some(saturate(negative, v)),
        None => Some(saturate(negative, 0xffff_ffff)),
    }
}

/// The tokens that were read, the one that is being read among them.
pub open spec fn tokens_read(parts: Seq<Vec<u8>>, current: Seq<u8>, in_token: bool) -> Seq<Seq<u8>> {
    if in_token {
        parts.map_values(|p: Vec<u8>| p@).push(current)
    } else {
        parts.map_values(|p: Vec<u8>| p@)
    }
}

/// Splits `line` into its tokens.
pub fn split_tokens(line: &[u8]) -> (parts: Vec<Vec<u8>>)
    ensures
        parts@.map_values(|p: Vec<u8>| p@) == tokens(line@),
{
    let mut parts: Vec<Vec<u8>> = Vec::new();
    let mut current: Vec<u8> = Vec::new();
    let mut in_token = false;
    let mut i: usize = 0;
    proof {
        assert(line@.take(0) =~= Seq::empty());
        assert(tokens_read(parts@, current@, in_token) =~= tokens(line@.take(0)));
    }
    while i < line.len()
        invariant
            i <= line.len(),
            in_token == ends_in_token(line@.take(i as int)),
            tokens_read(parts@, current@, in_token) == tokens(line@.take(i as int)),
        decreases line.len() - i,
    {
        let ghost before = parts@.map_values(|p: Vec<u8>| p@);
        let ghost word = current@;
        let b = line[i];
        proof {
            assert(line@.take(i + 1).drop_last() =~= line@.take(i as int));
            assert(line@.take(i + 1).last() == b);
        }
        if b == 0x20 || b == 0x09 || b == 0x0a || b == 0x0c || b == 0x0d {
            if in_token {
                parts.push(current);
                current = Vec::new();
                assert(parts@.map_values(|p: Vec<u8>| p@) =~= before.push(word));
            }
            in_token = false;
        } else {
            if in_token {
                current.push(b);
                assert(before.push(word).drop_last() =~= before);
            } else {
                current = Vec::new();
                current.push(b);
                assert(current@ =~= seq![b]);
            }
            in_token = true;
        }
        i += 1;
    }
    assert(line@.take(i as int) =~= line@);
    if in_token {
        let ghost before = parts@.map_values(|p: Vec<u8>| p@);
        parts.push(current);
        assert(parts@.map_values(|p: Vec<u8>| p@) =~= before.push(current@));
    }
    parts
}

/// Whether `line` starts with `[dl]`.
fn starts_with_mark(line: &[u8]) -> (marked: bool)
    ensures
        marked == has_progress_mark(line@),
{
    if line.len() < 4 {
        return false;
    }
    let marked = line[0] == 0x5b && line[1] == 0x64 && line[2] == 0x6c && line[3] == 0x5d;
    proof {
        if marked {
            assert(line@.take(4) =~= progress_mark());
        } else {
            assert(line@.take(4)[0] == line[0] && line@.take(4)[1] == line[1] && line@.take(4)[2]
                == line[2] && line@.take(4)[3] == line[3]);
        }
    }
    marked
}

/// Reads one line of the tool's output.
pub fn parse_progress_line(line: &[u8]) -> (report: ProgressLine)
    ensures
        report == progress_line(line@),
{
    if !starts_with_mark(line) {
        return ProgressLine::Other;
    }
    let parts = split_tokens(line);
    let ghost views = parts@.map_values(|p: Vec<u8>| p@);
    if parts.len() != 4 {
        return ProgressLine::Malformed;
    }
    assert(views[0] == parts[0]@ && views[2] == parts[2]@ && views[3] == parts[3]@);
    if !starts_with_mark(parts[0].as_slice()) || parts[0].len() != 4 {
        proof {
            if parts[0]@.len() == 4 {
                assert(parts[0]@.take(4) =~= parts[0]@);
            }
        }
        return ProgressLine::Malformed;
    }
    assert(parts[0]@.take(4) =~= parts[0]@);
    ProgressLine::Report {
        estimate: parse_size(parts[2].as_slice()),
        downloaded: parse_integer(parts[3].as_slice()),
    }
}

/// What a download's run amounts to: a product if the tool exited with success
/// and its output could be moved to the output directory, else the reason why
/// not. `move_error` is what went wrong when the output was moved, if it was
/// moved and something did.
pub fn run_task_download_and_convert(exit: ExitInfo, move_error: Option<String>) -> (result: Result<
    TaskResultData,
    TaskFailure,
>)
    ensures
        match result {
            Ok(data) => exit.success && move_error is None && data
                is DownloadAndConvert,
            Err(TaskFailure::Worker(e)) => !exit.success && e == WorkerError::BadExitCode(
                exit.code,
            ),
            Err(TaskFailure::Other(e)) => exit.success && move_error == Some(e),
        },
{
    if exit.success {
        match move_error {
            None => Ok(TaskResultData::DownloadAndConvert),
            Some(e) => Err(TaskFailure::Other(e)),
        }
    } else {
        Err(TaskFailure::Worker(WorkerError::BadExitCode(exit.code)))
    }
}

} // verus!
