//! What the client programs keep track of: how much of a file has come back, and which lines are
//! worth sending.
use crate::utils::time::{duration_nanos, elapsed_nanos, instant_nanos};
use std::time::{Duration, Instant};
use vstd::prelude::*;

verus! {

/// How much of a file has come back.
#[derive(Debug)]
pub struct Transfer {
    pub source_size: usize,
    pub bytes_written_so_far: usize,
    pub last_bytes_written_so_far: usize,
    pub last_print: Instant,
    pub last_recv: Instant,
}

/// The progress since the last report.
#[derive(Debug)]
pub struct Report {
    pub new_bytes: usize,
    pub elapsed: Duration,
}

/// What follows on a chunk of the file.
#[derive(Debug)]
pub struct ChunkStep {
    /// The progress, if it is time for a report.
    pub report: Option<Report>,
    /// The file is complete.
    pub done: bool,
}

/// The least time between two reports.
pub const PRINT_INTERVAL_SECS: u64 = 1;

impl Transfer {
    /// No more has been written than the file holds, and no less than at the last report.
    pub open spec fn wf(self) -> bool {
        self.last_bytes_written_so_far <= self.bytes_written_so_far <= self.source_size
    }

    /// It is time for a report.
    pub open spec fn report_is_due(self, now: Instant) -> bool {
        elapsed_nanos(now, self.last_print) > PRINT_INTERVAL_SECS * 1_000_000_000
    }

    /// `post` is this transfer after a chunk of `len` bytes, and `step` is what follows on it.
    pub open spec fn after_chunk(
        self,
        post: Transfer,
        len: usize,
        now: Instant,
        step: ChunkStep,
    ) -> bool {
        let written = self.bytes_written_so_far + len;
        &&& post.source_size == self.source_size
        &&& post.bytes_written_so_far == written
        &&& step.done <==> written == self.source_size
        &&& step.report is Some <==> self.report_is_due(now)
        &&& match step.report {
            Some(report) => {
                &&& report.new_bytes == written - self.last_bytes_written_so_far
                &&& duration_nanos(report.elapsed) == elapsed_nanos(now, self.last_recv)
                &&& post.last_bytes_written_so_far == written
                &&& post.last_print == now
                &&& post.last_recv == now
            },
            None => {
                &&& post.last_bytes_written_so_far == self.last_bytes_written_so_far
                &&& post.last_print == self.last_print
                &&& post.last_recv == self.last_recv
            },
        }
    }

    /// A transfer that begins at `now`.
    pub fn new(source_size: usize, now: Instant) -> (transfer: Transfer)
        ensures
            transfer == (Transfer {
                source_size,
                bytes_written_so_far: 0,
                last_bytes_written_so_far: 0,
                last_print: now,
                last_recv: now,
            }),
            transfer.wf(),
    {
        Transfer {
            source_size,
            bytes_written_so_far: 0,
            last_bytes_written_so_far: 0,
            last_print: now,
            last_recv: now,
        }
    }

    /// Takes up a chunk of `len` bytes.
    pub fn on_chunk(&mut self, len: usize, now: Instant) -> (step: ChunkStep)
        requires
            old(self).wf(),
            old(self).bytes_written_so_far + len <= old(self).source_size,
        ensures
            final(self).wf(),
            old(self).after_chunk(*final(self), len, now, step),
            final(self).source_size == old(self).source_size,
            final(self).bytes_written_so_far == old(self).bytes_written_so_far + len,
            step.done <==> final(self).bytes_written_so_far == final(self).source_size,
            match step.report {
                Some(report) => {
                    &&& old(self).report_is_due(now)
                    &&& report.new_bytes == final(self).bytes_written_so_far - old(
                        self,
                    ).last_bytes_written_so_far
                    &&& duration_nanos(report.elapsed) == elapsed_nanos(now, old(self).last_recv)
                    &&& final(self).last_bytes_written_so_far == final(self).bytes_written_so_far
                    &&& final(self).last_print == now
                    &&& final(self).last_recv == now
                },
                None => {
                    &&& !old(self).report_is_due(now)
                    &&& final(self).last_bytes_written_so_far == old(
                        self,
                    ).last_bytes_written_so_far
                    &&& final(self).last_print == old(self).last_print
                    &&& final(self).last_recv == old(self).last_recv
                },
            },
    {
        self.bytes_written_so_far = self.bytes_written_so_far + len;
        let print_duration = Duration::from_secs(PRINT_INTERVAL_SECS);
        let report = if now.duration_since(self.last_print).as_nanos() > print_duration.as_nanos() {
            let new_bytes: usize = self.bytes_written_so_far - self.last_bytes_written_so_far;
            let elapsed = now.duration_since(self.last_recv);
            self.last_recv = now;
            self.last_bytes_written_so_far = self.bytes_written_so_far;
            self.last_print = now;
            Some(Report { new_bytes, elapsed })
        } else {
            None
        };
        ChunkStep { report, done: self.bytes_written_so_far == self.source_size }
    }
}

/// The number of bytes that a step reports.
pub open spec fn reported(step: ChunkStep) -> int {
    match step.report {
        Some(report) => report.new_bytes as int,
        None => 0,
    }
}

/// The line without its line feed.
pub open spec fn without_line_feed(line: Seq<u8>) -> Seq<u8> {
    if line.len() > 0 && line.last() == 0x0a {
        line.drop_last()
    } else {
        line
    }
}

/// What to send of a line of input: the line without its line feed, unless that is empty.
pub fn line_payload(line: Vec<u8>) -> (payload: Option<Vec<u8>>)
    ensures
        match payload {
            Some(payload) => payload@ == without_line_feed(line@) && payload@.len() > 0,
            None => without_line_feed(line@).len() == 0,
        },
{
    let mut payload = line;
    if payload.len() > 0 && payload[payload.len() - 1] == 0x0a {
        let _ = payload.pop();
        assert(payload@ =~= line@.drop_last());
    }
    if payload.len() == 0 {
        None
    } else {
        Some(payload)
    }
}

/// It is time for a report when more than a second has passed since the last one.
pub proof fn law_reports_are_a_second_apart(transfer: Transfer, now: Instant)
    ensures
        transfer.report_is_due(now) <==> instant_nanos(now) - instant_nanos(transfer.last_print)
            > 1_000_000_000,
{
}

/// Chunks add up: two chunks take the transfer as far as their bytes together, and it is done
/// exactly when the whole file is back. What is reported of the two, and what is left to report,
/// is what came in since the last report, every byte once.
pub proof fn law_chunks_and_reports_add_up(
    start: Transfer,
    middle: Transfer,
    end: Transfer,
    first: ChunkStep,
    second: ChunkStep,
    lens: (usize, usize),
    times: (Instant, Instant),
)
    requires
        start.wf(),
        start.after_chunk(middle, lens.0, times.0, first),
        middle.after_chunk(end, lens.1, times.1, second),
    ensures
        end.source_size == start.source_size,
        end.bytes_written_so_far == start.bytes_written_so_far + lens.0 + lens.1,
        first.done <==> start.bytes_written_so_far + lens.0 == start.source_size,
        second.done <==> start.bytes_written_so_far + lens.0 + lens.1 == start.source_size,
        reported(first) + reported(second) + (end.bytes_written_so_far
            - end.last_bytes_written_so_far) == end.bytes_written_so_far
            - start.last_bytes_written_so_far,
        first.report is Some <==> instant_nanos(times.0) - instant_nanos(start.last_print)
            > 1_000_000_000,
        first.report is Some && second.report is Some ==> instant_nanos(times.1) - instant_nanos(
            times.0,
        ) > 1_000_000_000,
        first.report is Some ==> end.last_bytes_written_so_far >= middle.bytes_written_so_far,
{
}

/// A report says how long it took to receive what it reports: the time since the report before,
/// or since the beginning. Between reports the clocks stand.
pub proof fn law_reports_are_timed_from_the_last(
    start: Transfer,
    end: Transfer,
    len: usize,
    now: Instant,
    step: ChunkStep,
)
    requires
        start.after_chunk(end, len, now, step),
        instant_nanos(start.last_recv) <= instant_nanos(now),
    ensures
        step.report matches Some(report) ==> {
            &&& duration_nanos(report.elapsed) == instant_nanos(now) - instant_nanos(start.last_recv)
            &&& end.last_recv == now
            &&& end.last_print == now
            &&& end.last_bytes_written_so_far == end.bytes_written_so_far
        },
        step.report is None ==> {
            &&& end.last_recv == start.last_recv
            &&& end.last_print == start.last_print
            &&& end.last_bytes_written_so_far == start.last_bytes_written_so_far
        },
{
}

/// A line feed at the end of a line is not part of what it says, and everything else is.
pub proof fn law_line_feed_is_dropped_once(line: Seq<u8>)
    ensures
        without_line_feed(line.push(0x0a)) == line,
        line.len() == 0 ==> without_line_feed(line) == line,
        line.len() > 0 && line[line.len() - 1] != 0x0a ==> without_line_feed(line) == line,
{
    assert(line.push(0x0a).drop_last() =~= line);
}

} // verus!
