//! Replay of recorded data files: which lines of a file are decoded and
//! when a replay stops, and the settings of the replaying source.

use vstd::prelude::*;
use crate::hid_imu::{is_unicode_whitespace, is_whitespace_char};
use crate::json::JsonValue;
use crate::text::chars_of;

verus! {

/// `line` holds nothing but whitespace.
pub open spec fn is_blank(line: Seq<char>) -> bool {
    forall|i: int| 0 <= i < line.len() ==> is_unicode_whitespace(#[trigger] line[i])
}

/// Whether `line` holds nothing but whitespace.
pub fn blank_line(line: &str) -> (r: bool)
    ensures
        r == is_blank(line@),
{
    let v = chars_of(line);
    let mut i: usize = 0;
    while i < v.len()
        invariant
            i <= v@.len(),
            v@ == line@,
            forall|j: int| 0 <= j < i ==> is_unicode_whitespace(#[trigger] v@[j]),
        decreases v.len() - i,
    {
        if !is_whitespace_char(v[i]) {
            return false;
        }
        i = i + 1;
    }
    true
}

/// What becomes of a line of a replayed file.
#[derive(Clone, Copy, Debug, PartialEq, Eq, Structural)]
pub enum LineStep {
    /// The line is not decoded.
    Skip,
    /// The line is decoded and its data sent on.
    Decode,
    /// The replay ends.
    Stop,
}

/// Counts of a replay: the non-blank lines read and the lines whose data
/// was sent on.
#[derive(Clone, Copy, Debug, PartialEq, Eq, Structural)]
pub struct ReplayState {
    pub count_total: usize,
    pub count_processed: usize,
}

impl ReplayState {
    /// Nothing read yet.
    pub fn new() -> (r: Self)
        ensures
            r == (ReplayState { count_total: 0, count_processed: 0 }),
    {
        ReplayState { count_total: 0, count_processed: 0 }
    }

    /// Decides on the next line: blank lines are skipped without being
    /// counted; of the others, the first `n_skip_initial` are skipped, and
    /// once `n_stop_after` lines were sent on the replay stops.
    pub fn next_line(&mut self, line: &str, n_skip_initial: usize, n_stop_after: usize) -> (r: LineStep)
        requires
            old(self).count_total < usize::MAX,
        ensures
            is_blank(line@) ==> r == LineStep::Skip && *final(self) == *old(self),
            !is_blank(line@) ==> {
                &&& final(self).count_total == old(self).count_total + 1
                &&& final(self).count_processed == old(self).count_processed
                &&& r == if final(self).count_total <= n_skip_initial {
                    LineStep::Skip
                } else if old(self).count_processed >= n_stop_after {
                    LineStep::Stop
                } else {
                    LineStep::Decode
                }
            },
    {
        if blank_line(line) {
            return LineStep::Skip;
        }
        self.count_total = self.count_total + 1;
        if self.count_total <= n_skip_initial {
            LineStep::Skip
        } else if self.count_processed >= n_stop_after {
            LineStep::Stop
        } else {
            LineStep::Decode
        }
    }

    /// Counts a line whose data was sent on.
    pub fn line_processed(&mut self)
        requires
            old(self).count_processed < usize::MAX,
        ensures
            final(self).count_processed == old(self).count_processed + 1,
            final(self).count_total == old(self).count_total,
    {
        self.count_processed = self.count_processed + 1;
    }

    /// Progress is reported every thousand lines read.
    pub fn progress_due(&self) -> (r: bool)
        ensures
            r == (self.count_total % 1000 == 0),
    {
        self.count_total % 1000 == 0
    }
}

/// The settings of a file-replaying source that are not durations.
#[derive(Debug)]
pub struct FileReaderSettings {
    pub filename: String,
    pub n_skip_initial: usize,
    pub n_stop_after: usize,
    pub show_progress: bool,
    pub do_loop: bool,
}

/// Whether to replay in a loop: `loop` when present, else `doLoopInFile`,
/// and a present entry that is not a boolean counts as no.
pub open spec fn loop_setting(config: JsonValue) -> bool {
    let entry = match config.spec_get("loop"@) {
        Some(v) => Some(v),
        None => config.spec_get("doLoopInFile"@),
    };
    match entry {
        Some(JsonValue::Bool(b)) => b,
        _ => false,
    }
}

impl FileReaderSettings {
    /// Reads the settings: the file (none by default), the lines to skip (0
    /// by default, cut to `usize`), the lines to send on (all when missing
    /// or 0), progress reports (on by default) and looping (off by
    /// default).
    pub fn from_json(config: &JsonValue) -> (r: Self)
        ensures
            r.filename@ == match config.spec_str_field("filename"@) {
                Some(t) => t,
                None => seq![],
            },
            r.n_skip_initial == (match config.spec_u64_field("nSkipInitial"@) {
                Some(n) => n,
                None => 0,
            }) as usize,
            r.n_stop_after == match config.spec_u64_field("nStopAfter"@) {
                Some(n) => if n == 0 {
                    usize::MAX
                } else {
                    n as usize
                },
                None => usize::MAX,
            },
            r.show_progress == match config.spec_bool_field("showProgress"@) {
                Some(b) => b,
                None => true,
            },
            r.do_loop == loop_setting(*config),
    {
        proof {
            reveal_strlit("");
            assert(""@ =~= Seq::<char>::empty());
        }
        let n_stop_after: usize = match config.get("nStopAfter") {
            Some(v) => match v.as_u64() {
                Some(n) => if n == 0 {
                    usize::MAX
                } else {
                    n as usize
                },
                None => usize::MAX,
            },
            None => usize::MAX,
        };
        let entry = match config.get("loop") {
            Some(v) => Some(v),
            None => config.get("doLoopInFile"),
        };
        let do_loop = match entry {
            Some(v) => match v.as_bool() {
                Some(b) => b,
                None => false,
            },
            None => false,
        };
        FileReaderSettings {
            filename: config.value_str("filename", ""),
            n_skip_initial: config.value_u64("nSkipInitial", 0) as usize,
            n_stop_after,
            show_progress: config.value_bool("showProgress", true),
            do_loop,
        }
    }
}

} // verus!
