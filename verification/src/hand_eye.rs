//! The command protocol of the hand-eye calibration filter: which commands
//! start, stop, solve and reset a calibration, when motion data is taken
//! in, and when enough motion pairs have been collected to solve. The
//! solver itself works on floating-point poses and runs around it.

use vstd::prelude::*;
use crate::json::JsonValue;
use crate::text::str_equals;

verus! {

/// Calibration state for hand-eye calibration.
#[derive(Clone, Copy, Debug, PartialEq, Eq, Structural)]
pub enum HandEyeCalibrationState {
    Idle,
    Collecting,
    Solving,
    Finished,
    Failed,
}

/// What a command asks of the calibration.
#[derive(Clone, Copy, Debug, PartialEq, Eq, Structural)]
pub enum CalibrationCommand {
    /// `start` or `startCalibration`: drop all pairs and collect anew.
    Start,
    /// `stop` or `stopCalibration`: stop collecting.
    Stop,
    /// `solve`: solve with the pairs collected so far.
    Solve,
    /// `getResult`: publish the current result.
    GetResult,
    /// `reset`: drop all pairs and the result.
    Reset,
    /// Anything else.
    Unknown,
}

/// The command that a command name stands for.
pub open spec fn command_meaning(name: Seq<char>) -> CalibrationCommand {
    if name == "start"@ || name == "startCalibration"@ {
        CalibrationCommand::Start
    } else if name == "stop"@ || name == "stopCalibration"@ {
        CalibrationCommand::Stop
    } else if name == "solve"@ {
        CalibrationCommand::Solve
    } else if name == "getResult"@ {
        CalibrationCommand::GetResult
    } else if name == "reset"@ {
        CalibrationCommand::Reset
    } else {
        CalibrationCommand::Unknown
    }
}

/// Reads a command name.
pub fn parse_command(name: &str) -> (r: CalibrationCommand)
    ensures
        r == command_meaning(name@),
{
    if str_equals(name, "start") || str_equals(name, "startCalibration") {
        CalibrationCommand::Start
    } else if str_equals(name, "stop") || str_equals(name, "stopCalibration") {
        CalibrationCommand::Stop
    } else if str_equals(name, "solve") {
        CalibrationCommand::Solve
    } else if str_equals(name, "getResult") {
        CalibrationCommand::GetResult
    } else if str_equals(name, "reset") {
        CalibrationCommand::Reset
    } else {
        CalibrationCommand::Unknown
    }
}

/// The fewest motion pairs that a solve accepts.
pub const MIN_SOLVE_PAIRS: usize = 3;

/// Where a calibration stands: its state and the motion pairs collected.
#[derive(Clone, Copy, Debug, PartialEq, Eq, Structural)]
pub struct CalibrationProtocol {
    pub state: HandEyeCalibrationState,
    pub n_pairs: usize,
}

/// What the solver is to do after a command.
#[derive(Clone, Copy, Debug, PartialEq, Eq, Structural)]
pub enum CalibrationAction {
    /// Nothing to compute.
    Nothing,
    /// Drop the collected pairs and the last poses, and reset the result.
    Restart,
    /// Drop the collected pairs and reset the result.
    Clear,
    /// Solve with the collected pairs.
    Solve,
    /// Publish the current result.
    Publish,
}

/// The state a solve leaves: too few pairs fail it, otherwise it is being
/// solved.
pub open spec fn solve_state(n_pairs: nat) -> HandEyeCalibrationState {
    if n_pairs < MIN_SOLVE_PAIRS {
        HandEyeCalibrationState::Failed
    } else {
        HandEyeCalibrationState::Solving
    }
}

/// The protocol after a command, and what the solver is to do.
pub open spec fn after_command(p: CalibrationProtocol, c: CalibrationCommand) -> (CalibrationProtocol, CalibrationAction) {
    match c {
        CalibrationCommand::Start => (
            CalibrationProtocol { state: HandEyeCalibrationState::Collecting, n_pairs: 0 },
            CalibrationAction::Restart,
        ),
        CalibrationCommand::Stop => (
            if p.state == HandEyeCalibrationState::Collecting {
                CalibrationProtocol { state: HandEyeCalibrationState::Idle, ..p }
            } else {
                p
            },
            CalibrationAction::Nothing,
        ),
        CalibrationCommand::Solve => (
            CalibrationProtocol { state: solve_state(p.n_pairs as nat), ..p },
            if p.n_pairs < MIN_SOLVE_PAIRS {
                CalibrationAction::Nothing
            } else {
                CalibrationAction::Solve
            },
        ),
        CalibrationCommand::GetResult => (p, CalibrationAction::Publish),
        CalibrationCommand::Reset => (
            CalibrationProtocol { state: HandEyeCalibrationState::Idle, n_pairs: 0 },
            CalibrationAction::Clear,
        ),
        CalibrationCommand::Unknown => (p, CalibrationAction::Nothing),
    }
}

impl CalibrationProtocol {
    /// Idle, with no pairs.
    pub fn new() -> (r: Self)
        ensures
            r == (CalibrationProtocol { state: HandEyeCalibrationState::Idle, n_pairs: 0 }),
    {
        CalibrationProtocol { state: HandEyeCalibrationState::Idle, n_pairs: 0 }
    }

    /// Applies the command named `name` and says what the solver is to do.
    pub fn process_command(&mut self, name: &str) -> (r: CalibrationAction)
        ensures
            (*final(self), r) == after_command(*old(self), command_meaning(name@)),
    {
        let c = parse_command(name);
        match c {
            CalibrationCommand::Start => {
                self.state = HandEyeCalibrationState::Collecting;
                self.n_pairs = 0;
                CalibrationAction::Restart
            },
            CalibrationCommand::Stop => {
                if self.state == HandEyeCalibrationState::Collecting {
                    self.state = HandEyeCalibrationState::Idle;
                }
                CalibrationAction::Nothing
            },
            CalibrationCommand::Solve => {
                if self.begin_solve() {
                    CalibrationAction::Solve
                } else {
                    CalibrationAction::Nothing
                }
            },
            CalibrationCommand::GetResult => CalibrationAction::Publish,
            CalibrationCommand::Reset => {
                self.state = HandEyeCalibrationState::Idle;
                self.n_pairs = 0;
                CalibrationAction::Clear
            },
            CalibrationCommand::Unknown => CalibrationAction::Nothing,
        }
    }

    /// Motion data is taken in only while collecting.
    pub fn accepts_data(&self) -> (r: bool)
        ensures
            r == (self.state == HandEyeCalibrationState::Collecting),
    {
        self.state == HandEyeCalibrationState::Collecting
    }

    /// Starts a solve: with too few pairs the calibration fails, otherwise
    /// it is being solved. Returns whether the solver is to run.
    pub fn begin_solve(&mut self) -> (r: bool)
        ensures
            final(self).state == solve_state(old(self).n_pairs as nat),
            final(self).n_pairs == old(self).n_pairs,
            r == (old(self).n_pairs >= MIN_SOLVE_PAIRS),
    {
        if self.n_pairs < MIN_SOLVE_PAIRS {
            self.state = HandEyeCalibrationState::Failed;
            false
        } else {
            self.state = HandEyeCalibrationState::Solving;
            true
        }
    }

    /// Ends a solve: finished when the solver found a solution, failed when
    /// it was degenerate.
    pub fn end_solve(&mut self, solved: bool)
        ensures
            final(self).state == (if solved {
                HandEyeCalibrationState::Finished
            } else {
                HandEyeCalibrationState::Failed
            }),
            final(self).n_pairs == old(self).n_pairs,
    {
        self.state = if solved {
            HandEyeCalibrationState::Finished
        } else {
            HandEyeCalibrationState::Failed
        };
    }

    /// Counts a collected motion pair and says whether to solve now: once at
    /// least `min_pairs` (or `max_pairs`) pairs are in.
    pub fn pair_collected(&mut self, min_pairs: usize, max_pairs: usize) -> (r: bool)
        requires
            old(self).n_pairs < usize::MAX,
        ensures
            final(self).n_pairs == old(self).n_pairs + 1,
            final(self).state == old(self).state,
            r == (final(self).n_pairs >= max_pairs || final(self).n_pairs >= min_pairs),
    {
        self.n_pairs = self.n_pairs + 1;
        self.n_pairs >= max_pairs || self.n_pairs >= min_pairs
    }
}

/// Starting a calibration always collects from scratch, and resetting it
/// always leaves it idle without pairs, whatever came before; a solve with
/// fewer than three pairs fails and runs no solver.
pub proof fn law_calibration_commands(p: CalibrationProtocol)
    ensures
        after_command(p, CalibrationCommand::Start).0 == (CalibrationProtocol {
            state: HandEyeCalibrationState::Collecting,
            n_pairs: 0,
        }),
        after_command(p, CalibrationCommand::Reset).0 == (CalibrationProtocol {
            state: HandEyeCalibrationState::Idle,
            n_pairs: 0,
        }),
        p.n_pairs < MIN_SOLVE_PAIRS ==> after_command(p, CalibrationCommand::Solve) == (
        CalibrationProtocol { state: HandEyeCalibrationState::Failed, ..p },
        CalibrationAction::Nothing),
        after_command(after_command(p, CalibrationCommand::Start).0, CalibrationCommand::Stop).0
            == (CalibrationProtocol { state: HandEyeCalibrationState::Idle, n_pairs: 0 }),
{
}

/// The settings of a hand-eye calibration filter that are not numbers of
/// degrees.
#[derive(Debug)]
pub struct HandEyeSettings {
    pub name: String,
    pub source_a_id: String,
    pub source_b_id: String,
    pub min_pairs: usize,
    pub max_pairs: usize,
}

impl HandEyeSettings {
    /// Reads the settings: the name (`HandEyeCalibrationFilter` by
    /// default), the ids of the two sources (empty by default), and the
    /// least and most pairs (20 and 200 by default, cut to `usize`).
    pub fn from_json(config: &JsonValue) -> (r: Self)
        ensures
            r.name@ == match config.spec_str_field("name"@) {
                Some(t) => t,
                None => "HandEyeCalibrationFilter"@,
            },
            r.source_a_id@ == match config.spec_str_field("sourceAId"@) {
                Some(t) => t,
                None => seq![],
            },
            r.source_b_id@ == match config.spec_str_field("sourceBId"@) {
                Some(t) => t,
                None => seq![],
            },
            r.min_pairs == (match config.spec_u64_field("minPairs"@) {
                Some(n) => n,
                None => 20,
            }) as usize,
            r.max_pairs == (match config.spec_u64_field("maxPairs"@) {
                Some(n) => n,
                None => 200,
            }) as usize,
    {
        proof {
            reveal_strlit("");
            assert(""@ =~= Seq::<char>::empty());
        }
        HandEyeSettings {
            name: config.value_str("name", "HandEyeCalibrationFilter"),
            source_a_id: config.value_str("sourceAId", ""),
            source_b_id: config.value_str("sourceBId", ""),
            min_pairs: config.value_u64("minPairs", 20) as usize,
            max_pairs: config.value_u64("maxPairs", 200) as usize,
        }
    }
}

} // verus!
