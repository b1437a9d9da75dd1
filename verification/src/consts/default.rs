use vstd::prelude::*;
use crate::tech::{Metric, Preference, Selection};

verus! {

pub const NUM_OF_CYCLES: usize = 8;

pub const NUM_OF_ANTS: usize = 15;

pub const NUM_OF_DECISION_POINTS: usize = 3;

pub const RETURN_BEHAVIOUR: bool = false;

pub const CONSUME_RATE: u32 = 0;

pub const SELECT_METHOD: Selection = Selection::Roulette;

pub const PREFERENCE_METHOD: Preference = Preference::PD;

pub const METRIC: Metric = Metric::Euclidean;

pub const QUIET: bool = false;

pub const TIMING: bool = false;

pub const BATCH_SIZE: usize = 1;

} // verus!
