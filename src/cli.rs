//! The command-line model of the `cat` and `stat` commands: what they ask the library for.

use crate::data_source::{DataSource, EventDeltaSpec, FieldCaptureSpec};
use crate::graph_config::InputFilesContext;
use vstd::prelude::*;

verus! {

/// `[GUARD] FIELD`: one or two words.
#[derive(Clone, Debug, PartialEq, Eq)]
pub struct RawFieldCaptureSpec {
    pub inputs: Vec<String>,
}

/// `[GUARD] PATTERN`: one or two words.
#[derive(Clone, Debug, PartialEq, Eq)]
pub struct RawEventDeltaSpec {
    pub inputs: Vec<String>,
}

/// What `cat` and `stat` extract.
#[derive(Clone, Debug, PartialEq, Eq)]
pub enum StatDataSource {
    EventDelta(RawEventDeltaSpec),
    FieldValue(RawFieldCaptureSpec),
}

/// Display the extracted values only.
#[derive(Clone, Debug, PartialEq, Eq)]
pub struct CatArgs {
    pub input_files_ctx: InputFilesContext,
    pub command: StatDataSource,
}

/// Statistics and a histogram of the extracted values.
#[derive(Clone, Debug, PartialEq, Eq)]
pub struct StatArgs {
    pub input_files_ctx: InputFilesContext,
    pub buckets_count: u64,
    pub precision: Vec<usize>,
    pub command: StatDataSource,
}

#[derive(Clone, Debug, PartialEq, Eq)]
pub enum CliCommand {
    Stat(StatArgs),
    Cat(CatArgs),
}

#[derive(Clone, Debug, PartialEq, Eq)]
pub struct Cli {
    pub verbose: u8,
    pub quiet: bool,
    pub command: CliCommand,
}

/// One word gives the second part alone; two give a guard and the second part.
pub open spec fn guard_and_word(inputs: Seq<String>) -> Option<(Option<String>, String)> {
    if inputs.len() == 1 {
        Some((None, inputs[0]))
    } else if inputs.len() == 2 {
        Some((Some(inputs[0]), inputs[1]))
    } else {
        None
    }
}

fn split_inputs(inputs: &Vec<String>) -> (r: Option<(Option<String>, String)>)
    ensures
        r == guard_and_word(inputs@),
{
    if inputs.len() == 1 {
        Some((None, inputs[0].clone()))
    } else if inputs.len() == 2 {
        Some((Some(inputs[0].clone()), inputs[1].clone()))
    } else {
        None
    }
}

impl RawFieldCaptureSpec {
    /// The field source these words describe; `None` unless there are one or two words.
    pub fn to_field_capture_spec(&self) -> (r: Option<FieldCaptureSpec>)
        ensures
            r == (match guard_and_word(self.inputs@) {
                Some((guard, field)) => Some(FieldCaptureSpec { guard, field }),
                None => None,
            }),
    {
        match split_inputs(&self.inputs) {
            Some((guard, field)) => Some(FieldCaptureSpec { guard, field }),
            None => None,
        }
    }
}

impl RawEventDeltaSpec {
    /// The delta source these words describe; `None` unless there are one or two words.
    pub fn to_event_delta_spec(&self) -> (r: Option<EventDeltaSpec>)
        ensures
            r == (match guard_and_word(self.inputs@) {
                Some((guard, pattern)) => Some(EventDeltaSpec { guard, pattern }),
                None => None,
            }),
    {
        match split_inputs(&self.inputs) {
            Some((guard, pattern)) => Some(EventDeltaSpec { guard, pattern }),
            None => None,
        }
    }
}

impl StatDataSource {
    pub fn to_data_source(&self) -> (r: Option<DataSource>)
        ensures
            r == (match self {
                StatDataSource::FieldValue(raw) => match guard_and_word(raw.inputs@) {
                    Some((guard, field)) => Some(
                        DataSource::FieldValue(FieldCaptureSpec { guard, field }),
                    ),
                    None => None,
                },
                StatDataSource::EventDelta(raw) => match guard_and_word(raw.inputs@) {
                    Some((guard, pattern)) => Some(
                        DataSource::EventDelta(EventDeltaSpec { guard, pattern }),
                    ),
                    None => None,
                },
            }),
    {
        match self {
            StatDataSource::FieldValue(raw) => match raw.to_field_capture_spec() {
                Some(s) => Some(DataSource::FieldValue(s)),
                None => None,
            },
            StatDataSource::EventDelta(raw) => match raw.to_event_delta_spec() {
                Some(s) => Some(DataSource::EventDelta(s)),
                None => None,
            },
        }
    }
}

} // verus!
