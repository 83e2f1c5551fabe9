//! The failures that labelling can report.

use vstd::prelude::*;

verus! {

/// Why a run could not label its rows.
#[derive(Clone, Copy, Debug, PartialEq, Eq, Structural)]
pub enum LabelError {
    /// The text is not a well-formed table, or a row has too few fields.
    Format,
    /// A row was to be labelled and there is no reference point.
    NoReferenceData,
    /// One of the distances is a NaN.
    NanCoordinate,
    /// The distances handed in are not one for each reference point, or
    /// the rows of distances not one for each record.
    DistanceCount,
}

} // verus!
