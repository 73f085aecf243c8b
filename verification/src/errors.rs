use vstd::prelude::*;

use crate::segment::Segment;

verus! {

/// Why a kerf adjustment failed.  Every failure is local to one contour: the
/// caller decides whether to keep the unadjusted contour or give up.
#[derive(Clone, Copy, Debug, PartialEq, Eq, Structural)]
pub enum KerfAdjustmentErrorReason {
    UnsupportedEntity(Segment),
    ThreeDimensionalEntity,
    CannotOffsetOpenContour,
    CannotOffsetEmptyContour,
    CannotConnectContourAfterAdjustment,
    CannotOffsetEntity(Segment),
}

impl KerfAdjustmentErrorReason {
    /// The text `message` returns, as a value contracts can speak of.
    pub open spec fn message_spec(&self) -> Seq<char> {
        match self {
            KerfAdjustmentErrorReason::UnsupportedEntity(_) => "Unsupported entity"@,
            KerfAdjustmentErrorReason::ThreeDimensionalEntity => "3D entity found. Only flat drawings are supported"@,
            KerfAdjustmentErrorReason::CannotOffsetOpenContour => "Attempting to offset an open contour. Only closed contours can be offset."@,
            KerfAdjustmentErrorReason::CannotOffsetEmptyContour => "Attempting to offset an empty contour. A contour must have at least one entity in it in order to be offset."@,
            KerfAdjustmentErrorReason::CannotConnectContourAfterAdjustment => "Successfully adjusted contour, but could not connect it to the rest of the contour"@,
            KerfAdjustmentErrorReason::CannotOffsetEntity(_) => "Cannot offset entity"@,
        }
    }

    /// A human-readable account of the failure.
    pub fn message(&self) -> (s: &'static str)
        ensures
            s@ == self.message_spec(),
    {
        match self {
            KerfAdjustmentErrorReason::UnsupportedEntity(_) => "Unsupported entity",
            KerfAdjustmentErrorReason::ThreeDimensionalEntity => "3D entity found. Only flat drawings are supported",
            KerfAdjustmentErrorReason::CannotOffsetOpenContour => "Attempting to offset an open contour. Only closed contours can be offset.",
            KerfAdjustmentErrorReason::CannotOffsetEmptyContour => "Attempting to offset an empty contour. A contour must have at least one entity in it in order to be offset.",
            KerfAdjustmentErrorReason::CannotConnectContourAfterAdjustment => "Successfully adjusted contour, but could not connect it to the rest of the contour",
            KerfAdjustmentErrorReason::CannotOffsetEntity(_) => "Cannot offset entity",
        }
    }
}

/// The error handed back when a contour could not be adjusted.
#[derive(Clone, Copy, Debug, PartialEq, Eq, Structural)]
pub struct KerfAdjustmentError {
    pub reason: KerfAdjustmentErrorReason,
}

impl KerfAdjustmentError {
    /// A human-readable account of the failure.
    pub fn message(&self) -> (s: &'static str)
        ensures
            s@ == self.reason.message_spec(),
    {
        self.reason.message()
    }
}

} // verus!
