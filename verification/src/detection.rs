//! Successful detections and the two-tiered detection error taxonomy.

use vstd::prelude::*;
use vstd::string::StringExecFns;

use crate::estimate::Estimate;
use crate::identifier::Identifier;
use crate::name::Name;

verus! {

/// One successful estimate: which sample, which detector, what it found.
#[derive(Debug, Clone, PartialEq)]
pub struct Detection {
    pub sample: Identifier,
    pub detector: Name,
    pub estimate: Estimate,
}

/// A failed detection, scoped either to a whole detector or to one sample.
#[derive(Debug, Clone, PartialEq, Eq)]
pub struct DetectionError {
    pub detector: Name,
    pub error_type: DetectionErrorType,
}

/// What went wrong. The first three kinds are detector-scoped and abort the
/// detector's whole run; the sample-scoped kinds name the affected sample.
#[derive(Debug, Clone, PartialEq, Eq)]
pub enum DetectionErrorType {
    /// The detector rejected its configuration; carries the rejection text.
    ConfigRejected(String),
    /// The answer to the session request was not of the expected shape.
    CreationResponseUnexpected(String),
    /// The transport to the detector broke.
    ConnectionFailure(String),
    /// A detection response claimed success but did not hold an estimate.
    EstimationInvalid(Identifier),
    /// A detection response was not of the expected shape.
    EstimationResponseUnexpected(Identifier, String),
    /// The detector reported that it failed on this sample.
    EstimationFailed(Identifier, String),
}

impl DetectionError {
    /// The human-readable description of this error.
    pub open spec fn spec_message(&self) -> Seq<char> {
        match self.error_type {
            DetectionErrorType::ConfigRejected(reason) => "invalid config: "@ + reason@,
            DetectionErrorType::CreationResponseUnexpected(reason) => {
                "the pupil detection algorithm '"@ + self.detector@ + "' responded unexpectedly: "@
                    + reason@
            },
            DetectionErrorType::ConnectionFailure(error) => {
                "connection failed to detection algorithm '"@ + self.detector@ + "': "@ + error@
            },
            DetectionErrorType::EstimationInvalid(identifier) => {
                "pupil detection algorithm '"@ + self.detector@
                    + "' sent invalid payload during detection of sample '"@ + identifier@ + "'"@
            },
            DetectionErrorType::EstimationResponseUnexpected(identifier, error) => {
                "pupil detection algorithm '"@ + self.detector@
                    + "' returned an unexpected response for sample '"@ + identifier@ + "': "@
                    + error@
            },
            DetectionErrorType::EstimationFailed(identifier, message) => {
                "pupil detection algorithm '"@ + self.detector@
                    + "' failed to estimate a pupil for sample '"@ + identifier@ + "': "@
                    + message@
            },
        }
    }

    /// Renders the description.
    pub fn message(&self) -> (r: String)
        ensures
            r@ == self.spec_message(),
    {
        match &self.error_type {
            DetectionErrorType::ConfigRejected(reason) => {
                let mut t = "invalid config: ".to_owned();
                t.append(reason.as_str());
                t
            },
            DetectionErrorType::CreationResponseUnexpected(reason) => {
                let mut t = "the pupil detection algorithm '".to_owned();
                t.append(self.detector.as_ref());
                t.append("' responded unexpectedly: ");
                t.append(reason.as_str());
                t
            },
            DetectionErrorType::ConnectionFailure(error) => {
                let mut t = "connection failed to detection algorithm '".to_owned();
                t.append(self.detector.as_ref());
                t.append("': ");
                t.append(error.as_str());
                t
            },
            DetectionErrorType::EstimationInvalid(identifier) => {
                let mut t = "pupil detection algorithm '".to_owned();
                t.append(self.detector.as_ref());
                t.append("' sent invalid payload during detection of sample '");
                t.append(identifier.as_str());
                t.append("'");
                t
            },
            DetectionErrorType::EstimationResponseUnexpected(identifier, error) => {
                let mut t = "pupil detection algorithm '".to_owned();
                t.append(self.detector.as_ref());
                t.append("' returned an unexpected response for sample '");
                t.append(identifier.as_str());
                t.append("': ");
                t.append(error.as_str());
                t
            },
            DetectionErrorType::EstimationFailed(identifier, message) => {
                let mut t = "pupil detection algorithm '".to_owned();
                t.append(self.detector.as_ref());
                t.append("' failed to estimate a pupil for sample '");
                t.append(identifier.as_str());
                t.append("': ");
                t.append(message.as_str());
                t
            },
        }
    }
}

/// The outcome of one sample at one detector.
pub type FailableDetection = Result<Detection, DetectionError>;

} // verus!
