//! The per-detector detection protocol, as a state machine over observed
//! responses.
//!
//! One run serializes the detector's configuration, opens a detection
//! session, and then classifies every per-sample response: a success is
//! collected, a sample-scoped failure is collected and the run goes on, and
//! a detector-scoped failure ends the run. The surrounding process performs
//! the requests and feeds the responses in.

use vstd::prelude::*;
use vstd::string::StringExecFns;

use crate::detection::{Detection, DetectionError, DetectionErrorType, FailableDetection};
use crate::estimate::Estimate;
use crate::identifier::Identifier;
use crate::json;
use crate::json::Json;
use crate::name::Name;
use crate::text;
use crate::text::{spec_u64_chars, u64_string};

verus! {

/// Where a detection run stands.
#[derive(Debug, Clone, Copy, PartialEq, Eq, Structural)]
pub enum DetectState {
    /// The session request has not been answered yet.
    Created,
    /// The detector accepted the configuration under this session id.
    Streaming { session: u32 },
    /// A detector-scoped error ended the run.
    Failed,
}

/// The session id a creation response body holds: a bare JSON integer that
/// fits an unsigned 32-bit number.
pub open spec fn spec_session_of(bytes: Seq<u8>) -> Option<u32> {
    match json::spec_parse_json(bytes) {
        Some(v) => json::spec_num_u32(v),
        None => None,
    }
}

/// The text `"response is not valid UTF8"`.
pub open spec fn no_utf8_text() -> Seq<char> {
    "response is not valid UTF8"@
}

/// The text reported when the session id cannot be read.
pub open spec fn bad_session_text() -> Seq<char> {
    "parsing the session id as JSON failed"@
}

/// The text reported for a status code outside the protocol.
pub open spec fn unexpected_status_text(status: u16) -> Seq<char> {
    "response code '"@ + spec_u64_chars(status as nat) + "' unexpected"@
}

/// One detector's detection run.
pub struct DetectRun {
    detector: Name,
    config: Json,
    state: DetectState,
    results: Vec<FailableDetection>,
    fatal: Option<DetectionError>,
}

impl DetectRun {
    /// The name of the detector this run belongs to.
    pub closed spec fn detector_name(&self) -> Seq<char> {
        self.detector@
    }

    /// The configuration to send.
    pub closed spec fn config_view(&self) -> json::JsonSpec {
        self.config@
    }

    /// Where the run stands.
    pub closed spec fn state(&self) -> DetectState {
        self.state
    }

    /// The outcomes collected so far, in arrival order.
    pub closed spec fn results(&self) -> Seq<FailableDetection> {
        self.results@
    }

    /// The detector-scoped error that ended the run, if one did.
    pub closed spec fn fatal_error(&self) -> Option<DetectionError> {
        self.fatal
    }

    /// The run's internal consistency: a fatal error is recorded exactly in
    /// the failed state, and the configuration can be written.
    pub open spec fn wf(&self) -> bool {
        &&& (self.state() is Failed <==> self.fatal_error() is Some)
        &&& (self.fatal_error() matches Some(e) ==> e.detector@ == self.detector_name())
        &&& json::json_wf(self.config_view())
    }

    /// Starts a run for one detector with its opaque configuration.
    pub fn new(detector: Name, config: Json) -> (r: DetectRun)
        requires
            json::json_wf(config@),
        ensures
            r.wf(),
            r.detector_name() == detector@,
            r.config_view() == config@,
            r.state() is Created,
            r.results().len() == 0,
    {
        DetectRun { detector, config, state: DetectState::Created, results: Vec::new(), fatal: None }
    }

    /// The request path that opens a detection session.
    pub fn creation_path(&self) -> (r: String)
        ensures
            r@ == "/detections/"@,
    {
        "/detections/".to_owned()
    }

    /// The request body that opens a detection session: the configuration,
    /// forwarded verbatim as JSON.
    pub fn creation_body(&self) -> (r: Vec<u8>)
        requires
            self.wf(),
        ensures
            r@ == json::spec_write_json(self.config_view()),
    {
        json::to_bytes(&self.config)
    }

    /// Whether the run can still make progress.
    pub fn is_active(&self) -> (r: bool)
        ensures
            r == !(self.state() is Failed),
    {
        !matches!(self.state, DetectState::Failed)
    }

    /// Whether a session is open and samples may be sent.
    pub fn is_streaming(&self) -> (r: bool)
        ensures
            r == (self.state() is Streaming),
    {
        matches!(self.state, DetectState::Streaming { .. })
    }

    /// The request path of one sample detection within the open session.
    pub fn detection_path(&self) -> (r: String)
        requires
            self.state() matches DetectState::Streaming { session },
        ensures
            r@ == "/detections/"@ + spec_u64_chars(self.state()->Streaming_session as nat) + "/"@,
    {
        let session = match self.state {
            DetectState::Streaming { session } => session,
            _ => 0,
        };
        let mut t = "/detections/".to_owned();
        let digits = u64_string(session as u64);
        t.append(digits.as_str());
        t.append("/");
        t
    }

    /// Classifies the answer to the session request. A success carrying a
    /// session id opens the session; the detector rejecting its
    /// configuration, an unreadable session id, or an unexpected status ends
    /// the run with the matching detector-scoped error.
    pub fn on_creation_response(&mut self, status: u16, body: Vec<u8>)
        requires
            old(self).wf(),
            old(self).state() is Created,
        ensures
            final(self).wf(),
            final(self).detector_name() == old(self).detector_name(),
            final(self).config_view() == old(self).config_view(),
            final(self).results() == old(self).results(),
            status == 200 && spec_session_of(body@) is Some ==> final(self).state() == (
            DetectState::Streaming { session: spec_session_of(body@)->Some_0 }),
            status == 200 && spec_session_of(body@) is None ==> final(self).state() is Failed
                && (final(self).fatal_error() matches Some(e)
                && e.error_type matches DetectionErrorType::CreationResponseUnexpected(m) && m@
                == bad_session_text()),
            status == 400 && text::utf8_valid(body@) ==> final(self).state() is Failed && (final(self).fatal_error() matches Some(e) && e.error_type
                matches DetectionErrorType::ConfigRejected(m) && m@ == text::utf8_chars(body@)),
            status == 400 && !text::utf8_valid(body@) ==> final(self).state() is Failed && (final(self).fatal_error() matches Some(e) && e.error_type
                matches DetectionErrorType::CreationResponseUnexpected(m2) && m2@
                == no_utf8_text()),
            status != 200 && status != 400 ==> final(self).state() is Failed && (final(self).fatal_error() matches Some(e) && e.error_type
                matches DetectionErrorType::CreationResponseUnexpected(m) && m@
                == unexpected_status_text(status)),
    {
        if status == 200 {
            match json::parse_json(body.as_slice()) {
                Some(v) => {
                    match json::num_u32(&v) {
                        Some(id) => {
                            self.state = DetectState::Streaming { session: id };
                        },
                        None => {
                            self.fail(DetectionErrorType::CreationResponseUnexpected(
                                "parsing the session id as JSON failed".to_owned(),
                            ));
                        },
                    }
                },
                None => {
                    self.fail(DetectionErrorType::CreationResponseUnexpected(
                        "parsing the session id as JSON failed".to_owned(),
                    ));
                },
            }
        } else if status == 400 {
            match text::utf8_string(&body) {
                Some(reason) => {
                    self.fail(DetectionErrorType::ConfigRejected(reason));
                },
                None => {
                    self.fail(DetectionErrorType::CreationResponseUnexpected(
                        "response is not valid UTF8".to_owned(),
                    ));
                },
            }
        } else {
            let reason = unexpected_status_string(status);
            self.fail(DetectionErrorType::CreationResponseUnexpected(reason));
        }
    }

    /// Records that the transport to the detector broke: the run ends with a
    /// connection failure.
    pub fn on_transport_failure(&mut self, message: String)
        requires
            old(self).wf(),
        ensures
            final(self).wf(),
            final(self).detector_name() == old(self).detector_name(),
            final(self).config_view() == old(self).config_view(),
            final(self).results() == old(self).results(),
            final(self).state() is Failed,
            final(self).fatal_error() matches Some(e) && e.error_type
                matches DetectionErrorType::ConnectionFailure(m) && m@ == message@,
    {
        self.fail(DetectionErrorType::ConnectionFailure(message));
    }

    /// Classifies the answer to one sample's detection request. A success
    /// holding an estimate is collected; a success without one is collected
    /// as an invalid estimation; the detector reporting failure for the
    /// sample is collected and the run goes on; any other status ends the
    /// whole run, discarding the remaining samples.
    pub fn on_sample_response(&mut self, sample: Identifier, status: u16, body: Vec<u8>)
        requires
            old(self).wf(),
            old(self).state() is Streaming,
        ensures
            final(self).wf(),
            final(self).detector_name() == old(self).detector_name(),
            final(self).config_view() == old(self).config_view(),
            status == 200 || status == 400 ==> final(self).state() == old(self).state() && final(self).results().len() == old(self).results().len() + 1 && final(self).results().take(
                old(self).results().len() as int,
            ) == old(self).results(),
            status == 200 && spec_decode_body(body@) is Some ==> (final(self).results().last()
                matches Ok(d) && d.sample == sample && d.detector@ == old(self).detector_name()
                && d.estimate == spec_decode_body(body@)->Some_0),
            status == 200 && spec_decode_body(body@) is None ==> (final(self).results().last()
                matches Err(err) && err.detector@ == old(self).detector_name() && (err.error_type
                matches DetectionErrorType::EstimationInvalid(s) && s == sample)),
            status == 400 && text::utf8_valid(body@) ==> (final(self).results().last()
                matches Err(err) && err.detector@ == old(self).detector_name() && (err.error_type
                matches DetectionErrorType::EstimationFailed(s, m) && s == sample && m@
                == text::utf8_chars(body@))),
            status == 400 && !text::utf8_valid(body@) ==> (final(self).results().last()
                matches Err(err) && err.detector@ == old(self).detector_name() && (err.error_type
                matches DetectionErrorType::EstimationResponseUnexpected(s2, m2) && s2 == sample
                && m2@ == no_utf8_text())),
            status != 200 && status != 400 ==> final(self).state() is Failed && final(self).results() == old(self).results() && (final(self).fatal_error() matches Some(e)
                && e.error_type matches DetectionErrorType::EstimationResponseUnexpected(s, m) && s
                == sample && m@ == unexpected_status_text(status)),
    {
        if status == 200 {
            match Estimate::decode(body.as_slice()) {
                Some(estimate) => {
                    self.results.push(
                        Ok(
                            Detection {
                                sample,
                                detector: self.detector.clone(),
                                estimate,
                            },
                        ),
                    );
                },
                None => {
                    self.results.push(
                        Err(
                            DetectionError {
                                detector: self.detector.clone(),
                                error_type: DetectionErrorType::EstimationInvalid(sample),
                            },
                        ),
                    );
                },
            }
        } else if status == 400 {
            match text::utf8_string(&body) {
                Some(message) => {
                    self.results.push(
                        Err(
                            DetectionError {
                                detector: self.detector.clone(),
                                error_type: DetectionErrorType::EstimationFailed(sample, message),
                            },
                        ),
                    );
                },
                None => {
                    self.results.push(
                        Err(
                            DetectionError {
                                detector: self.detector.clone(),
                                error_type: DetectionErrorType::EstimationResponseUnexpected(
                                    sample,
                                    "response is not valid UTF8".to_owned(),
                                ),
                            },
                        ),
                    );
                },
            }
        } else {
            let reason = unexpected_status_string(status);
            self.fail(DetectionErrorType::EstimationResponseUnexpected(sample, reason));
        }
    }

    /// Ends the run: a failed run surfaces its single detector-scoped error
    /// and discards everything else, a completed run surfaces its ordered
    /// outcomes.
    pub fn finish(self) -> (r: Result<Vec<FailableDetection>, DetectionError>)
        requires
            self.wf(),
        ensures
            self.state() is Failed ==> (r matches Err(e) && Some(e) == self.fatal_error()),
            !(self.state() is Failed) ==> (r matches Ok(v) && v@ == self.results()),
    {
        match self.fatal {
            Some(error) => Err(error),
            None => Ok(self.results),
        }
    }

    /// Records a detector-scoped error and ends the run.
    fn fail(&mut self, error_type: DetectionErrorType)
        requires
            old(self).wf(),
        ensures
            final(self).wf(),
            final(self).detector_name() == old(self).detector_name(),
            final(self).config_view() == old(self).config_view(),
            final(self).results() == old(self).results(),
            final(self).state() is Failed,
            final(self).fatal_error() matches Some(e) && e.detector@ == old(
                self,
            ).detector_name() && e.error_type == error_type,
    {
        self.state = DetectState::Failed;
        self.fatal = Some(DetectionError { detector: self.detector.clone(), error_type });
    }
}

/// The estimate a sample response body decodes to.
pub open spec fn spec_decode_body(bytes: Seq<u8>) -> Option<Estimate> {
    crate::estimate::spec_decode_estimate(bytes)
}

/// The text reporting a status code outside the protocol.
pub fn unexpected_status_string(status: u16) -> (r: String)
    ensures
        r@ == unexpected_status_text(status),
{
    let mut t = "response code '".to_owned();
    let digits = u64_string(status as u64);
    t.append(digits.as_str());
    t.append("' unexpected");
    t
}

} // verus!
