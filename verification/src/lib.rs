//! Orchestration core for evaluating containerised pupil-detection algorithms.
//!
//! The library covers the logic of the evaluation pipeline: sample identity,
//! detector naming rules, the detection wire protocol, aggregation of result
//! batches, and the validation of detector and engine configurations. The
//! surrounding process (container lifecycle, sockets, file reads) lives with
//! the caller and feeds plain values into these verified functions.

pub mod dataset;
pub mod detect;
pub mod detection;
pub mod detector;
pub mod engine;
pub mod errors;
pub mod estimate;
pub mod estimates;
pub mod handler;
pub mod identifier;
pub mod json;
pub mod meta_data;
pub mod name;
pub mod text;
pub mod util;

pub use dataset::{Dataset, Entry, ErrorType as FileError, Sample, Samples};
pub use detect::{DetectRun, DetectState};
pub use detection::{Detection, DetectionError, DetectionErrorType, FailableDetection};
pub use errors::{Errors, ErrorWithId};
pub use estimate::{Ellipse, Estimate, Point, Position, Radian};
pub use estimates::Estimates;
pub use handler::{ErrorHandler, ErrorLog, ErrorPrinter, RunError};
pub use identifier::Identifier;
pub use meta_data::{Error as MetaDataLoadingError, MetaData, OutputType};
pub use name::{InvalidName, Name};
pub use util::check_duplicates;
