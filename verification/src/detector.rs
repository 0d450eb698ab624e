//! Detector configurations, the detector-scoped error taxonomy of spawning,
//! and the validated plan for bringing a set of detectors up.
//!
//! Spawning itself — creating and starting a container, opening the
//! connection, the metadata handshake — is driven by the surrounding
//! process; the decisions are here: name uniqueness, engine resolution, and
//! the classification of failures.

use vstd::prelude::*;
use vstd::string::StringExecFns;

use crate::engine;
use crate::json::Json;
use crate::meta_data;
use crate::name::Name;
use crate::util;

verus! {

/// The configuration of one detector: its name, the image to run, the
/// opaque configuration forwarded to it, and optionally which engine runs
/// it.
#[derive(Debug)]
pub struct Config {
    pub name: Name,
    pub image: String,
    pub config: Json,
    pub engine: Option<String>,
}

impl Config {
    /// The detector's name as a borrowed string.
    pub fn as_ref(&self) -> (r: &str)
        ensures
            r@ == self.name@,
    {
        self.name.as_ref()
    }
}

/// A detector-scoped failure while validating or spawning.
#[derive(Debug, Clone, PartialEq, Eq)]
pub struct Error {
    pub detector: Name,
    pub details: ErrorType,
}

/// What kept a detector from coming up.
#[derive(Debug, Clone, PartialEq, Eq)]
pub enum ErrorType {
    /// Two configured detectors share this name.
    MultipleNames,
    /// The named engine is not configured.
    UnknownEngine(String),
    /// No engine was named and none can be chosen by default.
    AmbiguesEngine,
    /// The engine does not know the image.
    ImageUnknown(String),
    /// Creating or starting the container failed.
    CreationFailed(String),
    /// Connecting to the started container failed.
    ConnectionFailed,
    /// The container does not answer as a pupil detector.
    ImageInvalid(meta_data::Error),
}

impl Error {
    /// The human-readable description of this error.
    pub open spec fn spec_message(&self) -> Seq<char> {
        match self.details {
            ErrorType::MultipleNames => "at least two detectors with name '"@ + self.detector@
                + "' exist"@,
            ErrorType::UnknownEngine(engine_name) => "the engine '"@ + engine_name@
                + "' for detector '"@ + self.detector@ + "' is not known"@,
            ErrorType::AmbiguesEngine => {
                "unable to select a default engine for detector '"@ + self.detector@
                    + "' without explicit specification"@
            },
            ErrorType::ImageUnknown(image_name) => "specified image '"@ + image_name@
                + "' for detector '"@ + self.detector@ + "' is invalid"@,
            ErrorType::CreationFailed(message) => {
                "the engine failed to create and start the image for detector '"@ + self.detector@
                    + "': "@ + message@
            },
            ErrorType::ConnectionFailed => "connecting to the started container of detector '"@
                + self.detector@ + "' failed"@,
            ErrorType::ImageInvalid(_) => {
                "unable to communicate with the executable inside the container of '"@
                    + self.detector@ + "' as a pupil detector"@
            },
        }
    }

    /// Renders the description.
    pub fn message(&self) -> (r: String)
        ensures
            r@ == self.spec_message(),
    {
        match &self.details {
            ErrorType::MultipleNames => {
                let mut t = "at least two detectors with name '".to_owned();
                t.append(self.detector.as_ref());
                t.append("' exist");
                t
            },
            ErrorType::UnknownEngine(engine_name) => {
                let mut t = "the engine '".to_owned();
                t.append(engine_name.as_str());
                t.append("' for detector '");
                t.append(self.detector.as_ref());
                t.append("' is not known");
                t
            },
            ErrorType::AmbiguesEngine => {
                let mut t = "unable to select a default engine for detector '".to_owned();
                t.append(self.detector.as_ref());
                t.append("' without explicit specification");
                t
            },
            ErrorType::ImageUnknown(image_name) => {
                let mut t = "specified image '".to_owned();
                t.append(image_name.as_str());
                t.append("' for detector '");
                t.append(self.detector.as_ref());
                t.append("' is invalid");
                t
            },
            ErrorType::CreationFailed(message) => {
                let mut t = "the engine failed to create and start the image for detector '"
                    .to_owned();
                t.append(self.detector.as_ref());
                t.append("': ");
                t.append(message.as_str());
                t
            },
            ErrorType::ConnectionFailed => {
                let mut t = "connecting to the started container of detector '".to_owned();
                t.append(self.detector.as_ref());
                t.append("' failed");
                t
            },
            ErrorType::ImageInvalid(_) => {
                let mut t = "unable to communicate with the executable inside the container of '"
                    .to_owned();
                t.append(self.detector.as_ref());
                t.append("' as a pupil detector");
                t
            },
        }
    }
}

/// A detector-scoped creation failure, without the detector's name.
#[derive(Debug, Clone, PartialEq, Eq)]
pub enum CreationError {
    ImageUnknown(String),
    CreationFailed(String),
    ConnectionFailed,
    ImageInvalid(meta_data::Error),
}

impl CreationError {
    /// The human-readable description of this error.
    pub open spec fn spec_message(&self) -> Seq<char> {
        match self {
            CreationError::ImageUnknown(image_name) => "specified image '"@ + image_name@
                + "' is invalid"@,
            CreationError::CreationFailed(message) => {
                "the engine failed to create and start the image: "@ + message@
            },
            CreationError::ConnectionFailed => "connecting to the started container failed"@,
            CreationError::ImageInvalid(_) => {
                "unable to communicate with the container as a pupil detector"@
            },
        }
    }

    /// Renders the description.
    pub fn message(&self) -> (r: String)
        ensures
            r@ == self.spec_message(),
    {
        match self {
            CreationError::ImageUnknown(image_name) => {
                let mut t = "specified image '".to_owned();
                t.append(image_name.as_str());
                t.append("' is invalid");
                t
            },
            CreationError::CreationFailed(message) => {
                let mut t = "the engine failed to create and start the image: ".to_owned();
                t.append(message.as_str());
                t
            },
            CreationError::ConnectionFailed => {
                "connecting to the started container failed".to_owned()
            },
            CreationError::ImageInvalid(_) => {
                "unable to communicate with the container as a pupil detector".to_owned()
            },
        }
    }
}

/// The container port every detector image serves its protocol on.
pub fn service_port() -> (r: u16)
    ensures
        r == 8080,
{
    8080
}

/// Classifies a failed container creation: the engine answering "not found"
/// means the image is unknown, anything else is a creation failure with the
/// engine's own words.
pub fn classify_creation_failure(
    detector: &Name,
    image: &String,
    status_code: Option<u16>,
    message: String,
) -> (r: Error)
    ensures
        r.detector@ == detector@,
        status_code == Some(404u16) ==> (r.details matches ErrorType::ImageUnknown(i) && i@
            == image@),
        status_code != Some(404u16) ==> (r.details matches ErrorType::CreationFailed(m) && m@
            == message@),
{
    match status_code {
        Some(code) => {
            if code == 404 {
                Error {
                    detector: detector.clone(),
                    details: ErrorType::ImageUnknown(image.clone()),
                }
            } else {
                Error { detector: detector.clone(), details: ErrorType::CreationFailed(message) }
            }
        },
        None => Error { detector: detector.clone(), details: ErrorType::CreationFailed(message) },
    }
}

/// One planned spawn: which detector, on which engine.
#[derive(Debug)]
pub struct SpawnJob {
    pub name: Name,
    pub image: String,
    pub engine: engine::Config,
    pub config: Json,
}

/// The name of each configured detector, in order.
pub open spec fn spec_config_names(configs: Seq<Config>) -> Seq<Seq<char>> {
    configs.map_values(|c: Config| c.name@)
}

/// Holds when `job` is the planned spawn of `config` against `engines`: the
/// engine named by the configuration, or the default engine.
pub open spec fn job_matches(job: SpawnJob, config: Config, engines: engine::Engines) -> bool {
    &&& job.name == config.name
    &&& job.image == config.image
    &&& job.config == config.config
    &&& match config.engine {
        Some(engine_name) => engine::spec_find(engines.engines(), engine_name@, 0)
            matches Some(j) && job.engine == engines.engines()[j],
        None => if engines.engines().len() == 1 {
            job.engine == engines.engines()[0]
        } else {
            engine::spec_find(engines.engines(), engine::default_engine_name(), 0)
                matches Some(j) && job.engine == engines.engines()[j]
        },
    }
}

/// Validates a set of detector configurations and resolves each to its
/// engine. Names must be pairwise distinct — the first repeated name is
/// rejected before anything is planned — and every engine reference must
/// resolve; the jobs come back in configuration order.
#[verifier::loop_isolation(false)]
pub fn plan(configs: Vec<Config>, engines: &engine::Engines) -> (r: Result<Vec<SpawnJob>, Error>)
    ensures
        match r {
            Ok(jobs) => jobs@.len() == configs@.len() && (forall|i: int|
                0 <= i < configs@.len() ==> job_matches(
                    #[trigger] jobs@[i],
                    configs@[i],
                    *engines,
                )) && (forall|j: int|
                0 <= j < configs@.len() ==> !util::duplicate_at(spec_config_names(configs@), j)),
            Err(e) => match e.details {
                ErrorType::MultipleNames => exists|j: int|
                    #[trigger] util::first_duplicate_at(spec_config_names(configs@), j)
                        && e.detector@ == spec_config_names(configs@)[j],
                ErrorType::UnknownEngine(engine_name) => exists|i: int|
                    0 <= i < configs@.len() && (#[trigger] configs@[i].engine matches Some(n)
                        && n@ == engine_name@) && configs@[i].name == e.detector
                        && engine::spec_find(engines.engines(), engine_name@, 0) is None,
                ErrorType::AmbiguesEngine => exists|i: int|
                    0 <= i < configs@.len() && #[trigger] configs@[i].engine is None
                        && configs@[i].name == e.detector && engines.engines().len() != 1
                        && engine::spec_find(
                        engines.engines(),
                        engine::default_engine_name(),
                        0,
                    ) is None,
                _ => false,
            },
        },
{
    // Reject repeated names first, before any engine is resolved.
    let ghost name_views = spec_config_names(configs@);
    let n = configs.len();
    let mut j: usize = 0;
    while j < n
        invariant
            j <= n,
            n == configs@.len(),
            name_views == spec_config_names(configs@),
            forall|p: int| 0 <= p < j ==> !util::duplicate_at(name_views, p),
        decreases n - j,
    {
        let mut i: usize = 0;
        while i < j
            invariant
                i <= j < n,
                n == configs@.len(),
                name_views == spec_config_names(configs@),
                forall|p: int| 0 <= p < j ==> !util::duplicate_at(name_views, p),
                forall|q: int| 0 <= q < i ==> name_views[q] != name_views[j as int],
            decreases j - i,
        {
            if name_eq(&configs[i].name, &configs[j].name) {
                proof {
                    assert(name_views[i as int] == configs@[i as int].name@);
                    assert(name_views[j as int] == configs@[j as int].name@);
                    assert(util::duplicate_at(name_views, j as int));
                    assert(util::first_duplicate_at(name_views, j as int));
                }
                return Err(
                    Error {
                        detector: configs[j].name.clone(),
                        details: ErrorType::MultipleNames,
                    },
                );
            }
            i += 1;
        }
        proof {
            assert(!util::duplicate_at(name_views, j as int));
        }
        j += 1;
    }
    // Resolve each configuration to its engine, in order.
    let ghost orig = configs@;
    let mut rest = configs;
    let mut jobs: Vec<SpawnJob> = Vec::new();
    let mut k: usize = 0;
    proof {
        assert(rest@ =~= orig.skip(0));
    }
    while k < n
        invariant
            k <= n,
            n == orig.len(),
            rest@ == orig.skip(k as int),
            jobs@.len() == k,
            forall|i: int| 0 <= i < k ==> job_matches(#[trigger] jobs@[i], orig[i], *engines),
        decreases n - k,
    {
        let config = rest.remove(0);
        proof {
            assert(config == orig[k as int]);
            assert(rest@ =~= orig.skip(k as int + 1));
        }
        let resolved = match &config.engine {
            Some(engine_name) => {
                match engines.get(engine_name.as_str()) {
                    Some(found) => found.clone(),
                    None => {
                        proof {
                            assert(orig[k as int].engine == config.engine);
                            assert(orig[k as int].name == config.name);
                        }
                        return Err(
                            Error {
                                detector: config.name,
                                details: ErrorType::UnknownEngine(engine_name.clone()),
                            },
                        );
                    },
                }
            },
            None => {
                match engines.get_default() {
                    Some(found) => found.clone(),
                    None => {
                        proof {
                            assert(orig[k as int].engine == config.engine);
                            assert(orig[k as int].name == config.name);
                        }
                        return Err(
                            Error { detector: config.name, details: ErrorType::AmbiguesEngine },
                        );
                    },
                }
            },
        };
        jobs.push(
            SpawnJob {
                name: config.name,
                image: config.image,
                engine: resolved,
                config: config.config,
            },
        );
        k += 1;
    }
    Ok(jobs)
}

/// Compares two detector names.
fn name_eq(a: &Name, b: &Name) -> (r: bool)
    ensures
        r == (a@ == b@),
{
    let at = a.to_string();
    let bt = b.to_string();
    at.eq(&bt)
}

} // verus!
