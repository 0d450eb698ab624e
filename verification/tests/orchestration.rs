//! Datasets, broadcasting, load runs, and the validation of detector and
//! engine configurations.

use ommatidia::dataset::{LoadEvent, Sample};
use ommatidia::json::Json;
use ommatidia::{engine, detector};
use ommatidia::{
    check_duplicates, Dataset, Entry, ErrorLog, ErrorWithId, Errors, FileError, Name, RunError,
};

#[test]
fn broadcast_reaches_every_subscriber_in_publish_order() {
    let mut dataset = Dataset::new("ds".to_string(), vec![]);
    let mut receivers = vec![
        dataset.create_connection(),
        dataset.create_connection(),
        dataset.create_connection(),
    ];
    let (_run, _entries, sender) = dataset.into_loader();

    for (path, payload) in [("/a", 1u8), ("/b", 2), ("/c", 3)] {
        sender
            .try_broadcast(Sample::new("ds", path, vec![payload]))
            .expect("room in the channel");
    }

    for receiver in receivers.iter_mut() {
        for (path, payload) in [("ds:/a", 1u8), ("ds:/b", 2), ("ds:/c", 3)] {
            let sample = receiver.try_recv().expect("a published sample");
            assert_eq!(sample.identifier.as_str(), path);
            assert_eq!(sample.as_ref(), &[payload]);
        }
        assert!(receiver.try_recv().is_err());
    }
}

#[test]
fn late_subscribers_miss_earlier_samples() {
    let mut dataset = Dataset::new("ds".to_string(), vec![]);
    let mut early = dataset.create_connection();
    let (_run, _entries, sender) = dataset.into_loader();
    sender
        .try_broadcast(Sample::new("ds", "/a", vec![1]))
        .expect("room in the channel");

    let mut late = sender.new_receiver();
    sender
        .try_broadcast(Sample::new("ds", "/b", vec![2]))
        .expect("room in the channel");

    assert_eq!(early.try_recv().expect("first").identifier.as_str(), "ds:/a");
    assert_eq!(early.try_recv().expect("second").identifier.as_str(), "ds:/b");
    // The late subscriber sees only what was published after it arrived.
    assert_eq!(late.try_recv().expect("only").identifier.as_str(), "ds:/b");
    assert!(late.try_recv().is_err());
}

#[test]
fn closed_channel_aborts_the_load_with_a_single_report() {
    let dataset = Dataset::new("ds".to_string(), vec![Entry::Path("/a".to_string())]);
    let (mut run, _entries, _sender) = dataset.into_loader();
    let mut handler = ErrorLog::new();

    let publish = run.step(
        LoadEvent::FileRead {
            path: "/a".to_string(),
            result: Ok(vec![1, 2, 3]),
        },
        &mut handler,
    );
    let sample = publish.expect("a readable file is published");
    assert_eq!(sample.identifier.as_str(), "ds:/a");
    assert_eq!(handler.len(), 0);

    // Every subscriber is gone: the load stops and reports exactly once.
    let publish = run.step(LoadEvent::Closed, &mut handler);
    assert!(publish.is_none());

    let errors = handler.into_errors();
    assert_eq!(errors.len(), 1);
    match &errors[0] {
        RunError::Dataset(e) => {
            assert_eq!(e.dataset, "ds");
            assert!(matches!(e.details, FileError::Aborted));
            assert_eq!(e.message(), "loading and sending samples was aborted");
        }
        _ => panic!("the abort must be a dataset error"),
    }
}

#[test]
fn failed_reads_are_reported_and_the_load_goes_on() {
    let dataset = Dataset::new("ds".to_string(), vec![]);
    let (mut run, _entries, _sender) = dataset.into_loader();
    let mut handler = ErrorLog::new();

    let publish = run.step(
        LoadEvent::FileRead {
            path: "/gone".to_string(),
            result: Err("no such file".to_string()),
        },
        &mut handler,
    );
    assert!(publish.is_none());
    run.step(
        LoadEvent::PatternInvalid {
            message: "bad bracket".to_string(),
        },
        &mut handler,
    );
    run.step(
        LoadEvent::GlobIo {
            message: "denied".to_string(),
        },
        &mut handler,
    );

    let errors = handler.into_errors();
    assert_eq!(errors.len(), 3);
    match &errors[0] {
        RunError::Dataset(e) => match &e.details {
            FileError::Io(identifier, reason) => {
                assert_eq!(identifier.as_str(), "ds:/gone");
                assert_eq!(reason, "no such file");
            }
            _ => panic!("a failed read must be an io error"),
        },
        _ => panic!("a failed read must be a dataset error"),
    }
    match &errors[1] {
        RunError::Dataset(e) => assert!(matches!(e.details, FileError::PatternInvalid(_))),
        _ => panic!("a bad pattern must be a dataset error"),
    }
    match &errors[2] {
        RunError::Dataset(e) => assert!(matches!(e.details, FileError::GlobIo(_))),
        _ => panic!("a failed walk must be a dataset error"),
    }
}

fn detector_config(name: &str) -> detector::Config {
    detector::Config {
        name: Name::try_from(name).expect("valid name"),
        image: "image:latest".to_string(),
        config: Json::Obj(vec![]),
        engine: None,
    }
}

#[test]
fn duplicate_detector_names_are_rejected_before_planning() {
    let engines = engine::Engines::try_from(vec![]).expect("default engine");
    let configs = vec![detector_config("a"), detector_config("a")];
    match detector::plan(configs, &engines) {
        Err(e) => {
            assert_eq!(e.detector.as_ref(), "a");
            assert!(matches!(e.details, detector::ErrorType::MultipleNames));
        }
        Ok(_) => panic!("two detectors with one name must be rejected"),
    }
}

#[test]
fn plan_resolves_each_detector_to_its_engine() {
    let engines = engine::Engines::try_from(vec![
        engine::Config {
            name: "default".to_string(),
            remote_config: None,
        },
        engine::Config {
            name: "remote".to_string(),
            remote_config: Some(engine::RemoteConfig {
                host: "farm".to_string(),
                port: Some(4243),
                authentication: None,
            }),
        },
    ])
    .expect("valid engines");

    let mut with_engine = detector_config("b");
    with_engine.engine = Some("remote".to_string());
    let jobs = detector::plan(vec![detector_config("a"), with_engine], &engines)
        .expect("a valid plan");
    assert_eq!(jobs.len(), 2);
    assert_eq!(jobs[0].name.as_ref(), "a");
    assert_eq!(jobs[0].engine.name, "default");
    assert_eq!(jobs[1].name.as_ref(), "b");
    assert_eq!(jobs[1].engine.name, "remote");
}

#[test]
fn unknown_and_ambiguous_engines_are_rejected() {
    let engines = engine::Engines::try_from(vec![
        engine::Config {
            name: "one".to_string(),
            remote_config: None,
        },
        engine::Config {
            name: "two".to_string(),
            remote_config: Some(engine::RemoteConfig {
                host: "far".to_string(),
                port: None,
                authentication: None,
            }),
        },
    ])
    .expect("valid engines");

    let mut with_engine = detector_config("a");
    with_engine.engine = Some("three".to_string());
    match detector::plan(vec![with_engine], &engines) {
        Err(e) => assert!(matches!(e.details, detector::ErrorType::UnknownEngine(_))),
        Ok(_) => panic!("an unknown engine must be rejected"),
    }

    match detector::plan(vec![detector_config("a")], &engines) {
        Err(e) => assert!(matches!(e.details, detector::ErrorType::AmbiguesEngine)),
        Ok(_) => panic!("two engines and no default must be ambiguous"),
    }
}

#[test]
fn engines_fill_in_a_local_default() {
    let engines = engine::Engines::try_from(vec![]).expect("default engine");
    let found = engines.get_default().expect("the implicit engine");
    assert_eq!(found.name, "default");
    assert!(found.remote_config.is_none());
}

#[test]
fn engines_reject_repeated_names_and_hosts() {
    let remote = |host: &str| engine::Config {
        name: host.to_string(),
        remote_config: Some(engine::RemoteConfig {
            host: "h".to_string(),
            port: Some(1),
            authentication: None,
        }),
    };
    match engine::Engines::try_from(vec![
        engine::Config {
            name: "same".to_string(),
            remote_config: None,
        },
        engine::Config {
            name: "same".to_string(),
            remote_config: Some(engine::RemoteConfig {
                host: "h".to_string(),
                port: Some(1),
                authentication: None,
            }),
        },
    ]) {
        Err(engine::Error::DuplicatedName(name)) => assert_eq!(name, "same"),
        _ => panic!("repeated names must be rejected"),
    }
    match engine::Engines::try_from(vec![remote("a"), remote("b")]) {
        Err(engine::Error::DuplicatedHost(host)) => assert_eq!(host, "h:1"),
        _ => panic!("repeated hosts must be rejected"),
    }
}

#[test]
fn remote_ports_default_by_security() {
    let plain = engine::RemoteConfig {
        host: "h".to_string(),
        port: None,
        authentication: None,
    };
    assert_eq!(plain.port(), 2375);
    assert_eq!(plain.address(), "h:2375");
    let secured = engine::RemoteConfig {
        host: "h".to_string(),
        port: None,
        authentication: Some(engine::SslConfig {
            private_key: engine::ReadableFilePath::new("/k".to_string()),
            cert_key: engine::ReadableFilePath::new("/c".to_string()),
            certificate_chain: engine::ReadableFilePath::new("/a".to_string()),
        }),
    };
    assert_eq!(secured.port(), 2376);
    let pinned = engine::RemoteConfig {
        host: "h".to_string(),
        port: Some(4243),
        authentication: None,
    };
    assert_eq!(pinned.port(), 4243);
}

#[test]
fn check_duplicates_reports_the_first_repetition() {
    let unique = vec!["a".to_string(), "b".to_string(), "c".to_string()];
    assert_eq!(check_duplicates(&unique), None);
    let repeated = vec![
        "a".to_string(),
        "b".to_string(),
        "a".to_string(),
        "b".to_string(),
    ];
    assert_eq!(check_duplicates(&repeated), Some("a".to_string()));
}

#[test]
fn errors_collect_reports_with_and_without_identifiers() {
    let mut errors: Errors<String> = Errors::new();
    assert!(!errors.any_errors());
    errors.report("plain".to_string());
    assert!(errors.any_errors());
    let tagged: ErrorWithId = errors.with_id("sample-1".to_string());
    tagged.report(&mut errors, "scoped".to_string());
    assert!(errors.any_errors());
}

#[test]
fn classify_creation_failure_tells_missing_images_apart() {
    let name = Name::try_from("det").expect("valid name");
    let image = "img:latest".to_string();
    let missing = detector::classify_creation_failure(&name, &image, Some(404), "gone".to_string());
    assert!(matches!(missing.details, detector::ErrorType::ImageUnknown(_)));
    let broken =
        detector::classify_creation_failure(&name, &image, Some(500), "boom".to_string());
    match broken.details {
        detector::ErrorType::CreationFailed(message) => assert_eq!(message, "boom"),
        _ => panic!("other engine failures are creation failures"),
    }
    let no_status = detector::classify_creation_failure(&name, &image, None, "down".to_string());
    assert!(matches!(
        no_status.details,
        detector::ErrorType::CreationFailed(_)
    ));
}
