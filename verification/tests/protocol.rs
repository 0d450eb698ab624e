//! The detection protocol state machine and the metadata handshake.

use ommatidia::json::Json;
use ommatidia::meta_data;
use ommatidia::{
    DetectRun, DetectionError, DetectionErrorType, Estimate, Identifier, MetaData, Name,
    OutputType, Point, Position,
};

fn fresh_run() -> DetectRun {
    let name = Name::try_from("det").expect("valid name");
    DetectRun::new(name, Json::Obj(vec![]))
}

#[test]
fn config_rejection_ends_the_run_before_any_sample() {
    let mut run = fresh_run();
    assert_eq!(run.creation_path(), "/detections/");
    assert_eq!(run.creation_body(), b"{}".to_vec());

    run.on_creation_response(400, b"bad cfg".to_vec());
    assert!(!run.is_active());
    assert!(!run.is_streaming());

    let name = Name::try_from("det").expect("valid name");
    assert_eq!(
        run.finish(),
        Err(DetectionError {
            detector: name,
            error_type: DetectionErrorType::ConfigRejected("bad cfg".to_string()),
        })
    );
}

#[test]
fn sample_failure_is_collected_and_the_run_goes_on() {
    let mut run = fresh_run();
    run.on_creation_response(200, b"7".to_vec());
    assert!(run.is_streaming());
    assert_eq!(run.detection_path(), "/detections/7/");

    run.on_sample_response(Identifier::from("ds:/a"), 400, b"blurry".to_vec());
    assert!(run.is_streaming());

    let estimate = r#"{"type":"Point","x":1,"y":2,"sample":{"width":42,"height":43}}"#;
    run.on_sample_response(Identifier::from("ds:/b"), 200, estimate.as_bytes().to_vec());
    assert!(run.is_streaming());

    let name = Name::try_from("det").expect("valid name");
    let outcomes = run.finish().expect("run completed");
    assert_eq!(outcomes.len(), 2);
    assert_eq!(
        outcomes[0],
        Err(DetectionError {
            detector: name.clone(),
            error_type: DetectionErrorType::EstimationFailed(
                Identifier::from("ds:/a"),
                "blurry".to_string(),
            ),
        })
    );
    match &outcomes[1] {
        Ok(detection) => {
            assert_eq!(detection.sample.as_str(), "ds:/b");
            assert_eq!(detection.detector.as_ref(), "det");
            assert_eq!(
                detection.estimate,
                Estimate::Point(Point {
                    pos: Position { x: 1, y: 2 },
                    confidence: None,
                    sample: ommatidia::estimate::Sample {
                        width: 42,
                        height: 43
                    },
                })
            );
        }
        Err(_) => panic!("second outcome must be a detection"),
    }
}

#[test]
fn unparsable_estimate_is_a_sample_scoped_error() {
    let mut run = fresh_run();
    run.on_creation_response(200, b"1".to_vec());
    run.on_sample_response(Identifier::from("ds:/a"), 200, b"not json".to_vec());
    assert!(run.is_streaming());
    let outcomes = run.finish().expect("run completed");
    assert_eq!(outcomes.len(), 1);
    match &outcomes[0] {
        Err(e) => assert!(matches!(
            e.error_type,
            DetectionErrorType::EstimationInvalid(_)
        )),
        Ok(_) => panic!("an unparsable body must not count as a detection"),
    }
}

#[test]
fn unexpected_sample_status_aborts_the_whole_run() {
    let mut run = fresh_run();
    run.on_creation_response(200, b"1".to_vec());
    let good = r#"{"type":"Point","x":1,"y":2,"sample":{"width":42,"height":43}}"#;
    run.on_sample_response(Identifier::from("ds:/a"), 200, good.as_bytes().to_vec());
    run.on_sample_response(Identifier::from("ds:/b"), 500, b"oops".to_vec());
    assert!(!run.is_active());
    match run.finish() {
        Err(e) => {
            assert!(matches!(
                e.error_type,
                DetectionErrorType::EstimationResponseUnexpected(_, _)
            ));
        }
        Ok(_) => panic!("an unexpected status must abort the run"),
    }
}

#[test]
fn unreadable_session_id_fails_the_creation() {
    let mut run = fresh_run();
    run.on_creation_response(200, b"\"not a number\"".to_vec());
    assert!(!run.is_active());
    match run.finish() {
        Err(e) => assert!(matches!(
            e.error_type,
            DetectionErrorType::CreationResponseUnexpected(_)
        )),
        Ok(_) => panic!("a response without a session id must fail"),
    }
}

#[test]
fn unexpected_creation_status_names_the_code() {
    let mut run = fresh_run();
    run.on_creation_response(503, b"".to_vec());
    match run.finish() {
        Err(e) => match e.error_type {
            DetectionErrorType::CreationResponseUnexpected(message) => {
                assert_eq!(message, "response code '503' unexpected");
            }
            _ => panic!("wrong error kind"),
        },
        Ok(_) => panic!("an unexpected status must fail"),
    }
}

#[test]
fn transport_failure_is_a_connection_failure() {
    let mut run = fresh_run();
    run.on_creation_response(200, b"2".to_vec());
    run.on_transport_failure("broken pipe".to_string());
    assert!(!run.is_active());
    match run.finish() {
        Err(e) => assert_eq!(
            e.error_type,
            DetectionErrorType::ConnectionFailure("broken pipe".to_string())
        ),
        Ok(_) => panic!("a transport failure must abort the run"),
    }
}

#[test]
fn metadata_handshake_accepts_a_detector_description() {
    let body = r#"{
        "name": "fancy",
        "additional_information": "about",
        "authors": ["a", "b"],
        "license": "MIT",
        "prediction": "Point"
    }"#;
    let meta = MetaData::from_response(200, body.as_bytes().to_vec()).expect("valid metadata");
    assert_eq!(meta.name, "fancy");
    assert_eq!(meta.additional_information, "about");
    assert_eq!(meta.authors, vec!["a".to_string(), "b".to_string()]);
    assert_eq!(meta.license, "MIT");
    assert_eq!(meta.prediction, OutputType::Point);
}

#[test]
fn metadata_handshake_reports_failed_requests_with_their_text() {
    match MetaData::from_response(500, b"kaputt".to_vec()) {
        Err(meta_data::Error::RequestFailed(status, message)) => {
            assert_eq!(status, 500);
            assert_eq!(message, "kaputt");
        }
        _ => panic!("a failed request must be reported"),
    }
}

#[test]
fn metadata_handshake_rejects_malformed_bodies() {
    for body in [
        "not json",
        "{}",
        r#"{"name":"x","additional_information":"","authors":"not a list","license":"","prediction":"Point"}"#,
        r#"{"name":"x","additional_information":"","authors":[],"license":"","prediction":"Cube"}"#,
    ] {
        match MetaData::from_response(200, body.as_bytes().to_vec()) {
            Err(meta_data::Error::InvalidPayload(_)) => {}
            _ => panic!("a malformed body must be an invalid payload: {}", body),
        }
    }
}

#[test]
fn metadata_output_types_cover_the_protocol() {
    for (tag, expected) in [
        ("Point", OutputType::Point),
        ("Ellipse", OutputType::Ellipse),
        ("Mask", OutputType::Mask),
    ] {
        let body = format!(
            r#"{{"name":"x","additional_information":"","authors":[],"license":"","prediction":"{}"}}"#,
            tag
        );
        let meta = MetaData::from_response(200, body.into_bytes()).expect("valid metadata");
        assert_eq!(meta.prediction, expected);
    }
}

#[test]
fn detection_error_messages_name_the_parties() {
    let name = Name::try_from("det").expect("valid name");
    let error = DetectionError {
        detector: name,
        error_type: DetectionErrorType::EstimationFailed(
            Identifier::from("ds:/a"),
            "blurry".to_string(),
        ),
    };
    assert_eq!(
        error.message(),
        "pupil detection algorithm 'det' failed to estimate a pupil for sample 'ds:/a': blurry"
    );
}

#[test]
fn metadata_strings_may_use_unicode_escapes() {
    let body = br#"{"name":"\u00e4","additional_information":"","authors":[],"license":"","prediction":"Mask"}"#;
    let meta = MetaData::from_response(200, body.to_vec()).expect("valid metadata");
    assert_eq!(meta.name, "\u{e4}");
}

#[test]
fn metadata_with_invalid_text_is_an_invalid_payload() {
    // A structurally valid object whose name holds bytes that are not UTF-8.
    let mut body = br#"{"name":""#.to_vec();
    body.push(0xFF);
    body.extend_from_slice(
        br#"","additional_information":"","authors":[],"license":"","prediction":"Mask"}"#,
    );
    match MetaData::from_response(200, body) {
        Err(meta_data::Error::InvalidPayload(_)) => {}
        _ => panic!("invalid text must be an invalid payload"),
    }
}
