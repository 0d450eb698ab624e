//! Aggregating per-detector batches into one stream of detections.

use ommatidia::json::Number;
use ommatidia::{
    Detection, DetectionError, DetectionErrorType, ErrorLog, Estimate, Estimates, Identifier,
    Name, Point, Position, RunError,
};

fn confidence(mantissa: u64, scale: u8) -> Option<Number> {
    Some(Number { negative: false, mantissa, scale })
}

fn point(confidence_value: Option<Number>) -> Estimate {
    Estimate::Point(Point {
        pos: Position { x: 1, y: 2 },
        confidence: confidence_value,
        sample: ommatidia::estimate::Sample {
            width: 42,
            height: 43,
        },
    })
}

fn detection(name: &Name, identifier: &str, estimate: Estimate) -> Detection {
    Detection {
        sample: Identifier::from(identifier),
        detector: name.clone(),
        estimate,
    }
}

fn generate_data() -> Estimates {
    let detector_name = Name::try_from("detector").expect("valid name");
    let example_data = vec![Ok(vec![
        Ok(detection(&detector_name, "identifier1", point(confidence(10, 1)))),
        Err(DetectionError {
            detector: detector_name.clone(),
            error_type: DetectionErrorType::EstimationFailed(
                Identifier::from("identifier2"),
                String::from("A nasty error"),
            ),
        }),
        Ok(detection(&detector_name, "identifier3", point(confidence(7, 1)))),
    ])];

    Estimates::new(example_data)
}

fn drain(mut estimates: Estimates) -> (Vec<Detection>, ErrorLog) {
    let mut handler = ErrorLog::new();
    let mut detections = Vec::new();
    while let Some(detection) = estimates.next(&mut handler) {
        detections.push(detection);
    }
    (detections, handler)
}

#[test]
fn test_size_hint() {
    let estimates = generate_data();
    assert_eq!(estimates.size_hint(), (0, Some(3)));
}

#[test]
fn test_values() {
    let (detections, _) = drain(generate_data());
    assert!(detections
        .iter()
        .any(|detection| detection.sample.as_str() == "identifier3"));
}

#[test]
fn test_number_of_values() {
    let (detections, _) = drain(generate_data());
    assert_eq!(detections.len(), 2);
}

#[test]
fn failed_batches_are_skipped_and_reported() {
    let name = Name::try_from("det").expect("valid name");
    let batch_one = Ok(vec![
        Ok(detection(&name, "s1", point(None))),
        Err(DetectionError {
            detector: name.clone(),
            error_type: DetectionErrorType::EstimationInvalid(Identifier::from("s2")),
        }),
        Ok(detection(&name, "s3", point(None))),
    ]);
    let batch_two = Err(DetectionError {
        detector: name.clone(),
        error_type: DetectionErrorType::ConnectionFailure("socket closed".to_string()),
    });
    let batch_three = Ok(vec![Ok(detection(&name, "s4", point(None)))]);

    let estimates = Estimates::new(vec![batch_one, batch_two, batch_three]);
    let (detections, handler) = drain(estimates);

    // Exactly the successes of the intact batches come through: the two of
    // the first batch and the one of the third; nothing of the failed batch.
    let mut samples: Vec<&str> = detections.iter().map(|d| d.sample.as_str()).collect();
    samples.sort_unstable();
    assert_eq!(samples, vec!["s1", "s3", "s4"]);

    // The handler saw exactly two errors: the failed batch and the failed
    // sample.
    let errors = handler.into_errors();
    assert_eq!(errors.len(), 2);
    let mut batch_failures = 0;
    let mut sample_failures = 0;
    for error in &errors {
        match error {
            RunError::Detection(e) => match e.error_type {
                DetectionErrorType::ConnectionFailure(_) => batch_failures += 1,
                DetectionErrorType::EstimationInvalid(_) => sample_failures += 1,
                _ => panic!("unexpected error kind"),
            },
            _ => panic!("unexpected error class"),
        }
    }
    assert_eq!((batch_failures, sample_failures), (1, 1));
}

#[test]
fn empty_batches_yield_nothing() {
    let estimates = Estimates::new(vec![]);
    let (detections, handler) = drain(estimates);
    assert!(detections.is_empty());
    assert_eq!(handler.len(), 0);
}

#[test]
fn size_hint_ignores_failed_batches() {
    let name = Name::try_from("det").expect("valid name");
    let estimates = Estimates::new(vec![
        Err(DetectionError {
            detector: name.clone(),
            error_type: DetectionErrorType::ConfigRejected("no".to_string()),
        }),
        Ok(vec![Ok(detection(&name, "s1", point(None)))]),
    ]);
    assert_eq!(estimates.size_hint(), (0, Some(1)));
}
