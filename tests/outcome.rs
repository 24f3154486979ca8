use proj::error::ProjError;
use proj::outcome::{apply_batch, call_outcome, BatchFailure};

#[test]
fn successful_call_gives_its_output() {
    assert_eq!(call_outcome(0, (500119.70, 500027.78)), Ok((500119.70, 500027.78)));
}

#[test]
fn failed_call_gives_its_status() {
    assert_eq!(call_outcome(-14, (f64::INFINITY, f64::INFINITY)), Err(-14));
}

#[test]
fn error_recovery_after_failed_call() {
    let first = call_outcome(2049, (f64::INFINITY, f64::INFINITY));
    assert!(first.is_err());
    let second = call_outcome(0, (0.0, 0.0));
    assert_eq!(second, call_outcome(0, (0.0, 0.0)));
    assert_eq!(second, Ok((0.0, 0.0)));
}

#[test]
fn batch_applies_every_output_in_order() {
    let mut points = vec![(4760096.421921, 3744293.729449), (4760197.421921, 3744394.729449)];
    let results = vec![(0, (1450880.29, 1141263.01)), (0, (1450911.08, 1141293.80))];
    assert_eq!(apply_batch(&mut points, &results), Ok(()));
    assert_eq!(points, vec![(1450880.29, 1141263.01), (1450911.08, 1141293.80)]);
    for (i, r) in results.iter().enumerate() {
        assert_eq!(call_outcome(r.0, r.1), Ok(points[i]));
    }
}

#[test]
fn batch_failure_reports_first_failing_element_and_keeps_points() {
    let mut points = vec![(1.0, 2.0), (3.0, 4.0), (5.0, 6.0)];
    let results = vec![(0, (10.0, 20.0)), (2049, (0.0, 0.0)), (-3, (0.0, 0.0))];
    assert_eq!(apply_batch(&mut points, &results), Err(BatchFailure { index: 1, code: 2049 }));
    assert_eq!(points, vec![(1.0, 2.0), (3.0, 4.0), (5.0, 6.0)]);
    assert!(call_outcome(results[1].0, results[1].1).is_err());
}

#[test]
fn empty_batch_succeeds() {
    let mut points: Vec<(f64, f64)> = Vec::new();
    assert_eq!(apply_batch(&mut points, &Vec::new()), Ok(()));
    assert!(points.is_empty());
}

#[test]
fn conversion_error_text() {
    let err = ProjError::Conversion("latitude or longitude exceeded limits".to_string());
    assert_eq!(
        "The conversion failed with the following error: latitude or longitude exceeded limits",
        err.to_string()
    );
    assert_eq!(err.message(), "latitude or longitude exceeded limits");
}

#[test]
fn projection_error_text() {
    let err = ProjError::Projection("point outside of projection domain".to_string());
    assert_eq!(
        "The projection failed with the following error: point outside of projection domain",
        err.to_string()
    );
}
