use proj::direction::Direction;
use proj::pipeline::{DefinitionError, Domain, Pipeline};

const NAD83_FT_TO_M: &str = "
    +proj=pipeline
    +step +inv +proj=lcc +lat_1=33.88333333333333
    +lat_2=32.78333333333333 +lat_0=32.16666666666666
    +lon_0=-116.25 +x_0=2000000.0001016 +y_0=500000.0001016001 +ellps=GRS80
    +towgs84=0,0,0,0,0,0,0 +units=us-ft +no_defs
    +step +proj=lcc +lat_1=33.88333333333333 +lat_2=32.78333333333333 +lat_0=32.16666666666666
    +lon_0=-116.25 +x_0=2000000 +y_0=500000
    +ellps=GRS80 +towgs84=0,0,0,0,0,0,0 +units=m +no_defs
";

#[test]
fn compatible_pipeline_is_built() {
    let p = Pipeline::from_definition(NAD83_FT_TO_M).unwrap();
    assert_eq!(p.len(), 2);
    assert_eq!(p.step(0).direction, Direction::Inverse);
    assert_eq!(p.step(1).direction, Direction::Forward);
    assert_eq!(p.input_domain(), Domain::Projected);
    assert_eq!(p.output_domain(), Domain::Projected);
}

#[test]
fn projected_coordinates_fed_to_geodetic_step_fail() {
    let r = Pipeline::from_definition(
        "+proj=pipeline +step +proj=lcc +lat_1=33.88 +step +proj=lcc +lat_1=33.88",
    );
    assert_eq!(r.err(), Some(DefinitionError::DomainMismatch(0)));
}

#[test]
fn mismatch_reports_first_offending_step() {
    let r = Pipeline::from_definition(
        "+proj=pipeline +step +proj=longlat +step +proj=tmerc +step +proj=cart",
    );
    assert_eq!(r.err(), Some(DefinitionError::DomainMismatch(1)));
}

#[test]
fn empty_definition_fails() {
    assert_eq!(Pipeline::from_definition("").err(), Some(DefinitionError::Empty));
    assert_eq!(Pipeline::from_definition("  \n\t ").err(), Some(DefinitionError::Empty));
}

#[test]
fn step_without_method_fails() {
    let r = Pipeline::from_definition("+proj=pipeline +step +proj=tmerc +step +inv");
    assert_eq!(r.err(), Some(DefinitionError::MissingMethod(1)));
}

#[test]
fn single_projection_reads_geodetic() {
    let p = Pipeline::from_definition(
        "+proj=tmerc +lat_0=49 +lon_0=-2 +k=0.9996012717 +x_0=400000 +y_0=-100000 +ellps=airy",
    )
    .unwrap();
    assert_eq!(p.len(), 1);
    assert_eq!(p.input_domain(), Domain::Geodetic);
    assert_eq!(p.output_domain(), Domain::Projected);
}

#[test]
fn inverse_reverses_steps_and_directions() {
    let p = Pipeline::from_definition(
        "+proj=pipeline +step +proj=cart +ellps=GRS80 +step +proj=helmert +x=1 +step +inv +proj=cart",
    )
    .unwrap();
    assert_eq!(p.input_domain(), Domain::Geodetic);
    let q = p.inverse();
    assert_eq!(q.len(), 3);
    assert_eq!(q.step(0).direction, Direction::Forward);
    assert_eq!(q.step(0).target, Domain::Geocentric);
    assert_eq!(q.step(1).source, Domain::Geocentric);
    assert_eq!(q.step(1).direction, Direction::Inverse);
    assert_eq!(q.step(2).direction, Direction::Inverse);
    assert_eq!(q.input_domain(), p.output_domain());
    assert_eq!(q.output_domain(), p.input_domain());
    let back = q.inverse();
    for i in 0..3 {
        assert_eq!(back.step(i), p.step(i));
    }
}

#[test]
fn inverted_pipeline_definition_runs_backwards() {
    let p = Pipeline::from_definition(
        "+proj=pipeline +inv +step +proj=longlat +step +proj=tmerc",
    )
    .unwrap();
    assert_eq!(p.len(), 2);
    assert_eq!(p.step(0).source, Domain::Geodetic);
    assert_eq!(p.step(0).target, Domain::Projected);
    assert_eq!(p.step(0).direction, Direction::Inverse);
    assert_eq!(p.input_domain(), Domain::Projected);
    assert_eq!(p.output_domain(), Domain::Geodetic);
}

#[test]
fn same_definition_builds_same_pipeline() {
    let a = Pipeline::from_definition(NAD83_FT_TO_M).unwrap();
    let b = Pipeline::from_definition(NAD83_FT_TO_M).unwrap();
    assert_eq!(a.len(), b.len());
    for i in 0..a.len() {
        assert_eq!(a.step(i), b.step(i));
    }
}

#[test]
fn unknown_method_reads_any_coordinates() {
    let p = Pipeline::from_definition("+proj=pipeline +step +proj=tmerc +step +proj=axisswap +order=2,1")
        .unwrap();
    assert_eq!(p.output_domain(), Domain::Any);
}

#[test]
fn direction_from_flag() {
    assert_eq!(Direction::from_inverse(true), Direction::Inverse);
    assert_eq!(Direction::from_inverse(false), Direction::Forward);
    assert!(Direction::Inverse.is_inverse());
    assert_eq!(Direction::Forward.flip(), Direction::Inverse);
    assert_eq!(Direction::Inverse.flip().flip(), Direction::Inverse);
}
