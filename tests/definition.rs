use proj::definition::{chars_of, parse_definition, split_words};

fn text(v: &[char]) -> String {
    v.iter().collect()
}

#[test]
fn words_are_split_at_any_whitespace() {
    let words = split_words(&chars_of("  +proj=tmerc\t+lat_0=49\n +inv  "));
    let got: Vec<String> = words.iter().map(|w| text(w)).collect();
    assert_eq!(got, vec!["+proj=tmerc", "+lat_0=49", "+inv"]);
}

#[test]
fn no_words_in_blank_text() {
    assert!(split_words(&chars_of("")).is_empty());
    assert!(split_words(&chars_of(" \t\r\n ")).is_empty());
}

#[test]
fn single_operation_definition() {
    let d = parse_definition(
        "+proj=sterea +lat_0=46 +lon_0=25 +k=0.99975 +x_0=500000 +y_0=500000
        +ellps=krass +towgs84=33.4,-146.6,-76.3,-0.359,-0.053,0.844,-0.84 +units=m +no_defs",
    );
    assert_eq!(d.word_count, 10);
    assert!(d.steps.is_empty());
    assert_eq!(text(d.global.method.as_ref().unwrap()), "sterea");
    assert!(!d.global.inverse);
}

#[test]
fn definition_without_plus_signs() {
    let d = parse_definition("proj=longlat datum=WGS84 no_defs ellps=WGS84 towgs84=0,0,0");
    assert_eq!(d.word_count, 5);
    assert_eq!(text(d.global.method.as_ref().unwrap()), "longlat");
}

#[test]
fn pipeline_definition_steps() {
    let d = parse_definition(
        "+proj=pipeline
        +step +inv +proj=lcc +lat_1=33.88333333333333 +units=us-ft
        +step +proj=lcc +lat_1=33.88333333333333 +units=m",
    );
    assert_eq!(text(d.global.method.as_ref().unwrap()), "pipeline");
    assert_eq!(d.steps.len(), 2);
    assert!(d.steps[0].inverse);
    assert!(!d.steps[1].inverse);
    assert_eq!(text(d.steps[0].method.as_ref().unwrap()), "lcc");
    assert_eq!(text(d.steps[1].method.as_ref().unwrap()), "lcc");
}

#[test]
fn key_must_be_followed_by_equals() {
    let d = parse_definition("+projection=tmerc +proj");
    assert!(d.global.method.is_none());
    let d = parse_definition("+proj=");
    assert_eq!(text(d.global.method.as_ref().unwrap()), "");
}
