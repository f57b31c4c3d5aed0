use torat::database::load_database;
use torat::filter::filter_report;
use torat::filter::render_output;
use torat::filter::run_filter;
use torat::filter::LineOutcome;
use torat::filter::process_line;

fn lines(items: &[&str]) -> Vec<String> {
    items.iter().map(|s| s.to_string()).collect()
}

#[test]
fn scenario_one_flagged_one_unknown() {
    let db = load_database(&lines(&["123456789,Acme Bank,1 Main St,Suite 2,90210,CA"])).unwrap();
    let inputs = lines(&["123456789", "999999999"]);
    let report = filter_report(&db, &inputs, "ME");
    assert_eq!(report, "123456789:Acme Bank(CA)\n999999999: unknown (not in database.)\n");
}

#[test]
fn matching_state_is_silent() {
    let db = load_database(&lines(&["111000025,Pine Tree Bank,2 Elm St,Floor 1,04101,ME"])).unwrap();
    let inputs = lines(&["111000025"]);
    let report = filter_report(&db, &inputs, "ME");
    assert_eq!(report, "");
}

#[test]
fn flagged_lines_precede_unknowns_in_input_order() {
    let db = load_database(&lines(&[
        "100000001,First Bank,1 A St,Unit 1,11111,NY",
        "100000002,Second Bank,2 B St,Unit 2,22222,ME",
        "100000003,Third Bank,3 C St,Unit 3,33333,TX",
    ]))
    .unwrap();
    let inputs = lines(&["900000000", "100000003", "100000002", "100000001", "800000000"]);
    let report = filter_report(&db, &inputs, "ME");
    assert_eq!(
        report,
        "100000003:Third Bank(TX)\n100000001:First Bank(NY)\n\
         900000000: unknown (not in database.)\n800000000: unknown (not in database.)\n"
    );
}

#[test]
fn repeated_input_appears_once_per_occurrence() {
    let db = load_database(&lines(&["100000001,First Bank,1 A St,Unit 1,11111,NY"])).unwrap();
    let inputs = lines(&["100000001", "100000001"]);
    let report = filter_report(&db, &inputs, "ME");
    assert_eq!(report, "100000001:First Bank(NY)\n100000001:First Bank(NY)\n");
}

#[test]
fn duplicate_key_uses_last_record() {
    let db = load_database(&lines(&[
        "100000001,Old Name,1 A St,Unit 1,11111,ME",
        "100000001,New Name,9 Z St,Unit 9,99999,VT",
    ]))
    .unwrap();
    let inputs = lines(&["100000001"]);
    let report = filter_report(&db, &inputs, "ME");
    assert_eq!(report, "100000001:New Name(VT)\n");
}

#[test]
fn filter_is_idempotent_on_identical_inputs() {
    let db_lines = lines(&[
        "100000001,First Bank,1 A St,Unit 1,11111,NY",
        "100000002,Second Bank,2 B St,Unit 2,22222,ME",
    ]);
    let inputs = lines(&["100000001", "100000002", "700000000"]);
    let first = filter_report(&load_database(&db_lines).unwrap(), &inputs, "ME");
    let second = filter_report(&load_database(&db_lines).unwrap(), &inputs, "ME");
    assert_eq!(first, second);
}

#[test]
fn empty_input_list_gives_empty_output() {
    let db = load_database(&lines(&["100000001,First Bank,1 A St,Unit 1,11111,NY"])).unwrap();
    let report = filter_report(&db, &lines(&[]), "ME");
    assert_eq!(report, "");
}

#[test]
fn process_line_outcomes() {
    let db = load_database(&lines(&[
        "100000001,First Bank,1 A St,Unit 1,11111,NY",
        "100000002,Second Bank,2 B St,Unit 2,22222,ME",
    ]))
    .unwrap();
    match process_line(&db, "100000001", "ME") {
        LineOutcome::Flagged(l) => assert_eq!(l, "100000001:First Bank(NY)"),
        _ => panic!("expected a flagged line"),
    }
    match process_line(&db, "100000002", "ME") {
        LineOutcome::Clean => {}
        _ => panic!("expected a clean outcome"),
    }
    match process_line(&db, "600000000", "ME") {
        LineOutcome::Unknown(l) => assert_eq!(l, "600000000: unknown (not in database.)"),
        _ => panic!("expected an unknown entry"),
    }
}

#[test]
fn render_joins_sections_with_newlines() {
    let db = load_database(&lines(&["100000001,First Bank,1 A St,Unit 1,11111,NY"])).unwrap();
    let inputs = lines(&["100000001", "500000000"]);
    let out = run_filter(&db, &inputs, "ME");
    assert_eq!(out.flagged, vec!["100000001:First Bank(NY)".to_string()]);
    assert_eq!(out.unknowns, vec!["500000000: unknown (not in database.)".to_string()]);
    let rendered = render_output(&out);
    assert_eq!(rendered, "100000001:First Bank(NY)\n500000000: unknown (not in database.)\n");
}
