use torat::database::load_database;
use torat::database::LoadError;
use torat::record::parse_record;

fn lines(items: &[&str]) -> Vec<String> {
    items.iter().map(|s| s.to_string()).collect()
}

#[test]
fn load_parses_every_column() {
    let db = load_database(&lines(&["123456789,Acme Bank,1 Main St,Suite 2,90210,CA"])).unwrap();
    let rec = db.lookup("123456789").unwrap();
    assert_eq!(rec.routing_number, "123456789");
    assert_eq!(rec.name, "Acme Bank");
    assert_eq!(rec.address, "1 Main St Suite 2 90210 CA");
    assert_eq!(rec.state, "CA");
}

#[test]
fn load_twice_yields_identical_records() {
    let db_lines = lines(&[
        "100000001,First Bank,1 A St,Unit 1,11111,NY",
        "100000002,Second Bank,2 B St,Unit 2,22222,ME",
    ]);
    let db1 = load_database(&db_lines).unwrap();
    let db2 = load_database(&db_lines).unwrap();
    assert_eq!(db1.records.len(), db2.records.len());
    for (r1, r2) in db1.records.iter().zip(db2.records.iter()) {
        assert_eq!(r1.routing_number, r2.routing_number);
        assert_eq!(r1.name, r2.name);
        assert_eq!(r1.address, r2.address);
        assert_eq!(r1.state, r2.state);
    }
}

#[test]
fn short_line_fails_with_its_index() {
    let db_lines = lines(&[
        "100000001,First Bank,1 A St,Unit 1,11111,NY",
        "100000002,Second Bank,2 B St",
        "100000003,Third Bank,3 C St,Unit 3,33333,TX",
    ]);
    let err = load_database(&db_lines).unwrap_err();
    assert_eq!(err, LoadError { line: 1 });
}

#[test]
fn empty_line_is_malformed() {
    let err = load_database(&lines(&[""])).unwrap_err();
    assert_eq!(err, LoadError { line: 0 });
}

#[test]
fn extra_columns_are_ignored() {
    let db = load_database(&lines(&["123456789,Acme Bank,1 Main St,Suite 2,90210,CA,extra,more"]))
        .unwrap();
    let rec = db.lookup("123456789").unwrap();
    assert_eq!(rec.state, "CA");
    assert_eq!(rec.address, "1 Main St Suite 2 90210 CA");
}

#[test]
fn lookup_misses_absent_key() {
    let db = load_database(&lines(&["123456789,Acme Bank,1 Main St,Suite 2,90210,CA"])).unwrap();
    assert!(db.lookup("999999999").is_none());
}

#[test]
fn duplicate_key_takes_last_line() {
    let db = load_database(&lines(&[
        "123456789,Old Name,1 A St,Unit 1,11111,ME",
        "123456789,New Name,9 Z St,Unit 9,99999,VT",
    ]))
    .unwrap();
    let rec = db.lookup("123456789").unwrap();
    assert_eq!(rec.name, "New Name");
    assert_eq!(rec.state, "VT");
}

#[test]
fn parse_record_rejects_short_line() {
    assert!(parse_record("1,2,3,4,5").is_none());
    assert!(parse_record("").is_none());
}

#[test]
fn parse_record_keeps_empty_fields() {
    let rec = parse_record("123456789,,,,,").unwrap();
    assert_eq!(rec.routing_number, "123456789");
    assert_eq!(rec.name, "");
    assert_eq!(rec.address, "   ");
    assert_eq!(rec.state, "");
}
