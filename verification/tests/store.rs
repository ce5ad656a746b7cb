use telemetry_link::message::LogMessage;
use telemetry_link::store::load;
use telemetry_link::store::merge;
use telemetry_link::store::StoreRead;

fn batt(v: f32, a: f32) -> LogMessage {
    LogMessage::Batt { v: v.to_bits(), a: a.to_bits() }
}

#[test]
fn a_missing_empty_or_invalid_document_holds_no_records() {
    assert_eq!(load(StoreRead::Missing), vec![]);
    assert_eq!(load(StoreRead::Empty), vec![]);
    assert_eq!(load(StoreRead::Invalid), vec![]);
}

#[test]
fn a_valid_document_holds_its_records_in_order() {
    let records = vec![batt(3.7, 0.5), batt(3.6, 0.4), batt(3.7, 0.5)];
    assert_eq!(load(StoreRead::Records(records.clone())), records);
    assert_eq!(load(StoreRead::Records(vec![])), vec![]);
}

#[test]
fn merge_appends_the_new_records_behind_the_old() {
    let (a, b, c) = (batt(1.0, 2.0), batt(3.0, 4.0), batt(5.0, 6.0));
    assert_eq!(merge(vec![a, b], vec![c]), vec![a, b, c]);
    assert_eq!(merge(vec![], vec![c, a]), vec![c, a]);
    assert_eq!(merge(vec![b], vec![]), vec![b]);
    assert_eq!(merge(vec![], vec![]), vec![]);
}

#[test]
fn merge_does_not_deduplicate() {
    let a = batt(f32::NAN, -0.0);
    assert_eq!(merge(vec![a, a], vec![a]), vec![a, a, a]);
}
