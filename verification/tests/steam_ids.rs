use logstats::steam::steam3_ids;

#[test]
fn numeric_id_becomes_textual_key() {
    let keys = steam3_ids(&vec![76561197960287930]).unwrap();
    assert_eq!(keys, vec!["[U:1:22202]".to_string()]);
}

#[test]
fn several_ids_convert_in_order() {
    let keys = steam3_ids(&vec![76561197960287930, 76561197960287931]).unwrap();
    assert_eq!(keys, vec!["[U:1:22202]".to_string(), "[U:1:22203]".to_string()]);
}

#[test]
fn invalid_account_type_is_reported() {
    // account-type nibble 11 is not a valid account type
    let bad: u64 = 11u64 << 52;
    let r = steam3_ids(&vec![76561197960287930, bad]);
    assert_eq!(r, Err(bad));
}

#[test]
fn invalid_universe_is_reported() {
    // universe byte 6 is not a valid universe
    let bad: u64 = (6u64 << 56) | (1u64 << 52);
    let r = steam3_ids(&vec![bad]);
    assert_eq!(r, Err(bad));
}
