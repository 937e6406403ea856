use ycsb_core::utils::{fnvhash64, RandomBytes, Value};
use ycsb_core::workload::{CoreWorkload, CoreWorkloadConfig};

fn ordered_config(zero_padding: usize) -> CoreWorkloadConfig {
    let mut c = CoreWorkloadConfig::default();
    c.insert_order = "ordered".to_string();
    c.zero_padding = zero_padding;
    c.record_count = 1000;
    c
}

#[test]
fn fnvhash64_known_values() {
    assert_eq!(fnvhash64(0), 12161962213042174405u64);
    assert_eq!(fnvhash64(1), 16390143479181108970u64);
    assert_eq!(fnvhash64(5), 14856124470027295614u64);
}

#[test]
fn ordered_key_name_decodes_back_to_its_number() {
    let w = CoreWorkload::new(ordered_config(8)).unwrap();
    let key = w.build_key_name(5);
    assert_eq!(key, "00000005");
    assert_eq!(key.parse::<usize>().unwrap(), 5);
}

#[test]
fn ordered_key_names_keep_sort_order() {
    let w = CoreWorkload::new(ordered_config(8)).unwrap();
    let a = w.build_key_name(5);
    let b = w.build_key_name(17);
    assert!(a < b);
}

#[test]
fn hashed_key_name_is_the_fnv_hash_rendered() {
    let mut c = CoreWorkloadConfig::default();
    c.insert_order = "hashed".to_string();
    c.zero_padding = 1;
    c.record_count = 1000;
    let w = CoreWorkload::new(c).unwrap();
    let key = w.build_key_name(5);
    assert_eq!(key, fnvhash64(5).to_string());
}

#[test]
fn hashed_key_names_differ_for_different_numbers() {
    let mut c = CoreWorkloadConfig::default();
    c.zero_padding = 20;
    c.record_count = 1000;
    let w = CoreWorkload::new(c).unwrap();
    assert_ne!(w.build_key_name(5), w.build_key_name(6));
}

#[test]
fn key_name_is_zero_padded_to_width() {
    let w = CoreWorkload::new(ordered_config(12)).unwrap();
    let key = w.build_key_name(99);
    assert_eq!(key.len(), 12);
    assert_eq!(key, "000000000099");
}

fn integrity_config() -> CoreWorkloadConfig {
    let mut c = CoreWorkloadConfig::default();
    c.data_integrity = true;
    c.field_length_distribution = "constant".to_string();
    c.max_field_length = 20;
    c.record_count = 1000;
    c.insert_order = "ordered".to_string();
    c.zero_padding = 4;
    c
}

#[test]
fn deterministic_value_is_reproducible() {
    let w = CoreWorkload::new(integrity_config()).unwrap();
    let a = w.build_deterministic_value(20, "k", "f");
    let b = w.build_deterministic_value(20, "k", "f");
    assert_eq!(a, b);
    assert_eq!(a.len(), 20);
    assert!(a.starts_with("k:f"));
}

#[test]
fn deterministic_value_differs_per_field() {
    let w = CoreWorkload::new(integrity_config()).unwrap();
    let a = w.build_deterministic_value(20, "k", "f0");
    let b = w.build_deterministic_value(20, "k", "f1");
    assert_ne!(a, b);
}

#[test]
fn verify_row_accepts_self_built_record() {
    // The verification path redraws the field length; with the
    // constant length that data integrity demands, the redraw always
    // equals the length used at write time, so a self-built record
    // passes.
    let mut w = CoreWorkload::new(integrity_config()).unwrap();
    let key = w.build_key_name(7);
    let cells = w.build_values(&key);
    let fields: Vec<String> = cells.iter().map(|(n, _)| n.clone()).collect();
    assert!(w.verify_row(&key, &fields, cells).is_ok());
}

#[test]
fn verify_row_detects_flipped_byte() {
    let mut w = CoreWorkload::new(integrity_config()).unwrap();
    let key = w.build_key_name(7);
    let mut cells = w.build_values(&key);
    match &mut cells[0].1 {
        Value::Deterministic { data, .. } => {
            data[3] ^= 0x01;
        }
        Value::Random(_) => panic!("integrity mode must build deterministic values"),
    }
    let fields: Vec<String> = cells.iter().map(|(n, _)| n.clone()).collect();
    let err = w.verify_row(&key, &fields, cells).unwrap_err();
    assert!(matches!(err, ycsb_core::workload::WorkloadError::ValueMismatch(_)));
}

#[test]
fn verify_row_detects_missing_field() {
    let mut w = CoreWorkload::new(integrity_config()).unwrap();
    let key = w.build_key_name(7);
    let mut cells = w.build_values(&key);
    let fields: Vec<String> = cells.iter().map(|(n, _)| n.clone()).collect();
    cells.remove(0);
    let err = w.verify_row(&key, &fields, cells).unwrap_err();
    assert!(matches!(err, ycsb_core::workload::WorkloadError::MissingField(_)));
}

#[test]
fn random_bytes_counts_down_its_budget() {
    let mut r = RandomBytes::new(10);
    let first = r.read(4);
    assert_eq!(first.len(), 4);
    let rest = r.read(100);
    assert_eq!(rest.len(), 6);
    assert_eq!(r.read(100).len(), 0);
}

#[test]
fn random_bytes_are_alphanumeric() {
    let mut r = RandomBytes::new(64);
    for b in r.read(64) {
        assert!(b.is_ascii_alphanumeric(), "byte {b} not alphanumeric");
    }
}

#[test]
fn deterministic_value_reads_back_its_content() {
    let mut v = Value::from_string("abc".to_string());
    assert_eq!(v.read_to_end(), b"abc");
    assert_eq!(v.read_to_end(), b"");
}

#[test]
fn value_partial_read_advances_cursor() {
    let mut v = Value::from_string("hello".to_string());
    assert_eq!(v.read(2), b"he");
    assert_eq!(v.read_to_end(), b"llo");
}

#[test]
fn random_value_reads_requested_length() {
    let mut v = Value::from_random(RandomBytes::new(16));
    assert_eq!(v.read(5).len(), 5);
    assert_eq!(v.read_to_end().len(), 11);
}
