use std::cell::RefCell;

use ycsb_core::db::{Db, DbError};
use ycsb_core::utils::Value;
use ycsb_core::workload::{defaults, ConfigError, CoreWorkload, CoreWorkloadConfig, WorkloadError};

/// Backend double that records every call it receives.
struct MockDb {
    log: RefCell<Vec<(String, String)>>,
    fail_inserts: bool,
    fail_reads: bool,
}

impl MockDb {
    fn new() -> MockDb {
        MockDb { log: RefCell::new(Vec::new()), fail_inserts: false, fail_reads: false }
    }

    fn failing() -> MockDb {
        MockDb { log: RefCell::new(Vec::new()), fail_inserts: true, fail_reads: false }
    }

    fn failing_reads() -> MockDb {
        MockDb { log: RefCell::new(Vec::new()), fail_inserts: false, fail_reads: true }
    }

    fn ops(&self) -> Vec<String> {
        self.log.borrow().iter().map(|(op, _)| op.clone()).collect()
    }

    fn keys_of(&self, which: &str) -> Vec<String> {
        self.log
            .borrow()
            .iter()
            .filter(|(op, _)| op == which)
            .map(|(_, k)| k.clone())
            .collect()
    }
}

impl Db for MockDb {
    type Config = ();

    fn init(&self) -> Result<(), DbError> {
        Ok(())
    }

    fn cleanup(&self) -> Result<(), DbError> {
        Ok(())
    }

    fn insert(&self, _table: String, key: String, _values: Vec<(String, Value)>) -> Result<(), DbError> {
        self.log.borrow_mut().push(("insert".to_string(), key));
        if self.fail_inserts {
            Err(DbError { message: "injected insert failure".to_string() })
        } else {
            Ok(())
        }
    }

    fn read(&self, _table: String, key: String, _fields: Vec<String>) -> Result<Vec<(String, Value)>, DbError> {
        self.log.borrow_mut().push(("read".to_string(), key));
        if self.fail_reads {
            Err(DbError { message: "injected read failure".to_string() })
        } else {
            Ok(Vec::new())
        }
    }

    fn update(&self, _table: String, key: String, _values: Vec<(String, Value)>) -> Result<(), DbError> {
        self.log.borrow_mut().push(("update".to_string(), key));
        Ok(())
    }

    fn scan(&self, _table: String, start_key: String, _len: usize, _fields: Vec<String>) -> Result<Vec<(String, Vec<Value>)>, DbError> {
        self.log.borrow_mut().push(("scan".to_string(), start_key));
        Ok(Vec::new())
    }

    fn delete(&self, _table: String, key: String) {
        self.log.borrow_mut().push(("delete".to_string(), key));
    }
}

fn no_sleep(_ms: u64) {}

#[test]
fn default_configuration_builds_a_workload() {
    assert!(CoreWorkload::new(CoreWorkloadConfig::default()).is_ok());
}

#[test]
fn unsupported_field_length_distribution_is_rejected() {
    let mut c = CoreWorkloadConfig::default();
    c.field_length_distribution = "zipfian".to_string();
    assert_eq!(
        CoreWorkload::new(c).unwrap_err(),
        ConfigError::UnsupportedFieldLengthDistribution
    );
}

#[test]
fn unsupported_scan_length_distribution_is_rejected() {
    let mut c = CoreWorkloadConfig::default();
    c.scan_length_distribution = "zipfian".to_string();
    assert_eq!(
        CoreWorkload::new(c).unwrap_err(),
        ConfigError::UnsupportedScanLengthDistribution
    );
}

#[test]
fn unsupported_request_distribution_is_rejected() {
    let mut c = CoreWorkloadConfig::default();
    c.request_distribution = "zipfian".to_string();
    assert_eq!(
        CoreWorkload::new(c).unwrap_err(),
        ConfigError::UnsupportedRequestDistribution
    );
}

#[test]
fn data_integrity_without_constant_length_is_rejected() {
    let mut c = CoreWorkloadConfig::default();
    c.data_integrity = true;
    c.field_length_distribution = "uniform".to_string();
    assert_eq!(
        CoreWorkload::new(c).unwrap_err(),
        ConfigError::DataIntegrityNeedsConstantFieldLength
    );
}

#[test]
fn insert_start_beyond_record_count_is_rejected() {
    let mut c = CoreWorkloadConfig::default();
    c.record_count = 5;
    c.insert_start = 5;
    assert_eq!(CoreWorkload::new(c).unwrap_err(), ConfigError::InvalidKeyRange);
}

#[test]
fn read_only_mix_makes_every_transaction_a_read() {
    let mut c = CoreWorkloadConfig::default();
    c.read_weight = 1000000;
    c.update_weight = 0;
    c.record_count = 100;
    let mut w = CoreWorkload::new(c).unwrap();
    let db = MockDb::new();
    for _ in 0..50 {
        w.transaction(&db).unwrap();
    }
    let ops = db.ops();
    assert_eq!(ops.len(), 50);
    assert!(ops.iter().all(|op| op == "read"));
}

#[test]
fn insert_only_mix_issues_strictly_increasing_keys() {
    let mut c = CoreWorkloadConfig::default();
    c.read_weight = 0;
    c.update_weight = 0;
    c.insert_weight = 1;
    c.record_count = 100;
    c.insert_order = "ordered".to_string();
    c.zero_padding = 10;
    let mut w = CoreWorkload::new(c).unwrap();
    let db = MockDb::new();
    for _ in 0..20 {
        w.transaction(&db).unwrap();
    }
    let keys = db.keys_of("insert");
    assert_eq!(keys.len(), 20);
    let nums: Vec<usize> = keys.iter().map(|k| k.parse().unwrap()).collect();
    assert_eq!(nums[0], 100);
    for pair in nums.windows(2) {
        assert!(pair[0] < pair[1], "insert keys not strictly increasing");
    }
    // In-order acknowledgment moves the watermark by one per insert.
    assert_eq!(w.transaction_insert_key_sequencer.limit, 119);
}

#[test]
fn mixed_transactions_stay_on_configured_operations() {
    let mut c = CoreWorkloadConfig::default();
    c.read_weight = 1;
    c.update_weight = 1;
    c.scan_weight = 1;
    c.read_modify_write_weight = 1;
    c.insert_weight = 0;
    c.record_count = 100;
    let mut w = CoreWorkload::new(c).unwrap();
    let db = MockDb::new();
    for _ in 0..40 {
        w.transaction(&db).unwrap();
    }
    for op in db.ops() {
        assert!(op == "read" || op == "update" || op == "scan");
    }
}

#[test]
fn load_insert_writes_one_record_and_succeeds() {
    let mut c = CoreWorkloadConfig::default();
    c.record_count = 100;
    c.insertion_retry_limit = 1;
    c.insert_order = "ordered".to_string();
    c.zero_padding = 10;
    let mut w = CoreWorkload::new(c).unwrap();
    let db = MockDb::new();
    assert!(w.insert(&db, no_sleep).is_ok());
    assert_eq!(db.keys_of("insert"), vec!["0000000000".to_string()]);
}

#[test]
fn insert_with_zero_retry_budget_still_attempts_once() {
    // The budget counts retries: the initial attempt always runs, so a
    // working backend succeeds even with a zero retry limit.
    let mut c = CoreWorkloadConfig::default();
    c.record_count = 100;
    c.insertion_retry_limit = 0;
    let mut w = CoreWorkload::new(c).unwrap();
    let db = MockDb::new();
    assert!(w.insert(&db, no_sleep).is_ok());
    assert_eq!(db.ops().len(), 1);
}

#[test]
fn insert_with_zero_retry_budget_fails_after_one_attempt() {
    let mut c = CoreWorkloadConfig::default();
    c.record_count = 100;
    c.insertion_retry_limit = 0;
    let mut w = CoreWorkload::new(c).unwrap();
    let db = MockDb::failing();
    let pauses: RefCell<Vec<u64>> = RefCell::new(Vec::new());
    let err = w.insert(&db, |ms| pauses.borrow_mut().push(ms)).unwrap_err();
    assert!(matches!(err, WorkloadError::RetryLimitExceeded));
    assert_eq!(db.ops().len(), 1, "the initial attempt reaches the backend");
    assert!(pauses.into_inner().is_empty(), "no pause after the final failure");
}

#[test]
fn failed_inserts_retry_with_jittered_pause() {
    let mut c = CoreWorkloadConfig::default();
    c.record_count = 100;
    c.insertion_retry_limit = 3;
    c.insertion_retry_interval = 1;
    let mut w = CoreWorkload::new(c).unwrap();
    let db = MockDb::failing();
    let pauses: RefCell<Vec<u64>> = RefCell::new(Vec::new());
    let err = w.insert(&db, |ms| pauses.borrow_mut().push(ms)).unwrap_err();
    assert!(matches!(err, WorkloadError::RetryLimitExceeded));
    assert_eq!(db.ops().len(), 4, "one initial attempt plus three retries");
    let pauses = pauses.into_inner();
    assert_eq!(pauses.len(), 3, "one pause before each retry");
    for ms in pauses {
        // One second jittered by a factor in [0.8, 1.2].
        assert!((800..=1200).contains(&ms), "pause {ms} outside jitter range");
    }
}

#[test]
fn defaults_match_their_documentation() {
    assert_eq!(defaults::table(), "ycsb");
    assert_eq!(defaults::fields(), 10);
    assert_eq!(defaults::field_name_prefix(), "field");
    assert_eq!(defaults::field_length_distribution(), "constant");
    assert_eq!(defaults::min_field_length(), 1);
    assert_eq!(defaults::max_field_length(), 100);
    assert_eq!(defaults::field_length_histogram_file(), "hist.txt");
    assert_eq!(defaults::record_count(), 0);
    assert_eq!(defaults::request_distribution(), "uniform");
    assert_eq!(defaults::min_scan_length(), 1);
    assert_eq!(defaults::max_scan_length(), 1000);
    assert_eq!(defaults::scan_length_distribution(), "uniform");
    assert_eq!(defaults::insert_start(), 0);
    assert_eq!(defaults::zero_padding(), 1);
    assert!(defaults::read_all_fields());
    assert!(!defaults::read_all_fields_by_name());
    assert!(!defaults::write_all_fields());
    assert!(!defaults::data_integrity());
    assert_eq!(defaults::insert_order(), "hashed");
    assert_eq!(defaults::insertion_retry_limit(), 0);
    assert_eq!(defaults::insertion_retry_interval(), 3);
}

#[test]
fn sequential_request_distribution_is_accepted() {
    let mut c = CoreWorkloadConfig::default();
    c.request_distribution = "sequential".to_string();
    c.record_count = 100;
    let mut w = CoreWorkload::new(c).unwrap();
    let db = MockDb::new();
    for _ in 0..10 {
        w.transaction(&db).unwrap();
    }
    assert_eq!(db.ops().len(), 10);
}

#[test]
fn backend_read_failure_propagates_as_db_error() {
    let mut c = CoreWorkloadConfig::default();
    c.read_weight = 1;
    c.update_weight = 0;
    c.record_count = 100;
    let mut w = CoreWorkload::new(c).unwrap();
    let db = MockDb::failing_reads();
    let err = w.transaction(&db).unwrap_err();
    assert!(matches!(err, WorkloadError::Db(_)));
}

#[test]
fn acknowledgment_window_overflow_is_fatal_for_the_worker() {
    let mut c = CoreWorkloadConfig::default();
    c.read_weight = 0;
    c.update_weight = 0;
    c.insert_weight = 1;
    c.record_count = 100;
    let mut w = CoreWorkload::new(c).unwrap();
    // Pre-mark the slot the next transactional insert will use, as a
    // worker that acknowledged out of protocol would have.
    let slot = 100 % ycsb_core::generator::acknowledge::WINDOW_SIZE;
    w.transaction_insert_key_sequencer.windows[slot] = true;
    let db = MockDb::new();
    let err = w.transaction(&db).unwrap_err();
    assert!(matches!(err, WorkloadError::AckWindowExceeded));
}
