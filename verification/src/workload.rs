//! The workload engine: composes generators into a proportioned
//! operation mix, builds and verifies record payloads, and keeps
//! transactions from addressing keys that are not yet durably inserted.

use vstd::prelude::*;
use vstd::string::StrSliceExecFns;
use vstd::string::StringExecFns;
use vstd::utf8::is_ascii_chars;

use crate::db::{Db, DbError};
use crate::generator::acknowledge::{AcknowledgedUsizeCounter, WINDOW_SIZE};
use crate::generator::constant::ConstantUsizeGenerator;
use crate::generator::counter::UsizeCounter;
use crate::generator::discrete::{lemma_weights_total_push, weights_total, Choice, DiscreteGenerator};
use crate::generator::sequential::SequentialUsizeGenerator;
use crate::generator::uniform::UniformUsizeGenerator;
use crate::generator::{AcknowledgedCounter, Counter, Generator};
use crate::utils::{
    bytes_eq, chain_hash, dec_chars, fnv1_64, fnvhash64, fnvhash64_bytes, format_u64_padded,
    lemma_dec_chars_basic, padded_dec_chars, u64_le_bytes, RandomBytes, Value,
};

/// Default values for configurations.
pub mod defaults;

verus! {

/// Operations available on a database.
#[derive(Debug, Clone, Copy)]
pub enum Operation {
    /// Read operation.
    Read,
    /// Update operation.
    Update,
    /// Insert operation.
    Insert,
    /// Scan operation.
    Scan,
    /// Delete operation.
    Delete,
}

/// Internal operations of a transaction.
#[derive(Debug, Clone, Copy, PartialEq, Eq, Structural)]
pub enum Op {
    /// Read one record.
    Read,
    /// Update one record.
    Update,
    /// Insert a new record.
    Insert,
    /// Scan a range of records.
    Scan,
    /// Read one record, then write it back.
    ReadModifyWrite,
}

/// Reasons a workload construction is rejected; all are fatal before
/// any operation executes.
#[derive(Debug, Clone, Copy, PartialEq, Eq, Structural)]
pub enum ConfigError {
    /// The field length distribution name is not supported.
    UnsupportedFieldLengthDistribution,
    /// The scan length distribution name is not supported.
    UnsupportedScanLengthDistribution,
    /// The request distribution name is not supported.
    UnsupportedRequestDistribution,
    /// Data integrity checking requires a constant field length.
    DataIntegrityNeedsConstantFieldLength,
    /// `insert_start` leaves no keys below the record count.
    InvalidKeyRange,
}

/// Errors surfaced by a single workload operation.
#[derive(Debug, Clone)]
pub enum WorkloadError {
    /// The backend reported a failure.
    Db(DbError),
    /// A verified read was missing a field; carries the field name.
    MissingField(String),
    /// A verified read returned content that differs from the
    /// deterministic expectation; carries the field name.
    ValueMismatch(String),
    /// An insert exhausted its retry budget.
    RetryLimitExceeded,
    /// The acknowledgment window overflowed; fatal for this worker.
    AckWindowExceeded,
}

/// Configuration for the [`CoreWorkload`].
///
/// Operation proportions are integer weights: only their ratios matter,
/// and an operation of weight zero is left out of the mix entirely.
#[derive(Debug, Clone)]
pub struct CoreWorkloadConfig {
    /// The name of the database table to run queries against.
    pub table: String,
    /// The number of fields in a record.
    pub fields: usize,
    /// Field name prefix.
    pub field_name_prefix: String,
    /// Field length distribution: "constant" or "uniform". With
    /// "constant", only `max_field_length` is used.
    pub field_length_distribution: String,
    /// Minimum field length.
    pub min_field_length: usize,
    /// Maximum field length.
    pub max_field_length: usize,
    /// The file naming a field length histogram; kept for
    /// compatibility, never read here.
    pub field_length_histogram_file: String,
    /// The number of records loaded into the database initially; zero
    /// stands for the whole key space.
    pub record_count: usize,
    /// The distribution of requests across the key space: "uniform" or
    /// "sequential".
    pub request_distribution: String,
    /// The scan length distribution: "uniform".
    pub scan_length_distribution: String,
    /// The minimum scan length (number of records).
    pub min_scan_length: usize,
    /// The maximum scan length (number of records).
    pub max_scan_length: usize,
    /// First key number this loader inserts, so parallel loaders can
    /// partition the key space.
    pub insert_start: usize,
    /// How many zeros to left-pad key numbers with, so key strings sort
    /// like their numbers.
    pub zero_padding: usize,
    /// Whether reads fetch all fields (true) or one field (false).
    pub read_all_fields: bool,
    /// When reading all fields, whether to pass every field name to the
    /// backend (true) or ask for the whole record (false).
    pub read_all_fields_by_name: bool,
    /// Whether updates write all fields (true) or one field (false).
    pub write_all_fields: bool,
    /// Whether read results are checked against the deterministic
    /// construction template.
    pub data_integrity: bool,
    /// The order to insert records: "ordered" or "hashed".
    pub insert_order: String,
    /// Weight of read transactions.
    pub read_weight: u64,
    /// Weight of update transactions.
    pub update_weight: u64,
    /// Weight of insert transactions.
    pub insert_weight: u64,
    /// Weight of scan transactions.
    pub scan_weight: u64,
    /// Weight of read-modify-write transactions.
    pub read_modify_write_weight: u64,
    /// How many times to retry when inserting a single record fails.
    pub insertion_retry_limit: usize,
    /// The average pause between insert retries, in seconds.
    pub insertion_retry_interval: usize,
}

impl Default for CoreWorkloadConfig {
    /// The documented defaults: a ten-field hashed-key table "ycsb",
    /// constant field length 100, uniform requests over the whole
    /// record range, and a 95:5 read/update mix.
    fn default() -> (r: CoreWorkloadConfig)
        ensures
            r.table@ == "ycsb"@,
            r.fields == 10,
            r.field_name_prefix@ == "field"@,
            r.field_length_distribution@ == "constant"@,
            r.min_field_length == 1,
            r.max_field_length == 100,
            r.field_length_histogram_file@ == "hist.txt"@,
            r.record_count == 0,
            r.request_distribution@ == "uniform"@,
            r.scan_length_distribution@ == "uniform"@,
            r.min_scan_length == 1,
            r.max_scan_length == 1000,
            r.insert_start == 0,
            r.zero_padding == 1,
            r.read_all_fields == true,
            r.read_all_fields_by_name == false,
            r.write_all_fields == false,
            r.data_integrity == false,
            r.insert_order@ == "hashed"@,
            r.read_weight == 950000,
            r.update_weight == 50000,
            r.insert_weight == 0,
            r.scan_weight == 0,
            r.read_modify_write_weight == 0,
            r.insertion_retry_limit == 0,
            r.insertion_retry_interval == 3,
    {
        CoreWorkloadConfig {
            table: defaults::table(),
            fields: defaults::fields(),
            field_name_prefix: defaults::field_name_prefix(),
            field_length_distribution: defaults::field_length_distribution(),
            min_field_length: defaults::min_field_length(),
            max_field_length: defaults::max_field_length(),
            field_length_histogram_file: defaults::field_length_histogram_file(),
            record_count: defaults::record_count(),
            request_distribution: defaults::request_distribution(),
            scan_length_distribution: defaults::scan_length_distribution(),
            min_scan_length: defaults::min_scan_length(),
            max_scan_length: defaults::max_scan_length(),
            insert_start: defaults::insert_start(),
            zero_padding: defaults::zero_padding(),
            read_all_fields: defaults::read_all_fields(),
            read_all_fields_by_name: defaults::read_all_fields_by_name(),
            write_all_fields: defaults::write_all_fields(),
            data_integrity: defaults::data_integrity(),
            insert_order: defaults::insert_order(),
            read_weight: 950000,
            update_weight: 50000,
            insert_weight: 0,
            scan_weight: 0,
            read_modify_write_weight: 0,
            insertion_retry_limit: defaults::insertion_retry_limit(),
            insertion_retry_interval: defaults::insertion_retry_interval(),
        }
    }
}

/// A number generator selected by configuration and owned by the
/// workload: the closed set of distributions the engine supports.
#[derive(Debug, Clone, Copy, PartialEq, Eq, Structural)]
pub enum UsizeNumberGenerator {
    /// Always the same value.
    Constant(ConstantUsizeGenerator),
    /// Uniform over an inclusive range.
    Uniform(UniformUsizeGenerator),
    /// Cycling sequentially over an inclusive range.
    Sequential(SequentialUsizeGenerator),
}

impl UsizeNumberGenerator {
    /// The selected generator's own well-formedness.
    pub open spec fn wf(&self) -> bool {
        match self {
            UsizeNumberGenerator::Constant(_) => true,
            UsizeNumberGenerator::Uniform(g) => g.wf(),
            UsizeNumberGenerator::Sequential(g) => g.wf(),
        }
    }

    /// Smallest value the generator can produce.
    pub open spec fn lo(&self) -> int {
        match self {
            UsizeNumberGenerator::Constant(g) => g.val as int,
            UsizeNumberGenerator::Uniform(g) => g.lower_bound as int,
            UsizeNumberGenerator::Sequential(g) => g.start as int,
        }
    }

    /// Largest value the generator can produce.
    pub open spec fn hi(&self) -> int {
        match self {
            UsizeNumberGenerator::Constant(g) => g.val as int,
            UsizeNumberGenerator::Uniform(g) => g.upper_bound as int,
            UsizeNumberGenerator::Sequential(g) => g.end as int,
        }
    }

    /// Draw the next value from whichever generator is selected.
    pub fn next(&mut self) -> (r: usize)
        requires
            old(self).wf(),
        ensures
            final(self).wf(),
            old(self).lo() <= r <= old(self).hi(),
            final(self).lo() == old(self).lo(),
            final(self).hi() == old(self).hi(),
            *old(self) matches UsizeNumberGenerator::Constant(g) ==> r == g.val && *final(self)
                == *old(self),
            *old(self) matches UsizeNumberGenerator::Uniform(_) ==> *final(self) == *old(self),
            *old(self) matches UsizeNumberGenerator::Sequential(g) ==> r == g.start + (
            g.val as int % (g.end - g.start + 1)) && *final(self)
                == UsizeNumberGenerator::Sequential(
                SequentialUsizeGenerator {
                    start: g.start,
                    end: g.end,
                    val: vstd::wrapping::usize_specs::wrapping_add(g.val, 1),
                },
            ),
    {
        match self {
            UsizeNumberGenerator::Constant(g) => g.next(),
            UsizeNumberGenerator::Uniform(g) => g.next(),
            UsizeNumberGenerator::Sequential(g) => g.next(),
        }
    }
}

/// One step of the hash-chain extension: append a separator, then the
/// decimal rendering of the chain hash of everything so far.
pub open spec fn det_step(s: Seq<char>) -> Seq<char> {
    s.push(':') + dec_chars(chain_hash(s.push(':')) as nat)
}

/// Extend a string with hash-chain steps until it reaches `size`
/// characters.
pub open spec fn det_extend(s: Seq<char>, size: nat) -> Seq<char>
    decreases vstd::math::max(0, size - s.len())
        via det_extend_decreases
{
    if s.len() >= size {
        s
    } else {
        det_extend(det_step(s), size)
    }
}

#[via_fn]
proof fn det_extend_decreases(s: Seq<char>, size: nat) {
    if s.len() < size {
        lemma_dec_chars_basic(chain_hash(s.push(':')) as nat);
    }
}

/// The deterministic value of `size` characters derived from a key and
/// a field name alone: key, separator, field name, then a hash-chain
/// suffix, truncated to exactly `size` characters.
pub open spec fn det_value(size: nat, key: Seq<char>, field: Seq<char>) -> Seq<char> {
    det_extend(key.push(':') + field, size).take(size as int)
}

/// The hash-chain extension always reaches the requested size.
pub proof fn lemma_det_extend_basic(s: Seq<char>, size: nat)
    ensures
        det_extend(s, size).len() >= size,
    decreases vstd::math::max(0, size - s.len()),
{
    if s.len() < size {
        lemma_dec_chars_basic(chain_hash(s.push(':')) as nat);
        lemma_det_extend_basic(det_step(s), size);
    }
}

/// The deterministic value is exactly `size` characters, whatever the
/// key and field name.
pub proof fn lemma_det_value_basic(size: nat, key: Seq<char>, field: Seq<char>)
    ensures
        det_value(size, key, field).len() == size,
{
    lemma_det_extend_basic(key.push(':') + field, size);
}

/// The record count that a configured count of zero stands for: the
/// whole key space.
pub open spec fn effective_record_count(c: usize) -> int {
    if c == 0 {
        usize::MAX as int
    } else {
        c as int
    }
}

/// The operation mix a configuration asks for: one weighted choice per
/// operation kind with positive weight, in a fixed order.
pub open spec fn config_ops(c: &CoreWorkloadConfig) -> Seq<Choice<Op>> {
    let s0 = Seq::<Choice<Op>>::empty();
    let s1 = if c.read_weight > 0 {
        s0.push(Choice { val: Op::Read, weight: c.read_weight })
    } else {
        s0
    };
    let s2 = if c.update_weight > 0 {
        s1.push(Choice { val: Op::Update, weight: c.update_weight })
    } else {
        s1
    };
    let s3 = if c.insert_weight > 0 {
        s2.push(Choice { val: Op::Insert, weight: c.insert_weight })
    } else {
        s2
    };
    let s4 = if c.scan_weight > 0 {
        s3.push(Choice { val: Op::Scan, weight: c.scan_weight })
    } else {
        s3
    };
    if c.read_modify_write_weight > 0 {
        s4.push(Choice { val: Op::ReadModifyWrite, weight: c.read_modify_write_weight })
    } else {
        s4
    }
}

/// The conditions under which a configuration is accepted.
pub open spec fn config_ok(c: &CoreWorkloadConfig) -> bool {
    &&& (c.field_length_distribution@ == "constant"@ || c.field_length_distribution@
        == "uniform"@)
    &&& c.scan_length_distribution@ == "uniform"@
    &&& c.insert_start < effective_record_count(c.record_count)
    &&& (c.data_integrity ==> c.field_length_distribution@ == "constant"@)
    &&& (c.request_distribution@ == "uniform"@ || c.request_distribution@ == "sequential"@)
}

/// The core benchmark scenario: a set of clients doing CRUD operations
/// whose relative proportions and record shapes are set by
/// [`CoreWorkloadConfig`].
#[derive(Debug)]
pub struct CoreWorkload {
    /// Table every operation addresses.
    pub table: String,
    /// The record's field names, in order.
    pub field_names: Vec<String>,
    /// Draws the length of each generated field value.
    pub field_length_generator: UsizeNumberGenerator,
    /// Draws which operation a transaction performs.
    pub operation_chooser: DiscreteGenerator<Op>,
    /// Issues key numbers for the initial load.
    pub key_sequencer: UsizeCounter,
    /// Whether key strings keep the numeric order of key numbers.
    pub ordered_inserts: bool,
    /// Zero padding width of key strings.
    pub zero_padding: usize,
    /// Whether read results are verified against the deterministic
    /// template.
    pub data_integrity: bool,
    /// How many times a failed insert is retried.
    pub insertion_retry_limit: usize,
    /// Average pause between insert retries, in seconds.
    pub insertion_retry_interval: usize,
    /// Whether reads fetch all fields.
    pub read_all_fields: bool,
    /// Whether reads of all fields name each field.
    pub read_all_fields_by_name: bool,
    /// Whether updates write all fields.
    pub write_all_fields: bool,
    /// Draws which single field an operation touches.
    pub field_chooser: UniformUsizeGenerator,
    /// Issues and acknowledges key numbers for transactional inserts;
    /// its watermark bounds what transactions may read.
    pub transaction_insert_key_sequencer: AcknowledgedUsizeCounter,
    /// Draws the key number a read, update or read-modify-write
    /// addresses.
    pub key_chooser: UsizeNumberGenerator,
    /// Draws how many records a scan covers.
    pub scan_length_generator: UsizeNumberGenerator,
}

impl CoreWorkload {
    /// Everything the engine's operations rely on: generators are well
    /// formed, the field chooser covers exactly the field names, the
    /// key chooser never reaches past the insert watermark, and under
    /// data integrity the field length is constant and field names are
    /// ASCII.
    pub open spec fn wf(&self) -> bool {
        &&& self.field_names@.len() >= 1
        &&& self.field_chooser.wf()
        &&& self.field_chooser.lower_bound == 0
        &&& self.field_chooser.upper_bound == self.field_names@.len() - 1
        &&& self.field_length_generator.wf()
        &&& self.scan_length_generator.wf()
        &&& self.key_chooser.wf()
        &&& self.operation_chooser.wf()
        &&& self.transaction_insert_key_sequencer.wf()
        &&& self.key_chooser.hi() <= self.transaction_insert_key_sequencer.limit
        &&& (self.field_length_generator is Constant || self.field_length_generator is Uniform)
        &&& self.scan_length_generator is Uniform
        &&& (self.data_integrity ==> self.field_length_generator is Constant)
    }

    /// The key number a key string is built from: the number itself
    /// under ordered inserts, its FNV-1 hash (brought back to the
    /// machine word) under hashed inserts.
    pub open spec fn spec_key_value(&self, key_num: usize) -> nat {
        if self.ordered_inserts {
            key_num as nat
        } else {
            (fnv1_64(u64_le_bytes(key_num as u64)) as usize) as nat
        }
    }

    /// The key string for `key_num`: the effective key value rendered
    /// in decimal, zero-padded to the configured width.
    pub open spec fn spec_key_name(&self, key_num: usize) -> Seq<char> {
        padded_dec_chars(self.spec_key_value(key_num), self.zero_padding as nat)
    }

    /// Convert a key number to a key string, optionally decorrelating
    /// string from number by hashing first.
    pub fn build_key_name(&self, key_num: usize) -> (r: String)
        ensures
            r@ == self.spec_key_name(key_num),
            is_ascii_chars(r@),
            r@.len() >= self.zero_padding,
    {
        let k: u64 = if !self.ordered_inserts {
            (fnvhash64(key_num as u64) as usize) as u64
        } else {
            key_num as u64
        };
        proof {
            crate::utils::lemma_padded_dec_basic(k as nat, self.zero_padding as nat);
        }
        format_u64_padded(k, self.zero_padding)
    }

    /// Build the deterministic value of exactly `size` characters for
    /// `key` and `field_key`: every byte is reproducible from the key,
    /// the field name and the size alone.
    #[verifier::rlimit(60)]
    pub fn build_deterministic_value(&self, size: usize, key: &str, field_key: &str) -> (r: String)
        ensures
            r@ == det_value(size as nat, key@, field_key@),
            r@.len() == size,
    {
        let ghost base = key@.push(':') + field_key@;
        let mut ret = key.to_owned();
        ret.append(":");
        ret.append(field_key);
        proof {
            reveal_strlit(":");
            assert(":"@ =~= seq![':']);
            assert(ret@ =~= base);
        }
        loop
            invariant
                det_extend(ret@, size as nat) == det_extend(base, size as nat),
            ensures
                ret@.len() >= size,
                det_extend(ret@, size as nat) == det_extend(base, size as nat),
            decreases vstd::math::max(0, size - ret@.len()),
        {
            let sl = ret.as_str();
            if sl.unicode_len() >= size {
                break;
            }
            let ghost before = ret@;
            ret.append(":");
            proof {
                reveal_strlit(":");
                assert(":"@ =~= seq![':']);
                assert(ret@ =~= before.push(':'));
            }
            let bytes = ret.as_str().as_bytes_vec();
            let h = fnvhash64_bytes(&bytes);
            let hs = format_u64_padded(h, 0);
            ret.append(hs.as_str());
            proof {
                assert(bytes@ == vstd::utf8::encode_utf8(before.push(':')));
                assert(ret@ =~= det_step(before));
                lemma_dec_chars_basic(chain_hash(before.push(':')) as nat);
                assert(before.len() < size);
                assert(det_extend(before, size as nat) == det_extend(det_step(before), size as nat));
            }
        }
        proof {
            assert(det_extend(ret@, size as nat) == ret@);
        }
        let out = ret.as_str().substring_char(0, size);
        proof {
            assert(out@ =~= det_value(size as nat, key@, field_key@));
        }
        out.to_owned()
    }
}

/// The operation mix never weighs more than the five configured weights
/// together, and never less than nothing.
pub proof fn lemma_config_ops_total(c: &CoreWorkloadConfig)
    ensures
        0 <= weights_total(config_ops(c)),
        weights_total(config_ops(c)) <= c.read_weight + c.update_weight + c.insert_weight
            + c.scan_weight + c.read_modify_write_weight,
{
    let s0 = Seq::<Choice<Op>>::empty();
    let s1 = if c.read_weight > 0 {
        s0.push(Choice { val: Op::Read, weight: c.read_weight })
    } else {
        s0
    };
    let s2 = if c.update_weight > 0 {
        s1.push(Choice { val: Op::Update, weight: c.update_weight })
    } else {
        s1
    };
    let s3 = if c.insert_weight > 0 {
        s2.push(Choice { val: Op::Insert, weight: c.insert_weight })
    } else {
        s2
    };
    let s4 = if c.scan_weight > 0 {
        s3.push(Choice { val: Op::Scan, weight: c.scan_weight })
    } else {
        s3
    };
    if c.read_weight > 0 {
        lemma_weights_total_push(s0, Choice { val: Op::Read, weight: c.read_weight });
    }
    if c.update_weight > 0 {
        lemma_weights_total_push(s1, Choice { val: Op::Update, weight: c.update_weight });
    }
    if c.insert_weight > 0 {
        lemma_weights_total_push(s2, Choice { val: Op::Insert, weight: c.insert_weight });
    }
    if c.scan_weight > 0 {
        lemma_weights_total_push(s3, Choice { val: Op::Scan, weight: c.scan_weight });
    }
    if c.read_modify_write_weight > 0 {
        lemma_weights_total_push(
            s4,
            Choice { val: Op::ReadModifyWrite, weight: c.read_modify_write_weight },
        );
    }
}

impl CoreWorkload {
    /// Turn a configuration into a workload engine. Unsupported
    /// distribution names, a key range that leaves nothing to insert,
    /// and data integrity without a constant field length are all
    /// rejected here, before any operation can execute.
    #[verifier::rlimit(60)]
    pub fn new(config: CoreWorkloadConfig) -> (r: Result<CoreWorkload, ConfigError>)
        requires
            config.fields >= 1,
            config.read_weight + config.update_weight + config.insert_weight + config.scan_weight
                + config.read_modify_write_weight <= u64::MAX,
            config.field_length_distribution@ == "uniform"@ ==> config.min_field_length
                <= config.max_field_length,
            config.scan_length_distribution@ == "uniform"@ ==> config.min_scan_length
                <= config.max_scan_length,
        ensures
            (r matches Ok(_)) == config_ok(&config),
            (r == Result::<CoreWorkload, ConfigError>::Err(
                ConfigError::UnsupportedFieldLengthDistribution,
            )) == !(config.field_length_distribution@ == "constant"@
                || config.field_length_distribution@ == "uniform"@),
            (r == Result::<CoreWorkload, ConfigError>::Err(
                ConfigError::UnsupportedScanLengthDistribution,
            )) == ((config.field_length_distribution@ == "constant"@
                || config.field_length_distribution@ == "uniform"@)
                && config.scan_length_distribution@ != "uniform"@),
            (r == Result::<CoreWorkload, ConfigError>::Err(ConfigError::InvalidKeyRange)) == ((
            config.field_length_distribution@ == "constant"@ || config.field_length_distribution@
                == "uniform"@) && config.scan_length_distribution@ == "uniform"@
                && config.insert_start >= effective_record_count(config.record_count)),
            (r == Result::<CoreWorkload, ConfigError>::Err(
                ConfigError::DataIntegrityNeedsConstantFieldLength,
            )) == ((config.field_length_distribution@ == "constant"@
                || config.field_length_distribution@ == "uniform"@)
                && config.scan_length_distribution@ == "uniform"@ && config.insert_start
                < effective_record_count(config.record_count) && config.data_integrity
                && config.field_length_distribution@ != "constant"@),
            (r == Result::<CoreWorkload, ConfigError>::Err(
                ConfigError::UnsupportedRequestDistribution,
            )) == ((config.field_length_distribution@ == "constant"@
                || config.field_length_distribution@ == "uniform"@)
                && config.scan_length_distribution@ == "uniform"@ && config.insert_start
                < effective_record_count(config.record_count) && (config.data_integrity
                ==> config.field_length_distribution@ == "constant"@) && !(
            config.request_distribution@ == "uniform"@ || config.request_distribution@
                == "sequential"@)),
            r matches Ok(w) ==> {
                &&& w.wf()
                &&& w.table == config.table
                &&& w.field_names@.len() == config.fields
                &&& (forall|i: int|
                    0 <= i < config.fields ==> #[trigger] w.field_names@[i]@
                        == config.field_name_prefix@ + dec_chars(i as nat))
                &&& w.operation_chooser.choices@ == config_ops(&config)
                &&& w.operation_chooser.sum == weights_total(config_ops(&config))
                &&& w.key_sequencer.counter == config.insert_start
                &&& w.ordered_inserts == (config.insert_order@ != "hashed"@)
                &&& w.zero_padding == config.zero_padding
                &&& w.data_integrity == config.data_integrity
                &&& w.insertion_retry_limit == config.insertion_retry_limit
                &&& w.insertion_retry_interval == config.insertion_retry_interval
                &&& w.read_all_fields == config.read_all_fields
                &&& w.read_all_fields_by_name == config.read_all_fields_by_name
                &&& w.write_all_fields == config.write_all_fields
                &&& w.field_chooser.lower_bound == 0
                &&& w.field_chooser.upper_bound == config.fields - 1
                &&& w.transaction_insert_key_sequencer.counter == effective_record_count(
                    config.record_count,
                )
                &&& w.transaction_insert_key_sequencer.limit == effective_record_count(
                    config.record_count,
                ) - 1
                &&& (forall|u: int|
                    w.transaction_insert_key_sequencer.is_acked(u) <==> u
                        <= effective_record_count(config.record_count) - 1)
                &&& (config.field_length_distribution@ == "constant"@
                    ==> w.field_length_generator == UsizeNumberGenerator::Constant(
                    ConstantUsizeGenerator { val: config.max_field_length },
                ))
                &&& (config.field_length_distribution@ == "uniform"@
                    ==> w.field_length_generator == UsizeNumberGenerator::Uniform(
                    UniformUsizeGenerator {
                        lower_bound: config.min_field_length,
                        upper_bound: config.max_field_length,
                    },
                ))
                &&& w.scan_length_generator == UsizeNumberGenerator::Uniform(
                    UniformUsizeGenerator {
                        lower_bound: config.min_scan_length,
                        upper_bound: config.max_scan_length,
                    },
                )
                &&& (config.request_distribution@ == "uniform"@ ==> w.key_chooser
                    == UsizeNumberGenerator::Uniform(
                    UniformUsizeGenerator {
                        lower_bound: config.insert_start,
                        upper_bound: (effective_record_count(config.record_count) - 1) as usize,
                    },
                ))
                &&& (config.request_distribution@ == "sequential"@ ==> w.key_chooser
                    == UsizeNumberGenerator::Sequential(
                    SequentialUsizeGenerator {
                        start: config.insert_start,
                        end: (effective_record_count(config.record_count) - 1) as usize,
                        val: config.insert_start,
                    },
                ))
            },
    {
        proof {
            reveal_strlit("constant");
            reveal_strlit("uniform");
            reveal_strlit("sequential");
            assert("constant"@.len() != "uniform"@.len());
            assert("uniform"@.len() != "sequential"@.len());
        }
        let constant_name = "constant".to_owned();
        let uniform_name = "uniform".to_owned();

        let is_constant_length = config.field_length_distribution == constant_name;
        let field_length_generator: UsizeNumberGenerator = if is_constant_length {
            UsizeNumberGenerator::Constant(ConstantUsizeGenerator::new(config.max_field_length))
        } else if config.field_length_distribution == uniform_name {
            UsizeNumberGenerator::Uniform(
                UniformUsizeGenerator::new(config.min_field_length, config.max_field_length),
            )
        } else {
            return Err(ConfigError::UnsupportedFieldLengthDistribution);
        };

        let scan_length_generator: UsizeNumberGenerator = if config.scan_length_distribution
            == uniform_name {
            UsizeNumberGenerator::Uniform(
                UniformUsizeGenerator::new(config.min_scan_length, config.max_scan_length),
            )
        } else {
            return Err(ConfigError::UnsupportedScanLengthDistribution);
        };

        let record_count = if config.record_count == 0 {
            usize::MAX
        } else {
            config.record_count
        };
        if config.insert_start >= record_count {
            return Err(ConfigError::InvalidKeyRange);
        }

        let key_sequencer = UsizeCounter::new(config.insert_start);

        if config.data_integrity && !is_constant_length {
            return Err(ConfigError::DataIntegrityNeedsConstantFieldLength);
        }

        let mut choices: Vec<Choice<Op>> = Vec::new();
        if config.read_weight > 0 {
            choices.push(Choice { val: Op::Read, weight: config.read_weight });
        }
        if config.update_weight > 0 {
            choices.push(Choice { val: Op::Update, weight: config.update_weight });
        }
        if config.insert_weight > 0 {
            choices.push(Choice { val: Op::Insert, weight: config.insert_weight });
        }
        if config.scan_weight > 0 {
            choices.push(Choice { val: Op::Scan, weight: config.scan_weight });
        }
        if config.read_modify_write_weight > 0 {
            choices.push(
                Choice { val: Op::ReadModifyWrite, weight: config.read_modify_write_weight },
            );
        }
        proof {
            assert(choices@ =~= config_ops(&config));
            lemma_config_ops_total(&config);
        }
        let operation_chooser = DiscreteGenerator::new(choices);

        let ordered_inserts = !(config.insert_order == "hashed".to_owned());

        let mut field_names: Vec<String> = Vec::new();
        let mut i: usize = 0;
        while i < config.fields
            invariant
                0 <= i <= config.fields,
                field_names@.len() == i,
                forall|j: int|
                    0 <= j < i ==> #[trigger] field_names@[j]@ == config.field_name_prefix@
                        + dec_chars(j as nat),
            decreases config.fields - i,
        {
            let mut name = config.field_name_prefix.clone();
            let num = format_u64_padded(i as u64, 0);
            name.append(num.as_str());
            proof {
                lemma_dec_chars_basic(i as nat);
                assert(num@ == dec_chars(i as nat));
                assert(name@ == config.field_name_prefix@ + dec_chars(i as nat));
            }
            field_names.push(name);
            i = i + 1;
        }

        let field_chooser = UniformUsizeGenerator::new(0, field_names.len() - 1);

        let transaction_insert_key_sequencer = AcknowledgedUsizeCounter::new(record_count);

        let key_chooser: UsizeNumberGenerator = if config.request_distribution
            == uniform_name {
            UsizeNumberGenerator::Uniform(
                UniformUsizeGenerator::new(config.insert_start, record_count - 1),
            )
        } else if config.request_distribution == "sequential".to_owned() {
            UsizeNumberGenerator::Sequential(
                SequentialUsizeGenerator::new(config.insert_start, record_count - 1),
            )
        } else {
            return Err(ConfigError::UnsupportedRequestDistribution);
        };

        let w = CoreWorkload {
            table: config.table,
            field_names,
            field_length_generator,
            operation_chooser,
            key_sequencer,
            ordered_inserts,
            zero_padding: config.zero_padding,
            data_integrity: config.data_integrity,
            insertion_retry_limit: config.insertion_retry_limit,
            insertion_retry_interval: config.insertion_retry_interval,
            read_all_fields: config.read_all_fields,
            read_all_fields_by_name: config.read_all_fields_by_name,
            write_all_fields: config.write_all_fields,
            field_chooser,
            transaction_insert_key_sequencer,
            key_chooser,
            scan_length_generator,
        };
        proof {
            assert(w.wf());
        }
        Ok(w)
    }
}

/// The value stored under the first cell named `name`, if any.
pub open spec fn cell_value(cells: Seq<(String, Value)>, name: Seq<char>) -> Option<Value>
    decreases cells.len(),
{
    if cells.len() == 0 {
        Option::None
    } else if cells[0].0@ == name {
        Option::Some(cells[0].1)
    } else {
        cell_value(cells.subrange(1, cells.len() as int), name)
    }
}

/// The bytes a read to the end of a deterministic value yields: its
/// unread tail.
pub open spec fn det_bytes(v: Value) -> Seq<u8> {
    match v {
        Value::Deterministic { data, pos } => if pos <= data@.len() {
            data@.skip(pos as int)
        } else {
            Seq::empty()
        },
        Value::Random(_) => Seq::empty(),
    }
}

/// A lookup may skip any prefix with no matching name.
proof fn lemma_cell_value_skip(cells: Seq<(String, Value)>, name: Seq<char>, j: int)
    requires
        0 <= j <= cells.len(),
        forall|k: int| 0 <= k < j ==> #[trigger] cells[k].0@ != name,
    ensures
        cell_value(cells, name) == cell_value(cells.subrange(j, cells.len() as int), name),
    decreases j,
{
    if j == 0 {
        assert(cells.subrange(0, cells.len() as int) =~= cells);
    } else {
        let tail = cells.subrange(1, cells.len() as int);
        assert forall|k: int| 0 <= k < j - 1 implies #[trigger] tail[k].0@ != name by {
            assert(tail[k] == cells[k + 1]);
        }
        assert(cells[0].0@ != name);
        assert(cell_value(cells, name) == cell_value(tail, name));
        lemma_cell_value_skip(tail, name, j - 1);
        assert(tail.subrange(j - 1, tail.len() as int) =~= cells.subrange(
            j,
            cells.len() as int,
        ));
    }
}

/// Index of the first cell named `name`, if any; relates the scan to
/// [`cell_value`].
fn find_cell_index(cells: &Vec<(String, Value)>, name: &String) -> (r: Option<usize>)
    ensures
        match r {
            Option::Some(j) => j < cells@.len() && cells@[j as int].0@ == name@ && cell_value(
                cells@,
                name@,
            ) == Option::Some(cells@[j as int].1),
            Option::None => cell_value(cells@, name@) is None,
        },
{
    let n = cells.len();
    let mut j: usize = 0;
    while j < n
        invariant
            n == cells@.len(),
            0 <= j <= n,
            forall|k: int| 0 <= k < j ==> #[trigger] cells@[k].0@ != name@,
        decreases n - j,
    {
        if cells[j].0 == *name {
            proof {
                lemma_cell_value_skip(cells@, name@, j as int);
                let tail = cells@.subrange(j as int, n as int);
                assert(tail[0] == cells@[j as int]);
            }
            return Some(j);
        }
        j = j + 1;
    }
    proof {
        lemma_cell_value_skip(cells@, name@, n as int);
        assert(cells@.subrange(n as int, n as int) =~= Seq::<(String, Value)>::empty());
    }
    None
}

impl CoreWorkload {
    /// The length of every deterministic field value: the constant
    /// field length configured with data integrity.
    pub open spec fn integrity_len(&self) -> nat {
        self.field_length_generator.lo() as nat
    }

    /// The deterministic content expected under `name` for a record
    /// keyed `key`, as UTF-8 bytes.
    pub open spec fn expected_bytes(&self, key: Seq<char>, name: Seq<char>) -> Seq<u8> {
        vstd::utf8::encode_utf8(det_value(self.integrity_len(), key, name))
    }

    /// The first cell named `name` exists and holds exactly the
    /// deterministic content expected for it.
    pub open spec fn cell_matches(&self, cells: Seq<(String, Value)>, key: Seq<char>, name: Seq<char>) -> bool {
        match cell_value(cells, name) {
            Option::Some(v) => det_bytes(v) == self.expected_bytes(key, name),
            Option::None => false,
        }
    }

    /// Build one freshly generated value for every field of a record:
    /// deterministic content when data integrity is on, lazily drawn
    /// random bytes otherwise, each of a length drawn from the field
    /// length generator.
    pub fn build_values(&mut self, key: &str) -> (r: Vec<(String, Value)>)
        requires
            old(self).wf(),
        ensures
            *final(self) == *old(self),
            r@.len() == old(self).field_names@.len(),
            forall|i: int| 0 <= i < r@.len() ==> #[trigger] r@[i].0 == old(self).field_names@[i],
            forall|i: int| 0 <= i < r@.len() ==> (#[trigger] r@[i].1).wf(),
            old(self).data_integrity ==> forall|i: int|
                0 <= i < r@.len() ==> (#[trigger] r@[i].1 matches Value::Deterministic {
                    data,
                    pos,
                } && pos == 0 && data@ == old(self).expected_bytes(
                    key@,
                    old(self).field_names@[i]@,
                )),
            !old(self).data_integrity ==> forall|i: int|
                0 <= i < r@.len() ==> (#[trigger] r@[i].1 matches Value::Random(rb) && old(
                    self,
                ).field_length_generator.lo() <= rb.remaining <= old(
                    self,
                ).field_length_generator.hi()),
    {
        let n = self.field_names.len();
        let mut ret: Vec<(String, Value)> = Vec::new();
        let mut i: usize = 0;
        while i < n
            invariant
                *self == *old(self),
                old(self).wf(),
                n == self.field_names@.len(),
                0 <= i <= n,
                ret@.len() == i,
                forall|k: int| 0 <= k < i ==> #[trigger] ret@[k].0 == self.field_names@[k],
                forall|k: int| 0 <= k < i ==> (#[trigger] ret@[k].1).wf(),
                self.data_integrity ==> forall|k: int|
                    0 <= k < i ==> (#[trigger] ret@[k].1 matches Value::Deterministic {
                        data,
                        pos,
                    } && pos == 0 && data@ == self.expected_bytes(key@, self.field_names@[k]@)),
                !self.data_integrity ==> forall|k: int|
                    0 <= k < i ==> (#[trigger] ret@[k].1 matches Value::Random(rb)
                        && self.field_length_generator.lo() <= rb.remaining
                        <= self.field_length_generator.hi()),
            decreases n - i,
        {
            let field_key = self.field_names[i].clone();
            let size = self.field_length_generator.next();
            let value = if self.data_integrity {
                let s = self.build_deterministic_value(size, key, field_key.as_str());
                Value::from_string(s)
            } else {
                Value::from_random(RandomBytes::new(size))
            };
            ret.push((field_key, value));
            i = i + 1;
        }
        ret
    }

    /// Build a freshly generated value for one randomly chosen field.
    pub fn build_single_value(&mut self, key: &str) -> (r: Vec<(String, Value)>)
        requires
            old(self).wf(),
        ensures
            *final(self) == *old(self),
            r@.len() == 1,
            r@[0].1.wf(),
            exists|i: int|
                {
                    &&& 0 <= i < old(self).field_names@.len()
                    &&& r@[0].0 == old(self).field_names@[i]
                    &&& (old(self).data_integrity ==> (r@[0].1 matches Value::Deterministic {
                        data,
                        pos,
                    } && pos == 0 && data@ == old(self).expected_bytes(
                        key@,
                        #[trigger] old(self).field_names@[i]@,
                    )))
                    &&& (!old(self).data_integrity ==> (r@[0].1 matches Value::Random(rb) && old(
                        self,
                    ).field_length_generator.lo() <= rb.remaining <= old(
                        self,
                    ).field_length_generator.hi()))
                },
    {
        let idx = self.field_chooser.next();
        let field_key = self.field_names[idx].clone();
        let size = self.field_length_generator.next();
        let value = if self.data_integrity {
            let s = self.build_deterministic_value(size, key, field_key.as_str());
            Value::from_string(s)
        } else {
            Value::from_random(RandomBytes::new(size))
        };
        let mut ret: Vec<(String, Value)> = Vec::new();
        ret.push((field_key, value));
        proof {
            let w = idx as int;
            assert(old(self).field_names@[w]@ == old(self).field_names@[w]@);
            assert(0 <= w < old(self).field_names@.len());
            assert(ret@[0].0 == old(self).field_names@[w]);
            if old(self).data_integrity {
                assert(ret@[0].1 matches Value::Deterministic { data, pos } && pos == 0 && data@
                    == old(self).expected_bytes(key@, old(self).field_names@[w]@));
            } else {
                assert(ret@[0].1 matches Value::Random(rb) && old(
                    self,
                ).field_length_generator.lo() <= rb.remaining <= old(
                    self,
                ).field_length_generator.hi());
            }
        }
        ret
    }

    /// Check each requested field of a read-back record against the
    /// deterministic construction template: a missing field or any
    /// content difference is a verification failure. The expected
    /// length is drawn afresh from the field length generator, which
    /// data integrity pins to a constant, so the redraw always equals
    /// the length used at write time.
    pub fn verify_row(&mut self, key: &str, fields: &Vec<String>, cells: Vec<(String, Value)>) -> (r:
        Result<(), WorkloadError>)
        requires
            old(self).wf(),
            old(self).data_integrity,
        ensures
            *final(self) == *old(self),
            (forall|i: int| 0 <= i < cells@.len() ==> #[trigger] cells@[i].1 is Deterministic)
                ==> ((r matches Ok(_)) <==> (forall|i: int|
                0 <= i < fields@.len() ==> old(self).cell_matches(
                    cells@,
                    key@,
                    #[trigger] fields@[i]@,
                ))),
            r matches Err(e) ==> match e {
                WorkloadError::MissingField(f) => {
                    &&& exists|i: int| 0 <= i < fields@.len() && (#[trigger] fields@[i]@) == f@
                    &&& cell_value(cells@, f@) is None
                },
                WorkloadError::ValueMismatch(f) => {
                    &&& exists|i: int| 0 <= i < fields@.len() && (#[trigger] fields@[i]@) == f@
                    &&& cell_value(cells@, f@) is Some
                    &&& (forall|c: int|
                        0 <= c < cells@.len() ==> #[trigger] cells@[c].1 is Deterministic) ==> !old(
                        self,
                    ).cell_matches(cells@, key@, f@)
                },
                _ => false,
            },
    {
        let n = fields.len();
        let mut i: usize = 0;
        while i < n
            invariant
                *self == *old(self),
                old(self).wf(),
                old(self).data_integrity,
                n == fields@.len(),
                0 <= i <= n,
                forall|k: int|
                    0 <= k < i ==> (forall|c: int|
                        0 <= c < cells@.len() ==> #[trigger] cells@[c].1 is Deterministic)
                        ==> old(self).cell_matches(cells@, key@, #[trigger] fields@[k]@),
            decreases n - i,
        {
            let field = &fields[i];
            let j = match find_cell_index(&cells, field) {
                Some(j) => j,
                None => {
                    proof {
                        assert(fields@[i as int]@ == field@);
                    }
                    return Err(WorkloadError::MissingField(field.clone()));
                },
            };
            let got = cells[j].1.peek_remaining();
            let size = self.field_length_generator.next();
            let expected = self.build_deterministic_value(size, key, field.as_str());
            let expected_bytes = expected.as_str().as_bytes_vec();
            if !bytes_eq(&got, &expected_bytes) {
                proof {
                    assert(fields@[i as int]@ == field@);
                    if cells@[j as int].1 is Deterministic {
                        assert(!old(self).cell_matches(cells@, key@, fields@[i as int]@));
                    }
                }
                return Err(WorkloadError::ValueMismatch(field.clone()));
            }
            i = i + 1;
        }
        Ok(())
    }
}

impl CoreWorkload {
    /// The engine's configuration is untouched by operations: only
    /// generator draw state and the counters may move.
    pub open spec fn same_config(pre: &CoreWorkload, post: &CoreWorkload) -> bool {
        &&& post.table == pre.table
        &&& post.field_names == pre.field_names
        &&& post.field_length_generator == pre.field_length_generator
        &&& post.operation_chooser == pre.operation_chooser
        &&& post.ordered_inserts == pre.ordered_inserts
        &&& post.zero_padding == pre.zero_padding
        &&& post.data_integrity == pre.data_integrity
        &&& post.insertion_retry_limit == pre.insertion_retry_limit
        &&& post.insertion_retry_interval == pre.insertion_retry_interval
        &&& post.read_all_fields == pre.read_all_fields
        &&& post.read_all_fields_by_name == pre.read_all_fields_by_name
        &&& post.write_all_fields == pre.write_all_fields
        &&& post.field_chooser == pre.field_chooser
        &&& post.scan_length_generator == pre.scan_length_generator
        &&& post.key_chooser.lo() == pre.key_chooser.lo()
        &&& post.key_chooser.hi() == pre.key_chooser.hi()
    }

    /// Everything one transaction needs of the engine: well-formedness,
    /// at least one operation with positive weight on offer, and room
    /// in the transactional key sequencer and its window.
    pub open spec fn txn_ready(&self) -> bool {
        &&& self.wf()
        &&& self.operation_chooser.sum > 0
        &&& self.transaction_insert_key_sequencer.counter + WINDOW_SIZE < usize::MAX
    }

    /// Draw a key number that a transaction may safely address: redraw
    /// from the key chooser until the draw is at or below the insert
    /// watermark. The chooser's range never reaches past the watermark,
    /// so a draw always lands inside it.
    pub fn next_key_num(&mut self) -> (r: usize)
        requires
            old(self).wf(),
        ensures
            final(self).wf(),
            CoreWorkload::same_config(old(self), final(self)),
            final(self).key_sequencer == old(self).key_sequencer,
            final(self).transaction_insert_key_sequencer == old(
                self,
            ).transaction_insert_key_sequencer,
            r <= final(self).transaction_insert_key_sequencer.limit,
            old(self).key_chooser.lo() <= r <= old(self).key_chooser.hi(),
            old(self).key_chooser matches UsizeNumberGenerator::Constant(g) ==> r == g.val
                && *final(self) == *old(self),
            old(self).key_chooser matches UsizeNumberGenerator::Uniform(_) ==> *final(self)
                == *old(self),
            old(self).key_chooser matches UsizeNumberGenerator::Sequential(g) ==> r == g.start + (
            g.val as int % (g.end - g.start + 1)) && final(self).key_chooser
                == UsizeNumberGenerator::Sequential(
                SequentialUsizeGenerator {
                    start: g.start,
                    end: g.end,
                    val: vstd::wrapping::usize_specs::wrapping_add(g.val, 1),
                },
            ),
    {
        loop
            invariant
                self.wf(),
                *self == *old(self),
            decreases 0int,
        {
            let key_num = self.key_chooser.next();
            if key_num <= self.transaction_insert_key_sequencer.last() {
                return key_num;
            }
            proof {
                assert(false);
            }
        }
    }

    /// Collect the fields a verified or by-name read asks for: one
    /// randomly chosen field, every field by name, or none, meaning the
    /// whole record.
    fn read_field_set(&mut self) -> (r: Vec<String>)
        requires
            old(self).wf(),
        ensures
            *final(self) == *old(self),
            !old(self).read_all_fields ==> r@.len() == 1 && exists|j: int|
                0 <= j < old(self).field_names@.len() && r@[0] == #[trigger] old(
                    self,
                ).field_names@[j],
            (old(self).read_all_fields && (old(self).data_integrity || old(
                self,
            ).read_all_fields_by_name)) ==> r@ == old(self).field_names@,
            (old(self).read_all_fields && !old(self).data_integrity && !old(
                self,
            ).read_all_fields_by_name) ==> r@.len() == 0,
    {
        let mut fields: Vec<String> = Vec::new();
        if !self.read_all_fields {
            let idx = self.field_chooser.next();
            let name = self.field_names[idx].clone();
            fields.push(name);
            proof {
                assert(fields@[0] == old(self).field_names@[idx as int]);
            }
        } else if self.data_integrity || self.read_all_fields_by_name {
            let n = self.field_names.len();
            let mut k: usize = 0;
            while k < n
                invariant
                    *self == *old(self),
                    old(self).wf(),
                    n == self.field_names@.len(),
                    0 <= k <= n,
                    fields@.len() == k,
                    forall|i: int| 0 <= i < k ==> #[trigger] fields@[i] == self.field_names@[i],
                decreases n - k,
            {
                let name = self.field_names[k].clone();
                fields.push(name);
                k = k + 1;
            }
            proof {
                assert(fields@ =~= self.field_names@);
            }
        }
        fields
    }

    /// One read transaction: pick a safe key, read the requested
    /// fields, and verify the returned record when data integrity is
    /// on. A backend failure and a verification failure both surface to
    /// the caller.
    pub fn txn_read<D: Db>(&mut self, db: &D) -> (r: Result<(), WorkloadError>)
        requires
            old(self).wf(),
        ensures
            final(self).wf(),
            CoreWorkload::same_config(old(self), final(self)),
            final(self).key_sequencer == old(self).key_sequencer,
            final(self).transaction_insert_key_sequencer == old(
                self,
            ).transaction_insert_key_sequencer,
            r matches Err(e) ==> (e is Db || e is MissingField || e is ValueMismatch),
    {
        let key_num = self.next_key_num();
        let key_name = self.build_key_name(key_num);
        let fields = self.read_field_set();
        let cells = match db.read(self.table.clone(), key_name.clone(), fields.clone()) {
            Ok(c) => c,
            Err(e) => {
                return Err(WorkloadError::Db(e));
            },
        };
        if self.data_integrity {
            match self.verify_row(key_name.as_str(), &fields, cells) {
                Ok(()) => {},
                Err(e) => {
                    return Err(e);
                },
            }
        }
        Ok(())
    }

    /// One update transaction: pick a safe key and write freshly
    /// generated content for all fields or for one field.
    pub fn txn_update<D: Db>(&mut self, db: &D) -> (r: Result<(), WorkloadError>)
        requires
            old(self).wf(),
        ensures
            final(self).wf(),
            CoreWorkload::same_config(old(self), final(self)),
            final(self).key_sequencer == old(self).key_sequencer,
            final(self).transaction_insert_key_sequencer == old(
                self,
            ).transaction_insert_key_sequencer,
            r matches Err(e) ==> e is Db,
    {
        let key_num = self.next_key_num();
        let key_name = self.build_key_name(key_num);
        let values = if self.write_all_fields {
            self.build_values(key_name.as_str())
        } else {
            self.build_single_value(key_name.as_str())
        };
        match db.update(self.table.clone(), key_name, values) {
            Ok(()) => Ok(()),
            Err(e) => Err(WorkloadError::Db(e)),
        }
    }

    /// One insert transaction: issue the next key number, write a full
    /// record under it, and acknowledge the number whether or not the
    /// backend call succeeded, so that the watermark keeps advancing
    /// over the issued key space. A window overflow is fatal and takes
    /// precedence over a backend failure.
    pub fn txn_insert<D: Db>(&mut self, db: &D) -> (r: Result<(), WorkloadError>)
        requires
            old(self).wf(),
            old(self).transaction_insert_key_sequencer.counter + WINDOW_SIZE < usize::MAX,
        ensures
            final(self).wf(),
            CoreWorkload::same_config(old(self), final(self)),
            final(self).key_sequencer == old(self).key_sequencer,
            final(self).transaction_insert_key_sequencer.counter == old(
                self,
            ).transaction_insert_key_sequencer.counter + 1,
            final(self).transaction_insert_key_sequencer.limit >= old(
                self,
            ).transaction_insert_key_sequencer.limit,
            r matches Err(e) ==> (e is Db || e is AckWindowExceeded),
            (r matches Err(WorkloadError::AckWindowExceeded)) <==> old(
                self,
            ).transaction_insert_key_sequencer.counter > old(
                self,
            ).transaction_insert_key_sequencer.limit + WINDOW_SIZE,
            old(self).transaction_insert_key_sequencer.counter <= old(
                self,
            ).transaction_insert_key_sequencer.limit + WINDOW_SIZE
                ==> AcknowledgedUsizeCounter::ack_ok_transition(
                AcknowledgedUsizeCounter {
                    counter: (old(self).transaction_insert_key_sequencer.counter + 1) as usize,
                    windows: old(self).transaction_insert_key_sequencer.windows,
                    limit: old(self).transaction_insert_key_sequencer.limit,
                },
                final(self).transaction_insert_key_sequencer,
                old(self).transaction_insert_key_sequencer.counter as int,
            ),
    {
        let key_num = self.transaction_insert_key_sequencer.next();
        let key_name = self.build_key_name(key_num);
        let values = self.build_values(key_name.as_str());
        let res = db.insert(self.table.clone(), key_name, values);
        proof {
            let pre = old(self).transaction_insert_key_sequencer;
            if key_num <= pre.limit + WINDOW_SIZE {
                assert(!self.transaction_insert_key_sequencer.is_acked(key_num as int));
            }
        }
        match self.transaction_insert_key_sequencer.acknowledge(key_num) {
            Ok(()) => {},
            Err(_) => {
                return Err(WorkloadError::AckWindowExceeded);
            },
        }
        match res {
            Ok(()) => Ok(()),
            Err(e) => Err(WorkloadError::Db(e)),
        }
    }

    /// One scan transaction: issue a start key from the transactional
    /// sequencer, draw a scan length, and scan forward.
    pub fn txn_scan<D: Db>(&mut self, db: &D) -> (r: Result<(), WorkloadError>)
        requires
            old(self).wf(),
            old(self).transaction_insert_key_sequencer.counter < usize::MAX,
        ensures
            final(self).wf(),
            CoreWorkload::same_config(old(self), final(self)),
            final(self).key_sequencer == old(self).key_sequencer,
            final(self).transaction_insert_key_sequencer.counter == old(
                self,
            ).transaction_insert_key_sequencer.counter + 1,
            final(self).transaction_insert_key_sequencer.limit == old(
                self,
            ).transaction_insert_key_sequencer.limit,
            r matches Err(e) ==> e is Db,
    {
        let key_num = self.transaction_insert_key_sequencer.next();
        let start_key_name = self.build_key_name(key_num);
        let len = self.scan_length_generator.next();
        let fields = self.scan_field_set();
        match db.scan(self.table.clone(), start_key_name, len, fields) {
            Ok(_) => Ok(()),
            Err(e) => Err(WorkloadError::Db(e)),
        }
    }

    /// Collect the fields a scan asks for: one randomly chosen field
    /// name, or none, meaning whole records.
    fn scan_field_set(&mut self) -> (r: Vec<String>)
        requires
            old(self).wf(),
        ensures
            *final(self) == *old(self),
            !old(self).read_all_fields ==> r@.len() == 1 && exists|j: int|
                0 <= j < old(self).field_names@.len() && r@[0] == #[trigger] old(
                    self,
                ).field_names@[j],
            old(self).read_all_fields ==> r@.len() == 0,
    {
        let mut fields: Vec<String> = Vec::new();
        if !self.read_all_fields {
            let idx = self.field_chooser.next();
            let name = self.field_names[idx].clone();
            fields.push(name);
            proof {
                assert(fields@[0] == old(self).field_names@[idx as int]);
            }
        }
        fields
    }

    /// One read-modify-write transaction: read the requested fields of
    /// a safe key, write fresh content back, and verify the read result
    /// when data integrity is on.
    pub fn txn_read_modify_write<D: Db>(&mut self, db: &D) -> (r: Result<(), WorkloadError>)
        requires
            old(self).wf(),
        ensures
            final(self).wf(),
            CoreWorkload::same_config(old(self), final(self)),
            final(self).key_sequencer == old(self).key_sequencer,
            final(self).transaction_insert_key_sequencer == old(
                self,
            ).transaction_insert_key_sequencer,
            r matches Err(e) ==> (e is Db || e is MissingField || e is ValueMismatch),
    {
        let key_num = self.next_key_num();
        let key_name = self.build_key_name(key_num);
        let fields = self.read_field_set();
        let values = if self.write_all_fields {
            self.build_values(key_name.as_str())
        } else {
            self.build_single_value(key_name.as_str())
        };
        let cells = match db.read(self.table.clone(), key_name.clone(), fields.clone()) {
            Ok(c) => c,
            Err(e) => {
                return Err(WorkloadError::Db(e));
            },
        };
        match db.update(self.table.clone(), key_name.clone(), values) {
            Ok(()) => {},
            Err(e) => {
                return Err(WorkloadError::Db(e));
            },
        }
        if self.data_integrity {
            match self.verify_row(key_name.as_str(), &fields, cells) {
                Ok(()) => {},
                Err(e) => {
                    return Err(e);
                },
            }
        }
        Ok(())
    }

    /// What one dispatched operation does to the transactional key
    /// sequencer: inserts and scans issue one number (an insert may also
    /// advance the watermark); every other operation leaves it
    /// untouched.
    pub open spec fn op_effect(op: Op, pre: &CoreWorkload, post: &CoreWorkload) -> bool {
        match op {
            Op::Insert => post.transaction_insert_key_sequencer.counter
                == pre.transaction_insert_key_sequencer.counter + 1
                && post.transaction_insert_key_sequencer.limit
                >= pre.transaction_insert_key_sequencer.limit,
            Op::Scan => post.transaction_insert_key_sequencer.counter
                == pre.transaction_insert_key_sequencer.counter + 1
                && post.transaction_insert_key_sequencer.limit
                == pre.transaction_insert_key_sequencer.limit,
            _ => post.transaction_insert_key_sequencer == pre.transaction_insert_key_sequencer,
        }
    }

    /// Do one transaction: draw an operation from the weighted mix and
    /// dispatch to it. Safe to call repeatedly; every operation is
    /// self-contained. The drawn operation is one of the mix's
    /// positive-weight choices, and the transactional sequencer moves
    /// exactly as that operation prescribes.
    pub fn transaction<D: Db>(&mut self, db: &D) -> (r: Result<(), WorkloadError>)
        requires
            old(self).txn_ready(),
        ensures
            final(self).wf(),
            final(self).txn_ready() || final(self).transaction_insert_key_sequencer.counter
                == usize::MAX - WINDOW_SIZE,
            CoreWorkload::same_config(old(self), final(self)),
            final(self).key_sequencer == old(self).key_sequencer,
            final(self).transaction_insert_key_sequencer.counter <= old(
                self,
            ).transaction_insert_key_sequencer.counter + 1,
            final(self).transaction_insert_key_sequencer.limit >= old(
                self,
            ).transaction_insert_key_sequencer.limit,
            r matches Err(e) ==> (e is Db || e is MissingField || e is ValueMismatch
                || e is AckWindowExceeded),
            exists|t: int, i: int|
                {
                    &&& 0 <= t < old(self).operation_chooser.sum
                    &&& #[trigger] crate::generator::discrete::is_chosen(
                        old(self).operation_chooser.choices@,
                        t,
                        i,
                    )
                    &&& CoreWorkload::op_effect(
                        old(self).operation_chooser.choices@[i].val,
                        old(self),
                        final(self),
                    )
                },
    {
        let op = self.operation_chooser.next();
        let r = match op {
            Op::Read => self.txn_read(db),
            Op::Update => self.txn_update(db),
            Op::Insert => self.txn_insert(db),
            Op::Scan => self.txn_scan(db),
            Op::ReadModifyWrite => self.txn_read_modify_write(db),
        };
        proof {
            let (t, i) = choose|t: int, i: int|
                0 <= t < old(self).operation_chooser.sum
                    && #[trigger] crate::generator::discrete::is_chosen(
                    old(self).operation_chooser.choices@,
                    t,
                    i,
                ) && op == old(self).operation_chooser.choices@[i].val;
            assert(CoreWorkload::op_effect(op, old(self), self));
        }
        r
    }

    /// Call `f` once and, on failure, retry up to `limits` more times,
    /// pausing between attempts for the configured interval jittered by
    /// a uniform factor between 0.8 and 1.2, through the caller's
    /// `sleep`. Exhausting the budget reports the retry limit exceeded;
    /// with a budget of zero the one initial attempt still runs.
    fn retry<F: Fn() -> Result<(), DbError>, S: Fn(u64)>(
        &self,
        f: F,
        limits: usize,
        interval_secs: usize,
        sleep: S,
    ) -> (r: Result<(), WorkloadError>)
        requires
            call_requires(f, ()),
            forall|ms: u64| call_requires(sleep, (ms,)),
        ensures
            r matches Ok(_) ==> exists|o: Result<(), DbError>|
                #[trigger] call_ensures(f, (), o) && o is Ok,
            r matches Err(e) ==> e is RetryLimitExceeded,
    {
        let mut attempt: usize = 0;
        loop
            invariant
                call_requires(f, ()),
                forall|ms: u64| call_requires(sleep, (ms,)),
                attempt <= limits,
            decreases limits - attempt,
        {
            let res = f();
            if res.is_ok() {
                return Ok(());
            }
            if attempt == limits {
                return Err(WorkloadError::RetryLimitExceeded);
            }
            let jitter = 800 + crate::rng::rand_u64_below(401);
            let ms = match (interval_secs as u64).checked_mul(jitter) {
                Some(v) => v,
                None => u64::MAX,
            };
            sleep(ms);
            attempt = attempt + 1;
        }
    }

    /// Do one load-phase insert: issue the next key number from the
    /// load sequencer, build a full record, and write it, retrying a
    /// failed write up to the configured limit with jittered pauses.
    /// Pausing between attempts is delegated to the caller's `sleep`,
    /// which receives the pause in milliseconds.
    pub fn insert<D: Db, S: Fn(u64)>(&mut self, db: &D, sleep: S) -> (r: Result<
        (),
        WorkloadError,
    >)
        requires
            old(self).wf(),
            old(self).key_sequencer.counter < usize::MAX,
            forall|ms: u64| call_requires(sleep, (ms,)),
        ensures
            final(self).wf(),
            CoreWorkload::same_config(old(self), final(self)),
            final(self).key_sequencer.counter == old(self).key_sequencer.counter + 1,
            final(self).transaction_insert_key_sequencer == old(
                self,
            ).transaction_insert_key_sequencer,
            r matches Err(e) ==> e is RetryLimitExceeded,
    {
        let key_num = self.key_sequencer.next();
        let db_key = self.build_key_name(key_num);
        let values = self.build_values(db_key.as_str());
        let table = self.table.clone();
        let limits = self.insertion_retry_limit;
        let interval = self.insertion_retry_interval;
        self.retry(
            || db.insert(table.clone(), db_key.clone(), values.clone()),
            limits,
            interval,
            sleep,
        )
    }
}


impl CoreWorkload {
    /// Under ordered inserts, a key string decodes back to its key
    /// number: key strings are faithful to the numeric key space.
    pub proof fn lemma_ordered_key_round_trip(&self, key_num: usize)
        requires
            self.ordered_inserts,
        ensures
            crate::utils::dec_value(self.spec_key_name(key_num)) == key_num,
    {
        crate::utils::lemma_padded_dec_value(key_num as nat, self.zero_padding as nat);
    }
}

/// The first cell carrying a given name is found, whichever one it is.
proof fn lemma_cell_value_first(cells: Seq<(String, Value)>, name: Seq<char>)
    requires
        exists|i: int| 0 <= i < cells.len() && #[trigger] cells[i].0@ == name,
    ensures
        exists|j: int|
            0 <= j < cells.len() && #[trigger] cells[j].0@ == name && cell_value(cells, name)
                == Option::Some(cells[j].1),
    decreases cells.len(),
{
    if cells[0].0@ == name {
        assert(cell_value(cells, name) == Option::Some(cells[0].1));
    } else {
        let tail = cells.subrange(1, cells.len() as int);
        let i0 = choose|i: int| 0 <= i < cells.len() && #[trigger] cells[i].0@ == name;
        assert(tail[i0 - 1].0@ == name);
        lemma_cell_value_first(tail, name);
        let j0 = choose|j: int|
            0 <= j < tail.len() && #[trigger] tail[j].0@ == name && cell_value(tail, name)
                == Option::Some(tail[j].1);
        assert(cells[j0 + 1].0@ == name && cell_value(cells, name) == Option::Some(
            cells[j0 + 1].1,
        ));
    }
}

/// A record built from the deterministic template verifies against
/// itself: every field of a payload whose cells carry exactly the
/// expected deterministic content, still unread, matches on
/// verification.
pub proof fn lemma_self_built_record_verifies(
    w: &CoreWorkload,
    cells: Seq<(String, Value)>,
    key: Seq<char>,
)
    requires
        forall|i: int|
            0 <= i < cells.len() ==> (#[trigger] cells[i].1 matches Value::Deterministic {
                data,
                pos,
            } && pos == 0 && data@ == w.expected_bytes(key, cells[i].0@)),
    ensures
        forall|i: int|
            0 <= i < cells.len() ==> w.cell_matches(cells, key, #[trigger] cells[i].0@),
{
    assert forall|i: int|
        0 <= i < cells.len() implies w.cell_matches(cells, key, #[trigger] cells[i].0@) by {
        let name = cells[i].0@;
        lemma_cell_value_first(cells, name);
        let j = choose|j: int|
            0 <= j < cells.len() && #[trigger] cells[j].0@ == name && cell_value(cells, name)
                == Option::Some(cells[j].1);
        assert(det_bytes(cells[j].1) == w.expected_bytes(key, name));
    }
}

/// A configuration that gives all its weight to reads offers a mix of
/// exactly one choice, the read operation, so every transaction drawn
/// from it is a read.
pub proof fn lemma_read_only_mix(c: &CoreWorkloadConfig)
    requires
        c.read_weight > 0,
        c.update_weight == 0,
        c.insert_weight == 0,
        c.scan_weight == 0,
        c.read_modify_write_weight == 0,
    ensures
        config_ops(c).len() == 1,
        config_ops(c)[0].val == Op::Read,
        forall|t: int, i: int|
            #[trigger] crate::generator::discrete::is_chosen(config_ops(c), t, i) ==> config_ops(
                c,
            )[i].val == Op::Read,
{
}

/// A configuration that gives all its weight to inserts offers a mix of
/// exactly one choice, the insert operation, so every transaction drawn
/// from it is an insert.
pub proof fn lemma_insert_only_mix(c: &CoreWorkloadConfig)
    requires
        c.insert_weight > 0,
        c.read_weight == 0,
        c.update_weight == 0,
        c.scan_weight == 0,
        c.read_modify_write_weight == 0,
    ensures
        config_ops(c).len() == 1,
        config_ops(c)[0].val == Op::Insert,
        forall|t: int, i: int|
            #[trigger] crate::generator::discrete::is_chosen(config_ops(c), t, i) ==> config_ops(
                c,
            )[i].val == Op::Insert,
{
}

} // verus!
