//! Default values for the workload configuration.

use vstd::prelude::*;
use vstd::string::StringExecFns;

verus! {

/// Default table name.
pub fn table() -> (r: String)
    ensures
        r@ == "ycsb"@,
{
    String::from_str("ycsb")
}

/// Default number of fields in a record.
pub fn fields() -> (r: usize)
    ensures
        r == 10,
{
    10
}

/// Default prefix of generated field names.
pub fn field_name_prefix() -> (r: String)
    ensures
        r@ == "field"@,
{
    String::from_str("field")
}

/// Default field length distribution.
pub fn field_length_distribution() -> (r: String)
    ensures
        r@ == "constant"@,
{
    String::from_str("constant")
}

/// Default minimum field length.
pub fn min_field_length() -> (r: usize)
    ensures
        r == 1,
{
    1
}

/// Default maximum field length.
pub fn max_field_length() -> (r: usize)
    ensures
        r == 100,
{
    100
}

/// Default name of the field length histogram file.
pub fn field_length_histogram_file() -> (r: String)
    ensures
        r@ == "hist.txt"@,
{
    String::from_str("hist.txt")
}

/// Default record count; zero stands for the whole key space.
pub fn record_count() -> (r: usize)
    ensures
        r == 0,
{
    0
}

/// Default request distribution.
pub fn request_distribution() -> (r: String)
    ensures
        r@ == "uniform"@,
{
    String::from_str("uniform")
}

/// Default minimum scan length, in records.
pub fn min_scan_length() -> (r: usize)
    ensures
        r == 1,
{
    1
}

/// Default maximum scan length, in records.
pub fn max_scan_length() -> (r: usize)
    ensures
        r == 1000,
{
    1000
}

/// Default scan length distribution.
pub fn scan_length_distribution() -> (r: String)
    ensures
        r@ == "uniform"@,
{
    String::from_str("uniform")
}

/// Default first key number to insert.
pub fn insert_start() -> (r: usize)
    ensures
        r == 0,
{
    0
}

/// Default zero padding width of key strings.
pub fn zero_padding() -> (r: usize)
    ensures
        r == 1,
{
    1
}

/// By default reads fetch all fields.
pub fn read_all_fields() -> (r: bool)
    ensures
        r == true,
{
    true
}

/// By default a read of all fields does not name them one by one.
pub fn read_all_fields_by_name() -> (r: bool)
    ensures
        r == false,
{
    false
}

/// By default updates write a single field.
pub fn write_all_fields() -> (r: bool)
    ensures
        r == false,
{
    false
}

/// By default data integrity checking is off.
pub fn data_integrity() -> (r: bool)
    ensures
        r == false,
{
    false
}

/// Default insertion order of key strings.
pub fn insert_order() -> (r: String)
    ensures
        r@ == "hashed"@,
{
    String::from_str("hashed")
}

/// Default number of retries for a failed insert.
pub fn insertion_retry_limit() -> (r: usize)
    ensures
        r == 0,
{
    0
}

/// Default average pause between insert retries, in seconds.
pub fn insertion_retry_interval() -> (r: usize)
    ensures
        r == 3,
{
    3
}

} // verus!
