//! Rows of a table, as the `csv` crate holds them: what this library
//! takes for granted of `csv::ByteRecord`.

use vstd::prelude::*;

verus! {

/// A row of fields, each a run of bytes.
#[verifier::external_type_specification]
#[verifier::external_body]
pub struct ExByteRecord(csv::ByteRecord);

/// The fields that a record holds, in their order.
pub uninterp spec fn record_fields(record: csv::ByteRecord) -> Seq<Seq<u8>>;

/// `ByteRecord::len` is the number of fields in the record.
pub assume_specification[ csv::ByteRecord::len ](record: &csv::ByteRecord) -> (n: usize)
    ensures
        n == record_fields(*record).len(),
;

/// `ByteRecord::get` is the field at index `i`, and `None` where the record
/// has no field at that index.
pub assume_specification<'a>[ csv::ByteRecord::get ](record: &'a csv::ByteRecord, i: usize) -> (field:
    Option<&'a [u8]>)
    ensures
        match field {
            Some(bytes) => i < record_fields(*record).len() && bytes@ == record_fields(*record)[
                i as int
            ],
            None => i >= record_fields(*record).len(),
        },
;

/// Whether two runs of bytes are the same.
pub fn bytes_equal(a: &[u8], b: &[u8]) -> (same: bool)
    ensures
        same == (a@ == b@),
{
    if a.len() != b.len() {
        return false;
    }
    let mut i: usize = 0;
    while i < a.len()
        invariant
            i <= a.len(),
            a.len() == b.len(),
            a@.take(i as int) == b@.take(i as int),
        decreases a.len() - i,
    {
        if a[i] != b[i] {
            return false;
        }
        assert(a@.take(i + 1) =~= a@.take(i as int).push(a@[i as int]));
        assert(b@.take(i + 1) =~= b@.take(i as int).push(b@[i as int]));
        i = i + 1;
    }
    assert(a@.take(i as int) =~= a@);
    assert(b@.take(i as int) =~= b@);
    true
}

} // verus!
