use rainbow::assembler::{RangeDesc, RangeError};
use rainbow::digest::{range_records, to_hash, Record};
use rainbow::resolve::{resolve_batch, Answer, Lookup, ResolveError};

const D1: &str = "6b86b273ff34fce19d6b804eff5a3f5747ada4eaa22f1d49c01e52ddb7875b4b";
const D2: &str = "d4735e3a265e16eee03f59718b9b5d03019c07d8b6c51f90da3a666eec13ab35";
const D3: &str = "4e07408562bedb8b60ce05c1decfe3ad16b72230967de01f640b7e4729b49fce";
const D195: &str = "1dfacb2ea5a03e0a915999e03b5a56196f1b1664d2f768d1b7eff60ac059789d";

fn answer(digest: &str, outcome: Lookup) -> Answer {
    Answer { digest: digest.to_string(), outcome }
}

#[test]
fn digest_of_decimal_text() {
    let r = to_hash(195);
    assert_eq!(r.value, 195);
    assert_eq!(r.digest, D195);
    assert_eq!(to_hash(2).digest, D2);
}

#[test]
fn scenario_a_records() {
    let recs = range_records(&RangeDesc::new(1, 3, 0, 0).unwrap()).unwrap();
    let expected = vec![
        Record { digest: D1.to_string(), value: 1 },
        Record { digest: D2.to_string(), value: 2 },
        Record { digest: D3.to_string(), value: 3 },
    ];
    assert_eq!(recs, expected);
}

#[test]
fn scenario_b_record() {
    let recs = range_records(&RangeDesc::new(5, 5, 9, 1).unwrap()).unwrap();
    assert_eq!(recs, vec![Record { digest: D195.to_string(), value: 195 }]);
}

#[test]
fn records_of_an_overflowing_range() {
    let r = RangeDesc::new(9223372036854775807, 9223372036854775807, 5, 0).unwrap();
    assert_eq!(range_records(&r), Err(RangeError::ValueTooLarge));
}

#[test]
fn scenario_a_resolution() {
    let batch = vec![answer(D2, Lookup::Found(2)), answer("deadbeef", Lookup::Absent)];
    assert_eq!(
        resolve_batch(&batch),
        Ok(vec![Record { digest: D2.to_string(), value: 2 }])
    );
}

#[test]
fn scenario_c_duplicate_digest() {
    let batch = vec![answer(D195, Lookup::Found(195)), answer(D195, Lookup::Found(195))];
    let rec = Record { digest: D195.to_string(), value: 195 };
    assert_eq!(resolve_batch(&batch), Ok(vec![rec.clone(), rec]));
}

#[test]
fn absent_digest_is_no_error() {
    let batch = vec![answer("deadbeef", Lookup::Absent)];
    assert_eq!(resolve_batch(&batch), Ok(vec![]));
    assert_eq!(resolve_batch(&vec![]), Ok(vec![]));
}

#[test]
fn store_failure_fails_the_batch() {
    let batch = vec![
        answer(D1, Lookup::Found(1)),
        answer(D2, Lookup::Failed),
        answer(D3, Lookup::Found(3)),
    ];
    assert_eq!(resolve_batch(&batch), Err(ResolveError::StoreFailure));
}
