use edict::dump::binary::{LengthMismatch, LoadError};
use edict::dump::{DumpQuery, DumperBin, EntityDump, LoaderBin};

#[test]
fn records_roundtrip_through_bytes() {
    let mut bytes = Vec::new();
    {
        let mut dumper = DumperBin(&mut bytes);
        dumper.dump_record(&EntityDump([1, 0b101, 0b100]));
        dumper.dump_record(&EntityDump([u64::MAX, 2, 0]));
    }
    assert_eq!(bytes.len(), 48);
    assert_eq!(&bytes[..8], &1u64.to_le_bytes());

    let mut loader = LoaderBin::new(&bytes);
    let first = loader.next().unwrap().unwrap();
    assert_eq!(first.0, [1, 0b101, 0b100]);
    let second = loader.next().unwrap().unwrap();
    assert_eq!(second.0, [u64::MAX, 2, 0]);
    assert!(loader.next().unwrap().is_none());
}

#[test]
fn truncated_record_is_an_error() {
    let mut bytes = Vec::new();
    DumperBin(&mut bytes).dump_record(&EntityDump([5, 6, 7]));
    bytes.truncate(20);
    let mut loader = LoaderBin::new(&bytes);
    match loader.next() {
        Err(err) => assert_eq!(err, LoadError {
            offset: 16,
            lengths: Some(LengthMismatch { expected_length: 8, actual_length: 20 }),
        }),
        Ok(_) => panic!("a truncated record must not load"),
    }
}

#[test]
fn dump_query_keeps_epoch() {
    let q: DumpQuery<u32> = DumpQuery::new(17);
    assert_eq!(q.after_epoch(), 17);
}
