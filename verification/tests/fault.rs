use rusty_bench::fault::Fault;

#[test]
fn every_fault_reads_distinctly() {
    let all = [
        Fault::Validation,
        Fault::HeaderDecode,
        Fault::UnsupportedMedia,
        Fault::Decode,
        Fault::Io,
        Fault::CatalogUnavailable,
    ];
    for (i, a) in all.iter().enumerate() {
        assert!(!a.describe().is_empty());
        for b in &all[i + 1..] {
            assert_ne!(a.describe(), b.describe());
        }
    }
    assert_eq!(Fault::Validation.describe(), "invalid tag ID");
    assert_eq!(Fault::Decode.describe(), "fatal decode error");
}
