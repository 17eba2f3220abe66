use rusty_bench::fault::Fault;
use rusty_bench::tagcodec::check_tag_id_validity;
use rusty_bench::tagcodec::get_tag_id;
use rusty_bench::tagcodec::path_for;
use rusty_bench::tagcodec::rotate_bytewise;

#[test]
fn rotate_known_values() {
    assert_eq!(rotate_bytewise("E0040350"), "500304E0");
    assert_eq!(rotate_bytewise("129C3DA2"), "A23D9C12");
}

#[test]
fn rotate_is_an_involution() {
    for s in ["E0040350", "129C3DA2", "00000000", "abcdefgh", "ÄÖÜßäöüé"] {
        assert_eq!(rotate_bytewise(&rotate_bytewise(s)), s);
    }
}

#[test]
fn rotate_rejects_other_lengths() {
    assert_eq!(rotate_bytewise(""), "INVALID");
    assert_eq!(rotate_bytewise("E004035"), "INVALID");
    assert_eq!(rotate_bytewise("E00403501"), "INVALID");
    assert_eq!(rotate_bytewise("E0040350129C3DA2"), "INVALID");
}

#[test]
fn tag_id_validity() {
    assert!(check_tag_id_validity("E0040350129C3DA2").is_ok());
    assert!(check_tag_id_validity("e0040350129c3da2").is_ok());
    assert_eq!(check_tag_id_validity("E0040350"), Err(Fault::Validation));
    assert_eq!(
        check_tag_id_validity("E0040350129C3DAG"),
        Err(Fault::Validation)
    );
    assert_eq!(check_tag_id_validity(""), Err(Fault::Validation));
    assert_eq!(
        check_tag_id_validity("E0040350129C3DA2X"),
        Err(Fault::Validation)
    );
}

#[test]
fn physical_path_for_worked_example() {
    // tagId E0040350129C3DA2 maps to <root>/A23D9C12/500304E0.
    let (dir, file) = path_for("E0040350129C3DA2").unwrap();
    assert_eq!(dir, "A23D9C12");
    assert_eq!(file, "500304E0");
}

#[test]
fn path_for_normalizes_to_uppercase() {
    let (dir, file) = path_for("e0040350129c3da2").unwrap();
    assert_eq!(dir, "A23D9C12");
    assert_eq!(file, "500304E0");
}

#[test]
fn path_for_rejects_malformed_tags() {
    assert_eq!(path_for("not a tag"), Err(Fault::Validation));
    assert_eq!(path_for("E0040350129C3DA"), Err(Fault::Validation));
}

#[test]
fn tag_id_round_trip() {
    let (dir, file) = path_for("E0040350129C3DA2").unwrap();
    assert_eq!(
        get_tag_id(&file, &dir),
        Some("E0040350129C3DA2".to_string())
    );
    // Lowercase input rounds back to its uppercase normalization.
    let (dir, file) = path_for("e0040350129c3da2").unwrap();
    assert_eq!(
        get_tag_id(&file, &dir),
        Some("E0040350129C3DA2".to_string())
    );
}

#[test]
fn tag_id_absent_for_bad_components() {
    assert_eq!(get_tag_id("500304E0", "short"), None);
    assert_eq!(get_tag_id("toolongname", "A23D9C12"), None);
    assert_eq!(get_tag_id("", ""), None);
}
