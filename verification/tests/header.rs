use rusty_bench::fault::Fault;
use rusty_bench::header::audio_payload;
use rusty_bench::header::build_header;
use rusty_bench::header::parse_header;
use rusty_bench::header::read_header_len;
use rusty_bench::header::serialize_header;
use rusty_bench::header::ContainerHeader;

fn sample_header() -> ContainerHeader {
    ContainerHeader {
        sha1_hash: (0u8..20).collect(),
        num_bytes: 123456,
        audio_id: 0x12345678,
        track_page_nums: vec![0, 17, 35],
    }
}

#[test]
fn serialize_is_exactly_one_region() {
    let bytes = serialize_header(&sample_header()).unwrap();
    assert_eq!(bytes.len(), 4096);
    // Reserved prefix and the canonical big-endian record length 4092.
    assert_eq!(&bytes[0..4], &[0, 0, 15, 252]);
}

#[test]
fn parse_of_serialize_gives_the_header_back() {
    let h = sample_header();
    let bytes = serialize_header(&h).unwrap();
    let back = parse_header(&bytes).unwrap();
    assert_eq!(back.sha1_hash, h.sha1_hash);
    assert_eq!(back.num_bytes, h.num_bytes);
    assert_eq!(back.audio_id, h.audio_id);
    assert_eq!(back.track_page_nums, h.track_page_nums);
}

#[test]
fn round_trip_without_chapters() {
    let h = ContainerHeader {
        sha1_hash: vec![0xAB; 20],
        num_bytes: 0,
        audio_id: 0,
        track_page_nums: vec![],
    };
    let bytes = serialize_header(&h).unwrap();
    assert_eq!(bytes.len(), 4096);
    let back = parse_header(&bytes).unwrap();
    assert_eq!(back.num_bytes, 0);
    assert_eq!(back.audio_id, 0);
    assert!(back.track_page_nums.is_empty());
}

#[test]
fn round_trip_with_extreme_fields() {
    let h = ContainerHeader {
        sha1_hash: vec![0xFF; 20],
        num_bytes: u32::MAX,
        audio_id: u32::MAX,
        track_page_nums: vec![0, 1, u32::MAX],
    };
    let bytes = serialize_header(&h).unwrap();
    let back = parse_header(&bytes).unwrap();
    assert_eq!(back.num_bytes, u32::MAX);
    assert_eq!(back.audio_id, u32::MAX);
    assert_eq!(back.track_page_nums, vec![0, 1, u32::MAX]);
}

#[test]
fn serialize_rejects_a_bad_digest() {
    let mut h = sample_header();
    h.sha1_hash = vec![1, 2, 3];
    assert_eq!(serialize_header(&h), Err(Fault::HeaderDecode));
    h.sha1_hash = vec![0; 21];
    assert_eq!(serialize_header(&h), Err(Fault::HeaderDecode));
}

#[test]
fn serialize_rejects_an_oversized_chapter_list() {
    // Each page index costs bytes; far too many cannot land on 4092.
    let mut h = sample_header();
    h.track_page_nums = (0..4000u32).map(|i| i * 1000).collect();
    assert_eq!(serialize_header(&h), Err(Fault::HeaderDecode));
}

#[test]
fn parse_rejects_truncated_input() {
    assert_eq!(parse_header(&vec![]), Err(Fault::HeaderDecode));
    assert_eq!(parse_header(&vec![0, 0, 15]), Err(Fault::HeaderDecode));
    assert_eq!(parse_header(&vec![0u8; 4095]), Err(Fault::HeaderDecode));
}

#[test]
fn parse_rejects_a_non_canonical_record_length() {
    let mut bytes = serialize_header(&sample_header()).unwrap();
    bytes[2] = 0;
    bytes[3] = 10;
    assert_eq!(parse_header(&bytes), Err(Fault::HeaderDecode));
    let mut bytes2 = serialize_header(&sample_header()).unwrap();
    bytes2[0] = 1;
    assert_eq!(parse_header(&bytes2), Err(Fault::HeaderDecode));
}

#[test]
fn parse_rejects_a_corrupt_record() {
    let mut bytes = serialize_header(&sample_header()).unwrap();
    bytes[4] = 0x99; // first field tag destroyed
    assert_eq!(parse_header(&bytes), Err(Fault::HeaderDecode));
}

#[test]
fn parse_never_reads_past_the_region() {
    let mut bytes = serialize_header(&sample_header()).unwrap();
    bytes.extend_from_slice(b"payload follows here");
    let back = parse_header(&bytes).unwrap();
    assert_eq!(back.audio_id, 0x12345678);
}

#[test]
fn header_len_prefix() {
    let bytes = serialize_header(&sample_header()).unwrap();
    assert_eq!(read_header_len(&bytes), Ok(4092));
    assert_eq!(read_header_len(&vec![0, 0]), Err(Fault::HeaderDecode));
}

#[test]
fn build_header_computes_the_digest_over_the_payload() {
    // SHA-1 of "abc" is a well-known value; a wrapper handing its
    // input back unchanged would fail this.
    let payload: Vec<u8> = b"abc".to_vec();
    let bytes = build_header(&payload, 7, vec![0]).unwrap();
    assert_eq!(bytes.len(), 4096);
    let back = parse_header(&bytes).unwrap();
    assert_eq!(
        back.sha1_hash,
        vec![
            0xa9, 0x99, 0x3e, 0x36, 0x47, 0x06, 0x81, 0x6a, 0xba, 0x3e, 0x25, 0x71, 0x78, 0x50,
            0xc2, 0x6c, 0x9c, 0xd0, 0xd8, 0x9d,
        ]
    );
    assert_eq!(back.num_bytes, 3);
    assert_eq!(back.audio_id, 7);
    assert_eq!(back.track_page_nums, vec![0]);
}

#[test]
fn payload_starts_at_the_fixed_offset() {
    let payload: Vec<u8> = b"opus pages would live here".to_vec();
    let mut file = build_header(&payload, 9, vec![0]).unwrap();
    file.extend_from_slice(&payload);
    assert_eq!(audio_payload(&file), Ok(payload));
}

#[test]
fn payload_unavailable_behind_a_corrupt_header() {
    let file = vec![7u8; 5000];
    assert_eq!(audio_payload(&file), Err(Fault::HeaderDecode));
}
