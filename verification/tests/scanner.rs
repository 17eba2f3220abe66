use rusty_bench::header::build_header;
use rusty_bench::scanner::populate_table;
use rusty_bench::scanner::ScannedDir;
use rusty_bench::scanner::ScannedFile;
use rusty_bench::scanner::Teddyfile;
use rusty_bench::tonielist::Daum;
use rusty_bench::tonielist::Id;
use rusty_bench::tonielist::Tonie;

fn container_bytes(audio_id: u32) -> Vec<u8> {
    let payload: Vec<u8> = b"audio".to_vec();
    let mut file = build_header(&payload, audio_id, vec![0, 12]).unwrap();
    file.extend_from_slice(&payload);
    file
}

fn catalog_with(audio_id: u32, article: &str) -> Vec<Tonie> {
    let id = Id {
        audio_id: audio_id as i64,
        hash: String::new(),
        size: 0,
        tracks: 1,
        confidence: 1,
    };
    let daum = Daum {
        series: Some("Series".to_string()),
        episode: Some("Episode".to_string()),
        release: 0,
        language: None,
        category: None,
        runtime: 0,
        age: 0,
        origin: String::new(),
        image: None,
        sample: None,
        web: None,
        shop_id: None,
        track_desc: vec![],
        ids: vec![id],
    };
    vec![Tonie {
        article: article.to_string(),
        data: vec![daum],
    }]
}

#[test]
fn one_good_one_truncated_gives_two_entries() {
    let dirs = vec![ScannedDir {
        name: "A23D9C12".to_string(),
        files: vec![
            ScannedFile {
                name: "500304E0".to_string(),
                data: container_bytes(42),
            },
            ScannedFile {
                name: "500304E1".to_string(),
                data: vec![0, 0, 15], // truncated
            },
        ],
    }];
    let mut files: Vec<Teddyfile> = Vec::new();
    populate_table(&dirs, &mut files, &vec![]);
    assert_eq!(files.len(), 2);
    assert!(files[0].is_valid);
    assert_eq!(files[0].audio_id, 42);
    assert_eq!(files[0].length, 5);
    assert_eq!(files[0].chapter_pages, vec![0, 12]);
    assert_eq!(files[0].tag, "E0040350129C3DA2");
    assert_eq!(files[0].path, "A23D9C12/500304E0");
    assert!(!files[1].is_valid);
    assert_eq!(files[1].audio_id, 0);
    assert_eq!(files[1].length, 0);
    assert!(files[1].hash.is_empty());
    assert!(files[1].chapter_pages.is_empty());
    assert!(files[1].info.is_none());
}

#[test]
fn reserved_directory_is_excluded_entirely() {
    let dirs = vec![
        ScannedDir {
            name: "00000000".to_string(),
            files: vec![ScannedFile {
                name: "500304E0".to_string(),
                data: container_bytes(1),
            }],
        },
        ScannedDir {
            name: "000000ZZ".to_string(),
            files: vec![ScannedFile {
                name: "500304E0".to_string(),
                data: container_bytes(2),
            }],
        },
        ScannedDir {
            name: "A23D9C12".to_string(),
            files: vec![ScannedFile {
                name: "500304E0".to_string(),
                data: container_bytes(3),
            }],
        },
    ];
    let mut files: Vec<Teddyfile> = Vec::new();
    populate_table(&dirs, &mut files, &vec![]);
    assert_eq!(files.len(), 1);
    assert_eq!(files[0].audio_id, 3);
}

#[test]
fn catalog_record_is_attached_to_valid_entries() {
    let dirs = vec![ScannedDir {
        name: "A23D9C12".to_string(),
        files: vec![ScannedFile {
            name: "500304E0".to_string(),
            data: container_bytes(42),
        }],
    }];
    let catalog = catalog_with(42, "10000-A");
    let mut files: Vec<Teddyfile> = Vec::new();
    populate_table(&dirs, &mut files, &catalog);
    assert_eq!(files.len(), 1);
    let info = files[0].info.as_ref().unwrap();
    assert_eq!(info.article, "10000-A");

    // A catalog without the identifier attaches nothing: a normal
    // condition, not an error.
    let other = catalog_with(43, "10000-B");
    let mut files2: Vec<Teddyfile> = Vec::new();
    populate_table(&dirs, &mut files2, &other);
    assert!(files2[0].info.is_none());
}

#[test]
fn odd_path_components_degrade_the_tag() {
    let dirs = vec![ScannedDir {
        name: "ODDNAME".to_string(), // 7 characters
        files: vec![ScannedFile {
            name: "500304E0".to_string(),
            data: container_bytes(5),
        }],
    }];
    let mut files: Vec<Teddyfile> = Vec::new();
    populate_table(&dirs, &mut files, &vec![]);
    assert_eq!(files.len(), 1);
    assert!(files[0].is_valid);
    assert_eq!(files[0].tag, "invalid");
}

#[test]
fn scan_appends_in_walk_order() {
    let dirs = vec![
        ScannedDir {
            name: "A23D9C12".to_string(),
            files: vec![ScannedFile {
                name: "500304E0".to_string(),
                data: container_bytes(1),
            }],
        },
        ScannedDir {
            name: "B23D9C12".to_string(),
            files: vec![ScannedFile {
                name: "500304E0".to_string(),
                data: container_bytes(2),
            }],
        },
    ];
    let mut files: Vec<Teddyfile> = Vec::new();
    populate_table(&dirs, &mut files, &vec![]);
    assert_eq!(files.len(), 2);
    assert_eq!(files[0].audio_id, 1);
    assert_eq!(files[1].audio_id, 2);
}

#[test]
fn unfinalized_destination_scans_as_invalid() {
    // A build that aborted before finalize leaves partial data; a
    // re-scan must mark it invalid, not finalized.
    let dirs = vec![ScannedDir {
        name: "A23D9C12".to_string(),
        files: vec![ScannedFile {
            name: "500304E0".to_string(),
            data: vec![0u8; 100], // partial data, no finalized header
        }],
    }];
    let mut files: Vec<Teddyfile> = Vec::new();
    populate_table(&dirs, &mut files, &vec![]);
    assert_eq!(files.len(), 1);
    assert!(!files[0].is_valid);
}
