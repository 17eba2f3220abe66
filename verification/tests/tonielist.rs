use rusty_bench::tonielist::find_tonie_with_audio_id;
use rusty_bench::tonielist::Daum;
use rusty_bench::tonielist::Id;
use rusty_bench::tonielist::Tonie;

fn record(article: &str, audio_ids: &[i64]) -> Tonie {
    let ids = audio_ids
        .iter()
        .map(|&a| Id {
            audio_id: a,
            hash: "cafe".to_string(),
            size: 10,
            tracks: 2,
            confidence: 1,
        })
        .collect();
    Tonie {
        article: article.to_string(),
        data: vec![Daum {
            series: Some("Series".to_string()),
            episode: None,
            release: 1,
            language: Some("de-de".to_string()),
            category: None,
            runtime: 33,
            age: 3,
            origin: "stock".to_string(),
            image: None,
            sample: None,
            web: None,
            shop_id: None,
            track_desc: vec!["one".to_string(), "two".to_string()],
            ids,
        }],
    }
}

#[test]
fn finds_a_record_by_content_id() {
    let list = vec![record("10000-A", &[100, 200]), record("10000-B", &[300])];
    let found = find_tonie_with_audio_id(&list, 300).unwrap();
    assert_eq!(found.article, "10000-B");
    assert_eq!(found.data[0].track_desc, vec!["one", "two"]);
    assert_eq!(found.data[0].ids[0].audio_id, 300);
}

#[test]
fn absence_is_not_an_error() {
    let list = vec![record("10000-A", &[100])];
    assert!(find_tonie_with_audio_id(&list, 999).is_none());
    assert!(find_tonie_with_audio_id(&vec![], 100).is_none());
}

#[test]
fn first_match_wins() {
    let list = vec![
        record("10000-A", &[7]),
        record("10000-B", &[7]),
        record("10000-C", &[8]),
    ];
    let found = find_tonie_with_audio_id(&list, 7).unwrap();
    assert_eq!(found.article, "10000-A");
}
