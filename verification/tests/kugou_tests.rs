use vitune_core::header::Lyrics;
use vitune_core::kugou::{
    decode_content, find_probe, lyrics_from_bytes, lyrics_result, Candidate, KuGouError, Reply,
    Request, Resolution, SongInfo, Stage, Step,
};

const CONTENT: &str = "W3RpOlNvbmddDQpbYXI6U29tZW9uZV0NClswMDowMS4wMF1kb24mYXBvczt0DQpbMDA6MDIuMDBdc3RvcA0KWzAwOjAzLjAwXW5vdw==";

fn song(duration: i64, hash: &str) -> SongInfo {
    SongInfo {
        duration,
        hash: hash.to_string(),
    }
}

fn candidate(id: i64, key: &str) -> Candidate {
    Candidate {
        id,
        access_key: key.to_string(),
        duration: 0,
    }
}

fn hash_asked(step: &Step) -> String {
    match step {
        Step::Ask(Request::SearchByHash { hash }) => hash.clone(),
        other => panic!("no hash search: {:?}", other),
    }
}

#[test]
fn probes_in_rising_tolerance() {
    let songs = vec![song(215, "far"), song(213, "near"), song(212, "exact"), song(212, "again")];
    assert_eq!(find_probe(&songs, 212, 0, 0), Some((0, 2)));
    assert_eq!(find_probe(&songs, 212, 0, 3), Some((0, 3)));
    assert_eq!(find_probe(&songs, 212, 0, 4), Some((1, 1)));
    assert_eq!(find_probe(&songs, 212, 1, 2), Some((1, 2)));
    assert_eq!(find_probe(&songs, 212, 2, 0), Some((2, 1)));
    assert_eq!(find_probe(&songs, 212, 3, 0), Some((3, 0)));
    assert_eq!(find_probe(&songs, 212, 5, 4), None);
    assert_eq!(find_probe(&songs, 100, 0, 0), None);
    assert_eq!(find_probe(&Vec::new(), 212, 0, 0), None);
    let edge = vec![song(207, "low"), song(218, "out"), song(217, "high")];
    assert_eq!(find_probe(&edge, 212, 0, 0), Some((5, 0)));
    assert_eq!(find_probe(&edge, 212, 5, 1), Some((5, 2)));
    assert_eq!(find_probe(&vec![song(i64::MIN, "a")], i64::MAX, 0, 0), None);
}

#[test]
fn resolution_by_hash() {
    let (mut r, first) = Resolution::begin("Artist", "Title (feat. Other)", 212);
    match &first {
        Request::SearchSong { keyword } => assert_eq!(keyword, "Artist、Other - Title"),
        other => panic!("wrong first request: {:?}", other),
    }
    assert_eq!(first.url().unwrap(), "https://mobileservice.kugou.com/api/v3/search/song?version=9108&plat=0&pagesize=8&showtype=0&keyword=Artist%E3%80%81Other+-+Title");
    let step = r.advance(Reply::Songs(vec![song(214, "two off"), song(212, "exact")]));
    assert_eq!(hash_asked(&step), "exact");
    assert_eq!(r.stage, Stage::AwaitHash { tolerance: 0, index: 1 });
    let step = r.advance(Reply::Candidates(Vec::new()));
    assert_eq!(hash_asked(&step), "exact");
    assert_eq!(r.stage, Stage::AwaitHash { tolerance: 1, index: 1 });
    let step = r.advance(Reply::Candidates(Vec::new()));
    assert_eq!(hash_asked(&step), "two off");
    assert_eq!(r.stage, Stage::AwaitHash { tolerance: 2, index: 0 });
    let step = r.advance(Reply::Candidates(vec![candidate(-7, "k1"), candidate(8, "k2")]));
    match &step {
        Step::Ask(q) => {
            match q {
                Request::Download { id, access_key } => {
                    assert_eq!(*id, -7);
                    assert_eq!(access_key, "k1");
                }
                other => panic!("no download: {:?}", other),
            }
            assert_eq!(
                q.url().unwrap(),
                "https://krcs.kugou.com/download?ver=1&man=yes&client=pc&fmt=lrc&id=-7&accesskey=k1"
            );
        }
        other => panic!("no request: {:?}", other),
    }
    assert_eq!(r.stage, Stage::AwaitContent);
    match r.advance(Reply::Content(CONTENT.to_string())) {
        Step::Found(l) => assert_eq!(l.0, "[00:01.00]don't\n[00:02.00]stop\n[00:03.00]now"),
        other => panic!("not found: {:?}", other),
    }
    assert_eq!(r.stage, Stage::Finished);
}

#[test]
fn resolution_falls_back_to_the_keyword() {
    let (mut r, _) = Resolution::begin("A", "T", 100);
    let step = r.advance(Reply::Songs(vec![song(106, "x"), song(94, "y")]));
    match &step {
        Step::Ask(q) => {
            match q {
                Request::SearchByKeyword { keyword } => assert_eq!(keyword, "A - T"),
                other => panic!("no keyword search: {:?}", other),
            }
            assert_eq!(
                q.url().unwrap(),
                "https://krcs.kugou.com/search?ver=1&man=yes&client=mobi&keyword=A+-+T"
            );
        }
        other => panic!("no request: {:?}", other),
    }
    assert_eq!(r.stage, Stage::AwaitKeyword);
    assert!(matches!(r.advance(Reply::Candidates(Vec::new())), Step::NotFound));
    assert_eq!(r.stage, Stage::Finished);

    let (mut r, _) = Resolution::begin("A", "T", 100);
    let step = r.advance(Reply::Songs(Vec::new()));
    assert!(matches!(step, Step::Ask(Request::SearchByKeyword { .. })));
    let step = r.advance(Reply::Candidates(vec![candidate(5, "key")]));
    assert!(matches!(step, Step::Ask(Request::Download { id: 5, .. })));
}

#[test]
fn resolution_runs_out_of_probes() {
    let (mut r, _) = Resolution::begin("A", "T", 100);
    let mut step = r.advance(Reply::Songs(vec![song(100, "only")]));
    let mut asked = 0;
    while let Step::Ask(Request::SearchByHash { hash }) = &step {
        assert_eq!(hash, "only");
        asked += 1;
        step = r.advance(Reply::Candidates(Vec::new()));
    }
    assert_eq!(asked, 6);
    assert!(matches!(step, Step::Ask(Request::SearchByKeyword { .. })));
}

#[test]
fn resolution_failures() {
    let (mut r, _) = Resolution::begin("A", "T", u64::MAX);
    match r.advance(Reply::Songs(vec![song(1, "h")])) {
        Step::Failed(KuGouError::ParsingError(m)) => {
            assert_eq!(m, "Duration value is too large: 18446744073709551615")
        }
        other => panic!("no failure: {:?}", other),
    }
    assert_eq!(r.stage, Stage::Finished);

    let (mut r, _) = Resolution::begin("A", "T", 1);
    assert!(matches!(
        r.advance(Reply::Content(String::new())),
        Step::Failed(KuGouError::ParsingError(_))
    ));
    assert_eq!(r.stage, Stage::Finished);
    assert!(matches!(
        r.advance(Reply::Songs(Vec::new())),
        Step::Failed(KuGouError::ParsingError(_))
    ));

    let (mut r, _) = Resolution::begin("A", "T", 1);
    r.advance(Reply::Songs(Vec::new()));
    r.advance(Reply::Candidates(vec![candidate(1, "k")]));
    assert!(matches!(
        r.advance(Reply::Content("not base64!".to_string())),
        Step::Failed(KuGouError::Base64Error(_))
    ));

    let (mut r, _) = Resolution::begin("A", "T", 1);
    r.advance(Reply::Songs(Vec::new()));
    r.advance(Reply::Candidates(vec![candidate(1, "k")]));
    assert!(matches!(
        r.advance(Reply::Content("//79".to_string())),
        Step::Failed(KuGouError::ParsingError(_))
    ));
}

#[test]
fn decoding_content() {
    let text = decode_content("aGVsbG8gd29ybGQ=").unwrap().0;
    assert_eq!(text, "hello world");
    assert_ne!(text, "aGVsbG8gd29ybGQ=");
    assert_eq!(decode_content("").unwrap().0, "");
    assert!(matches!(decode_content("a"), Err(KuGouError::Base64Error(_))));
    assert!(matches!(decode_content("//79"), Err(KuGouError::ParsingError(_))));
    assert_eq!(lyrics_from_bytes(vec![0xe6, 0xad, 0x8c]).unwrap().0, "歌");
    assert!(matches!(lyrics_from_bytes(vec![0xe6, 0xad]), Err(KuGouError::ParsingError(_))));
}

#[test]
fn final_result() {
    assert_eq!(lyrics_result(Ok(Some(Lyrics("text".to_string())))).unwrap(), "text");
    assert!(matches!(lyrics_result(Ok(None)), Err(KuGouError::NotFound)));
    assert!(matches!(
        lyrics_result(Err(KuGouError::NetworkError("down".to_string()))),
        Err(KuGouError::NetworkError(_))
    ));
}

#[test]
fn request_wire_shapes() {
    let pair = |a: &str, b: &str| (a.to_string(), b.to_string());
    let q = Request::SearchByHash {
        hash: "ABC".to_string(),
    };
    assert_eq!(q.endpoint(), "https://krcs.kugou.com/search");
    assert_eq!(
        q.params(),
        vec![pair("ver", "1"), pair("man", "yes"), pair("client", "mobi"), pair("hash", "ABC")]
    );
    let d = Request::Download {
        id: i64::MIN,
        access_key: "K".to_string(),
    };
    assert_eq!(d.endpoint(), "https://krcs.kugou.com/download");
    assert_eq!(
        d.params(),
        vec![
            pair("ver", "1"),
            pair("man", "yes"),
            pair("client", "pc"),
            pair("fmt", "lrc"),
            pair("id", "-9223372036854775808"),
            pair("accesskey", "K")
        ]
    );
}

#[test]
fn a_failed_request_ends_the_resolution() {
    let (mut r, _) = Resolution::begin("A", "T", 100);
    r.advance(Reply::Songs(vec![song(100, "h")]));
    assert_eq!(r.stage, Stage::AwaitHash { tolerance: 0, index: 0 });
    match r.fail(KuGouError::NetworkError("timed out".to_string())) {
        Step::Failed(KuGouError::NetworkError(m)) => assert_eq!(m, "timed out"),
        other => panic!("no failure: {:?}", other),
    }
    assert_eq!(r.stage, Stage::Finished);
    assert!(matches!(
        r.advance(Reply::Candidates(vec![candidate(1, "k")])),
        Step::Failed(KuGouError::ParsingError(_))
    ));
    let (mut r, _) = Resolution::begin("A", "T", 100);
    assert!(matches!(
        r.fail(KuGouError::ParsingError("bad json".to_string())),
        Step::Failed(KuGouError::ParsingError(_))
    ));
    assert_eq!(r.stage, Stage::Finished);
}
