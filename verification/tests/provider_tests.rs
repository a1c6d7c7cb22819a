use vitune_core::common::{
    checked_headers, parse_headers_from_json, parse_json_from_text, ApiError, CoreError,
};
use vitune_core::github::{releases_request, GitHubError};
use vitune_core::piped::{
    checked_playlist_id, uploader_among, value_of_key, video_get_duration_ms, video_get_id,
    video_get_uploader_id, PipedError, PlaylistVideo,
};
use vitune_core::sponsorblock::{Action, Category, SponsorBlockApi};
use vitune_core::translate::{after_failure, translate_query, Failure, Language, Retry, TranslateError};
use vitune_core::web::address_with;

fn pair(a: &str, b: &str) -> (String, String) {
    (a.to_string(), b.to_string())
}

#[test]
fn test_parse_json_success() {
    let json = r#"{"id": 1, "name": "Test"}"#;
    let result = parse_json_from_text(json, "test_success");
    assert!(result.is_ok());
}

#[test]
fn test_parse_json_error() {
    let json = r#"{id: 1, name: "Test"}"#;
    let result = parse_json_from_text(json, "test_error");
    assert!(result.is_err());
}

#[test]
fn parsed_json_holds_the_fields() {
    let value = parse_json_from_text(r#"{"id": 1, "name": "Test"}"#, "fields").unwrap();
    assert_eq!(value["id"].as_i64(), Some(1));
    assert_eq!(value["name"].as_str(), Some("Test"));
    assert!(matches!(parse_json_from_text("", "empty"), Err(CoreError::Parse(_))));
}

#[test]
fn api_errors() {
    let shown = |e: CoreError| match ApiError::from_core(e) {
        ApiError::RequestError(m) => format!("request: {}", m),
        ApiError::ParseError(m) => format!("parse: {}", m),
    };
    assert_eq!(shown(CoreError::Network("down".to_string())), "request: down");
    assert_eq!(shown(CoreError::UrlParse("bad".to_string())), "request: bad");
    assert_eq!(
        shown(CoreError::InvalidMethod("GOT".to_string())),
        "request: Invalid Method: GOT"
    );
    assert_eq!(
        shown(CoreError::InvalidHeader("x".to_string())),
        "request: Header error: x"
    );
    assert_eq!(shown(CoreError::Parse("eof".to_string())), "parse: eof");
}

fn mock_video(url: &str, uploader_url: &str) -> PlaylistVideo {
    PlaylistVideo {
        url: url.to_string(),
        title: "".to_string(),
        thumbnail_url: "".to_string(),
        uploader_name: "".to_string(),
        uploader_url: uploader_url.to_string(),
        uploader_avatar_url: "".to_string(),
        duration_seconds: 0,
    }
}

#[test]
fn test_video_id_parser_robust() {
    let video1 = mock_video("/watch?v=dQw4w9WgXcQ", "");
    assert_eq!(video_get_id(video1), Some("dQw4w9WgXcQ".to_string()));

    let video2 = mock_video("https://www.youtube.com/watch?list=...&v=abcdef123&t=1", "");
    assert_eq!(video_get_id(video2), Some("abcdef123".to_string()));

    let video3 = mock_video("/w?v=123", "");
    assert_eq!(video_get_id(video3), Some("123".to_string()));

    let video4 = mock_video("https://example.com", "");
    assert_eq!(video_get_id(video4), None);

    let video5 = mock_video("/watch?list=123", "");
    assert_eq!(video_get_id(video5), None);
}

#[test]
fn test_uploader_id_parser_robust() {
    let video1 = mock_video("", "/channel/UC-lHJZR3Gqxm24_Vd_AJ5Yw");
    assert_eq!(
        video_get_uploader_id(video1),
        Some("UC-lHJZR3Gqxm24_Vd_AJ5Yw".to_string())
    );

    let video2 = mock_video("", "/user/Username123");
    assert_eq!(video_get_uploader_id(video2), Some("Username123".to_string()));

    let video3 = mock_video("", "https://www.youtube.com/channel/UC-lHJZR3Gqxm24_Vd_AJ5Yw/videos");
    assert_eq!(
        video_get_uploader_id(video3),
        Some("UC-lHJZR3Gqxm24_Vd_AJ5Yw".to_string())
    );

    let video4 = mock_video("", "/channel/");
    assert_eq!(video_get_uploader_id(video4), None);

    let video5 = mock_video("", "https://example.com/not_channel/id");
    assert_eq!(video_get_uploader_id(video5), None);
}

#[test]
fn piped_helpers() {
    let pairs = vec![pair("list", "1"), pair("v", "first"), pair("v", "second")];
    assert_eq!(value_of_key(&pairs, "v"), Some("first".to_string()));
    assert_eq!(value_of_key(&pairs, "t"), None);
    let segments = |l: &[&str]| l.iter().map(|s| s.to_string()).collect::<Vec<String>>();
    assert_eq!(
        uploader_among(&segments(&["", "user", "", "me", "videos"])),
        Some("me".to_string())
    );
    assert_eq!(uploader_among(&segments(&["channel"])), None);
    assert_eq!(uploader_among(&segments(&["c", "channel", "id"])), None);
    let mut video = mock_video("", "");
    video.duration_seconds = 212;
    assert_eq!(video_get_duration_ms(video), 212_000);
}

#[test]
fn addresses() {
    let params = vec![pair("keyword", "a b&c=é"), pair("n", "1")];
    assert_eq!(
        address_with("https://example.com/search", &params).unwrap(),
        "https://example.com/search?keyword=a+b%26c%3D%C3%A9&n=1"
    );
    assert_eq!(address_with("https://example.com/s#top", &params), None);
    assert_eq!(address_with("not an address", &params), None);
}

#[test]
fn releases_requests() {
    let (address, query) = releases_request("rust-lang", "rust", 3, 30).unwrap();
    assert_eq!(address, "https://api.github.com/repos/rust-lang/rust/releases");
    assert_eq!(query, vec![pair("per_page", "30"), pair("page", "3")]);
    assert!(matches!(
        releases_request("test", "test", 0, 30),
        Err(GitHubError::InvalidPagination)
    ));
    assert!(matches!(
        releases_request("test", "test", 1, -1),
        Err(GitHubError::InvalidPagination)
    ));
}

#[test]
fn segment_queries() {
    let api = SponsorBlockApi;
    assert_eq!(
        api.segments_query("jNQXAC9IVRw", None, None, None),
        vec![
            pair("videoID", "jNQXAC9IVRw"),
            pair("service", "YouTube"),
            pair("category", "sponsor"),
            pair("category", "music_offtopic"),
            pair("category", "poi_highlight"),
            pair("action", "skip"),
            pair("action", "poi"),
        ]
    );
    assert_eq!(
        api.segments_query(
            "id",
            Some(vec![Category::Filler]),
            Some(Vec::new()),
            Some(vec!["s1".to_string(), "s2".to_string()])
        ),
        vec![
            pair("videoID", "id"),
            pair("service", "YouTube"),
            pair("category", "filler"),
            pair("requiredSegment", "s1"),
            pair("requiredSegment", "s2"),
        ]
    );
    let names: Vec<&str> = vec![
        Category::Sponsor,
        Category::SelfPromotion,
        Category::Interaction,
        Category::Intro,
        Category::Outro,
        Category::Preview,
        Category::OfftopicMusic,
        Category::Filler,
        Category::PoiHighlight,
    ]
    .iter()
    .map(|c| c.serial_name())
    .collect();
    assert_eq!(
        names,
        vec![
            "sponsor",
            "selfpromo",
            "interaction",
            "intro",
            "outro",
            "preview",
            "music_offtopic",
            "filler",
            "poi_highlight"
        ]
    );
    let actions: Vec<&str> = vec![Action::Skip, Action::Mute, Action::Full, Action::POI, Action::Chapter]
        .iter()
        .map(|a| a.serial_name())
        .collect();
    assert_eq!(actions, vec!["skip", "mute", "full", "poi", "chapter"]);
}

#[test]
fn test_language_code() {
    assert_eq!(Language::English.code(), "en");
    assert_eq!(Language::ChineseSimplified.code(), "zh-cn");
    assert_eq!(Language::Auto.code(), "auto");
}

#[test]
fn test_target_language_auto_is_error() {
    let result = translate_query("Hello", Language::English, Language::Auto);
    assert!(matches!(result, Err(TranslateError::TargetLanguageAuto)));
}

#[test]
fn translation_queries_and_retries() {
    let q = translate_query("Hello, world", Language::Auto, Language::French).unwrap();
    assert_eq!(q.len(), 20);
    assert_eq!(q[0], pair("client", "gtx"));
    assert_eq!(q[6], pair("sl", "auto"));
    assert_eq!(q[7], pair("tl", "fr"));
    assert_eq!(q[8], pair("hl", "fr"));
    assert_eq!(q[9], pair("q", "Hello, world"));
    let kinds: Vec<&str> = q[10..].iter().map(|p| p.1.as_str()).collect();
    assert_eq!(kinds, vec!["at", "bd", "ex", "ld", "md", "qca", "rw", "rm", "ss", "t"]);
    assert!(q[10..].iter().all(|p| p.0 == "dt"));

    assert_eq!(after_failure(0, Failure::Other), Retry::After { delay_ms: 200, retries: 1 });
    assert_eq!(after_failure(1, Failure::ServerStatus), Retry::After { delay_ms: 400, retries: 2 });
    assert_eq!(after_failure(2, Failure::Other), Retry::GiveUp);
    assert_eq!(after_failure(0, Failure::ClientStatus), Retry::GiveUp);
    assert_eq!(after_failure(u32::MAX, Failure::ServerStatus), Retry::GiveUp);
}

#[test]
fn playlist_ids_must_be_uuids() {
    assert!(checked_playlist_id("a1b2c3d4-e5f6-7890-1234-567890abcdef").is_ok());
    assert!(checked_playlist_id("a1b2c3d4e5f678901234567890abcdef").is_ok());
    match checked_playlist_id("my playlist") {
        Err(PipedError::Api(message)) => {
            assert!(!message.is_empty());
            assert_ne!(message, "my playlist");
        }
        other => panic!("no API error: {:?}", other),
    }
    assert!(matches!(
        checked_playlist_id("a1b2c3d4-e5f6-7890-1234-567890abcdeg"),
        Err(PipedError::Api(_))
    ));
}

#[test]
fn headers_from_json() {
    assert_eq!(parse_headers_from_json(None).unwrap(), Vec::new());
    let mut read = parse_headers_from_json(Some(
        r#"{ "Accept": "text/plain", "X-Token": "abc def" }"#.to_string(),
    ))
    .unwrap();
    read.sort();
    assert_eq!(read, vec![pair("Accept", "text/plain"), pair("X-Token", "abc def")]);
    match parse_headers_from_json(Some("{ not valid json }".to_string())) {
        Err(CoreError::InvalidHeader(m)) => assert!(m.contains("Failed to parse JSON headers")),
        other => panic!("Wrong result: {:?}", other),
    }
    match parse_headers_from_json(Some(r#"{ "Valid-Name": "invalid\nvalue" }"#.to_string())) {
        Err(CoreError::InvalidHeader(m)) => {
            assert!(m.contains("Invalid header value"));
            assert!(m.starts_with("Invalid header value for Valid-Name: "));
        }
        other => panic!("Wrong result: {:?}", other),
    }
    match parse_headers_from_json(Some(r#"{ "bad name": "v" }"#.to_string())) {
        Err(CoreError::InvalidHeader(m)) => {
            assert!(m.starts_with("Invalid header name (bad name): "))
        }
        other => panic!("Wrong result: {:?}", other),
    }
    assert!(parse_headers_from_json(Some(r#"{ "n": 1 }"#.to_string())).is_err());
}

#[test]
fn first_faulty_header_is_reported() {
    let headers = vec![pair("Ok", "fine"), pair("bad name", "bad\nvalue"), pair("", "x")];
    match checked_headers(&headers) {
        Err(CoreError::InvalidHeader(m)) => {
            assert!(m.starts_with("Invalid header name (bad name): "))
        }
        other => panic!("Wrong result: {:?}", other),
    }
    assert!(checked_headers(&vec![pair("A", "b"), pair("C", "d\te")]).is_ok());
    match checked_headers(&vec![pair("A", "b"), pair("C", "d\u{7f}")]) {
        Err(CoreError::InvalidHeader(m)) => assert!(m.starts_with("Invalid header value for C: ")),
        other => panic!("Wrong result: {:?}", other),
    }
}

#[test]
fn header_value_faults_have_one_message() {
    for bad in ["a\nb", "\u{7f}", "x\u{0}", "\u{1f}"] {
        match checked_headers(&vec![pair("Name", bad)]) {
            Err(CoreError::InvalidHeader(m)) => {
                assert_eq!(m, "Invalid header value for Name: failed to parse header value")
            }
            other => panic!("Wrong result: {:?}", other),
        }
    }
    for good in ["", " ", "a\tb", "~", "\u{80}", "\u{e9}\u{6b4c}"] {
        assert!(checked_headers(&vec![pair("Name", good)]).is_ok(), "value {:?}", good);
    }
}
