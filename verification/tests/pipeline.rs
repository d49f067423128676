use mpd_lyricsd::default_lyrics_providers;
use mpd_lyricsd::dispatch::{
    after_search, cache_file_name, finish_resolution, should_resolve, write_payload, LyricsResult,
    ResolveError, SearchStep,
};
use mpd_lyricsd::extract::{extract_hydration_json, ExtractError};
use mpd_lyricsd::detect::{ChangeDecision, ChangeDetector, TrackIdentity};
use mpd_lyricsd::render::render_lyrics;
use mpd_lyricsd::search::{search_query, select_song_url, SearchHit};
use mpd_lyricsd::text::unescape_hydration;
use mpd_lyricsd::LyricsProvider;

fn hit(kind: &str, url: &str) -> SearchHit {
    SearchHit {
        kind: kind.to_string(),
        url: url.to_string(),
    }
}

#[test]
fn default_provider_is_genius() {
    let providers = default_lyrics_providers();
    assert_eq!(providers.len(), 1);
    assert!(matches!(providers[0], LyricsProvider::Genius));
}

#[test]
fn query_is_artist_space_title() {
    assert_eq!(search_query("Some Artist", "Some Title"), "Some Artist Some Title");
}

#[test]
fn cache_name_is_artist_dash_title_txt() {
    assert_eq!(cache_file_name("Some Artist", "Some Title"), "Some Artist - Some Title.txt");
}

#[test]
fn first_song_hit_wins() {
    let hits = vec![hit("album", "X"), hit("song", "A"), hit("song", "B")];
    assert_eq!(select_song_url(&hits), Some("A".to_string()));
}

#[test]
fn no_song_hit_is_no_match() {
    let hits = vec![hit("album", "X"), hit("artist", "Y")];
    assert_eq!(select_song_url(&hits), None);
    assert_eq!(select_song_url(&Vec::new()), None);
}

#[test]
fn unescape_single_escapes() {
    assert_eq!(unescape_hydration(r#"\$"#), "$");
    assert_eq!(unescape_hydration(r#"\""#), "\"");
    assert_eq!(unescape_hydration(r#"\'"#), "'");
    assert_eq!(unescape_hydration(r#"\\"#), "\\");
}

#[test]
fn unescape_order_keeps_doubled_backslash_before_dollar() {
    // `\\\$` encodes a literal backslash followed by a dollar: the dollar
    // rule must fire before the backslash collapse.
    assert_eq!(unescape_hydration(r#"\\\$"#), r#"\$"#);
}

#[test]
fn unescape_inverts_page_escaping() {
    let doc = r#"{"a":"$1 \ 'q'"}"#;
    let escaped = r#"{\"a\":\"\$1 \\ \'q\'\"}"#;
    assert_eq!(unescape_hydration(escaped), doc);
}

#[test]
fn renderer_inserts_no_separators() {
    assert_eq!(render_lyrics("<p>Line one<br>Line two</p>"), "Line oneLine two");
}

#[test]
fn renderer_trims_edges_only() {
    assert_eq!(render_lyrics("<p>  Lyrics  </p>"), "Lyrics");
    assert_eq!(render_lyrics("<p>a  b</p>"), "a  b");
}

#[test]
fn extract_recovers_unescaped_payload() {
    let page = "<html><body><script>window.__PRELOADED_STATE__ = JSON.parse('{\\\"songPage\\\":{\\\"x\\\":1}}')</script></body></html>";
    assert_eq!(
        extract_hydration_json(page),
        Ok("{\"songPage\":{\"x\":1}}".to_string())
    );
}

#[test]
fn extract_tolerates_missing_spaces() {
    let page = "window.__PRELOADED_STATE__=JSON.parse('{}')";
    assert_eq!(extract_hydration_json(page), Ok("{}".to_string()));
}

#[test]
fn extract_capture_is_greedy_on_its_line() {
    let page = "window.__PRELOADED_STATE__ = JSON.parse('abc')def')";
    assert_eq!(extract_hydration_json(page), Ok("abc')def".to_string()));
}

#[test]
fn extract_capture_does_not_cross_lines() {
    let page = "window.__PRELOADED_STATE__ = JSON.parse('abc\n')";
    assert_eq!(
        extract_hydration_json(page),
        Err(ExtractError::MarkerMissing)
    );
}

#[test]
fn extract_first_assignment_wins() {
    let page = "window.__PRELOADED_STATE__ = JSON.parse('first')\nwindow.__PRELOADED_STATE__ = JSON.parse('second')";
    assert_eq!(extract_hydration_json(page), Ok("first".to_string()));
}

#[test]
fn extract_skips_assignment_without_close() {
    let page = "window.__PRELOADED_STATE__ = JSON.parse('no close\nwindow.__PRELOADED_STATE__ = JSON.parse('x')";
    assert_eq!(extract_hydration_json(page), Ok("x".to_string()));
}

#[test]
fn extract_without_marker_fails() {
    let page = "<html><body>no hydration here</body></html>";
    assert_eq!(
        extract_hydration_json(page),
        Err(ExtractError::MarkerMissing)
    );
}

#[test]
fn detector_fires_once_per_track_run() {
    let mut detector = ChangeDetector::new();
    let ev = || (Some("Artist".to_string()), Some("Title".to_string()));
    let (a, t) = ev();
    assert_eq!(detector.observe(a, t), ChangeDecision::Fire);
    let (a, t) = ev();
    assert_eq!(detector.observe(a, t), ChangeDecision::SameAsPrevious);
    let (a, t) = ev();
    assert_eq!(detector.observe(a, t), ChangeDecision::SameAsPrevious);
    assert_eq!(
        detector.observe(Some("Artist".to_string()), Some("Other".to_string())),
        ChangeDecision::Fire
    );
}

#[test]
fn detector_ignores_missing_metadata() {
    let mut detector = ChangeDetector::new();
    assert_eq!(
        detector.observe(Some("Artist".to_string()), Some("Title".to_string())),
        ChangeDecision::Fire
    );
    assert_eq!(
        detector.observe(None, Some("Title".to_string())),
        ChangeDecision::MissingMetadata
    );
    assert_eq!(
        detector.observe(Some("Artist".to_string()), None),
        ChangeDecision::MissingMetadata
    );
    // The remembered track is unchanged by the malformed events.
    assert_eq!(
        detector.observe(Some("Artist".to_string()), Some("Title".to_string())),
        ChangeDecision::SameAsPrevious
    );
}

#[test]
fn track_identity_is_exact_equality() {
    let a = TrackIdentity {
        artist: "A".to_string(),
        title: "T".to_string(),
    };
    let b = TrackIdentity {
        artist: "A".to_string(),
        title: "T".to_string(),
    };
    let c = TrackIdentity {
        artist: "a".to_string(),
        title: "T".to_string(),
    };
    assert!(a == b);
    assert!(a != c);
}

#[test]
fn cache_hit_skips_resolution() {
    assert!(!should_resolve(true));
    assert!(should_resolve(false));
}

#[test]
fn only_found_writes_a_file() {
    let found = LyricsResult::Found("la la".to_string());
    assert_eq!(write_payload(&found), Some(&"la la".to_string()));
    assert_eq!(write_payload(&LyricsResult::NotFound), None);
    let err = LyricsResult::Error(ResolveError::Transport("down".to_string()));
    assert_eq!(write_payload(&err), None);
}

#[test]
fn search_outcome_decides_the_attempt() {
    let step = after_search(Ok(Some("https://example.com/a".to_string())));
    assert!(matches!(step, SearchStep::FetchPage(u) if u == "https://example.com/a"));
    let step = after_search(Ok(None));
    assert!(matches!(step, SearchStep::Done(LyricsResult::NotFound)));
    let step = after_search(Err(ResolveError::ProviderApi("bad shape".to_string())));
    assert!(matches!(
        step,
        SearchStep::Done(LyricsResult::Error(ResolveError::ProviderApi(d))) if d == "bad shape"
    ));
}

#[test]
fn fragment_renders_into_found() {
    let r = finish_resolution(Ok("<p>  Hey  </p>".to_string()));
    assert!(matches!(r, LyricsResult::Found(t) if t == "Hey"));
    let r = finish_resolution(Err(ResolveError::Extraction("format drift".to_string())));
    assert!(matches!(r, LyricsResult::Error(ResolveError::Extraction(d)) if d == "format drift"));
}

#[test]
fn extraction_failures_are_described_distinctly() {
    assert_eq!(ExtractError::MarkerMissing.describe(), "hydration marker missing");
    assert_eq!(
        ExtractError::PayloadInvalid.describe(),
        "hydration payload undecodable"
    );
}

#[test]
fn error_detail_is_kept() {
    let e = ResolveError::Extraction("marker missing".to_string());
    assert_eq!(e.detail().as_str(), "marker missing");
}

#[test]
fn failed_extraction_poisons_nothing() {
    // A page without the hydration marker ends the attempt in an error and
    // writes nothing; the next, different track still fires normally.
    let mut detector = ChangeDetector::new();
    assert_eq!(
        detector.observe(Some("A".to_string()), Some("One".to_string())),
        ChangeDecision::Fire
    );
    let page = "<html><body>format changed upstream</body></html>";
    let extracted = extract_hydration_json(page);
    assert_eq!(extracted, Err(ExtractError::MarkerMissing));
    let result = finish_resolution(Err(ResolveError::Extraction(
        "hydration marker missing".to_string(),
    )));
    assert!(matches!(&result, LyricsResult::Error(_)));
    assert_eq!(write_payload(&result), None);
    assert_eq!(
        detector.observe(Some("A".to_string()), Some("Two".to_string())),
        ChangeDecision::Fire
    );
}
