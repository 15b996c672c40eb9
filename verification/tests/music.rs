use homepage::page::music::{
    after_failure, arrange, artwork_of, front_image, generate_body, generate_html,
    generate_release_element, is_transient, join, mark, names_release, pause_before_fetch,
    precedes, read_lateness,
    read_order,
    reconcile, release_of, render, retain_recommended, sort_by_title, CoverArt, CoverImage,
    Fetched, Order, Recommendation, Release, PATH, TRIES, WAIT_SECONDS,
};
use homepage::page::sync::{Outcome, Sync};
use homepage::style::CSS;

fn release(rgid: &str, title: &str, artist: Option<&str>, date: Option<&str>, highly: bool) -> Release {
    Release {
        rgid: rgid.to_string(),
        highly,
        title: title.to_string(),
        artwork: None,
        release_date: date.map(|d| d.to_string()),
        artist_credit: artist.map(|a| a.to_string()),
        genres: Vec::new(),
    }
}

fn rec(release: &str, highly: bool) -> Recommendation {
    Recommendation { release: release.to_string(), highly }
}

fn titles(releases: &[&Release]) -> Vec<String> {
    releases.iter().map(|r| r.title.clone()).collect()
}

#[test]
fn join_puts_the_separator_between() {
    assert_eq!(join(&Vec::new(), ", "), "");
    assert_eq!(join(&vec!["rock".to_string()], ", "), "rock");
    assert_eq!(join(&vec!["rock".to_string(), "jazz".to_string(), "pop".to_string()], ", "), "rock, jazz, pop");
}

#[test]
fn release_element_with_everything() {
    let release = Release {
        rgid: "abc-123".to_string(),
        highly: true,
        title: "Album".to_string(),
        artwork: Some("http://img/1.jpg".to_string()),
        release_date: Some("1999-05".to_string()),
        artist_credit: Some("Band".to_string()),
        genres: vec!["rock".to_string(), "jazz".to_string()],
    };
    assert_eq!(
        generate_release_element(&release),
        "<li>\n<div class=\"album-grid-container\">\n<img src=\"http://img/1.jpg\" />\n<div class=\"album-grid-info\">\n<div class=\"label\"><strong>MBID:</strong></div><a style=\"hyphens: manual; overflow-wrap: anywhere;\" href=https://musicbrainz.org/release-group/abc-123>abc-123</a>\n<div class=\"label\"><strong>Artist:</strong></div><div>Band</div>\n<div class=\"label\"><strong>Album:</strong></div><div>Album</div>\n<div class=\"label\"><strong>Release Date:</strong></div><div>1999-05</div>\n<div class=\"label\"><strong>Genres:</strong></div><div>rock, jazz</div>\n</div>\n</div>\n</li>\n"
    );
}

#[test]
fn release_element_with_the_least() {
    let release = release("id", "T", None, None, false);
    assert_eq!(
        generate_release_element(&release),
        "<li>\n<div class=\"album-grid-container\">\n<div class=\"album-grid-info\">\n<div class=\"label\"><strong>MBID:</strong></div><a style=\"hyphens: manual; overflow-wrap: anywhere;\" href=https://musicbrainz.org/release-group/id>id</a>\n<div class=\"label\"><strong>Album:</strong></div><div>T</div>\n<div class=\"label\"><strong>Genres:</strong></div><div></div>\n</div>\n</div>\n</li>\n"
    );
}

#[test]
fn body_splits_by_recommendation() {
    let a = release("a", "A", None, None, false);
    let b = release("b", "B", None, None, true);
    let c = release("c", "C", None, None, false);
    let body = generate_body(&vec![&a, &b, &c]);
    let expected = format!(
        "<div class=\"music-nav\">\n<div class=\"label\" style=\"display: inline-block\">Sort by:</div>\n<a class=\"button\" href=\"/music/?sort=artist\">Artist</a>\n<a class=\"button\" href=\"/music/?sort=title\">Album</a>\n<a class=\"button\" href=\"/music/?sort=release_date\">Release Date (Decending)</a>\n</div>\n<h2>Highly Recommended</h2>\n<ul id=\"highly-recommended\" class=\"recommendation-list\">\n{}</ul>\n<h2>Recommended</h2>\n<ul id=\"recommended\" class=\"recommendation-list\">\n{}{}</ul>\n",
        generate_release_element(&b),
        generate_release_element(&a),
        generate_release_element(&c)
    );
    assert_eq!(body, expected);
}

#[test]
fn page_of_no_release() {
    let html = generate_html(&Vec::new(), "<nav></nav>");
    let expected = format!(
        "<!DOCTYPE html>\n<html lang=\"en-US\">\n\n         <head>\n         <meta charset=\"utf-8\" />\n         <meta name=\"viewport\" content=\"width=device-width, initial-scale=1\">\n         <title>Recommendations</title>\n         <meta property=\"og:title\" content=\"Recommendations\" />\n         <style>\n         {}\n         </style>\n         </head>\n    \n<nav></nav><div id=\"music-page-contents\">{}</div>\n</html>\n",
        CSS,
        generate_body(&Vec::new())
    );
    assert_eq!(html, expected);
    assert_eq!(PATH, "/music");
}

#[test]
fn order_names() {
    assert!(matches!(read_order(Some("title")), Some(Order::Title)));
    assert!(matches!(read_order(Some("artist")), Some(Order::Artist)));
    assert!(matches!(read_order(Some("release_date")), Some(Order::ReleaseDate)));
    assert!(read_order(Some("Title")).is_none());
    assert!(read_order(Some("")).is_none());
    assert!(read_order(None).is_none());
}

#[test]
fn arrange_by_title_is_stable() {
    let releases = vec![
        release("1", "b", Some("x"), None, false),
        release("2", "a", Some("second a"), None, false),
        release("3", "c", None, None, false),
        release("4", "a", Some("later a"), None, false),
        release("5", "B", None, None, false),
    ];
    let sorted = arrange(&releases, Order::Title);
    assert_eq!(titles(&sorted), vec!["B", "a", "a", "b", "c"]);
    assert_eq!(sorted[1].rgid, "2");
    assert_eq!(sorted[2].rgid, "4");
    let mut expected: Vec<&Release> = releases.iter().collect();
    expected.sort_by(|a, b| a.title.cmp(&b.title));
    let ids: Vec<&str> = sorted.iter().map(|r| r.rgid.as_str()).collect();
    let expected_ids: Vec<&str> = expected.iter().map(|r| r.rgid.as_str()).collect();
    assert_eq!(ids, expected_ids);
}

#[test]
fn arrange_by_artist_puts_the_unknown_first() {
    let releases = vec![
        release("1", "t1", Some("Zed"), None, false),
        release("2", "t2", None, None, false),
        release("3", "t3", Some("Abe"), None, false),
        release("4", "t4", Some("Ab"), None, false),
        release("5", "t5", Some("\u{e9}cole"), None, false),
    ];
    let sorted = arrange(&releases, Order::Artist);
    let ids: Vec<&str> = sorted.iter().map(|r| r.rgid.as_str()).collect();
    assert_eq!(ids, vec!["2", "4", "3", "1", "5"]);
    let mut expected: Vec<&Release> = releases.iter().collect();
    expected.sort_by(|a, b| a.artist_credit.cmp(&b.artist_credit));
    let expected_ids: Vec<&str> = expected.iter().map(|r| r.rgid.as_str()).collect();
    assert_eq!(ids, expected_ids);
}

#[test]
fn arrange_by_date_puts_the_latest_first() {
    let releases = vec![
        release("1", "t1", None, Some("1999-05-03"), false),
        release("2", "t2", None, None, false),
        release("3", "t3", None, Some("2001"), false),
        release("4", "t4", None, Some("2001-01-01"), false),
        release("5", "t5", None, Some("nonsense"), false),
        release("6", "t6", None, Some("2001-02"), false),
    ];
    let sorted = arrange(&releases, Order::ReleaseDate);
    let ids: Vec<&str> = sorted.iter().map(|r| r.rgid.as_str()).collect();
    assert_eq!(ids, vec!["6", "3", "4", "1", "5", "2"]);
}

#[test]
fn lateness_of_dates() {
    assert_eq!(read_lateness(&None), (0, 0));
    assert_eq!(read_lateness(&Some("nonsense".to_string())), (1, 0));
    assert_eq!(read_lateness(&Some("2001-13-01".to_string())), (1, 0));
    assert_eq!(read_lateness(&Some("0001-01-01".to_string())), (2, 1));
    assert_eq!(read_lateness(&Some("1970-01-01".to_string())), (2, 719163));
    assert_eq!(read_lateness(&Some("1970".to_string())), (2, 719163));
    assert_eq!(read_lateness(&Some("1970-02".to_string())), (2, 719194));
    assert_eq!(read_lateness(&Some("".to_string())), (2, 1));
    assert_eq!(read_lateness(&Some("????-03".to_string())), (2, 60));
}

#[test]
fn precedes_on_pairs() {
    let a = release("1", "a", Some("x"), Some("2000"), false);
    let b = release("2", "b", None, Some("2010"), false);
    assert!(precedes(Order::Title, &a, &b));
    assert!(!precedes(Order::Title, &b, &a));
    assert!(precedes(Order::Title, &a, &a));
    assert!(!precedes(Order::Artist, &a, &b));
    assert!(precedes(Order::Artist, &b, &a));
    assert!(!precedes(Order::ReleaseDate, &a, &b));
    assert!(precedes(Order::ReleaseDate, &b, &a));
}

#[test]
fn sort_by_title_of_owned_releases() {
    let sorted = sort_by_title(vec![
        release("1", "beta", None, None, false),
        release("2", "alpha", None, None, false),
        release("3", "beta", None, None, true),
        release("4", "", None, None, false),
    ]);
    let ids: Vec<&str> = sorted.iter().map(|r| r.rgid.as_str()).collect();
    assert_eq!(ids, vec!["4", "2", "1", "3"]);
}

#[test]
fn render_sorts_as_asked() {
    let releases = vec![
        release("1", "b", Some("y"), None, false),
        release("2", "a", Some("z"), None, false),
    ];
    let kept = render(&releases, None, "");
    let by_title = render(&releases, Some("title"), "");
    let by_artist = render(&releases, Some("artist"), "");
    let unknown = render(&releases, Some("size"), "");
    assert_eq!(kept, generate_html(&vec![&releases[0], &releases[1]], ""));
    assert_eq!(by_title, generate_html(&vec![&releases[1], &releases[0]], ""));
    assert_eq!(by_artist, kept);
    assert_eq!(unknown, kept);
    assert_ne!(by_title, kept);
}

#[test]
fn retain_drops_what_is_not_recommended() {
    let recs = vec![rec("a", false), rec("c", true)];
    let kept = retain_recommended(
        vec![
            release("a", "A", None, None, false),
            release("b", "B", None, None, false),
            release("c", "C", None, None, false),
            release("a", "A again", None, None, false),
        ],
        &recs,
    );
    let titles: Vec<&str> = kept.iter().map(|r| r.title.as_str()).collect();
    assert_eq!(titles, vec!["A", "C", "A again"]);
    assert!(names_release(&recs, "a"));
    assert!(!names_release(&recs, "b"));
    assert!(!names_release(&Vec::new(), "a"));
}

#[test]
fn mark_sets_the_first_match_only() {
    let mut releases = vec![
        release("a", "A", None, None, false),
        release("b", "B", None, None, false),
        release("b", "B again", None, None, false),
    ];
    assert!(mark(&mut releases, &rec("b", true)));
    assert!(!releases[0].highly);
    assert!(releases[1].highly);
    assert!(!releases[2].highly);
    assert!(!mark(&mut releases, &rec("z", true)));
    assert!(mark(&mut releases, &rec("b", false)));
    assert!(!releases[1].highly);
}

#[test]
fn reconcile_stops_at_what_is_to_fetch() {
    let recs = vec![rec("a", true), rec("b", false), rec("new", true), rec("c", true), rec("new", false)];
    let mut releases = vec![
        release("a", "A", None, None, false),
        release("b", "B", None, None, true),
        release("c", "C", None, None, false),
    ];
    let next = reconcile(&mut releases, &recs, 0);
    assert_eq!(next, 2);
    assert!(releases[0].highly);
    assert!(!releases[1].highly);
    assert!(!releases[2].highly);
    let fetched = Fetched {
        title: "New".to_string(),
        first_release_date: Some("2020".to_string()),
        artists: vec!["One".to_string(), "Two".to_string()],
        genres: vec!["g".to_string()],
    };
    releases.push(release_of(&recs[next], fetched, Some("art".to_string())));
    let end = reconcile(&mut releases, &recs, next + 1);
    assert_eq!(end, recs.len());
    assert!(releases[2].highly);
    assert_eq!(releases[3].rgid, "new");
    assert_eq!(releases[3].title, "New");
    assert_eq!(releases[3].artist_credit.as_deref(), Some("One"));
    assert_eq!(releases[3].artwork.as_deref(), Some("art"));
    assert_eq!(releases[3].release_date.as_deref(), Some("2020"));
    assert_eq!(releases[3].genres, vec!["g".to_string()]);
    assert!(!releases[3].highly);
    assert_eq!(reconcile(&mut releases, &recs, recs.len()), recs.len());
    assert_eq!(reconcile(&mut releases, &recs, recs.len() + 3), recs.len());
}

#[test]
fn release_without_artists_has_no_credit() {
    let fetched = Fetched {
        title: "T".to_string(),
        first_release_date: None,
        artists: Vec::new(),
        genres: Vec::new(),
    };
    let release = release_of(&rec("id", true), fetched, None);
    assert!(release.artist_credit.is_none());
    assert!(release.highly);
    assert!(release.artwork.is_none());
}

#[test]
fn artwork_is_the_first_front_picture() {
    let images = vec![
        CoverImage { front: false, image: "back".to_string() },
        CoverImage { front: true, image: "front".to_string() },
        CoverImage { front: true, image: "other front".to_string() },
    ];
    assert_eq!(front_image(&images).as_deref(), Some("front"));
    assert_eq!(artwork_of(&CoverArt::Images(images)).as_deref(), Some("front"));
    assert_eq!(artwork_of(&CoverArt::Url("direct".to_string())).as_deref(), Some("direct"));
    assert!(artwork_of(&CoverArt::Images(Vec::new())).is_none());
    assert!(front_image(&vec![CoverImage { front: false, image: "back".to_string() }]).is_none());
}

#[test]
fn transient_failures() {
    assert!(is_transient(Some(503), false, true));
    assert!(is_transient(None, true, false));
    assert!(!is_transient(Some(404), false, true));
    assert!(!is_transient(Some(500), true, true));
    assert!(!is_transient(None, false, false));
}

#[test]
fn tries_run_out_below_zero() {
    assert_eq!(TRIES, 3);
    assert_eq!(WAIT_SECONDS, 4);
    assert_eq!(after_failure(3, true), Some(2));
    assert_eq!(after_failure(0, true), Some(-1));
    assert_eq!(after_failure(-1, true), None);
    assert_eq!(after_failure(3, false), None);
    let mut tries = TRIES;
    let mut attempts = 1;
    while let Some(left) = after_failure(tries, true) {
        tries = left;
        attempts += 1;
    }
    assert_eq!(attempts, 5);
}

fn fetched(title: &str) -> Outcome {
    Outcome::Fetched {
        fetched: Fetched {
            title: title.to_string(),
            first_release_date: None,
            artists: vec!["Artist".to_string()],
            genres: Vec::new(),
        },
        artwork: None,
    }
}

#[test]
fn pause_is_what_has_passed_below_the_wait() {
    assert_eq!(pause_before_fetch(0), 0);
    assert_eq!(pause_before_fetch(1), 1);
    assert_eq!(pause_before_fetch(3999), 3999);
    assert_eq!(pause_before_fetch(4000), 0);
    assert_eq!(pause_before_fetch(u64::MAX), 0);
}

#[test]
fn duplicate_copies_every_field() {
    let release = Release {
        rgid: "id".to_string(),
        highly: true,
        title: "T".to_string(),
        artwork: Some("art".to_string()),
        release_date: Some("2001".to_string()),
        artist_credit: Some("A".to_string()),
        genres: vec!["g1".to_string(), "g2".to_string()],
    };
    let copy = release.duplicate();
    assert_eq!(copy.rgid, "id");
    assert!(copy.highly);
    assert_eq!(copy.title, "T");
    assert_eq!(copy.artwork.as_deref(), Some("art"));
    assert_eq!(copy.release_date.as_deref(), Some("2001"));
    assert_eq!(copy.artist_credit.as_deref(), Some("A"));
    assert_eq!(copy.genres, vec!["g1".to_string(), "g2".to_string()]);
}

#[test]
fn full_run_ends_with_what_is_recommended() {
    let cached = vec![
        release("old", "Old", None, None, true),
        release("b", "Bravo", None, None, true),
        release("a", "Alpha", None, None, false),
    ];
    let recs = vec![rec("a", true), rec("x", false), rec("b", false), rec("y", true), rec("a", false)];
    let mut sync = Sync::start(cached, recs);
    assert!(!sync.failed());
    assert_eq!(sync.pending().unwrap().release, "x");
    sync.step(fetched("Xray"));
    assert_eq!(sync.pending().unwrap().release, "y");
    sync.step(fetched("Yankee"));
    assert!(sync.pending().is_none());
    sync.step(fetched("extra"));
    sync.step(Outcome::Failed);
    assert!(!sync.failed());
    let (releases, failed) = sync.finish();
    assert!(!failed);
    let listed: Vec<(&str, &str, bool)> =
        releases.iter().map(|r| (r.rgid.as_str(), r.title.as_str(), r.highly)).collect();
    assert_eq!(
        listed,
        vec![
            ("a", "Alpha", false),
            ("b", "Bravo", false),
            ("x", "Xray", false),
            ("y", "Yankee", true),
        ]
    );
}

#[test]
fn failed_fetch_ends_the_run_and_keeps_what_is_there() {
    let cached = vec![release("b", "Bravo", None, None, false)];
    let recs = vec![rec("x", false), rec("b", true), rec("y", true)];
    let mut sync = Sync::start(cached, recs);
    assert_eq!(sync.pending().unwrap().release, "x");
    sync.step(fetched("Xray"));
    assert_eq!(sync.pending().unwrap().release, "y");
    sync.step(Outcome::Failed);
    assert!(sync.failed());
    assert!(sync.pending().is_none());
    sync.step(fetched("late"));
    let (releases, failed) = sync.finish();
    assert!(failed);
    let listed: Vec<(&str, bool)> = releases.iter().map(|r| (r.rgid.as_str(), r.highly)).collect();
    assert_eq!(listed, vec![("b", true), ("x", false)]);
}

#[test]
fn run_with_nothing_to_fetch() {
    let mut sync = Sync::start(Vec::new(), Vec::new());
    assert!(sync.pending().is_none());
    sync.step(Outcome::Failed);
    let (releases, failed) = sync.finish();
    assert!(releases.is_empty());
    assert!(!failed);
}

#[test]
fn run_with_everything_kept_fetches_nothing() {
    let cached = vec![
        release("a", "Alpha", None, None, false),
        release("gone", "Gone", None, None, false),
        release("b", "Bravo", None, None, true),
    ];
    let recs = vec![rec("b", false), rec("a", true)];
    let sync = Sync::start(cached, recs);
    assert!(sync.pending().is_none());
    let (releases, failed) = sync.finish();
    assert!(!failed);
    let listed: Vec<(&str, bool)> = releases.iter().map(|r| (r.rgid.as_str(), r.highly)).collect();
    assert_eq!(listed, vec![("a", true), ("b", false)]);
}
