use runboard::assemble::{assemble, RawRecord, RawRunEntry};
use runboard::catalog::{build_catalog, CategoryKind, RawCategory};
use runboard::duration::ParsedDuration;
use runboard::error::Error;
use runboard::player::{PlayerIdentity, PlayerRef};
use runboard::run::{normalize_run, RawRun};

fn raw_cat(id: &str, name: &str, kind: &str) -> RawCategory {
    RawCategory { id: id.to_string(), name: name.to_string(), kind: kind.to_string() }
}

fn raw_run(id: &str, realtime: &str) -> RawRun {
    RawRun {
        id: id.to_string(),
        weblink: format!("https://speedrun.com/run/{}", id),
        videos: Some(vec!["mirror".to_string(), "primary".to_string()]),
        realtime: realtime.to_string(),
        submitted: "2020-01-01T00:00:00Z".to_string(),
        players: vec![PlayerRef {
            rel: "user".to_string(),
            id: Some("p1".to_string()),
            name: None,
            uri: String::new(),
        }],
    }
}

fn record(category: &str, runs: Vec<RawRunEntry>) -> RawRecord {
    RawRecord {
        game: "g1".to_string(),
        weblink: "https://speedrun.com/g1".to_string(),
        category: category.to_string(),
        runs,
    }
}

#[test]
fn normalize_run_flattens_everything() {
    let run = normalize_run(&raw_run("r1", "PT1H2M3.004S")).expect("run should normalize");
    assert_eq!(run.id, "r1");
    assert_eq!(run.video_uri, "primary");
    assert_eq!(
        run.duration,
        ParsedDuration::Time { hours: 1, minutes: 2, seconds: 3, milliseconds: 4 }
    );
    assert_eq!(run.submitted_at, "2020-01-01T00:00:00Z");
    assert_eq!(run.players, vec![PlayerIdentity::RegisteredUser { id: "p1".to_string() }]);
}

#[test]
fn normalize_run_without_videos_has_empty_uri() {
    let mut raw = raw_run("r1", "PT10S");
    raw.videos = None;
    let run = normalize_run(&raw).expect("run should normalize");
    assert_eq!(run.video_uri, "");
}

#[test]
fn normalize_run_bad_duration_fails() {
    let raw = raw_run("r1", "one hour");
    assert_eq!(normalize_run(&raw), Err(Error::DurationParseFailure));
}

#[test]
fn normalize_run_without_players_fails() {
    let mut raw = raw_run("r1", "PT10S");
    raw.players = Vec::new();
    assert_eq!(normalize_run(&raw), Err(Error::MalformedPlayerReference));
}

#[test]
fn assemble_filters_by_kind_and_keeps_order() {
    let catalog = build_catalog(&vec![
        raw_cat("c1", "Any%", "per-game"),
        raw_cat("c2", "Bonus", "misc"),
        raw_cat("c3", "100%", "per-game"),
    ]);
    let records = vec![
        record("c1", vec![
            RawRunEntry { place: 1, run: raw_run("r1", "PT1M") },
            RawRunEntry { place: 2, run: raw_run("r2", "PT2M") },
        ]),
        record("c2", vec![RawRunEntry { place: 1, run: raw_run("r3", "PT3M") }]),
        record("c3", vec![RawRunEntry { place: 1, run: raw_run("r4", "PT4M") }]),
    ];
    let boards = assemble(&records, &catalog, CategoryKind::PerGame).expect("assembly succeeds");
    assert_eq!(boards.len(), 2);
    assert_eq!(boards[0].category_id, "c1");
    assert_eq!(boards[0].category_name, "Any%");
    assert_eq!(boards[0].entries.len(), 2);
    assert_eq!(boards[0].entries[0].place, 1);
    assert_eq!(boards[0].entries[0].run.id, "r1");
    assert_eq!(boards[0].entries[1].run.id, "r2");
    assert_eq!(boards[1].category_id, "c3");
    assert_eq!(boards[1].entries[0].run.id, "r4");
}

#[test]
fn assemble_only_misc_when_asked() {
    let catalog = build_catalog(&vec![
        raw_cat("c1", "Any%", "per-game"),
        raw_cat("c2", "Bonus", "misc"),
    ]);
    let records = vec![
        record("c1", vec![RawRunEntry { place: 1, run: raw_run("r1", "PT1M") }]),
        record("c2", vec![RawRunEntry { place: 1, run: raw_run("r2", "PT2M") }]),
    ];
    let boards = assemble(&records, &catalog, CategoryKind::Misc).expect("assembly succeeds");
    assert_eq!(boards.len(), 1);
    assert_eq!(boards[0].category_id, "c2");
}

#[test]
fn assemble_unknown_category_fails() {
    let catalog = build_catalog(&vec![raw_cat("c1", "Any%", "per-game")]);
    let records = vec![
        record("c1", vec![RawRunEntry { place: 1, run: raw_run("r1", "PT1M") }]),
        record("ghost", vec![RawRunEntry { place: 1, run: raw_run("r2", "PT2M") }]),
    ];
    assert_eq!(
        assemble(&records, &catalog, CategoryKind::PerGame),
        Err(Error::UnknownCategory)
    );
}

#[test]
fn assemble_propagates_run_failure() {
    let catalog = build_catalog(&vec![raw_cat("c1", "Any%", "per-game")]);
    let records = vec![record("c1", vec![
        RawRunEntry { place: 1, run: raw_run("r1", "broken") },
    ])];
    assert_eq!(
        assemble(&records, &catalog, CategoryKind::PerGame),
        Err(Error::DurationParseFailure)
    );
}

#[test]
fn assemble_preserves_entry_places() {
    let catalog = build_catalog(&vec![raw_cat("c1", "Any%", "per-game")]);
    let records = vec![record("c1", vec![
        RawRunEntry { place: 4, run: raw_run("r1", "PT1M") },
        RawRunEntry { place: 9, run: raw_run("r2", "PT2M") },
    ])];
    let boards = assemble(&records, &catalog, CategoryKind::PerGame).expect("assembly succeeds");
    assert_eq!(boards[0].entries[0].place, 4);
    assert_eq!(boards[0].entries[1].place, 9);
}
