use runboard::error::Error;
use runboard::game::{resolve_games, Link, RawGame};
use runboard::search::games_search_uri;
use urlencoding::encode;

fn link(rel: &str, uri: &str) -> Link {
    Link { rel: rel.to_string(), uri: uri.to_string() }
}

fn game(name: &str, links: Vec<Link>) -> RawGame {
    RawGame {
        abbreviation: name.to_lowercase(),
        name: name.to_string(),
        released: 1996,
        links,
    }
}

#[test]
fn resolve_games_extracts_both_endpoints() {
    let games = vec![game("Alpha", vec![
        link("self", "https://speedrun.com/api/v1/games/a"),
        link("records", "https://speedrun.com/api/v1/games/a/records"),
        link("categories", "https://speedrun.com/api/v1/games/a/categories"),
    ])];
    let summaries = resolve_games(&games).expect("resolution succeeds");
    assert_eq!(summaries.len(), 1);
    assert_eq!(summaries[0].display_name, "Alpha");
    assert_eq!(summaries[0].release_year, 1996);
    assert_eq!(summaries[0].records_uri, "https://speedrun.com/api/v1/games/a/records");
    assert_eq!(summaries[0].categories_uri, "https://speedrun.com/api/v1/games/a/categories");
}

#[test]
fn resolve_games_missing_endpoint_fails_fast() {
    // Game A lacks a categories link; the chosen policy is to fail the
    // whole resolution rather than silently omit the game.
    let games = vec![
        game("Alpha", vec![link("records", "https://speedrun.com/api/v1/games/a/records")]),
        game("Beta", vec![
            link("records", "https://speedrun.com/api/v1/games/b/records"),
            link("categories", "https://speedrun.com/api/v1/games/b/categories"),
        ]),
    ];
    assert_eq!(resolve_games(&games), Err(Error::MissingEndpoint));
}

#[test]
fn resolve_games_empty_result_fails() {
    let games: Vec<RawGame> = Vec::new();
    assert_eq!(resolve_games(&games), Err(Error::EmptyResultSet));
}

#[test]
fn resolve_games_takes_first_matching_link() {
    let games = vec![game("Alpha", vec![
        link("records", "first-records"),
        link("records", "second-records"),
        link("categories", "cats"),
    ])];
    let summaries = resolve_games(&games).expect("resolution succeeds");
    assert_eq!(summaries[0].records_uri, "first-records");
}

#[test]
fn should_encode_str() {
    assert_eq!("Hello%20World".to_string(), encode("Hello World"));
}

#[test]
fn search_uri_encodes_title() {
    assert_eq!(
        games_search_uri("Hello World"),
        "https://speedrun.com/api/v1/games?name=Hello%20World"
    );
    assert_eq!(
        games_search_uri("mario64"),
        "https://speedrun.com/api/v1/games?name=mario64"
    );
}
