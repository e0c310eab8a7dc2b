//! The AI specifier grammar and the follower it names.

use dogfights::actors::{Game, PlayerGame};
use dogfights::ai::{parse_ai_string, Ai, Follower};
use dogfights::input::Input;

#[test]
fn test_parse() {
    parse_ai_string("follower", Some(0)).unwrap();
    parse_ai_string("follower:3", None).unwrap();
}

#[test]
fn the_bare_word_takes_the_default_player() {
    let f = parse_ai_string("follower", Some(7)).unwrap();
    assert_eq!(f.following(), 7);
    // With no default player the bare word names nobody.
    assert!(parse_ai_string("follower", None).is_none());
}

#[test]
fn an_explicit_id_wins_over_the_default() {
    let f = parse_ai_string("follower:3", Some(7)).unwrap();
    assert_eq!(f.following(), 3);
    let f = parse_ai_string("follower:4294967295", None).unwrap();
    assert_eq!(f.following(), u32::MAX);
    assert_eq!(parse_ai_string("follower:0", None).unwrap().following(), 0);
}

#[test]
fn malformed_specifiers_name_no_ai() {
    assert!(parse_ai_string("", Some(0)).is_none());
    assert!(parse_ai_string("floower", Some(0)).is_none());
    assert!(parse_ai_string("followers", Some(0)).is_none());
    assert!(parse_ai_string("follower:", Some(0)).is_none());
    assert!(parse_ai_string("follower:12:3", Some(0)).is_none());
    assert!(parse_ai_string("follower:9a", Some(0)).is_none());
    // One past the largest actor id overflows and is refused.
    assert!(parse_ai_string("follower:4294967296", Some(0)).is_none());
    assert!(parse_ai_string("follower:99999999999999999999", Some(0)).is_none());
}

#[test]
fn the_follower_pushes_no_buttons_yet() {
    let f = Follower::new(0);
    let game = PlayerGame { player: 0, game: Game::new() };
    assert_eq!(f.move_(&game), Input::new());
}
