use nertboard::auth::{check_auth, resolve_board, validate_board_name};
use nertboard::entry::ScoreEntry;
use nertboard::error::RequestError;
use nertboard::keys::{authority_for, ApiKey, AuthorityLevel, BoardKeys, StringKey};
use nertboard::store::Leaderboard;
use nertboard::text::trim;

fn key(k: &StringKey) -> Option<ApiKey> {
    Some(ApiKey(k.inner().to_string()))
}

fn entry(player: &str, score: i32, extra_info: Option<&str>) -> ScoreEntry {
    ScoreEntry {
        player: player.to_string(),
        score,
        extra_info: extra_info.map(|s| s.to_string()),
    }
}

fn is_alphanumeric(s: &str) -> bool {
    s.chars().all(|c| c.is_ascii_alphanumeric())
}

#[test]
fn test_e2e() {
    let mut board = Leaderboard::new();
    let keys = board.create_board("test-table".to_string()).unwrap();

    let scores = vec![entry("nertsal", 10, None), entry("nert", 5, Some("very cool"))];

    let name = "test-table".to_string();
    assert!(board.submit_score(&name, &key(&keys.submit), scores[0].clone()).is_ok());
    assert!(board.submit_score(&name, &key(&keys.submit), scores[1].clone()).is_ok());

    let returned_scores = board.get_scores(&name, &key(&keys.read)).unwrap();
    assert_eq!(returned_scores, scores);
}

#[test]
fn generated_keys_have_their_lengths() {
    let keys = BoardKeys::generate();
    assert_eq!(keys.read.inner().len(), 10);
    assert_eq!(keys.submit.inner().len(), 10);
    assert_eq!(keys.admin.inner().len(), 20);
    assert!(is_alphanumeric(keys.read.inner()));
    assert!(is_alphanumeric(keys.submit.inner()));
    assert!(is_alphanumeric(keys.admin.inner()));
}

#[test]
fn generated_key_of_any_length() {
    assert_eq!(StringKey::generate(0).inner(), "");
    let k = StringKey::generate(37);
    assert_eq!(k.inner().chars().count(), 37);
    assert!(is_alphanumeric(k.inner()));
}

#[test]
fn create_returns_distinct_keys_and_board_is_found() {
    let mut board = Leaderboard::new();
    let keys = board.create_board("scores".to_string()).unwrap();
    assert!(!keys.read.inner().is_empty());
    assert_ne!(keys.read.inner(), keys.submit.inner());
    assert_ne!(keys.read.inner(), keys.admin.inner());
    assert_ne!(keys.submit.inner(), keys.admin.inner());
    let found = board.find_board(&"scores".to_string());
    assert!(found.is_some());
    assert_eq!(found.unwrap().1.admin.inner(), keys.admin.inner());
}

#[test]
fn created_name_is_trimmed() {
    let mut board = Leaderboard::new();
    board.create_board("  padded name \t".to_string()).unwrap();
    assert!(board.find_board(&"padded name".to_string()).is_some());
    assert!(board.find_board(&"  padded name \t".to_string()).is_none());
}

#[test]
fn duplicate_name_is_rejected_and_state_kept() {
    let mut board = Leaderboard::new();
    let keys = board.create_board("dup".to_string()).unwrap();
    let name = "dup".to_string();
    board.submit_score(&name, &key(&keys.submit), entry("a", 1, None)).unwrap();
    let err = board.create_board(" dup ".to_string()).unwrap_err();
    assert_eq!(err, RequestError::BoardAlreadyExists("dup".to_string()));
    assert_eq!(err.status(), 409);
    // the old board and its keys and scores are untouched
    let listed = board.get_scores(&name, &key(&keys.read)).unwrap();
    assert_eq!(listed, vec![entry("a", 1, None)]);
}

#[test]
fn blank_names_are_rejected() {
    let mut board = Leaderboard::new();
    for name in ["", "   ", "\t\n "] {
        let err = board.create_board(name.to_string()).unwrap_err();
        assert_eq!(err, RequestError::InvalidBoardName(String::new()));
        assert_eq!(err.status(), 400);
    }
}

#[test]
fn validate_trims_names() {
    assert_eq!(validate_board_name("  board  ".to_string()).unwrap(), "board");
    assert_eq!(validate_board_name("a b".to_string()).unwrap(), "a b");
    assert_eq!(
        validate_board_name(" \u{3000} ".to_string()).unwrap_err(),
        RequestError::InvalidBoardName(String::new())
    );
    assert_eq!(trim("\n x y \r"), "x y");
    assert_eq!(trim(""), "");
}

#[test]
fn authority_of_each_key() {
    let keys = BoardKeys::generate();
    assert_eq!(authority_for(&keys, &key(&keys.admin)), AuthorityLevel::Admin);
    assert_eq!(authority_for(&keys, &key(&keys.submit)), AuthorityLevel::Submit);
    assert_eq!(authority_for(&keys, &key(&keys.read)), AuthorityLevel::Read);
    assert_eq!(
        authority_for(&keys, &Some(ApiKey("not a key".to_string()))),
        AuthorityLevel::Unauthorized
    );
    assert_eq!(authority_for(&keys, &None), AuthorityLevel::Unauthorized);
}

#[test]
fn admin_key_is_tested_first() {
    let keys = BoardKeys {
        read: StringKey::new("same".to_string()),
        submit: StringKey::new("same".to_string()),
        admin: StringKey::new("same".to_string()),
    };
    assert_eq!(keys.check_authority(&"same".to_string()), AuthorityLevel::Admin);
}

#[test]
fn check_auth_outcomes() {
    assert_eq!(check_auth(AuthorityLevel::Unauthorized, AuthorityLevel::Read), Err(RequestError::Unauthorized));
    assert_eq!(check_auth(AuthorityLevel::Read, AuthorityLevel::Submit), Err(RequestError::Forbidden));
    assert_eq!(check_auth(AuthorityLevel::Submit, AuthorityLevel::Admin), Err(RequestError::Forbidden));
    assert_eq!(check_auth(AuthorityLevel::Submit, AuthorityLevel::Read), Ok(()));
    assert_eq!(check_auth(AuthorityLevel::Admin, AuthorityLevel::Admin), Ok(()));
    assert_eq!(check_auth(AuthorityLevel::Read, AuthorityLevel::Read), Ok(()));
    assert!(AuthorityLevel::Read.at_least(AuthorityLevel::Unauthorized));
    assert!(!AuthorityLevel::Read.at_least(AuthorityLevel::Submit));
}

#[test]
fn resolve_without_board() {
    let r = resolve_board(&"gone".to_string(), None, &None);
    assert_eq!(r, Err(RequestError::NoSuchBoard("gone".to_string())));
    let keys = BoardKeys::generate();
    let r = resolve_board(&"here".to_string(), Some((7, &keys)), &key(&keys.submit));
    assert_eq!(r, Ok((7, AuthorityLevel::Submit)));
}

#[test]
fn submissions_listed_in_order() {
    let mut board = Leaderboard::new();
    let keys = board.create_board("many".to_string()).unwrap();
    let name = "many".to_string();
    let mut expected = Vec::new();
    for i in 0..20 {
        let e = entry(&format!("p{}", i), i * 3 - 7, if i % 2 == 0 { Some("x") } else { None });
        board.submit_score(&name, &key(&keys.admin), e.clone()).unwrap();
        expected.push(e);
    }
    assert_eq!(board.get_scores(&name, &key(&keys.submit)).unwrap(), expected);
    assert_eq!(board.get_scores(&name, &key(&keys.read)).unwrap().len(), 20);
}

#[test]
fn low_tier_submission_is_refused() {
    let mut board = Leaderboard::new();
    let keys = board.create_board("guarded".to_string()).unwrap();
    let name = "guarded".to_string();
    let err = board.submit_score(&name, &key(&keys.read), entry("a", 1, None)).unwrap_err();
    assert_eq!(err, RequestError::Forbidden);
    assert_eq!(err.status(), 403);
    let err = board.submit_score(&name, &None, entry("a", 1, None)).unwrap_err();
    assert_eq!(err, RequestError::Unauthorized);
    assert_eq!(err.status(), 401);
    assert!(board.get_scores(&name, &key(&keys.read)).unwrap().is_empty());
}

#[test]
fn listing_needs_a_key() {
    let mut board = Leaderboard::new();
    board.create_board("closed".to_string()).unwrap();
    let name = "closed".to_string();
    assert_eq!(board.get_scores(&name, &None), Err(RequestError::Unauthorized));
    assert_eq!(
        board.get_scores(&name, &Some(ApiKey("wrong".to_string()))),
        Err(RequestError::Unauthorized)
    );
}

#[test]
fn delete_removes_board_and_scores() {
    let mut board = Leaderboard::new();
    let keys = board.create_board("short-lived".to_string()).unwrap();
    let other = board.create_board("other".to_string()).unwrap();
    let name = "short-lived".to_string();
    board.submit_score(&name, &key(&keys.submit), entry("a", 1, None)).unwrap();
    let (id, _) = board.resolve(&name, &None).unwrap();

    assert_eq!(board.delete_board(&name, &key(&keys.submit)), Err(RequestError::Forbidden));
    assert_eq!(board.delete_board(&name, &None), Err(RequestError::Unauthorized));
    assert!(board.delete_board(&name, &key(&keys.admin)).is_ok());

    let err = board.resolve(&name, &key(&keys.admin)).unwrap_err();
    assert_eq!(err, RequestError::NoSuchBoard(name.clone()));
    assert_eq!(err.status(), 404);
    assert_eq!(
        board.get_scores(&name, &key(&keys.read)),
        Err(RequestError::NoSuchBoard(name.clone()))
    );
    assert!(board.list_scores(id).is_none());
    // the other board stays
    assert!(board.get_scores(&"other".to_string(), &key(&other.read)).unwrap().is_empty());
    // the name can be used again
    assert!(board.create_board(name.clone()).is_ok());
}

#[test]
fn insert_score_needs_existing_board() {
    let mut board = Leaderboard::new();
    let err = board.insert_score(3, entry("a", 1, None)).unwrap_err();
    assert_eq!(err.status(), 500);
    let keys = BoardKeys::generate();
    let id = board.create_board_with_keys("b".to_string(), keys).unwrap();
    assert_eq!(id, 1);
    assert!(board.insert_score(id, entry("a", 1, None)).is_ok());
    assert_eq!(board.list_scores(id).unwrap(), vec![entry("a", 1, None)]);
    assert!(board.remove_board(id));
    assert!(!board.remove_board(id));
}

#[test]
fn ids_increase() {
    let mut board = Leaderboard::new();
    let a = board.create_board_with_keys("a".to_string(), BoardKeys::generate()).unwrap();
    let b = board.create_board_with_keys("b".to_string(), BoardKeys::generate()).unwrap();
    assert_eq!((a, b), (1, 2));
    assert_eq!(board.find_board(&"b".to_string()).unwrap().0, 2);
}

#[test]
fn unknown_board_is_not_found() {
    let mut board = Leaderboard::new();
    let name = "nothing".to_string();
    let err = board.submit_score(&name, &None, entry("a", 1, None)).unwrap_err();
    assert_eq!(err, RequestError::NoSuchBoard(name.clone()));
    assert_eq!(board.delete_board(&name, &None), Err(RequestError::NoSuchBoard(name)));
}

#[test]
fn statuses() {
    assert_eq!(RequestError::Sql("x".to_string()).status(), 500);
    assert_eq!(RequestError::Unauthorized.status(), 401);
}
