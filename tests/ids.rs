use volkanic_runner::ids::{
    first_unique, new_container_name, next_attempt, unique_id, unique_token, MAX_TOKEN_GEN_ITER, MAX_UUID_GEN_ITER,
};
use volkanic_runner::instance::Error;

#[test]
fn test_unique_token() {
    let keys = vec!["a".to_string(), "b".to_string(), "c".to_string()];

    let token = unique_token(keys).unwrap();

    assert_eq!(token.len(), 64);
}

#[test]
fn test_new_container_name() {
    let name = new_container_name();

    if name.len() > 64 {
        panic!("Container name too long: {}", name);
    }
}

#[test]
fn token_is_alphanumeric() {
    let token = unique_token(vec![]).unwrap();
    assert!(token.chars().all(|c| c.is_ascii_alphanumeric()));
    assert_ne!(token, unique_token(vec![token.clone()]).unwrap());
}

#[test]
fn container_name_has_prefix_and_suffix() {
    let name = new_container_name();
    assert!(name.starts_with("vk-"));
    assert_eq!(name.len(), 51);
    assert!(name[3..].chars().all(|c| c.is_ascii_alphanumeric()));
}

#[test]
fn unique_id_is_hyphenated_uuid() {
    let id = unique_id(vec!["x".to_string()]).unwrap();
    assert_eq!(id.len(), 36);
    assert_eq!(id.matches('-').count(), 4);
    let b = id.as_bytes();
    for k in [8, 13, 18, 23] {
        assert_eq!(b[k], b'-');
    }
    assert_eq!(b[14], b'4');
    assert!(matches!(b[19], b'8' | b'9' | b'a' | b'b'));
    assert!(id.chars().all(|c| c == '-' || c.is_ascii_digit() || ('a'..='f').contains(&c)));
}

#[test]
fn exhausted_when_every_candidate_collides() {
    let candidates: Vec<String> = (0..MAX_UUID_GEN_ITER).map(|_| "same".to_string()).collect();
    let taken = vec!["same".to_string()];
    assert!(matches!(first_unique(&candidates, &taken), Err(Error::ExhaustedUniqueIds)));
}

#[test]
fn candidate_after_the_bound_is_not_tried() {
    let mut candidates: Vec<String> = (0..MAX_UUID_GEN_ITER).map(|k| format!("t{}", k)).collect();
    candidates.push("fresh".to_string());
    let taken: Vec<String> = (0..MAX_UUID_GEN_ITER).map(|k| format!("t{}", k)).collect();
    assert!(matches!(first_unique(&candidates, &taken), Err(Error::ExhaustedUniqueIds)));
}

#[test]
fn first_free_candidate_is_taken() {
    let candidates = vec!["a".to_string(), "b".to_string(), "c".to_string(), "d".to_string()];
    let taken = vec!["a".to_string(), "b".to_string(), "d".to_string()];
    assert_eq!(first_unique(&candidates, &taken).unwrap(), "c");
    assert!(matches!(first_unique(&vec![], &taken), Err(Error::ExhaustedUniqueIds)));
}

#[test]
fn attempt_keeps_fresh_candidate() {
    let keys = vec!["a".to_string(), "b".to_string()];
    assert_eq!(next_attempt(0, MAX_TOKEN_GEN_ITER, &keys, "c".to_string()).unwrap(), Some("c".to_string()));
    assert_eq!(next_attempt(127, MAX_TOKEN_GEN_ITER, &keys, "z".to_string()).unwrap(), Some("z".to_string()));
}

#[test]
fn attempt_retries_collision_before_the_bound() {
    let keys = vec!["a".to_string(), "b".to_string()];
    assert_eq!(next_attempt(0, MAX_TOKEN_GEN_ITER, &keys, "a".to_string()).unwrap(), None);
    assert_eq!(next_attempt(126, MAX_TOKEN_GEN_ITER, &keys, "b".to_string()).unwrap(), None);
}

#[test]
fn attempt_fails_on_collision_at_the_last_draw() {
    let keys = vec!["a".to_string()];
    assert!(matches!(
        next_attempt(MAX_TOKEN_GEN_ITER - 1, MAX_TOKEN_GEN_ITER, &keys, "a".to_string()),
        Err(Error::ExhaustedUniqueIds)
    ));
}

#[test]
fn always_colliding_draws_fail_after_the_bound() {
    let keys = vec!["same".to_string()];
    let mut draws = 0;
    let mut n = 0;
    let r = loop {
        draws += 1;
        match next_attempt(n, MAX_UUID_GEN_ITER, &keys, "same".to_string()) {
            Ok(Some(c)) => break Ok(c),
            Ok(None) => n += 1,
            Err(e) => break Err(e),
        }
    };
    assert!(matches!(r, Err(Error::ExhaustedUniqueIds)));
    assert_eq!(draws, 128);
}
