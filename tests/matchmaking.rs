use hexalem::matchmaker::Matchmaker;
use hexalem::Error;

fn new_matchmaker() -> Matchmaker {
    Matchmaker::new(2, 3)
}

#[test]
fn test_is_queued() {
    let mut mm = new_matchmaker();
    let player1 = 1;

    assert_eq!(mm.queue_size(0), 0);
    assert!(!mm.is_queued(player1));
    assert_eq!(mm.add_queue(player1, 0), Ok(()));
    assert!(mm.is_queued(player1));
    mm.empty_queue(0);
    assert!(!mm.is_queued(player1));
}

#[test]
fn test_try_duplicate_queue() {
    let mut mm = new_matchmaker();
    let player1 = 1;
    let player2 = 2;

    assert_eq!(mm.queue_size(0), 0);
    assert_eq!(mm.add_queue(player1, 0), Ok(()));
    assert_eq!(mm.add_queue(player1, 0), Err(Error::AlreadyQueued));
    assert_eq!(mm.add_queue(player1, 1), Err(Error::AlreadyQueued));

    assert_eq!(mm.add_queue(player2, 1), Ok(()));
    assert_eq!(mm.add_queue(player2, 1), Err(Error::AlreadyQueued));
    assert_eq!(mm.add_queue(player2, 0), Err(Error::AlreadyQueued));
}

#[test]
fn test_add_queue() {
    let mut mm = new_matchmaker();
    let player1 = 1;
    let player2 = 2;

    assert_eq!(mm.queue_size(0), 0);
    assert!(mm.try_match().is_empty());
    assert_eq!(mm.add_queue(player1, 0), Ok(()));
    assert_eq!(mm.queue_size(0), 1);
    assert!(mm.try_match().is_empty());
    assert_eq!(mm.add_queue(player2, 0), Ok(()));
    assert_eq!(mm.queue_size(0), 2);
    assert_eq!(mm.try_match(), [1, 2]);
    assert_eq!(mm.queue_size(0), 0);
    assert!(mm.try_match().is_empty());

    assert_eq!(mm.add_queue(player1, 0), Ok(()));
    assert_eq!(mm.add_queue(player2, 0), Ok(()));
    assert_eq!(mm.queue_size(0), 2);
    mm.empty_queue(0);
    assert!(mm.try_match().is_empty());
    assert_eq!(mm.queue_size(0), 0);
}

#[test]
fn test_brackets_count() {
    let mm = new_matchmaker();
    assert_eq!(mm.brackets_count(), 3);
}

#[test]
fn test_brackets() {
    let mut mm = new_matchmaker();
    let player1 = 1;
    let player2 = 2;
    let player3 = 3;
    let player4 = 4;
    let player5 = 5;
    let player6 = 6;

    assert_eq!(mm.queue_size(0), 0);
    assert_eq!(mm.all_queue_size(), 0);
    assert_eq!(mm.add_queue(player1, 0), Ok(()));
    assert_eq!(mm.add_queue(player2, 0), Ok(()));
    assert_eq!(mm.add_queue(player3, 0), Ok(()));
    assert_eq!(mm.add_queue(player4, 1), Ok(()));
    assert_eq!(mm.add_queue(player5, 1), Ok(()));
    assert_eq!(mm.add_queue(player6, 2), Ok(()));
    assert_eq!(mm.queue_size(0), 3);
    assert_eq!(mm.queue_size(1), 2);
    assert_eq!(mm.queue_size(2), 1);
    assert_eq!(mm.all_queue_size(), 6);
    assert_eq!(mm.try_match(), [1, 2]);
    assert_eq!(mm.try_match(), [3, 4]);
    assert_eq!(mm.add_queue(player1, 0), Ok(()));
    assert_eq!(mm.try_match(), [1, 5]);
    assert!(mm.try_match().is_empty());
    assert_eq!(mm.add_queue(player5, 1), Ok(()));
    assert_eq!(mm.try_match(), [5, 6]);
}

#[test]
fn unknown_bracket_is_refused() {
    let mut mm = new_matchmaker();
    assert_eq!(mm.add_queue(1, 3), Err(Error::InternalError));
    assert_eq!(mm.queue_size(3), 0);
    assert!(!mm.is_queued(1));
}
