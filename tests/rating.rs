use hexalem::rating::{DefaultRating, Elo, RatingEvent};

#[test]
fn test_equal_elo() {
    let mut elo = Elo::new();
    assert_eq!(elo.get_rating(1), 1000);
    assert_eq!(elo.get_rating(2), 1000);

    elo.update_rating(1, 2);
    assert_eq!(elo.get_rating(1), 1016);
    assert_eq!(elo.get_rating(2), 984);

    elo.update_rating(1, 2);
    assert_eq!(elo.get_rating(1), 1032);
    assert_eq!(elo.get_rating(2), 968);

    elo.update_rating(1, 2);
    assert_eq!(elo.get_rating(1), 1047);
    assert_eq!(elo.get_rating(2), 953);

    elo.set_rating(3, 2000);
    elo.set_rating(4, 2000);
    elo.update_rating(3, 4);
    assert_eq!(elo.get_rating(3), 2016);
    assert_eq!(elo.get_rating(4), 1984);

    elo.set_rating(5, 100);
    elo.set_rating(6, 100);
    elo.update_rating(5, 6);
    assert_eq!(elo.get_rating(5), 116);
    assert_eq!(elo.get_rating(6), 84);
}

#[test]
fn test_equal_elos() {
    let mut elo = Elo::new();
    assert_eq!(elo.get_rating(1), 1000);
    assert_eq!(elo.get_rating(2), 1000);
    assert_eq!(elo.get_rating(3), 1000);
    assert_eq!(elo.get_rating(4), 1000);

    elo.update_ratings(1, &vec![1, 2, 3, 4]);

    assert_eq!(elo.get_rating(1), 1048);
    assert_eq!(elo.get_rating(2), 984);
    assert_eq!(elo.get_rating(3), 984);
    assert_eq!(elo.get_rating(4), 984);
}

#[test]
fn test_differences() {
    let mut elo = Elo::new();
    elo.set_rating(2, 1200);
    elo.update_rating(1, 2);
    assert_eq!(elo.get_rating(1), 1020);
    assert_eq!(elo.get_rating(2), 1180);
}

#[test]
fn test_extreme_differences() {
    let mut elo = Elo::new();
    elo.set_rating(1, 10000);
    elo.set_rating(2, 100);

    elo.update_rating(1, 2);
    assert_eq!(elo.get_rating(1), 10001);
    assert_eq!(elo.get_rating(2), 99);

    elo.update_rating(2, 1);
    assert_eq!(elo.get_rating(1), 9969);
    assert_eq!(elo.get_rating(2), 131);
}

#[test]
fn test_lower_bound() {
    let mut elo = Elo::new();
    elo.set_rating(1, 1);
    elo.set_rating(2, 1);

    elo.update_rating(1, 2);
    assert_eq!(elo.get_rating(1), 17);
    assert_eq!(elo.get_rating(2), 0);

    elo.set_rating(1, 1);
    elo.update_rating(1, 2);
    assert_eq!(elo.get_rating(1), 17);
    assert_eq!(elo.get_rating(2), 0);
}

#[test]
fn test_lower_bounds() {
    let mut elo = Elo::new();
    elo.set_rating(1, 1);
    elo.set_rating(2, 1);
    elo.set_rating(3, 1);

    elo.update_ratings(1, &vec![1, 2, 3]);

    assert_eq!(elo.get_rating(1), 33);
    assert_eq!(elo.get_rating(2), 0);
    assert_eq!(elo.get_rating(3), 0);
}

#[test]
fn test_upper_bound() {
    let mut elo = Elo::new();
    elo.set_rating(1, 65535);
    elo.set_rating(2, 65535);

    elo.update_rating(1, 2);

    assert_eq!(elo.get_rating(1), 65535);
    assert_eq!(elo.get_rating(2), 65519);
}

#[test]
fn test_update_rating_events() {
    let mut elo = Elo::new();
    elo.set_rating(1, 1300);

    elo.update_rating(2, 1);

    assert!(elo
        .events()
        .contains(&RatingEvent::RatingGained { player: 2, new_rating: 1024, rating_gained: 24 }));
    assert!(elo
        .events()
        .contains(&RatingEvent::RatingLost { player: 1, new_rating: 1276, rating_lost: 24 }));
}

#[test]
fn test_update_ratings_events() {
    let mut elo = Elo::new();
    elo.set_rating(1, 1300);
    elo.set_rating(3, 800);

    elo.update_ratings(2, &vec![1, 2, 3, 4]);

    let events = elo.events();
    assert!(events.contains(&RatingEvent::RatingGained { player: 2, new_rating: 1052, rating_gained: 52 }));
    assert!(events.contains(&RatingEvent::RatingLost { player: 1, new_rating: 1276, rating_lost: 24 }));
    assert!(events.contains(&RatingEvent::RatingLost { player: 3, new_rating: 788, rating_lost: 12 }));
    assert!(events.contains(&RatingEvent::RatingLost { player: 4, new_rating: 984, rating_lost: 16 }));
}

#[test]
fn rating_change_buckets() {
    assert_eq!(DefaultRating(), 1000);
    assert_eq!(Elo::get_rating_change(1000, 1000), 16);
    assert_eq!(Elo::get_rating_change(1000, 1049), 16);
    assert_eq!(Elo::get_rating_change(1000, 1050), 17);
    assert_eq!(Elo::get_rating_change(1000, 1200), 20);
    assert_eq!(Elo::get_rating_change(1000, 1499), 31);
    assert_eq!(Elo::get_rating_change(1000, 1500), 32);
    assert_eq!(Elo::get_rating_change(1050, 1000), 15);
    assert_eq!(Elo::get_rating_change(1200, 1000), 12);
    assert_eq!(Elo::get_rating_change(1474, 1000), 2);
    assert_eq!(Elo::get_rating_change(1475, 1000), 1);
}

#[test]
fn lose_rating_saturates() {
    let mut elo = Elo::new();
    elo.lose_rating(1, 30);
    assert_eq!(elo.get_rating(1), 970);
    elo.set_rating(2, 10);
    elo.lose_rating(2, 30);
    assert_eq!(elo.get_rating(2), 0);
    assert_eq!(elo.events().last(), Some(&RatingEvent::RatingLost { player: 2, new_rating: 0, rating_lost: 30 }));
}
