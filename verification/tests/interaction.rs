//! The interaction phase on hand-made worlds.

use predator_prey::{
    check_scores, classify, count_strikes, encounter, interact, perceive, reset_world_view,
    survey, Config, Predator, Prey, Relation, Sighting, Vec2,
};

/// View radius 10, strike radius 2, prey view radius 6.
fn config() -> Config {
    Config { map_size: 1000, predator_view_radius_sq: 100, predator_strike_radius_sq: 4, prey_view_radius_sq: 36 }
}

fn predator(x: i32, y: i32) -> Predator {
    Predator::new(Vec2::new(x, y))
}

fn prey(x: i32, y: i32) -> Prey {
    Prey::new(Vec2::new(x, y))
}

#[test]
fn strike_radius_is_inclusive() {
    let origin = Vec2::new(0, 0);
    assert_eq!(classify(&origin, &Vec2::new(0, 2), &config()), Relation::Strike);
    assert_eq!(classify(&origin, &Vec2::new(0, 0), &config()), Relation::Strike);
    assert_eq!(classify(&origin, &Vec2::new(1, 2), &config()), Relation::Sighted { mutual: true });
}

#[test]
fn view_radius_is_inclusive() {
    let origin = Vec2::new(0, 0);
    assert_eq!(classify(&origin, &Vec2::new(10, 0), &config()), Relation::Sighted { mutual: false });
    assert_eq!(classify(&origin, &Vec2::new(6, 8), &config()), Relation::Sighted { mutual: false });
    assert_eq!(classify(&origin, &Vec2::new(10, 1), &config()), Relation::OutOfRange);
}

#[test]
fn prey_view_radius_is_exclusive() {
    let origin = Vec2::new(0, 0);
    assert_eq!(classify(&origin, &Vec2::new(6, 0), &config()), Relation::Sighted { mutual: false });
    assert_eq!(classify(&origin, &Vec2::new(5, 3), &config()), Relation::Sighted { mutual: true });
}

#[test]
fn relation_is_the_same_seen_from_either_end() {
    let a = Vec2::new(-3, 7);
    let b = Vec2::new(2, 1);
    assert_eq!(a.distance_squared(&b), 61);
    assert_eq!(classify(&a, &b, &config()), classify(&b, &a, &config()));
}

#[test]
fn out_of_view_wins_over_strike_when_radii_are_upside_down() {
    let odd = Config { map_size: 10, predator_view_radius_sq: 1, predator_strike_radius_sq: 100, prey_view_radius_sq: 0 };
    assert_eq!(classify(&Vec2::new(0, 0), &Vec2::new(0, 2), &odd), Relation::OutOfRange);
    assert_eq!(classify(&Vec2::new(0, 0), &Vec2::new(0, 1), &odd), Relation::Strike);
}

#[test]
fn survey_sorts_predators_into_groups() {
    let predators = vec![
        predator(0, 1),   // strikes
        predator(50, 50), // out of range
        predator(0, 5),   // sighted, seen by the prey
        predator(0, 9),   // sighted only
        predator(2, 0),   // strikes
        predator(3, 0),   // sighted, seen by the prey
    ];
    let census = survey(&predators, &Vec2::new(0, 0), &config());
    assert_eq!(census.striking, vec![0, 4]);
    assert_eq!(census.sighted, vec![2, 3, 5]);
    assert_eq!(census.mutually_visible, vec![2, 5]);
}

#[test]
fn every_striker_of_one_prey_scores() {
    let mut predators = vec![predator(0, 1), predator(1, 0), predator(0, 7)];
    let signals = interact(&vec![prey(0, 0)], &mut predators, &config());
    assert_eq!(predators[0].score, 1);
    assert_eq!(predators[1].score, 1);
    assert_eq!(predators[2].score, 0);
    assert!(signals.is_empty());
}

#[test]
fn capture_takes_precedence_over_sighting() {
    // The second predator has the prey in view, but the first one strikes it.
    let mut predators = vec![predator(0, 1), predator(0, 5)];
    let signals = interact(&vec![prey(0, 0)], &mut predators, &config());
    assert_eq!(predators[0].score, 1);
    assert_eq!(predators[1].score, 0);
    assert_eq!(predators[0].last_seen_prey, None);
    assert_eq!(predators[1].last_seen_prey, None);
    assert!(signals.is_empty());
}

#[test]
fn captured_prey_does_not_overwrite_an_older_sighting() {
    let mut predators = vec![predator(0, 1), predator(0, 5)];
    predators[1].last_seen_prey = Some(Vec2::new(40, 40));
    interact(&vec![prey(0, 0)], &mut predators, &config());
    assert_eq!(predators[1].last_seen_prey, Some(Vec2::new(40, 40)));
}

#[test]
fn predator_scores_once_for_each_prey_it_strikes() {
    let mut predators = vec![predator(10, 10)];
    predators[0].score = 7;
    let herd = vec![prey(10, 11), prey(30, 30), prey(11, 10), prey(10, 10)];
    interact(&herd, &mut predators, &config());
    assert_eq!(predators[0].score, 10);
}

#[test]
fn score_is_the_same_in_any_order_of_prey() {
    let herd = vec![prey(10, 11), prey(10, 15), prey(11, 10)];
    let mut turned = herd.clone();
    turned.reverse();
    let mut first = vec![predator(10, 10)];
    let mut second = vec![predator(10, 10)];
    interact(&herd, &mut first, &config());
    interact(&turned, &mut second, &config());
    assert_eq!(first[0].score, 2);
    assert_eq!(second[0].score, 2);
}

#[test]
fn score_does_not_depend_on_the_order_of_predators() {
    let herd = vec![prey(10, 11), prey(20, 20)];
    let mut forward = vec![predator(10, 10), predator(20, 21), predator(50, 50)];
    let mut backward = vec![predator(50, 50), predator(20, 21), predator(10, 10)];
    interact(&herd, &mut forward, &config());
    interact(&herd, &mut backward, &config());
    assert_eq!((forward[0].score, forward[1].score, forward[2].score), (1, 1, 0));
    assert_eq!((backward[0].score, backward[1].score, backward[2].score), (0, 1, 1));
}

#[test]
fn last_escaped_prey_in_view_is_remembered() {
    let mut predators = vec![predator(0, 0)];
    let herd = vec![prey(0, 5), prey(0, 8), prey(0, 1), prey(90, 90)];
    interact(&herd, &mut predators, &config());
    // The third prey is captured and the fourth is out of view.
    assert_eq!(predators[0].last_seen_prey, Some(Vec2::new(0, 8)));
    assert_eq!(predators[0].score, 1);
}

#[test]
fn notices_name_prey_and_predator() {
    let mut predators = vec![predator(0, 0), predator(0, 12), predator(40, 40)];
    let herd = vec![prey(0, 5), prey(40, 41), prey(0, 9)];
    let signals = interact(&herd, &mut predators, &config());
    assert_eq!(
        signals,
        vec![
            // Prey 0 is 5 from predator 0 and 7 from predator 1.
            Sighting::PreySawPredator { prey: 0, predator: 0 },
            Sighting::PredatorSawPrey { predator: 0, prey: 0 },
            Sighting::PredatorSawPrey { predator: 1, prey: 0 },
            // Prey 1 is captured by predator 2.
            // Prey 2 is 9 from predator 0 and 3 from predator 1.
            Sighting::PreySawPredator { prey: 2, predator: 1 },
            Sighting::PredatorSawPrey { predator: 0, prey: 2 },
            Sighting::PredatorSawPrey { predator: 1, prey: 2 },
        ]
    );
    assert_eq!(predators[0].last_seen_prey, Some(Vec2::new(0, 9)));
    assert_eq!(predators[1].last_seen_prey, Some(Vec2::new(0, 9)));
    assert_eq!(predators[2].last_seen_prey, None);
    assert_eq!(predators[2].score, 1);
}

#[test]
fn no_predators_is_a_no_op() {
    let mut predators: Vec<Predator> = Vec::new();
    let signals = interact(&vec![prey(1, 1), prey(2, 2)], &mut predators, &config());
    assert!(predators.is_empty());
    assert!(signals.is_empty());
}

#[test]
fn no_prey_is_a_no_op() {
    let mut predators = vec![predator(1, 1), predator(2, 2)];
    predators[0].score = 3;
    predators[1].last_seen_prey = Some(Vec2::new(5, 5));
    let untouched = predators.clone();
    let signals = interact(&Vec::new(), &mut predators, &config());
    assert_eq!(predators, untouched);
    assert!(signals.is_empty());
}

#[test]
fn interaction_does_not_move_predators() {
    let mut predators = vec![predator(0, 0), predator(3, 4)];
    interact(&vec![prey(0, 1), prey(3, 9)], &mut predators, &config());
    assert_eq!(predators[0].position, Vec2::new(0, 0));
    assert_eq!(predators[1].position, Vec2::new(3, 4));
}

#[test]
fn encounter_names_the_prey_by_the_index_given() {
    let mut predators = vec![predator(0, 0)];
    let raised = encounter(17, &prey(0, 3), &mut predators, &config());
    assert_eq!(
        raised,
        vec![
            Sighting::PreySawPredator { prey: 17, predator: 0 },
            Sighting::PredatorSawPrey { predator: 0, prey: 17 },
        ]
    );
    assert_eq!(predators[0].last_seen_prey, Some(Vec2::new(0, 3)));
}

#[test]
fn encounter_with_captured_prey_only_scores() {
    let mut predators = vec![predator(0, 0), predator(0, 5)];
    predators[0].score = u64::MAX - 1;
    let raised = encounter(0, &prey(0, 2), &mut predators, &config());
    assert!(raised.is_empty());
    assert_eq!(predators[0].score, u64::MAX);
    assert_eq!(predators[1], predator(0, 5));
}

#[test]
fn reset_clears_sightings_and_keeps_scores() {
    let mut predators = vec![predator(1, 2), predator(3, 4)];
    predators[0].score = 5;
    predators[0].last_seen_prey = Some(Vec2::new(9, 9));
    reset_world_view(&mut predators);
    assert_eq!(predators[0], Predator { position: Vec2::new(1, 2), score: 5, last_seen_prey: None });
    assert_eq!(predators[1], predator(3, 4));
}

#[test]
fn score_never_decreases_over_ticks() {
    let mut predators = vec![predator(0, 0)];
    let herd = vec![prey(0, 1), prey(0, 6)];
    let mut last = 0;
    for _ in 0..5 {
        reset_world_view(&mut predators);
        interact(&herd, &mut predators, &config());
        assert_eq!(predators[0].score, last + 1);
        last = predators[0].score;
    }
    assert_eq!(predators[0].last_seen_prey, Some(Vec2::new(0, 6)));
}

#[test]
fn predator_methods_change_one_field_each() {
    let mut hunter = predator(4, 4);
    hunter.score();
    hunter.score();
    assert_eq!(hunter, Predator { position: Vec2::new(4, 4), score: 2, last_seen_prey: None });
    hunter.spot_prey(Vec2::new(1, 1));
    assert_eq!(hunter.last_seen_prey, Some(Vec2::new(1, 1)));
    hunter.reset_world_view();
    assert_eq!(hunter, Predator { position: Vec2::new(4, 4), score: 2, last_seen_prey: None });
}

#[test]
fn perceive_forgets_before_it_looks() {
    let mut predators = vec![predator(0, 0), predator(50, 50)];
    predators[0].last_seen_prey = Some(Vec2::new(7, 7));
    predators[1].last_seen_prey = Some(Vec2::new(8, 8));
    predators[1].score = 4;
    let signals = perceive(&vec![prey(0, 9)], &mut predators, &config());
    assert_eq!(predators[0].last_seen_prey, Some(Vec2::new(0, 9)));
    assert_eq!(predators[1].last_seen_prey, None);
    assert_eq!(predators[1].score, 4);
    assert_eq!(signals, vec![Sighting::PredatorSawPrey { predator: 0, prey: 0 }]);
}

#[test]
fn perceive_scores_like_interact() {
    let mut predators = vec![predator(0, 0)];
    predators[0].last_seen_prey = Some(Vec2::new(7, 7));
    let signals = perceive(&vec![prey(0, 1), prey(1, 0)], &mut predators, &config());
    assert_eq!(predators[0], Predator { position: Vec2::new(0, 0), score: 2, last_seen_prey: None });
    assert!(signals.is_empty());
}

#[test]
fn no_notice_is_raised_twice() {
    let mut predators = vec![predator(0, 0), predator(0, 0), predator(3, 3)];
    let herd = vec![prey(0, 5), prey(0, 5), prey(5, 0)];
    let signals = interact(&herd, &mut predators, &config());
    assert_eq!(signals.len(), 18);
    for (k, notice) in signals.iter().enumerate() {
        assert!(!signals[..k].contains(notice));
    }
}

#[test]
fn strikes_are_counted_per_prey() {
    let herd = vec![prey(0, 1), prey(0, 3), prey(2, 0), prey(0, 0), prey(0, -2)];
    assert_eq!(count_strikes(&Vec2::new(0, 0), &herd, &config()), 4);
    assert_eq!(count_strikes(&Vec2::new(0, 4), &herd, &config()), 1);
    assert_eq!(count_strikes(&Vec2::new(50, 50), &herd, &config()), 0);
    assert_eq!(count_strikes(&Vec2::new(0, 0), &Vec::new(), &config()), 0);
}

#[test]
fn scores_with_room_pass_the_check() {
    let mut predators = vec![predator(0, 0), predator(50, 50)];
    predators[0].score = u64::MAX - 2;
    predators[1].score = u64::MAX;
    // The first predator strikes two prey, the second none.
    let herd = vec![prey(0, 1), prey(1, 0), prey(0, 5)];
    assert!(check_scores(&herd, &predators, &config()));
    interact(&herd, &mut predators, &config());
    assert_eq!(predators[0].score, u64::MAX);
    assert_eq!(predators[1].score, u64::MAX);
}

#[test]
fn scores_without_room_fail_the_check() {
    let mut predators = vec![predator(0, 0)];
    predators[0].score = u64::MAX - 1;
    let herd = vec![prey(0, 1), prey(1, 0)];
    assert!(!check_scores(&herd, &predators, &config()));
    assert!(check_scores(&vec![prey(0, 1)], &predators, &config()));
}
