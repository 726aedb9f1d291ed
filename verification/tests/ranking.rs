use find_similar::ranking::{rank_matches, MATCH_THRESHOLD};

#[test]
fn threshold_is_one_half() {
    assert_eq!(MATCH_THRESHOLD, 500_000_000);
}

#[test]
fn best_two_of_three() {
    let scores = vec![900_000_000, 600_000_000, 300_000_000];
    assert_eq!(rank_matches(&scores, 2), vec![0, 1]);
    // The third stays out whatever is asked for.
    assert_eq!(rank_matches(&scores, 3), vec![0, 1]);
    assert_eq!(rank_matches(&scores, 1), vec![0]);
    assert_eq!(rank_matches(&scores, 0), Vec::<usize>::new());
}

#[test]
fn ranking_orders_by_descending_score() {
    let scores = vec![510_000_000, 990_000_000, 100_000_000, 700_000_000, 1_000_000_000, 0];
    assert_eq!(rank_matches(&scores, 10), vec![4, 1, 3, 0]);
    assert_eq!(rank_matches(&scores, 3), vec![4, 1, 3]);
}

#[test]
fn a_score_of_exactly_one_half_is_no_match() {
    let scores = vec![500_000_000, 500_000_001, 499_999_999];
    assert_eq!(rank_matches(&scores, 5), vec![1]);
}

#[test]
fn nothing_to_rank() {
    assert_eq!(rank_matches(&Vec::new(), 5), Vec::<usize>::new());
    assert_eq!(rank_matches(&vec![0, 1, 2], 5), Vec::<usize>::new());
}

#[test]
fn ranking_holds_each_position_once() {
    let scores: Vec<u64> = (0..200u64).map(|i| 400_000_000 + (i * 7919 % 200) * 3_000_000).collect();
    let picked = rank_matches(&scores, 50);
    assert_eq!(picked.len(), 50);
    for pair in picked.windows(2) {
        assert!(scores[pair[0]] >= scores[pair[1]]);
    }
    let mut seen = picked.clone();
    seen.sort();
    seen.dedup();
    assert_eq!(seen.len(), 50);
    let least = scores[picked[49]];
    for (position, score) in scores.iter().enumerate() {
        assert!(*score > MATCH_THRESHOLD || !picked.contains(&position));
        assert!(picked.contains(&position) || *score <= least);
    }
}

#[test]
fn equal_scores_are_all_returned() {
    let scores = vec![800_000_000, 800_000_000, 800_000_000];
    let mut picked = rank_matches(&scores, 3);
    picked.sort();
    assert_eq!(picked, vec![0, 1, 2]);
    assert_eq!(rank_matches(&scores, 2).len(), 2);
}
