use jury::models::{Judge, Project};
use jury::selector::{
    find_all_busy_projects, find_preferred_items, max_info_gain, pick_next_project,
    shuffle_and_explore,
};
use jury::vote::{choose_winner_loser, judge_stage, update_judge_projects, VoteStage};

fn project(id: u64, name: &str) -> Project {
    let mut p = Project::new(name.to_string(), String::new(), None, None, Vec::new());
    p.id = Some(id);
    p
}

fn judge(id: u64, name: &str) -> Judge {
    let mut j = Judge::new(name.to_string(), String::new(), String::new());
    j.id = Some(id);
    j
}

#[test]
fn selector_returns_none_without_active_projects() {
    let mut a = project(1, "a");
    a.active = false;
    let judges: Vec<Judge> = vec![judge(7, "j")];
    let items = find_preferred_items(vec![a], &judges);
    assert!(items.is_empty());
    let picked = pick_next_project(items, &Vec::new(), false);
    assert!(picked.is_none());
}

#[test]
fn selector_prefers_prioritized_projects() {
    let a = project(1, "a");
    let mut b = project(2, "b");
    b.prioritized = true;
    let c = project(3, "c");
    let items = find_preferred_items(vec![a, b, c], &Vec::new());
    assert_eq!(items.len(), 1);
    assert_eq!(items[0].id, Some(2));
}

#[test]
fn selector_prefers_underseen_projects() {
    let mut a = project(1, "a");
    a.seen = 10;
    let b = project(2, "b");
    let mut c = project(3, "c");
    c.seen = 4;
    let items = find_preferred_items(vec![a, b, c], &Vec::new());
    assert_eq!(items.len(), 1);
    assert_eq!(items[0].id, Some(2));
}

#[test]
fn busy_projects_are_excluded() {
    let a = project(1, "a");
    let b = project(2, "b");
    let mut j = judge(7, "j");
    j.next = Some(1);
    let judges = vec![j];
    let busy = find_all_busy_projects(&judges);
    assert_eq!(busy, vec![1]);
    let items = find_preferred_items(vec![a, b], &judges);
    assert_eq!(items.len(), 1);
    assert_eq!(items[0].id, Some(2));
}

#[test]
fn inactive_judges_make_nothing_busy() {
    let mut j = judge(7, "j");
    j.next = Some(1);
    j.active = false;
    assert!(find_all_busy_projects(&vec![j]).is_empty());
}

#[test]
fn max_info_gain_takes_last_of_ties() {
    let list = vec![project(1, "a"), project(2, "b"), project(3, "c")];
    let gains: Vec<u64> = vec![5, 9, 9];
    let best = max_info_gain(list, &gains);
    assert_eq!(best.id, Some(3));
}

#[test]
fn max_info_gain_takes_greatest() {
    let list = vec![project(1, "a"), project(2, "b"), project(3, "c")];
    let gains: Vec<u64> = vec![5, 12, 9];
    let best = max_info_gain(list, &gains);
    assert_eq!(best.id, Some(2));
}

#[test]
fn pick_next_project_explores_first_candidate() {
    let list = vec![project(1, "a"), project(2, "b")];
    let gains: Vec<u64> = vec![0, 100];
    let picked = pick_next_project(list, &gains, true).unwrap();
    assert_eq!(picked.id, Some(1));
}

#[test]
fn pick_next_project_exploits_best_gain() {
    let list = vec![project(1, "a"), project(2, "b")];
    let gains: Vec<u64> = vec![0, 100];
    let picked = pick_next_project(list, &gains, false).unwrap();
    assert_eq!(picked.id, Some(2));
}

#[test]
fn shuffle_keeps_the_candidates() {
    let mut items = vec![project(1, "a"), project(2, "b"), project(3, "c")];
    let _ = shuffle_and_explore(&mut items);
    assert_eq!(items.len(), 3);
    let mut ids: Vec<u64> = items.iter().map(|p| p.id.unwrap()).collect();
    ids.sort();
    assert_eq!(ids, vec![1, 2, 3]);
}

#[test]
fn bootstrap_vote_assigns_first_project() {
    // A new judge with three active projects: the first vote request
    // yields some next project and no previous one.
    let projects = vec![project(1, "a"), project(2, "b"), project(3, "c")];
    let mut j = judge(7, "j");
    let judges = vec![j.clone()];
    assert_eq!(judge_stage(&j), VoteStage::Bootstrap);

    let mut items = find_preferred_items(projects, &judges);
    let explore = shuffle_and_explore(&mut items);
    let gains: Vec<u64> = vec![0; items.len()];
    let next = pick_next_project(items, &gains, explore).unwrap();
    let next_id = next.id.unwrap();
    assert!(next_id == 1 || next_id == 2 || next_id == 3);

    let (alpha, beta) = (j.alpha, j.beta);
    update_judge_projects(&mut j, Some(next_id), alpha, beta, false);
    assert_eq!(j.prev, None);
    assert_eq!(j.next, Some(next_id));
    assert_eq!(judge_stage(&j), VoteStage::First);
}

#[test]
fn second_vote_advances_pair_to_remaining_project() {
    // Continuing from bootstrap: the judge stands at project 1; a vote
    // advances prev to 1 and selects one of the others.
    let projects = vec![project(1, "a"), project(2, "b"), project(3, "c")];
    let mut j = judge(7, "j");
    j.next = Some(1);
    assert_eq!(judge_stage(&j), VoteStage::First);
    // No pair yet: nothing to compare.
    assert!(choose_winner_loser(&j, true).is_none());

    let judges = vec![j.clone()];
    let mut items = find_preferred_items(projects, &judges);
    let explore = shuffle_and_explore(&mut items);
    let gains: Vec<u64> = vec![0; items.len()];
    let next = pick_next_project(items, &gains, explore).unwrap();
    let next_id = next.id.unwrap();
    assert!(next_id == 2 || next_id == 3);

    let (alpha, beta) = (j.alpha, j.beta);
    update_judge_projects(&mut j, Some(next_id), alpha, beta, false);
    assert_eq!(j.prev, Some(1));
    assert_eq!(j.next, Some(next_id));
    assert_eq!(judge_stage(&j), VoteStage::Steady);
}

#[test]
fn steady_vote_picks_winner_and_loser() {
    let mut j = judge(7, "j");
    j.prev = Some(1);
    j.next = Some(2);
    assert_eq!(choose_winner_loser(&j, true), Some((2, 1)));
    assert_eq!(choose_winner_loser(&j, false), Some((1, 2)));
}

#[test]
fn busy_exclusion_starves_second_judge() {
    // Two judges, one active project: once the first judge is walking to
    // it, the second gets nothing.
    let p = project(1, "only");
    let mut j1 = judge(10, "j1");
    let j2 = judge(11, "j2");

    let judges = vec![j1.clone(), j2.clone()];
    let mut items = find_preferred_items(vec![p.clone()], &judges);
    let explore = shuffle_and_explore(&mut items);
    let gains: Vec<u64> = vec![0; items.len()];
    let next = pick_next_project(items, &gains, explore).unwrap();
    assert_eq!(next.id, Some(1));
    let (alpha, beta) = (j1.alpha, j1.beta);
    update_judge_projects(&mut j1, Some(1), alpha, beta, false);

    let judges = vec![j1, j2];
    let items = find_preferred_items(vec![p], &judges);
    assert!(items.is_empty());
    let picked = pick_next_project(items, &Vec::new(), false);
    assert!(picked.is_none());
}
