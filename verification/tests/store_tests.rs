use jury::models::{Judge, Options, Project, ALPHA_PRIOR_BITS, BETA_PRIOR_BITS,
    MU_PRIOR_BITS, SIGMA_SQ_PRIOR_BITS};
use jury::requests::{NewJudge, NewProject};
use jury::store::{Store, StoreError};
use jury::vote::update_project_after_vote;

fn plain_project(name: &str) -> Project {
    Project::new(name.to_string(), String::new(), None, None, Vec::new())
}

#[test]
fn new_project_has_default_posterior() {
    let p = plain_project("a");
    assert_eq!(p.mu, MU_PRIOR_BITS);
    assert_eq!(p.sigma_sq, SIGMA_SQ_PRIOR_BITS);
    assert_eq!(f64::from_bits(p.mu), 0.0);
    assert_eq!(f64::from_bits(p.sigma_sq), 1.0);
    assert_eq!(p.seen, 0);
    assert_eq!(p.votes, 0);
    assert!(p.active);
    assert!(!p.prioritized);
}

#[test]
fn new_judge_has_prior_posterior_and_code() {
    let j = Judge::new("n".to_string(), "e".to_string(), "x".to_string());
    assert_eq!(f64::from_bits(j.alpha), 10.0);
    assert_eq!(f64::from_bits(j.beta), 1.0);
    assert_eq!(j.code.len(), 6);
    assert!(j.code.chars().all(|c| c.is_ascii_digit()));
    assert!(j.token.is_empty());
    assert_eq!(j.prev, None);
    assert_eq!(j.next, None);
}

#[test]
fn inserted_projects_get_contiguous_locations() {
    let mut s = Store::new();
    s.insert_projects(vec![plain_project("a"), plain_project("b"), plain_project("c")]);
    let all = s.find_all_projects();
    let locations: Vec<u64> = all.iter().map(|p| p.location).collect();
    assert_eq!(locations, vec![1, 2, 3]);
    s.insert_project(NewProject {
        name: "d".to_string(),
        description: String::new(),
        try_link: None,
        video_link: None,
        challenge_list: Vec::new(),
    });
    let all = s.find_all_projects();
    let locations: Vec<u64> = all.iter().map(|p| p.location).collect();
    assert_eq!(locations, vec![1, 2, 3, 4]);
    assert_eq!(s.get_next_location(), 5);
}

#[test]
fn options_round_trip_leaves_store_unchanged() {
    let mut s = Store::new();
    let first = s.get_options();
    assert_eq!(first, Options { id: None, next_table_num: 1 });
    let o = s.get_options();
    s.save_options(&o);
    assert_eq!(s.get_options(), o);
}

#[test]
fn get_next_table_num_advances() {
    let mut o = Options::new();
    assert_eq!(o.get_next_table_num(), 1);
    assert_eq!(o.get_next_table_num(), 2);
    assert_eq!(o.next_table_num, 3);
}

#[test]
fn increment_location_steps_by_amount() {
    let mut s = Store::new();
    s.increment_location(None);
    assert_eq!(s.get_next_location(), 2);
    s.increment_location(Some(5));
    assert_eq!(s.get_next_location(), 7);
}

#[test]
fn find_project_by_id_and_delete() {
    let mut s = Store::new();
    s.insert_projects(vec![plain_project("a"), plain_project("b")]);
    let a_id = s.find_all_projects()[0].id.unwrap();
    let found = s.find_project_by_id(a_id).unwrap();
    assert_eq!(found.name, "a");
    assert_eq!(s.find_project_by_id(999).err(), Some(StoreError::NotFound));
    assert!(s.delete_project_by_id(a_id).is_ok());
    assert!(s.find_project_by_id(a_id).is_err());
    assert_eq!(s.find_all_projects().len(), 1);
    assert!(s.delete_project_by_id(a_id).is_err());
}

#[test]
fn insert_judge_assigns_fields() {
    let mut s = Store::new();
    s.insert_judge(NewJudge {
        name: "ada".to_string(),
        email: "a@b".to_string(),
        notes: None,
    });
    let all = s.find_all_judges();
    assert_eq!(all.len(), 1);
    assert_eq!(all[0].name, "ada");
    assert_eq!(all[0].email, "a@b");
    assert_eq!(all[0].notes, "");
    assert_eq!(all[0].alpha, ALPHA_PRIOR_BITS);
    assert_eq!(all[0].beta, BETA_PRIOR_BITS);
    assert!(all[0].id.is_some());
}

#[test]
fn login_rotates_a_sixteen_character_token() {
    let mut s = Store::new();
    let mut j = Judge::new("n".to_string(), String::new(), String::new());
    j.code = "123456".to_string();
    s.insert_judges(vec![j]);
    let token = s.login("123456").unwrap();
    assert_eq!(token.len(), 16);
    let found = s.find_judge_by_token(&token).unwrap();
    assert_eq!(found.code, "123456");
    // A second login replaces the token.
    let token2 = s.login("123456").unwrap();
    assert!(s.find_judge_by_token(&token).is_err() || token == token2);
    assert!(s.find_judge_by_token(&token2).is_ok());
    assert!(s.login("000000").is_err());
}

#[test]
fn read_welcome_latches() {
    let mut s = Store::new();
    let mut j = Judge::new("n".to_string(), String::new(), String::new());
    j.code = "222222".to_string();
    s.insert_judges(vec![j]);
    let token = s.login("222222").unwrap();
    assert!(!s.find_judge_by_token(&token).unwrap().read_welcome);
    s.read_welcome(&token);
    assert!(s.find_judge_by_token(&token).unwrap().read_welcome);
}

#[test]
fn update_judge_token_sets_token() {
    let mut s = Store::new();
    let mut j = Judge::new("n".to_string(), String::new(), String::new());
    j.code = "333333".to_string();
    s.insert_judges(vec![j]);
    s.update_judge_token("333333", "fixed-token");
    assert!(s.find_judge_by_token("fixed-token").is_ok());
    assert!(s.find_judge_by_code("999999").is_err());
}

#[test]
fn delete_judge_by_id_removes_first_match() {
    let mut s = Store::new();
    s.insert_judge(NewJudge { name: "a".to_string(), email: String::new(), notes: None });
    s.insert_judge(NewJudge { name: "b".to_string(), email: String::new(), notes: None });
    let id = s.find_all_judges()[0].id.unwrap();
    assert!(s.delete_judge_by_id(id).is_ok());
    let rest = s.find_all_judges();
    assert_eq!(rest.len(), 1);
    assert_eq!(rest[0].name, "b");
    assert!(s.delete_judge_by_id(id).is_err());
}

#[test]
fn aggregates_count_exactly() {
    let mut s = Store::new();
    let mut a = plain_project("a");
    a.seen = 3;
    a.votes = 2;
    let mut b = plain_project("b");
    b.seen = 5;
    b.votes = 1;
    b.active = false;
    s.insert_projects(vec![a, b]);
    let mut j1 = Judge::new("x".to_string(), String::new(), String::new());
    j1.votes = 4;
    let mut j2 = Judge::new("y".to_string(), String::new(), String::new());
    j2.votes = 9;
    j2.active = false;
    s.insert_judges(vec![j1, j2]);

    let (projects, judges, seen, votes) = s.aggregate_stats();
    assert_eq!((projects, judges, seen, votes), (2, 2, 8, 3));
    let (num, num_active, active_votes) = s.aggregate_judge_stats();
    assert_eq!((num, num_active, active_votes), (2, 1, 4));
    let (active, a_votes, a_seen) = s.aggregate_project_stats();
    assert_eq!((active, a_votes, a_seen), (1, 2, 3));
}

#[test]
fn voting_project_info_reads_pair() {
    let mut s = Store::new();
    s.insert_projects(vec![plain_project("alpha"), plain_project("beta")]);
    let ids: Vec<u64> = s.find_all_projects().iter().map(|p| p.id.unwrap()).collect();
    let mut j = Judge::new("n".to_string(), String::new(), String::new());
    j.next = Some(ids[1]);
    j.prev = Some(ids[0]);
    let info = s.get_judge_voting_project_info(&j).unwrap();
    assert_eq!(info.curr_name.as_deref(), Some("beta"));
    assert_eq!(info.curr_location, Some(2));
    assert_eq!(info.prev_name.as_deref(), Some("alpha"));
    assert_eq!(info.prev_location, Some(1));

    let mut dangling = Judge::new("m".to_string(), String::new(), String::new());
    dangling.next = Some(12345);
    assert!(s.get_judge_voting_project_info(&dangling).is_err());
}

#[test]
fn vote_updates_counters_and_posterior_words() {
    let mut winner = plain_project("w");
    winner.seen = 4;
    winner.votes = 1;
    let mut loser = plain_project("l");
    loser.seen = 2;
    loser.votes = 2;
    let mu_w = f64::to_bits(4.2);
    let sq_w = f64::to_bits(1.0);
    let mu_l = f64::to_bits(3.11);
    let sq_l = f64::to_bits(0.65);
    update_project_after_vote(&mut winner, mu_w, sq_w, true, 1000);
    update_project_after_vote(&mut loser, mu_l, sq_l, false, 1000);
    assert_eq!(winner.seen, 5);
    assert_eq!(winner.votes, 2);
    assert_eq!(loser.seen, 3);
    assert_eq!(loser.votes, 2);
    assert_eq!(f64::from_bits(winner.mu), 4.2);
    assert_eq!(f64::from_bits(loser.sigma_sq), 0.65);
    assert_eq!(winner.last_activity, 1000);
    assert_eq!(loser.last_activity, 1000);
}

#[test]
fn store_vote_write_back_updates_matching_project() {
    let mut s = Store::new();
    s.insert_projects(vec![plain_project("a"), plain_project("b")]);
    let id = s.find_all_projects()[1].id.unwrap();
    let mu = f64::to_bits(0.5);
    let sq = f64::to_bits(0.9);
    assert!(s.update_project_after_vote(id, mu, sq, true, 77).is_ok());
    let p = s.find_project_by_id(id).unwrap();
    assert_eq!(p.seen, 1);
    assert_eq!(p.votes, 1);
    assert_eq!(p.mu, mu);
    assert_eq!(p.sigma_sq, sq);
    assert_eq!(p.last_activity, 77);
    let other = s.find_all_projects()[0].clone();
    assert_eq!(other.seen, 0);
    assert_eq!(other.votes, 0);
    assert!(s.update_project_after_vote(9999, mu, sq, false, 1).is_err());
}
