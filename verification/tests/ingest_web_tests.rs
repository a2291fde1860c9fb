use jury::auth::{authenticate_token, check_admin_password, AdminPasswordError, TokenError};
use jury::ingest::{devpost_integration, split_commas};
use jury::models::Judge;
use jury::requests::{NewJudge, NewProject};
use jury::text::{str_contains, str_eq};
use jury::web::{all_options, cors_headers, judge_login, unauthorized, Login};

#[test]
fn split_commas_splits_exactly() {
    let fields = split_commas("a,bb,,c");
    assert_eq!(fields, vec!["a", "bb", "", "c"]);
    assert_eq!(split_commas("plain"), vec!["plain"]);
    assert_eq!(split_commas(""), vec![""]);
}

#[test]
fn devpost_rows_become_projects() {
    let csv = "\
Title,Url,Status,Judging,Step,Created,About,Try,Video,Prizes,Built,Notes,Colleges\n\
Proj One,https://x,Submitted,,,,A demo,https://try,https://vid,\"Best AI,Best Web\",,,\n\
Proj Two,,Submitted,,,,Another,,,Solo Prize,,,\n";
    let projects = devpost_integration(csv).unwrap();
    assert_eq!(projects.len(), 2);
    assert_eq!(projects[0].name, "Proj One");
    assert_eq!(projects[0].description, "A demo");
    assert_eq!(projects[0].try_link.as_deref(), Some("https://try"));
    assert_eq!(projects[0].video_link.as_deref(), Some("https://vid"));
    assert_eq!(projects[0].challenge_list, vec!["Best AI", "Best Web"]);
    assert_eq!(projects[1].name, "Proj Two");
    assert_eq!(projects[1].try_link, None);
    assert_eq!(projects[1].challenge_list, vec!["Solo Prize"]);
    assert!(projects.iter().all(|p| p.active && !p.prioritized && p.location == 0));
}

#[test]
fn devpost_short_rows_are_dropped() {
    // A file whose rows are too narrow to map parses fine but yields no
    // usable project.
    let csv = "Title,Url,Status\nOnly,Three,Columns\n";
    let projects = devpost_integration(csv).unwrap();
    assert!(projects.is_empty());
}

#[test]
fn devpost_malformed_csv_is_an_error() {
    // An unclosed quote makes the reader fail.
    let csv = "Title,Url,Status,Judging,Step,Created,About,Try,Video,Prizes,Built,Notes,Colleges\n\"oops,,,,,,,,,,,\n";
    assert!(devpost_integration(csv).is_err());
}

#[test]
fn string_helpers_compare_and_search() {
    assert!(str_eq("abc", "abc"));
    assert!(!str_eq("abc", "abd"));
    assert!(!str_eq("abc", "ab"));
    assert!(str_contains("api/judge/vote", "judge"));
    assert!(!str_contains("api/admin/sync", "judge"));
    assert!(str_contains("anything", ""));
}

#[test]
fn unauthorized_redirects_by_route() {
    assert_eq!(unauthorized(None), "/");
    assert_eq!(unauthorized(Some("/api/judge/vote")), "/judge/login");
    assert_eq!(unauthorized(Some("/api/admin/stats")), "/admin/login");
}

#[test]
fn cors_headers_are_the_four_expected() {
    let headers = cors_headers();
    assert_eq!(headers.len(), 4);
    assert_eq!(headers[0].0, "Access-Control-Allow-Origin");
    assert_eq!(headers[0].1, "*");
    assert_eq!(headers[1].0, "Access-Control-Allow-Methods");
    assert_eq!(headers[1].1, "POST, GET, PATCH, OPTIONS");
    assert_eq!(headers[2].0, "Access-Control-Allow-Headers");
    assert_eq!(headers[3].1, "true");
    all_options();
}

#[test]
fn judge_login_echoes_code() {
    let body = Login { code: "424242".to_string() };
    assert_eq!(judge_login(&body), "424242");
}

#[test]
fn admin_password_check_covers_all_cases() {
    let ok = check_admin_password(Some("secret"), "secret");
    assert_eq!(ok.unwrap().0, "secret");
    assert_eq!(
        check_admin_password(Some("wrong"), "secret").err(),
        Some(AdminPasswordError::Invalid)
    );
    assert_eq!(check_admin_password(None, "secret").err(), Some(AdminPasswordError::Missing));
}

#[test]
fn token_authentication_checks_judge_list() {
    let mut j = Judge::new("n".to_string(), String::new(), String::new());
    j.token = "goodtoken1234567".to_string();
    let judges = vec![j];
    assert_eq!(authenticate_token(Some("goodtoken1234567"), &judges).unwrap().0,
        "goodtoken1234567");
    assert!(matches!(
        authenticate_token(Some("badtoken"), &judges),
        Err(TokenError::Invalid)
    ));
    assert!(matches!(authenticate_token(None, &judges), Err(TokenError::Missing)));
}

#[test]
fn new_judge_conversion_fills_defaults() {
    let j = NewJudge { name: "ada".to_string(), email: "a@b".to_string(), notes: None }
        .into_judge();
    assert_eq!(j.name, "ada");
    assert_eq!(j.notes, "");
    assert_eq!(j.code.len(), 6);
    let j2 = NewJudge {
        name: "bob".to_string(),
        email: String::new(),
        notes: Some("vip".to_string()),
    }
        .into_judge();
    assert_eq!(j2.notes, "vip");
}

#[test]
fn new_project_conversion_keeps_fields() {
    let p = NewProject {
        name: "p".to_string(),
        description: "d".to_string(),
        try_link: Some("t".to_string()),
        video_link: None,
        challenge_list: vec!["c1".to_string()],
    }
        .into_project();
    assert_eq!(p.name, "p");
    assert_eq!(p.description, "d");
    assert_eq!(p.try_link.as_deref(), Some("t"));
    assert_eq!(p.video_link, None);
    assert_eq!(p.challenge_list, vec!["c1"]);
    assert_eq!(p.location, 0);
}

#[test]
fn get_cookie_finds_first_match() {
    let cookies = vec![
        ("theme".to_string(), "dark".to_string()),
        ("token".to_string(), "abc".to_string()),
        ("token".to_string(), "zzz".to_string()),
    ];
    assert_eq!(jury::web::get_cookie(&cookies, "token").as_deref(), Some("abc"));
    assert_eq!(jury::web::get_cookie(&cookies, "admin-pass"), None);
}
