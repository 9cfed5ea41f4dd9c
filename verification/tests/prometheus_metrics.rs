use chrono::{Datelike, Days, Utc};
use gitlab_tokens_exporter::date::Date;
use gitlab_tokens_exporter::gitlab::token::{
    AccessLevel, AccessToken, AccessTokenScope, PersonalAccessToken, PersonalAccessTokenScope, Token,
};
use gitlab_tokens_exporter::prometheus_metrics::{build, build_at};

/// Builds a project token, optionally with an expiry `days` in the future
fn project_token(active: bool, expiry_in_days: Option<u64>) -> Token {
    let expires_at = expiry_in_days.map(|days| {
        let expiry = Utc::now()
            .date_naive()
            .checked_add_days(Days::new(days))
            .unwrap();
        Date::from_ymd(expiry.year(), expiry.month(), expiry.day()).unwrap()
    });
    Token::Project {
        token: AccessToken {
            access_level: AccessLevel::Guest,
            active,
            expires_at,
            id: 1,
            name: "ci-token".to_owned(),
            revoked: false,
            scopes: vec![AccessTokenScope::ReadApi],
        },
        full_path: "group/project".to_owned(),
        web_url: "https://gl.example.com/group/project".to_owned(),
    }
}

fn group_token(expires_at: Option<Date>) -> Token {
    Token::Group {
        token: AccessToken {
            access_level: AccessLevel::Owner,
            active: false,
            expires_at,
            id: 2,
            name: "deploy".to_owned(),
            revoked: false,
            scopes: vec![],
        },
        full_path: "group".to_owned(),
        web_url: "https://gl.example.com/groups/group".to_owned(),
    }
}

fn user_token(expires_at: Option<Date>) -> Token {
    Token::User {
        token: PersonalAccessToken {
            active: true,
            expires_at,
            name: "laptop".to_owned(),
            revoked: false,
            scopes: vec![PersonalAccessTokenScope::Api],
            user_id: 7,
        },
        full_path: "jdoe".to_owned(),
    }
}

#[test]
fn expiring_token_emits_day_count() {
    let out = build(&project_token(true, Some(30))).unwrap();
    assert_eq!(
        out.trim_end(),
        "gitlab_token_expiration{token_type=\"project\",full_path=\"group/project\",token_name=\"ci-token\",active=\"true\"} 30"
    );
}

#[test]
fn non_expiring_token_emits_nan() {
    let out = build(&project_token(true, None)).unwrap();
    assert!(out.trim_end().ends_with("} NaN"), "got: {out}");
    // must stay out of the `>= 0` alert comparison
    assert!(!out.contains("} 0"), "got: {out}");
}

#[test]
fn inactive_token_carries_active_false_label() {
    let out = build(&project_token(false, Some(3))).unwrap();
    assert!(out.contains("active=\"false\""), "got: {out}");
}

#[test]
fn group_token_line_is_exact() {
    let expiry = Date::from_ymd(2025, 3, 1);
    let today = Date::from_ymd(2024, 2, 28).unwrap();
    assert_eq!(
        build_at(&group_token(expiry), today),
        "gitlab_token_expiration{token_type=\"group\",full_path=\"group\",token_name=\"deploy\",active=\"false\"} 367\n"
    );
}

#[test]
fn expired_user_token_has_a_negative_value() {
    let expiry = Date::from_ymd(2023, 12, 31);
    let today = Date::from_ymd(2024, 1, 10).unwrap();
    assert_eq!(
        build_at(&user_token(expiry), today),
        "gitlab_token_expiration{token_type=\"user\",full_path=\"jdoe\",token_name=\"laptop\",active=\"true\"} -10\n"
    );
}

#[test]
fn value_counts_down_to_zero() {
    let expiry = Date::from_ymd(2024, 3, 1);
    for (day, value) in [(27, "3"), (28, "2"), (29, "1")] {
        let today = Date::from_ymd(2024, 2, day).unwrap();
        assert!(build_at(&user_token(expiry), today).ends_with(&format!("}} {value}\n")));
    }
    assert!(build_at(&user_token(expiry), expiry.unwrap()).ends_with("} 0\n"));
}

#[test]
fn non_expiring_line_does_not_depend_on_the_day() {
    let a = build_at(&group_token(None), Date::from_ymd(1999, 1, 1).unwrap());
    let b = build_at(&group_token(None), Date::from_ymd(2030, 12, 31).unwrap());
    assert_eq!(a, b);
    assert_eq!(a, build(&group_token(None)).unwrap());
}

#[test]
fn labels_tell_tokens_apart() {
    let today = Date::from_ymd(2024, 1, 1).unwrap();
    assert_ne!(
        build_at(&group_token(None), today),
        build_at(&user_token(None), today)
    );
}

#[test]
fn metric_is_one_line() {
    let today = Date::from_ymd(2024, 1, 1).unwrap();
    let line = build_at(&user_token(Some(today)), today);
    assert_eq!(line.lines().count(), 1);
    assert!(line.ends_with('\n'));
}
