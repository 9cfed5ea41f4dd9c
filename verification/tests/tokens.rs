use gitlab_tokens_exporter::gitlab::{
    AccessLevel, AccessToken, AccessTokenScope, PersonalAccessToken, PersonalAccessTokenScope, Token,
};

fn access_token(scopes: Vec<AccessTokenScope>) -> AccessToken {
    AccessToken {
        access_level: AccessLevel::Developer,
        active: true,
        expires_at: None,
        id: 1,
        name: "name".to_owned(),
        revoked: false,
        scopes,
    }
}

fn group(scopes: Vec<AccessTokenScope>) -> Token {
    Token::Group {
        token: access_token(scopes),
        full_path: "group".to_owned(),
        web_url: "https://gl.example.com/groups/group".to_owned(),
    }
}

fn project(scopes: Vec<AccessTokenScope>) -> Token {
    Token::Project {
        token: access_token(scopes),
        full_path: "group/project".to_owned(),
        web_url: "https://gl.example.com/group/project".to_owned(),
    }
}

fn user(scopes: Vec<PersonalAccessTokenScope>) -> Token {
    Token::User {
        token: PersonalAccessToken {
            active: true,
            expires_at: None,
            name: "name".to_owned(),
            revoked: false,
            scopes,
            user_id: 1,
        },
        full_path: "user".to_owned(),
    }
}

#[test]
fn no_scopes_give_empty_brackets() {
    assert_eq!(group(vec![]).scopes().unwrap(), "[]");
    assert_eq!(user(vec![]).scopes().unwrap(), "[]");
}

#[test]
fn one_scope_has_no_comma() {
    assert_eq!(group(vec![AccessTokenScope::Api]).scopes().unwrap(), "[api]");
}

#[test]
fn scopes_are_listed_in_order() {
    assert_eq!(
        project(vec![AccessTokenScope::WriteRepository, AccessTokenScope::ReadApi])
            .scopes()
            .unwrap(),
        "[write_repository,read_api]"
    );
    assert_eq!(
        user(vec![
            PersonalAccessTokenScope::Sudo,
            PersonalAccessTokenScope::ReadServicePing,
            PersonalAccessTokenScope::ReadUser
        ])
        .scopes()
        .unwrap(),
        "[sudo,read_service_ping,read_user]"
    );
}

#[test]
fn different_scopes_give_different_texts() {
    let a = group(vec![AccessTokenScope::Api, AccessTokenScope::ReadApi]);
    let b = group(vec![AccessTokenScope::ReadApi, AccessTokenScope::Api]);
    assert_ne!(a.scopes().unwrap(), b.scopes().unwrap());
}

#[test]
fn names_of_access_token_scopes() {
    let expected = [
        (AccessTokenScope::AiFeatures, "ai_features"),
        (AccessTokenScope::Api, "api"),
        (AccessTokenScope::CreateRunner, "create_runner"),
        (AccessTokenScope::K8sProxy, "k8s_proxy"),
        (AccessTokenScope::ManageRunner, "manage_runner"),
        (AccessTokenScope::ReadApi, "read_api"),
        (AccessTokenScope::ReadObservability, "read_observability"),
        (AccessTokenScope::ReadRegistry, "read_registry"),
        (AccessTokenScope::ReadRepository, "read_repository"),
        (AccessTokenScope::ReadVirtualRegistry, "read_virtual_repository"),
        (AccessTokenScope::SelfRotate, "self_rotate"),
        (AccessTokenScope::WriteObservability, "write_observability"),
        (AccessTokenScope::WriteRegistry, "write_registry"),
        (AccessTokenScope::WriteRepository, "write_repository"),
        (AccessTokenScope::WriteVirtualRegistry, "write_virtual_registry"),
    ];
    for (scope, name) in expected {
        assert_eq!(scope.to_string(), name);
    }
}

#[test]
fn names_of_personal_access_token_scopes() {
    let expected = [
        (PersonalAccessTokenScope::AdminMode, "admin_mode"),
        (PersonalAccessTokenScope::AiFeatures, "ai_features"),
        (PersonalAccessTokenScope::Api, "api"),
        (PersonalAccessTokenScope::CreateRunner, "create_runner"),
        (PersonalAccessTokenScope::K8sProxy, "k8s_proxy"),
        (PersonalAccessTokenScope::ManageRunner, "manage_runner"),
        (PersonalAccessTokenScope::ReadApi, "read_api"),
        (PersonalAccessTokenScope::ReadObservability, "read_observability"),
        (PersonalAccessTokenScope::ReadRegistry, "read_registry"),
        (PersonalAccessTokenScope::ReadRepository, "read_repository"),
        (PersonalAccessTokenScope::ReadServicePing, "read_service_ping"),
        (PersonalAccessTokenScope::ReadUser, "read_user"),
        (PersonalAccessTokenScope::ReadVirtualRegistry, "read_virtual_registry"),
        (PersonalAccessTokenScope::SelfRotate, "self_rotate"),
        (PersonalAccessTokenScope::Sudo, "sudo"),
        (PersonalAccessTokenScope::WriteObservability, "write_observability"),
        (PersonalAccessTokenScope::WriteRegistry, "write_registry"),
        (PersonalAccessTokenScope::WriteRepository, "write_repository"),
        (PersonalAccessTokenScope::WriteVirtualRegistry, "write_virtual_registry"),
    ];
    for (scope, name) in expected {
        assert_eq!(scope.to_string(), name);
    }
}

#[test]
fn access_levels_have_numbers_and_names() {
    for (level, number, name) in [
        (AccessLevel::Guest, 10, "guest"),
        (AccessLevel::Reporter, 20, "reporter"),
        (AccessLevel::Developer, 30, "developer"),
        (AccessLevel::Maintainer, 40, "maintainer"),
        (AccessLevel::Owner, 50, "owner"),
    ] {
        assert_eq!(level.as_u8(), number);
        assert_eq!(level.to_string(), name);
        assert_eq!(AccessLevel::from_u8(number).unwrap().to_string(), name);
    }
}

#[test]
fn other_numbers_are_no_access_level() {
    for number in [0, 5, 15, 35, 60, 255] {
        assert!(AccessLevel::from_u8(number).is_none());
    }
}

#[test]
fn names_of_access_token_scopes_are_read_back() {
    for name in [
        "ai_features", "api", "create_runner", "k8s_proxy", "manage_runner", "read_api",
        "read_observability", "read_registry", "read_repository", "self_rotate",
        "write_observability", "write_registry", "write_repository", "write_virtual_registry",
    ] {
        assert_eq!(AccessTokenScope::from_name(name).unwrap().to_string(), name);
        assert_eq!(PersonalAccessTokenScope::from_name(name).unwrap().to_string(), name);
    }
    assert!(matches!(
        AccessTokenScope::from_name("read_virtual_registry"),
        Some(AccessTokenScope::ReadVirtualRegistry)
    ));
    assert!(AccessTokenScope::from_name("read_virtual_repository").is_none());
}

#[test]
fn names_of_personal_access_token_scopes_are_read_back() {
    for name in [
        "admin_mode", "ai_features", "api", "create_runner", "k8s_proxy", "manage_runner",
        "read_api", "read_observability", "read_registry", "read_repository", "read_service_ping",
        "read_user", "read_virtual_registry", "self_rotate", "sudo", "write_observability",
        "write_registry", "write_repository", "write_virtual_registry",
    ] {
        assert_eq!(PersonalAccessTokenScope::from_name(name).unwrap().to_string(), name);
    }
}

#[test]
fn other_names_are_no_scope() {
    for name in ["", "API", "api ", "apis", "read-api", "sudo,api"] {
        assert!(AccessTokenScope::from_name(name).is_none(), "{name}");
        assert!(PersonalAccessTokenScope::from_name(name).is_none(), "{name}");
    }
    for name in ["admin_mode", "read_service_ping", "read_user", "sudo"] {
        assert!(AccessTokenScope::from_name(name).is_none(), "{name}");
    }
}
