//! Access tokens of groups, projects and users.

use crate::date::Date;
use vstd::prelude::*;

verus! {

/// cf <https://docs.gitlab.com/api/project_access_tokens/#create-a-project-access-token>
#[derive(Clone, Copy, Debug)]
pub enum AccessLevel {
    Developer,
    Guest,
    Maintainer,
    Owner,
    Reporter,
}

impl AccessLevel {
    /// The number that gitlab gives the level.
    pub open spec fn number(self) -> u8 {
        match self {
            AccessLevel::Developer => 30,
            AccessLevel::Guest => 10,
            AccessLevel::Maintainer => 40,
            AccessLevel::Owner => 50,
            AccessLevel::Reporter => 20,
        }
    }

    /// The name of the level.
    pub open spec fn name(self) -> Seq<char> {
        match self {
            AccessLevel::Developer => "developer"@,
            AccessLevel::Guest => "guest"@,
            AccessLevel::Maintainer => "maintainer"@,
            AccessLevel::Owner => "owner"@,
            AccessLevel::Reporter => "reporter"@,
        }
    }

    /// The number that gitlab gives the level.
    pub fn as_u8(self) -> (n: u8)
        ensures
            n == self.number(),
    {
        match self {
            AccessLevel::Developer => 30,
            AccessLevel::Guest => 10,
            AccessLevel::Maintainer => 40,
            AccessLevel::Owner => 50,
            AccessLevel::Reporter => 20,
        }
    }

    /// The level that gitlab gives the number `n`, where there is one.
    pub fn from_u8(n: u8) -> (level: Option<AccessLevel>)
        ensures
            match level {
                Some(level) => level.number() == n,
                None => forall|level: AccessLevel| #[trigger] level.number() != n,
            },
    {
        match n {
            10 => Some(AccessLevel::Guest),
            20 => Some(AccessLevel::Reporter),
            30 => Some(AccessLevel::Developer),
            40 => Some(AccessLevel::Maintainer),
            50 => Some(AccessLevel::Owner),
            _ => None,
        }
    }

    /// The name of the level
    pub fn to_string(&self) -> (s: String)
        ensures
            s@ == self.name(),
    {
        String::from_str(
            match *self {
                AccessLevel::Developer => "developer",
                AccessLevel::Guest => "guest",
                AccessLevel::Maintainer => "maintainer",
                AccessLevel::Owner => "owner",
                AccessLevel::Reporter => "reporter",
            },
        )
    }
}

/// Scopes used by [`AccessToken`] (of a project or a group)
#[derive(Clone, Copy, Debug)]
pub enum AccessTokenScope {
    /// Grants permission to perform API actions for GitLab Duo
    AiFeatures,
    /// Grants complete read and write access to the scoped group and related project API
    Api,
    /// Grants permission to create runners
    CreateRunner,
    /// Grants permission to perform Kubernetes API calls using the agent for Kubernetes
    K8sProxy,
    /// Grants permission to manage runners
    ManageRunner,
    /// Grants read access to the scoped group and related project API
    ReadApi,
    /// Grants read access (pull) to project observability data
    ReadObservability,
    /// Grants read access (pull) to the container registry images
    ReadRegistry,
    /// Grants read access (pull) to the repository or all repositories within a group
    ReadRepository,
    /// If a project is private and authorization is required, grants read-only (pull) access to container images through the dependency proxy
    ReadVirtualRegistry,
    /// Grants permission to rotate this token
    SelfRotate,
    /// Grants write access (push) to project observability data
    WriteObservability,
    /// Grants write access (push) to the container registry
    WriteRegistry,
    /// Grants read and write access (pull and push) to the repository or to all repositories within a group
    WriteRepository,
    /// If a project is private and authorization is required, grants read (pull), write (push), and delete access to container images through the dependency proxy
    WriteVirtualRegistry,
}

impl AccessTokenScope {
    /// The name of the scope.
    pub open spec fn name(self) -> Seq<char> {
        match self {
            AccessTokenScope::AiFeatures => "ai_features"@,
            AccessTokenScope::Api => "api"@,
            AccessTokenScope::CreateRunner => "create_runner"@,
            AccessTokenScope::K8sProxy => "k8s_proxy"@,
            AccessTokenScope::ManageRunner => "manage_runner"@,
            AccessTokenScope::ReadApi => "read_api"@,
            AccessTokenScope::ReadObservability => "read_observability"@,
            AccessTokenScope::ReadRegistry => "read_registry"@,
            AccessTokenScope::ReadRepository => "read_repository"@,
            AccessTokenScope::ReadVirtualRegistry => "read_virtual_repository"@,
            AccessTokenScope::SelfRotate => "self_rotate"@,
            AccessTokenScope::WriteObservability => "write_observability"@,
            AccessTokenScope::WriteRegistry => "write_registry"@,
            AccessTokenScope::WriteRepository => "write_repository"@,
            AccessTokenScope::WriteVirtualRegistry => "write_virtual_registry"@,
        }
    }

    /// The name of the scope
    pub fn to_string(&self) -> (s: String)
        ensures
            s@ == self.name(),
    {
        String::from_str(
            match *self {
                AccessTokenScope::AiFeatures => "ai_features",
                AccessTokenScope::Api => "api",
                AccessTokenScope::CreateRunner => "create_runner",
                AccessTokenScope::K8sProxy => "k8s_proxy",
                AccessTokenScope::ManageRunner => "manage_runner",
                AccessTokenScope::ReadApi => "read_api",
                AccessTokenScope::ReadObservability => "read_observability",
                AccessTokenScope::ReadRegistry => "read_registry",
                AccessTokenScope::ReadRepository => "read_repository",
                AccessTokenScope::ReadVirtualRegistry => "read_virtual_repository",
                AccessTokenScope::SelfRotate => "self_rotate",
                AccessTokenScope::WriteObservability => "write_observability",
                AccessTokenScope::WriteRegistry => "write_registry",
                AccessTokenScope::WriteRepository => "write_repository",
                AccessTokenScope::WriteVirtualRegistry => "write_virtual_registry",
            },
        )
    }

    /// The name that gitlab gives the scope.
    pub open spec fn api_name(self) -> Seq<char> {
        match self {
            AccessTokenScope::ReadVirtualRegistry => "read_virtual_registry"@,
            _ => self.name(),
        }
    }

    /// The scope of a user token that grants the same.
    pub open spec fn as_personal(self) -> PersonalAccessTokenScope {
        match self {
            AccessTokenScope::AiFeatures => PersonalAccessTokenScope::AiFeatures,
            AccessTokenScope::Api => PersonalAccessTokenScope::Api,
            AccessTokenScope::CreateRunner => PersonalAccessTokenScope::CreateRunner,
            AccessTokenScope::K8sProxy => PersonalAccessTokenScope::K8sProxy,
            AccessTokenScope::ManageRunner => PersonalAccessTokenScope::ManageRunner,
            AccessTokenScope::ReadApi => PersonalAccessTokenScope::ReadApi,
            AccessTokenScope::ReadObservability => PersonalAccessTokenScope::ReadObservability,
            AccessTokenScope::ReadRegistry => PersonalAccessTokenScope::ReadRegistry,
            AccessTokenScope::ReadRepository => PersonalAccessTokenScope::ReadRepository,
            AccessTokenScope::ReadVirtualRegistry => PersonalAccessTokenScope::ReadVirtualRegistry,
            AccessTokenScope::SelfRotate => PersonalAccessTokenScope::SelfRotate,
            AccessTokenScope::WriteObservability => PersonalAccessTokenScope::WriteObservability,
            AccessTokenScope::WriteRegistry => PersonalAccessTokenScope::WriteRegistry,
            AccessTokenScope::WriteRepository => PersonalAccessTokenScope::WriteRepository,
            AccessTokenScope::WriteVirtualRegistry => PersonalAccessTokenScope::WriteVirtualRegistry,
        }
    }

    /// The scope that gitlab calls `name`, where there is one.
    pub open spec fn named(name: Seq<char>) -> Option<AccessTokenScope> {
        if exists|scope: AccessTokenScope| #[trigger] scope.api_name() == name {
            Some(choose|scope: AccessTokenScope| #[trigger] scope.api_name() == name)
        } else {
            None
        }
    }

    /// The scope that gitlab calls `name`, where there is one
    pub fn from_name(name: &str) -> (scope: Option<AccessTokenScope>)
        ensures
            scope == AccessTokenScope::named(name@),
    {
        let name = String::from_str(name);
        let scope = if name == String::from_str("ai_features") {
            AccessTokenScope::AiFeatures
        } else if name == String::from_str("api") {
            AccessTokenScope::Api
        } else if name == String::from_str("create_runner") {
            AccessTokenScope::CreateRunner
        } else if name == String::from_str("k8s_proxy") {
            AccessTokenScope::K8sProxy
        } else if name == String::from_str("manage_runner") {
            AccessTokenScope::ManageRunner
        } else if name == String::from_str("read_api") {
            AccessTokenScope::ReadApi
        } else if name == String::from_str("read_observability") {
            AccessTokenScope::ReadObservability
        } else if name == String::from_str("read_registry") {
            AccessTokenScope::ReadRegistry
        } else if name == String::from_str("read_repository") {
            AccessTokenScope::ReadRepository
        } else if name == String::from_str("read_virtual_registry") {
            AccessTokenScope::ReadVirtualRegistry
        } else if name == String::from_str("self_rotate") {
            AccessTokenScope::SelfRotate
        } else if name == String::from_str("write_observability") {
            AccessTokenScope::WriteObservability
        } else if name == String::from_str("write_registry") {
            AccessTokenScope::WriteRegistry
        } else if name == String::from_str("write_repository") {
            AccessTokenScope::WriteRepository
        } else if name == String::from_str("write_virtual_registry") {
            AccessTokenScope::WriteVirtualRegistry
        } else {
            assert forall|other: AccessTokenScope| #[trigger] other.api_name() != name@ by {
                match other {
                    AccessTokenScope::AiFeatures => {},
                    AccessTokenScope::Api => {},
                    AccessTokenScope::CreateRunner => {},
                    AccessTokenScope::K8sProxy => {},
                    AccessTokenScope::ManageRunner => {},
                    AccessTokenScope::ReadApi => {},
                    AccessTokenScope::ReadObservability => {},
                    AccessTokenScope::ReadRegistry => {},
                    AccessTokenScope::ReadRepository => {},
                    AccessTokenScope::ReadVirtualRegistry => {},
                    AccessTokenScope::SelfRotate => {},
                    AccessTokenScope::WriteObservability => {},
                    AccessTokenScope::WriteRegistry => {},
                    AccessTokenScope::WriteRepository => {},
                    AccessTokenScope::WriteVirtualRegistry => {},
                }
            }
            return None;
        };
        proof {
            assert(scope.api_name() == name@);
            law_access_scope_read_back(scope);
        }
        Some(scope)
    }
}

/// Scopes used by [`PersonalAccessToken`]
#[derive(Clone, Copy, Debug)]
pub enum PersonalAccessTokenScope {
    /// Grants permission to perform API actions when Admin Mode is enabled
    AdminMode,
    /// Grants permission to perform API actions for features like GitLab Duo, Code Suggestions API and Duo Chat API
    AiFeatures,
    /// Grants complete read/write access to the API
    Api,
    /// Grants permission to create runners
    CreateRunner,
    /// Grants permission to perform Kubernetes API calls using the agent for Kubernetes
    K8sProxy,
    /// Grants permission to manage runners
    ManageRunner,
    /// Grants read access to the API
    ReadApi,
    /// Grants read access (pull) to project observability data
    ReadObservability,
    /// Grants read-only (pull) access to container registry images if a project is private and authorization is required
    ReadRegistry,
    /// Grants read-only access to repositories on private projects
    ReadRepository,
    /// Grant access to download Service Ping payload through the API when authenticated as an admin use
    ReadServicePing,
    /// Grants read-only access to the authenticated user's profile through the /user API endpoint
    ReadUser,
    /// If a project is private and authorization is required, grants read-only (pull) access to container images through the dependency proxy
    ReadVirtualRegistry,
    /// Grants permission to rotate this token
    SelfRotate,
    /// Grants permission to perform API actions as any user in the system, when authenticated as an administrator
    Sudo,
    /// Grants write access (push) to project observability data
    WriteObservability,
    /// Grants read-write (push) access to container registry images if a project is private and authorization is required
    WriteRegistry,
    /// Grants read-write access to repositories on private projects
    WriteRepository,
    /// If a project is private and authorization is required, grants read (pull), write (push), and delete access to container images through the dependency proxy
    WriteVirtualRegistry,
}

impl PersonalAccessTokenScope {
    /// The name of the scope.
    pub open spec fn name(self) -> Seq<char> {
        match self {
            PersonalAccessTokenScope::AdminMode => "admin_mode"@,
            PersonalAccessTokenScope::AiFeatures => "ai_features"@,
            PersonalAccessTokenScope::Api => "api"@,
            PersonalAccessTokenScope::CreateRunner => "create_runner"@,
            PersonalAccessTokenScope::K8sProxy => "k8s_proxy"@,
            PersonalAccessTokenScope::ManageRunner => "manage_runner"@,
            PersonalAccessTokenScope::ReadApi => "read_api"@,
            PersonalAccessTokenScope::ReadObservability => "read_observability"@,
            PersonalAccessTokenScope::ReadRegistry => "read_registry"@,
            PersonalAccessTokenScope::ReadRepository => "read_repository"@,
            PersonalAccessTokenScope::ReadServicePing => "read_service_ping"@,
            PersonalAccessTokenScope::ReadUser => "read_user"@,
            PersonalAccessTokenScope::ReadVirtualRegistry => "read_virtual_registry"@,
            PersonalAccessTokenScope::SelfRotate => "self_rotate"@,
            PersonalAccessTokenScope::Sudo => "sudo"@,
            PersonalAccessTokenScope::WriteObservability => "write_observability"@,
            PersonalAccessTokenScope::WriteRegistry => "write_registry"@,
            PersonalAccessTokenScope::WriteRepository => "write_repository"@,
            PersonalAccessTokenScope::WriteVirtualRegistry => "write_virtual_registry"@,
        }
    }

    /// The name of the scope
    pub fn to_string(&self) -> (s: String)
        ensures
            s@ == self.name(),
    {
        String::from_str(
            match *self {
                PersonalAccessTokenScope::AdminMode => "admin_mode",
                PersonalAccessTokenScope::AiFeatures => "ai_features",
                PersonalAccessTokenScope::Api => "api",
                PersonalAccessTokenScope::CreateRunner => "create_runner",
                PersonalAccessTokenScope::K8sProxy => "k8s_proxy",
                PersonalAccessTokenScope::ManageRunner => "manage_runner",
                PersonalAccessTokenScope::ReadApi => "read_api",
                PersonalAccessTokenScope::ReadObservability => "read_observability",
                PersonalAccessTokenScope::ReadRegistry => "read_registry",
                PersonalAccessTokenScope::ReadRepository => "read_repository",
                PersonalAccessTokenScope::ReadServicePing => "read_service_ping",
                PersonalAccessTokenScope::ReadUser => "read_user",
                PersonalAccessTokenScope::ReadVirtualRegistry => "read_virtual_registry",
                PersonalAccessTokenScope::SelfRotate => "self_rotate",
                PersonalAccessTokenScope::Sudo => "sudo",
                PersonalAccessTokenScope::WriteObservability => "write_observability",
                PersonalAccessTokenScope::WriteRegistry => "write_registry",
                PersonalAccessTokenScope::WriteRepository => "write_repository",
                PersonalAccessTokenScope::WriteVirtualRegistry => "write_virtual_registry",
            },
        )
    }

    /// The name that gitlab gives the scope.
    pub open spec fn api_name(self) -> Seq<char> {
        self.name()
    }

    /// The scope that gitlab calls `name`, where there is one.
    pub open spec fn named(name: Seq<char>) -> Option<PersonalAccessTokenScope> {
        if exists|scope: PersonalAccessTokenScope| #[trigger] scope.api_name() == name {
            Some(choose|scope: PersonalAccessTokenScope| #[trigger] scope.api_name() == name)
        } else {
            None
        }
    }

    /// The scope that gitlab calls `name`, where there is one
    pub fn from_name(name: &str) -> (scope: Option<PersonalAccessTokenScope>)
        ensures
            scope == PersonalAccessTokenScope::named(name@),
    {
        let name = String::from_str(name);
        let scope = if name == String::from_str("admin_mode") {
            PersonalAccessTokenScope::AdminMode
        } else if name == String::from_str("ai_features") {
            PersonalAccessTokenScope::AiFeatures
        } else if name == String::from_str("api") {
            PersonalAccessTokenScope::Api
        } else if name == String::from_str("create_runner") {
            PersonalAccessTokenScope::CreateRunner
        } else if name == String::from_str("k8s_proxy") {
            PersonalAccessTokenScope::K8sProxy
        } else if name == String::from_str("manage_runner") {
            PersonalAccessTokenScope::ManageRunner
        } else if name == String::from_str("read_api") {
            PersonalAccessTokenScope::ReadApi
        } else if name == String::from_str("read_observability") {
            PersonalAccessTokenScope::ReadObservability
        } else if name == String::from_str("read_registry") {
            PersonalAccessTokenScope::ReadRegistry
        } else if name == String::from_str("read_repository") {
            PersonalAccessTokenScope::ReadRepository
        } else if name == String::from_str("read_service_ping") {
            PersonalAccessTokenScope::ReadServicePing
        } else if name == String::from_str("read_user") {
            PersonalAccessTokenScope::ReadUser
        } else if name == String::from_str("read_virtual_registry") {
            PersonalAccessTokenScope::ReadVirtualRegistry
        } else if name == String::from_str("self_rotate") {
            PersonalAccessTokenScope::SelfRotate
        } else if name == String::from_str("sudo") {
            PersonalAccessTokenScope::Sudo
        } else if name == String::from_str("write_observability") {
            PersonalAccessTokenScope::WriteObservability
        } else if name == String::from_str("write_registry") {
            PersonalAccessTokenScope::WriteRegistry
        } else if name == String::from_str("write_repository") {
            PersonalAccessTokenScope::WriteRepository
        } else if name == String::from_str("write_virtual_registry") {
            PersonalAccessTokenScope::WriteVirtualRegistry
        } else {
            assert forall|other: PersonalAccessTokenScope| #[trigger] other.api_name() != name@ by {
                match other {
                    PersonalAccessTokenScope::AdminMode => {},
                    PersonalAccessTokenScope::AiFeatures => {},
                    PersonalAccessTokenScope::Api => {},
                    PersonalAccessTokenScope::CreateRunner => {},
                    PersonalAccessTokenScope::K8sProxy => {},
                    PersonalAccessTokenScope::ManageRunner => {},
                    PersonalAccessTokenScope::ReadApi => {},
                    PersonalAccessTokenScope::ReadObservability => {},
                    PersonalAccessTokenScope::ReadRegistry => {},
                    PersonalAccessTokenScope::ReadRepository => {},
                    PersonalAccessTokenScope::ReadServicePing => {},
                    PersonalAccessTokenScope::ReadUser => {},
                    PersonalAccessTokenScope::ReadVirtualRegistry => {},
                    PersonalAccessTokenScope::SelfRotate => {},
                    PersonalAccessTokenScope::Sudo => {},
                    PersonalAccessTokenScope::WriteObservability => {},
                    PersonalAccessTokenScope::WriteRegistry => {},
                    PersonalAccessTokenScope::WriteRepository => {},
                    PersonalAccessTokenScope::WriteVirtualRegistry => {},
                }
            }
            return None;
        };
        proof {
            assert(scope.api_name() == name@);
            law_personal_scope_read_back(scope);
        }
        Some(scope)
    }
}

/// Defines a [gitlab access token](https://docs.gitlab.com/api/project_access_tokens/#list-project-access-tokens)
#[derive(Debug)]
pub struct AccessToken {
    /// Access level
    pub access_level: AccessLevel,
    /// Active
    pub active: bool,
    /// Expiration date (none when no expiration is set)
    pub expires_at: Option<Date>,
    /// Token id
    pub id: usize,
    /// Name
    pub name: String,
    /// Revoked
    pub revoked: bool,
    /// [Scopes](https://docs.gitlab.com/user/project/settings/project_access_tokens/#scopes-for-a-project-access-token)
    pub scopes: Vec<AccessTokenScope>,
}

/// Defines a [gitlab personal access token](https://docs.gitlab.com/api/personal_access_tokens/#list-personal-access-tokens)
#[derive(Debug)]
pub struct PersonalAccessToken {
    /// Active
    pub active: bool,
    /// Expiration date (none when no expiration is set)
    pub expires_at: Option<Date>,
    /// Name
    pub name: String,
    /// Revoked
    pub revoked: bool,
    /// [Scopes](https://docs.gitlab.com/user/profile/personal_access_tokens/#personal-access-token-scopes)
    pub scopes: Vec<PersonalAccessTokenScope>,
    /// User id
    pub user_id: usize,
}

/// A common token type
#[allow(inconsistent_fields)]
#[derive(Debug)]
pub enum Token {
    /// Group token
    Group { token: AccessToken, full_path: String, web_url: String },
    /// Project token
    Project { token: AccessToken, full_path: String, web_url: String },
    /// User token
    User { token: PersonalAccessToken, full_path: String },
}

/// The error of formatting, `core::fmt::Error`.
#[verifier::external_type_specification]
#[verifier::external_body]
pub struct ExFmtError(core::fmt::Error);

impl Token {
    /// The names of the token's scopes, in order.
    pub open spec fn scope_names(self) -> Seq<Seq<char>> {
        match self {
            Token::Group { token, .. } | Token::Project { token, .. } => token.scopes@.map_values(
                |scope: AccessTokenScope| scope.name(),
            ),
            Token::User { token, .. } => token.scopes@.map_values(
                |scope: PersonalAccessTokenScope| scope.name(),
            ),
        }
    }

    /// The names of the token's scopes, separated by commas, in square brackets.
    pub open spec fn scopes_text(self) -> Seq<char> {
        seq!['['] + crate::text::join(self.scope_names(), ',') + seq![']']
    }

    /// Convert token scopes ([`AccessTokenScope`] or [`PersonalAccessTokenScope`]) into a String
    pub fn scopes(&self) -> (res: Result<String, core::fmt::Error>)
        ensures
            res matches Ok(s) && s@ == self.scopes_text(),
            res matches Ok(s) && s@ == seq!['['] + crate::text::join(
                match *self {
                    Token::Group { token, .. } => Seq::new(
                        token.scopes@.len(),
                        |i: int| token.scopes@[i].name(),
                    ),
                    Token::Project { token, .. } => Seq::new(
                        token.scopes@.len(),
                        |i: int| token.scopes@[i].name(),
                    ),
                    Token::User { token, .. } => Seq::new(
                        token.scopes@.len(),
                        |i: int| token.scopes@[i].name(),
                    ),
                },
                ',',
            ) + seq![']'],
    {
        proof {
            law_scopes_text_lists_every_scope(*self);
        }
        let mut names: Vec<String> = Vec::new();
        match self {
            Token::Group { token, .. } | Token::Project { token, .. } => {
                let mut i: usize = 0;
                while i < token.scopes.len()
                    invariant
                        i <= token.scopes.len(),
                        names.len() == i,
                        forall|j: int| 0 <= j < i ==> (#[trigger] names[j])@ == token.scopes[j].name(),
                    decreases token.scopes.len() - i,
                {
                    names.push(token.scopes[i].to_string());
                    i = i + 1;
                }
            },
            Token::User { token, .. } => {
                let mut i: usize = 0;
                while i < token.scopes.len()
                    invariant
                        i <= token.scopes.len(),
                        names.len() == i,
                        forall|j: int| 0 <= j < i ==> (#[trigger] names[j])@ == token.scopes[j].name(),
                    decreases token.scopes.len() - i,
                {
                    names.push(token.scopes[i].to_string());
                    i = i + 1;
                }
            },
        }
        let ghost parts = names@.map_values(|name: String| name@);
        assert(parts =~= self.scope_names());
        let mut res = String::from_str("[");
        let mut i: usize = 0;
        proof {
            reveal_strlit("[");
            reveal_strlit("]");
            reveal_strlit(",");
        }
        assert(res@ =~= seq!['[']);
        assert(parts.take(0) =~= Seq::<Seq<char>>::empty());
        while i < names.len()
            invariant
                i <= names.len(),
                parts == names@.map_values(|name: String| name@),
                ","@ == seq![','],
                res@ =~= seq!['['] + crate::text::join(parts.take(i as int), ','),
            decreases names.len() - i,
        {
            if i > 0 {
                res.append(",");
            }
            res.append(names[i].as_str());
            proof {
                crate::text::lemma_join_push(parts.take(i as int), parts[i as int], ',');
                assert(parts.take(i as int).push(parts[i as int]) =~= parts.take(i + 1));
            }
            i = i + 1;
        }
        assert(parts.take(names.len() as int) =~= parts);
        res.append("]");
        assert("]"@ =~= seq![']']);
        Ok(res)
    }
}

/// Different access levels have different numbers, and different names.
pub proof fn law_access_levels_distinct(a: AccessLevel, b: AccessLevel)
    ensures
        a.number() == b.number() ==> a == b,
        a.name() == b.name() ==> a == b,
{
    reveal_strlit("developer");
    reveal_strlit("guest");
    reveal_strlit("maintainer");
    reveal_strlit("owner");
    reveal_strlit("reporter");
    assert(a.name()[0] == b.name()[0] || a.name() != b.name());
}

/// Whether a name is made of lower case letters, digits and underscores, at least one.
pub open spec fn is_plain_name(name: Seq<char>) -> bool {
    &&& name.len() > 0
    &&& forall|i: int|
        0 <= i < name.len() ==> {
            let c = #[trigger] name[i];
            ('a' <= c && c <= 'z') || ('0' <= c && c <= '9') || c == '_'
        }
}

/// Every name of a scope is plain, and tells the scope.
proof fn lemma_access_scope_name(scope: AccessTokenScope)
    ensures
        is_plain_name(scope.name()),
        access_scope_of(scope.name()) == scope,
        access_scope_of(scope.api_name()) == scope,
{
    reveal_strlit("read_virtual_registry");
    match scope {
        AccessTokenScope::AiFeatures => {
            reveal_strlit("ai_features");
            assert("ai_features"@ =~= seq!['a', 'i', '_', 'f', 'e', 'a', 't', 'u', 'r', 'e', 's']);
        },
        AccessTokenScope::Api => {
            reveal_strlit("api");
            assert("api"@ =~= seq!['a', 'p', 'i']);
        },
        AccessTokenScope::CreateRunner => {
            reveal_strlit("create_runner");
            assert("create_runner"@ =~= seq!['c', 'r', 'e', 'a', 't', 'e', '_', 'r', 'u', 'n', 'n', 'e', 'r']);
        },
        AccessTokenScope::K8sProxy => {
            reveal_strlit("k8s_proxy");
            assert("k8s_proxy"@ =~= seq!['k', '8', 's', '_', 'p', 'r', 'o', 'x', 'y']);
        },
        AccessTokenScope::ManageRunner => {
            reveal_strlit("manage_runner");
            assert("manage_runner"@ =~= seq!['m', 'a', 'n', 'a', 'g', 'e', '_', 'r', 'u', 'n', 'n', 'e', 'r']);
        },
        AccessTokenScope::ReadApi => {
            reveal_strlit("read_api");
            assert("read_api"@ =~= seq!['r', 'e', 'a', 'd', '_', 'a', 'p', 'i']);
        },
        AccessTokenScope::ReadObservability => {
            reveal_strlit("read_observability");
            assert("read_observability"@ =~= seq!['r', 'e', 'a', 'd', '_', 'o', 'b', 's', 'e', 'r', 'v', 'a', 'b', 'i', 'l', 'i', 't', 'y']);
        },
        AccessTokenScope::ReadRegistry => {
            reveal_strlit("read_registry");
            assert("read_registry"@ =~= seq!['r', 'e', 'a', 'd', '_', 'r', 'e', 'g', 'i', 's', 't', 'r', 'y']);
        },
        AccessTokenScope::ReadRepository => {
            reveal_strlit("read_repository");
            assert("read_repository"@ =~= seq!['r', 'e', 'a', 'd', '_', 'r', 'e', 'p', 'o', 's', 'i', 't', 'o', 'r', 'y']);
        },
        AccessTokenScope::ReadVirtualRegistry => {
            reveal_strlit("read_virtual_repository");
            assert("read_virtual_repository"@ =~= seq!['r', 'e', 'a', 'd', '_', 'v', 'i', 'r', 't', 'u', 'a', 'l', '_', 'r', 'e', 'p', 'o', 's', 'i', 't', 'o', 'r', 'y']);
        },
        AccessTokenScope::SelfRotate => {
            reveal_strlit("self_rotate");
            assert("self_rotate"@ =~= seq!['s', 'e', 'l', 'f', '_', 'r', 'o', 't', 'a', 't', 'e']);
        },
        AccessTokenScope::WriteObservability => {
            reveal_strlit("write_observability");
            assert("write_observability"@ =~= seq!['w', 'r', 'i', 't', 'e', '_', 'o', 'b', 's', 'e', 'r', 'v', 'a', 'b', 'i', 'l', 'i', 't', 'y']);
        },
        AccessTokenScope::WriteRegistry => {
            reveal_strlit("write_registry");
            assert("write_registry"@ =~= seq!['w', 'r', 'i', 't', 'e', '_', 'r', 'e', 'g', 'i', 's', 't', 'r', 'y']);
        },
        AccessTokenScope::WriteRepository => {
            reveal_strlit("write_repository");
            assert("write_repository"@ =~= seq!['w', 'r', 'i', 't', 'e', '_', 'r', 'e', 'p', 'o', 's', 'i', 't', 'o', 'r', 'y']);
        },
        AccessTokenScope::WriteVirtualRegistry => {
            reveal_strlit("write_virtual_registry");
            assert("write_virtual_registry"@ =~= seq!['w', 'r', 'i', 't', 'e', '_', 'v', 'i', 'r', 't', 'u', 'a', 'l', '_', 'r', 'e', 'g', 'i', 's', 't', 'r', 'y']);
        },
    }
}

/// The scope with a name: no two names share both their length and their first letter.
spec fn access_scope_of(name: Seq<char>) -> AccessTokenScope {
    let initial = name[0];
    let length = name.len();
    if length == 11 && initial == 'a' {
        AccessTokenScope::AiFeatures
    } else if length == 3 && initial == 'a' {
        AccessTokenScope::Api
    } else if length == 13 && initial == 'c' {
        AccessTokenScope::CreateRunner
    } else if length == 9 && initial == 'k' {
        AccessTokenScope::K8sProxy
    } else if length == 13 && initial == 'm' {
        AccessTokenScope::ManageRunner
    } else if length == 8 && initial == 'r' {
        AccessTokenScope::ReadApi
    } else if length == 18 && initial == 'r' {
        AccessTokenScope::ReadObservability
    } else if length == 13 && initial == 'r' {
        AccessTokenScope::ReadRegistry
    } else if length == 15 && initial == 'r' {
        AccessTokenScope::ReadRepository
    } else if (length == 23 || length == 21) && initial == 'r' {
        AccessTokenScope::ReadVirtualRegistry
    } else if length == 11 && initial == 's' {
        AccessTokenScope::SelfRotate
    } else if length == 19 && initial == 'w' {
        AccessTokenScope::WriteObservability
    } else if length == 14 && initial == 'w' {
        AccessTokenScope::WriteRegistry
    } else if length == 16 && initial == 'w' {
        AccessTokenScope::WriteRepository
    } else {
        AccessTokenScope::WriteVirtualRegistry
    }
}

/// Every name of a scope is plain, and tells the scope.
proof fn lemma_personal_scope_name(scope: PersonalAccessTokenScope)
    ensures
        is_plain_name(scope.name()),
        personal_scope_of(scope.name()) == scope,
{
    match scope {
        PersonalAccessTokenScope::AdminMode => {
            reveal_strlit("admin_mode");
            assert("admin_mode"@ =~= seq!['a', 'd', 'm', 'i', 'n', '_', 'm', 'o', 'd', 'e']);
        },
        PersonalAccessTokenScope::AiFeatures => {
            reveal_strlit("ai_features");
            assert("ai_features"@ =~= seq!['a', 'i', '_', 'f', 'e', 'a', 't', 'u', 'r', 'e', 's']);
        },
        PersonalAccessTokenScope::Api => {
            reveal_strlit("api");
            assert("api"@ =~= seq!['a', 'p', 'i']);
        },
        PersonalAccessTokenScope::CreateRunner => {
            reveal_strlit("create_runner");
            assert("create_runner"@ =~= seq!['c', 'r', 'e', 'a', 't', 'e', '_', 'r', 'u', 'n', 'n', 'e', 'r']);
        },
        PersonalAccessTokenScope::K8sProxy => {
            reveal_strlit("k8s_proxy");
            assert("k8s_proxy"@ =~= seq!['k', '8', 's', '_', 'p', 'r', 'o', 'x', 'y']);
        },
        PersonalAccessTokenScope::ManageRunner => {
            reveal_strlit("manage_runner");
            assert("manage_runner"@ =~= seq!['m', 'a', 'n', 'a', 'g', 'e', '_', 'r', 'u', 'n', 'n', 'e', 'r']);
        },
        PersonalAccessTokenScope::ReadApi => {
            reveal_strlit("read_api");
            assert("read_api"@ =~= seq!['r', 'e', 'a', 'd', '_', 'a', 'p', 'i']);
        },
        PersonalAccessTokenScope::ReadObservability => {
            reveal_strlit("read_observability");
            assert("read_observability"@ =~= seq!['r', 'e', 'a', 'd', '_', 'o', 'b', 's', 'e', 'r', 'v', 'a', 'b', 'i', 'l', 'i', 't', 'y']);
        },
        PersonalAccessTokenScope::ReadRegistry => {
            reveal_strlit("read_registry");
            assert("read_registry"@ =~= seq!['r', 'e', 'a', 'd', '_', 'r', 'e', 'g', 'i', 's', 't', 'r', 'y']);
        },
        PersonalAccessTokenScope::ReadRepository => {
            reveal_strlit("read_repository");
            assert("read_repository"@ =~= seq!['r', 'e', 'a', 'd', '_', 'r', 'e', 'p', 'o', 's', 'i', 't', 'o', 'r', 'y']);
        },
        PersonalAccessTokenScope::ReadServicePing => {
            reveal_strlit("read_service_ping");
            assert("read_service_ping"@ =~= seq!['r', 'e', 'a', 'd', '_', 's', 'e', 'r', 'v', 'i', 'c', 'e', '_', 'p', 'i', 'n', 'g']);
        },
        PersonalAccessTokenScope::ReadUser => {
            reveal_strlit("read_user");
            assert("read_user"@ =~= seq!['r', 'e', 'a', 'd', '_', 'u', 's', 'e', 'r']);
        },
        PersonalAccessTokenScope::ReadVirtualRegistry => {
            reveal_strlit("read_virtual_registry");
            assert("read_virtual_registry"@ =~= seq!['r', 'e', 'a', 'd', '_', 'v', 'i', 'r', 't', 'u', 'a', 'l', '_', 'r', 'e', 'g', 'i', 's', 't', 'r', 'y']);
        },
        PersonalAccessTokenScope::SelfRotate => {
            reveal_strlit("self_rotate");
            assert("self_rotate"@ =~= seq!['s', 'e', 'l', 'f', '_', 'r', 'o', 't', 'a', 't', 'e']);
        },
        PersonalAccessTokenScope::Sudo => {
            reveal_strlit("sudo");
            assert("sudo"@ =~= seq!['s', 'u', 'd', 'o']);
        },
        PersonalAccessTokenScope::WriteObservability => {
            reveal_strlit("write_observability");
            assert("write_observability"@ =~= seq!['w', 'r', 'i', 't', 'e', '_', 'o', 'b', 's', 'e', 'r', 'v', 'a', 'b', 'i', 'l', 'i', 't', 'y']);
        },
        PersonalAccessTokenScope::WriteRegistry => {
            reveal_strlit("write_registry");
            assert("write_registry"@ =~= seq!['w', 'r', 'i', 't', 'e', '_', 'r', 'e', 'g', 'i', 's', 't', 'r', 'y']);
        },
        PersonalAccessTokenScope::WriteRepository => {
            reveal_strlit("write_repository");
            assert("write_repository"@ =~= seq!['w', 'r', 'i', 't', 'e', '_', 'r', 'e', 'p', 'o', 's', 'i', 't', 'o', 'r', 'y']);
        },
        PersonalAccessTokenScope::WriteVirtualRegistry => {
            reveal_strlit("write_virtual_registry");
            assert("write_virtual_registry"@ =~= seq!['w', 'r', 'i', 't', 'e', '_', 'v', 'i', 'r', 't', 'u', 'a', 'l', '_', 'r', 'e', 'g', 'i', 's', 't', 'r', 'y']);
        },
    }
}

/// The scope with a name: no two names share both their length and their first letter.
spec fn personal_scope_of(name: Seq<char>) -> PersonalAccessTokenScope {
    let initial = name[0];
    let length = name.len();
    if length == 10 && initial == 'a' {
        PersonalAccessTokenScope::AdminMode
    } else if length == 11 && initial == 'a' {
        PersonalAccessTokenScope::AiFeatures
    } else if length == 3 && initial == 'a' {
        PersonalAccessTokenScope::Api
    } else if length == 13 && initial == 'c' {
        PersonalAccessTokenScope::CreateRunner
    } else if length == 9 && initial == 'k' {
        PersonalAccessTokenScope::K8sProxy
    } else if length == 13 && initial == 'm' {
        PersonalAccessTokenScope::ManageRunner
    } else if length == 8 && initial == 'r' {
        PersonalAccessTokenScope::ReadApi
    } else if length == 18 && initial == 'r' {
        PersonalAccessTokenScope::ReadObservability
    } else if length == 13 && initial == 'r' {
        PersonalAccessTokenScope::ReadRegistry
    } else if length == 15 && initial == 'r' {
        PersonalAccessTokenScope::ReadRepository
    } else if length == 17 && initial == 'r' {
        PersonalAccessTokenScope::ReadServicePing
    } else if length == 9 && initial == 'r' {
        PersonalAccessTokenScope::ReadUser
    } else if length == 21 && initial == 'r' {
        PersonalAccessTokenScope::ReadVirtualRegistry
    } else if length == 11 && initial == 's' {
        PersonalAccessTokenScope::SelfRotate
    } else if length == 4 && initial == 's' {
        PersonalAccessTokenScope::Sudo
    } else if length == 19 && initial == 'w' {
        PersonalAccessTokenScope::WriteObservability
    } else if length == 14 && initial == 'w' {
        PersonalAccessTokenScope::WriteRegistry
    } else if length == 16 && initial == 'w' {
        PersonalAccessTokenScope::WriteRepository
    } else {
        PersonalAccessTokenScope::WriteVirtualRegistry
    }
}

/// Different scopes of group and project tokens have different names, and every name is made of
/// lower case letters, digits and underscores.
pub proof fn law_access_scope_names_distinct(a: AccessTokenScope, b: AccessTokenScope)
    ensures
        a.name() == b.name() <==> a == b,
        is_plain_name(a.name()),
{
    lemma_access_scope_name(a);
    lemma_access_scope_name(b);
}

/// Different scopes of user tokens have different names, and every name is made of lower case
/// letters, digits and underscores.
pub proof fn law_personal_scope_names_distinct(
    a: PersonalAccessTokenScope,
    b: PersonalAccessTokenScope,
)
    ensures
        a.name() == b.name() <==> a == b,
        is_plain_name(a.name()),
{
    lemma_personal_scope_name(a);
    lemma_personal_scope_name(b);
}

/// The written name of a scope of a group or project token is read back as that scope, for all
/// scopes but `ReadVirtualRegistry`, whose written name is that of no scope. What gitlab calls a
/// scope is read as that scope for all of them.
pub proof fn law_access_scope_read_back(scope: AccessTokenScope)
    ensures
        AccessTokenScope::named(scope.api_name()) == Some(scope),
        scope != AccessTokenScope::ReadVirtualRegistry ==> AccessTokenScope::named(scope.name())
            == Some(scope),
        scope == AccessTokenScope::ReadVirtualRegistry ==> AccessTokenScope::named(scope.name())
            is None,
{
    lemma_access_scope_name(scope);
    assert forall|other: AccessTokenScope| #[trigger]
        other.api_name() == scope.api_name() implies other == scope by {
        lemma_access_scope_name(other);
    }
    if scope == AccessTokenScope::ReadVirtualRegistry {
        assert forall|other: AccessTokenScope| #[trigger] other.api_name() != scope.name() by {
            lemma_access_scope_name(other);
            reveal_strlit("read_virtual_registry");
            reveal_strlit("read_virtual_repository");
            if other == scope {
                assert(other.api_name().len() != scope.name().len());
            }
        }
    }
}

/// The written name of a scope of a user token is read back as that scope.
pub proof fn law_personal_scope_read_back(scope: PersonalAccessTokenScope)
    ensures
        PersonalAccessTokenScope::named(scope.name()) == Some(scope),
{
    lemma_personal_scope_name(scope);
    assert(scope.api_name() == scope.name());
    assert forall|other: PersonalAccessTokenScope| #[trigger]
        other.api_name() == scope.name() implies other == scope by {
        lemma_personal_scope_name(other);
    }
}

/// A scope of a group or project token is written like the scope of a user token that grants
/// the same, for all scopes but `ReadVirtualRegistry`. Gitlab gives both the same name.
pub proof fn law_common_scopes_written_alike(scope: AccessTokenScope)
    ensures
        scope != AccessTokenScope::ReadVirtualRegistry ==> scope.name()
            == scope.as_personal().name(),
        scope.api_name() == scope.as_personal().api_name(),
{
}

/// A plain name can be told apart in a list.
proof fn lemma_plain_name_is_list_part(name: Seq<char>)
    requires
        is_plain_name(name),
    ensures
        crate::text::is_list_part(name, ','),
{
    if name.contains(',') {
        let i = choose|i: int| 0 <= i < name.len() && name[i] == ',';
        assert(name[i] == ',');
    }
}

/// The names of a token's scopes are not empty and hold no comma.
proof fn lemma_scope_names_are_list_parts(token: Token)
    ensures
        forall|i: int|
            0 <= i < token.scope_names().len() ==> crate::text::is_list_part(
                #[trigger] token.scope_names()[i],
                ',',
            ),
{
    assert forall|i: int| 0 <= i < token.scope_names().len() implies crate::text::is_list_part(
        #[trigger] token.scope_names()[i],
        ',',
    ) by {
        match token {
            Token::Group { token, .. } | Token::Project { token, .. } => {
                lemma_access_scope_name(token.scopes@[i]);
                lemma_plain_name_is_list_part(token.scopes@[i].name());
            },
            Token::User { token, .. } => {
                lemma_personal_scope_name(token.scopes@[i]);
                lemma_plain_name_is_list_part(token.scopes@[i].name());
            },
        }
    }
}

/// The text of the scopes tells which scopes a token has, and in which order: two tokens with
/// the same text have the same names of scopes.
pub proof fn law_scopes_text_tells_names(a: Token, b: Token)
    requires
        a.scopes_text() == b.scopes_text(),
    ensures
        a.scope_names() == b.scope_names(),
{
    lemma_scope_names_are_list_parts(a);
    lemma_scope_names_are_list_parts(b);
    let ja = crate::text::join(a.scope_names(), ',');
    let jb = crate::text::join(b.scope_names(), ',');
    let text = a.scopes_text();
    assert(text.subrange(1, text.len() - 1) =~= ja);
    assert(text.subrange(1, text.len() - 1) =~= jb);
    crate::text::law_join_injective(a.scope_names(), b.scope_names(), ',');
}

/// The text of the scopes lists all scopes of the token, one name for each and in their order,
/// whichever kind of token it is.
pub proof fn law_scopes_text_lists_every_scope(token: Token)
    ensures
        token.scopes_text() == seq!['['] + crate::text::join(
            match token {
                Token::Group { token, .. } => Seq::new(
                    token.scopes@.len(),
                    |i: int| token.scopes@[i].name(),
                ),
                Token::Project { token, .. } => Seq::new(
                    token.scopes@.len(),
                    |i: int| token.scopes@[i].name(),
                ),
                Token::User { token, .. } => Seq::new(
                    token.scopes@.len(),
                    |i: int| token.scopes@[i].name(),
                ),
            },
            ',',
        ) + seq![']'],
{
    match token {
        Token::Group { token: inner, .. } => {
            assert(token.scope_names() =~= Seq::new(
                inner.scopes@.len(),
                |i: int| inner.scopes@[i].name(),
            ));
        },
        Token::Project { token: inner, .. } => {
            assert(token.scope_names() =~= Seq::new(
                inner.scopes@.len(),
                |i: int| inner.scopes@[i].name(),
            ));
        },
        Token::User { token: inner, .. } => {
            assert(token.scope_names() =~= Seq::new(
                inner.scopes@.len(),
                |i: int| inner.scopes@[i].name(),
            ));
        },
    }
}

/// There are as many listed names as the token has scopes, and each listed name is that of the
/// scope at the same place.
pub proof fn law_each_scope_named_at_its_place(token: Token, i: int)
    ensures
        match token {
            Token::Group { token: inner, .. } => {
                &&& token.scope_names().len() == inner.scopes@.len()
                &&& 0 <= i < inner.scopes@.len() ==> token.scope_names()[i]
                    == inner.scopes@[i].name()
            },
            Token::Project { token: inner, .. } => {
                &&& token.scope_names().len() == inner.scopes@.len()
                &&& 0 <= i < inner.scopes@.len() ==> token.scope_names()[i]
                    == inner.scopes@[i].name()
            },
            Token::User { token: inner, .. } => {
                &&& token.scope_names().len() == inner.scopes@.len()
                &&& 0 <= i < inner.scopes@.len() ==> token.scope_names()[i]
                    == inner.scopes@[i].name()
            },
        },
{
}

/// Lists of scopes with the same names are the same.
proof fn lemma_same_access_scopes(a: Seq<AccessTokenScope>, b: Seq<AccessTokenScope>)
    requires
        a.len() == b.len(),
        forall|i: int| 0 <= i < a.len() ==> (#[trigger] a[i]).name() == b[i].name(),
    ensures
        a == b,
{
    assert forall|i: int| 0 <= i < a.len() implies a[i] == b[i] by {
        law_access_scope_names_distinct(a[i], b[i]);
    }
    assert(a =~= b);
}

/// Lists of scopes with the same names are the same.
proof fn lemma_same_personal_scopes(
    a: Seq<PersonalAccessTokenScope>,
    b: Seq<PersonalAccessTokenScope>,
)
    requires
        a.len() == b.len(),
        forall|i: int| 0 <= i < a.len() ==> (#[trigger] a[i]).name() == b[i].name(),
    ensures
        a == b,
{
    assert forall|i: int| 0 <= i < a.len() implies a[i] == b[i] by {
        law_personal_scope_names_distinct(a[i], b[i]);
    }
    assert(a =~= b);
}

/// The text of the scopes of a group or project token tells its scopes: two such tokens with the
/// same text have equal scopes, in the same order.
pub proof fn law_access_scopes_text_tells_scopes(
    x: AccessToken,
    y: AccessToken,
    path_x: String,
    path_y: String,
    url_x: String,
    url_y: String,
)
    ensures
        ({
            let group_x = Token::Group { token: x, full_path: path_x, web_url: url_x };
            let group_y = Token::Group { token: y, full_path: path_y, web_url: url_y };
            let project_x = Token::Project { token: x, full_path: path_x, web_url: url_x };
            let project_y = Token::Project { token: y, full_path: path_y, web_url: url_y };
            &&& group_x.scopes_text() == group_y.scopes_text() <==> x.scopes@ == y.scopes@
            &&& project_x.scopes_text() == project_y.scopes_text() <==> x.scopes@ == y.scopes@
            &&& group_x.scopes_text() == project_y.scopes_text() <==> x.scopes@ == y.scopes@
        }),
{
    let group_x = Token::Group { token: x, full_path: path_x, web_url: url_x };
    let group_y = Token::Group { token: y, full_path: path_y, web_url: url_y };
    let project_x = Token::Project { token: x, full_path: path_x, web_url: url_x };
    let project_y = Token::Project { token: y, full_path: path_y, web_url: url_y };
    let names_x = Seq::new(x.scopes@.len(), |i: int| x.scopes@[i].name());
    let names_y = Seq::new(y.scopes@.len(), |i: int| y.scopes@[i].name());
    assert(group_x.scope_names() =~= names_x);
    assert(group_y.scope_names() =~= names_y);
    assert(project_x.scope_names() =~= names_x);
    assert(project_y.scope_names() =~= names_y);
    if group_x.scopes_text() == group_y.scopes_text() {
        law_scopes_text_tells_names(group_x, group_y);
        assert forall|i: int| 0 <= i < x.scopes@.len() implies (#[trigger] x.scopes@[i]).name()
            == y.scopes@[i].name() by {
            assert(names_x[i] == names_y[i]);
        }
        lemma_same_access_scopes(x.scopes@, y.scopes@);
    }
}

/// The text of the scopes of a user token tells its scopes: two such tokens with the same text
/// have equal scopes, in the same order.
pub proof fn law_personal_scopes_text_tells_scopes(
    x: PersonalAccessToken,
    y: PersonalAccessToken,
    path_x: String,
    path_y: String,
)
    ensures
        ({
            let user_x = Token::User { token: x, full_path: path_x };
            let user_y = Token::User { token: y, full_path: path_y };
            user_x.scopes_text() == user_y.scopes_text() <==> x.scopes@ == y.scopes@
        }),
{
    let user_x = Token::User { token: x, full_path: path_x };
    let user_y = Token::User { token: y, full_path: path_y };
    let names_x = Seq::new(x.scopes@.len(), |i: int| x.scopes@[i].name());
    let names_y = Seq::new(y.scopes@.len(), |i: int| y.scopes@[i].name());
    assert(user_x.scope_names() =~= names_x);
    assert(user_y.scope_names() =~= names_y);
    if user_x.scopes_text() == user_y.scopes_text() {
        law_scopes_text_tells_names(user_x, user_y);
        assert forall|i: int| 0 <= i < x.scopes@.len() implies (#[trigger] x.scopes@[i]).name()
            == y.scopes@[i].name() by {
            assert(names_x[i] == names_y[i]);
        }
        lemma_same_personal_scopes(x.scopes@, y.scopes@);
    }
}

/// A name is that of a scope of a group or project token exactly where gitlab calls the scope so,
/// letter for letter.
pub proof fn law_access_scope_named_exactly(name: Seq<char>, scope: AccessTokenScope)
    ensures
        AccessTokenScope::named(name) == Some(scope) <==> name == scope.api_name(),
        scope != AccessTokenScope::ReadVirtualRegistry ==> scope.api_name() == scope.name(),
{
    law_access_scope_read_back(scope);
}

/// A name is that of a scope of a user token exactly where the scope is written so, letter for
/// letter.
pub proof fn law_personal_scope_named_exactly(name: Seq<char>, scope: PersonalAccessTokenScope)
    ensures
        PersonalAccessTokenScope::named(name) == Some(scope) <==> name == scope.name(),
{
    law_personal_scope_read_back(scope);
}

/// The access levels are numbered by tens: guest, reporter, developer, maintainer, owner.
pub proof fn law_access_levels_by_tens(level: AccessLevel)
    ensures
        level.number() % 10 == 0,
        10 <= level.number() <= 50,
        AccessLevel::Guest.number() < AccessLevel::Reporter.number()
            < AccessLevel::Developer.number() < AccessLevel::Maintainer.number()
            < AccessLevel::Owner.number(),
{
}

} // verus!
