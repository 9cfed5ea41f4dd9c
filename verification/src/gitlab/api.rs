//! Projects and users, and where the gitlab API is found.

use crate::text::decimal_string;
use vstd::prelude::*;

verus! {

/// Defines a [gitlab project](https://docs.gitlab.com/api/projects/#get-a-single-project)
#[derive(Debug)]
pub struct Project {
    /// Project id
    pub id: usize,
    /// Project path
    pub path_with_namespace: String,
    /// Project URL
    pub web_url: String,
}

/// Defines a [gitlab user](https://docs.gitlab.com/api/users/#list-users)
#[derive(Debug)]
pub struct User {
    /// User id
    pub id: usize,
    /// This field is not available if the query is made with a non-admin token
    pub is_admin: bool,
    /// User name (without spaces)
    pub username: String,
}

/// The URL of the current gitlab user
pub fn current_user_url(hostname: &str) -> (url: String)
    ensures
        url@ == "https://"@ + hostname@ + "/api/v4/user"@,
{
    String::from_str("https://").concat(hostname).concat("/api/v4/user")
}

/// The URL of the group `id`
pub fn group_url(hostname: &str, id: usize) -> (url: String)
    ensures
        url@ == "https://"@ + hostname@ + "/api/v4/groups/"@ + crate::text::decimal(id as nat),
{
    let number = decimal_string(id as u64);
    String::from_str("https://").concat(hostname).concat("/api/v4/groups/").concat(number.as_str())
}

/// Different groups of one host have different URLs.
pub proof fn law_group_urls_distinct(host: Seq<char>, a: nat, b: nat)
    requires
        "https://"@ + host + "/api/v4/groups/"@ + crate::text::decimal(a) == "https://"@ + host
            + "/api/v4/groups/"@ + crate::text::decimal(b),
    ensures
        a == b,
{
    let prefix = "https://"@ + host + "/api/v4/groups/"@;
    let n = prefix.len() as int;
    assert((prefix + crate::text::decimal(a)).skip(n) =~= crate::text::decimal(a));
    assert((prefix + crate::text::decimal(b)).skip(n) =~= crate::text::decimal(b));
    crate::text::law_decimal_spells_number(a);
    crate::text::law_decimal_spells_number(b);
}

} // verus!
