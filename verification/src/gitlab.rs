//! Handles the communication with gitlab

pub mod api;
pub mod group;
pub mod pagination;
pub mod retry;
pub mod token;

pub use self::api::{Project, User};
pub use self::group::Group;
pub use self::pagination::OffsetBasedPagination;
pub use self::token::{
    AccessLevel, AccessToken, AccessTokenScope, PersonalAccessToken, PersonalAccessTokenScope, Token,
};
