//! The closed set of account roles.

use vstd::prelude::*;
use crate::text::{lower_of, lowercase};

verus! {

/// Role of an account: `Admin` passes every role check, `Viewer` is the
/// lowest privilege and the default.
#[derive(Debug, Clone, Copy, PartialEq, Eq, Structural)]
pub enum UserRoleDto {
    Admin,
    Viewer,
}

/// The role that an already lower-cased role name stands for: only
/// `"admin"` names the administrator, anything else is a viewer.
pub open spec fn role_of_lowered(s: Seq<char>) -> UserRoleDto {
    if s == "admin"@ {
        UserRoleDto::Admin
    } else {
        UserRoleDto::Viewer
    }
}

impl UserRoleDto {
    /// The canonical name of the role.
    pub open spec fn name(self) -> Seq<char> {
        match self {
            UserRoleDto::Admin => "admin"@,
            UserRoleDto::Viewer => "viewer"@,
        }
    }

    /// The canonical name of the role.
    pub fn to_string(&self) -> (r: String)
        ensures
            r@ == self.name(),
    {
        match self {
            UserRoleDto::Admin => String::from_str("admin"),
            UserRoleDto::Viewer => String::from_str("viewer"),
        }
    }

    /// The role named by a lower-cased role name.
    pub fn from_lowered(s: &str) -> (r: UserRoleDto)
        ensures
            r == role_of_lowered(s@),
    {
        let owned = s.to_owned();
        let admin = String::from_str("admin");
        if owned == admin {
            UserRoleDto::Admin
        } else {
            UserRoleDto::Viewer
        }
    }
}

impl<'a> From<&'a str> for UserRoleDto {
    /// Parses a role name without regard to case.
    fn from(role: &'a str) -> (r: UserRoleDto) {
        let lowered = lowercase(role);
        UserRoleDto::from_lowered(lowered.as_str())
    }
}

impl<'a> vstd::std_specs::convert::FromSpecImpl<&'a str> for UserRoleDto {
    open spec fn obeys_from_spec() -> bool {
        true
    }

    open spec fn from_spec(role: &'a str) -> UserRoleDto {
        role_of_lowered(lower_of(role@))
    }
}

} // verus!
