//! Invitations to shared resources, as the orchestrator reports them.

use vstd::prelude::*;
use vstd::string::StringExecFns;

use crate::date::parsed_timestamp;
use crate::date::DateError;

verus! {

/// The text named no known value.
#[derive(Clone, Copy, Debug, PartialEq, Eq, Structural)]
pub struct UnknownValue;

/// The role an invitation grants.
#[derive(Clone, Copy, Debug, PartialEq, Eq, Structural)]
pub enum RoleInShare {
    Admin,
    Guest,
    Service,
}

impl RoleInShare {
    /// The text form of this role.
    pub fn as_string(&self) -> (r: String)
        ensures
            r@ == match self {
                RoleInShare::Admin => "admin"@,
                RoleInShare::Guest => "guest"@,
                RoleInShare::Service => "service_user"@,
            },
    {
        match self {
            RoleInShare::Admin => String::from_str("admin"),
            RoleInShare::Guest => String::from_str("guest"),
            RoleInShare::Service => String::from_str("service_user"),
        }
    }

    /// Read a role from its text form.
    pub fn from_str(s: &str) -> (r: Result<RoleInShare, UnknownValue>)
        ensures
            s@ == "admin"@ ==> r == Result::<RoleInShare, UnknownValue>::Ok(RoleInShare::Admin),
            s@ == "guest"@ ==> r == Result::<RoleInShare, UnknownValue>::Ok(RoleInShare::Guest),
            s@ == "service_user"@ ==> r == Result::<RoleInShare, UnknownValue>::Ok(RoleInShare::Service),
            s@ != "admin"@ && s@ != "guest"@ && s@ != "service_user"@
                ==> r == Result::<RoleInShare, UnknownValue>::Err(UnknownValue),
    {
        proof {
            broadcast use vstd::string::group_string_axioms;

            reveal_strlit("admin");
            reveal_strlit("guest");
            reveal_strlit("service_user");
            assert("admin"@ != "guest"@) by {
                assert("admin"@[0] == 'a' && "guest"@[0] == 'g');
            }
            assert("admin"@ != "service_user"@) by {
                assert("admin"@.len() == 5 && "service_user"@.len() == 12);
            }
            assert("guest"@ != "service_user"@) by {
                assert("guest"@.len() == 5 && "service_user"@.len() == 12);
            }
        }
        let key = String::from_str(s);
        if key == String::from_str("admin") {
            Ok(RoleInShare::Admin)
        } else if key == String::from_str("guest") {
            Ok(RoleInShare::Guest)
        } else if key == String::from_str("service_user") {
            Ok(RoleInShare::Service)
        } else {
            Err(UnknownValue)
        }
    }
}

/// How widely an invitation shares.
#[derive(Clone, Copy, Debug, PartialEq, Eq, Structural)]
pub enum ShareScope {
    Project,
    Service,
    Space,
}

impl ShareScope {
    /// The text form of this scope.
    pub fn as_string(&self) -> (r: String)
        ensures
            r@ == match self {
                ShareScope::Project => "project"@,
                ShareScope::Service => "service"@,
                ShareScope::Space => "space"@,
            },
    {
        match self {
            ShareScope::Project => String::from_str("project"),
            ShareScope::Service => String::from_str("service"),
            ShareScope::Space => String::from_str("space"),
        }
    }

    /// Read a scope from its text form.
    pub fn from_str(s: &str) -> (r: Result<ShareScope, UnknownValue>)
        ensures
            s@ == "project"@ ==> r == Result::<ShareScope, UnknownValue>::Ok(ShareScope::Project),
            s@ == "service"@ ==> r == Result::<ShareScope, UnknownValue>::Ok(ShareScope::Service),
            s@ == "space"@ ==> r == Result::<ShareScope, UnknownValue>::Ok(ShareScope::Space),
            s@ != "project"@ && s@ != "service"@ && s@ != "space"@
                ==> r == Result::<ShareScope, UnknownValue>::Err(UnknownValue),
    {
        proof {
            broadcast use vstd::string::group_string_axioms;

            reveal_strlit("project");
            reveal_strlit("service");
            reveal_strlit("space");
            assert("project"@ != "service"@) by {
                assert("project"@[0] == 'p' && "service"@[0] == 's');
            }
            assert("project"@ != "space"@) by {
                assert("project"@.len() == 7 && "space"@.len() == 5);
            }
            assert("service"@ != "space"@) by {
                assert("service"@.len() == 7 && "space"@.len() == 5);
            }
        }
        let key = String::from_str(s);
        if key == String::from_str("project") {
            Ok(ShareScope::Project)
        } else if key == String::from_str("service") {
            Ok(ShareScope::Service)
        } else if key == String::from_str("space") {
            Ok(ShareScope::Space)
        } else {
            Err(UnknownValue)
        }
    }
}

/// An invitation this side received: who shares what, under which role,
/// and until when.
pub struct ReceivedInvitation {
    pub id: String,
    pub expires_at: String,
    pub grant_role: RoleInShare,
    pub owner_email: String,
    pub scope: ShareScope,
    pub target_id: String,
    pub ignored: bool,
}

impl ReceivedInvitation {
    /// Whether this invitation's expiry date lies in the past.  Rejects
    /// an expiry that is not a well-formed timestamp; the verdict itself
    /// depends on the clock.
    pub fn is_expired(&self) -> (r: Result<bool, DateError>)
        ensures
            parsed_timestamp(self.expires_at@) is Some <==> r is Ok,
            parsed_timestamp(self.expires_at@) is None
                ==> r == Result::<bool, DateError>::Err(DateError::InvalidDate),
    {
        crate::date::is_expired(self.expires_at.as_str())
    }
}

} // verus!
