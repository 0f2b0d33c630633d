//! The decisions of the middleware that guards the administration routes.
//!
//! A request passes when its user is known and holds the owner's role on
//! the administration object.  The middleware itself awaits three answers
//! in turn: who the user is, which numeric id the user has, and what the
//! policy says.  After each answer one of the functions below decides how
//! to go on.

use vstd::prelude::*;

verus! {

/// A role that a policy can be asked about.
#[derive(Debug, Clone, Copy, PartialEq, Eq, Structural)]
pub enum AFRole {
    Owner,
    Member,
    Guest,
}

/// The kind of object that a policy protects.
#[derive(Debug, Clone, Copy, PartialEq, Eq, Structural)]
pub enum ObjectType {
    Admin,
}

/// A question to the policy: may `uid` act in `role` on `object_type`?
#[derive(Debug, Clone, Copy, PartialEq, Eq, Structural)]
pub struct PolicyRequest {
    pub uid: i64,
    pub object_type: ObjectType,
    pub role: AFRole,
}

/// Why a request to an administration route is turned away.
#[derive(Debug, PartialEq, Eq)]
pub enum AdminError {
    /// The request could not be examined.
    Internal(String),
    /// The user lacks the role that the route asks for.
    NotEnoughPermissions { user: i64, role: AFRole },
}

/// The factory of the middleware: it holds the handle of the access
/// control and gives a copy of it to each middleware it builds.
pub struct MiddlewareAdminAccessControlTransform<A> {
    access_control: A,
}

/// The middleware around one service.
pub struct MiddlewareAdminAccessControl<S, A> {
    service: S,
    access_control: A,
}

/// The question that the middleware puts for the user `uid`.
pub open spec fn admin_request(uid: i64) -> PolicyRequest {
    PolicyRequest { uid, object_type: ObjectType::Admin, role: AFRole::Owner }
}

impl<A> MiddlewareAdminAccessControlTransform<A> {
    /// The handle that the factory holds.
    pub closed spec fn handle(&self) -> A {
        self.access_control
    }

    /// A factory around `access_control`.
    pub fn new(access_control: A) -> (r: Self)
        ensures
            r.handle() == access_control,
    {
        MiddlewareAdminAccessControlTransform { access_control }
    }

    /// The handle that the factory holds.
    pub fn access_control(&self) -> (r: &A)
        ensures
            *r == self.handle(),
    {
        &self.access_control
    }

}

impl<A: Clone> MiddlewareAdminAccessControlTransform<A> {
    /// The middleware around `service`, with a copy of the factory's
    /// handle.
    pub fn new_transform<S>(&self, service: S) -> (r: MiddlewareAdminAccessControl<S, A>)
        ensures
            r.inner() == service,
            cloned(self.handle(), r.handle()),
    {
        MiddlewareAdminAccessControl { service, access_control: self.access_control.clone() }
    }
}

impl<S, A> MiddlewareAdminAccessControl<S, A> {
    /// The service that the middleware guards.
    pub closed spec fn inner(&self) -> S {
        self.service
    }

    /// The handle of the access control.
    pub closed spec fn handle(&self) -> A {
        self.access_control
    }

    /// The service that the middleware guards.
    pub fn service(&self) -> (r: &S)
        ensures
            *r == self.inner(),
    {
        &self.service
    }

    /// The handle of the access control.
    pub fn access_control(&self) -> (r: &A)
        ensures
            *r == self.handle(),
    {
        &self.access_control
    }

    /// After the request was asked for its user: `user` is the user's
    /// UUID or why none was found, `has_state` says whether the request
    /// carries the application state.  The result is the UUID whose
    /// numeric id is to be looked up.
    pub fn user_extracted(&self, user: Result<String, String>, has_state: bool) -> (r: Result<
        String,
        AdminError,
    >)
        ensures
            match user {
                Err(why) => r matches Err(AdminError::Internal(m)) && m@
                    == "Can't find the user uuid from the request: "@ + why@,
                Ok(uuid) => if has_state {
                    r == Ok::<String, AdminError>(uuid)
                } else {
                    r matches Err(AdminError::Internal(m)) && m@
                        == "AppState is not found in the request"@
                },
            },
    {
        match user {
            Err(why) => Err(
                AdminError::Internal(
                    "Can't find the user uuid from the request: ".to_owned().concat(why.as_str()),
                ),
            ),
            Ok(uuid) => {
                if has_state {
                    Ok(uuid)
                } else {
                    Err(AdminError::Internal("AppState is not found in the request".to_owned()))
                }
            },
        }
    }

    /// After the user's numeric id was looked up: the question to put to
    /// the policy, or the error of the lookup.
    pub fn uid_found(&self, uid: Result<i64, AdminError>) -> (r: Result<PolicyRequest, AdminError>)
        ensures
            match uid {
                Ok(id) => r == Ok::<PolicyRequest, AdminError>(admin_request(id)),
                Err(e) => r == Err::<PolicyRequest, AdminError>(e),
            },
    {
        match uid {
            Ok(id) => Ok(PolicyRequest { uid: id, object_type: ObjectType::Admin, role: AFRole::Owner }),
            Err(e) => Err(e),
        }
    }

    /// After the policy answered `request`: `Ok` when the request may go on
    /// to the service, else why it is turned away.
    pub fn policy_answered(&self, request: PolicyRequest, answer: Result<bool, AdminError>) -> (r:
        Result<(), AdminError>)
        ensures
            match answer {
                Ok(true) => r is Ok,
                Ok(false) => r == Err::<(), AdminError>(
                    AdminError::NotEnoughPermissions { user: request.uid, role: request.role },
                ),
                Err(e) => r == Err::<(), AdminError>(e),
            },
    {
        match answer {
            Ok(true) => Ok(()),
            Ok(false) => Err(
                AdminError::NotEnoughPermissions { user: request.uid, role: request.role },
            ),
            Err(e) => Err(e),
        }
    }
}

} // verus!
