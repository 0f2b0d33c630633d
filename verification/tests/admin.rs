use collab_duplicator::admin::{
    AFRole, AdminError, MiddlewareAdminAccessControl, MiddlewareAdminAccessControlTransform,
    ObjectType, PolicyRequest,
};

fn middleware() -> MiddlewareAdminAccessControl<&'static str, u8> {
    MiddlewareAdminAccessControlTransform::new(7u8).new_transform("service")
}

#[test]
fn the_transform_hands_its_handle_to_the_middleware() {
    let transform = MiddlewareAdminAccessControlTransform::new(7u8);
    assert_eq!(*transform.access_control(), 7);
    let middleware = transform.new_transform("service");
    assert_eq!(*middleware.access_control(), 7);
    assert_eq!(*middleware.service(), "service");
}

#[test]
fn a_request_without_a_user_is_turned_away() {
    assert_eq!(
        middleware().user_extracted(Err("no token".to_string()), true),
        Err(AdminError::Internal("Can't find the user uuid from the request: no token".to_string()))
    );
}

#[test]
fn a_request_without_the_state_is_turned_away() {
    assert_eq!(
        middleware().user_extracted(Ok("uuid".to_string()), false),
        Err(AdminError::Internal("AppState is not found in the request".to_string()))
    );
    assert_eq!(middleware().user_extracted(Ok("uuid".to_string()), true), Ok("uuid".to_string()));
}

#[test]
fn the_policy_is_asked_for_the_owner_role_on_the_admin_object() {
    assert_eq!(
        middleware().uid_found(Ok(12)),
        Ok(PolicyRequest { uid: 12, object_type: ObjectType::Admin, role: AFRole::Owner })
    );
    assert_eq!(
        middleware().uid_found(Err(AdminError::Internal("lookup".to_string()))),
        Err(AdminError::Internal("lookup".to_string()))
    );
}

#[test]
fn the_answer_of_the_policy_decides() {
    let request = PolicyRequest { uid: 12, object_type: ObjectType::Admin, role: AFRole::Owner };
    assert_eq!(middleware().policy_answered(request, Ok(true)), Ok(()));
    assert_eq!(
        middleware().policy_answered(request, Ok(false)),
        Err(AdminError::NotEnoughPermissions { user: 12, role: AFRole::Owner })
    );
    assert_eq!(
        middleware().policy_answered(request, Err(AdminError::Internal("down".to_string()))),
        Err(AdminError::Internal("down".to_string()))
    );
}
