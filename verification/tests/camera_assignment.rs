use mjolnir_backend::camera_assignment::{
    assignment_from_repo_config, resolve_camera_assignment, AssignmentError, AssignmentInputs,
    AssignmentSource, RepoCameraAssignmentFile, SessionManifest,
};

fn ids(left: &str, right: &str) -> Vec<String> {
    vec![left.to_string(), right.to_string()]
}

#[test]
fn cli_both_flags_take_precedence_over_manifest() {
    let available = ids("camera-a", "camera-b");
    let assignment = resolve_camera_assignment(&AssignmentInputs {
        cli_left: Some("camera-b".to_string()),
        cli_right: Some("camera-a".to_string()),
        manifest: Some(SessionManifest {
            left_camera_id: "camera-a".to_string(),
            right_camera_id: "camera-b".to_string(),
        }),
        available_camera_ids: &available,
    })
    .expect("CLI flags resolve");
    assert_eq!(assignment.left_camera_id, "camera-b");
    assert_eq!(assignment.right_camera_id, "camera-a");
}

#[test]
fn cli_left_only_infers_right_from_available_pool() {
    let available = ids("camera-a", "camera-b");
    let assignment = resolve_camera_assignment(&AssignmentInputs {
        cli_left: Some("camera-b".to_string()),
        cli_right: None,
        manifest: None,
        available_camera_ids: &available,
    })
    .expect("left flag resolves");
    assert_eq!(assignment.left_camera_id, "camera-b");
    assert_eq!(assignment.right_camera_id, "camera-a");
}

#[test]
fn cli_right_only_infers_left_from_available_pool() {
    let available = ids("camera-a", "camera-b");
    let assignment = resolve_camera_assignment(&AssignmentInputs {
        cli_left: None,
        cli_right: Some("camera-a".to_string()),
        manifest: None,
        available_camera_ids: &available,
    })
    .expect("right flag resolves");
    assert_eq!(assignment.left_camera_id, "camera-b");
    assert_eq!(assignment.right_camera_id, "camera-a");
}

#[test]
fn manifest_used_when_no_cli_flags() {
    let available = ids("camera-a", "camera-b");
    let assignment = resolve_camera_assignment(&AssignmentInputs {
        cli_left: None,
        cli_right: None,
        manifest: Some(SessionManifest {
            left_camera_id: "camera-b".to_string(),
            right_camera_id: "camera-a".to_string(),
        }),
        available_camera_ids: &available,
    })
    .expect("manifest resolves");
    assert_eq!(assignment.left_camera_id, "camera-b");
    assert_eq!(assignment.right_camera_id, "camera-a");
}

#[test]
fn cli_with_equal_left_and_right_is_refused() {
    let available = ids("camera-a", "camera-b");
    let error = resolve_camera_assignment(&AssignmentInputs {
        cli_left: Some("camera-a".to_string()),
        cli_right: Some("camera-a".to_string()),
        manifest: None,
        available_camera_ids: &available,
    })
    .expect_err("equal ids are refused");
    assert_eq!(
        error,
        AssignmentError::LeftEqualsRight {
            source: AssignmentSource::CliFlags,
            camera_id: "camera-a".to_string()
        }
    );
}

#[test]
fn cli_with_unknown_camera_is_refused() {
    let available = ids("camera-a", "camera-b");
    let error = resolve_camera_assignment(&AssignmentInputs {
        cli_left: Some("camera-z".to_string()),
        cli_right: Some("camera-a".to_string()),
        manifest: None,
        available_camera_ids: &available,
    })
    .expect_err("unknown left camera is refused");
    assert_eq!(
        error,
        AssignmentError::LeftNotAvailable {
            source: AssignmentSource::CliFlags,
            camera_id: "camera-z".to_string()
        }
    );
}

#[test]
fn cli_unknown_right_camera_is_refused() {
    let available = ids("camera-a", "camera-b");
    let error = resolve_camera_assignment(&AssignmentInputs {
        cli_left: Some("camera-a".to_string()),
        cli_right: Some("camera-z".to_string()),
        manifest: None,
        available_camera_ids: &available,
    })
    .expect_err("unknown right camera is refused");
    assert_eq!(
        error,
        AssignmentError::RightNotAvailable {
            source: AssignmentSource::CliFlags,
            camera_id: "camera-z".to_string()
        }
    );
}

#[test]
fn cli_single_flag_with_unknown_camera_cannot_infer() {
    let available = ids("camera-a", "camera-b");
    let error = resolve_camera_assignment(&AssignmentInputs {
        cli_left: Some("camera-z".to_string()),
        cli_right: None,
        manifest: None,
        available_camera_ids: &available,
    })
    .expect_err("the other camera cannot be inferred");
    assert_eq!(
        error,
        AssignmentError::CannotInferAmbiguous { known: "camera-z".to_string() }
    );
}

#[test]
fn single_flag_with_duplicate_available_ids_cannot_infer() {
    let available = ids("camera-a", "camera-a");
    let error = resolve_camera_assignment(&AssignmentInputs {
        cli_left: Some("camera-a".to_string()),
        cli_right: None,
        manifest: None,
        available_camera_ids: &available,
    })
    .expect_err("no other camera is left");
    assert_eq!(
        error,
        AssignmentError::CannotInferUnknown { known: "camera-a".to_string() }
    );
}

#[test]
fn fewer_than_two_available_cameras_is_refused() {
    let available = vec!["camera-a".to_string()];
    let error = resolve_camera_assignment(&AssignmentInputs {
        cli_left: None,
        cli_right: None,
        manifest: None,
        available_camera_ids: &available,
    })
    .expect_err("one camera is not enough");
    assert_eq!(error, AssignmentError::WrongCameraCount { found: 1 });
}

#[test]
fn manifest_referencing_unknown_camera_is_refused() {
    let available = ids("camera-a", "camera-b");
    let error = resolve_camera_assignment(&AssignmentInputs {
        cli_left: None,
        cli_right: None,
        manifest: Some(SessionManifest {
            left_camera_id: "camera-z".to_string(),
            right_camera_id: "camera-a".to_string(),
        }),
        available_camera_ids: &available,
    })
    .expect_err("manifest with unknown camera is refused");
    assert_eq!(
        error,
        AssignmentError::LeftNotAvailable {
            source: AssignmentSource::SessionManifest,
            camera_id: "camera-z".to_string()
        }
    );
}

#[test]
fn no_flags_and_no_manifest_defers_to_repo_config() {
    let available = ids("camera-a", "camera-b");
    let error = resolve_camera_assignment(&AssignmentInputs {
        cli_left: None,
        cli_right: None,
        manifest: None,
        available_camera_ids: &available,
    })
    .expect_err("no source given");
    assert_eq!(error, AssignmentError::NoAssignmentSource);
}

#[test]
fn repo_config_assignment_is_validated() {
    let available = ids("camera-a", "camera-b");
    let assignment = assignment_from_repo_config(
        RepoCameraAssignmentFile {
            left_camera_id: "camera-a".to_string(),
            right_camera_id: "camera-b".to_string(),
        },
        &available,
    )
    .expect("repo config resolves");
    assert_eq!(assignment.left_camera_id, "camera-a");
    assert_eq!(assignment.right_camera_id, "camera-b");

    let error = assignment_from_repo_config(
        RepoCameraAssignmentFile {
            left_camera_id: "camera-b".to_string(),
            right_camera_id: "camera-b".to_string(),
        },
        &available,
    )
    .expect_err("equal ids are refused");
    assert_eq!(
        error,
        AssignmentError::LeftEqualsRight {
            source: AssignmentSource::RepoConfig,
            camera_id: "camera-b".to_string()
        }
    );
}
