use frameos::models::{AppDescriptor, ModelValidationError, SceneDescriptor, SceneSource};

#[test]
fn rejects_invalid_scene_version() {
    let scene = SceneDescriptor {
        id: "clock/default".to_string(),
        app_id: "clock".to_string(),
        version: "v1".to_string(),
        source: SceneSource::InlineJson,
        metadata: Vec::new(),
    };

    assert!(matches!(
        scene.validate(),
        Err(ModelValidationError::InvalidField {
            field: "version",
            ..
        })
    ));
}

#[test]
fn rejects_empty_app_descriptor_display_name() {
    let app = AppDescriptor {
        id: "clock".to_string(),
        display_name: "".to_string(),
        executable: "/usr/bin/frameos-clock".to_string(),
        entry_scene: Some("clock/default".to_string()),
        enabled: true,
        env: Vec::new(),
    };

    assert_eq!(
        app.validate(),
        Err(ModelValidationError::MissingField("display_name"))
    );
}
