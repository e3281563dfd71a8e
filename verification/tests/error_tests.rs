use bezier_editor::application::ApplicationError;
use bezier_editor::renderer::ShaderError;
use bezier_editor::renderer::ShaderType;

#[test]
fn shader_error_carries_stage_and_log() {
    let err = ShaderError::FailedToCompile {
        shader_type: ShaderType::Fragment,
        error: String::from("0:3: syntax error"),
    };
    match err {
        ShaderError::FailedToCompile { shader_type, error } => {
            assert!(matches!(shader_type, ShaderType::Fragment));
            assert_eq!(error, "0:3: syntax error");
        }
    }
}

#[test]
fn shader_stages_are_distinguishable() {
    let stages = [ShaderType::Vertex, ShaderType::Fragment, ShaderType::Program];
    let shown: Vec<String> = stages.iter().map(|s| format!("{:?}", s)).collect();
    assert_eq!(shown, vec!["Vertex", "Fragment", "Program"]);
}

#[test]
fn initialization_error_is_reportable() {
    let err = ApplicationError::InitializationError;
    assert_eq!(format!("{:?}", err), "InitializationError");
}
