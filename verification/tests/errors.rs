use rs_script::errors::{disentangle, reassemble, BuildRunError, Stage};

#[test]
fn test_from_string() {
    let error_message = String::from("This is a string error");
    let build_run_err: BuildRunError = error_message.into();
    match build_run_err {
        BuildRunError::FromStr(_) => (),
        _ => panic!("Expected BuildRunError::FromStr variant"),
    }
}

#[test]
fn test_display() {
    let build_run_err = BuildRunError::Command(String::from("Command error occurred"));
    assert_eq!(format!("{}", build_run_err.to_string()), "Command error occurred\n");
}

#[test]
fn test_cancelled() {
    let build_run_err = BuildRunError::Cancelled;
    match build_run_err {
        BuildRunError::Cancelled => (),
        _ => panic!("Expected BuildRunError::Cancelled variant"),
    }
}

#[test]
fn every_failure_has_its_text() {
    let s = |t: &str| t.to_string();
    assert_eq!(BuildRunError::Cancelled.to_string(), "Cancelled");
    assert_eq!(BuildRunError::FromStr(s("one\r\ntwo")).to_string(), "one\ntwo\n");
    assert_eq!(BuildRunError::Command(s("")).to_string(), "");
    assert_eq!(BuildRunError::MalformedManifest(s("bad key\n")).to_string(), "bad key\n");
    assert_eq!(BuildRunError::DependencyNotFound(s("serde")).to_string(), "serde");
    assert_eq!(BuildRunError::RegistryResponseError(s("??")).to_string(), "??");
    assert_eq!(BuildRunError::FilesystemError(s("denied")).to_string(), "denied");
    assert_eq!(
        BuildRunError::ToolchainBuildFailed(s("error[E0425]\n  --> x\n")).to_string(),
        "error[E0425]\n  --> x\n"
    );
    assert_eq!(BuildRunError::ToolchainRunFailed(s("panicked")).to_string(), "panicked");
}

#[test]
fn failures_belong_to_stages() {
    let s = |t: &str| t.to_string();
    assert_eq!(BuildRunError::MalformedManifest(s("")).stage(), Some(Stage::Generate));
    assert_eq!(BuildRunError::DependencyNotFound(s("")).stage(), Some(Stage::Generate));
    assert_eq!(BuildRunError::RegistryResponseError(s("")).stage(), Some(Stage::Generate));
    assert_eq!(BuildRunError::ToolchainBuildFailed(s("")).stage(), Some(Stage::Build));
    assert_eq!(BuildRunError::ToolchainRunFailed(s("")).stage(), Some(Stage::Run));
    assert_eq!(BuildRunError::FilesystemError(s("")).stage(), None);
    assert_eq!(BuildRunError::Cancelled.stage(), None);
}

#[test]
fn a_wall_of_text_becomes_lines() {
    assert_eq!(disentangle("a\nb"), "a\nb\n");
    assert_eq!(disentangle("a\r\nb\n"), "a\nb\n");
    assert_eq!(disentangle("a\n\nb"), "a\n\nb\n");
    assert_eq!(disentangle(""), "");
    assert_eq!(disentangle("\n"), "\n");
    let lines: Vec<Vec<char>> = vec!["x".chars().collect(), "".chars().collect()];
    assert_eq!(reassemble(&lines), "x\n\n".chars().collect::<Vec<char>>());
}
