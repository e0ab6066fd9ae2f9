use bevy_slang::loader::{
    Compilation, LoadError, Loaded, Outcome, Severity, SlangLoader, SlangSettings,
};

fn run_for(asset_path: &str, profile: &str) -> Compilation {
    SlangLoader::default().plan(asset_path, &SlangSettings::new(profile))
}

#[test]
fn default_settings_have_the_empty_profile() {
    assert_eq!(SlangSettings::default().profile, "");
}

#[test]
fn settings_carry_the_profile() {
    assert_eq!(SlangSettings::new("ps_6_0").profile, "ps_6_0");
    assert_eq!(SlangSettings::new("ps_6_0"), SlangSettings { profile: "ps_6_0".to_string() });
}

#[test]
fn default_loader_is_lenient() {
    assert_eq!(SlangLoader::default().severity, Severity::Lenient);
}

#[test]
fn plan_compiles_the_file_under_the_asset_root() {
    let run = run_for("shaders/tri.slang", "ps_6_0");
    assert_eq!(run.program, "slangc");
    assert_eq!(run.output, "assets/shaders/tri.spv");
    assert_eq!(
        run.arguments,
        vec![
            "assets/shaders/tri.slang",
            "-profile",
            "ps_6_0",
            "-o",
            "assets/shaders/tri.spv",
            "-fvk-use-gl-layout",
            "-entry",
            "fragment",
            "-fvk-use-entrypoint-name",
        ]
    );
}

#[test]
fn plan_without_stage_marker_compiles_as_compute() {
    let run = run_for("shaders/blur.slang", "sm_6_0");
    assert_eq!(run.output, "assets/shaders/blur.spv");
    assert_eq!(
        run.arguments,
        vec![
            "assets/shaders/blur.slang",
            "-profile",
            "sm_6_0",
            "-o",
            "assets/shaders/blur.spv",
            "-fvk-use-gl-layout",
            "-stage",
            "compute",
        ]
    );
}

#[test]
fn plan_with_default_settings_compiles_as_compute() {
    let run = SlangLoader::default().plan("a.slang", &SlangSettings::default());
    assert_eq!(
        run.arguments,
        vec!["assets/a.slang", "-profile", "", "-o", "assets/a.spv", "-fvk-use-gl-layout", "-stage", "compute"]
    );
}

#[test]
fn plan_does_not_depend_on_the_severity() {
    let settings = SlangSettings::new("vs_6_0");
    let lenient = SlangLoader { severity: Severity::Lenient }.plan("a.slang", &settings);
    let strict = SlangLoader { severity: Severity::Strict }.plan("a.slang", &settings);
    assert_eq!(lenient, strict);
}

#[test]
fn missing_compiler_fails_the_load() {
    let run = run_for("shaders/tri.slang", "ps_6_0");
    for severity in [Severity::Lenient, Severity::Strict] {
        let end = SlangLoader { severity }.finish(&run, Outcome::NotStarted);
        assert_eq!(end, Err(LoadError::NotStarted));
    }
}

#[test]
fn clean_run_gives_the_marker_of_the_output() {
    let run = run_for("shaders/tri.slang", "ps_6_0");
    for severity in [Severity::Lenient, Severity::Strict] {
        let end = SlangLoader { severity }
            .finish(&run, Outcome::Exited { success: true, stderr: Vec::new() });
        let Ok(Loaded { marker, diagnostic }) = end else {
            panic!("the load failed");
        };
        assert_eq!(marker.output_path(), "assets/shaders/tri.spv");
        assert_eq!(diagnostic, None);
    }
}

#[test]
fn failed_compile_still_gives_the_marker() {
    let run = run_for("shaders/tri.slang", "ps_6_0");
    let stderr = b"tri.slang(3): error 30015: undefined identifier".to_vec();
    let end = SlangLoader::default()
        .finish(&run, Outcome::Exited { success: false, stderr: stderr.clone() });
    let Ok(Loaded { marker, diagnostic }) = end else {
        panic!("the load failed");
    };
    assert_eq!(marker.output_path(), "assets/shaders/tri.spv");
    assert_eq!(diagnostic, Some(stderr));
}

#[test]
fn warning_of_a_successful_compile_is_handed_on() {
    let run = run_for("a.slang", "sm_6_0");
    let end = SlangLoader::default()
        .finish(&run, Outcome::Exited { success: true, stderr: b"w\n".to_vec() });
    let Ok(loaded) = end else {
        panic!("the load failed");
    };
    assert_eq!(loaded.marker.output_path(), "assets/a.spv");
    assert_eq!(loaded.diagnostic, Some(b"w\n".to_vec()));
}

#[test]
fn one_byte_on_standard_error_is_no_diagnostic() {
    let run = run_for("a.slang", "sm_6_0");
    for severity in [Severity::Lenient, Severity::Strict] {
        let end = SlangLoader { severity }
            .finish(&run, Outcome::Exited { success: true, stderr: b"\n".to_vec() });
        let Ok(loaded) = end else {
            panic!("the load failed");
        };
        assert_eq!(loaded.diagnostic, None);
    }
}

#[test]
fn failed_compile_without_output_leaves_an_empty_diagnostic() {
    let run = run_for("a.slang", "sm_6_0");
    let end = SlangLoader::default()
        .finish(&run, Outcome::Exited { success: false, stderr: Vec::new() });
    let Ok(loaded) = end else {
        panic!("the load failed");
    };
    assert_eq!(loaded.diagnostic, Some(Vec::new()));
}

#[test]
fn strict_loader_rejects_a_run_with_a_diagnostic() {
    let run = run_for("a.slang", "sm_6_0");
    let strict = SlangLoader { severity: Severity::Strict };
    let end = strict.finish(&run, Outcome::Exited { success: false, stderr: b"error".to_vec() });
    assert_eq!(end, Err(LoadError::Rejected { diagnostic: b"error".to_vec() }));
    let end = strict.finish(&run, Outcome::Exited { success: true, stderr: b"warning".to_vec() });
    assert_eq!(end, Err(LoadError::Rejected { diagnostic: b"warning".to_vec() }));
    let end = strict.finish(&run, Outcome::Exited { success: false, stderr: Vec::new() });
    assert_eq!(end, Err(LoadError::Rejected { diagnostic: Vec::new() }));
}

#[test]
fn marker_path_is_the_source_path_with_the_extension_changed() {
    for asset_path in ["tri.slang", "shaders/tri.slang", "a.b/c.d.slang", "/abs/tri.slang"] {
        let run = run_for(asset_path, "sm_6_0");
        let end = SlangLoader::default()
            .finish(&run, Outcome::Exited { success: true, stderr: Vec::new() });
        let marker = end.unwrap().marker;
        let source = &run.arguments[0];
        assert_eq!(
            marker.output_path(),
            format!("{}spv", source.strip_suffix("slang").unwrap())
        );
        assert_eq!(marker.output_path(), run.arguments[4]);
    }
}
