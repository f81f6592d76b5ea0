use courtyard_core::plans::{
    format_temp_centi, generation_script_name, plan_cleaning, plan_download, plan_export,
    plan_generation, plan_inference, PreconditionError,
};

fn arg_strs(args: &[String]) -> Vec<&str> {
    args.iter().map(|s| s.as_str()).collect()
}

#[test]
fn cleaning_plan_wraps_the_worker_under_caffeinate() {
    let plan = plan_cleaning(
        true,
        true,
        true,
        "/py/bin/python",
        "/scripts/clean_data.py",
        "/projects/p1",
        None,
    )
    .ok()
    .expect("all preconditions hold");
    assert_eq!(plan.program.as_str(), "caffeinate");
    assert_eq!(
        arg_strs(&plan.args),
        vec![
            "-i",
            "/py/bin/python",
            "/scripts/clean_data.py",
            "--project-dir",
            "/projects/p1",
            "--lang",
            "en",
        ]
    );
    assert!(plan.env.is_empty());
}

#[test]
fn cleaning_plan_reports_each_missing_precondition() {
    let e = plan_cleaning(false, true, true, "p", "s", "d", None).err().unwrap();
    assert!(matches!(e, PreconditionError::EnvNotReady));
    assert_eq!(e.message().as_str(), "Python environment is not ready");
    let e = plan_cleaning(true, false, true, "p", "s", "d", None).err().unwrap();
    assert!(matches!(e, PreconditionError::InputMissing));
    assert_eq!(e.message().as_str(), "required input data is missing");
    let e = plan_cleaning(true, true, false, "p", "/scripts/clean_data.py", "d", None)
        .err()
        .unwrap();
    match &e {
        PreconditionError::ScriptMissing { path } => {
            assert_eq!(path.as_str(), "/scripts/clean_data.py")
        }
        _ => panic!("expected the missing script"),
    }
    assert_eq!(e.message().as_str(), "script not found: /scripts/clean_data.py");
}

#[test]
fn generation_script_is_chosen_by_source() {
    assert_eq!(generation_script_name("ollama").as_str(), "generate_dataset_ollama.py");
    assert_eq!(generation_script_name("builtin").as_str(), "generate_dataset_builtin.py");
    assert_eq!(generation_script_name("mlx").as_str(), "generate_dataset.py");
}

#[test]
fn generation_plan_names_the_model_unless_builtin() {
    let plan = plan_generation(
        true,
        true,
        true,
        "/py",
        "/s/generate_dataset.py",
        "/p",
        "/p/dataset/20250101_000000",
        String::from("qa"),
        String::from("llama"),
        true,
        false,
        Some(String::from("de")),
    )
    .ok()
    .unwrap();
    assert_eq!(plan.program.as_str(), "caffeinate");
    assert_eq!(
        arg_strs(&plan.args),
        vec![
            "-i",
            "/py",
            "/s/generate_dataset.py",
            "--project-dir",
            "/p",
            "--output-dir",
            "/p/dataset/20250101_000000",
            "--mode",
            "qa",
            "--model",
            "llama",
            "--lang",
            "de",
        ]
    );
    let plan = plan_generation(
        true,
        true,
        true,
        "/py",
        "/s/generate_dataset_builtin.py",
        "/p",
        "/p/dataset/20250101_000000",
        String::from("qa"),
        String::from("ignored"),
        false,
        true,
        None,
    )
    .ok()
    .unwrap();
    assert_eq!(
        arg_strs(&plan.args),
        vec![
            "-i",
            "/py",
            "/s/generate_dataset_builtin.py",
            "--project-dir",
            "/p",
            "--output-dir",
            "/p/dataset/20250101_000000",
            "--mode",
            "qa",
            "--resume",
            "--lang",
            "en",
        ]
    );
}

#[test]
fn export_plan_uses_the_given_adapter_and_configured_root() {
    let plan = plan_export(
        true,
        true,
        true,
        "/py",
        "/s/export_ollama.py",
        Some(String::from("/adapters/a7")),
        None,
        Some(String::from("/exports")),
        "/p",
        "p1",
        "llama",
        "my-model",
        None,
    )
    .ok()
    .unwrap();
    assert_eq!(plan.program.as_str(), "/py");
    assert_eq!(
        arg_strs(&plan.args),
        vec![
            "/s/export_ollama.py",
            "--model",
            "llama",
            "--adapter-path",
            "/adapters/a7",
            "--model-name",
            "my-model",
            "--output-dir",
            "/exports/p1",
            "--quantization",
            "q4",
        ]
    );
}

#[test]
fn export_plan_falls_back_to_the_latest_adapter_and_project_export_dir() {
    let plan = plan_export(
        true,
        true,
        false,
        "/py",
        "/s/export_ollama.py",
        None,
        Some(String::from("/p/adapters/newest")),
        None,
        "/p",
        "p1",
        "llama",
        "my-model",
        Some(String::from("q8")),
    )
    .ok()
    .unwrap();
    let args = arg_strs(&plan.args);
    assert_eq!(args[4], "/p/adapters/newest");
    assert_eq!(args[8], "/p/export");
    assert_eq!(args[10], "q8");
}

#[test]
fn export_plan_reports_adapter_problems() {
    let e = plan_export(
        true,
        true,
        false,
        "/py",
        "/s/export_ollama.py",
        Some(String::from("/gone")),
        None,
        None,
        "/p",
        "p1",
        "m",
        "n",
        None,
    )
    .err()
    .unwrap();
    match &e {
        PreconditionError::AdapterMissing { path } => assert_eq!(path.as_str(), "/gone"),
        _ => panic!("expected the missing adapter"),
    }
    assert_eq!(e.message().as_str(), "adapter path not found: /gone");
    let e = plan_export(
        true, true, true, "/py", "/s/e.py", None, None, None, "/p", "p1", "m", "n", None,
    )
    .err()
    .unwrap();
    assert!(matches!(e, PreconditionError::NoAdapter));
    assert_eq!(e.message().as_str(), "no trained adapter found");
}

#[test]
fn temperature_renders_with_two_fractional_digits() {
    assert_eq!(format_temp_centi(70).as_str(), "0.70");
    assert_eq!(format_temp_centi(100).as_str(), "1.00");
    assert_eq!(format_temp_centi(7).as_str(), "0.07");
    assert_eq!(format_temp_centi(125).as_str(), "1.25");
}

#[test]
fn inference_plan_takes_defaults_and_optional_adapter() {
    let plan = plan_inference(
        true,
        true,
        "/py",
        "/s/inference.py",
        String::from("llama"),
        String::from("hello there"),
        None,
        None,
        None,
        None,
    )
    .ok()
    .unwrap();
    assert_eq!(plan.program.as_str(), "/py");
    assert_eq!(
        arg_strs(&plan.args),
        vec![
            "/s/inference.py",
            "--model",
            "llama",
            "--prompt",
            "hello there",
            "--max-tokens",
            "512",
            "--temp",
            "0.70",
            "--lang",
            "en",
        ]
    );
    let plan = plan_inference(
        true,
        true,
        "/py",
        "/s/inference.py",
        String::from("llama"),
        String::from("hi"),
        Some(64),
        Some(125),
        Some(String::from("/p/adapters/a1")),
        Some(String::from("de")),
    )
    .ok()
    .unwrap();
    assert_eq!(
        arg_strs(&plan.args),
        vec![
            "/s/inference.py",
            "--model",
            "llama",
            "--prompt",
            "hi",
            "--max-tokens",
            "64",
            "--temp",
            "1.25",
            "--adapter-path",
            "/p/adapters/a1",
            "--lang",
            "de",
        ]
    );
}

#[test]
fn download_plan_passes_cache_dir_and_mirror_endpoint() {
    let plan = plan_download(
        true,
        true,
        "/py",
        "/s/download_model.py",
        String::from("org/model-a"),
        Some(String::from("/cache/hf")),
        Some(String::from("https://mirror.example")),
    )
    .ok()
    .unwrap();
    assert_eq!(plan.program.as_str(), "/py");
    assert_eq!(
        arg_strs(&plan.args),
        vec!["/s/download_model.py", "org/model-a", "--cache-dir", "/cache/hf"]
    );
    assert_eq!(plan.env.len(), 1);
    assert_eq!(plan.env[0].0.as_str(), "HF_ENDPOINT");
    assert_eq!(plan.env[0].1.as_str(), "https://mirror.example");
    let plan = plan_download(
        true,
        true,
        "/py",
        "/s/download_model.py",
        String::from("org/model-a"),
        None,
        None,
    )
    .ok()
    .unwrap();
    assert_eq!(arg_strs(&plan.args), vec!["/s/download_model.py", "org/model-a"]);
    assert!(plan.env.is_empty());
}
