use xxfunc::args::{
    is_success, BuildArgs, Command, DeployArgs, StartArgs, StopArgs, OUTPUT_PATH,
};

#[test]
fn debug_build_runs_cargo_wasi_build() {
    let args = BuildArgs { release: false };
    assert_eq!(args.cargo_args(), vec!["wasi", "build"]);
    assert_eq!(args.target_dir(), "target/wasm32-wasi/debug");
}

#[test]
fn release_build_adds_the_flag() {
    let args = BuildArgs { release: true };
    assert_eq!(args.cargo_args(), vec!["wasi", "build", "--release"]);
    assert_eq!(args.target_dir(), "target/wasm32-wasi/release");
}

#[test]
fn artifact_is_named_after_the_project() {
    assert_eq!(BuildArgs::artifact_name("demo"), "demo.wasm");
    assert_eq!(BuildArgs::artifact_name(""), ".wasm");
    assert_eq!(OUTPUT_PATH, "wasm_output/output.wasm");
}

#[test]
fn deploy_posts_to_the_deploy_endpoint() {
    let args = DeployArgs {
        url: "http://localhost:3000".to_string(),
        wasm_path: "wasm_output/output.wasm".to_string(),
    };
    assert_eq!(args.endpoint(), "http://localhost:3000/deploy");
}

#[test]
fn start_request_names_the_module() {
    let args =
        StartArgs { url: "http://localhost:3000".to_string(), module_name: "a.wasm".to_string() };
    let request = args.request();
    assert_eq!(request.url, "http://localhost:3000/start");
    assert_eq!(request.body, "{\"module\":\"a.wasm\"}");
}

#[test]
fn stop_request_names_the_module() {
    let args = StopArgs { url: "http://h".to_string(), module_name: "b.wasm".to_string() };
    let request = args.request();
    assert_eq!(request.url, "http://h/stop");
    assert_eq!(request.body, "{\"module\":\"b.wasm\"}");
}

#[test]
fn request_body_is_escaped_json() {
    let args = StartArgs { url: String::new(), module_name: "a\"b\\c\n".to_string() };
    let request = args.request();
    assert_eq!(request.url, "/start");
    assert_eq!(request.body, "{\"module\":\"a\\\"b\\\\c\\n\"}");
    let parsed: serde_json::Value = serde_json::from_str(&request.body).unwrap();
    assert_eq!(parsed["module"], serde_json::Value::String("a\"b\\c\n".to_string()));
}

#[test]
fn success_is_the_two_hundreds() {
    assert!(is_success(200));
    assert!(is_success(204));
    assert!(is_success(299));
    assert!(!is_success(199));
    assert!(!is_success(300));
    assert!(!is_success(400));
    assert!(!is_success(500));
    assert!(!is_success(0));
    assert!(!is_success(u16::MAX));
}

#[test]
fn subcommands_end_with_their_messages() {
    assert_eq!(Command::Build.conclude(true), Ok("xxfunc build completed successfully"));
    assert_eq!(Command::Build.conclude(false), Err("cargo wasi build failed"));
    assert_eq!(Command::Deploy.conclude_status(200), Ok("xxfunc deploy completed successfully"));
    assert_eq!(Command::Deploy.conclude_status(400), Err("xxfunc deploy failed"));
    assert_eq!(Command::Start.conclude_status(200), Ok("xxfunc start completed successfully"));
    assert_eq!(Command::Start.conclude_status(500), Err("xxfunc start failed"));
    assert_eq!(Command::Stop.conclude_status(299), Ok("xxfunc stop completed successfully"));
    assert_eq!(Command::Stop.conclude_status(300), Err("xxfunc stop failed"));
}
