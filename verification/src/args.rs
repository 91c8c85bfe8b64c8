//! The requests of the command line client: what each subcommand asks of
//! `cargo` or of the control API, and how it reads the answer.
//!
//! Running `cargo`, copying files and sending the requests is left to the
//! caller; here is what is run, what is sent where, and what counts as
//! success.

use vstd::prelude::*;
use vstd::string::*;

verus! {

/// Builds the project with `cargo wasi`.
#[derive(Debug, Clone)]
pub struct BuildArgs {
    /// Build artifacts in release mode.
    pub release: bool,
}

/// Deploys a module to the service.
#[derive(Debug, Clone)]
pub struct DeployArgs {
    /// URL of the service.
    pub url: String,
    /// Path to the module's WASM file.
    pub wasm_path: String,
}

/// Starts a module on the service.
#[derive(Debug, Clone)]
pub struct StartArgs {
    /// URL of the service.
    pub url: String,
    /// Name of the module to start.
    pub module_name: String,
}

/// Stops a module on the service.
#[derive(Debug, Clone)]
pub struct StopArgs {
    /// URL of the service.
    pub url: String,
    /// Name of the module to stop.
    pub module_name: String,
}

/// A subcommand of the client.
#[derive(Debug, Clone, Copy, PartialEq, Eq, Structural)]
pub enum Command {
    Build,
    Deploy,
    Start,
    Stop,
}

/// A JSON request to the control API.
#[derive(Debug, Clone)]
pub struct JsonRequest {
    /// Where the request is posted.
    pub url: String,
    /// The JSON text of its body.
    pub body: String,
}

/// The JSON text that `serde_json` writes for an object with the one member
/// `key`, a string `value`.
pub uninterp spec fn json_object(key: Seq<char>, value: Seq<char>) -> Seq<char>;

/// `serde_json`'s `Display` of a `Value::Object` that holds one member, the
/// string `value` under `key`: the compact JSON text of that object, which
/// is a function of the two strings.
#[verifier::external_body]
fn json_object_text(key: &str, value: &str) -> (text: String)
    ensures
        text@ == json_object(key@, value@),
{
    let mut object = serde_json::Map::new();
    object.insert(key.to_owned(), serde_json::Value::String(value.to_owned()));
    serde_json::Value::Object(object).to_string()
}

/// The file that a build leaves behind for deployment.
pub const OUTPUT_PATH: &'static str = "wasm_output/output.wasm";

/// The address of an endpoint of the control API under a base URL.
pub open spec fn endpoint_of(url: Seq<char>, path: Seq<char>) -> Seq<char> {
    url + path
}

/// The path of the control API that serves a subcommand.
pub open spec fn path_of(command: Command) -> Seq<char> {
    match command {
        Command::Build => Seq::empty(),
        Command::Deploy => "/deploy"@,
        Command::Start => "/start"@,
        Command::Stop => "/stop"@,
    }
}

/// Whether an HTTP status reports success: the codes from 200 to 299.
pub fn is_success(status: u16) -> (success: bool)
    ensures
        success == (200 <= status <= 299),
{
    200 <= status && status < 300
}

/// The message with which a subcommand ends.
pub open spec fn message_of(command: Command, success: bool) -> Seq<char> {
    match (command, success) {
        (Command::Build, true) => "xxfunc build completed successfully"@,
        (Command::Build, false) => "cargo wasi build failed"@,
        (Command::Deploy, true) => "xxfunc deploy completed successfully"@,
        (Command::Deploy, false) => "xxfunc deploy failed"@,
        (Command::Start, true) => "xxfunc start completed successfully"@,
        (Command::Start, false) => "xxfunc start failed"@,
        (Command::Stop, true) => "xxfunc stop completed successfully"@,
        (Command::Stop, false) => "xxfunc stop failed"@,
    }
}

impl Command {
    /// How the subcommand ends: with its message of completion if what it
    /// ran or asked for succeeded, else with its error.
    pub fn conclude(self, success: bool) -> (outcome: Result<&'static str, &'static str>)
        ensures
            match outcome {
                Ok(message) => success && message@ == message_of(self, true),
                Err(message) => !success && message@ == message_of(self, false),
            },
    {
        match (self, success) {
            (Command::Build, true) => Ok("xxfunc build completed successfully"),
            (Command::Build, false) => Err("cargo wasi build failed"),
            (Command::Deploy, true) => Ok("xxfunc deploy completed successfully"),
            (Command::Deploy, false) => Err("xxfunc deploy failed"),
            (Command::Start, true) => Ok("xxfunc start completed successfully"),
            (Command::Start, false) => Err("xxfunc start failed"),
            (Command::Stop, true) => Ok("xxfunc stop completed successfully"),
            (Command::Stop, false) => Err("xxfunc stop failed"),
        }
    }

    /// How the subcommand ends on an HTTP status of the control API.
    pub fn conclude_status(self, status: u16) -> (outcome: Result<&'static str, &'static str>)
        ensures
            match outcome {
                Ok(message) => 200 <= status <= 299 && message@ == message_of(self, true),
                Err(message) => !(200 <= status <= 299) && message@ == message_of(self, false),
            },
    {
        self.conclude(is_success(status))
    }
}

fn endpoint(url: &str, path: &str) -> (address: String)
    ensures
        address@ == endpoint_of(url@, path@),
{
    let mut address = url.to_owned();
    address.append(path);
    address
}

impl BuildArgs {
    /// The arguments with which `cargo` is run.
    pub fn cargo_args(&self) -> (args: Vec<&'static str>)
        ensures
            args@.len() == if self.release { 3int } else { 2int },
            args@[0]@ == "wasi"@,
            args@[1]@ == "build"@,
            self.release ==> args@[2]@ == "--release"@,
    {
        let mut args: Vec<&'static str> = Vec::new();
        args.push("wasi");
        args.push("build");
        if self.release {
            args.push("--release");
        }
        args
    }

    /// The directory in which `cargo` leaves the artifact.
    pub fn target_dir(&self) -> (dir: &'static str)
        ensures
            dir@ == if self.release {
                "target/wasm32-wasi/release"@
            } else {
                "target/wasm32-wasi/debug"@
            },
    {
        if self.release {
            "target/wasm32-wasi/release"
        } else {
            "target/wasm32-wasi/debug"
        }
    }

    /// The file name of the artifact of a project.
    pub fn artifact_name(project_name: &str) -> (name: String)
        ensures
            name@ == project_name@ + ".wasm"@,
    {
        let mut name = project_name.to_owned();
        name.append(".wasm");
        name
    }
}

impl DeployArgs {
    /// Where the module is posted.
    pub fn endpoint(&self) -> (address: String)
        ensures
            address@ == endpoint_of(self.url@, path_of(Command::Deploy)),
    {
        endpoint(self.url.as_str(), "/deploy")
    }
}

impl StartArgs {
    /// The request that starts the module.
    pub fn request(&self) -> (request: JsonRequest)
        ensures
            request.url@ == endpoint_of(self.url@, path_of(Command::Start)),
            request.body@ == json_object("module"@, self.module_name@),
    {
        JsonRequest {
            url: endpoint(self.url.as_str(), "/start"),
            body: json_object_text("module", self.module_name.as_str()),
        }
    }
}

impl StopArgs {
    /// The request that stops the module.
    pub fn request(&self) -> (request: JsonRequest)
        ensures
            request.url@ == endpoint_of(self.url@, path_of(Command::Stop)),
            request.body@ == json_object("module"@, self.module_name@),
    {
        JsonRequest {
            url: endpoint(self.url.as_str(), "/stop"),
            body: json_object_text("module", self.module_name.as_str()),
        }
    }
}

} // verus!
