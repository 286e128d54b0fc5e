//! Building the program for the target machine and copying it there.
use vstd::prelude::*;
use vstd::string::StringExecFns;

verus! {

/// The machine that the program is built for.
pub const TARGET: &'static str = "aarch64-unknown-linux-gnu";

/// Where the program goes on that machine, unless told otherwise.
pub const DEFAULT_REMOTE_PATH: &'static str = "~/wireless-taiko";

/// What it takes to build and copy the program.
pub struct DeployPlan {
    /// Directory in which the compiler cache is kept.
    pub sccache_dir: String,
    /// Options that make that directory visible in the build container.
    pub container_opts: String,
    /// Arguments of `cross`, which builds the program.
    pub build_args: Vec<String>,
    /// Names and values of the environment variables that it is given.
    pub build_env: Vec<(String, String)>,
    /// Where the program is then found, from the root of the workspace.
    pub binary: String,
    /// Path on the target machine.
    pub remote_path: String,
    /// Where to copy the program to, in the form that `scp` takes.
    pub destination: String,
}

/// The texts that a list of pairs of strings stands for.
pub open spec fn text_pairs(list: Seq<(String, String)>) -> Seq<(Seq<char>, Seq<char>)> {
    list.map_values(|pair: (String, String)| (pair.0@, pair.1@))
}

/// Plans a deployment to `host`, from the account whose home directory is `home`.
pub fn plan_deploy(host: &str, remote_path: Option<String>, home: &str) -> (plan: DeployPlan)
    ensures
        plan.sccache_dir@ == home@ + "/.cache/sccache"@,
        plan.container_opts@ == "--volume "@ + plan.sccache_dir@ + ":"@ + plan.sccache_dir@,
        crate::text::texts(plan.build_args@) == seq![
            "build"@,
            "--release"@,
            "--target"@,
            TARGET@,
        ],
        text_pairs(plan.build_env@) == seq![
            ("DOCKER_DEFAULT_PLATFORM"@, "linux/amd64"@),
            ("RUSTC_WRAPPER"@, "sccache"@),
            ("SCCACHE_DIR"@, plan.sccache_dir@),
            ("CROSS_CONTAINER_OPTS"@, plan.container_opts@),
        ],
        plan.binary@ == "target/"@ + TARGET@ + "/release/wireless-taiko"@,
        plan.remote_path@ == (match remote_path {
            Some(path) => path@,
            None => DEFAULT_REMOTE_PATH@,
        }),
        plan.destination@ == host@ + ":"@ + plan.remote_path@,
{
    let mut sccache_dir = home.to_owned();
    sccache_dir.append("/.cache/sccache");
    let mut container_opts = "--volume ".to_owned();
    container_opts.append(sccache_dir.as_str());
    container_opts.append(":");
    container_opts.append(sccache_dir.as_str());
    let mut build_args: Vec<String> = Vec::new();
    build_args.push("build".to_owned());
    build_args.push("--release".to_owned());
    build_args.push("--target".to_owned());
    build_args.push(TARGET.to_owned());
    let mut build_env: Vec<(String, String)> = Vec::new();
    build_env.push(("DOCKER_DEFAULT_PLATFORM".to_owned(), "linux/amd64".to_owned()));
    build_env.push(("RUSTC_WRAPPER".to_owned(), "sccache".to_owned()));
    build_env.push(("SCCACHE_DIR".to_owned(), sccache_dir.clone()));
    build_env.push(("CROSS_CONTAINER_OPTS".to_owned(), container_opts.clone()));
    let mut binary = "target/".to_owned();
    binary.append(TARGET);
    binary.append("/release/wireless-taiko");
    let remote_path = match remote_path {
        Some(path) => path,
        None => DEFAULT_REMOTE_PATH.to_owned(),
    };
    let mut destination = host.to_owned();
    destination.append(":");
    destination.append(remote_path.as_str());
    DeployPlan {
        sccache_dir,
        container_opts,
        build_args,
        build_env,
        binary,
        remote_path,
        destination,
    }
}

/// How a command ended.
#[derive(Clone, Copy, Debug, PartialEq, Eq)]
pub enum CommandEnd {
    /// It could not be started.
    NotStarted,
    /// It ran and reported success.
    Success,
    /// It ran and failed, with this exit code unless a signal ended it.
    Failure(Option<i32>),
}

/// The code to exit with after a command, or nothing to carry on.
pub fn exit_code_after(end: CommandEnd) -> (code: Option<i32>)
    ensures
        code == (match end {
            CommandEnd::Success => None,
            CommandEnd::Failure(Some(code)) => Some(code),
            CommandEnd::Failure(None) => Some(1i32),
            CommandEnd::NotStarted => Some(1i32),
        }),
{
    match end {
        CommandEnd::Success => None,
        CommandEnd::Failure(code) => Some(code.unwrap_or(1)),
        CommandEnd::NotStarted => Some(1),
    }
}

/// A list of pairs of strings stands for as many pairs of texts, each in its
/// place.
pub proof fn law_text_pairs_in_place(list: Seq<(String, String)>)
    ensures
        text_pairs(list).len() == list.len(),
        forall|i: int|
            0 <= i < list.len() ==> #[trigger] text_pairs(list)[i] == (list[i].0@, list[i].1@),
{
}

} // verus!
