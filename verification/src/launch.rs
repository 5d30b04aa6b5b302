//! How the sidecar process is started.

use crate::allow_list::AllowList;
use crate::text::joined;
use std::path::PathBuf;
use vstd::prelude::*;

verus! {

/// A path in the file system, carried through as it is.
#[verifier::external_type_specification]
#[verifier::external_body]
pub struct ExPathBuf(PathBuf);

/// The directory that the sidecar is started in.
#[derive(Debug)]
pub enum WorkingDir<'a> {
    /// The one that was configured.
    Configured(&'a PathBuf),
    /// The package that comes with the bot.
    Bundled(&'static str),
}

/// A variable in the environment of the sidecar.
#[derive(Debug)]
pub struct EnvVar {
    pub name: String,
    pub value: String,
}

/// How the sidecar process is started.
#[derive(Debug)]
pub struct SidecarLaunch<'a> {
    pub program: String,
    pub args: Vec<String>,
    pub working_dir: WorkingDir<'a>,
    pub env: Vec<EnvVar>,
}

impl View for EnvVar {
    type V = (Seq<char>, Seq<char>);

    open spec fn view(&self) -> (Seq<char>, Seq<char>) {
        (self.name@, self.value@)
    }
}

/// The program that is started, with its arguments: a configured command is left to the shell.
pub open spec fn launch_command(sidecar_command: Option<Seq<char>>) -> (Seq<char>, Seq<Seq<char>>) {
    match sidecar_command {
        Some(command) => ("sh"@, seq!["-lc"@, command]),
        None => ("bun"@, seq!["run"@, "start"@]),
    }
}

/// The variables that the sidecar is started with. The allow-list is left out if it is empty.
pub open spec fn launch_env(
    project_id: Seq<char>,
    project_secret: Seq<char>,
    runtime_key: Seq<char>,
    dm_allow_list: Seq<Seq<char>>,
) -> Seq<(Seq<char>, Seq<char>)> {
    let required = seq![
        ("PHOTON_PROJECT_ID"@, project_id),
        ("PHOTON_PROJECT_SECRET"@, project_secret),
        ("PHOTON_ADAPTER_KEY"@, runtime_key),
    ];
    if dm_allow_list.len() == 0 {
        required
    } else {
        required.push(("PHOTON_DM_ALLOW_LIST"@, joined(dm_allow_list, ","@)))
    }
}

/// A variable with a value.
fn env_var(name: &str, value: String) -> (var: EnvVar)
    ensures
        var@ == (name@, value@),
{
    EnvVar { name: name.to_string(), value }
}

/// Determines how the sidecar is started.
pub fn sidecar_launch<'a>(
    runtime_key: &String,
    project_id: &String,
    project_secret: &String,
    sidecar_command: &Option<String>,
    sidecar_working_dir: &'a Option<PathBuf>,
    dm_allow_list: &AllowList,
) -> (launch: SidecarLaunch<'a>)
    ensures
        (launch.program@, launch.args.deep_view()) == launch_command(sidecar_command.deep_view()),
        launch.env@.map_values(|var: EnvVar| var@) == launch_env(
            project_id@,
            project_secret@,
            runtime_key@,
            dm_allow_list@,
        ),
        match *sidecar_working_dir {
            Some(dir) => launch.working_dir == WorkingDir::Configured(&dir),
            None => launch.working_dir matches WorkingDir::Bundled(dir) && dir@
                == "packages/photon-bridge"@,
        },
{
    let mut args: Vec<String> = Vec::new();
    let program = match sidecar_command {
        Some(command) => {
            args.push("-lc".to_string());
            args.push(command.clone());
            "sh".to_string()
        },
        None => {
            args.push("run".to_string());
            args.push("start".to_string());
            "bun".to_string()
        },
    };
    assert(args.deep_view() =~= launch_command(sidecar_command.deep_view()).1);
    let working_dir = match sidecar_working_dir {
        Some(dir) => WorkingDir::Configured(dir),
        None => WorkingDir::Bundled("packages/photon-bridge"),
    };
    let mut env: Vec<EnvVar> = Vec::new();
    env.push(env_var("PHOTON_PROJECT_ID", project_id.clone()));
    env.push(env_var("PHOTON_PROJECT_SECRET", project_secret.clone()));
    env.push(env_var("PHOTON_ADAPTER_KEY", runtime_key.clone()));
    if !dm_allow_list.is_empty() {
        env.push(env_var("PHOTON_DM_ALLOW_LIST", dm_allow_list.to_csv()));
    }
    assert(env@.map_values(|var: EnvVar| var@) =~= launch_env(
        project_id@,
        project_secret@,
        runtime_key@,
        dm_allow_list@,
    ));
    SidecarLaunch { program, args, working_dir, env }
}

} // verus!
