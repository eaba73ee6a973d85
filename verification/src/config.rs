//! Settings from the command line and the environment.

use crate::exec;
use crate::exec::join_path;
use crate::palette::PaletteMode;
use crate::strings::same_text;
use vstd::prelude::*;

verus! {

/// The palette that the command line asks for.
#[derive(Clone, Copy, Debug, PartialEq, Eq, Structural)]
pub enum PaletteArg {
    Default,
    Safe,
}

impl PaletteArg {
    /// The palette that is asked for.
    pub open spec fn mode_of(self) -> PaletteMode {
        match self {
            PaletteArg::Default => PaletteMode::Default,
            PaletteArg::Safe => PaletteMode::Safe,
        }
    }

    /// The palette that is asked for.
    pub fn mode(self) -> (mode: PaletteMode)
        ensures
            mode == self.mode_of(),
    {
        match self {
            PaletteArg::Default => PaletteMode::Default,
            PaletteArg::Safe => PaletteMode::Safe,
        }
    }
}

/// The command line.
#[derive(Debug)]
pub struct Cli {
    pub db: Option<String>,
    pub teams_dir: Option<String>,
    pub scripts_dir: Option<String>,
    pub audit_script: Option<String>,
    pub report_dir: Option<String>,
    pub diagnose: bool,
    pub startup_probe: bool,
    pub no_color: bool,
    pub palette: Option<PaletteArg>,
}

/// The variables of the environment that settings are taken from.
#[derive(Debug)]
pub struct Environment {
    pub home: Option<String>,
    pub db: Option<String>,
    pub teams_dir: Option<String>,
    pub scripts_dir: Option<String>,
    pub audit: Option<String>,
    pub report_dir: Option<String>,
    pub no_color: bool,
    pub palette: Option<String>,
}

/// The palette: the command line goes before the environment.
pub open spec fn palette_for(cli: Cli, environment: Environment) -> PaletteMode {
    match cli.palette {
        Some(palette) => palette.mode_of(),
        None => match environment.palette {
            Some(name) => if name@ == "safe"@ {
                PaletteMode::Safe
            } else {
                PaletteMode::Default
            },
            None => PaletteMode::Default,
        },
    }
}

/// Whether colours are off, and the palette: the command line goes before the environment.
pub fn resolve_palette(cli: &Cli, environment: &Environment) -> (settings: (bool, PaletteMode))
    ensures
        settings.0 == (cli.no_color || environment.no_color),
        settings.1 == palette_for(*cli, *environment),
{
    let no_color = cli.no_color || environment.no_color;
    let mode = match cli.palette {
        Some(palette) => palette.mode(),
        None => match &environment.palette {
            Some(name) => {
                if same_text(name.as_str(), "safe") {
                    PaletteMode::Safe
                } else {
                    PaletteMode::Default
                }
            },
            None => PaletteMode::Default,
        },
    };
    (no_color, mode)
}

/// Where everything is.
#[derive(Debug, PartialEq, Eq)]
pub struct Paths {
    pub db: String,
    pub teams_dir: String,
    pub scripts_dir: String,
    pub audit_script: String,
    pub report_dir: String,
    pub state_file: String,
}

impl Clone for Paths {
    fn clone(&self) -> (copy: Self)
        ensures
            copy == *self,
    {
        Paths {
            db: self.db.clone(),
            teams_dir: self.teams_dir.clone(),
            scripts_dir: self.scripts_dir.clone(),
            audit_script: self.audit_script.clone(),
            report_dir: self.report_dir.clone(),
            state_file: self.state_file.clone(),
        }
    }
}

/// The first of the command line, the environment and the default that is there.
pub open spec fn first_given(
    flag: Option<String>,
    variable: Option<String>,
    default: Seq<char>,
) -> Seq<char> {
    match flag {
        Some(path) => path@,
        None => match variable {
            Some(path) => path@,
            None => default,
        },
    }
}

fn resolve_path(
    flag: &Option<String>,
    variable: &Option<String>,
    directory: &str,
    file: &str,
) -> (path: String)
    ensures
        path@ == first_given(*flag, *variable, exec::path_in(directory@, file@)),
{
    match flag {
        Some(path) => path.clone(),
        None => match variable {
            Some(path) => path.clone(),
            None => join_path(directory, file),
        },
    }
}

/// The directory of the message store's skill.
pub open spec fn skill_dir(home: Seq<char>) -> Seq<char> {
    exec::path_in(home, ".agents/skills/agmsg"@)
}

impl Paths {
    /// Everything is where the command line says, else where the environment says, else at its usual
    /// place below the home directory.
    pub open spec fn are_for(self, cli: Cli, environment: Environment, home: Seq<char>) -> bool {
        &&& self.db@ == first_given(
            cli.db,
            environment.db,
            exec::path_in(skill_dir(home), "db/messages.db"@),
        )
        &&& self.teams_dir@ == first_given(
            cli.teams_dir,
            environment.teams_dir,
            exec::path_in(skill_dir(home), "teams"@),
        )
        &&& self.scripts_dir@ == first_given(
            cli.scripts_dir,
            environment.scripts_dir,
            exec::path_in(skill_dir(home), "scripts"@),
        )
        &&& self.audit_script@ == first_given(
            cli.audit_script,
            environment.audit,
            exec::path_in(home, "bin/agmsg-audit"@),
        )
        &&& self.report_dir@ == first_given(
            cli.report_dir,
            environment.report_dir,
            exec::path_in(home, "tmp"@),
        )
        &&& self.state_file@ == exec::path_in(
            home,
            ".config/agmsg-tui/state.json"@,
        )
    }

    /// Every path from the command line, else from the environment, else below the home directory.
    /// There are no paths without a home directory.
    pub fn from_cli(cli: &Cli, environment: &Environment) -> (paths: Result<Paths, String>)
        ensures
            match environment.home {
                None => paths matches Err(text) && text@ == "HOME が設定されていません"@,
                Some(home) => paths matches Ok(paths) && paths.are_for(*cli, *environment, home@),
            },
    {
        let home = match &environment.home {
            Some(home) => home.as_str(),
            None => {
                return Err("HOME が設定されていません".to_owned());
            },
        };
        let skill = join_path(home, ".agents/skills/agmsg");
        Ok(
            Paths {
                db: resolve_path(&cli.db, &environment.db, skill.as_str(), "db/messages.db"),
                teams_dir: resolve_path(
                    &cli.teams_dir,
                    &environment.teams_dir,
                    skill.as_str(),
                    "teams",
                ),
                scripts_dir: resolve_path(
                    &cli.scripts_dir,
                    &environment.scripts_dir,
                    skill.as_str(),
                    "scripts",
                ),
                audit_script: resolve_path(
                    &cli.audit_script,
                    &environment.audit,
                    home,
                    "bin/agmsg-audit",
                ),
                report_dir: resolve_path(
                    &cli.report_dir,
                    &environment.report_dir,
                    home,
                    "tmp",
                ),
                state_file: join_path(home, ".config/agmsg-tui/state.json"),
            },
        )
    }
}

} // verus!
