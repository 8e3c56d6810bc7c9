use vstd::prelude::*;
use crate::text::same_text;
use crate::tmux::command::{opt_str, QueryScope, SessionSelectMode};

verus! {

/// What was given on the command line, as plain values: the name of the
/// subcommand and the value of each option, where one was given.
#[derive(Debug)]
pub struct Matches<'a> {
    pub subcommand: Option<&'a str>,
    pub config: Option<&'a str>,
    pub session_select_mode: Option<&'a str>,
    pub ignore_existing_sessions: bool,
    pub scope: Option<&'a str>,
    pub format: Option<&'a str>,
    pub tmux_args: Vec<&'a str>,
}

#[derive(Debug)]
pub enum Subcommand<'a> {
    Create(CreateOpts<'a>),
    Export(ExportOpts<'a>),
    DumpCommand(DumpCommandOps<'a>),
    DumpConfig(DumpConfigOps<'a>),
}

#[derive(Debug)]
pub struct CreateOpts<'a> {
    pub config_path: Option<&'a str>,
    pub session_select_mode: SessionSelectModeOption,
    pub ignore_existing_sessions: bool,
    pub tmux_args: Vec<&'a str>,
}

#[derive(Debug)]
pub struct ExportOpts<'a> {
    pub scope: QueryScope,
    pub format: ConfigFormat,
    pub tmux_args: Vec<&'a str>,
}

#[derive(Debug)]
pub struct DumpCommandOps<'a> {
    pub config_path: Option<&'a str>,
    pub session_select_mode: SessionSelectModeOption,
    pub ignore_existing_sessions: bool,
    pub tmux_args: Vec<&'a str>,
}

#[derive(Debug)]
pub struct DumpConfigOps<'a> {
    pub config_path: Option<&'a str>,
    pub format: ConfigFormat,
}

#[derive(Debug, Clone, Copy, PartialEq, Eq)]
pub enum ConfigFormat {
    Yaml,
    Toml,
}

#[derive(Debug, Clone, Copy, PartialEq, Eq)]
pub enum SessionSelectModeOption {
    Auto,
    Attach,
    Switch,
    Detached,
}

impl Default for SessionSelectModeOption {
    fn default() -> (option: SessionSelectModeOption)
        ensures
            option == SessionSelectModeOption::Auto,
    {
        SessionSelectModeOption::Auto
    }
}

/// The format that the value of `--format` names; without a value it is
/// YAML.
pub open spec fn format_of_arg(arg: Option<Seq<char>>) -> Option<ConfigFormat> {
    match arg {
        None => Some(ConfigFormat::Yaml),
        Some(name) => if name == "yaml"@ {
            Some(ConfigFormat::Yaml)
        } else if name == "toml"@ {
            Some(ConfigFormat::Toml)
        } else {
            None
        },
    }
}

/// The scope that the value of `--scope` names.
pub open spec fn scope_of_arg(arg: Option<Seq<char>>) -> Option<QueryScope> {
    match arg {
        None => None,
        Some(name) => if name == "all"@ {
            Some(QueryScope::AllSessions)
        } else if name == "session"@ {
            Some(QueryScope::CurrentSession)
        } else if name == "window"@ {
            Some(QueryScope::CurrentWindow)
        } else {
            None
        },
    }
}

/// The mode that the value of `--session-select-mode` names; without a
/// value it is `Auto`.
pub open spec fn mode_of_arg(arg: Option<Seq<char>>) -> Option<SessionSelectModeOption> {
    match arg {
        None => Some(SessionSelectModeOption::Auto),
        Some(name) => if name == "auto"@ {
            Some(SessionSelectModeOption::Auto)
        } else if name == "attach"@ {
            Some(SessionSelectModeOption::Attach)
        } else if name == "switch"@ {
            Some(SessionSelectModeOption::Switch)
        } else if name == "detached"@ {
            Some(SessionSelectModeOption::Detached)
        } else {
            None
        },
    }
}

impl ConfigFormat {
    pub fn from_arg(arg: Option<&str>) -> (format: ConfigFormat)
        requires
            format_of_arg(opt_str(arg)) is Some,
        ensures
            format_of_arg(opt_str(arg)) == Some(format),
    {
        match arg {
            None => ConfigFormat::Yaml,
            Some(name) => if same_text(name, "yaml") {
                ConfigFormat::Yaml
            } else {
                ConfigFormat::Toml
            },
        }
    }
}

impl QueryScope {
    pub fn from_arg(arg: Option<&str>) -> (scope: QueryScope)
        requires
            scope_of_arg(opt_str(arg)) is Some,
        ensures
            scope_of_arg(opt_str(arg)) == Some(scope),
    {
        match arg {
            Some(name) => if same_text(name, "all") {
                QueryScope::AllSessions
            } else if same_text(name, "session") {
                QueryScope::CurrentSession
            } else {
                QueryScope::CurrentWindow
            },
            None => QueryScope::AllSessions,
        }
    }
}

/// What is done with the selected session, given how the tool is run:
/// `Auto` switches where the multiplexer has clients, else attaches
/// where the tool runs on a terminal, else does neither.
pub open spec fn resolved_mode(
    option: SessionSelectModeOption,
    is_terminal: bool,
    allow_overwrite: bool,
    has_clients: bool,
) -> SessionSelectMode {
    match option {
        SessionSelectModeOption::Switch => SessionSelectMode::Switch,
        SessionSelectModeOption::Detached => SessionSelectMode::Detached,
        SessionSelectModeOption::Attach => if is_terminal || !allow_overwrite {
            SessionSelectMode::Attach
        } else {
            SessionSelectMode::Detached
        },
        SessionSelectModeOption::Auto => if has_clients {
            SessionSelectMode::Switch
        } else if is_terminal {
            SessionSelectMode::Attach
        } else {
            SessionSelectMode::Detached
        },
    }
}

impl SessionSelectModeOption {
    pub fn from_arg(arg: Option<&str>) -> (option: SessionSelectModeOption)
        requires
            mode_of_arg(opt_str(arg)) is Some,
        ensures
            mode_of_arg(opt_str(arg)) == Some(option),
    {
        match arg {
            None => SessionSelectModeOption::Auto,
            Some(name) => if same_text(name, "auto") {
                SessionSelectModeOption::Auto
            } else if same_text(name, "attach") {
                SessionSelectModeOption::Attach
            } else if same_text(name, "switch") {
                SessionSelectModeOption::Switch
            } else {
                SessionSelectModeOption::Detached
            },
        }
    }

    /// Whether the multiplexer must be asked for its clients before
    /// `resolve`: only `Auto` goes by them.
    pub fn needs_clients(self) -> (b: bool)
        ensures
            b == (self == SessionSelectModeOption::Auto),
    {
        match self {
            SessionSelectModeOption::Auto => true,
            _ => false,
        }
    }

    /// What is done with the selected session. The second result says
    /// that `Attach` was asked for and is not to be had, because the
    /// tool does not run on a terminal.
    pub fn resolve(self, is_terminal: bool, allow_overwrite: bool, has_clients: bool) -> (r: (
        SessionSelectMode,
        bool,
    ))
        ensures
            r.0 == resolved_mode(self, is_terminal, allow_overwrite, has_clients),
            r.1 == (self == SessionSelectModeOption::Attach && !is_terminal && allow_overwrite),
    {
        match self {
            SessionSelectModeOption::Switch => (SessionSelectMode::Switch, false),
            SessionSelectModeOption::Detached => (SessionSelectMode::Detached, false),
            SessionSelectModeOption::Attach => {
                if is_terminal || !allow_overwrite {
                    (SessionSelectMode::Attach, false)
                } else {
                    (SessionSelectMode::Detached, true)
                }
            },
            SessionSelectModeOption::Auto => {
                if has_clients {
                    (SessionSelectMode::Switch, false)
                } else if is_terminal {
                    (SessionSelectMode::Attach, false)
                } else {
                    (SessionSelectMode::Detached, false)
                }
            },
        }
    }
}

/// Whether `name` is one of the four subcommands.
pub open spec fn is_subcommand(name: Seq<char>) -> bool {
    name == "create"@ || name == "dump-command"@ || name == "dump-config"@ || name == "export"@
}

/// Whether the values of the options that `name` reads are among those
/// that the command line accepts.
pub open spec fn options_known(matches: Matches<'_>, name: Seq<char>) -> bool {
    if name == "create"@ || name == "dump-command"@ {
        mode_of_arg(opt_str(matches.session_select_mode)) is Some
    } else if name == "dump-config"@ {
        format_of_arg(opt_str(matches.format)) is Some
    } else {
        scope_of_arg(opt_str(matches.scope)) is Some && format_of_arg(opt_str(matches.format))
            is Some
    }
}

impl<'a> CreateOpts<'a> {
    pub fn from_matches(matches: Matches<'a>) -> (opts: CreateOpts<'a>)
        requires
            mode_of_arg(opt_str(matches.session_select_mode)) is Some,
        ensures
            opts.config_path == matches.config,
            Some(opts.session_select_mode) == mode_of_arg(opt_str(matches.session_select_mode)),
            opts.ignore_existing_sessions == matches.ignore_existing_sessions,
            opts.tmux_args == matches.tmux_args,
    {
        CreateOpts {
            config_path: matches.config,
            session_select_mode: SessionSelectModeOption::from_arg(matches.session_select_mode),
            ignore_existing_sessions: matches.ignore_existing_sessions,
            tmux_args: matches.tmux_args,
        }
    }
}

impl<'a> ExportOpts<'a> {
    pub fn from_matches(matches: Matches<'a>) -> (opts: ExportOpts<'a>)
        requires
            scope_of_arg(opt_str(matches.scope)) is Some,
            format_of_arg(opt_str(matches.format)) is Some,
        ensures
            Some(opts.scope) == scope_of_arg(opt_str(matches.scope)),
            Some(opts.format) == format_of_arg(opt_str(matches.format)),
            opts.tmux_args == matches.tmux_args,
    {
        ExportOpts {
            scope: QueryScope::from_arg(matches.scope),
            format: ConfigFormat::from_arg(matches.format),
            tmux_args: matches.tmux_args,
        }
    }
}

impl<'a> DumpCommandOps<'a> {
    pub fn from_matches(matches: Matches<'a>) -> (opts: DumpCommandOps<'a>)
        requires
            mode_of_arg(opt_str(matches.session_select_mode)) is Some,
        ensures
            opts.config_path == matches.config,
            Some(opts.session_select_mode) == mode_of_arg(opt_str(matches.session_select_mode)),
            opts.ignore_existing_sessions == matches.ignore_existing_sessions,
            opts.tmux_args == matches.tmux_args,
    {
        DumpCommandOps {
            config_path: matches.config,
            session_select_mode: SessionSelectModeOption::from_arg(matches.session_select_mode),
            ignore_existing_sessions: matches.ignore_existing_sessions,
            tmux_args: matches.tmux_args,
        }
    }
}

impl<'a> DumpConfigOps<'a> {
    pub fn from_matches(matches: Matches<'a>) -> (opts: DumpConfigOps<'a>)
        requires
            format_of_arg(opt_str(matches.format)) is Some,
        ensures
            opts.config_path == matches.config,
            Some(opts.format) == format_of_arg(opt_str(matches.format)),
    {
        DumpConfigOps {
            config_path: matches.config,
            format: ConfigFormat::from_arg(matches.format),
        }
    }
}

impl<'a> Subcommand<'a> {
    /// The subcommand that was given, with its options; `None` where
    /// none was given.
    pub fn from_matches(matches: Matches<'a>) -> (command: Option<Subcommand<'a>>)
        requires
            matches.subcommand is Some ==> is_subcommand(matches.subcommand->0@) && options_known(
                matches,
                matches.subcommand->0@,
            ),
        ensures
            matches.subcommand is None <==> command is None,
            match command {
                Some(Subcommand::Create(opts)) => {
                    &&& matches.subcommand->0@ == "create"@
                    &&& opts.config_path == matches.config
                    &&& Some(opts.session_select_mode) == mode_of_arg(
                        opt_str(matches.session_select_mode),
                    )
                    &&& opts.ignore_existing_sessions == matches.ignore_existing_sessions
                    &&& opts.tmux_args == matches.tmux_args
                },
                Some(Subcommand::DumpCommand(opts)) => {
                    &&& matches.subcommand->0@ == "dump-command"@
                    &&& opts.config_path == matches.config
                    &&& Some(opts.session_select_mode) == mode_of_arg(
                        opt_str(matches.session_select_mode),
                    )
                    &&& opts.ignore_existing_sessions == matches.ignore_existing_sessions
                    &&& opts.tmux_args == matches.tmux_args
                },
                Some(Subcommand::DumpConfig(opts)) => {
                    &&& matches.subcommand->0@ == "dump-config"@
                    &&& opts.config_path == matches.config
                    &&& Some(opts.format) == format_of_arg(opt_str(matches.format))
                },
                Some(Subcommand::Export(opts)) => {
                    &&& matches.subcommand->0@ == "export"@
                    &&& Some(opts.scope) == scope_of_arg(opt_str(matches.scope))
                    &&& Some(opts.format) == format_of_arg(opt_str(matches.format))
                    &&& opts.tmux_args == matches.tmux_args
                },
                None => true,
            },
    {
        proof {
            reveal_strlit("create");
            reveal_strlit("dump-command");
            reveal_strlit("dump-config");
            reveal_strlit("export");
        }
        match matches.subcommand {
            None => None,
            Some(name) => {
                if same_text(name, "create") {
                    Some(Subcommand::Create(CreateOpts::from_matches(matches)))
                } else if same_text(name, "dump-command") {
                    Some(Subcommand::DumpCommand(DumpCommandOps::from_matches(matches)))
                } else if same_text(name, "dump-config") {
                    Some(Subcommand::DumpConfig(DumpConfigOps::from_matches(matches)))
                } else {
                    Some(Subcommand::Export(ExportOpts::from_matches(matches)))
                }
            },
        }
    }
}

} // verus!
