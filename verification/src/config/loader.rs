use vstd::prelude::*;
use vstd::string::StringExecFns;
use crate::cli::ConfigFormat;
use crate::cwd::{adjoin, path_adjoin};
use crate::text::{same_text, texts};
use crate::tmux::command::opt_str;

verus! {

/// Why a configuration could not be loaded.
#[derive(Debug, Clone, PartialEq, Eq)]
pub enum Error {
    /// The file at `path` could not be read.
    Io { path: String, error: String },
    /// The file at `path` is no configuration.
    ParseError { path: String, message: String },
    /// The name of the file does not end in `.yaml`, `.yml` or `.toml`.
    UnsupportedFormat,
    /// A variable in the path of an included file is not set.
    LookupError(String),
}

impl Error {
    /// The error as a message.
    pub fn message(&self) -> (message: String)
        ensures
            message@ == match self {
                Error::Io { path, error } => "failed to load config file at \""@ + path@ + "\": "@
                    + error@,
                Error::ParseError { path, message } => "failed to parse config file at \""@ + path@
                    + "\": "@ + message@,
                Error::UnsupportedFormat => "unsupported config format (supported: YAML, TOML)"@,
                Error::LookupError(cause) => "variable lookup error: "@ + cause@,
            },
    {
        match self {
            Error::Io { path, error } => {
                let mut message = "failed to load config file at \"".to_owned();
                message.append(path.as_str());
                message.append("\": ");
                message.append(error.as_str());
                message
            },
            Error::ParseError { path, message } => {
                let mut text = "failed to parse config file at \"".to_owned();
                text.append(path.as_str());
                text.append("\": ");
                text.append(message.as_str());
                text
            },
            Error::UnsupportedFormat => "unsupported config format (supported: YAML, TOML)".to_owned(),
            Error::LookupError(cause) => {
                let mut message = "variable lookup error: ".to_owned();
                message.append(cause.as_str());
                message
            },
        }
    }
}

/// The format of a file whose name has the extension `extension`.
pub open spec fn format_of(extension: Option<Seq<char>>) -> Option<ConfigFormat> {
    match extension {
        Some(e) => if e == "toml"@ {
            Some(ConfigFormat::Toml)
        } else if e == "yml"@ || e == "yaml"@ {
            Some(ConfigFormat::Yaml)
        } else {
            None
        },
        None => None,
    }
}

/// The format in which a file is read, by the extension of its name.
pub fn format_of_extension(extension: Option<&str>) -> (r: Result<ConfigFormat, Error>)
    ensures
        match r {
            Ok(format) => format_of(opt_str(extension)) == Some(format),
            Err(error) => format_of(opt_str(extension)) is None && error
                == Error::UnsupportedFormat,
        },
{
    match extension {
        Some(e) => {
            if same_text(e, "toml") {
                Ok(ConfigFormat::Toml)
            } else if same_text(e, "yml") || same_text(e, "yaml") {
                Ok(ConfigFormat::Yaml)
            } else {
                Err(Error::UnsupportedFormat)
            }
        },
        None => Err(Error::UnsupportedFormat),
    }
}

/// Whether a text begins with `[[`.
pub open spec fn opens_table(content: Seq<u8>) -> bool {
    content.len() >= 2 && content[0] == 0x5b && content[1] == 0x5b
}

/// In which formats a configuration that comes without a name is read:
/// one that begins with `[[` as TOML and nothing else, any other as YAML
/// and, where that fails, as TOML.
pub fn formats_to_try(content: &[u8]) -> (r: (ConfigFormat, Option<ConfigFormat>))
    ensures
        r == if opens_table(content@) {
            (ConfigFormat::Toml, None::<ConfigFormat>)
        } else {
            (ConfigFormat::Yaml, Some(ConfigFormat::Toml))
        },
{
    if content.len() >= 2 && content[0] == 0x5b && content[1] == 0x5b {
        (ConfigFormat::Toml, None)
    } else {
        (ConfigFormat::Yaml, Some(ConfigFormat::Toml))
    }
}

/// The names under which a configuration is looked for where none is
/// given, first first.
pub open spec fn default_names() -> Seq<Seq<char>> {
    seq![".tmux-layout.yaml"@, ".tmux-layout.yml"@, ".tmux-layout.toml"@]
}

/// The paths at which a configuration is looked for in the directories
/// `dirs`: in each directory, in order, each of the default names.
pub open spec fn default_paths(dirs: Seq<Seq<char>>) -> Seq<Seq<char>> {
    Seq::new(dirs.len() * 3, |i: int| adjoin(dirs[i / 3], default_names()[i % 3]))
}

/// The paths at which a configuration is looked for where none is
/// given; the first that exists is the one to load.
pub fn default_config_paths(dirs: &Vec<String>) -> (paths: Vec<String>)
    ensures
        texts(paths@) == default_paths(texts(dirs@)),
{
    let mut paths: Vec<String> = Vec::new();
    let mut i: usize = 0;
    while i < dirs.len()
        invariant
            i <= dirs.len(),
            paths@.len() == i * 3,
            forall|k: int|
                0 <= k < paths@.len() ==> (#[trigger] paths@[k])@ == adjoin(
                    dirs@[k / 3]@,
                    default_names()[k % 3],
                ),
        decreases dirs.len() - i,
    {
        let dir = dirs[i].as_str();
        let ghost before = paths@;
        let a = path_adjoin(dir, ".tmux-layout.yaml");
        let b = path_adjoin(dir, ".tmux-layout.yml");
        let c = path_adjoin(dir, ".tmux-layout.toml");
        paths.push(a);
        paths.push(b);
        paths.push(c);
        proof {
            assert forall|k: int| 0 <= k < paths@.len() implies (#[trigger] paths@[k])@ == adjoin(
                dirs@[k / 3]@,
                default_names()[k % 3],
            ) by {
                if k < before.len() {
                    assert(paths@[k] == before[k]);
                } else {
                    assert(k / 3 == i);
                }
            }
        }
        i += 1;
    }
    proof {
        assert(texts(paths@) =~= default_paths(texts(dirs@)));
    }
    paths
}

} // verus!
