use vstd::prelude::*;

verus! {

/// Keyboard settings of the configuration file.
#[derive(Debug, Clone, PartialEq, Eq)]
pub struct KeyboardConfig {
    pub layout: String,
    pub variant: Option<String>,
    pub options: Option<String>,
    pub model: Option<String>,
    pub numlock: Option<String>,
}

/// The settings of the configuration file.
#[derive(Debug, Clone, PartialEq, Eq)]
pub struct Config {
    pub keyboard: Option<KeyboardConfig>,
}

/// `base` joined with the relative path `part`, as a path buffer joins them: a
/// separator goes between them unless `base` is empty or already ends with one.
pub open spec fn path_join(base: Seq<char>, part: Seq<char>) -> Seq<char> {
    if base.len() > 0 && base.last() != '/' {
        base + seq!['/'] + part
    } else {
        base + part
    }
}

/// Where the configuration file lies for home directory `home`:
/// `.config/river/narisha.toml` under it.
pub open spec fn config_file_path(home: Seq<char>) -> Seq<char> {
    path_join(path_join(path_join(home, ".config"@), "river"@), "narisha.toml"@)
}

/// Appends the relative path `part` to `path`.
fn push_component(path: &mut String, part: &str)
    ensures
        final(path)@ == path_join(old(path)@, part@),
{
    let n = path.as_str().unicode_len();
    if n > 0 && path.as_str().get_char(n - 1) != '/' {
        path.append("/");
        proof {
            reveal_strlit("/");
        }
    }
    path.append(part);
}

impl Config {
    /// The path of the configuration file for home directory `home`.
    pub fn get_file(home: &str) -> (path: String)
        ensures
            path@ == config_file_path(home@),
    {
        let mut path = String::from_str(home);
        push_component(&mut path, ".config");
        push_component(&mut path, "river");
        push_component(&mut path, "narisha.toml");
        path
    }

    /// The configuration that takes effect: the one loaded from the file, or,
    /// when the file could not be read or parsed, the default one, which has
    /// no keyboard settings.
    pub fn parse(loaded: Option<Config>) -> (config: Config)
        ensures
            config == (match loaded {
                Some(c) => c,
                None => Config { keyboard: None },
            }),
    {
        match loaded {
            Some(c) => c,
            None => Config { keyboard: None },
        }
    }
}

} // verus!
