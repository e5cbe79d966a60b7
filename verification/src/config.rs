//! The configuration, its command-line options, and the steps of loading a
//! configuration from layered YAML files.

use vstd::prelude::*;
use crate::merge::{merge_yaml, merged};
use crate::yaml::{parse_value, yaml_model, yaml_parse};

verus! {

/// An error raised by the configuration code itself.
#[derive(Debug)]
pub struct ConfigErr {
    err: String,
}

impl View for ConfigErr {
    type V = Seq<char>;

    /// The error's message.
    closed spec fn view(&self) -> Seq<char> {
        self.err@
    }
}

impl ConfigErr {
    /// A boxed error with the message `err`.
    pub fn new(err: &str) -> (r: Box<ConfigErr>)
        ensures
            r@ == err@,
    {
        Box::new(ConfigErr { err: err.to_owned() })
    }

    /// The error's message.
    pub fn message(&self) -> (r: String)
        ensures
            r@ == self@,
    {
        self.err.clone()
    }
}

/// The settings that the YAML files give. A field that no file sets keeps
/// its value from `Config::default()`.
#[derive(Debug, PartialEq, Eq, Structural)]
pub struct Config {
    pub version: usize,
    /// Whether to run this process in the background.
    pub daemon: bool,
    pub nonoverride: i8,
    /// Set by the key `override` of the YAML files.
    pub override_: i8,
}

impl Default for Config {
    fn default() -> (r: Config)
        ensures
            r == (Config { version: 0, daemon: false, nonoverride: 0, override_: 0 }),
    {
        Config { version: 0, daemon: false, nonoverride: 0, override_: 0 }
    }
}

/// The command-line options. `-d` asks for the daemon mode whatever the
/// files say; `-c` names the YAML files, later ones overriding earlier ones.
#[derive(Debug)]
pub struct Opt {
    pub daemon: bool,
    pub log_level: i8,
    pub test: bool,
    pub notest: bool,
    pub conf: Vec<String>,
}

/// Why loading the configuration failed.
#[derive(Debug)]
pub enum LoadError {
    Config(Box<ConfigErr>),
    Yaml(serde_yaml::Error),
}

/// The document that every load starts from, before the files are merged in.
pub const BASE_DOCUMENT: &'static str = "---\nversion: 1";

impl Config {
    /// The configuration of the base document: version 1, all else default.
    pub fn new() -> (r: Option<Config>)
        ensures
            r == Some(Config { version: 1, daemon: false, nonoverride: 0, override_: 0 }),
    {
        let mut c = Config::default();
        c.version = 1;
        Some(c)
    }

    /// `Config::new()`, in daemon mode where the options ask for it.
    pub fn new_with_opt_override(opt: &Opt) -> (r: Option<Config>)
        ensures
            r == Some(Config { version: 1, daemon: opt.daemon, nonoverride: 0, override_: 0 }),
    {
        let conf = Self::new();
        match conf {
            Some(mut c) => {
                c.apply_opt_override(opt);
                Some(c)
            },
            None => None,
        }
    }

    /// Switches the daemon mode on where the options ask for it; the options
    /// never switch it off.
    pub fn apply_opt_override(&mut self, opt: &Opt)
        ensures
            *final(self) == (Config { daemon: old(self).daemon || opt.daemon, ..*old(self) }),
    {
        if opt.daemon {
            self.daemon = true;
        }
    }

    /// Accepts every configuration as it is.
    pub fn validate(self) -> (r: Result<Config, Box<ConfigErr>>)
        ensures
            r == Ok::<Config, Box<ConfigErr>>(self),
    {
        Ok(self)
    }
}

/// The first step of a load: fails where no file is named, else parses the
/// base document.
pub fn load_base_document(opt: &Opt) -> (r: Result<serde_yaml::Value, LoadError>)
    ensures
        opt.conf.len() == 0 ==> (r matches Err(LoadError::Config(e)) && e@ == "No path specified"@),
        opt.conf.len() > 0 ==> (r is Ok <==> yaml_parse(BASE_DOCUMENT@) is Some),
        opt.conf.len() > 0 && r is Err ==> r matches Err(LoadError::Yaml(_)),
        r matches Ok(v) ==> yaml_parse(BASE_DOCUMENT@) == Some(yaml_model(v)),
{
    if opt.conf.len() == 0 {
        return Err(LoadError::Config(ConfigErr::new("No path specified")));
    }
    match parse_value(BASE_DOCUMENT) {
        Ok(v) => Ok(v),
        Err(e) => Err(LoadError::Yaml(e)),
    }
}

/// One step of a load: parses the text of the next file and merges it into
/// `target`. A text that does not parse leaves `target` as it was.
pub fn merge_layer(target: &mut serde_yaml::Value, text: &str) -> (r: Result<(), LoadError>)
    ensures
        r is Ok <==> yaml_parse(text@) is Some,
        r is Ok ==> yaml_model(*final(target)) == merged(yaml_model(*old(target)), yaml_parse(text@)->0),
        r is Err ==> (r matches Err(LoadError::Yaml(_))) && *final(target) == *old(target),
{
    match parse_value(text) {
        Ok(v) => {
            merge_yaml(target, v);
            Ok(())
        },
        Err(e) => Err(LoadError::Yaml(e)),
    }
}

} // verus!
