//! The settings of one run, and how they are put together.
//!
//! A setting may be given on the command line, or in the configuration file
//! or the environment, or not at all. The command line wins over the file and
//! the environment, and a setting that nobody gave has a built-in default.

use vstd::prelude::*;

verus! {

/// Everything one run needs to know, fixed before the loop starts.
#[derive(Clone, Debug)]
pub struct RunConfig {
    /// Directories to scan, in order.
    pub image_paths: Vec<String>,
    /// File extensions that make a file a candidate; compared exactly.
    pub allowed_extensions: Vec<String>,
    /// The program that sets the wallpaper.
    pub command: String,
    /// Arguments that precede the image path on the command line.
    pub command_args: Vec<String>,
    /// Seconds to wait after an iteration that went well.
    pub sleep_interval: u64,
    /// Seconds to wait after an iteration that failed.
    pub retry_backoff: u64,
    /// Number of consecutive failures at which the loop gives up.
    pub max_retries: usize,
    /// Rotate once and leave.
    pub rotate_once: bool,
    /// Start even if another instance is running.
    pub force_duplicate: bool,
    /// Print the selected path instead of running the command.
    pub print_only: bool,
}

/// A [`RunConfig`] as mathematical values.
pub struct RunConfigView {
    pub image_paths: Seq<Seq<char>>,
    pub allowed_extensions: Seq<Seq<char>>,
    pub command: Seq<char>,
    pub command_args: Seq<Seq<char>>,
    pub sleep_interval: nat,
    pub retry_backoff: nat,
    pub max_retries: nat,
    pub rotate_once: bool,
    pub force_duplicate: bool,
    pub print_only: bool,
}

impl View for RunConfig {
    type V = RunConfigView;

    open spec fn view(&self) -> RunConfigView {
        RunConfigView {
            image_paths: self.image_paths.deep_view(),
            allowed_extensions: self.allowed_extensions.deep_view(),
            command: self.command@,
            command_args: self.command_args.deep_view(),
            sleep_interval: self.sleep_interval as nat,
            retry_backoff: self.retry_backoff as nat,
            max_retries: self.max_retries as nat,
            rotate_once: self.rotate_once,
            force_duplicate: self.force_duplicate,
            print_only: self.print_only,
        }
    }
}

/// The command that sets the wallpaper, unless another one is configured.
pub const DEFAULT_COMMAND: &'static str = "/usr/bin/feh";

/// The seconds between two rotations, unless configured.
pub const DEFAULT_SLEEP_INTERVAL: u64 = 7200;

/// The seconds before a retry after a failed invocation.
pub const RETRY_BACKOFF: u64 = 10;

/// The number of consecutive failures at which the loop gives up, unless
/// configured.
pub const DEFAULT_MAX_RETRIES: usize = 10;

/// The arguments of the default command, as mathematical values.
pub open spec fn default_command_args() -> Seq<Seq<char>> {
    seq!["--no-fehbg"@, "--bg-scale"@]
}

/// The extensions that make a file an image, unless configured, as
/// mathematical values.
pub open spec fn default_extensions() -> Seq<Seq<char>> {
    seq!["png"@, "jpg"@, "jpeg"@]
}

/// What one source says of the settings: each one is given or not.
#[derive(Debug)]
pub struct Settings {
    pub image_paths: Option<Vec<String>>,
    pub allowed_extensions: Option<Vec<String>>,
    pub command: Option<String>,
    pub command_args: Option<Vec<String>>,
    pub sleep_interval: Option<u64>,
    pub max_retries: Option<usize>,
    pub rotate_once: Option<bool>,
    pub force_duplicate: Option<bool>,
    pub print_only: Option<bool>,
}

/// [`Settings`] as mathematical values.
pub struct SettingsView {
    pub image_paths: Option<Seq<Seq<char>>>,
    pub allowed_extensions: Option<Seq<Seq<char>>>,
    pub command: Option<Seq<char>>,
    pub command_args: Option<Seq<Seq<char>>>,
    pub sleep_interval: Option<nat>,
    pub max_retries: Option<nat>,
    pub rotate_once: Option<bool>,
    pub force_duplicate: Option<bool>,
    pub print_only: Option<bool>,
}

/// A list of texts that may be absent, as mathematical values.
pub open spec fn texts_of(list: Option<Vec<String>>) -> Option<Seq<Seq<char>>> {
    match list {
        Some(texts) => Some(texts.deep_view()),
        None => None,
    }
}

impl View for Settings {
    type V = SettingsView;

    open spec fn view(&self) -> SettingsView {
        SettingsView {
            image_paths: texts_of(self.image_paths),
            allowed_extensions: texts_of(self.allowed_extensions),
            command: match self.command {
                Some(command) => Some(command@),
                None => None,
            },
            command_args: texts_of(self.command_args),
            sleep_interval: match self.sleep_interval {
                Some(seconds) => Some(seconds as nat),
                None => None,
            },
            max_retries: match self.max_retries {
                Some(retries) => Some(retries as nat),
                None => None,
            },
            rotate_once: self.rotate_once,
            force_duplicate: self.force_duplicate,
            print_only: self.print_only,
        }
    }
}

/// The value of one setting: what the first source gives, else what the second
/// gives, else the fallback.
pub open spec fn preferred<T>(first: Option<T>, second: Option<T>, fallback: T) -> T {
    match first {
        Some(value) => value,
        None => match second {
            Some(value) => value,
            None => fallback,
        },
    }
}

/// The configuration that results from the command line and from the file
/// and environment: setting by setting, the command line first. Without any
/// image path there is no directory to scan. The interval before a retry is
/// not configurable.
pub open spec fn resolved(cli: SettingsView, file: SettingsView) -> RunConfigView {
    RunConfigView {
        image_paths: preferred(cli.image_paths, file.image_paths, Seq::empty()),
        allowed_extensions: preferred(
            cli.allowed_extensions,
            file.allowed_extensions,
            default_extensions(),
        ),
        command: preferred(cli.command, file.command, DEFAULT_COMMAND@),
        command_args: preferred(cli.command_args, file.command_args, default_command_args()),
        sleep_interval: preferred(
            cli.sleep_interval,
            file.sleep_interval,
            DEFAULT_SLEEP_INTERVAL as nat,
        ),
        retry_backoff: RETRY_BACKOFF as nat,
        max_retries: preferred(cli.max_retries, file.max_retries, DEFAULT_MAX_RETRIES as nat),
        rotate_once: preferred(cli.rotate_once, file.rotate_once, false),
        force_duplicate: preferred(cli.force_duplicate, file.force_duplicate, false),
        print_only: preferred(cli.print_only, file.print_only, false),
    }
}

/// Picks the value of one setting, as [`preferred`] says.
fn prefer<T>(first: Option<T>, second: Option<T>, fallback: T) -> (chosen: T)
    ensures
        chosen == preferred(first, second, fallback),
{
    match first {
        Some(value) => value,
        None => match second {
            Some(value) => value,
            None => fallback,
        },
    }
}

/// The arguments of the default command.
fn command_args_by_default() -> (args: Vec<String>)
    ensures
        args.deep_view() == default_command_args(),
{
    let mut args: Vec<String> = Vec::new();
    args.push("--no-fehbg".to_owned());
    args.push("--bg-scale".to_owned());
    assert(args.deep_view() =~= default_command_args());
    args
}

/// The extensions that are allowed by default.
fn extensions_by_default() -> (extensions: Vec<String>)
    ensures
        extensions.deep_view() == default_extensions(),
{
    let mut extensions: Vec<String> = Vec::new();
    extensions.push("png".to_owned());
    extensions.push("jpg".to_owned());
    extensions.push("jpeg".to_owned());
    assert(extensions.deep_view() =~= default_extensions());
    extensions
}

impl RunConfig {
    /// Merges the settings of the command line with those of the
    /// configuration file and the environment, as [`resolved`] says.
    pub fn resolve(cli: Settings, file: Settings) -> (config: RunConfig)
        ensures
            config@ == resolved(cli@, file@),
    {
        let ghost wanted = resolved(cli@, file@);
        let no_paths: Vec<String> = Vec::new();
        assert(no_paths.deep_view() =~= Seq::<Seq<char>>::empty());
        let image_paths = prefer(cli.image_paths, file.image_paths, no_paths);
        assert(image_paths.deep_view() == wanted.image_paths);
        let allowed_extensions = prefer(
            cli.allowed_extensions,
            file.allowed_extensions,
            extensions_by_default(),
        );
        assert(allowed_extensions.deep_view() == wanted.allowed_extensions);
        let command = prefer(cli.command, file.command, DEFAULT_COMMAND.to_owned());
        assert(command@ == wanted.command);
        let command_args = prefer(cli.command_args, file.command_args, command_args_by_default());
        assert(command_args.deep_view() == wanted.command_args);
        let sleep_interval = prefer(cli.sleep_interval, file.sleep_interval, DEFAULT_SLEEP_INTERVAL);
        let max_retries = prefer(cli.max_retries, file.max_retries, DEFAULT_MAX_RETRIES);
        RunConfig {
            image_paths,
            allowed_extensions,
            command,
            command_args,
            sleep_interval,
            retry_backoff: RETRY_BACKOFF,
            max_retries,
            rotate_once: prefer(cli.rotate_once, file.rotate_once, false),
            force_duplicate: prefer(cli.force_duplicate, file.force_duplicate, false),
            print_only: prefer(cli.print_only, file.print_only, false),
        }
    }
}

/// The order of the sources: what the command line gives stands, whatever
/// the file says; what only the file gives stands; and the default comes in
/// where neither gives anything.
pub proof fn lemma_order_of_sources<T>(given: T, second: Option<T>, fallback: T)
    ensures
        preferred(Some(given), second, fallback) == given,
        preferred(None, Some(given), fallback) == given,
        preferred(None::<T>, None::<T>, fallback) == fallback,
{
}

} // verus!
