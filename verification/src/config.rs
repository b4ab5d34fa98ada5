//! The settings of the program.

use vstd::prelude::*;

use crate::lines::{blank, tight};
use crate::paths::{
    expand_tilde, home_dir, law_setting_names_the_place, location_result, opt_text, resolve_setting,
    setting_or_home, tilde_expanded, AnchorView, HomeUnknown, Location, LocationView,
};

verus! {

/// The settings in use.
#[derive(Debug, Clone)]
pub struct AppConfig {
    pub config_path: Location,
    pub chats_dir: Location,
}

/// The settings as they stand in the file.
#[derive(Debug, Clone)]
pub struct AppConfigFile {
    pub chats_dir: String,
}

/// What to do to get the settings.
#[derive(Debug)]
pub enum ConfigStep {
    /// There is no file yet: write this one there, then read it.
    Create { path: Location, file: AppConfigFile },
    /// The settings are known; the directory for chats has to exist.
    Ready(AppConfig),
}

pub enum ConfigStepView {
    Create { path: LocationView, chats_setting: Seq<char> },
    Ready { config_path: LocationView, chats_dir: LocationView },
}

impl View for ConfigStep {
    type V = ConfigStepView;

    open spec fn view(&self) -> ConfigStepView {
        match self {
            ConfigStep::Create { path, file } => ConfigStepView::Create {
                path: path@,
                chats_setting: file.chats_dir@,
            },
            ConfigStep::Ready(config) => ConfigStepView::Ready {
                config_path: config.config_path@,
                chats_dir: config.chats_dir@,
            },
        }
    }
}

/// The directory of the program: what the setting names, or `.may` in the home directory.
pub fn may_home(value: Option<&str>, home_known: bool) -> (r: Result<Location, HomeUnknown>)
    ensures
        location_result(r) == setting_or_home(opt_text(value), home_known, ".may"@),
{
    resolve_setting(value, home_known, ".may")
}

/// The file that holds the settings.
pub fn config_file_path(value: Option<&str>, home_known: bool) -> (r: Result<Location, HomeUnknown>)
    ensures
        location_result(r) == config_path_of(opt_text(value), home_known),
{
    let home = may_home(value, home_known)?;
    Ok(home.join("config.toml"))
}

/// The file that holds the settings: `config.toml` in the directory of the program.
pub open spec fn config_path_of(value: Option<Seq<char>>, home_known: bool) -> Result<
    LocationView,
    HomeUnknown,
> {
    match setting_or_home(value, home_known, ".may"@) {
        Ok(home) => Ok(home.child("config.toml"@)),
        Err(e) => Err(e),
    }
}

/// What to do to get the settings. Without a file the default one is written first. With one,
/// its directory for chats is used, a leading `~` read as the home directory.
pub open spec fn config_step(
    value: Option<Seq<char>>,
    home_known: bool,
    stored: Option<Seq<char>>,
) -> Result<ConfigStepView, HomeUnknown> {
    match (config_path_of(value, home_known), stored) {
        (Err(e), _) => Err(e),
        (Ok(path), None) => Ok(ConfigStepView::Create { path, chats_setting: "~/.may/chats"@ }),
        (Ok(path), Some(dir)) => match tilde_expanded(dir, home_known) {
            Ok(chats_dir) => Ok(ConfigStepView::Ready { config_path: path, chats_dir }),
            Err(e) => Err(e),
        },
    }
}

/// The chat directory in a file that may be missing.
pub open spec fn stored_dir(stored: Option<AppConfigFile>) -> Option<Seq<char>> {
    match stored {
        Some(file) => Some(file.chats_dir@),
        None => None,
    }
}

/// The view of a step, or the error.
pub open spec fn step_result(r: Result<ConfigStep, HomeUnknown>) -> Result<
    ConfigStepView,
    HomeUnknown,
> {
    match r {
        Ok(step) => Ok(step@),
        Err(e) => Err(e),
    }
}

impl AppConfig {
    /// What to do to get the settings: `value` is the directory of the program where one is set,
    /// `stored` the file of settings where there is one.
    pub fn load_or_create(
        value: Option<&str>,
        home_known: bool,
        stored: Option<AppConfigFile>,
    ) -> (r: Result<ConfigStep, HomeUnknown>)
        ensures
            step_result(r) == config_step(opt_text(value), home_known, stored_dir(stored)),
    {
        let config_path = config_file_path(value, home_known)?;
        match stored {
            None => Ok(
                ConfigStep::Create {
                    path: config_path,
                    file: AppConfigFile { chats_dir: "~/.may/chats".to_string() },
                },
            ),
            Some(file) => {
                let chats_dir = expand_tilde(file.chats_dir.as_str(), home_known)?;
                Ok(ConfigStep::Ready(AppConfig { config_path, chats_dir }))
            },
        }
    }
}

/// The settings that are written first are in order: read again, they lead to the directory for
/// chats in the home directory.
pub proof fn law_created_settings_are_ready(value: Option<Seq<char>>)
    ensures
        config_step(value, true, None) matches Ok(ConfigStepView::Create { path, chats_setting })
            && config_step(value, true, Some(chats_setting)) == Ok::<ConfigStepView, HomeUnknown>(
            ConfigStepView::Ready {
                config_path: path,
                chats_dir: home_dir().child(".may/chats"@),
            },
        ),
{
    reveal_strlit("~");
    reveal_strlit("~/");
    reveal_strlit("~/.may/chats");
    reveal_strlit(".may/chats");
    let dir = "~/.may/chats"@;
    assert(dir.take(2) =~= "~/"@);
    assert(dir.skip(2) =~= ".may/chats"@);
    assert(dir.len() != "~"@.len());
}

/// The settings are kept in one file: in the directory that is set, else in the one below the home
/// directory. Chats are kept where the settings say.
pub proof fn law_settings_are_followed(value: Option<Seq<char>>, dir: Seq<char>, home_known: bool)
    ensures
        config_step(value, home_known, Some(dir)) matches Ok(ConfigStepView::Ready {
            config_path,
            chats_dir,
        }) ==> {
            &&& config_path_of(value, home_known) == Ok::<LocationView, HomeUnknown>(config_path)
            &&& tilde_expanded(dir, home_known) == Ok::<LocationView, HomeUnknown>(chats_dir)
            &&& config_path.tail.len() > 0
            &&& config_path.tail.last() == "config.toml"@
        },
        config_step(value, home_known, Some(dir)) is Ok <==> config_path_of(value, home_known) is Ok
            && tilde_expanded(dir, home_known) is Ok,
        !(config_step(value, home_known, Some(dir)) matches Ok(ConfigStepView::Create { .. })),
        !(config_step(value, home_known, None) matches Ok(ConfigStepView::Ready { .. })),
        value is None && home_known ==> config_path_of(value, home_known) == Ok::<
            LocationView,
            HomeUnknown,
        >(home_dir().child(".may"@).child("config.toml"@)),
{
}

/// A directory that is set for the settings holds their file, without the white space around its
/// name, whether or not the home directory is known.
pub proof fn law_set_directory_holds_the_settings(
    lead: Seq<char>,
    path: Seq<char>,
    trail: Seq<char>,
    home_known: bool,
)
    requires
        blank(lead),
        blank(trail),
        tight(path),
        path.len() > 0,
    ensures
        config_path_of(Some(lead + path + trail), home_known) == Ok::<LocationView, HomeUnknown>(
            LocationView { anchor: AnchorView::Fixed(path), tail: seq!["config.toml"@] },
        ),
        config_step(Some(lead + path + trail), home_known, None) == Ok::<
            ConfigStepView,
            HomeUnknown,
        >(
            ConfigStepView::Create {
                path: LocationView {
                    anchor: AnchorView::Fixed(path),
                    tail: seq!["config.toml"@],
                },
                chats_setting: "~/.may/chats"@,
            },
        ),
{
    law_setting_names_the_place(lead, path, trail, home_known, ".may"@);
    assert(Seq::<Seq<char>>::empty().push("config.toml"@) =~= seq!["config.toml"@]);
}

} // verus!
