use vstd::prelude::*;

use crate::keymap::ModifierSet;
use crate::router::{RouteError, is_within, start_url, start_url_of, strip_scheme, token_of, within};
use crate::settings::{ConfigData, Settings, SettingsView, argv_view, settings_of};
use crate::text::{is_prefix, starts_with};

verus! {

/// What a request asks for, once classified.
pub enum Route {
    /// Read the file at this path (the token as requested, not yet canonical).
    File(String),
    /// Run this program with these arguments (first element the program).
    Command(Vec<String>),
}

/// A classified request, as plain values.
pub enum RouteView {
    File(Seq<char>),
    Command(Seq<Seq<char>>),
}

impl View for Route {
    type V = RouteView;

    open spec fn view(&self) -> RouteView {
        match self {
            Route::File(p) => RouteView::File(p@),
            Route::Command(argv) => RouteView::Command(argv_view(argv@)),
        }
    }
}

/// How the settings classify a request URI: a token that begins with the base
/// directory is a file request; any other token must name a configured command
/// exactly, whose argument vector must name a program.
pub open spec fn route_of(s: SettingsView, uri: Seq<char>) -> Result<RouteView, RouteError> {
    let t = token_of(uri);
    if is_prefix(s.base_directory, t) {
        Ok(RouteView::File(t))
    } else if !s.commands.contains_key(t) {
        Err(RouteError::CommandNotFound)
    } else if s.commands[t].len() == 0 {
        Err(RouteError::ProcessSpawnError)
    } else {
        Ok(RouteView::Command(s.commands[t]))
    }
}

/// A token that names a configured command runs exactly that command's argument
/// vector: the token itself is never handed to a program.
pub proof fn lemma_command_token_runs_its_argv(s: SettingsView, uri: Seq<char>)
    requires
        s.commands.contains_key(token_of(uri)),
        !is_prefix(s.base_directory, token_of(uri)),
        s.commands[token_of(uri)].len() > 0,
    ensures
        route_of(s, uri) == Ok::<RouteView, RouteError>(RouteView::Command(s.commands[token_of(uri)])),
{
}

/// A token that names no configured command, and is no file request, is answered
/// with `CommandNotFound` and runs nothing.
pub proof fn lemma_unknown_token_runs_nothing(s: SettingsView, uri: Seq<char>)
    requires
        !s.commands.contains_key(token_of(uri)),
        !is_prefix(s.base_directory, token_of(uri)),
    ensures
        route_of(s, uri) == Err::<RouteView, RouteError>(RouteError::CommandNotFound),
{
}

/// The overlay: its configuration directory and the settings resolved for it.
pub struct Melange {
    settings: Settings,
}

impl Melange {
    pub closed spec fn settings_view(&self) -> SettingsView {
        self.settings@
    }

    /// Resolves `data` under `config_dir`, which becomes the base directory.
    pub fn new(config_dir: String, data: ConfigData) -> (r: Melange)
        ensures
            r.settings_view() == settings_of(config_dir@, data@),
    {
        Melange { settings: Settings::new(config_dir.as_str(), data) }
    }

    pub fn settings(&self) -> (r: &Settings)
        ensures
            r@ == self.settings_view(),
    {
        &self.settings
    }

    pub fn config_dir(&self) -> (r: &str)
        ensures
            r@ == self.settings_view().base_directory,
    {
        self.settings.base_directory.as_str()
    }

    /// Classifies a request URI (see `route_of`).
    pub fn protocol(&self, uri: &str) -> (r: Result<Route, RouteError>)
        ensures
            match r {
                Ok(route) => route_of(self.settings_view(), uri@) == Ok::<RouteView, RouteError>(
                    route@,
                ),
                Err(e) => route_of(self.settings_view(), uri@) == Err::<RouteView, RouteError>(e),
            },
    {
        let token = strip_scheme(uri);
        if starts_with(token.as_str(), self.settings.base_directory.as_str()) {
            return Ok(Route::File(token));
        }
        match self.settings.command(token.as_str()) {
            None => Err(RouteError::CommandNotFound),
            Some(argv) => {
                if argv.len() == 0 {
                    Err(RouteError::ProcessSpawnError)
                } else {
                    Ok(Route::Command(argv))
                }
            },
        }
    }

    /// Accepts a file request only where its canonical path lies at or below the
    /// base directory.
    pub fn confine(&self, canonical: &str) -> (r: Result<(), RouteError>)
        ensures
            r.is_ok() <==> within(self.settings_view().base_directory, canonical@),
            r.is_err() ==> r == Err::<(), RouteError>(RouteError::PathForbidden),
    {
        if is_within(self.settings.base_directory.as_str(), canonical) {
            Ok(())
        } else {
            Err(RouteError::PathForbidden)
        }
    }

    /// Accepts the canonical form of a file request's path (`None` where it could not
    /// be resolved) for reading.
    pub fn accept_file(&self, canonical: Option<String>) -> (r: Result<String, RouteError>)
        ensures
            canonical.is_none() ==> r == Err::<String, RouteError>(RouteError::FileNotFound),
            canonical.is_some() && within(self.settings_view().base_directory, canonical.unwrap()@)
                ==> r.is_ok() && r.unwrap()@ == canonical.unwrap()@,
            canonical.is_some() && !within(self.settings_view().base_directory, canonical.unwrap()@)
                ==> r == Err::<String, RouteError>(RouteError::PathForbidden),
    {
        match canonical {
            None => Err(RouteError::FileNotFound),
            Some(path) => match self.confine(path.as_str()) {
                Ok(()) => Ok(path),
                Err(e) => Err(e),
            },
        }
    }

    /// The page that the UI opens first.
    pub fn start_url(&self) -> (r: String)
        ensures
            r@ == start_url_of(self.settings_view().base_directory),
    {
        start_url(self.settings.base_directory.as_str())
    }

    /// The command bound to a key press, or `None` where nothing is bound.
    pub fn on_key(&self, key: &String, mods: ModifierSet) -> (r: Option<String>)
        ensures
            r.is_none() <==> !self.settings_view().keymap.contains_key((key@, mods.bits)),
            r.is_some() ==> r.unwrap()@ == self.settings_view().keymap[(key@, mods.bits)],
    {
        self.settings.keymap.lookup(key, mods)
    }
}

} // verus!
