use vstd::prelude::*;

use crate::keymap::{Command, Keymap, bindings_of, last_wins, lemma_last_wins_at, lemma_last_wins_tail};
use crate::text::text_eq;

verus! {

/// The text of each argument of an argument vector.
pub open spec fn argv_view(v: Seq<String>) -> Seq<Seq<char>> {
    v.map_values(|a: String| a@)
}

/// A named command of the configuration: the name it is invoked by, and the
/// program with its arguments (first element the program).
pub struct NamedCommand {
    pub name: String,
    pub argv: Vec<String>,
}

impl NamedCommand {
    pub open spec fn declaration(&self) -> (Seq<char>, Seq<Seq<char>>) {
        (self.name@, argv_view(self.argv@))
    }
}

/// The declarations that a list of named commands makes, in order.
pub open spec fn declarations_of(cmds: Seq<NamedCommand>) -> Seq<(Seq<char>, Seq<Seq<char>>)> {
    cmds.map_values(|c: NamedCommand| c.declaration())
}

/// The configuration document as it was read, before any table is built.
pub struct ConfigData {
    pub fullscreen: bool,
    pub shell: String,
    pub keymap: Vec<Command>,
    pub commands: Vec<NamedCommand>,
}

/// What a configuration document holds, as plain values.
pub struct ConfigView {
    pub fullscreen: bool,
    pub shell: Seq<char>,
    pub bindings: Seq<((Seq<char>, u8), Seq<char>)>,
    pub commands: Seq<(Seq<char>, Seq<Seq<char>>)>,
}

impl View for ConfigData {
    type V = ConfigView;

    open spec fn view(&self) -> ConfigView {
        ConfigView {
            fullscreen: self.fullscreen,
            shell: self.shell@,
            bindings: bindings_of(self.keymap@),
            commands: declarations_of(self.commands@),
        }
    }
}

impl Default for ConfigData {
    /// Fullscreen, the `sh` shell, no keybinding and no named command.
    fn default() -> (r: ConfigData)
        ensures
            r.fullscreen,
            r.shell@ == seq!['s', 'h'],
            r.keymap@.len() == 0,
            r.commands@.len() == 0,
    {
        let shell = "sh";
        proof {
            reveal_strlit("sh");
        }
        ConfigData {
            fullscreen: true,
            shell: String::from_str(shell),
            keymap: Vec::new(),
            commands: Vec::new(),
        }
    }
}

/// The resolved settings, as plain values.
pub struct SettingsView {
    pub base_directory: Seq<char>,
    pub fullscreen: bool,
    pub shell: Seq<char>,
    pub commands: Map<Seq<char>, Seq<Seq<char>>>,
    pub keymap: Map<(Seq<char>, u8), Seq<char>>,
}

/// The settings that a configuration document resolves to under a base directory.
pub open spec fn settings_of(base_directory: Seq<char>, c: ConfigView) -> SettingsView {
    SettingsView {
        base_directory,
        fullscreen: c.fullscreen,
        shell: c.shell,
        commands: last_wins(c.commands),
        keymap: last_wins(c.bindings),
    }
}

/// Resolution is deterministic: the same base directory and the same document
/// give the same settings.
pub proof fn lemma_resolution_deterministic(
    d1: Seq<char>,
    c1: ConfigView,
    s1: SettingsView,
    d2: Seq<char>,
    c2: ConfigView,
    s2: SettingsView,
)
    requires
        s1 == settings_of(d1, c1),
        s2 == settings_of(d2, c2),
        d1 == d2,
        c1 == c2,
    ensures
        s1 == s2,
{
}

/// Settings, resolved once at startup and read-only afterwards.
pub struct Settings {
    pub base_directory: String,
    pub fullscreen: bool,
    pub shell: String,
    pub keymap: Keymap,
    pub commands: Vec<NamedCommand>,
}

/// A copy of an argument vector.
fn copy_argv(v: &Vec<String>) -> (r: Vec<String>)
    ensures
        argv_view(r@) == argv_view(v@),
{
    let mut r: Vec<String> = Vec::new();
    let mut i: usize = 0;
    while i < v.len()
        invariant
            i <= v@.len(),
            argv_view(r@) == argv_view(v@.subrange(0, i as int)),
        decreases v@.len() - i,
    {
        r.push(v[i].clone());
        proof {
            assert(argv_view(v@.subrange(0, i + 1)) =~= argv_view(v@.subrange(0, i as int)).push(
                v@[i as int]@,
            ));
        }
        assert(argv_view(r@) =~= argv_view(v@.subrange(0, i + 1)));
        i = i + 1;
    }
    assert(v@.subrange(0, v@.len() as int) =~= v@);
    r
}

impl View for Settings {
    type V = SettingsView;

    open spec fn view(&self) -> SettingsView {
        SettingsView {
            base_directory: self.base_directory@,
            fullscreen: self.fullscreen,
            shell: self.shell@,
            commands: self.commands_map(),
            keymap: self.keymap@,
        }
    }
}

impl Settings {
    /// The named-command table: a later declaration of a name replaces an earlier one.
    pub open spec fn commands_map(&self) -> Map<Seq<char>, Seq<Seq<char>>> {
        last_wins(declarations_of(self.commands@))
    }

    /// Resolves a configuration document under `base_directory`: folds each keymap
    /// entry's modifiers into one set and indexes the keymap and the named commands.
    pub fn new(base_directory: &str, data: ConfigData) -> (r: Settings)
        ensures
            r@ == settings_of(base_directory@, data@),
    {
        let keymap = Keymap::from_commands(&data.keymap);
        let r = Settings {
            base_directory: String::from_str(base_directory),
            fullscreen: data.fullscreen,
            shell: data.shell,
            keymap,
            commands: data.commands,
        };
        r
    }

    /// The argument vector of the command named exactly `name`, or `None`.
    pub fn command(&self, name: &str) -> (r: Option<Vec<String>>)
        ensures
            r.is_none() <==> !self@.commands.contains_key(name@),
            r.is_some() ==> argv_view(r.unwrap()@) == self@.commands[name@],
    {
        let ghost d = declarations_of(self.commands@);
        let mut i: usize = self.commands.len();
        while i > 0
            invariant
                i <= self.commands@.len(),
                d == declarations_of(self.commands@),
                forall|j: int| i <= j < d.len() ==> d[j].0 != name@,
            decreases i,
        {
            i = i - 1;
            let c = &self.commands[i];
            if text_eq(c.name.as_str(), name) {
                proof {
                    assert(d[i as int] == c.declaration());
                    lemma_last_wins_at(d, i as int);
                    lemma_last_wins_tail(d, i + 1, name@);
                }
                return Some(copy_argv(&c.argv));
            }
            assert(d[i as int] == c.declaration());
        }
        proof {
            lemma_last_wins_tail(d, 0, name@);
        }
        None
    }
}

} // verus!
