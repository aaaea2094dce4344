//! The settings of a development session and how the menu shows them.
use vstd::prelude::*;
use vstd::string::StringExecFns;
use crate::text::concat;

verus! {

/// A menu line `name: value`.
pub open spec fn labelled(name: Seq<char>, value: Seq<char>) -> Seq<char> {
    name + ": "@ + value
}

/// A folder setting, held as its path.
#[derive(Debug, Clone)]
pub struct FolderOption(pub String);

impl FolderOption {
    pub fn new(path: String) -> (r: Self)
        ensures
            r.0@ == path@,
    {
        FolderOption(path)
    }

    /// Takes the folder that was picked; keeps the current one when none was.
    pub fn set(&mut self, picked: Option<String>)
        ensures
            final(self).0@ == match picked {
                Some(p) => p@,
                None => old(self).0@,
            },
    {
        if let Some(p) = picked {
            self.0 = p;
        }
    }

    pub fn get(&self) -> (r: String)
        ensures
            r@ == self.0@,
    {
        self.0.clone()
    }

    pub fn display(&self) -> (r: String)
        ensures
            r@ == self.0@,
    {
        self.0.clone()
    }

    /// The menu line `name: path`.
    pub fn format(&self, name: &str) -> (r: String)
        ensures
            r@ == labelled(name@, self.0@),
    {
        concat(concat(name, ": ").as_str(), self.display().as_str())
    }
}

/// A text setting.
#[derive(Debug, Clone)]
pub struct StringOption(pub String);

/// How a text setting is shown: `<NONE>` when it is empty.
pub open spec fn shown_text(s: Seq<char>) -> Seq<char> {
    if s.len() == 0 { "<NONE>"@ } else { s }
}

impl StringOption {
    pub fn new(string: String) -> (r: Self)
        ensures
            r.0@ == string@,
    {
        StringOption(string)
    }

    /// Takes the text that was typed.
    pub fn set(&mut self, input: String)
        ensures
            final(self).0@ == input@,
    {
        self.0 = input;
    }

    pub fn get(&self) -> (r: String)
        ensures
            r@ == self.0@,
    {
        self.0.clone()
    }

    pub fn display(&self) -> (r: String)
        ensures
            r@ == shown_text(self.0@),
    {
        if self.0.as_str().is_empty() {
            String::from_str("<NONE>")
        } else {
            self.0.clone()
        }
    }

    /// The menu line `name: text`.
    pub fn format(&self, name: &str) -> (r: String)
        ensures
            r@ == labelled(name@, shown_text(self.0@)),
    {
        concat(concat(name, ": ").as_str(), self.display().as_str())
    }
}

/// An on/off setting.
#[derive(Debug, Clone, Copy)]
pub struct BoolOption(pub bool);

/// How an on/off setting is shown.
pub open spec fn shown_flag(b: bool) -> Seq<char> {
    if b { "Enabled"@ } else { "Disabled"@ }
}

impl BoolOption {
    pub fn new(value: bool) -> (r: Self)
        ensures
            r.0 == value,
    {
        BoolOption(value)
    }

    /// Turns the setting over.
    pub fn set(&mut self)
        ensures
            final(self).0 == !old(self).0,
    {
        self.0 = !self.0;
    }

    pub fn get(&self) -> (r: bool)
        ensures
            r == self.0,
    {
        self.0
    }

    pub fn display(&self) -> (r: String)
        ensures
            r@ == shown_flag(self.0),
    {
        if self.0 { String::from_str("Enabled") } else { String::from_str("Disabled") }
    }

    /// The menu line `name: Enabled` or `name: Disabled`.
    pub fn format(&self, name: &str) -> (r: String)
        ensures
            r@ == labelled(name@, shown_flag(self.0)),
    {
        concat(concat(name, ": ").as_str(), self.display().as_str())
    }
}

/// The settings of a development session.
#[derive(Debug, Clone)]
pub struct DevConfig {
    pub name: StringOption,
    pub to_path: FolderOption,
    pub from_path: FolderOption,
    pub parse_dds: BoolOption,
    pub hot_reload: BoolOption,
}

impl DevConfig {
    /// The settings a session starts with: no name, both folders at
    /// `current_dir`, conversion on, hot reload off.
    pub fn new(current_dir: String) -> (r: DevConfig)
        ensures
            r.name.0@.len() == 0,
            r.to_path.0@ == current_dir@,
            r.from_path.0@ == current_dir@,
            r.parse_dds.0,
            !r.hot_reload.0,
    {
        DevConfig {
            name: StringOption::new(String::new()),
            to_path: FolderOption::new(current_dir.clone()),
            from_path: FolderOption::new(current_dir),
            parse_dds: BoolOption::new(true),
            hot_reload: BoolOption::new(false),
        }
    }

    /// The lines of the settings menu, in order.
    pub fn menu(&self) -> (r: Vec<String>)
        ensures
            r.len() == 7,
            r@[0]@ == labelled("Character Name"@, shown_text(self.name.0@)),
            r@[1]@ == labelled("Mod Path (From)"@, self.from_path.0@),
            r@[2]@ == labelled("Install Path (To)"@, self.to_path.0@),
            r@[3]@ == labelled("Auto Parse to DDS"@, shown_flag(self.parse_dds.0)),
            r@[4]@ == labelled("Hot Reload"@, shown_flag(self.hot_reload.0)),
            r@[5]@ == "Exit"@,
            r@[6]@ == "Update"@,
    {
        let mut r: Vec<String> = Vec::new();
        r.push(self.name.format("Character Name"));
        r.push(self.from_path.format("Mod Path (From)"));
        r.push(self.to_path.format("Install Path (To)"));
        r.push(self.parse_dds.format("Auto Parse to DDS"));
        r.push(self.hot_reload.format("Hot Reload"));
        r.push(String::from_str("Exit"));
        r.push(String::from_str("Update"));
        r
    }
}

/// What a line of the settings menu does.
#[derive(Debug, Clone, Copy, PartialEq, Eq, Structural)]
pub enum SettingsAction {
    SetName,
    SetFrom,
    SetTo,
    ToggleParse,
    /// Turns hot reload over and asks for a build.
    ToggleHotReload,
    Exit,
    /// Asks for a build now.
    Update,
}

/// The action of menu line `choice` (of the seven that `DevConfig::menu`
/// lists).
pub fn settings_action(choice: usize) -> (r: SettingsAction)
    requires
        choice < 7,
    ensures
        choice == 0 ==> r == SettingsAction::SetName,
        choice == 1 ==> r == SettingsAction::SetFrom,
        choice == 2 ==> r == SettingsAction::SetTo,
        choice == 3 ==> r == SettingsAction::ToggleParse,
        choice == 4 ==> r == SettingsAction::ToggleHotReload,
        choice == 5 ==> r == SettingsAction::Exit,
        choice == 6 ==> r == SettingsAction::Update,
{
    if choice == 0 {
        SettingsAction::SetName
    } else if choice == 1 {
        SettingsAction::SetFrom
    } else if choice == 2 {
        SettingsAction::SetTo
    } else if choice == 3 {
        SettingsAction::ToggleParse
    } else if choice == 4 {
        SettingsAction::ToggleHotReload
    } else if choice == 5 {
        SettingsAction::Exit
    } else {
        SettingsAction::Update
    }
}

} // verus!
