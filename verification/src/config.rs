//! The configuration: icons, aliases, general settings and option flags.
use vstd::prelude::*;
use vstd::hash_map::StringHashMap;
use vstd::string::*;

verus! {

/// What the user configured. Every table may be empty; a key that is absent
/// stands for the built-in default.
pub struct Config {
    /// Window class to icon glyph.
    pub icons: StringHashMap<char>,
    /// Window class to the text shown in its place.
    pub aliases: StringHashMap<String>,
    /// String settings; `separator` and `default_icon` are read.
    pub general: StringHashMap<String>,
    /// Flags; `no_names` and `remove_duplicates` are read.
    pub options: StringHashMap<bool>,
}

/// The separator between labels where none is configured.
pub open spec fn default_separator() -> Seq<char> {
    " | "@
}

impl Config {
    /// The flag stored under `key`, `false` where there is none.
    pub open spec fn flag(&self, key: Seq<char>) -> bool {
        self.options@.contains_key(key) && self.options@[key]
    }

    /// The alias of `class`, if one is configured.
    pub open spec fn alias_of(&self, class: Seq<char>) -> Option<Seq<char>> {
        if self.aliases@.contains_key(class) {
            Some(self.aliases@[class]@)
        } else {
            None
        }
    }

    /// The icon shown for `class`: its own, else the default icon, else none.
    pub open spec fn icon_of(&self, class: Seq<char>) -> Option<Seq<char>> {
        if self.icons@.contains_key(class) {
            Some(seq![self.icons@[class]])
        } else if self.general@.contains_key("default_icon"@) {
            Some(self.general@["default_icon"@]@)
        } else {
            None
        }
    }

    /// The text put between two labels.
    pub open spec fn separator(&self) -> Seq<char> {
        if self.general@.contains_key("separator"@) {
            self.general@["separator"@]@
        } else {
            default_separator()
        }
    }

    /// True where nothing at all is configured.
    pub open spec fn is_blank(&self) -> bool {
        &&& self.icons@ == Map::<Seq<char>, char>::empty()
        &&& self.aliases@ == Map::<Seq<char>, String>::empty()
        &&& self.general@ == Map::<Seq<char>, String>::empty()
        &&& self.options@ == Map::<Seq<char>, bool>::empty()
    }

    /// Sets the icon of `class`.
    pub fn set_icon(&mut self, class: &str, icon: char)
        ensures
            final(self).icons@ == old(self).icons@.insert(class@, icon),
            final(self).aliases == old(self).aliases,
            final(self).general == old(self).general,
            final(self).options == old(self).options,
    {
        self.icons.insert(String::from_str(class), icon);
    }

    /// Sets the alias of `class`.
    pub fn set_alias(&mut self, class: &str, alias: &str)
        ensures
            final(self).aliases@.dom() == old(self).aliases@.dom().insert(class@),
            final(self).alias_of(class@) == Some(alias@),
            forall|other: Seq<char>| other != class@ ==> final(self).alias_of(other) == old(self).alias_of(other),
            final(self).icons == old(self).icons,
            final(self).general == old(self).general,
            final(self).options == old(self).options,
    {
        self.aliases.insert(String::from_str(class), String::from_str(alias));
    }

    /// Sets the general setting `key`.
    pub fn set_general(&mut self, key: &str, value: &str)
        ensures
            final(self).general@.dom() == old(self).general@.dom().insert(key@),
            final(self).general@[key@]@ == value@,
            forall|other: Seq<char>| other != key@ ==> final(self).general@[other] == old(self).general@[other],
            final(self).icons == old(self).icons,
            final(self).aliases == old(self).aliases,
            final(self).options == old(self).options,
    {
        self.general.insert(String::from_str(key), String::from_str(value));
    }

    /// Sets the flag `key`.
    pub fn set_option(&mut self, key: &str, value: bool)
        ensures
            final(self).options@ == old(self).options@.insert(key@, value),
            final(self).icons == old(self).icons,
            final(self).aliases == old(self).aliases,
            final(self).general == old(self).general,
    {
        self.options.insert(String::from_str(key), value);
    }
}

impl Config {
    /// Switches on the flags that are given as `true`; one given as `false`
    /// leaves the configured value as it is.
    pub fn override_options(&mut self, no_names: bool, remove_duplicates: bool)
        ensures
            final(self).flag("no_names"@) == (no_names || old(self).flag("no_names"@)),
            final(self).flag("remove_duplicates"@) == (remove_duplicates || old(self).flag(
                "remove_duplicates"@,
            )),
            final(self).options@ == (if no_names {
                if remove_duplicates {
                    old(self).options@.insert("no_names"@, true).insert("remove_duplicates"@, true)
                } else {
                    old(self).options@.insert("no_names"@, true)
                }
            } else {
                if remove_duplicates {
                    old(self).options@.insert("remove_duplicates"@, true)
                } else {
                    old(self).options@
                }
            }),
            final(self).icons == old(self).icons,
            final(self).aliases == old(self).aliases,
            final(self).general == old(self).general,
    {
        proof {
            reveal_strlit("no_names");
            reveal_strlit("remove_duplicates");
            assert("no_names"@.len() != "remove_duplicates"@.len());
        }
        if no_names {
            self.set_option("no_names", true);
        }
        if remove_duplicates {
            self.set_option("remove_duplicates", true);
        }
    }
}

/// The directory that holds the configuration files: `configured` where
/// it is given, else `.config` under `home`, an absent `home` counting as the
/// empty path.
pub fn xdg_config_home(configured: Option<String>, home: Option<String>) -> (dir: String)
    ensures
        dir@ == match configured {
            Some(given) => given@,
            None => (match home {
                Some(path) => path@,
                None => Seq::<char>::empty(),
            }) + "/.config"@,
        },
{
    match configured {
        Some(given) => given,
        None => {
            let mut dir = match home {
                Some(path) => path,
                None => String::new(),
            };
            dir.append("/.config");
            dir
        },
    }
}

impl Default for Config {
    fn default() -> (config: Config)
        ensures
            config.is_blank(),
    {
        Config {
            icons: StringHashMap::new(),
            aliases: StringHashMap::new(),
            general: StringHashMap::new(),
            options: StringHashMap::new(),
        }
    }
}

/// Reads the flag `key`: `false` unless the configuration sets it to `true`.
pub fn get_option(config: &Config, key: &str) -> (value: bool)
    ensures
        value == config.flag(key@),
{
    match config.options.get(key) {
        Some(v) => *v,
        None => false,
    }
}

} // verus!
