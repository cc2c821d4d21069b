//! The project's configuration: the theme, the alias preferences, and the
//! directories that the aliases resolve to.

use crate::json::{
    get_member, lemma_object_view, lookup, members_view, optional_text, parsed_text, put,
    put_member, put_text, read_optional_text, read_text, rendered_text, with_text, write_text,
    Json, JsonView, Member, MemberView,
};
use crate::paths::{from_here, join, joined, strip_here};
use crate::text::{opt_text, same_text};
use crate::util::get_project_info::AliasMap;
use vstd::prelude::*;

verus! {

/// Why the configuration could not be had.
#[derive(Debug)]
pub enum ConfigError {
    /// The working directory is not known.
    NoCurrentDir,
    /// The directory, named here, holds no configuration: the project was
    /// not initialized.
    NoComponentsJson(String),
    /// The configuration file is empty.
    EmptyComponentsJson,
    /// The configuration is no JSON text, or could not be written as one.
    SerdeJson(serde_json::Error),
    /// The configuration could not be read or written; the cause is what
    /// the system reported.
    Io(std::io::Error),
    /// The configuration is JSON, but the member named here is missing or
    /// is not what a configuration holds there.
    Malformed(String),
}

/// The alias that the project prefers for each kind of file.
#[derive(Debug, Clone, PartialEq)]
pub struct Aliases {
    pub components: Option<String>,
    pub ui: Option<String>,
    pub utils: Option<String>,
    pub hooks: Option<String>,
    pub lib: Option<String>,
}

/// The mathematical value of [`Aliases`].
pub struct AliasesView {
    pub components: Option<Seq<char>>,
    pub ui: Option<Seq<char>>,
    pub utils: Option<Seq<char>>,
    pub hooks: Option<Seq<char>>,
    pub lib: Option<Seq<char>>,
}

impl View for Aliases {
    type V = AliasesView;

    open spec fn view(&self) -> AliasesView {
        AliasesView {
            components: opt_text(self.components),
            ui: opt_text(self.ui),
            utils: opt_text(self.utils),
            hooks: opt_text(self.hooks),
            lib: opt_text(self.lib),
        }
    }
}

/// The preferences of a project that states none.
pub open spec fn default_aliases() -> AliasesView {
    AliasesView {
        components: Some("@/components"@),
        ui: Some("@/components/ui"@),
        utils: None,
        hooks: None,
        lib: None,
    }
}

impl Default for Aliases {
    fn default() -> (r: Aliases)
        ensures
            r@ == default_aliases(),
    {
        Aliases {
            components: Some("@/components".to_owned()),
            ui: Some("@/components/ui".to_owned()),
            utils: None,
            hooks: None,
            lib: None,
        }
    }
}

/// The directory of each kind of file; `None` for a kind whose alias the
/// project does not declare.
#[derive(Debug, Clone, PartialEq)]
pub struct ResolvedPaths {
    pub cwd: Option<String>,
    pub components: Option<String>,
    pub ui: Option<String>,
    pub utils: Option<String>,
    pub hooks: Option<String>,
    pub lib: Option<String>,
}

/// The mathematical value of [`ResolvedPaths`].
pub struct ResolvedPathsView {
    pub cwd: Option<Seq<char>>,
    pub components: Option<Seq<char>>,
    pub ui: Option<Seq<char>>,
    pub utils: Option<Seq<char>>,
    pub hooks: Option<Seq<char>>,
    pub lib: Option<Seq<char>>,
}

impl View for ResolvedPaths {
    type V = ResolvedPathsView;

    open spec fn view(&self) -> ResolvedPathsView {
        ResolvedPathsView {
            cwd: opt_text(self.cwd),
            components: opt_text(self.components),
            ui: opt_text(self.ui),
            utils: opt_text(self.utils),
            hooks: opt_text(self.hooks),
            lib: opt_text(self.lib),
        }
    }
}

/// The paths of a project of which only the root is known.
pub open spec fn rooted_paths(cwd: Seq<char>) -> ResolvedPathsView {
    ResolvedPathsView {
        cwd: Some(cwd),
        components: None,
        ui: None,
        utils: None,
        hooks: None,
        lib: None,
    }
}

impl ResolvedPaths {
    /// The paths of a project of which only the root is known.
    pub fn rooted(cwd: &str) -> (r: ResolvedPaths)
        ensures
            r@ == rooted_paths(cwd@),
    {
        ResolvedPaths {
            cwd: Some(cwd.to_owned()),
            components: None,
            ui: None,
            utils: None,
            hooks: None,
            lib: None,
        }
    }
}

/// The look of the components.
#[derive(Debug, Clone, Copy, PartialEq, Eq, Structural)]
pub enum Themes {
    Default,
}

impl Themes {
    /// The theme's name.
    pub open spec fn name(self) -> Seq<char> {
        match self {
            Themes::Default => "default"@,
        }
    }

    /// The theme's name.
    pub fn as_str(&self) -> (r: &'static str)
        ensures
            r@ == self.name(),
    {
        match self {
            Themes::Default => "default",
        }
    }
}

impl Default for Themes {
    fn default() -> (r: Themes)
        ensures
            r == Themes::Default,
    {
        Themes::Default
    }
}

/// The configuration of a project.
#[derive(Debug, Clone, PartialEq)]
pub struct Config {
    pub theme: Themes,
    pub aliases: Aliases,
    /// Worked out when the configuration is loaded; never written.
    pub resolved_paths: ResolvedPaths,
}

/// The mathematical value of a [`Config`].
pub struct ConfigView {
    pub theme: Themes,
    pub aliases: AliasesView,
    pub resolved_paths: ResolvedPathsView,
}

impl View for Config {
    type V = ConfigView;

    open spec fn view(&self) -> ConfigView {
        ConfigView {
            theme: self.theme,
            aliases: self.aliases@,
            resolved_paths: self.resolved_paths@,
        }
    }
}

impl Config {
    /// The configuration that initialization writes, for a project at
    /// `cwd`.
    pub fn initial(cwd: &str) -> (r: Config)
        ensures
            r@.theme == Themes::Default,
            r@.aliases == default_aliases(),
            r@.resolved_paths == rooted_paths(cwd@),
    {
        Config {
            theme: Themes::default(),
            aliases: Aliases::default(),
            resolved_paths: ResolvedPaths::rooted(cwd),
        }
    }
}

/// The directory that `alias` resolves to in a project at `cwd`: the first
/// pattern declared for the alias, taken from the project's root. `None`
/// where the alias is not declared, or declared without a pattern.
pub open spec fn directory_of(
    cwd: Seq<char>,
    table: Map<Seq<char>, Seq<Seq<char>>>,
    alias: Seq<char>,
) -> Option<Seq<char>> {
    if table.dom().contains(alias) && table[alias].len() > 0 {
        Some(joined(cwd, from_here(table[alias][0])))
    } else {
        None
    }
}

/// The directories of a project at `cwd` with the alias table `table`.
pub open spec fn resolved_paths(
    cwd: Seq<char>,
    table: Map<Seq<char>, Seq<Seq<char>>>,
) -> ResolvedPathsView {
    ResolvedPathsView {
        cwd: Some(cwd),
        components: directory_of(cwd, table, "@/components"@),
        ui: directory_of(cwd, table, "@/ui"@),
        utils: directory_of(cwd, table, "@/utils"@),
        hooks: directory_of(cwd, table, "@/hooks"@),
        lib: directory_of(cwd, table, "@/lib"@),
    }
}

/// The directory that one alias resolves to.
pub fn resolve_alias(cwd: &str, aliases_paths: &AliasMap, alias: &str) -> (r: Option<String>)
    ensures
        opt_text(r) == directory_of(cwd@, aliases_paths@, alias@),
{
    match aliases_paths.get(alias) {
        Some(patterns) => {
            if patterns.len() > 0 {
                let tail = strip_here(patterns[0].as_str());
                Some(join(cwd, tail.as_str()))
            } else {
                None
            }
        },
        None => None,
    }
}

/// The directory of each kind of file, for a project at `cwd` whose alias
/// declaration gave `aliases_paths`.
pub fn resolve_config_paths(cwd: &str, aliases_paths: &AliasMap) -> (r: ResolvedPaths)
    ensures
        r@ == resolved_paths(cwd@, aliases_paths@),
{
    ResolvedPaths {
        cwd: Some(cwd.to_owned()),
        components: resolve_alias(cwd, aliases_paths, "@/components"),
        ui: resolve_alias(cwd, aliases_paths, "@/ui"),
        utils: resolve_alias(cwd, aliases_paths, "@/utils"),
        hooks: resolve_alias(cwd, aliases_paths, "@/hooks"),
        lib: resolve_alias(cwd, aliases_paths, "@/lib"),
    }
}

/// One preference: what the configuration states, else `fallback`. `None`
/// where the configuration holds something that is no text.
pub open spec fn preference(
    members: Seq<MemberView>,
    key: Seq<char>,
    fallback: Option<Seq<char>>,
) -> Option<Option<Seq<char>>> {
    match optional_text(members, key) {
        None => None,
        Some(None) => Some(fallback),
        Some(Some(t)) => Some(Some(t)),
    }
}

/// The preferences that a configuration states under `aliases`. A kind
/// that it does not state falls back to the default; `None` where a
/// preference is no text.
pub open spec fn aliases_of(members: Seq<MemberView>) -> Option<AliasesView> {
    match (
        preference(members, "components"@, default_aliases().components),
        preference(members, "ui"@, default_aliases().ui),
        preference(members, "utils"@, None),
        preference(members, "hooks"@, None),
        preference(members, "lib"@, None),
    ) {
        (Some(components), Some(ui), Some(utils), Some(hooks), Some(lib)) => Some(
            AliasesView { components, ui, utils, hooks, lib },
        ),
        _ => None,
    }
}

/// What a configuration tree states: its theme and its preferences. The
/// tree must be an object whose `theme` is the text `Default`; `aliases`
/// may be missing or `null`, which gives the default preferences, and is an
/// object otherwise. `Err` names the member that is not as it must be, the
/// first of `theme`, `aliases`, and `aliases.components` to `aliases.lib`;
/// an empty name stands for the tree itself.
pub open spec fn config_of(tree: JsonView) -> Result<(Themes, AliasesView), Seq<char>> {
    match tree {
        JsonView::Object(root) => match lookup(root, "theme"@) {
            Some(JsonView::Text(t)) => if t == "Default"@ {
                match lookup(root, "aliases"@) {
                    None => Ok((Themes::Default, default_aliases())),
                    Some(JsonView::Null) => Ok((Themes::Default, default_aliases())),
                    Some(JsonView::Object(members)) => match aliases_of(members) {
                        Some(aliases) => Ok((Themes::Default, aliases)),
                        None => Err(bad_preference(members)),
                    },
                    Some(_) => Err("aliases"@),
                }
            } else {
                Err("theme"@)
            },
            _ => Err("theme"@),
        },
        _ => Err(Seq::empty()),
    }
}

/// The first preference that is no text, by its path.
pub open spec fn bad_preference(members: Seq<MemberView>) -> Seq<char> {
    if optional_text(members, "components"@) is None {
        "aliases.components"@
    } else if optional_text(members, "ui"@) is None {
        "aliases.ui"@
    } else if optional_text(members, "utils"@) is None {
        "aliases.utils"@
    } else if optional_text(members, "hooks"@) is None {
        "aliases.hooks"@
    } else {
        "aliases.lib"@
    }
}

/// Reads one preference, with its fallback.
fn read_preference(members: &Vec<Member>, key: &str, fallback: Option<String>) -> (r: Option<
    Option<String>,
>)
    ensures
        match r {
            Some(v) => preference(members_view(members@), key@, opt_text(fallback)) == Some(
                opt_text(v),
            ),
            None => optional_text(members_view(members@), key@) is None,
        },
{
    match read_optional_text(members, key) {
        None => None,
        Some(None) => Some(fallback),
        Some(Some(t)) => Some(Some(t)),
    }
}

/// Reads the preferences; `Err` names the first that is no text.
fn read_aliases(members: &Vec<Member>) -> (r: Result<Aliases, String>)
    ensures
        match aliases_of(members_view(members@)) {
            Some(aliases) => r is Ok && r->Ok_0@ == aliases,
            None => r is Err && r->Err_0@ == bad_preference(members_view(members@)),
        },
{
    let defaults = Aliases::default();
    let components = match read_preference(members, "components", defaults.components) {
        Some(v) => v,
        None => {
            return Err("aliases.components".to_owned());
        },
    };
    let ui = match read_preference(members, "ui", defaults.ui) {
        Some(v) => v,
        None => {
            return Err("aliases.ui".to_owned());
        },
    };
    let utils = match read_preference(members, "utils", None) {
        Some(v) => v,
        None => {
            return Err("aliases.utils".to_owned());
        },
    };
    let hooks = match read_preference(members, "hooks", None) {
        Some(v) => v,
        None => {
            return Err("aliases.hooks".to_owned());
        },
    };
    let lib = match read_preference(members, "lib", None) {
        Some(v) => v,
        None => {
            return Err("aliases.lib".to_owned());
        },
    };
    Ok(Aliases { components, ui, utils, hooks, lib })
}

/// Reads the theme and the preferences from a configuration tree.
pub fn config_from_tree(tree: &Json) -> (r: Result<(Themes, Aliases), ConfigError>)
    ensures
        match config_of(tree@) {
            Ok(stated) => r is Ok && r->Ok_0.0 == stated.0 && r->Ok_0.1@ == stated.1,
            Err(member) => r matches Err(ConfigError::Malformed(name)) && name@ == member,
        },
{
    match tree {
        Json::Object(root) => {
            proof {
                lemma_object_view(*root);
            }
            match get_member(root, "theme") {
                Some(Json::Text(t)) => {
                    if !same_text(t.as_str(), "Default") {
                        return Err(ConfigError::Malformed("theme".to_owned()));
                    }
                },
                _ => {
                    return Err(ConfigError::Malformed("theme".to_owned()));
                },
            }
            match get_member(root, "aliases") {
                None => Ok((Themes::Default, Aliases::default())),
                Some(Json::Null) => Ok((Themes::Default, Aliases::default())),
                Some(Json::Object(members)) => {
                    proof {
                        lemma_object_view(*members);
                    }
                    match read_aliases(members) {
                        Ok(aliases) => Ok((Themes::Default, aliases)),
                        Err(member) => Err(ConfigError::Malformed(member)),
                    }
                },
                Some(_) => Err(ConfigError::Malformed("aliases".to_owned())),
            }
        },
        _ => Err(ConfigError::Malformed(String::new())),
    }
}

/// Loads the configuration from the text of the configuration file, for a
/// project at `cwd` whose alias declaration gave `aliases_paths`.
pub fn get_config(text: &str, cwd: &str, aliases_paths: &AliasMap) -> (r: Result<
    Config,
    ConfigError,
>)
    ensures
        match parsed_text(text@) {
            None => r is Err && r->Err_0 is SerdeJson,
            Some(tree) => match config_of(tree) {
                Err(member) => r matches Err(ConfigError::Malformed(name)) && name@ == member,
                Ok(stated) => r is Ok && r->Ok_0@ == (ConfigView {
                    theme: stated.0,
                    aliases: stated.1,
                    resolved_paths: resolved_paths(cwd@, aliases_paths@),
                }),
            },
        },
{
    let tree = match read_text(text) {
        Ok(tree) => tree,
        Err(cause) => {
            return Err(ConfigError::SerdeJson(cause));
        },
    };
    match config_from_tree(&tree) {
        Err(e) => Err(e),
        Ok((theme, aliases)) => Ok(
            Config { theme, aliases, resolved_paths: resolve_config_paths(cwd, aliases_paths) },
        ),
    }
}

/// The preferences as the members of an object: each stated one under its
/// kind, the others left out.
pub open spec fn aliases_members(aliases: AliasesView) -> Seq<MemberView> {
    with_text(
        with_text(
            with_text(
                with_text(
                    with_text(Seq::empty(), "components"@, aliases.components),
                    "ui"@,
                    aliases.ui,
                ),
                "utils"@,
                aliases.utils,
            ),
            "hooks"@,
            aliases.hooks,
        ),
        "lib"@,
        aliases.lib,
    )
}

/// The tree that is written for a configuration: its theme and its
/// preferences. The resolved directories are not written.
pub open spec fn config_tree(config: ConfigView) -> JsonView {
    JsonView::Object(
        put(
            put(Seq::empty(), "theme"@, JsonView::Text("Default"@)),
            "aliases"@,
            JsonView::Object(aliases_members(config.aliases)),
        ),
    )
}

/// The tree that is written for a configuration.
pub fn config_to_tree(config: &Config) -> (r: Json)
    ensures
        r@ == config_tree(config@),
{
    let mut aliases: Vec<Member> = Vec::new();
    assert(members_view(aliases@) =~= Seq::<MemberView>::empty());
    put_text(&mut aliases, "components", &config.aliases.components);
    put_text(&mut aliases, "ui", &config.aliases.ui);
    put_text(&mut aliases, "utils", &config.aliases.utils);
    put_text(&mut aliases, "hooks", &config.aliases.hooks);
    put_text(&mut aliases, "lib", &config.aliases.lib);
    let mut root: Vec<Member> = Vec::new();
    assert(members_view(root@) =~= Seq::<MemberView>::empty());
    put_member(&mut root, "theme", Json::text("Default"));
    proof {
        lemma_object_view(aliases);
    }
    put_member(&mut root, "aliases", Json::Object(aliases));
    proof {
        lemma_object_view(root);
    }
    Json::Object(root)
}

/// The text of the configuration file for a configuration.
pub fn write_config(new_config: &Config) -> (r: Result<String, ConfigError>)
    ensures
        match rendered_text(config_tree(new_config@)) {
            Some(text) => r is Ok && r->Ok_0@ == text,
            None => r is Err && r->Err_0 is SerdeJson,
        },
{
    let tree = config_to_tree(new_config);
    match write_text(&tree) {
        Ok(text) => Ok(text),
        Err(cause) => Err(ConfigError::SerdeJson(cause)),
    }
}

} // verus!
