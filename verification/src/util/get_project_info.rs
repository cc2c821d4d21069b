//! Path aliases: the table that a project's alias declaration gives, and
//! the alias block that initialization writes into it.
//!
//! The declaration is a JSON text that may hold comments. Its member
//! `compilerOptions.paths` maps alias patterns to lists of path patterns.

use crate::json::{
    all_text, find_member, items_view, lemma_array_view, lemma_object_view, lemma_position,
    lookup, members_view, parsed_text, put, put_member, read_text, rendered_text, strip_text,
    stripped_text, write_text, Json, JsonView, Member, MemberView,
};
use crate::text::{is_prefix, same_text, starts_with, strip_suffix, texts, without_suffix};
use vstd::prelude::*;

verus! {

/// Why an alias declaration could not be used.
#[derive(Debug)]
pub enum TsAliasError {
    /// The declaration could not be read; the cause is what the system
    /// reported.
    Io(std::io::Error),
    /// The comments could not be taken out of the declaration.
    StripComments(std::io::Error),
    /// The declaration is no JSON text, or could not be written as one.
    Json(serde_json::Error),
    /// The declaration is JSON, but not of the shape of an alias
    /// declaration.
    Shape,
}

/// One alias with the path patterns declared for it.
#[derive(Debug, Clone, PartialEq)]
pub struct AliasEntry {
    pub alias: String,
    pub paths: Vec<String>,
}

/// The mathematical value of an [`AliasEntry`].
pub struct AliasEntryView {
    pub alias: Seq<char>,
    pub paths: Seq<Seq<char>>,
}

/// The views of a list of entries, in order.
pub open spec fn entries_view(entries: Seq<AliasEntry>) -> Seq<AliasEntryView> {
    Seq::new(
        entries.len(),
        |i: int| AliasEntryView { alias: entries[i].alias@, paths: texts(entries[i].paths@) },
    )
}

/// The table that a list of entries stands for: a later entry replaces an
/// earlier one for the same alias.
pub open spec fn table_of(entries: Seq<AliasEntryView>) -> Map<Seq<char>, Seq<Seq<char>>>
    decreases entries.len(),
{
    if entries.len() == 0 {
        Map::empty()
    } else {
        table_of(entries.drop_last()).insert(entries.last().alias, entries.last().paths)
    }
}

/// No alias occurs twice among the entries.
pub open spec fn distinct(entries: Seq<AliasEntryView>) -> bool {
    forall|i: int, j: int| 0 <= i < j < entries.len() ==> entries[i].alias != entries[j].alias
}

/// Entries that do not hold an alias do not matter to what the table holds
/// for it.
proof fn lemma_table_of(entries: Seq<AliasEntryView>, alias: Seq<char>, from: int)
    requires
        0 <= from <= entries.len(),
        forall|j: int| from <= j < entries.len() ==> entries[j].alias != alias,
    ensures
        table_of(entries).dom().contains(alias) == table_of(entries.take(from)).dom().contains(
            alias,
        ),
        table_of(entries).dom().contains(alias) ==> table_of(entries)[alias] == table_of(
            entries.take(from),
        )[alias],
    decreases entries.len(),
{
    if from == entries.len() {
        assert(entries.take(from) =~= entries);
    } else {
        let front = entries.drop_last();
        lemma_table_of(front, alias, from);
        assert(front.take(from) =~= entries.take(from));
    }
}

/// Replacing the last entry of an alias declares the new paths for it.
proof fn lemma_table_replaced(entries: Seq<AliasEntryView>, i: int, entry: AliasEntryView)
    requires
        0 <= i < entries.len(),
        entries[i].alias == entry.alias,
        forall|j: int| i < j < entries.len() ==> entries[j].alias != entry.alias,
    ensures
        table_of(entries.update(i, entry)) == table_of(entries).insert(entry.alias, entry.paths),
    decreases entries.len(),
{
    let after = entries.update(i, entry);
    let front = entries.drop_last();
    if i == entries.len() - 1 {
        assert(after.drop_last() =~= front);
        assert(table_of(after) =~= table_of(entries).insert(entry.alias, entry.paths));
    } else {
        lemma_table_replaced(front, i, entry);
        assert(after.drop_last() =~= front.update(i, entry));
        assert(after.last() == entries.last());
        assert(table_of(after) =~= table_of(entries).insert(entry.alias, entry.paths));
    }
}

/// A table from aliases to path patterns.
#[derive(Debug, Clone, PartialEq)]
pub struct AliasMap {
    entries: Vec<AliasEntry>,
}

impl View for AliasMap {
    type V = Map<Seq<char>, Seq<Seq<char>>>;

    closed spec fn view(&self) -> Map<Seq<char>, Seq<Seq<char>>> {
        table_of(entries_view(self.entries@))
    }
}

impl AliasMap {
    /// The table holds one entry for each alias. The table without any
    /// alias is so, and `insert` keeps a table so.
    pub closed spec fn well_formed(&self) -> bool {
        distinct(entries_view(self.entries@))
    }

    /// The table without any alias.
    pub fn new() -> (r: AliasMap)
        ensures
            r@ == Map::<Seq<char>, Seq<Seq<char>>>::empty(),
            r.well_formed(),
    {
        AliasMap { entries: Vec::new() }
    }

    /// The index of the last entry for `alias`.
    fn find(&self, alias: &str) -> (r: Option<usize>)
        ensures
            match r {
                Some(i) => i < self.entries@.len() && self.entries@[i as int].alias@ == alias@
                    && forall|j: int|
                    i < j < self.entries@.len() ==> entries_view(self.entries@)[j].alias
                        != alias@,
                None => forall|j: int|
                    0 <= j < self.entries@.len() ==> entries_view(self.entries@)[j].alias
                        != alias@,
            },
    {
        let mut i: usize = self.entries.len();
        while i > 0
            invariant
                i <= self.entries.len(),
                forall|j: int|
                    i <= j < self.entries@.len() ==> entries_view(self.entries@)[j].alias
                        != alias@,
            decreases i,
        {
            i = i - 1;
            if same_text(self.entries[i].alias.as_str(), alias) {
                return Some(i);
            }
        }
        None
    }

    /// Declares `paths` for `alias`, in place of what was declared for it.
    pub fn insert(&mut self, alias: String, paths: Vec<String>)
        ensures
            final(self)@ == old(self)@.insert(alias@, texts(paths@)),
            old(self).well_formed() ==> final(self).well_formed(),
    {
        let ghost before = entries_view(self.entries@);
        let ghost entry = AliasEntryView { alias: alias@, paths: texts(paths@) };
        match self.find(alias.as_str()) {
            Some(i) => {
                self.entries.set(i, AliasEntry { alias, paths });
                proof {
                    let after = entries_view(self.entries@);
                    lemma_table_replaced(before, i as int, entry);
                    assert(after =~= before.update(i as int, entry));
                    if distinct(before) {
                        assert forall|a: int, b: int| 0 <= a < b < after.len() implies after[a].alias
                            != after[b].alias by {
                            assert(after[a].alias == before[a].alias);
                            assert(after[b].alias == before[b].alias);
                        }
                    }
                }
            },
            None => {
                self.entries.push(AliasEntry { alias, paths });
                proof {
                    let after = entries_view(self.entries@);
                    assert(after =~= before.push(entry));
                    assert(after.drop_last() =~= before);
                    if distinct(before) {
                        assert forall|a: int, b: int| 0 <= a < b < after.len() implies after[a].alias
                            != after[b].alias by {
                            assert(after[a] == before[a]);
                            if b < before.len() {
                                assert(after[b] == before[b]);
                            }
                        }
                    }
                }
            },
        }
    }

    /// The path patterns declared for `alias`.
    pub fn get(&self, alias: &str) -> (r: Option<&Vec<String>>)
        ensures
            match r {
                Some(paths) => self@.dom().contains(alias@) && self@[alias@] == texts(paths@),
                None => !self@.dom().contains(alias@),
            },
    {
        let ghost model = entries_view(self.entries@);
        match self.find(alias) {
            Some(i) => {
                proof {
                    lemma_table_of(model, alias@, i + 1);
                    assert(model.take(i + 1).drop_last() =~= model.take(i as int));
                    assert(model.take(i + 1).last() == model[i as int]);
                }
                Some(&self.entries[i].paths)
            },
            None => {
                proof {
                    lemma_table_of(model, alias@, 0);
                    assert(model.take(0) =~= Seq::<AliasEntryView>::empty());
                }
                None
            },
        }
    }
}

/// What is known of a project before anything is installed into it.
#[derive(Debug, Clone, PartialEq)]
pub struct ProjectInfo {
    /// The project has a `src` directory.
    pub is_src_dir: bool,
    /// The project has an alias declaration.
    pub is_tsx: bool,
    pub aliases_paths: AliasMap,
}

/// An alias is kept when it starts with one of the recognized prefixes.
pub open spec fn allowed(alias: Seq<char>) -> bool {
    ||| is_prefix("@/components"@, alias)
    ||| is_prefix("@/ui"@, alias)
    ||| is_prefix("@/utils"@, alias)
    ||| is_prefix("@/hooks"@, alias)
    ||| is_prefix("@/lib"@, alias)
}

/// A pattern without its trailing wildcard part `/*`.
pub open spec fn trimmed(pattern: Seq<char>) -> Seq<char> {
    without_suffix(pattern, "/*"@)
}

/// The items of a list of texts, each trimmed.
pub open spec fn patterns(items: Seq<JsonView>) -> Seq<Seq<char>> {
    Seq::new(items.len(), |i: int| trimmed(items[i]->Text_0))
}

/// The value is a list of texts.
pub open spec fn is_pattern_list(value: JsonView) -> bool {
    match value {
        JsonView::Array(items) => all_text(items),
        _ => false,
    }
}

/// Every member's value is a list of texts.
pub open spec fn well_shaped(members: Seq<MemberView>) -> bool {
    forall|i: int| 0 <= i < members.len() ==> is_pattern_list(#[trigger] members[i].value)
}

/// The table gathered from the members of `paths`, in order: each member
/// with an allowed alias declares its trimmed patterns for its trimmed
/// alias; the others are left out.
pub open spec fn gathered(members: Seq<MemberView>) -> Map<Seq<char>, Seq<Seq<char>>>
    decreases members.len(),
{
    if members.len() == 0 {
        Map::empty()
    } else {
        let front = gathered(members.drop_last());
        let last = members.last();
        if allowed(last.key) {
            front.insert(trimmed(last.key), patterns(last.value->Array_0))
        } else {
            front
        }
    }
}

/// What `paths` declares, or `None` where a member is no list of texts.
pub open spec fn declared(members: Seq<MemberView>) -> Option<Map<Seq<char>, Seq<Seq<char>>>> {
    if well_shaped(members) {
        Some(gathered(members))
    } else {
        None
    }
}

/// The alias table of a declaration; `None` where the tree has not the
/// shape of one. A declaration without `compilerOptions`, or without
/// `paths` in it, declares nothing; so does one where either is `null`.
pub open spec fn alias_table(tree: JsonView) -> Option<Map<Seq<char>, Seq<Seq<char>>>> {
    match tree {
        JsonView::Object(root) => match lookup(root, "compilerOptions"@) {
            None => Some(Map::empty()),
            Some(JsonView::Null) => Some(Map::empty()),
            Some(JsonView::Object(options)) => match lookup(options, "paths"@) {
                None => Some(Map::empty()),
                Some(JsonView::Null) => Some(Map::empty()),
                Some(JsonView::Object(paths)) => declared(paths),
                Some(_) => None,
            },
            Some(_) => None,
        },
        _ => None,
    }
}

/// Removes a trailing `/*` from an alias or a path pattern.
pub fn trim_suffix(alias: &str) -> (r: String)
    ensures
        r@ == trimmed(alias@),
{
    strip_suffix(alias, "/*")
}

/// Whether an alias starts with one of the recognized prefixes.
pub fn is_allowed(alias: &str) -> (r: bool)
    ensures
        r == allowed(alias@),
{
    starts_with(alias, "@/components") || starts_with(alias, "@/ui") || starts_with(
        alias,
        "@/utils",
    ) || starts_with(alias, "@/hooks") || starts_with(alias, "@/lib")
}

/// The trimmed patterns of a list of texts; `None` where an item is no
/// text.
pub fn patterns_from(items: &Vec<Json>) -> (r: Option<Vec<String>>)
    ensures
        match r {
            Some(list) => all_text(items_view(items@)) && texts(list@) == patterns(
                items_view(items@),
            ),
            None => !all_text(items_view(items@)),
        },
{
    let ghost model = items_view(items@);
    let mut out: Vec<String> = Vec::new();
    let mut i: usize = 0;
    while i < items.len()
        invariant
            i <= items.len(),
            out@.len() == i,
            model == items_view(items@),
            forall|j: int| 0 <= j < i ==> #[trigger] model[j] is Text,
            forall|j: int| 0 <= j < i ==> out@[j]@ == trimmed(model[j]->Text_0),
        decreases items.len() - i,
    {
        match &items[i] {
            Json::Text(s) => {
                out.push(trim_suffix(s.as_str()));
            },
            _ => {
                assert(!(model[i as int] is Text));
                return None;
            },
        }
        i = i + 1;
    }
    assert(texts(out@) =~= patterns(model));
    Some(out)
}

/// The table that the members of `paths` declare.
pub fn table_from(members: &Vec<Member>) -> (r: Result<AliasMap, TsAliasError>)
    ensures
        match declared(members_view(members@)) {
            Some(table) => r is Ok && r->Ok_0@ == table && r->Ok_0.well_formed(),
            None => r is Err && r->Err_0 is Shape,
        },
{
    let ghost model = members_view(members@);
    let mut table = AliasMap::new();
    let mut i: usize = 0;
    assert(model.take(0) =~= Seq::<MemberView>::empty());
    while i < members.len()
        invariant
            i <= members.len(),
            model == members_view(members@),
            forall|j: int| 0 <= j < i ==> is_pattern_list(#[trigger] model[j].value),
            table@ == gathered(model.take(i as int)),
            table.well_formed(),
        decreases members.len() - i,
    {
        proof {
            assert(model.take(i + 1).drop_last() =~= model.take(i as int));
            assert(model.take(i + 1).last() == model[i as int]);
        }
        match &members[i].value {
            Json::Array(items) => {
                proof {
                    lemma_array_view(*items);
                }
                match patterns_from(items) {
                    Some(list) => {
                        if is_allowed(members[i].key.as_str()) {
                            table.insert(trim_suffix(members[i].key.as_str()), list);
                        }
                    },
                    None => {
                        assert(!is_pattern_list(model[i as int].value));
                        return Err(TsAliasError::Shape);
                    },
                }
            },
            _ => {
                assert(!is_pattern_list(model[i as int].value));
                return Err(TsAliasError::Shape);
            },
        }
        i = i + 1;
    }
    assert(model.take(i as int) =~= model);
    Ok(table)
}

/// The alias table of a declaration that was read into a tree.
pub fn aliases_from_tree(tree: &Json) -> (r: Result<AliasMap, TsAliasError>)
    ensures
        match alias_table(tree@) {
            Some(table) => r is Ok && r->Ok_0@ == table && r->Ok_0.well_formed(),
            None => r is Err && r->Err_0 is Shape,
        },
{
    match tree {
        Json::Object(root) => {
            proof {
                lemma_object_view(*root);
                lemma_position(members_view(root@), "compilerOptions"@);
            }
            match find_member(root, "compilerOptions") {
                None => Ok(AliasMap::new()),
                Some(i) => match &root[i].value {
                    Json::Null => Ok(AliasMap::new()),
                    Json::Object(options) => {
                        proof {
                            lemma_object_view(*options);
                            lemma_position(members_view(options@), "paths"@);
                        }
                        match find_member(options, "paths") {
                            None => Ok(AliasMap::new()),
                            Some(k) => match &options[k].value {
                                Json::Null => Ok(AliasMap::new()),
                                Json::Object(paths) => {
                                    proof {
                                        lemma_object_view(*paths);
                                    }
                                    table_from(paths)
                                },
                                _ => Err(TsAliasError::Shape),
                            },
                        }
                    },
                    _ => Err(TsAliasError::Shape),
                },
            }
        },
        _ => Err(TsAliasError::Shape),
    }
}

/// What reading an alias declaration gives: the comments are taken out,
/// the rest is read as JSON, and the tree's alias table is returned.
pub open spec fn aliases_of_text(raw: Seq<char>) -> Option<Map<Seq<char>, Seq<Seq<char>>>> {
    match stripped_text(raw) {
        None => None,
        Some(clean) => match parsed_text(clean) {
            None => None,
            Some(tree) => alias_table(tree),
        },
    }
}

/// Reads the alias table from the text of an alias declaration.
pub fn get_aliases_paths(raw: &str) -> (r: Result<AliasMap, TsAliasError>)
    ensures
        match stripped_text(raw@) {
            None => r is Err && r->Err_0 is StripComments,
            Some(clean) => match parsed_text(clean) {
                None => r is Err && r->Err_0 is Json,
                Some(tree) => match alias_table(tree) {
                    None => r is Err && r->Err_0 is Shape,
                    Some(table) => r is Ok && r->Ok_0@ == table && r->Ok_0.well_formed(),
                },
            },
        },
{
    let clean = match strip_text(raw) {
        Ok(clean) => clean,
        Err(cause) => {
            return Err(TsAliasError::StripComments(cause));
        },
    };
    let tree = match read_text(clean.as_str()) {
        Ok(tree) => tree,
        Err(cause) => {
            return Err(TsAliasError::Json(cause));
        },
    };
    aliases_from_tree(&tree)
}

/// The alias block that initialization declares: the `paths` of a project
/// whose components lie under `src/shared/components`.
pub open spec fn alias_block() -> JsonView {
    JsonView::Object(
        seq![
            MemberView {
                key: "@/ui/*"@,
                value: JsonView::Array(seq![JsonView::Text("src/shared/components/ui/*"@)]),
            },
            MemberView {
                key: "@/components/*"@,
                value: JsonView::Array(seq![JsonView::Text("src/shared/components/*"@)]),
            },
        ],
    )
}

/// The table that the alias block declares.
pub open spec fn block_aliases() -> Map<Seq<char>, Seq<Seq<char>>> {
    Map::<Seq<char>, Seq<Seq<char>>>::empty().insert(
        "@/ui"@,
        seq!["src/shared/components/ui"@],
    ).insert("@/components"@, seq!["src/shared/components"@])
}

/// A declaration with the alias block as the `paths` of its
/// `compilerOptions`, and `.` as their `baseUrl`; every other member stays.
/// A tree whose `compilerOptions` is no object is left as it is.
pub open spec fn with_alias_block(tree: JsonView) -> JsonView {
    match tree {
        JsonView::Object(root) => match lookup(root, "compilerOptions"@) {
            Some(JsonView::Object(options)) => JsonView::Object(
                put(
                    root,
                    "compilerOptions"@,
                    JsonView::Object(
                        put(put(options, "paths"@, alias_block()), "baseUrl"@, JsonView::Text("."@)),
                    ),
                ),
            ),
            _ => tree,
        },
        _ => tree,
    }
}

/// The alias block as a tree.
pub fn block_tree() -> (r: Json)
    ensures
        r@ == alias_block(),
{
    let mut ui: Vec<Json> = Vec::new();
    ui.push(Json::text("src/shared/components/ui/*"));
    let mut components: Vec<Json> = Vec::new();
    components.push(Json::text("src/shared/components/*"));
    let mut members: Vec<Member> = Vec::new();
    proof {
        lemma_array_view(ui);
        lemma_array_view(components);
        assert(items_view(ui@) =~= seq![JsonView::Text("src/shared/components/ui/*"@)]);
        assert(items_view(components@) =~= seq![JsonView::Text("src/shared/components/*"@)]);
    }
    members.push(Member { key: "@/ui/*".to_owned(), value: Json::Array(ui) });
    members.push(Member { key: "@/components/*".to_owned(), value: Json::Array(components) });
    proof {
        lemma_object_view(members);
        assert(members_view(members@) =~= alias_block()->Object_0);
    }
    Json::Object(members)
}

/// Declares the alias block in a declaration that was read into a tree.
pub fn declare_aliases(tree: Json) -> (r: Json)
    ensures
        r@ == with_alias_block(tree@),
{
    match tree {
        Json::Object(root) => {
            let mut root = root;
            let ghost before = members_view(root@);
            proof {
                lemma_object_view(root);
                lemma_position(before, "compilerOptions"@);
            }
            match find_member(&root, "compilerOptions") {
                Some(i) => {
                    let member = root.remove(i);
                    match member.value {
                        Json::Object(options) => {
                            let mut options = options;
                            let ghost old_options = members_view(options@);
                            proof {
                                lemma_object_view(options);
                            }
                            put_member(&mut options, "paths", block_tree());
                            put_member(&mut options, "baseUrl", Json::text("."));
                            proof {
                                lemma_object_view(options);
                            }
                            root.insert(i, Member { key: member.key, value: Json::Object(options) });
                            proof {
                                lemma_object_view(root);
                                assert(members_view(root@) =~= put(
                                    before,
                                    "compilerOptions"@,
                                    JsonView::Object(
                                        put(
                                            put(old_options, "paths"@, alias_block()),
                                            "baseUrl"@,
                                            JsonView::Text("."@),
                                        ),
                                    ),
                                ));
                            }
                            Json::Object(root)
                        },
                        other => {
                            root.insert(i, Member { key: member.key, value: other });
                            proof {
                                lemma_object_view(root);
                                assert(members_view(root@) =~= before);
                            }
                            Json::Object(root)
                        },
                    }
                },
                None => Json::Object(root),
            }
        },
        other => other,
    }
}

/// Writes the alias block into the text of an alias declaration: the
/// comments are taken out, the rest is read as JSON, the block is declared
/// in the tree, and the tree is written out again.
pub fn write_paths(raw: &str) -> (r: Result<String, TsAliasError>)
    ensures
        match stripped_text(raw@) {
            None => r is Err && r->Err_0 is StripComments,
            Some(clean) => match parsed_text(clean) {
                None => r is Err && r->Err_0 is Json,
                Some(tree) => match rendered_text(with_alias_block(tree)) {
                    None => r is Err && r->Err_0 is Json,
                    Some(text) => r is Ok && r->Ok_0@ == text,
                },
            },
        },
{
    let clean = match strip_text(raw) {
        Ok(clean) => clean,
        Err(cause) => {
            return Err(TsAliasError::StripComments(cause));
        },
    };
    let tree = match read_text(clean.as_str()) {
        Ok(tree) => tree,
        Err(cause) => {
            return Err(TsAliasError::Json(cause));
        },
    };
    let declared = declare_aliases(tree);
    match write_text(&declared) {
        Ok(text) => Ok(text),
        Err(cause) => Err(TsAliasError::Json(cause)),
    }
}

/// The alias block declares the aliases of the block.
proof fn lemma_block_declares()
    ensures
        declared(alias_block()->Object_0) == Some(block_aliases()),
{
    reveal_strlit("@/ui/*");
    reveal_strlit("@/components/*");
    reveal_strlit("@/components");
    reveal_strlit("@/ui");
    reveal_strlit("/*");
    reveal_strlit("src/shared/components/ui/*");
    reveal_strlit("src/shared/components/*");
    reveal_strlit("src/shared/components/ui");
    reveal_strlit("src/shared/components");
    let members = alias_block()->Object_0;
    let ui = members[0];
    let components = members[1];
    assert(is_prefix("@/ui"@, ui.key)) by {
        assert(ui.key.subrange(0, 4) =~= "@/ui"@);
    }
    assert(is_prefix("@/components"@, components.key)) by {
        assert(components.key.subrange(0, 12) =~= "@/components"@);
    }
    assert(trimmed(ui.key) == "@/ui"@) by {
        assert(ui.key.subrange(4, 6) =~= "/*"@);
        assert(ui.key.subrange(0, 4) =~= "@/ui"@);
    }
    assert(trimmed(components.key) == "@/components"@) by {
        assert(components.key.subrange(12, 14) =~= "/*"@);
        assert(components.key.subrange(0, 12) =~= "@/components"@);
    }
    let ui_pattern = "src/shared/components/ui/*"@;
    let components_pattern = "src/shared/components/*"@;
    assert(trimmed(ui_pattern) == "src/shared/components/ui"@) by {
        assert(ui_pattern.subrange(24, 26) =~= "/*"@);
        assert(ui_pattern.subrange(0, 24) =~= "src/shared/components/ui"@);
    }
    assert(trimmed(components_pattern) == "src/shared/components"@) by {
        assert(components_pattern.subrange(21, 23) =~= "/*"@);
        assert(components_pattern.subrange(0, 21) =~= "src/shared/components"@);
    }
    assert(patterns(ui.value->Array_0) =~= seq!["src/shared/components/ui"@]);
    assert(patterns(components.value->Array_0) =~= seq!["src/shared/components"@]);
    assert(well_shaped(members));
    let front = members.drop_last();
    assert(front.drop_last() =~= Seq::<MemberView>::empty());
    assert(front.last() == ui);
    assert(members.last() == components);
    assert(gathered(front.drop_last()) == Map::<Seq<char>, Seq<Seq<char>>>::empty());
    assert(gathered(front) == gathered(front.drop_last()).insert(
        trimmed(ui.key),
        patterns(ui.value->Array_0),
    ));
    assert(gathered(members) == gathered(front).insert(
        trimmed(components.key),
        patterns(components.value->Array_0),
    ));
}

/// Reading back a declaration into which the alias block was written gives
/// the aliases of the block. This is stated of trees: of a declaration
/// whose `compilerOptions` is an object, which is where the block is
/// written.
pub proof fn lemma_declared_aliases_read_back(tree: JsonView)
    requires
        tree is Object,
        lookup(tree->Object_0, "compilerOptions"@) matches Some(options) && options is Object,
    ensures
        alias_table(with_alias_block(tree)) == Some(block_aliases()),
{
    reveal_strlit("paths");
    reveal_strlit("baseUrl");
    let root = tree->Object_0;
    let options = lookup(root, "compilerOptions"@)->0->Object_0;
    let with_paths = put(options, "paths"@, alias_block());
    let new_options = put(with_paths, "baseUrl"@, JsonView::Text("."@));
    crate::json::lemma_put(options, "paths"@, alias_block(), "paths"@);
    crate::json::lemma_put(with_paths, "baseUrl"@, JsonView::Text("."@), "paths"@);
    assert("paths"@ != "baseUrl"@) by {
        assert("paths"@.len() == 5 && "baseUrl"@.len() == 7);
    }
    assert(lookup(new_options, "paths"@) == Some(alias_block()));
    crate::json::lemma_put(
        root,
        "compilerOptions"@,
        JsonView::Object(new_options),
        "compilerOptions"@,
    );
    lemma_block_declares();
}

} // verus!
