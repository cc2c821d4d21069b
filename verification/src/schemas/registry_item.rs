//! A registry item: a named bundle of files with what it depends on.

use crate::json::{
    get_member, items_view as trees_view, lemma_array_view, lemma_object_view, lemma_put_all,
    lemma_texts_read_back, lemma_with_text_all, lemma_with_texts_all, lookup, members_view,
    optional_text, optional_texts, parsed_text, put, put_member, put_text, put_texts,
    read_optional_text, read_optional_texts, read_required_text, read_text, rendered_text,
    required_text, with_text, with_texts, write_text, Json, JsonView, Member, MemberView,
};
use crate::schemas::registry_item_file::{
    copy_files, file_of, file_tree, files_view, kind_of, lemma_file_reads_back, read_kind,
    RegistryItemFile, RegistryItemFileView,
};
use crate::schemas::registry_type::{lemma_tag_table, RegistryType};
use crate::text::{copy_opt_text, copy_opt_texts, opt_text, opt_texts};
use vstd::prelude::*;

verus! {

/// The descriptor of one registry item.
#[derive(Debug, Clone, PartialEq)]
pub struct RegistryItem {
    /// The address of the schema that the descriptor follows.
    pub schema: Option<String>,
    /// The item's name: its key in the registry.
    pub name: String,
    pub item_type: RegistryType,
    pub description: String,
    pub title: String,
    pub author: Option<String>,
    /// Packages that the item needs; they are not resolved here.
    pub dependencies: Option<Vec<String>>,
    pub dev_dependencies: Option<Vec<String>>,
    /// Names of the registry items that this one needs.
    pub registry_dependencies: Option<Vec<String>>,
    pub files: Vec<RegistryItemFile>,
}

/// The mathematical value of a [`RegistryItem`].
pub struct RegistryItemView {
    pub schema: Option<Seq<char>>,
    pub name: Seq<char>,
    pub item_type: RegistryType,
    pub description: Seq<char>,
    pub title: Seq<char>,
    pub author: Option<Seq<char>>,
    pub dependencies: Option<Seq<Seq<char>>>,
    pub dev_dependencies: Option<Seq<Seq<char>>>,
    pub registry_dependencies: Option<Seq<Seq<char>>>,
    pub files: Seq<RegistryItemFileView>,
}

impl View for RegistryItem {
    type V = RegistryItemView;

    open spec fn view(&self) -> RegistryItemView {
        RegistryItemView {
            schema: opt_text(self.schema),
            name: self.name@,
            item_type: self.item_type,
            description: self.description@,
            title: self.title@,
            author: opt_text(self.author),
            dependencies: opt_texts(self.dependencies),
            dev_dependencies: opt_texts(self.dev_dependencies),
            registry_dependencies: opt_texts(self.registry_dependencies),
            files: files_view(self.files@),
        }
    }
}

/// Why a text could not be read as a descriptor, or a descriptor not
/// written as a text.
#[derive(Debug)]
pub enum DescriptorError {
    /// The text is no JSON, or the descriptor could not be written as
    /// JSON.
    Json(serde_json::Error),
    /// The text is JSON, but describes no item.
    Shape,
}

/// The views of a list of items, in order.
pub open spec fn items_view(items: Seq<RegistryItem>) -> Seq<RegistryItemView> {
    Seq::new(items.len(), |i: int| items[i]@)
}

impl RegistryItemView {
    /// The names of the registry items that the item needs; none where the
    /// descriptor lists none.
    pub open spec fn needs(self) -> Seq<Seq<char>> {
        match self.registry_dependencies {
            Some(names) => names,
            None => Seq::empty(),
        }
    }
}

impl RegistryItem {
    /// A copy of the item.
    pub fn duplicate(&self) -> (r: RegistryItem)
        ensures
            r@ == self@,
    {
        RegistryItem {
            schema: copy_opt_text(&self.schema),
            name: self.name.clone(),
            item_type: self.item_type,
            description: self.description.clone(),
            title: self.title.clone(),
            author: copy_opt_text(&self.author),
            dependencies: copy_opt_texts(&self.dependencies),
            dev_dependencies: copy_opt_texts(&self.dev_dependencies),
            registry_dependencies: copy_opt_texts(&self.registry_dependencies),
            files: copy_files(&self.files),
        }
    }
}

/// The tree that is written for a list of files.
pub open spec fn files_tree(files: Seq<RegistryItemFileView>) -> JsonView {
    JsonView::Array(Seq::new(files.len(), |i: int| file_tree(files[i])))
}

/// Every tree of the list describes a file.
pub open spec fn all_files(trees: Seq<JsonView>) -> bool {
    forall|i: int| 0 <= i < trees.len() ==> file_of(#[trigger] trees[i]) is Some
}

/// The files that a list of trees describes.
pub open spec fn files_of(trees: Seq<JsonView>) -> Seq<RegistryItemFileView> {
    Seq::new(trees.len(), |i: int| file_of(trees[i])->0)
}

/// The files that an object states under `files`: a list of trees that
/// each describe a file.
pub open spec fn required_files(members: Seq<MemberView>) -> Option<Seq<RegistryItemFileView>> {
    match lookup(members, "files"@) {
        Some(JsonView::Array(trees)) => if all_files(trees) {
            Some(files_of(trees))
        } else {
            None
        },
        _ => None,
    }
}

/// The members that are written for an item. What the item does not have
/// is not written.
pub open spec fn item_members(item: RegistryItemView) -> Seq<MemberView> {
    let m1 = with_text(Seq::empty(), "$schema"@, item.schema);
    let m2 = put(m1, "name"@, JsonView::Text(item.name));
    let m3 = put(m2, "type"@, JsonView::Text(item.item_type.tag()));
    let m4 = put(m3, "description"@, JsonView::Text(item.description));
    let m5 = put(m4, "title"@, JsonView::Text(item.title));
    let m6 = with_text(m5, "author"@, item.author);
    let m7 = with_texts(m6, "dependencies"@, item.dependencies);
    let m8 = with_texts(m7, "devDependencies"@, item.dev_dependencies);
    let m9 = with_texts(m8, "registryDependencies"@, item.registry_dependencies);
    put(m9, "files"@, files_tree(item.files))
}

/// The tree that is written for an item.
pub open spec fn item_tree(item: RegistryItemView) -> JsonView {
    JsonView::Object(item_members(item))
}

/// The item that a tree describes: an object with the texts `name`,
/// `description` and `title`, a tag `type`, and a list `files` of files;
/// `$schema` and `author` are texts, and `dependencies`, `devDependencies`
/// and `registryDependencies` lists of texts, where they are there, and
/// absent where they are missing or `null`. Members of other names are
/// passed over. `None` where the tree is not of that shape.
pub open spec fn item_of(tree: JsonView) -> Option<RegistryItemView> {
    match tree {
        JsonView::Object(members) => {
            let schema = optional_text(members, "$schema"@);
            let name = required_text(members, "name"@);
            let item_type = kind_of(members);
            let description = required_text(members, "description"@);
            let title = required_text(members, "title"@);
            let author = optional_text(members, "author"@);
            let dependencies = optional_texts(members, "dependencies"@);
            let dev_dependencies = optional_texts(members, "devDependencies"@);
            let registry_dependencies = optional_texts(members, "registryDependencies"@);
            let files = required_files(members);
            if schema is Some && name is Some && item_type is Some && description is Some
                && title is Some && author is Some && dependencies is Some
                && dev_dependencies is Some && registry_dependencies is Some && files is Some {
                Some(
                    RegistryItemView {
                        schema: schema->0,
                        name: name->0,
                        item_type: item_type->0,
                        description: description->0,
                        title: title->0,
                        author: author->0,
                        dependencies: dependencies->0,
                        dev_dependencies: dev_dependencies->0,
                        registry_dependencies: registry_dependencies->0,
                        files: files->0,
                    },
                )
            } else {
                None
            }
        },
        _ => None,
    }
}

/// The tree that is written for a list of files.
pub fn write_files(files: &Vec<RegistryItemFile>) -> (r: Json)
    ensures
        r@ == files_tree(files_view(files@)),
{
    let mut trees: Vec<Json> = Vec::new();
    let mut i: usize = 0;
    while i < files.len()
        invariant
            i <= files.len(),
            trees@.len() == i,
            forall|j: int| 0 <= j < i ==> trees@[j]@ == file_tree(files@[j]@),
        decreases files.len() - i,
    {
        trees.push(files[i].to_tree());
        i = i + 1;
    }
    proof {
        lemma_array_view(trees);
        assert(trees_view(trees@) =~= files_tree(files_view(files@))->Array_0);
    }
    Json::Array(trees)
}

/// Reads the files that an object states under `files`.
pub fn read_files(members: &Vec<Member>) -> (r: Option<Vec<RegistryItemFile>>)
    ensures
        match r {
            Some(files) => required_files(members_view(members@)) == Some(files_view(files@)),
            None => required_files(members_view(members@)) is None,
        },
{
    match get_member(members, "files") {
        Some(Json::Array(trees)) => {
            proof {
                lemma_array_view(*trees);
            }
            let ghost model = trees_view(trees@);
            let mut files: Vec<RegistryItemFile> = Vec::new();
            let mut i: usize = 0;
            while i < trees.len()
                invariant
                    i <= trees.len(),
                    files@.len() == i,
                    model == trees_view(trees@),
                    lookup(members_view(members@), "files"@) == Some(JsonView::Array(model)),
                    forall|j: int| 0 <= j < i ==> file_of(#[trigger] model[j]) == Some(files@[j]@),
                decreases trees.len() - i,
            {
                match RegistryItemFile::from_tree(&trees[i]) {
                    Some(file) => {
                        files.push(file);
                    },
                    None => {
                        assert(file_of(model[i as int]) is None);
                        return None;
                    },
                }
                i = i + 1;
            }
            assert(files_view(files@) =~= files_of(model));
            Some(files)
        },
        _ => None,
    }
}

impl RegistryItem {
    /// The tree that is written for the item.
    pub fn to_tree(&self) -> (r: Json)
        ensures
            r@ == item_tree(self@),
    {
        let mut members: Vec<Member> = Vec::new();
        assert(members_view(members@) =~= Seq::<MemberView>::empty());
        put_text(&mut members, "$schema", &self.schema);
        put_member(&mut members, "name", Json::Text(self.name.clone()));
        put_member(&mut members, "type", Json::text(self.item_type.as_str()));
        put_member(&mut members, "description", Json::Text(self.description.clone()));
        put_member(&mut members, "title", Json::Text(self.title.clone()));
        put_text(&mut members, "author", &self.author);
        put_texts(&mut members, "dependencies", &self.dependencies);
        put_texts(&mut members, "devDependencies", &self.dev_dependencies);
        put_texts(&mut members, "registryDependencies", &self.registry_dependencies);
        put_member(&mut members, "files", write_files(&self.files));
        proof {
            lemma_object_view(members);
        }
        Json::Object(members)
    }

    /// The descriptor as a JSON text.
    pub fn to_text(&self) -> (r: Result<String, DescriptorError>)
        ensures
            match rendered_text(item_tree(self@)) {
                Some(text) => r is Ok && r->Ok_0@ == text,
                None => r is Err && r->Err_0 is Json,
            },
    {
        match write_text(&self.to_tree()) {
            Ok(text) => Ok(text),
            Err(cause) => Err(DescriptorError::Json(cause)),
        }
    }

    /// Reads a descriptor from a JSON text.
    pub fn from_text(text: &str) -> (r: Result<RegistryItem, DescriptorError>)
        ensures
            match parsed_text(text@) {
                None => r is Err && r->Err_0 is Json,
                Some(tree) => match item_of(tree) {
                    None => r is Err && r->Err_0 is Shape,
                    Some(item) => r is Ok && r->Ok_0@ == item,
                },
            },
    {
        let tree = match read_text(text) {
            Ok(tree) => tree,
            Err(cause) => {
                return Err(DescriptorError::Json(cause));
            },
        };
        match RegistryItem::from_tree(&tree) {
            Some(item) => Ok(item),
            None => Err(DescriptorError::Shape),
        }
    }

    /// Reads an item from a tree.
    pub fn from_tree(tree: &Json) -> (r: Option<RegistryItem>)
        ensures
            match r {
                Some(item) => item_of(tree@) == Some(item@),
                None => item_of(tree@) is None,
            },
    {
        match tree {
            Json::Object(members) => {
                proof {
                    lemma_object_view(*members);
                }
                let schema = match read_optional_text(members, "$schema") {
                    Some(v) => v,
                    None => {
                        return None;
                    },
                };
                let name = match read_required_text(members, "name") {
                    Some(v) => v,
                    None => {
                        return None;
                    },
                };
                let item_type = match read_kind(members) {
                    Some(v) => v,
                    None => {
                        return None;
                    },
                };
                let description = match read_required_text(members, "description") {
                    Some(v) => v,
                    None => {
                        return None;
                    },
                };
                let title = match read_required_text(members, "title") {
                    Some(v) => v,
                    None => {
                        return None;
                    },
                };
                let author = match read_optional_text(members, "author") {
                    Some(v) => v,
                    None => {
                        return None;
                    },
                };
                let dependencies = match read_optional_texts(members, "dependencies") {
                    Some(v) => v,
                    None => {
                        return None;
                    },
                };
                let dev_dependencies = match read_optional_texts(members, "devDependencies") {
                    Some(v) => v,
                    None => {
                        return None;
                    },
                };
                let registry_dependencies = match read_optional_texts(
                    members,
                    "registryDependencies",
                ) {
                    Some(v) => v,
                    None => {
                        return None;
                    },
                };
                let files = match read_files(members) {
                    Some(v) => v,
                    None => {
                        return None;
                    },
                };
                Some(
                    RegistryItem {
                        schema,
                        name,
                        item_type,
                        description,
                        title,
                        author,
                        dependencies,
                        dev_dependencies,
                        registry_dependencies,
                        files,
                    },
                )
            },
            _ => None,
        }
    }
}

/// What each member of a written item holds.
pub proof fn lemma_item_members(item: RegistryItemView)
    ensures
        lookup(item_members(item), "name"@) == Some(JsonView::Text(item.name)),
        lookup(item_members(item), "type"@) == Some(JsonView::Text(item.item_type.tag())),
        lookup(item_members(item), "description"@) == Some(JsonView::Text(item.description)),
        lookup(item_members(item), "title"@) == Some(JsonView::Text(item.title)),
        lookup(item_members(item), "files"@) == Some(files_tree(item.files)),
        lookup(item_members(item), "$schema"@) == match item.schema {
            Some(t) => Some(JsonView::Text(t)),
            None => None,
        },
        lookup(item_members(item), "author"@) == match item.author {
            Some(t) => Some(JsonView::Text(t)),
            None => None,
        },
        lookup(item_members(item), "dependencies"@) == match item.dependencies {
            Some(l) => Some(crate::json::texts_tree(l)),
            None => None,
        },
        lookup(item_members(item), "devDependencies"@) == match item.dev_dependencies {
            Some(l) => Some(crate::json::texts_tree(l)),
            None => None,
        },
        lookup(item_members(item), "registryDependencies"@) == match item.registry_dependencies {
            Some(l) => Some(crate::json::texts_tree(l)),
            None => None,
        },
{
    reveal_strlit("$schema");
    reveal_strlit("name");
    reveal_strlit("type");
    reveal_strlit("description");
    reveal_strlit("title");
    reveal_strlit("author");
    reveal_strlit("dependencies");
    reveal_strlit("devDependencies");
    reveal_strlit("registryDependencies");
    reveal_strlit("files");
    assert("$schema"@.len() == 7 && "name"@.len() == 4 && "type"@.len() == 4);
    assert("description"@.len() == 11 && "title"@.len() == 5 && "author"@.len() == 6);
    assert("dependencies"@.len() == 12 && "devDependencies"@.len() == 15);
    assert("registryDependencies"@.len() == 20 && "files"@.len() == 5);
    assert("name"@[0] == 'n' && "type"@[0] == 't');
    assert("title"@[0] == 't' && "files"@[0] == 'f');
    let m0 = Seq::<MemberView>::empty();
    let m1 = with_text(m0, "$schema"@, item.schema);
    let m2 = put(m1, "name"@, JsonView::Text(item.name));
    let m3 = put(m2, "type"@, JsonView::Text(item.item_type.tag()));
    let m4 = put(m3, "description"@, JsonView::Text(item.description));
    let m5 = put(m4, "title"@, JsonView::Text(item.title));
    let m6 = with_text(m5, "author"@, item.author);
    let m7 = with_texts(m6, "dependencies"@, item.dependencies);
    let m8 = with_texts(m7, "devDependencies"@, item.dev_dependencies);
    let m9 = with_texts(m8, "registryDependencies"@, item.registry_dependencies);
    lemma_with_text_all(m0, "$schema"@, item.schema);
    lemma_put_all(m1, "name"@, JsonView::Text(item.name));
    lemma_put_all(m2, "type"@, JsonView::Text(item.item_type.tag()));
    lemma_put_all(m3, "description"@, JsonView::Text(item.description));
    lemma_put_all(m4, "title"@, JsonView::Text(item.title));
    lemma_with_text_all(m5, "author"@, item.author);
    lemma_with_texts_all(m6, "dependencies"@, item.dependencies);
    lemma_with_texts_all(m7, "devDependencies"@, item.dev_dependencies);
    lemma_with_texts_all(m8, "registryDependencies"@, item.registry_dependencies);
    lemma_put_all(m9, "files"@, files_tree(item.files));
    assert(lookup(m0, "$schema"@) is None);
    assert(lookup(m0, "author"@) is None);
    assert(lookup(m0, "dependencies"@) is None);
    assert(lookup(m0, "devDependencies"@) is None);
    assert(lookup(m0, "registryDependencies"@) is None);
}

/// An item that was written as a tree reads back as itself.
pub proof fn lemma_item_reads_back(item: RegistryItemView)
    ensures
        item_of(item_tree(item)) == Some(item),
{
    lemma_item_members(item);
    lemma_tag_table(item.item_type, item.item_type.tag());
    if item.dependencies is Some {
        lemma_texts_read_back(item.dependencies->0);
    }
    if item.dev_dependencies is Some {
        lemma_texts_read_back(item.dev_dependencies->0);
    }
    if item.registry_dependencies is Some {
        lemma_texts_read_back(item.registry_dependencies->0);
    }
    let trees = files_tree(item.files)->Array_0;
    assert forall|i: int| 0 <= i < trees.len() implies file_of(#[trigger] trees[i]) == Some(
        item.files[i],
    ) by {
        lemma_file_reads_back(item.files[i]);
    }
    assert(files_of(trees) =~= item.files);
    let members = item_members(item);
    assert(required_files(members) == Some(item.files));
    assert(optional_text(members, "$schema"@) == Some(item.schema));
    assert(optional_text(members, "author"@) == Some(item.author));
    assert(optional_texts(members, "dependencies"@) == Some(item.dependencies));
    assert(optional_texts(members, "devDependencies"@) == Some(item.dev_dependencies));
    assert(optional_texts(members, "registryDependencies"@) == Some(item.registry_dependencies));
}

/// What an item does not have is not written: neither as a member without
/// a value nor as `null`.
pub proof fn lemma_absent_is_left_out(item: RegistryItemView)
    ensures
        item.schema is None ==> lookup(item_members(item), "$schema"@) is None,
        item.author is None ==> lookup(item_members(item), "author"@) is None,
        item.dependencies is None ==> lookup(item_members(item), "dependencies"@) is None,
        item.dev_dependencies is None ==> lookup(item_members(item), "devDependencies"@) is None,
        item.registry_dependencies is None ==> lookup(
            item_members(item),
            "registryDependencies"@,
        ) is None,
{
    lemma_item_members(item);
}

} // verus!
