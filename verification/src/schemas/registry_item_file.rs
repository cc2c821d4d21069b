//! One file of a registry item.

use crate::json::{
    lemma_object_view, lemma_put_all, lemma_with_text_all, lookup, members_view, optional_text,
    put, put_member, put_text, read_optional_text, read_required_text, required_text, with_text,
    Json, JsonView, Member, MemberView,
};
use crate::schemas::registry_type::{lemma_tag_table, RegistryType};
use crate::text::{copy_opt_text, opt_text};
use vstd::prelude::*;

verus! {

/// A file that belongs to a registry item.
#[derive(Debug, Clone, PartialEq)]
pub struct RegistryItemFile {
    /// Where the file lies in the registry's sources.
    pub path: String,
    /// What the file holds; absent in a descriptor that was not built yet.
    pub content: Option<String>,
    pub item_type: RegistryType,
    pub target: Option<String>,
    pub extends: Option<String>,
}

/// The mathematical value of a [`RegistryItemFile`].
pub struct RegistryItemFileView {
    pub path: Seq<char>,
    pub content: Option<Seq<char>>,
    pub item_type: RegistryType,
    pub target: Option<Seq<char>>,
    pub extends: Option<Seq<char>>,
}

impl View for RegistryItemFile {
    type V = RegistryItemFileView;

    open spec fn view(&self) -> RegistryItemFileView {
        RegistryItemFileView {
            path: self.path@,
            content: opt_text(self.content),
            item_type: self.item_type,
            target: opt_text(self.target),
            extends: opt_text(self.extends),
        }
    }
}

/// The views of a list of files, in order.
pub open spec fn files_view(files: Seq<RegistryItemFile>) -> Seq<RegistryItemFileView> {
    Seq::new(files.len(), |i: int| files[i]@)
}

impl RegistryItemFile {
    /// A copy of the file.
    pub fn duplicate(&self) -> (r: RegistryItemFile)
        ensures
            r@ == self@,
    {
        RegistryItemFile {
            path: self.path.clone(),
            content: copy_opt_text(&self.content),
            item_type: self.item_type,
            target: copy_opt_text(&self.target),
            extends: copy_opt_text(&self.extends),
        }
    }
}

/// A copy of a list of files.
pub fn copy_files(files: &Vec<RegistryItemFile>) -> (r: Vec<RegistryItemFile>)
    ensures
        files_view(r@) == files_view(files@),
{
    let mut r: Vec<RegistryItemFile> = Vec::new();
    let mut i: usize = 0;
    while i < files.len()
        invariant
            i <= files.len(),
            r@.len() == i,
            forall|j: int| 0 <= j < i ==> r@[j]@ == files@[j]@,
        decreases files.len() - i,
    {
        r.push(files[i].duplicate());
        i = i + 1;
    }
    assert(files_view(r@) =~= files_view(files@));
    r
}

/// The members that are written for a file: its path, its content where
/// it has one, its kind by its tag, and its target and what it extends
/// where it has them.
pub open spec fn file_members(file: RegistryItemFileView) -> Seq<MemberView> {
    with_text(
        with_text(
            put(
                with_text(
                    put(Seq::empty(), "path"@, JsonView::Text(file.path)),
                    "content"@,
                    file.content,
                ),
                "type"@,
                JsonView::Text(file.item_type.tag()),
            ),
            "target"@,
            file.target,
        ),
        "extends"@,
        file.extends,
    )
}

/// The tree that is written for a file.
pub open spec fn file_tree(file: RegistryItemFileView) -> JsonView {
    JsonView::Object(file_members(file))
}

/// The kind that an object states under `type`.
pub open spec fn kind_of(members: Seq<MemberView>) -> Option<RegistryType> {
    match required_text(members, "type"@) {
        Some(tag) => RegistryType::of_tag(tag),
        None => None,
    }
}

/// The file that a tree describes: an object with a text `path` and a tag
/// `type`; `content`, `target` and `extends` are texts where they are
/// there, and absent where they are missing or `null`. Members of other
/// names are passed over. `None` where the tree is not of that shape.
pub open spec fn file_of(tree: JsonView) -> Option<RegistryItemFileView> {
    match tree {
        JsonView::Object(members) => match (
            required_text(members, "path"@),
            optional_text(members, "content"@),
            kind_of(members),
            optional_text(members, "target"@),
            optional_text(members, "extends"@),
        ) {
            (Some(path), Some(content), Some(item_type), Some(target), Some(extends)) => Some(
                RegistryItemFileView { path, content, item_type, target, extends },
            ),
            _ => None,
        },
        _ => None,
    }
}

/// Reads the kind that an object states under `type`.
pub fn read_kind(members: &Vec<Member>) -> (r: Option<RegistryType>)
    ensures
        r == kind_of(members_view(members@)),
{
    match read_required_text(members, "type") {
        Some(tag) => RegistryType::from_tag(tag.as_str()),
        None => None,
    }
}

impl RegistryItemFile {
    /// The tree that is written for the file.
    pub fn to_tree(&self) -> (r: Json)
        ensures
            r@ == file_tree(self@),
    {
        let mut members: Vec<Member> = Vec::new();
        assert(members_view(members@) =~= Seq::<MemberView>::empty());
        put_member(&mut members, "path", Json::Text(self.path.clone()));
        put_text(&mut members, "content", &self.content);
        put_member(&mut members, "type", Json::text(self.item_type.as_str()));
        put_text(&mut members, "target", &self.target);
        put_text(&mut members, "extends", &self.extends);
        proof {
            lemma_object_view(members);
        }
        Json::Object(members)
    }

    /// Reads a file from a tree.
    pub fn from_tree(tree: &Json) -> (r: Option<RegistryItemFile>)
        ensures
            match r {
                Some(file) => file_of(tree@) == Some(file@),
                None => file_of(tree@) is None,
            },
    {
        match tree {
            Json::Object(members) => {
                proof {
                    lemma_object_view(*members);
                }
                let path = match read_required_text(members, "path") {
                    Some(v) => v,
                    None => {
                        return None;
                    },
                };
                let content = match read_optional_text(members, "content") {
                    Some(v) => v,
                    None => {
                        return None;
                    },
                };
                let item_type = match read_kind(members) {
                    Some(v) => v,
                    None => {
                        return None;
                    },
                };
                let target = match read_optional_text(members, "target") {
                    Some(v) => v,
                    None => {
                        return None;
                    },
                };
                let extends = match read_optional_text(members, "extends") {
                    Some(v) => v,
                    None => {
                        return None;
                    },
                };
                Some(RegistryItemFile { path, content, item_type, target, extends })
            },
            _ => None,
        }
    }
}

/// The names of the members of a file differ from each other.
proof fn lemma_file_keys()
    ensures
        "path"@ != "content"@,
        "path"@ != "type"@,
        "path"@ != "target"@,
        "path"@ != "extends"@,
        "content"@ != "type"@,
        "content"@ != "target"@,
        "content"@ != "extends"@,
        "type"@ != "target"@,
        "type"@ != "extends"@,
        "target"@ != "extends"@,
{
    reveal_strlit("path");
    reveal_strlit("content");
    reveal_strlit("type");
    reveal_strlit("target");
    reveal_strlit("extends");
    assert("path"@.len() == 4 && "type"@.len() == 4 && "target"@.len() == 6);
    assert("content"@.len() == 7 && "extends"@.len() == 7);
    assert("path"@[0] == 'p' && "type"@[0] == 't');
    assert("content"@[0] == 'c' && "extends"@[0] == 'e');
}

/// What each member of a written file holds.
pub proof fn lemma_file_members(file: RegistryItemFileView)
    ensures
        lookup(file_members(file), "path"@) == Some(JsonView::Text(file.path)),
        lookup(file_members(file), "type"@) == Some(JsonView::Text(file.item_type.tag())),
        lookup(file_members(file), "content"@) == match file.content {
            Some(t) => Some(JsonView::Text(t)),
            None => None,
        },
        lookup(file_members(file), "target"@) == match file.target {
            Some(t) => Some(JsonView::Text(t)),
            None => None,
        },
        lookup(file_members(file), "extends"@) == match file.extends {
            Some(t) => Some(JsonView::Text(t)),
            None => None,
        },
{
    lemma_file_keys();
    let m0 = Seq::<MemberView>::empty();
    let m1 = put(m0, "path"@, JsonView::Text(file.path));
    let m2 = with_text(m1, "content"@, file.content);
    let m3 = put(m2, "type"@, JsonView::Text(file.item_type.tag()));
    let m4 = with_text(m3, "target"@, file.target);
    lemma_put_all(m0, "path"@, JsonView::Text(file.path));
    lemma_with_text_all(m1, "content"@, file.content);
    lemma_put_all(m2, "type"@, JsonView::Text(file.item_type.tag()));
    lemma_with_text_all(m3, "target"@, file.target);
    lemma_with_text_all(m4, "extends"@, file.extends);
    assert(lookup(m0, "content"@) is None);
    assert(lookup(m0, "target"@) is None);
    assert(lookup(m0, "extends"@) is None);
}

/// A file that was written as a tree reads back as itself; what the file
/// does not have is not written.
pub proof fn lemma_file_reads_back(file: RegistryItemFileView)
    ensures
        file_of(file_tree(file)) == Some(file),
        file.content is None ==> lookup(file_members(file), "content"@) is None,
        file.target is None ==> lookup(file_members(file), "target"@) is None,
        file.extends is None ==> lookup(file_members(file), "extends"@) is None,
{
    lemma_file_members(file);
    lemma_tag_table(file.item_type, file.item_type.tag());
}

} // verus!
