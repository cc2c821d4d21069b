//! Building a registry: each item of the registry file is written out as a
//! descriptor of its own, with the contents of its files in it.

use crate::json::{parsed_text, read_text, rendered_text, write_text};
use crate::paths::{join, joined};
use crate::preflights::building::PreflightError;
use crate::schemas::registry::{registry_of, Registry};
use crate::schemas::registry_item::{item_tree, RegistryItem, RegistryItemView};
use crate::schemas::registry_item_file::{RegistryItemFile, RegistryItemFileView};
use vstd::prelude::*;
use vstd::string::*;

verus! {

/// Why a registry could not be built.
#[derive(Debug)]
pub enum BuildError {
    PreflightError(PreflightError),
    IoError(std::io::Error),
    /// The registry file is no JSON text, or a descriptor could not be
    /// written as one.
    JsonError(serde_json::Error),
    /// The registry file is JSON, but describes no registry.
    Malformed,
    /// There are not as many contents as the item has files.
    SourcesMismatch,
}

/// What the build command was asked to do.
#[derive(Debug, Clone, PartialEq)]
pub struct BuildSchema {
    pub cwd: String,
    pub registry: String,
    pub output: String,
}

/// A descriptor to write: where, and what.
#[derive(Debug, Clone, PartialEq)]
pub struct Built {
    pub path: String,
    pub text: String,
}

/// The schema that a built descriptor names.
pub open spec fn schema_address() -> Seq<char> {
    "https://lumina-ui.com/schema/registry-item.json"@
}

/// Reads the registry from the text of the registry file.
pub fn read_registry(text: &str) -> (r: Result<Registry, BuildError>)
    ensures
        match parsed_text(text@) {
            None => r is Err && r->Err_0 is JsonError,
            Some(tree) => match registry_of(tree) {
                None => r is Err && r->Err_0 is Malformed,
                Some(registry) => r is Ok && r->Ok_0@ == registry,
            },
        },
{
    let tree = match read_text(text) {
        Ok(tree) => tree,
        Err(cause) => {
            return Err(BuildError::JsonError(cause));
        },
    };
    match Registry::from_tree(&tree) {
        Some(registry) => Ok(registry),
        None => Err(BuildError::Malformed),
    }
}

/// The paths of the files of an item, each taken from `cwd`, in order.
pub fn source_paths(item: &RegistryItem, cwd: &str) -> (r: Vec<String>)
    ensures
        r@.len() == item.files@.len(),
        forall|i: int| 0 <= i < r@.len() ==> r@[i]@ == joined(cwd@, item.files@[i].path@),
{
    let mut out: Vec<String> = Vec::new();
    let mut i: usize = 0;
    while i < item.files.len()
        invariant
            i <= item.files.len(),
            out@.len() == i,
            forall|j: int| 0 <= j < i ==> out@[j]@ == joined(cwd@, item.files@[j].path@),
        decreases item.files.len() - i,
    {
        out.push(join(cwd, item.files[i].path.as_str()));
        i = i + 1;
    }
    out
}

/// The files with the contents `contents`, file by file.
pub open spec fn filled(
    files: Seq<RegistryItemFileView>,
    contents: Seq<Seq<char>>,
) -> Seq<RegistryItemFileView> {
    Seq::new(
        files.len(),
        |i: int|
            RegistryItemFileView {
                path: files[i].path,
                content: Some(contents[i]),
                item_type: files[i].item_type,
                target: files[i].target,
                extends: files[i].extends,
            },
    )
}

/// The item as it is built: it names the schema, and its files hold the
/// contents.
pub open spec fn built_item(item: RegistryItemView, contents: Seq<Seq<char>>) -> RegistryItemView {
    RegistryItemView {
        schema: Some(schema_address()),
        name: item.name,
        item_type: item.item_type,
        description: item.description,
        title: item.title,
        author: item.author,
        dependencies: item.dependencies,
        dev_dependencies: item.dev_dependencies,
        registry_dependencies: item.registry_dependencies,
        files: filled(item.files, contents),
    }
}

/// Where the descriptor of the item `name` is written: `name.json` in the
/// output directory.
pub open spec fn descriptor_path(output: Seq<char>, name: Seq<char>) -> Seq<char> {
    joined(output, name + ".json"@)
}

/// Builds the descriptor of one item from the contents of its files, which
/// come in the order of the files.
pub fn build_item(item: RegistryItem, contents: Vec<String>, output: &str) -> (r: Result<
    Built,
    BuildError,
>)
    ensures
        contents@.len() != item.files@.len() ==> r is Err && r->Err_0 is SourcesMismatch,
        contents@.len() == item.files@.len() ==> match rendered_text(
            item_tree(built_item(item@, crate::text::texts(contents@))),
        ) {
            None => r is Err && r->Err_0 is JsonError,
            Some(text) => r is Ok && r->Ok_0.text@ == text && r->Ok_0.path@ == descriptor_path(
                output@,
                item@.name,
            ),
        },
{
    if contents.len() != item.files.len() {
        return Err(BuildError::SourcesMismatch);
    }
    let ghost before = item@;
    let ghost texts = crate::text::texts(contents@);
    let mut files: Vec<RegistryItemFile> = Vec::new();
    let mut i: usize = 0;
    while i < item.files.len()
        invariant
            i <= item.files.len(),
            contents@.len() == item.files@.len(),
            files@.len() == i,
            before == item@,
            texts == crate::text::texts(contents@),
            forall|j: int| 0 <= j < i ==> files@[j]@ == filled(before.files, texts)[j],
        decreases item.files.len() - i,
    {
        let file = &item.files[i];
        files.push(
            RegistryItemFile {
                path: file.path.clone(),
                content: Some(contents[i].clone()),
                item_type: file.item_type,
                target: crate::text::copy_opt_text(&file.target),
                extends: crate::text::copy_opt_text(&file.extends),
            },
        );
        i = i + 1;
    }
    let mut file_name: String = item.name.clone();
    file_name.append(".json");
    let path = join(output, file_name.as_str());
    let built = RegistryItem {
        schema: Some("https://lumina-ui.com/schema/registry-item.json".to_owned()),
        name: item.name,
        item_type: item.item_type,
        description: item.description,
        title: item.title,
        author: item.author,
        dependencies: item.dependencies,
        dev_dependencies: item.dev_dependencies,
        registry_dependencies: item.registry_dependencies,
        files,
    };
    proof {
        assert(built@.files =~= filled(before.files, texts));
        assert(built@ == built_item(before, texts));
    }
    match write_text(&built.to_tree()) {
        Ok(text) => Ok(Built { path, text }),
        Err(cause) => Err(BuildError::JsonError(cause)),
    }
}

/// Where the registry file itself is copied to: `registry.json` in the
/// output directory.
pub fn registry_copy_path(output: &str) -> (r: String)
    ensures
        r@ == joined(output@, "registry.json"@),
{
    join(output, "registry.json")
}

} // verus!
