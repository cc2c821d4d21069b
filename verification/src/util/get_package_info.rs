//! What `package.json` says of the project, as far as it is read here.

use crate::json::{
    lemma_object_view, optional_text, parsed_text, read_optional_text, read_text,
    Json, JsonView,
};
use crate::text::opt_text;
use vstd::prelude::*;

verus! {

/// Why `package.json` could not be used.
#[derive(Debug)]
pub enum PackageJsonError {
    /// The text is no JSON.
    Json(serde_json::Error),
    /// The text is JSON, but no object, or its `packageManager` is no
    /// text.
    Shape,
}

/// The members of `package.json` that are read here.
#[derive(Debug, Clone, PartialEq)]
pub struct PackageJson {
    /// The package manager that the project declares, with its version,
    /// as in `pnpm@9.1.0`.
    pub package_manager: Option<String>,
}

/// The mathematical value of a [`PackageJson`].
pub struct PackageJsonView {
    pub package_manager: Option<Seq<char>>,
}

impl View for PackageJson {
    type V = PackageJsonView;

    open spec fn view(&self) -> PackageJsonView {
        PackageJsonView { package_manager: opt_text(self.package_manager) }
    }
}

/// What a tree of `package.json` says: an object whose `packageManager` is
/// a text, or is missing or `null`. `None` where the tree is not of that
/// shape.
pub open spec fn package_of(tree: JsonView) -> Option<PackageJsonView> {
    match tree {
        JsonView::Object(members) => match optional_text(members, "packageManager"@) {
            Some(package_manager) => Some(PackageJsonView { package_manager }),
            None => None,
        },
        _ => None,
    }
}

/// Reads `package.json` from its text.
pub fn get_package_info(text: &str) -> (r: Result<PackageJson, PackageJsonError>)
    ensures
        match parsed_text(text@) {
            None => r is Err && r->Err_0 is Json,
            Some(tree) => match package_of(tree) {
                None => r is Err && r->Err_0 is Shape,
                Some(package) => r is Ok && r->Ok_0@ == package,
            },
        },
{
    let tree = match read_text(text) {
        Ok(tree) => tree,
        Err(cause) => {
            return Err(PackageJsonError::Json(cause));
        },
    };
    match &tree {
        Json::Object(members) => {
            proof {
                lemma_object_view(*members);
            }
            match read_optional_text(members, "packageManager") {
                Some(package_manager) => Ok(PackageJson { package_manager }),
                None => Err(PackageJsonError::Shape),
            }
        },
        _ => Err(PackageJsonError::Shape),
    }
}

} // verus!
