//! The scaffold of a project that is set up from the built-in defaults:
//! where its directories lie.

use crate::json::{
    lemma_object_view, parsed_text, read_required_text, read_text, required_text,
    Json, JsonView,
};
use crate::text::{replace_each, replaced};
use vstd::prelude::*;

verus! {

/// Why a scaffold could not be read.
#[derive(Debug)]
pub enum ScaffoldError {
    /// The text is no JSON.
    Json(serde_json::Error),
    /// The text is JSON, but describes no scaffold.
    Shape,
}

/// Where the parts of a project lie. The directories of the components
/// and of the library are stated with the base directory in them.
#[derive(Debug, Clone, PartialEq)]
pub struct Scaffold {
    pub base_dir: String,
    pub components_dir: String,
    pub lib_dir: String,
    pub registry: String,
    pub templates: String,
}

/// The mathematical value of a [`Scaffold`].
pub struct ScaffoldView {
    pub base_dir: Seq<char>,
    pub components_dir: Seq<char>,
    pub lib_dir: Seq<char>,
    pub registry: Seq<char>,
    pub templates: Seq<char>,
}

impl View for Scaffold {
    type V = ScaffoldView;

    open spec fn view(&self) -> ScaffoldView {
        ScaffoldView {
            base_dir: self.base_dir@,
            components_dir: self.components_dir@,
            lib_dir: self.lib_dir@,
            registry: self.registry@,
            templates: self.templates@,
        }
    }
}

/// A directory as it is stated, with the base directory in the place of
/// each `{baseDir}`.
pub open spec fn based(stated: Seq<char>, base_dir: Seq<char>) -> Seq<char> {
    replaced(stated, "{baseDir}"@, base_dir)
}

/// The scaffold that a tree describes: an object with the texts `baseDir`,
/// `componentsDir`, `libDir`, `registry` and `templates`. `None` where the
/// tree is not of that shape.
pub open spec fn scaffold_of(tree: JsonView) -> Option<ScaffoldView> {
    match tree {
        JsonView::Object(members) => match (
            required_text(members, "baseDir"@),
            required_text(members, "componentsDir"@),
            required_text(members, "libDir"@),
            required_text(members, "registry"@),
            required_text(members, "templates"@),
        ) {
            (Some(base_dir), Some(components), Some(lib), Some(registry), Some(templates)) => Some(
                ScaffoldView {
                    base_dir,
                    components_dir: based(components, base_dir),
                    lib_dir: based(lib, base_dir),
                    registry,
                    templates,
                },
            ),
            _ => None,
        },
        _ => None,
    }
}

impl Scaffold {
    /// Reads a scaffold from a tree.
    pub fn from_tree(tree: &Json) -> (r: Option<Scaffold>)
        ensures
            match r {
                Some(scaffold) => scaffold_of(tree@) == Some(scaffold@),
                None => scaffold_of(tree@) is None,
            },
    {
        match tree {
            Json::Object(members) => {
                proof {
                    lemma_object_view(*members);
                }
                let base_dir = match read_required_text(members, "baseDir") {
                    Some(v) => v,
                    None => {
                        return None;
                    },
                };
                let components = match read_required_text(members, "componentsDir") {
                    Some(v) => v,
                    None => {
                        return None;
                    },
                };
                let lib = match read_required_text(members, "libDir") {
                    Some(v) => v,
                    None => {
                        return None;
                    },
                };
                let registry = match read_required_text(members, "registry") {
                    Some(v) => v,
                    None => {
                        return None;
                    },
                };
                let templates = match read_required_text(members, "templates") {
                    Some(v) => v,
                    None => {
                        return None;
                    },
                };
                let components_dir = replace_each(
                    components.as_str(),
                    "{baseDir}",
                    base_dir.as_str(),
                );
                let lib_dir = replace_each(lib.as_str(), "{baseDir}", base_dir.as_str());
                Some(Scaffold { base_dir, components_dir, lib_dir, registry, templates })
            },
            _ => None,
        }
    }

    /// Reads a scaffold from a JSON text.
    pub fn from_text(text: &str) -> (r: Result<Scaffold, ScaffoldError>)
        ensures
            match parsed_text(text@) {
                None => r is Err && r->Err_0 is Json,
                Some(tree) => match scaffold_of(tree) {
                    None => r is Err && r->Err_0 is Shape,
                    Some(scaffold) => r is Ok && r->Ok_0@ == scaffold,
                },
            },
    {
        let tree = match read_text(text) {
            Ok(tree) => tree,
            Err(cause) => {
                return Err(ScaffoldError::Json(cause));
            },
        };
        match Scaffold::from_tree(&tree) {
            Some(scaffold) => Ok(scaffold),
            None => Err(ScaffoldError::Shape),
        }
    }

    /// The directories to make, in order: the base directory, that of the
    /// components, and that of the library.
    pub fn directories(&self) -> (r: Vec<String>)
        ensures
            r@.len() == 3,
            r@[0]@ == self@.base_dir,
            r@[1]@ == self@.components_dir,
            r@[2]@ == self@.lib_dir,
    {
        let mut out: Vec<String> = Vec::new();
        out.push(self.base_dir.clone());
        out.push(self.components_dir.clone());
        out.push(self.lib_dir.clone());
        out
    }
}

} // verus!
