//! A registry: the catalogue of items that a build reads.

use crate::json::{
    get_member, items_view as trees_view, lemma_array_view, lemma_object_view, lookup,
    members_view, read_required_text, required_text, Json, JsonView, Member, MemberView,
};
use crate::schemas::registry_item::{item_of, items_view, RegistryItem, RegistryItemView};
use vstd::prelude::*;

verus! {

/// A catalogue of registry items.
#[derive(Debug, Clone, PartialEq)]
pub struct Registry {
    pub name: String,
    pub homepage: String,
    pub items: Vec<RegistryItem>,
}

/// The mathematical value of a [`Registry`].
pub struct RegistryView {
    pub name: Seq<char>,
    pub homepage: Seq<char>,
    pub items: Seq<RegistryItemView>,
}

impl View for Registry {
    type V = RegistryView;

    open spec fn view(&self) -> RegistryView {
        RegistryView { name: self.name@, homepage: self.homepage@, items: items_view(self.items@) }
    }
}

/// Every tree of the list describes an item.
pub open spec fn all_items(trees: Seq<JsonView>) -> bool {
    forall|i: int| 0 <= i < trees.len() ==> item_of(#[trigger] trees[i]) is Some
}

/// The items that a list of trees describes.
pub open spec fn items_of(trees: Seq<JsonView>) -> Seq<RegistryItemView> {
    Seq::new(trees.len(), |i: int| item_of(trees[i])->0)
}

/// The items that an object states under `items`: a list of trees that
/// each describe an item.
pub open spec fn required_items(members: Seq<MemberView>) -> Option<Seq<RegistryItemView>> {
    match lookup(members, "items"@) {
        Some(JsonView::Array(trees)) => if all_items(trees) {
            Some(items_of(trees))
        } else {
            None
        },
        _ => None,
    }
}

/// The registry that a tree describes: an object with the texts `name` and
/// `homepage` and a list `items` of items. `None` where the tree is not of
/// that shape.
pub open spec fn registry_of(tree: JsonView) -> Option<RegistryView> {
    match tree {
        JsonView::Object(members) => match (
            required_text(members, "name"@),
            required_text(members, "homepage"@),
            required_items(members),
        ) {
            (Some(name), Some(homepage), Some(items)) => Some(RegistryView { name, homepage, items }),
            _ => None,
        },
        _ => None,
    }
}

/// Reads the items that an object states under `items`.
pub fn read_items(members: &Vec<Member>) -> (r: Option<Vec<RegistryItem>>)
    ensures
        match r {
            Some(items) => required_items(members_view(members@)) == Some(items_view(items@)),
            None => required_items(members_view(members@)) is None,
        },
{
    match get_member(members, "items") {
        Some(Json::Array(trees)) => {
            proof {
                lemma_array_view(*trees);
            }
            let ghost model = trees_view(trees@);
            let mut items: Vec<RegistryItem> = Vec::new();
            let mut i: usize = 0;
            while i < trees.len()
                invariant
                    i <= trees.len(),
                    items@.len() == i,
                    model == trees_view(trees@),
                    lookup(members_view(members@), "items"@) == Some(JsonView::Array(model)),
                    forall|j: int| 0 <= j < i ==> item_of(#[trigger] model[j]) == Some(items@[j]@),
                decreases trees.len() - i,
            {
                match RegistryItem::from_tree(&trees[i]) {
                    Some(item) => {
                        items.push(item);
                    },
                    None => {
                        assert(item_of(model[i as int]) is None);
                        return None;
                    },
                }
                i = i + 1;
            }
            assert(items_view(items@) =~= items_of(model));
            Some(items)
        },
        _ => None,
    }
}

impl Registry {
    /// Reads a registry from a tree.
    pub fn from_tree(tree: &Json) -> (r: Option<Registry>)
        ensures
            match r {
                Some(registry) => registry_of(tree@) == Some(registry@),
                None => registry_of(tree@) is None,
            },
    {
        match tree {
            Json::Object(members) => {
                proof {
                    lemma_object_view(*members);
                }
                let name = match read_required_text(members, "name") {
                    Some(v) => v,
                    None => {
                        return None;
                    },
                };
                let homepage = match read_required_text(members, "homepage") {
                    Some(v) => v,
                    None => {
                        return None;
                    },
                };
                let items = match read_items(members) {
                    Some(v) => v,
                    None => {
                        return None;
                    },
                };
                Some(Registry { name, homepage, items })
            },
            _ => None,
        }
    }
}

} // verus!
