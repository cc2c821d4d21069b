//! The kinds of registry entries and their tags.

use crate::text::same_text;
use vstd::prelude::*;

verus! {

/// What a registry item, or one of its files, is.
#[derive(Debug, Clone, Copy, PartialEq, Eq, Structural)]
pub enum RegistryType {
    Block,
    Component,
    UI,
    Style,
}

impl RegistryType {
    /// The tag under which the kind is written in a descriptor.
    pub open spec fn tag(self) -> Seq<char> {
        match self {
            RegistryType::Block => "registry:block"@,
            RegistryType::Component => "registry:component"@,
            RegistryType::UI => "registry:ui"@,
            RegistryType::Style => "registry:style"@,
        }
    }

    /// The kind that a tag stands for, if it is a tag.
    pub open spec fn of_tag(tag: Seq<char>) -> Option<RegistryType> {
        if tag == "registry:block"@ {
            Some(RegistryType::Block)
        } else if tag == "registry:component"@ {
            Some(RegistryType::Component)
        } else if tag == "registry:ui"@ {
            Some(RegistryType::UI)
        } else if tag == "registry:style"@ {
            Some(RegistryType::Style)
        } else {
            None
        }
    }

    /// The kind's tag.
    pub fn as_str(&self) -> (r: &'static str)
        ensures
            r@ == self.tag(),
    {
        match self {
            RegistryType::Block => "registry:block",
            RegistryType::Component => "registry:component",
            RegistryType::UI => "registry:ui",
            RegistryType::Style => "registry:style",
        }
    }

    /// The kind's tag, as an owned text.
    pub fn to_string(&self) -> (r: String)
        ensures
            r@ == self.tag(),
    {
        self.as_str().to_owned()
    }

    /// Reads a tag. `None` for a text that is no tag.
    pub fn from_tag(tag: &str) -> (r: Option<RegistryType>)
        ensures
            r == Self::of_tag(tag@),
    {
        if same_text(tag, "registry:block") {
            Some(RegistryType::Block)
        } else if same_text(tag, "registry:component") {
            Some(RegistryType::Component)
        } else if same_text(tag, "registry:ui") {
            Some(RegistryType::UI)
        } else if same_text(tag, "registry:style") {
            Some(RegistryType::Style)
        } else {
            None
        }
    }
}

/// The tag table is one to one: reading a kind's tag gives the kind back,
/// and a text that reads as a kind is that kind's tag.
pub proof fn lemma_tag_table(kind: RegistryType, tag: Seq<char>)
    ensures
        RegistryType::of_tag(kind.tag()) == Some(kind),
        RegistryType::of_tag(tag) == Some(kind) ==> tag == kind.tag(),
{
    reveal_strlit("registry:block");
    reveal_strlit("registry:component");
    reveal_strlit("registry:ui");
    reveal_strlit("registry:style");
    let b = "registry:block"@;
    let c = "registry:component"@;
    let u = "registry:ui"@;
    let s = "registry:style"@;
    assert(b.len() == 14 && c.len() == 18 && u.len() == 11 && s.len() == 14);
    assert(b[9] == 'b' && s[9] == 's');
}

} // verus!
