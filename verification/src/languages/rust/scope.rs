//! Where in a file a node stands.
use vstd::prelude::*;

use crate::duplicate::{duplicate_all, duplicate_opt, Duplicate};
use crate::languages::rust::impls::{normalize_impl_owner, owner_name_of};
use crate::text::{cat3, join, joined};

verus! {

/// The impl block around a node.
#[derive(Debug, PartialEq, Eq)]
pub struct ImplContext {
    /// Its header, on one line.
    pub display: String,
    /// What its methods are named after.
    pub method_owner: String,
    pub id: String,
}

#[verifier::ext_equal]
pub struct ImplContextView {
    pub display: Seq<char>,
    pub method_owner: Seq<char>,
    pub id: Seq<char>,
}

impl DeepView for ImplContext {
    type V = ImplContextView;

    open spec fn deep_view(&self) -> ImplContextView {
        ImplContextView {
            display: self.display@,
            method_owner: self.method_owner@,
            id: self.id@,
        }
    }
}

impl Duplicate for ImplContext {
    fn duplicate(&self) -> (r: ImplContext) {
        ImplContext {
            display: self.display.clone(),
            method_owner: self.method_owner.clone(),
            id: self.id.clone(),
        }
    }
}

/// What surrounds a node.
#[derive(Debug, PartialEq, Eq)]
pub struct Scope {
    /// The modules around it, from the crate root on.
    pub modules: Vec<String>,
    /// The module, or else the file, that it belongs to.
    pub owner_id: String,
    pub impl_context: Option<ImplContext>,
    /// The trait whose body it is in.
    pub trait_context: Option<String>,
    /// The modules around it that have their bodies in this file.
    pub inline_modules: Vec<String>,
    /// Whether one of these is moved to another path.
    pub under_path_override: bool,
    /// Whether it is test code.
    pub in_test: bool,
}

#[verifier::ext_equal]
pub struct ScopeView {
    pub modules: Seq<Seq<char>>,
    pub owner_id: Seq<char>,
    pub impl_context: Option<ImplContextView>,
    pub trait_context: Option<Seq<char>>,
    pub inline_modules: Seq<Seq<char>>,
    pub under_path_override: bool,
    pub in_test: bool,
}

impl DeepView for Scope {
    type V = ScopeView;

    open spec fn deep_view(&self) -> ScopeView {
        ScopeView {
            modules: self.modules.deep_view(),
            owner_id: self.owner_id@,
            impl_context: self.impl_context.deep_view(),
            trait_context: self.trait_context.deep_view(),
            inline_modules: self.inline_modules.deep_view(),
            under_path_override: self.under_path_override,
            in_test: self.in_test,
        }
    }
}

impl Duplicate for Scope {
    fn duplicate(&self) -> (r: Scope) {
        Scope {
            modules: duplicate_all(&self.modules),
            owner_id: self.owner_id.clone(),
            impl_context: duplicate_opt(&self.impl_context),
            trait_context: duplicate_opt(&self.trait_context),
            inline_modules: duplicate_all(&self.inline_modules),
            under_path_override: self.under_path_override,
            in_test: self.in_test,
        }
    }
}

/// A name in a module.
pub open spec fn qualified(modules: Seq<Seq<char>>, name: Seq<char>) -> Seq<char> {
    if modules.len() == 0 {
        name
    } else {
        joined(modules, "::"@) + "::"@ + name
    }
}

pub fn qualify(modules: &Vec<String>, name: &str) -> (r: String)
    ensures
        r@ == qualified(modules.deep_view(), name@),
{
    assert(modules.deep_view().len() == modules@.len());
    if modules.len() == 0 {
        name.to_owned()
    } else {
        cat3(join(modules, "::").as_str(), "::", name)
    }
}

impl ScopeView {
    /// The type that `Self` stands for: that of the impl block, or else the trait.
    pub open spec fn self_owner(self) -> Option<Seq<char>> {
        match self.impl_context {
            Some(c) => match owner_name_of(c.method_owner) {
                Some(o) => Some(o),
                None => self.trait_context,
            },
            None => self.trait_context,
        }
    }

    /// The record that a symbol here belongs to.
    pub open spec fn owner(self) -> Seq<char> {
        match self.impl_context {
            Some(c) => c.id,
            None => self.owner_id,
        }
    }

    pub open spec fn owner_name(self, path: Seq<char>) -> Seq<char> {
        match self.impl_context {
            Some(c) => c.display,
            None => if self.modules.len() == 0 {
                path
            } else {
                joined(self.modules, "::"@)
            },
        }
    }
}

impl Scope {
    pub fn self_owner(&self) -> (r: Option<String>)
        ensures
            r.deep_view() == self.deep_view().self_owner(),
    {
        if let Some(c) = &self.impl_context {
            if let Some(o) = normalize_impl_owner(c.method_owner.as_str()) {
                return Some(o);
            }
        }
        duplicate_opt(&self.trait_context)
    }

    pub fn owner(&self) -> (r: String)
        ensures
            r@ == self.deep_view().owner(),
    {
        match &self.impl_context {
            Some(c) => c.id.clone(),
            None => self.owner_id.clone(),
        }
    }

    pub fn owner_name(&self, path: &str) -> (r: String)
        ensures
            r@ == self.deep_view().owner_name(path@),
    {
        match &self.impl_context {
            Some(c) => c.display.clone(),
            None => {
                assert(self.modules.deep_view().len() == self.modules@.len());
                if self.modules.len() == 0 {
                    path.to_owned()
                } else {
                    join(&self.modules, "::")
                }
            },
        }
    }
}

} // verus!
