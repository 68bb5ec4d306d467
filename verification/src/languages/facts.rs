//! What one file says about calls, constructions, implementations and modules, for resolution
//! across files.
use vstd::prelude::*;

use crate::ir::SourceSpan;

verus! {

/// How a callee is written.
#[derive(Debug, Clone, Copy, PartialEq, Eq, Structural)]
pub enum CallKind {
    /// `f()`
    Direct,
    /// `a::f()`
    Path,
    /// `x.f()`
    Method,
    /// `self.f()`, where the type of `self` is known.
    SelfMethod,
}

/// Where a path starts.
#[derive(Debug, PartialEq, Eq)]
pub enum CallPathRoot {
    Unqualified,
    /// In the crate itself.
    CurrentCrate,
    /// With a segment that may name another crate.
    Leading(String),
}

#[verifier::ext_equal]
pub enum CallPathRootView {
    Unqualified,
    CurrentCrate,
    Leading(Seq<char>),
}

impl DeepView for CallPathRoot {
    type V = CallPathRootView;

    open spec fn deep_view(&self) -> CallPathRootView {
        match self {
            CallPathRoot::Unqualified => CallPathRootView::Unqualified,
            CallPathRoot::CurrentCrate => CallPathRootView::CurrentCrate,
            CallPathRoot::Leading(s) => CallPathRootView::Leading(s@),
        }
    }
}

/// A call in a symbol.
#[derive(Debug, PartialEq, Eq)]
pub struct CallSiteFact {
    pub caller_id: String,
    pub caller_name: String,
    pub callee_display: String,
    pub callee_segments: Vec<String>,
    pub call_kind: CallKind,
    pub path_root: CallPathRoot,
    /// The type of `self`, for a call on it.
    pub receiver_owner: Option<String>,
    /// The type of the receiver, where it is certain.
    pub receiver_type: Option<String>,
    pub span: SourceSpan,
}

#[verifier::ext_equal]
pub struct CallSiteFactView {
    pub caller_id: Seq<char>,
    pub caller_name: Seq<char>,
    pub callee_display: Seq<char>,
    pub callee_segments: Seq<Seq<char>>,
    pub call_kind: CallKind,
    pub path_root: CallPathRootView,
    pub receiver_owner: Option<Seq<char>>,
    pub receiver_type: Option<Seq<char>>,
    pub span: SourceSpan,
}

impl DeepView for CallSiteFact {
    type V = CallSiteFactView;

    open spec fn deep_view(&self) -> CallSiteFactView {
        CallSiteFactView {
            caller_id: self.caller_id@,
            caller_name: self.caller_name@,
            callee_display: self.callee_display@,
            callee_segments: self.callee_segments.deep_view(),
            call_kind: self.call_kind,
            path_root: self.path_root.deep_view(),
            receiver_owner: self.receiver_owner.deep_view(),
            receiver_type: self.receiver_type.deep_view(),
            span: self.span,
        }
    }
}

/// A struct literal in a symbol.
#[derive(Debug, PartialEq, Eq)]
pub struct ConstructSiteFact {
    pub constructor_id: String,
    pub constructor_name: String,
    pub type_display: String,
    pub type_segments: Vec<String>,
    pub path_root: CallPathRoot,
    /// Whether it takes nothing from a base: a new required field breaks it.
    pub is_exhaustive: bool,
    pub span: SourceSpan,
}

#[verifier::ext_equal]
pub struct ConstructSiteFactView {
    pub constructor_id: Seq<char>,
    pub constructor_name: Seq<char>,
    pub type_display: Seq<char>,
    pub type_segments: Seq<Seq<char>>,
    pub path_root: CallPathRootView,
    pub is_exhaustive: bool,
    pub span: SourceSpan,
}

impl DeepView for ConstructSiteFact {
    type V = ConstructSiteFactView;

    open spec fn deep_view(&self) -> ConstructSiteFactView {
        ConstructSiteFactView {
            constructor_id: self.constructor_id@,
            constructor_name: self.constructor_name@,
            type_display: self.type_display@,
            type_segments: self.type_segments.deep_view(),
            path_root: self.path_root.deep_view(),
            is_exhaustive: self.is_exhaustive,
            span: self.span,
        }
    }
}

/// A handler that a macro registers.
#[derive(Debug, PartialEq, Eq)]
pub struct RouteRegistrationFact {
    pub owner_id: String,
    pub owner_name: String,
    pub handler_display: String,
    pub handler_segments: Vec<String>,
    pub path_root: CallPathRoot,
    pub span: SourceSpan,
}

#[verifier::ext_equal]
pub struct RouteRegistrationFactView {
    pub owner_id: Seq<char>,
    pub owner_name: Seq<char>,
    pub handler_display: Seq<char>,
    pub handler_segments: Seq<Seq<char>>,
    pub path_root: CallPathRootView,
    pub span: SourceSpan,
}

impl DeepView for RouteRegistrationFact {
    type V = RouteRegistrationFactView;

    open spec fn deep_view(&self) -> RouteRegistrationFactView {
        RouteRegistrationFactView {
            owner_id: self.owner_id@,
            owner_name: self.owner_name@,
            handler_display: self.handler_display@,
            handler_segments: self.handler_segments.deep_view(),
            path_root: self.path_root.deep_view(),
            span: self.span,
        }
    }
}

/// A callable that calls can resolve to.
#[derive(Debug, PartialEq, Eq)]
pub struct DefinitionFact {
    pub id: String,
    pub qualified_name: String,
    pub simple_name: String,
    pub match_segments: Vec<String>,
    pub symbol_kind: String,
    pub is_trait_method: bool,
    pub repo_relative_path: String,
}

#[verifier::ext_equal]
pub struct DefinitionFactView {
    pub id: Seq<char>,
    pub qualified_name: Seq<char>,
    pub simple_name: Seq<char>,
    pub match_segments: Seq<Seq<char>>,
    pub symbol_kind: Seq<char>,
    pub is_trait_method: bool,
    pub repo_relative_path: Seq<char>,
}

impl DeepView for DefinitionFact {
    type V = DefinitionFactView;

    open spec fn deep_view(&self) -> DefinitionFactView {
        DefinitionFactView {
            id: self.id@,
            qualified_name: self.qualified_name@,
            simple_name: self.simple_name@,
            match_segments: self.match_segments.deep_view(),
            symbol_kind: self.symbol_kind@,
            is_trait_method: self.is_trait_method,
            repo_relative_path: self.repo_relative_path@,
        }
    }
}

/// A trait or type that impl blocks can lead to.
#[derive(Debug, PartialEq, Eq)]
pub struct ImplTargetFact {
    pub id: String,
    pub qualified_name: String,
    pub crate_root: String,
    pub modules: Vec<String>,
    pub symbol_kind: String,
}

#[verifier::ext_equal]
pub struct ImplTargetFactView {
    pub id: Seq<char>,
    pub qualified_name: Seq<char>,
    pub crate_root: Seq<char>,
    pub modules: Seq<Seq<char>>,
    pub symbol_kind: Seq<char>,
}

impl DeepView for ImplTargetFact {
    type V = ImplTargetFactView;

    open spec fn deep_view(&self) -> ImplTargetFactView {
        ImplTargetFactView {
            id: self.id@,
            qualified_name: self.qualified_name@,
            crate_root: self.crate_root@,
            modules: self.modules.deep_view(),
            symbol_kind: self.symbol_kind@,
        }
    }
}

/// That a type implements a trait.
#[derive(Debug, PartialEq, Eq)]
pub struct ImplTraitRelationFact {
    pub impl_type: String,
    pub impl_type_path: String,
    pub trait_path: String,
    pub crate_root: String,
    pub module_names: Vec<String>,
}

#[verifier::ext_equal]
pub struct ImplTraitRelationFactView {
    pub impl_type: Seq<char>,
    pub impl_type_path: Seq<char>,
    pub trait_path: Seq<char>,
    pub crate_root: Seq<char>,
    pub module_names: Seq<Seq<char>>,
}

impl DeepView for ImplTraitRelationFact {
    type V = ImplTraitRelationFactView;

    open spec fn deep_view(&self) -> ImplTraitRelationFactView {
        ImplTraitRelationFactView {
            impl_type: self.impl_type@,
            impl_type_path: self.impl_type_path@,
            trait_path: self.trait_path@,
            crate_root: self.crate_root@,
            module_names: self.module_names.deep_view(),
        }
    }
}

/// A module whose body is in another file.
#[derive(Debug, PartialEq, Eq)]
pub struct OutOfLineModFact {
    pub name: String,
    /// The inline modules around the declaration.
    pub inline_modules: Vec<String>,
    pub test_gated: bool,
    pub path_override: Option<String>,
    pub under_inline_path_override: bool,
}

#[verifier::ext_equal]
pub struct OutOfLineModFactView {
    pub name: Seq<char>,
    pub inline_modules: Seq<Seq<char>>,
    pub test_gated: bool,
    pub path_override: Option<Seq<char>>,
    pub under_inline_path_override: bool,
}

impl DeepView for OutOfLineModFact {
    type V = OutOfLineModFactView;

    open spec fn deep_view(&self) -> OutOfLineModFactView {
        OutOfLineModFactView {
            name: self.name@,
            inline_modules: self.inline_modules.deep_view(),
            test_gated: self.test_gated,
            path_override: self.path_override.deep_view(),
            under_inline_path_override: self.under_inline_path_override,
        }
    }
}

/// An impl block whose trait or type is not in the file.
#[derive(Debug, PartialEq, Eq)]
pub struct PendingImplFact {
    pub source_id: String,
    pub trait_path: String,
    pub crate_root: String,
    pub module_names: Vec<String>,
    /// Whether an import binds the name in the same module.
    pub shadowed_by_use: bool,
}

#[verifier::ext_equal]
pub struct PendingImplFactView {
    pub source_id: Seq<char>,
    pub trait_path: Seq<char>,
    pub crate_root: Seq<char>,
    pub module_names: Seq<Seq<char>>,
    pub shadowed_by_use: bool,
}

impl DeepView for PendingImplFact {
    type V = PendingImplFactView;

    open spec fn deep_view(&self) -> PendingImplFactView {
        PendingImplFactView {
            source_id: self.source_id@,
            trait_path: self.trait_path@,
            crate_root: self.crate_root@,
            module_names: self.module_names.deep_view(),
            shadowed_by_use: self.shadowed_by_use,
        }
    }
}

/// The path that an import binds a name to.
#[derive(Debug, PartialEq, Eq)]
pub struct UseImportFact {
    pub module_names: Vec<String>,
    pub simple_name: String,
    pub resolved_path: String,
}

#[verifier::ext_equal]
pub struct UseImportFactView {
    pub module_names: Seq<Seq<char>>,
    pub simple_name: Seq<char>,
    pub resolved_path: Seq<char>,
}

impl DeepView for UseImportFact {
    type V = UseImportFactView;

    open spec fn deep_view(&self) -> UseImportFactView {
        UseImportFactView {
            module_names: self.module_names.deep_view(),
            simple_name: self.simple_name@,
            resolved_path: self.resolved_path@,
        }
    }
}

/// All facts of a file.
#[derive(Debug, PartialEq, Eq)]
pub struct FileFacts {
    pub definitions: Vec<DefinitionFact>,
    pub call_sites: Vec<CallSiteFact>,
    pub construct_sites: Vec<ConstructSiteFact>,
    pub route_registration_sites: Vec<RouteRegistrationFact>,
    pub impl_targets: Vec<ImplTargetFact>,
    pub impl_trait_relations: Vec<ImplTraitRelationFact>,
    pub pending_impls: Vec<PendingImplFact>,
    pub use_trait_imports: Vec<UseImportFact>,
    pub out_of_line_mods: Vec<OutOfLineModFact>,
}

#[verifier::ext_equal]
pub struct FileFactsView {
    pub definitions: Seq<DefinitionFactView>,
    pub call_sites: Seq<CallSiteFactView>,
    pub construct_sites: Seq<ConstructSiteFactView>,
    pub route_registration_sites: Seq<RouteRegistrationFactView>,
    pub impl_targets: Seq<ImplTargetFactView>,
    pub impl_trait_relations: Seq<ImplTraitRelationFactView>,
    pub pending_impls: Seq<PendingImplFactView>,
    pub use_trait_imports: Seq<UseImportFactView>,
    pub out_of_line_mods: Seq<OutOfLineModFactView>,
}

impl DeepView for FileFacts {
    type V = FileFactsView;

    open spec fn deep_view(&self) -> FileFactsView {
        FileFactsView {
            definitions: self.definitions.deep_view(),
            call_sites: self.call_sites.deep_view(),
            construct_sites: self.construct_sites.deep_view(),
            route_registration_sites: self.route_registration_sites.deep_view(),
            impl_targets: self.impl_targets.deep_view(),
            impl_trait_relations: self.impl_trait_relations.deep_view(),
            pending_impls: self.pending_impls.deep_view(),
            use_trait_imports: self.use_trait_imports.deep_view(),
            out_of_line_mods: self.out_of_line_mods.deep_view(),
        }
    }
}

impl FileFactsView {
    pub open spec fn none() -> FileFactsView {
        FileFactsView {
            definitions: Seq::empty(),
            call_sites: Seq::empty(),
            construct_sites: Seq::empty(),
            route_registration_sites: Seq::empty(),
            impl_targets: Seq::empty(),
            impl_trait_relations: Seq::empty(),
            pending_impls: Seq::empty(),
            use_trait_imports: Seq::empty(),
            out_of_line_mods: Seq::empty(),
        }
    }
}

impl FileFacts {
    pub fn none() -> (r: FileFacts)
        ensures
            r.deep_view() == FileFactsView::none(),
    {
        FileFacts {
            definitions: Vec::new(),
            call_sites: Vec::new(),
            construct_sites: Vec::new(),
            route_registration_sites: Vec::new(),
            impl_targets: Vec::new(),
            impl_trait_relations: Vec::new(),
            pending_impls: Vec::new(),
            use_trait_imports: Vec::new(),
            out_of_line_mods: Vec::new(),
        }
    }
}

} // verus!
