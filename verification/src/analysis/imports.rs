//! The import match strategy.
//!
//! Selects import declarations at the top level of a module whose module
//! specifier equals the query's source exactly.  When the query carries a
//! binding-name filter, a declaration is selected only if at least one of
//! its *named* specifiers binds that name — default and namespace
//! specifiers never count — and what is emitted is still the whole
//! declaration's span, never an individual specifier's.

use vstd::prelude::*;

use crate::ast::{ImportDecl, ImportSpecifier, Module, ModuleItem, Span};
use crate::parser::ParsedModule;
use crate::processor::ProcessorRequest;
use crate::utils::str_eq;

verus! {

/// The import query: find import declarations referencing `source`,
/// optionally narrowed to declarations binding `specifier`.
pub struct ImportsRequest {
    /// The directory the run searches.
    pub path: String,
    /// The module source to match, by exact string equality.
    pub source: String,
    /// When given, only declarations one of whose named specifiers binds
    /// this local name are selected.
    pub specifier: Option<String>,
}

/// Whether one of the declaration's named specifiers binds `name`.
/// A declaration with no named specifiers never satisfies this.
pub open spec fn has_named_specifier(d: ImportDecl, name: Seq<char>) -> bool {
    exists|i: int|
        0 <= i < d.specifiers@.len() && ((#[trigger] d.specifiers@[i])
            matches ImportSpecifier::Named { local } && local@ == name)
}

/// Whether the query selects this declaration: its module specifier equals
/// the query's source exactly, and, when a specifier filter is given, the
/// declaration binds it as a named specifier.
pub open spec fn decl_selected(req: ImportsRequest, d: ImportDecl) -> bool {
    &&& d.source@ == req.source@
    &&& match req.specifier {
        Some(name) => has_named_specifier(d, name@),
        None => true,
    }
}

/// One top-level item's contribution: a selected import declaration's whole
/// span; nothing for anything else.
pub open spec fn item_import_spans(req: ImportsRequest, item: ModuleItem) -> Seq<Span> {
    match item {
        ModuleItem::Import(d) => if decl_selected(req, d) {
            seq![d.span]
        } else {
            Seq::empty()
        },
        _ => Seq::empty(),
    }
}

/// The spans the query selects in a module's items, in document order.
pub open spec fn import_spans(req: ImportsRequest, items: Seq<ModuleItem>) -> Seq<Span>
    decreases items.len(),
{
    if items.len() == 0 {
        Seq::empty()
    } else {
        item_import_spans(req, items[0]) + import_spans(req, items.drop_first())
    }
}

proof fn lemma_import_spans_push(req: ImportsRequest, items: Seq<ModuleItem>, item: ModuleItem)
    ensures
        import_spans(req, items.push(item)) == import_spans(req, items) + item_import_spans(
            req,
            item,
        ),
    decreases items.len(),
{
    if items.len() == 0 {
        let its = items.push(item);
        assert(its[0] == item);
        assert(its.drop_first() =~= Seq::<ModuleItem>::empty());
        assert(import_spans(req, its) == item_import_spans(req, its[0]) + import_spans(
            req,
            its.drop_first(),
        ));
        assert(import_spans(req, items.push(item)) =~= import_spans(req, items)
            + item_import_spans(req, item));
    } else {
        assert(items.push(item).drop_first() =~= items.drop_first().push(item));
        lemma_import_spans_push(req, items.drop_first(), item);
        assert(import_spans(req, items.push(item)) =~= import_spans(req, items)
            + item_import_spans(req, item));
    }
}

/// Whether one of `d`'s named specifiers binds `name`, as
/// `has_named_specifier` describes.
fn decl_has_named_specifier(d: &ImportDecl, name: &String) -> (r: bool)
    ensures
        r == has_named_specifier(*d, name@),
{
    let mut i: usize = 0;
    while i < d.specifiers.len()
        invariant
            i <= d.specifiers@.len(),
            forall|k: int|
                0 <= k < i ==> !((#[trigger] d.specifiers@[k])
                    matches ImportSpecifier::Named { local } && local@ == name@),
        decreases d.specifiers@.len() - i,
    {
        match &d.specifiers[i] {
            ImportSpecifier::Named { local } => {
                if str_eq(local.as_str(), name.as_str()) {
                    proof {
                        assert(d.specifiers@[i as int]
                            matches ImportSpecifier::Named { local } && local@ == name@);
                    }
                    return true;
                }
            },
            _ => {},
        }
        i = i + 1;
    }
    false
}

impl ProcessorRequest for ImportsRequest {
    open spec fn spec_spans(&self, m: Module) -> Seq<Span> {
        import_spans(*self, m.items@)
    }

    open spec fn root(&self) -> Seq<char> {
        self.path@
    }

    fn path(&self) -> &String {
        &self.path
    }

    /// Walks the module's top-level items and collects the whole span of
    /// every selected import declaration, in document order, as
    /// `import_spans` describes.
    fn analyze(&self, parsed: &ParsedModule) -> (r: Vec<Span>) {
        let items = &parsed.module.items;
        let mut r: Vec<Span> = Vec::new();
        proof {
            assert(items@.take(0) =~= Seq::<ModuleItem>::empty());
        }
        let mut i: usize = 0;
        while i < items.len()
            invariant
                i <= items@.len(),
                items@ == parsed.module.items@,
                r@ == import_spans(*self, items@.take(i as int)),
            decreases items@.len() - i,
        {
            match &items[i] {
                ModuleItem::Import(d) => {
                    let selected = if str_eq(d.source.as_str(), self.source.as_str()) {
                        match &self.specifier {
                            Some(name) => decl_has_named_specifier(d, name),
                            None => true,
                        }
                    } else {
                        false
                    };
                    if selected {
                        r.push(d.span);
                    }
                },
                _ => {},
            }
            proof {
                assert(items@.take(i as int + 1) =~= items@.take(i as int).push(items@[i as int]));
                lemma_import_spans_push(*self, items@.take(i as int), items@[i as int]);
                assert(r@ =~= import_spans(*self, items@.take(i as int + 1)));
            }
            i = i + 1;
        }
        proof {
            assert(items@.take(items@.len() as int) =~= items@);
        }
        r
    }
}

} // verus!
