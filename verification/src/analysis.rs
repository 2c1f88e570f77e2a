//! The match strategies, and a batch view of the import analysis.
//!
//! The per-file strategies live in [`imports`] and [`tags`]; each selects
//! spans from one parsed module.  This module also offers the import
//! analysis as one batch call: [`analyze`] hands back the matching
//! declarations and specifiers themselves, or nothing when the module has
//! no match to report.

use vstd::prelude::*;

pub mod imports;
pub mod tags;

use crate::ast::{
    ImportDecl, ImportDeclV, ImportSpecifier, ImportSpecifierV, Module, ModuleItem,
};
use crate::parser::ParsedModule;
use crate::utils::str_eq;

verus! {

/// The batch import query: like `imports::ImportsRequest`, but answered
/// with the matching declarations rather than their spans.
pub struct AnalysisRequest {
    /// The directory the run searches.
    pub path: String,
    /// The module source to match, by exact string equality.
    pub source: String,
    /// When given, the named specifiers binding this local name are
    /// collected, and a module without any reports no match.
    pub specifier: Option<String>,
}

/// One module's answer to an [`AnalysisRequest`]: the import declarations
/// whose module specifier equals the requested source, in document order,
/// and, when a specifier filter was given, the named specifiers binding it,
/// in document order across those declarations.
pub struct AnalysisResponse {
    pub imports: Vec<ImportDecl>,
    pub specifiers: Option<Vec<ImportSpecifier>>,
}

/// One item's contribution to `matching_imports`.
pub open spec fn item_matching_import(source: Seq<char>, item: ModuleItem) -> Seq<ImportDeclV> {
    match item {
        ModuleItem::Import(d) => if d.source@ == source {
            seq![d@]
        } else {
            Seq::empty()
        },
        _ => Seq::empty(),
    }
}

/// The import declarations whose module specifier equals `source`, in
/// document order.
pub open spec fn matching_imports(source: Seq<char>, items: Seq<ModuleItem>) -> Seq<ImportDeclV>
    decreases items.len(),
{
    if items.len() == 0 {
        Seq::empty()
    } else {
        item_matching_import(source, items[0]) + matching_imports(source, items.drop_first())
    }
}

/// The named specifiers in `specs` whose local name is `name`, in order.
/// Default and namespace specifiers never count.
pub open spec fn named_with_local(specs: Seq<ImportSpecifierV>, name: Seq<char>) -> Seq<
    ImportSpecifierV,
>
    decreases specs.len(),
{
    if specs.len() == 0 {
        Seq::empty()
    } else {
        (if specs[0] matches ImportSpecifierV::Named { local } && local == name {
            seq![specs[0]]
        } else {
            Seq::empty()
        }) + named_with_local(specs.drop_first(), name)
    }
}

/// The named specifiers binding `name` across `imports`, in order.
pub open spec fn matching_specifiers(imports: Seq<ImportDeclV>, name: Seq<char>) -> Seq<
    ImportSpecifierV,
>
    decreases imports.len(),
{
    if imports.len() == 0 {
        Seq::empty()
    } else {
        named_with_local(imports[0].specifiers, name) + matching_specifiers(
            imports.drop_first(),
            name,
        )
    }
}

/// Whether the module has anything to report: some declaration matches the
/// source, and, when a specifier filter is given, some matching declaration
/// binds it.
pub open spec fn analyze_emits(request: AnalysisRequest, items: Seq<ModuleItem>) -> bool {
    &&& matching_imports(request.source@, items).len() > 0
    &&& match request.specifier {
        Some(name) => matching_specifiers(matching_imports(request.source@, items), name@).len()
            > 0,
        None => true,
    }
}

proof fn lemma_matching_imports_push(source: Seq<char>, items: Seq<ModuleItem>, item: ModuleItem)
    ensures
        matching_imports(source, items.push(item)) == matching_imports(source, items)
            + item_matching_import(source, item),
    decreases items.len(),
{
    if items.len() == 0 {
        let its = items.push(item);
        assert(its[0] == item);
        assert(its.drop_first() =~= Seq::<ModuleItem>::empty());
        assert(matching_imports(source, its) == item_matching_import(source, its[0])
            + matching_imports(source, its.drop_first()));
        assert(matching_imports(source, items.push(item)) =~= matching_imports(source, items)
            + item_matching_import(source, item));
    } else {
        assert(items.push(item).drop_first() =~= items.drop_first().push(item));
        lemma_matching_imports_push(source, items.drop_first(), item);
        assert(matching_imports(source, items.push(item)) =~= matching_imports(source, items)
            + item_matching_import(source, item));
    }
}

proof fn lemma_named_with_local_push(specs: Seq<ImportSpecifierV>, s: ImportSpecifierV, name: Seq<char>)
    ensures
        named_with_local(specs.push(s), name) == named_with_local(specs, name) + (if s
            matches ImportSpecifierV::Named { local } && local == name {
            seq![s]
        } else {
            Seq::empty()
        }),
    decreases specs.len(),
{
    if specs.len() == 0 {
        let sp = specs.push(s);
        assert(sp[0] == s);
        assert(sp.drop_first() =~= Seq::<ImportSpecifierV>::empty());
        assert(named_with_local(sp, name) == (if sp[0]
            matches ImportSpecifierV::Named { local } && local == name {
            seq![sp[0]]
        } else {
            Seq::empty()
        }) + named_with_local(sp.drop_first(), name));
        assert(named_with_local(specs.push(s), name) =~= named_with_local(specs, name) + (if s
            matches ImportSpecifierV::Named { local } && local == name {
            seq![s]
        } else {
            Seq::empty()
        }));
    } else {
        assert(specs.push(s).drop_first() =~= specs.drop_first().push(s));
        lemma_named_with_local_push(specs.drop_first(), s, name);
        assert(named_with_local(specs.push(s), name) =~= named_with_local(specs, name) + (if s
            matches ImportSpecifierV::Named { local } && local == name {
            seq![s]
        } else {
            Seq::empty()
        }));
    }
}

proof fn lemma_matching_specifiers_push(imports: Seq<ImportDeclV>, d: ImportDeclV, name: Seq<char>)
    ensures
        matching_specifiers(imports.push(d), name) == matching_specifiers(imports, name)
            + named_with_local(d.specifiers, name),
    decreases imports.len(),
{
    if imports.len() == 0 {
        let im = imports.push(d);
        assert(im[0] == d);
        assert(im.drop_first() =~= Seq::<ImportDeclV>::empty());
        assert(matching_specifiers(im, name) == named_with_local(im[0].specifiers, name)
            + matching_specifiers(im.drop_first(), name));
        assert(matching_specifiers(imports.push(d), name) =~= matching_specifiers(imports, name)
            + named_with_local(d.specifiers, name));
    } else {
        assert(imports.push(d).drop_first() =~= imports.drop_first().push(d));
        lemma_matching_specifiers_push(imports.drop_first(), d, name);
        assert(matching_specifiers(imports.push(d), name) =~= matching_specifiers(imports, name)
            + named_with_local(d.specifiers, name));
    }
}

/// Collects the import declarations matching the request's source, in
/// document order, as `matching_imports` describes.
fn get_imports(module: &Module, request: &AnalysisRequest) -> (r: Vec<ImportDecl>)
    ensures
        r@.map_values(|d: ImportDecl| d@) == matching_imports(request.source@, module.items@),
{
    let items = &module.items;
    let mut r: Vec<ImportDecl> = Vec::new();
    proof {
        assert(items@.take(0) =~= Seq::<ModuleItem>::empty());
        assert(r@.map_values(|d: ImportDecl| d@) =~= Seq::<ImportDeclV>::empty());
    }
    let mut i: usize = 0;
    while i < items.len()
        invariant
            i <= items@.len(),
            items@ == module.items@,
            r@.map_values(|d: ImportDecl| d@) == matching_imports(
                request.source@,
                items@.take(i as int),
            ),
        decreases items@.len() - i,
    {
        let ghost before = r@;
        match &items[i] {
            ModuleItem::Import(d) => {
                if str_eq(d.source.as_str(), request.source.as_str()) {
                    let copy = d.clone();
                    proof {
                        assert(copy@ == d@);
                    }
                    r.push(copy);
                    proof {
                        assert(r@.map_values(|x: ImportDecl| x@) =~= before.map_values(
                            |x: ImportDecl| x@,
                        ).push(d@));
                    }
                }
            },
            _ => {},
        }
        proof {
            assert(items@.take(i as int + 1) =~= items@.take(i as int).push(items@[i as int]));
            lemma_matching_imports_push(request.source@, items@.take(i as int), items@[i as int]);
            assert(r@.map_values(|d: ImportDecl| d@) =~= matching_imports(
                request.source@,
                items@.take(i as int + 1),
            ));
        }
        i = i + 1;
    }
    proof {
        assert(items@.take(items@.len() as int) =~= items@);
    }
    r
}

/// Collects the named specifiers binding `name` across `imports`, in
/// order, as `matching_specifiers` describes.
fn get_specifiers(imports: &Vec<ImportDecl>, name: &String) -> (r: Vec<ImportSpecifier>)
    ensures
        r@.map_values(|s: ImportSpecifier| s@) == matching_specifiers(
            imports@.map_values(|d: ImportDecl| d@),
            name@,
        ),
{
    let ghost iv = imports@.map_values(|d: ImportDecl| d@);
    let mut r: Vec<ImportSpecifier> = Vec::new();
    proof {
        assert(iv.take(0) =~= Seq::<ImportDeclV>::empty());
        assert(r@.map_values(|s: ImportSpecifier| s@) =~= Seq::<ImportSpecifierV>::empty());
    }
    let mut a: usize = 0;
    while a < imports.len()
        invariant
            a <= imports@.len(),
            iv == imports@.map_values(|d: ImportDecl| d@),
            r@.map_values(|s: ImportSpecifier| s@) == matching_specifiers(
                iv.take(a as int),
                name@,
            ),
        decreases imports@.len() - a,
    {
        let d = &imports[a];
        let ghost sv = iv[a as int].specifiers;
        proof {
            assert(iv[a as int] == d@);
            assert(sv == d.specifiers@.map_values(|s: ImportSpecifier| s@));
            assert(sv.take(0) =~= Seq::<ImportSpecifierV>::empty());
        }
        let mut b: usize = 0;
        while b < d.specifiers.len()
            invariant
                b <= d.specifiers@.len(),
                sv == d.specifiers@.map_values(|s: ImportSpecifier| s@),
                r@.map_values(|s: ImportSpecifier| s@) == matching_specifiers(
                    iv.take(a as int),
                    name@,
                ) + named_with_local(sv.take(b as int), name@),
            decreases d.specifiers@.len() - b,
        {
            let ghost before = r@;
            match &d.specifiers[b] {
                ImportSpecifier::Named { local } => {
                    if str_eq(local.as_str(), name.as_str()) {
                        r.push(d.specifiers[b].clone());
                        proof {
                            assert(r@.map_values(|s: ImportSpecifier| s@) =~= before.map_values(
                                |s: ImportSpecifier| s@,
                            ).push(sv[b as int]));
                        }
                    }
                },
                _ => {},
            }
            proof {
                assert(sv.take(b as int + 1) =~= sv.take(b as int).push(sv[b as int]));
                assert(sv[b as int] == d.specifiers@[b as int]@);
                lemma_named_with_local_push(sv.take(b as int), sv[b as int], name@);
                assert(r@.map_values(|s: ImportSpecifier| s@) =~= matching_specifiers(
                    iv.take(a as int),
                    name@,
                ) + named_with_local(sv.take(b as int + 1), name@));
            }
            b = b + 1;
        }
        proof {
            assert(sv.take(sv.len() as int) =~= sv);
            assert(iv.take(a as int + 1) =~= iv.take(a as int).push(iv[a as int]));
            lemma_matching_specifiers_push(iv.take(a as int), iv[a as int], name@);
            assert(r@.map_values(|s: ImportSpecifier| s@) =~= matching_specifiers(
                iv.take(a as int + 1),
                name@,
            ));
        }
        a = a + 1;
    }
    proof {
        assert(iv.take(iv.len() as int) =~= iv);
    }
    r
}

/// Answers the batch import query for one parsed module: the declarations
/// matching the source, and, under a specifier filter, the specifiers
/// binding it.  Returns nothing exactly when there is nothing to report —
/// no declaration matches, or the filtered specifiers come up empty.
pub fn analyze(parsed: &ParsedModule, request: &AnalysisRequest) -> (r: Option<AnalysisResponse>)
    ensures
        r is Some <==> analyze_emits(*request, parsed.module.items@),
        match r {
            Some(resp) => {
                &&& resp.imports@.map_values(|d: ImportDecl| d@) == matching_imports(
                    request.source@,
                    parsed.module.items@,
                )
                &&& match request.specifier {
                    Some(name) => resp.specifiers matches Some(sp) && sp@.map_values(
                        |s: ImportSpecifier| s@,
                    ) == matching_specifiers(
                        matching_imports(request.source@, parsed.module.items@),
                        name@,
                    ),
                    None => resp.specifiers is None,
                }
            },
            None => true,
        },
{
    let imports = get_imports(&parsed.module, request);
    if imports.len() == 0 {
        return None;
    }
    let specifiers: Option<Vec<ImportSpecifier>> = match &request.specifier {
        Some(name) => {
            let sp = get_specifiers(&imports, name);
            if sp.len() == 0 {
                return None;
            }
            Some(sp)
        },
        None => None,
    };
    Some(AnalysisResponse { imports, specifiers })
}

} // verus!
