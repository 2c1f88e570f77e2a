//! The tag match strategy.
//!
//! Selects markup elements anywhere in a module — elements can appear
//! wherever an expression is legal, so the search descends the whole tree —
//! whose normalized name equals the query's tag name exactly, optionally
//! narrowed by an attribute filter over the element's own opening-tag
//! attributes.  What is emitted is always the whole element's span, in
//! document (pre-order) order.

use vstd::prelude::*;

use crate::ast::{
    AttrName, ElementName, JsxAttr, JsxAttrOrSpread, JsxAttrValue, JsxElement, JsxMemberExpr,
    JsxObject, Lit, Module, ModuleItem, Span,
};
use crate::parser::ParsedModule;
use crate::processor::ProcessorRequest;
use crate::utils::str_eq;

verus! {

/// The tag query: find elements named `name`, optionally restricted to
/// those carrying the attribute `attribute`, optionally with the exact
/// stringified value `value`.
pub struct TagsRequest {
    /// The directory the run searches.
    pub path: String,
    /// The tag name to match, exactly and case-sensitively.
    pub name: String,
    /// When given, only elements with an attribute of this name match.
    pub attribute: Option<String>,
    /// When given together with `attribute`, the attribute's stringified
    /// value must equal this exactly.
    pub value: Option<String>,
}

/// The name of a member-expression element: the object's name and the
/// property name concatenated, with no separator inserted.
pub open spec fn member_name(m: JsxMemberExpr) -> Seq<char>
    decreases m,
{
    object_name(m.obj) + m.prop@
}

/// The name of a member expression's object part.
pub open spec fn object_name(o: JsxObject) -> Seq<char>
    decreases o,
{
    match o {
        JsxObject::Ident(s) => s@,
        JsxObject::Member(b) => member_name(*b),
    }
}

/// The normalized name of an element: an identifier stands as itself; a
/// member expression and a namespace-qualified name concatenate their
/// parts with no separator inserted.
pub open spec fn element_name(n: ElementName) -> Seq<char> {
    match n {
        ElementName::Ident(s) => s@,
        ElementName::Member(m) => member_name(m),
        ElementName::Namespaced { ns, name } => ns@ + name@,
    }
}

/// The normalized name of an attribute: an identifier stands as itself, a
/// namespace-qualified name is namespace and local name concatenated.
pub open spec fn attr_name(n: AttrName) -> Seq<char> {
    match n {
        AttrName::Ident(s) => s@,
        AttrName::Namespaced { ns, name } => ns@ + name@,
    }
}

/// The text a literal is stringified to for attribute comparison: its
/// carried text for string, numeric, big-integer, regular-expression and
/// markup-text literals, `true`/`false` for booleans, and the fixed token
/// for null.
pub open spec fn lit_text(l: Lit) -> Seq<char> {
    match l {
        Lit::Str(s) => s@,
        Lit::Bool(b) => if b {
            "true"@
        } else {
            "false"@
        },
        Lit::Num(s) => s@,
        Lit::BigInt(s) => s@,
        Lit::Regex(s) => s@,
        Lit::JsxText(s) => s@,
        Lit::Null => "null"@,
    }
}

/// The text an attribute's value is stringified to: a literal's text, also
/// inside an expression container; the text `true` for the boolean
/// shorthand, so that `<p isRequired>` satisfies the filter
/// `isRequired=true` and no other value; and the empty string for any
/// non-literal value, which can therefore only match an empty value filter.
pub open spec fn attr_value_text(v: Option<JsxAttrValue>) -> Seq<char> {
    match v {
        None => "true"@,
        Some(JsxAttrValue::Lit(l)) => lit_text(l),
        Some(JsxAttrValue::ExprLit(l)) => lit_text(l),
        Some(JsxAttrValue::ExprOther) => Seq::empty(),
        Some(JsxAttrValue::Other) => Seq::empty(),
    }
}

/// Whether one attribute-list entry satisfies the filter: it is a simple
/// name/value attribute — spread attributes never participate — whose name
/// equals `name`, and, when a value filter is given, whose stringified
/// value equals it exactly.
pub open spec fn attr_satisfies(a: JsxAttrOrSpread, name: Seq<char>, value: Option<Seq<char>>) -> bool {
    match a {
        JsxAttrOrSpread::Attr(attr) => {
            &&& attr_name(attr.name) == name
            &&& match value {
                Some(v) => attr_value_text(attr.value) == v,
                None => true,
            }
        },
        JsxAttrOrSpread::Spread => false,
    }
}

/// Whether some attribute of the element's own opening tag — never an
/// ancestor's — satisfies the filter.
pub open spec fn element_has_attr(e: JsxElement, name: Seq<char>, value: Option<Seq<char>>) -> bool {
    exists|i: int| 0 <= i < e.attrs@.len() && attr_satisfies(#[trigger] e.attrs@[i], name, value)
}

/// The view of an optional string.
pub open spec fn opt_view(v: Option<String>) -> Option<Seq<char>> {
    match v {
        Some(s) => Some(s@),
        None => None,
    }
}

/// Whether the query selects this element: its normalized name equals the
/// query's tag name exactly, and, when an attribute filter is given, the
/// element's own attributes satisfy it.
pub open spec fn element_matches(req: TagsRequest, e: JsxElement) -> bool {
    &&& element_name(e.name) == req.name@
    &&& match req.attribute {
        Some(a) => element_has_attr(e, a@, opt_view(req.value)),
        None => true,
    }
}

/// The spans the query selects in this element's tree, in document order:
/// the element's own whole span when it matches, then its descendants'
/// spans in order.
pub open spec fn element_spans(req: TagsRequest, e: JsxElement) -> Seq<Span>
    decreases e,
{
    (if element_matches(req, e) {
        seq![e.span]
    } else {
        Seq::empty()
    }) + children_spans(req, e.children@)
}

/// The spans the query selects in a sequence of element trees, in order.
pub open spec fn children_spans(req: TagsRequest, es: Seq<JsxElement>) -> Seq<Span>
    decreases es,
{
    if es.len() == 0 {
        Seq::empty()
    } else {
        element_spans(req, es[0]) + children_spans(req, es.drop_first())
    }
}

/// One top-level item's contribution: a markup tree's spans; nothing for
/// an import declaration.
pub open spec fn item_tag_spans(req: TagsRequest, item: ModuleItem) -> Seq<Span> {
    match item {
        ModuleItem::Jsx(e) => element_spans(req, e),
        _ => Seq::empty(),
    }
}

/// The spans the query selects in a module's items, in document order.
pub open spec fn tag_spans(req: TagsRequest, items: Seq<ModuleItem>) -> Seq<Span>
    decreases items.len(),
{
    if items.len() == 0 {
        Seq::empty()
    } else {
        item_tag_spans(req, items[0]) + tag_spans(req, items.drop_first())
    }
}

proof fn lemma_children_spans_push(req: TagsRequest, es: Seq<JsxElement>, e: JsxElement)
    ensures
        children_spans(req, es.push(e)) == children_spans(req, es) + element_spans(req, e),
    decreases es.len(),
{
    if es.len() == 0 {
        let s = es.push(e);
        assert(s[0] == e);
        assert(s.drop_first() =~= Seq::<JsxElement>::empty());
        assert(children_spans(req, s) == element_spans(req, s[0]) + children_spans(
            req,
            s.drop_first(),
        ));
        assert(children_spans(req, es.push(e)) =~= children_spans(req, es) + element_spans(
            req,
            e,
        ));
    } else {
        assert(es.push(e).drop_first() =~= es.drop_first().push(e));
        lemma_children_spans_push(req, es.drop_first(), e);
        assert(children_spans(req, es.push(e)) =~= children_spans(req, es) + element_spans(
            req,
            e,
        ));
    }
}

proof fn lemma_tag_spans_push(req: TagsRequest, items: Seq<ModuleItem>, item: ModuleItem)
    ensures
        tag_spans(req, items.push(item)) == tag_spans(req, items) + item_tag_spans(req, item),
    decreases items.len(),
{
    if items.len() == 0 {
        let its = items.push(item);
        assert(its[0] == item);
        assert(its.drop_first() =~= Seq::<ModuleItem>::empty());
        assert(tag_spans(req, its) == item_tag_spans(req, its[0]) + tag_spans(
            req,
            its.drop_first(),
        ));
        assert(tag_spans(req, items.push(item)) =~= tag_spans(req, items) + item_tag_spans(
            req,
            item,
        ));
    } else {
        assert(items.push(item).drop_first() =~= items.drop_first().push(item));
        lemma_tag_spans_push(req, items.drop_first(), item);
        assert(tag_spans(req, items.push(item)) =~= tag_spans(req, items) + item_tag_spans(
            req,
            item,
        ));
    }
}

/// The normalized name of a member-expression element, as `member_name`
/// describes.
fn get_member_name(expr: &JsxMemberExpr) -> (r: String)
    ensures
        r@ == member_name(*expr),
    decreases *expr,
{
    let prefix = match &expr.obj {
        JsxObject::Member(inner) => get_member_name(&**inner),
        JsxObject::Ident(ident) => ident.clone(),
    };
    let mut r = prefix;
    r.append(expr.prop.as_str());
    proof {
        assert(r@ =~= member_name(*expr));
    }
    r
}

/// The normalized name of an element, as `element_name` describes.
fn get_element_name(element: &JsxElement) -> (r: String)
    ensures
        r@ == element_name(element.name),
{
    match &element.name {
        ElementName::Ident(ident) => ident.clone(),
        ElementName::Member(expr) => get_member_name(expr),
        ElementName::Namespaced { ns, name } => {
            let mut r = ns.clone();
            r.append(name.as_str());
            proof {
                assert(r@ =~= element_name(element.name));
            }
            r
        },
    }
}

/// The normalized name of an attribute, as `attr_name` describes.
fn get_attribute_name(attr: &JsxAttr) -> (r: String)
    ensures
        r@ == attr_name(attr.name),
{
    match &attr.name {
        AttrName::Ident(ident) => ident.clone(),
        AttrName::Namespaced { ns, name } => {
            let mut r = ns.clone();
            r.append(name.as_str());
            proof {
                assert(r@ =~= attr_name(attr.name));
            }
            r
        },
    }
}

/// The stringification of a literal, as `lit_text` describes.
fn get_lit_value(lit: &Lit) -> (r: String)
    ensures
        r@ == lit_text(*lit),
{
    match lit {
        Lit::Str(s) => s.clone(),
        Lit::Bool(b) => if *b {
            "true".to_owned()
        } else {
            "false".to_owned()
        },
        Lit::Num(s) => s.clone(),
        Lit::BigInt(s) => s.clone(),
        Lit::Regex(s) => s.clone(),
        Lit::JsxText(s) => s.clone(),
        Lit::Null => "null".to_owned(),
    }
}

/// The stringification of an attribute's value, as `attr_value_text`
/// describes.
fn get_attribute_value(attr: &JsxAttr) -> (r: String)
    ensures
        r@ == attr_value_text(attr.value),
{
    match &attr.value {
        Some(JsxAttrValue::Lit(lit)) => get_lit_value(lit),
        Some(JsxAttrValue::ExprLit(lit)) => get_lit_value(lit),
        Some(JsxAttrValue::ExprOther) => String::new(),
        Some(JsxAttrValue::Other) => String::new(),
        None => "true".to_owned(),
    }
}

/// Whether the element's own attributes satisfy the filter, as
/// `element_has_attr` describes.
fn has_required_attr(element: &JsxElement, name: &String, value: &Option<String>) -> (r: bool)
    ensures
        r == element_has_attr(*element, name@, opt_view(*value)),
{
    let mut i: usize = 0;
    while i < element.attrs.len()
        invariant
            i <= element.attrs@.len(),
            forall|k: int|
                0 <= k < i ==> !attr_satisfies(
                    #[trigger] element.attrs@[k],
                    name@,
                    opt_view(*value),
                ),
        decreases element.attrs@.len() - i,
    {
        match &element.attrs[i] {
            JsxAttrOrSpread::Attr(attr) => {
                let attr_name_str = get_attribute_name(attr);
                if str_eq(attr_name_str.as_str(), name.as_str()) {
                    let value_ok = match value {
                        Some(v) => {
                            let attr_value = get_attribute_value(attr);
                            str_eq(attr_value.as_str(), v.as_str())
                        },
                        None => true,
                    };
                    if value_ok {
                        proof {
                            assert(attr_satisfies(element.attrs@[i as int], name@, opt_view(*value)));
                        }
                        return true;
                    }
                }
            },
            JsxAttrOrSpread::Spread => {},
        }
        i = i + 1;
    }
    false
}

/// Whether the query selects this element, as `element_matches` describes.
fn element_selected(req: &TagsRequest, element: &JsxElement) -> (r: bool)
    ensures
        r == element_matches(*req, *element),
{
    let name = get_element_name(element);
    if str_eq(name.as_str(), req.name.as_str()) {
        match &req.attribute {
            Some(attr) => has_required_attr(element, attr, &req.value),
            None => true,
        }
    } else {
        false
    }
}

/// Appends the spans the query selects in this element's tree, in document
/// order, as `element_spans` describes.
fn collect_element(req: &TagsRequest, element: &JsxElement, out: &mut Vec<Span>)
    ensures
        final(out)@ == old(out)@ + element_spans(*req, *element),
    decreases *element,
{
    let ghost base = old(out)@;
    let ghost head = if element_matches(*req, *element) {
        seq![element.span]
    } else {
        Seq::<Span>::empty()
    };
    if element_selected(req, element) {
        out.push(element.span);
    }
    proof {
        assert(out@ =~= base + head);
        assert(element.children@.take(0) =~= Seq::<JsxElement>::empty());
    }
    let mut i: usize = 0;
    while i < element.children.len()
        invariant
            i <= element.children@.len(),
            out@ == base + head + children_spans(*req, element.children@.take(i as int)),
        decreases element.children@.len() - i,
    {
        collect_element(req, &element.children[i], out);
        proof {
            assert(element.children@.take(i as int + 1) =~= element.children@.take(
                i as int,
            ).push(element.children@[i as int]));
            lemma_children_spans_push(
                *req,
                element.children@.take(i as int),
                element.children@[i as int],
            );
            assert(out@ =~= base + head + children_spans(
                *req,
                element.children@.take(i as int + 1),
            ));
        }
        i = i + 1;
    }
    proof {
        assert(element.children@.take(element.children@.len() as int) =~= element.children@);
        assert(out@ =~= base + element_spans(*req, *element));
    }
}

impl ProcessorRequest for TagsRequest {
    open spec fn spec_spans(&self, m: Module) -> Seq<Span> {
        tag_spans(*self, m.items@)
    }

    open spec fn root(&self) -> Seq<char> {
        self.path@
    }

    fn path(&self) -> &String {
        &self.path
    }

    /// Descends every markup tree in the module and collects the whole
    /// span of every matching element, in document order, as `tag_spans`
    /// describes.
    fn analyze(&self, parsed: &ParsedModule) -> (r: Vec<Span>) {
        let items = &parsed.module.items;
        let mut r: Vec<Span> = Vec::new();
        proof {
            assert(items@.take(0) =~= Seq::<ModuleItem>::empty());
        }
        let mut i: usize = 0;
        while i < items.len()
            invariant
                i <= items@.len(),
                items@ == parsed.module.items@,
                r@ == tag_spans(*self, items@.take(i as int)),
            decreases items@.len() - i,
        {
            match &items[i] {
                ModuleItem::Jsx(element) => {
                    collect_element(self, element, &mut r);
                },
                _ => {},
            }
            proof {
                assert(items@.take(i as int + 1) =~= items@.take(i as int).push(items@[i as int]));
                lemma_tag_spans_push(*self, items@.take(i as int), items@[i as int]);
                assert(r@ =~= tag_spans(*self, items@.take(i as int + 1)));
            }
            i = i + 1;
        }
        proof {
            assert(items@.take(items@.len() as int) =~= items@);
        }
        r
    }
}

} // verus!
