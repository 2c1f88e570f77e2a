//! Model of a parsed module's syntax tree.
//!
//! The library analyzes source files through this model: the surrounding
//! program parses a file with whatever parser it likes and hands over only
//! the parts the analyses read — import declarations at the top level of
//! the module, and markup (JSX) elements wherever they occur, in document
//! order.  Every field is a plain value, so everything the analyses decide
//! is stated and proved here.

use vstd::prelude::*;

verus! {

/// A half-open range of character offsets into one source file,
/// identifying a syntactic node's extent.
#[derive(Clone, Copy, PartialEq, Eq, Structural, Debug)]
pub struct Span {
    /// Character offset of the first character of the node.
    pub lo: usize,
    /// Character offset one past the last character of the node.
    pub hi: usize,
}

/// One binding introduced by an import declaration.
pub enum ImportSpecifier {
    /// A named binding, as `useState` in `import { useState } from 'react'`;
    /// `local` is the binding's local name.
    Named { local: String },
    /// A default-import binding, as `React` in `import React from 'react'`.
    Default { local: String },
    /// A namespace binding, as `ns` in `import * as ns from 'react'`.
    Namespace { local: String },
}

/// An import declaration at the top level of a module.
pub struct ImportDecl {
    /// The extent of the whole declaration.
    pub span: Span,
    /// The module specifier string literal, e.g. `react`.
    pub source: String,
    /// The bindings the declaration introduces, in source order.
    pub specifiers: Vec<ImportSpecifier>,
}

/// The object part of a member-expression element name, e.g. `a.b` in `<a.b.c>`.
pub enum JsxObject {
    Ident(String),
    Member(Box<JsxMemberExpr>),
}

/// A member-expression element name, e.g. `<foo.bar>`.
pub struct JsxMemberExpr {
    pub obj: JsxObject,
    pub prop: String,
}

/// The name of a markup element.
pub enum ElementName {
    /// A simple identifier: `<div>`.
    Ident(String),
    /// A member expression: `<foo.bar>`.
    Member(JsxMemberExpr),
    /// A namespace-qualified name: `<ns:name>`.
    Namespaced { ns: String, name: String },
}

/// The name of an attribute in an element's opening tag.
pub enum AttrName {
    Ident(String),
    Namespaced { ns: String, name: String },
}

/// A literal, carried as the text it is stringified to for attribute
/// comparison.  Numeric and big-integer literals hold their decimal
/// rendering, regular expressions their pattern text.
pub enum Lit {
    Str(String),
    Bool(bool),
    Num(String),
    BigInt(String),
    Regex(String),
    JsxText(String),
    Null,
}

/// The value of an attribute in an opening tag.
pub enum JsxAttrValue {
    /// A plain literal value: `class='foo'`.
    Lit(Lit),
    /// An expression container whose expression is itself a literal: `class={2}`.
    ExprLit(Lit),
    /// An expression container holding anything else (a variable, a call, an
    /// empty container); such a value stringifies to the empty string.
    ExprOther,
    /// An element or fragment used as the value; also stringifies empty.
    Other,
}

/// A simple name/value attribute.  A `value` of `None` is the boolean
/// shorthand form, `<p isRequired>`.
pub struct JsxAttr {
    pub name: AttrName,
    pub value: Option<JsxAttrValue>,
}

/// One entry of an opening tag's attribute list.
pub enum JsxAttrOrSpread {
    Attr(JsxAttr),
    /// A spread attribute `{...props}`; never participates in filtering.
    Spread,
}

/// A markup element: its extent, its opening tag's name and attributes,
/// and every element nested anywhere inside it, in document order.
pub struct JsxElement {
    pub span: Span,
    pub name: ElementName,
    pub attrs: Vec<JsxAttrOrSpread>,
    pub children: Vec<JsxElement>,
}

/// One top-level item of a module, as far as the analyses read it: an
/// import declaration, or the root of a markup tree found inside any other
/// statement.  Statements containing neither are not represented.
pub enum ModuleItem {
    Import(ImportDecl),
    Jsx(JsxElement),
}

/// One parsed source file's syntax tree, the unit of independent analysis.
pub struct Module {
    /// The module's items in document order.
    pub items: Vec<ModuleItem>,
}

/// The mathematical value of an [`ImportSpecifier`].
pub enum ImportSpecifierV {
    Named { local: Seq<char> },
    Default { local: Seq<char> },
    Namespace { local: Seq<char> },
}

/// The mathematical value of an [`ImportDecl`].
pub struct ImportDeclV {
    pub span: Span,
    pub source: Seq<char>,
    pub specifiers: Seq<ImportSpecifierV>,
}

impl View for ImportSpecifier {
    type V = ImportSpecifierV;

    open spec fn view(&self) -> ImportSpecifierV {
        match self {
            ImportSpecifier::Named { local } => ImportSpecifierV::Named { local: local@ },
            ImportSpecifier::Default { local } => ImportSpecifierV::Default { local: local@ },
            ImportSpecifier::Namespace { local } => ImportSpecifierV::Namespace { local: local@ },
        }
    }
}

impl View for ImportDecl {
    type V = ImportDeclV;

    open spec fn view(&self) -> ImportDeclV {
        ImportDeclV {
            span: self.span,
            source: self.source@,
            specifiers: self.specifiers@.map_values(|s: ImportSpecifier| s@),
        }
    }
}

impl Clone for ImportSpecifier {
    fn clone(&self) -> (res: Self)
        ensures
            res == *self,
    {
        match self {
            ImportSpecifier::Named { local } => ImportSpecifier::Named { local: local.clone() },
            ImportSpecifier::Default { local } => ImportSpecifier::Default { local: local.clone() },
            ImportSpecifier::Namespace { local } => ImportSpecifier::Namespace { local: local.clone() },
        }
    }
}

impl Clone for ImportDecl {
    fn clone(&self) -> (res: Self)
        ensures
            res@ == self@,
    {
        let mut specifiers: Vec<ImportSpecifier> = Vec::new();
        let mut i: usize = 0;
        while i < self.specifiers.len()
            invariant
                i <= self.specifiers.len(),
                specifiers@ == self.specifiers@.subrange(0, i as int),
            decreases self.specifiers.len() - i,
        {
            specifiers.push(self.specifiers[i].clone());
            assert(specifiers@ =~= self.specifiers@.subrange(0, i + 1));
            i = i + 1;
        }
        assert(specifiers@ =~= self.specifiers@);
        let res = ImportDecl { span: self.span, source: self.source.clone(), specifiers };
        assert(res@.specifiers =~= self@.specifiers);
        res
    }
}

} // verus!
