use flashlight::analysis::imports::ImportsRequest;
use flashlight::analysis::tags::TagsRequest;
use flashlight::ast::{
    AttrName, ElementName, ImportDecl, ImportSpecifier, JsxAttr, JsxAttrOrSpread, JsxAttrValue,
    JsxElement, JsxMemberExpr, JsxObject, Lit, Module, ModuleItem, Span,
};
use flashlight::logger::{get_logger, OutputFormat};
use flashlight::parser::ParsedModule;
use flashlight::processor::{Processor, ProcessorRequest};
use flashlight::source_map::SourceMap;
use flashlight::utils::parse_key_value;

pub fn span_of(text: &str, needle: &str) -> Span {
    let lo = text.find(needle).expect("fixture should contain the needle");
    Span { lo, hi: lo + needle.len() }
}

pub fn make_parsed(file_name: &str, abs_path: &str, text: &str, items: Vec<ModuleItem>) -> ParsedModule {
    ParsedModule {
        path: file_name.to_string(),
        source_map: SourceMap {
            file_name: file_name.to_string(),
            abs_path: abs_path.to_string(),
            lines: text.split('\n').map(|l| l.to_string()).collect(),
        },
        module: Module { items },
    }
}

pub fn import_item(text: &str, needle: &str, source: &str, named: &[&str]) -> ModuleItem {
    ModuleItem::Import(ImportDecl {
        span: span_of(text, needle),
        source: source.to_string(),
        specifiers: named
            .iter()
            .map(|n| ImportSpecifier::Named { local: n.to_string() })
            .collect(),
    })
}

pub fn attr(name: &str, value: Option<JsxAttrValue>) -> JsxAttrOrSpread {
    JsxAttrOrSpread::Attr(JsxAttr { name: AttrName::Ident(name.to_string()), value })
}

pub fn element(text: &str, needle: &str, name: &str, attrs: Vec<JsxAttrOrSpread>) -> JsxElement {
    JsxElement {
        span: span_of(text, needle),
        name: ElementName::Ident(name.to_string()),
        attrs,
        children: Vec::new(),
    }
}

pub fn run<R: ProcessorRequest>(request: R, format: OutputFormat, files: Vec<ParsedModule>) -> String {
    let mut processor = Processor::new(request, get_logger(format));
    let mut out = String::new();
    for file in &files {
        for line in processor.analyze(file) {
            out.push_str(&line);
            out.push('\n');
        }
    }
    if let Some(block) = processor.end() {
        out.push_str(&block);
        out.push('\n');
    }
    out
}

pub fn imports_request(source: &str, specifier: Option<&str>) -> ImportsRequest {
    ImportsRequest {
        path: ".".to_string(),
        source: source.to_string(),
        specifier: specifier.map(|s| s.to_string()),
    }
}

pub fn tags_request(name: &str, attribute: Option<&str>) -> TagsRequest {
    let pair = parse_key_value(attribute.map(|s| s.to_string()));
    TagsRequest {
        path: ".".to_string(),
        name: name.to_string(),
        attribute: pair.0,
        value: pair.1,
    }
}

#[test]
fn single_import() {
    let text = "\n        import { useState } from 'react'\n        import { hi } from './yo'\n        ";
    let parsed = make_parsed(
        "./imports.tsx",
        "/imports.tsx",
        text,
        vec![
            import_item(text, "import { useState } from 'react'", "react", &["useState"]),
            import_item(text, "import { hi } from './yo'", "./yo", &["hi"]),
        ],
    );

    let out = run(imports_request("react", None), OutputFormat::Console, vec![parsed]);
    assert_eq!(out, "./imports.tsx:2:9 import { useState } from 'react'\n");
}

#[test]
fn multiple_imports() {
    let text = "\n        import { useState } from 'react'\n        import { hi } from './yo'\n        import { useMemo } from 'react'\n        ";
    let parsed = make_parsed(
        "./imports.tsx",
        "/imports.tsx",
        text,
        vec![
            import_item(text, "import { useState } from 'react'", "react", &["useState"]),
            import_item(text, "import { hi } from './yo'", "./yo", &["hi"]),
            import_item(text, "import { useMemo } from 'react'", "react", &["useMemo"]),
        ],
    );

    let out = run(imports_request("react", None), OutputFormat::Console, vec![parsed]);
    assert_eq!(
        out,
        format!(
            "{}\n{}\n",
            "./imports.tsx:2:9 import { useState } from 'react'",
            "./imports.tsx:4:9 import { useMemo } from 'react'"
        )
    );
}

#[test]
fn import_with_specifier() {
    let text = "\n        import { useState } from 'react'\n        import { useMemo } from 'react'\n        ";
    let parsed = make_parsed(
        "./imports.tsx",
        "/imports.tsx",
        text,
        vec![
            import_item(text, "import { useState } from 'react'", "react", &["useState"]),
            import_item(text, "import { useMemo } from 'react'", "react", &["useMemo"]),
        ],
    );

    let out = run(imports_request("react", Some("useMemo")), OutputFormat::Console, vec![parsed]);
    assert_eq!(out, "./imports.tsx:3:9 import { useMemo } from 'react'\n");
}

#[test]
fn tags() {
    let text = "\n        const ui = <>\n            <p class='foo'>hi</p>\n            <p class='bar'>ho</p>\n            <div class='foo'>bar</div>\n        </>\n        ";
    let str_attr = |v: &str| Some(JsxAttrValue::Lit(Lit::Str(v.to_string())));
    let parsed = make_parsed(
        "./tags.tsx",
        "/tags.tsx",
        text,
        vec![
            ModuleItem::Jsx(element(text, "<p class='foo'>hi</p>", "p", vec![attr("class", str_attr("foo"))])),
            ModuleItem::Jsx(element(text, "<p class='bar'>ho</p>", "p", vec![attr("class", str_attr("bar"))])),
            ModuleItem::Jsx(element(text, "<div class='foo'>bar</div>", "div", vec![attr("class", str_attr("foo"))])),
        ],
    );

    let out = run(tags_request("p", None), OutputFormat::Console, vec![parsed]);
    assert_eq!(
        out,
        format!(
            "{}\n{}\n",
            "./tags.tsx:3:13 <p class='foo'>hi</p>",
            "./tags.tsx:4:13 <p class='bar'>ho</p>",
        )
    );
}

#[test]
fn namespaced_tags() {
    let text = "\n        const ui = <>\n            <p class='foo'>hi</p>\n            <foo.bar class='bar'>ho</foo.bar>\n            <div class='foo'>bar</div>\n        </>\n        ";
    let str_attr = |v: &str| Some(JsxAttrValue::Lit(Lit::Str(v.to_string())));
    let member = JsxElement {
        span: span_of(text, "<foo.bar class='bar'>ho</foo.bar>"),
        name: ElementName::Member(JsxMemberExpr {
            obj: JsxObject::Ident("foo".to_string()),
            prop: "bar".to_string(),
        }),
        attrs: vec![attr("class", str_attr("bar"))],
        children: Vec::new(),
    };
    let parsed = make_parsed(
        "./tags.tsx",
        "/tags.tsx",
        text,
        vec![
            ModuleItem::Jsx(element(text, "<p class='foo'>hi</p>", "p", vec![attr("class", str_attr("foo"))])),
            ModuleItem::Jsx(member),
            ModuleItem::Jsx(element(text, "<div class='foo'>bar</div>", "div", vec![attr("class", str_attr("foo"))])),
        ],
    );

    // A member-expression name concatenates its parts with no separator,
    // so the element <foo.bar> is found under the tag name `foobar`.
    let out = run(tags_request("foobar", None), OutputFormat::Console, vec![parsed]);
    assert_eq!(out, "./tags.tsx:4:13 <foo.bar class='bar'>ho</foo.bar>\n");
}

#[test]
fn tags_by_attr() {
    let text = "\n        const ui = <>\n            <p class='foo'>hi</p>\n            <p id='bar'>ho</p>\n            <div class='foo'>\n                <p class='bar'>ho</p>\n            </div>\n        </>\n        ";
    let str_attr = |v: &str| Some(JsxAttrValue::Lit(Lit::Str(v.to_string())));
    let div = JsxElement {
        span: Span {
            lo: text.find("<div").unwrap(),
            hi: text.find("</div>").unwrap() + "</div>".len(),
        },
        name: ElementName::Ident("div".to_string()),
        attrs: vec![attr("class", str_attr("foo"))],
        children: vec![element(text, "<p class='bar'>ho</p>", "p", vec![attr("class", str_attr("bar"))])],
    };
    let parsed = make_parsed(
        "./tags.tsx",
        "/tags.tsx",
        text,
        vec![
            ModuleItem::Jsx(element(text, "<p class='foo'>hi</p>", "p", vec![attr("class", str_attr("foo"))])),
            ModuleItem::Jsx(element(text, "<p id='bar'>ho</p>", "p", vec![attr("id", str_attr("bar"))])),
            ModuleItem::Jsx(div),
        ],
    );

    let out = run(tags_request("p", Some("class")), OutputFormat::Console, vec![parsed]);
    assert_eq!(
        out,
        format!(
            "{}\n{}\n",
            "./tags.tsx:3:13 <p class='foo'>hi</p>",
            "./tags.tsx:6:17 <p class='bar'>ho</p>"
        )
    );
}

#[test]
fn tags_by_attr_value_string() {
    let text = "\n        const ui = <>\n            <p class='foo'>one</p>\n            <p id='bar'>two</p>\n            <div class='foo'>\n                <p class='bar'>three</p>\n            </div>\n            <p class={\"bar\"}>four</p>\n        </>\n        ";
    let str_attr = |v: &str| Some(JsxAttrValue::Lit(Lit::Str(v.to_string())));
    let div = JsxElement {
        span: Span {
            lo: text.find("<div").unwrap(),
            hi: text.find("</div>").unwrap() + "</div>".len(),
        },
        name: ElementName::Ident("div".to_string()),
        attrs: vec![attr("class", str_attr("foo"))],
        children: vec![element(text, "<p class='bar'>three</p>", "p", vec![attr("class", str_attr("bar"))])],
    };
    let parsed = make_parsed(
        "./tags.tsx",
        "/tags.tsx",
        text,
        vec![
            ModuleItem::Jsx(element(text, "<p class='foo'>one</p>", "p", vec![attr("class", str_attr("foo"))])),
            ModuleItem::Jsx(element(text, "<p id='bar'>two</p>", "p", vec![attr("id", str_attr("bar"))])),
            ModuleItem::Jsx(div),
            ModuleItem::Jsx(element(
                text,
                "<p class={\"bar\"}>four</p>",
                "p",
                vec![attr("class", Some(JsxAttrValue::ExprLit(Lit::Str("bar".to_string()))))],
            )),
        ],
    );

    let out = run(tags_request("p", Some("class=bar")), OutputFormat::Console, vec![parsed]);
    assert_eq!(
        out,
        format!(
            "{}\n{}\n",
            "./tags.tsx:6:17 <p class='bar'>three</p>",
            "./tags.tsx:8:13 <p class={\"bar\"}>four</p>",
        )
    );
}

#[test]
fn tags_by_attr_value_number() {
    let text = "\n        const ui = <>\n            <p class={1}>hi</p>\n            <p id='bar'>ho</p>\n            <div class='foo'>\n                <p class={2}>ho</p>\n            </div>\n        </>\n        ";
    let str_attr = |v: &str| Some(JsxAttrValue::Lit(Lit::Str(v.to_string())));
    let num_attr = |v: &str| Some(JsxAttrValue::ExprLit(Lit::Num(v.to_string())));
    let div = JsxElement {
        span: Span {
            lo: text.find("<div").unwrap(),
            hi: text.find("</div>").unwrap() + "</div>".len(),
        },
        name: ElementName::Ident("div".to_string()),
        attrs: vec![attr("class", str_attr("foo"))],
        children: vec![element(text, "<p class={2}>ho</p>", "p", vec![attr("class", num_attr("2"))])],
    };
    let parsed = make_parsed(
        "./tags.tsx",
        "/tags.tsx",
        text,
        vec![
            ModuleItem::Jsx(element(text, "<p class={1}>hi</p>", "p", vec![attr("class", num_attr("1"))])),
            ModuleItem::Jsx(element(text, "<p id='bar'>ho</p>", "p", vec![attr("id", str_attr("bar"))])),
            ModuleItem::Jsx(div),
        ],
    );

    let out = run(tags_request("p", Some("class=2")), OutputFormat::Console, vec![parsed]);
    assert_eq!(out, "./tags.tsx:6:17 <p class={2}>ho</p>\n");
}

fn bool_fixture(text: &str) -> ParsedModule {
    let str_attr = |v: &str| Some(JsxAttrValue::Lit(Lit::Str(v.to_string())));
    let bool_attr = |v: bool| Some(JsxAttrValue::ExprLit(Lit::Bool(v)));
    let div = JsxElement {
        span: Span {
            lo: text.find("<div").unwrap(),
            hi: text.find("</div>").unwrap() + "</div>".len(),
        },
        name: ElementName::Ident("div".to_string()),
        attrs: vec![attr("class", str_attr("foo"))],
        children: vec![element(text, "<p isRequired={true}>o</p>", "p", vec![attr("isRequired", bool_attr(true))])],
    };
    make_parsed(
        "./tags.tsx",
        "/tags.tsx",
        text,
        vec![
            ModuleItem::Jsx(element(text, "<p isRequired={false}>hi</p>", "p", vec![attr("isRequired", bool_attr(false))])),
            ModuleItem::Jsx(element(text, "<p id='bar'>ho</p>", "p", vec![attr("id", str_attr("bar"))])),
            ModuleItem::Jsx(element(text, "<p isRequired>cherry</p>", "p", vec![attr("isRequired", None)])),
            ModuleItem::Jsx(div),
        ],
    )
}

#[test]
fn tags_by_attr_value_bool() {
    let text = "\n        const ui = <>\n            <p isRequired={false}>hi</p>\n            <p id='bar'>ho</p>\n            <p isRequired>cherry</p>\n            <div class='foo'>\n                <p isRequired={true}>o</p>\n            </div>\n        </>\n        ";

    let out = run(
        tags_request("p", Some("isRequired=true")),
        OutputFormat::Console,
        vec![bool_fixture(text)],
    );
    assert_eq!(
        out,
        format!(
            "{}\n{}\n",
            "./tags.tsx:5:13 <p isRequired>cherry</p>",
            "./tags.tsx:7:17 <p isRequired={true}>o</p>",
        )
    );

    let out = run(
        tags_request("p", Some("isRequired=false")),
        OutputFormat::Console,
        vec![bool_fixture(text)],
    );
    assert_eq!(out, "./tags.tsx:3:13 <p isRequired={false}>hi</p>\n");
}

#[test]
fn tags_by_attr_value_regex() {
    let text = "\n        const ui = <>\n            <p class={/a?.*cd/}>hi</p>\n            <p id='bar'>ho</p>\n            <div class='foo'>\n                <p class={/abc/}>ho</p>\n            </div>\n        </>\n        ";
    let str_attr = |v: &str| Some(JsxAttrValue::Lit(Lit::Str(v.to_string())));
    let regex_attr = |v: &str| Some(JsxAttrValue::ExprLit(Lit::Regex(v.to_string())));
    let div = JsxElement {
        span: Span {
            lo: text.find("<div").unwrap(),
            hi: text.find("</div>").unwrap() + "</div>".len(),
        },
        name: ElementName::Ident("div".to_string()),
        attrs: vec![attr("class", str_attr("foo"))],
        children: vec![element(text, "<p class={/abc/}>ho</p>", "p", vec![attr("class", regex_attr("abc"))])],
    };
    let parsed = make_parsed(
        "./tags.tsx",
        "/tags.tsx",
        text,
        vec![
            ModuleItem::Jsx(element(text, "<p class={/a?.*cd/}>hi</p>", "p", vec![attr("class", regex_attr("a?.*cd"))])),
            ModuleItem::Jsx(element(text, "<p id='bar'>ho</p>", "p", vec![attr("id", str_attr("bar"))])),
            ModuleItem::Jsx(div),
        ],
    );

    let out = run(tags_request("p", Some("class=a?.*cd")), OutputFormat::Console, vec![parsed]);
    assert_eq!(out, "./tags.tsx:3:13 <p class={/a?.*cd/}>hi</p>\n");
}

fn logger_fixture(file_name: &str, abs_path: &str, text: &str) -> ParsedModule {
    let str_attr = |v: &str| Some(JsxAttrValue::Lit(Lit::Str(v.to_string())));
    make_parsed(
        file_name,
        abs_path,
        text,
        vec![
            ModuleItem::Jsx(element(text, "<p class='foo'>hi</p>", "p", vec![attr("class", str_attr("foo"))])),
            ModuleItem::Jsx(element(text, "<p class='bar'>ho</p>", "p", vec![attr("class", str_attr("bar"))])),
            ModuleItem::Jsx(element(text, "<div class='foo'>bar</div>", "div", vec![attr("class", str_attr("foo"))])),
        ],
    )
}

#[test]
fn quickfix_logger() {
    let text = "\n        const ui = <>\n            <p class='foo'>hi</p>\n            <p class='bar'>ho</p>\n            <div class='foo'>bar</div>\n        </>\n        ";
    let parsed = logger_fixture("./quickfix-logger.tsx", "/quickfix-logger.tsx", text);

    let out = run(tags_request("p", None), OutputFormat::Quickfix, vec![parsed]);
    assert!(out.contains("/quickfix-logger.tsx:3:13: <p class='foo'>hi</p>"));
    assert!(out.contains("/quickfix-logger.tsx:4:13: <p class='bar'>ho</p>"));
}

#[test]
fn json_logger() {
    let text = "\n        const ui = <>\n            <p class='foo'>hi</p>\n            <p class='bar'>ho</p>\n            <div class='foo'>bar</div>\n        </>\n        ";
    let parsed = logger_fixture("./json-logger.tsx", "/json-logger.tsx", text);

    let out = run(tags_request("p", None), OutputFormat::Json, vec![parsed]);
    assert!(out.contains(
        "{\"file\": \"/json-logger.tsx\", \"line\": 3, \"column\": 13, \"text\": \"<p class='foo'>hi</p>\"}"
    ));
    assert!(out.contains(
        "{\"file\": \"/json-logger.tsx\", \"line\": 4, \"column\": 13, \"text\": \"<p class='bar'>ho</p>\"}"
    ));
}

#[test]
fn searches_multiple_files() {
    let foo_text = "\n        import {useState} from 'react'\n        import {hi} from './yo'\n        ";
    let foo = make_parsed(
        "./foo.js",
        "/foo.js",
        foo_text,
        vec![
            import_item(foo_text, "import {useState} from 'react'", "react", &["useState"]),
            import_item(foo_text, "import {hi} from './yo'", "./yo", &["hi"]),
        ],
    );

    let bar_text = "\n        import {createRoot} from 'react-dom'\n        import {useMemo} from 'react'\n        ";
    let bar = make_parsed(
        "./bar.tsx",
        "/bar.tsx",
        bar_text,
        vec![
            import_item(bar_text, "import {createRoot} from 'react-dom'", "react-dom", &["createRoot"]),
            import_item(bar_text, "import {useMemo} from 'react'", "react", &["useMemo"]),
        ],
    );

    let out = run(imports_request("react", None), OutputFormat::Console, vec![foo, bar]);
    assert_eq!(
        out,
        format!(
            "{}\n{}\n",
            "./foo.js:2:9 import {useState} from 'react'",
            "./bar.tsx:3:9 import {useMemo} from 'react'"
        )
    );
}
