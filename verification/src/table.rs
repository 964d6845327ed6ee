//! Reading the rows of a table out of a page.
//!
//! The page is parsed and searched by libxml. The rows are found with one
//! XPath expression from the page's root, the cells of each row with another
//! from the row; the cells are then read as `getter::table_getter` reads
//! them.

use libxml::parser::Parser;
use libxml::parser::XmlParseError;
use libxml::tree::Document;
use libxml::tree::Node;
use libxml::xpath::Context;
use vstd::prelude::*;
use crate::error::MyError;
use crate::getter::{cells, read_rows, table_getter};
use crate::proxy::Proxy;
use crate::text::{contains_char, to_chars};

verus! {

/// `libxml::tree::Document`, a parsed page. Nothing is known of what is
/// inside.
#[verifier::external_type_specification]
#[verifier::external_body]
pub struct ExDocument(libxml::tree::Document);

/// `libxml::tree::Node`, a node of a parsed page. Nothing is known of what is
/// inside.
#[verifier::external_type_specification]
#[verifier::external_body]
pub struct ExNode(libxml::tree::Node);

/// `libxml::xpath::Context`, in which XPath expressions are evaluated.
/// Nothing is known of what is inside.
#[verifier::external_type_specification]
#[verifier::external_body]
pub struct ExContext(libxml::xpath::Context);

/// `libxml::parser::XmlParseError`, the reason why a page was not parsed.
/// Nothing is known of what is inside.
#[verifier::external_type_specification]
#[verifier::external_body]
pub struct ExXmlParseError(libxml::parser::XmlParseError);

/// `libxml::parser::Parser::parse_string` of the parser that
/// `Parser::default_html` makes. Nothing is stated of the document; the
/// parser refuses a page of two gigabytes or more and one for which libxml2
/// hands back no document.
#[verifier::external_body]
fn parse_html(page: &str) -> Result<Document, XmlParseError> {
    Parser::default_html().parse_string(page)
}

/// `libxml::xpath::Context::new`. Nothing is stated of the context.
#[verifier::external_body]
fn xpath_context(document: &Document) -> Result<Context, ()> {
    Context::new(document)
}

/// `libxml::tree::Document::get_root_element`. Nothing is stated of the
/// node.
#[verifier::external_body]
fn root_element(document: &Document) -> Option<Node> {
    document.get_root_element()
}

/// `libxml::xpath::Context::node_evaluate` of `xpath` at `node`, and
/// `Object::get_nodes_as_vec` of what it found. Nothing is stated of the
/// nodes. The expression must hold no NUL character: it is handed on as a C
/// string.
#[verifier::external_body]
fn find_nodes(context: &Context, xpath: &str, node: &Node) -> (found: Result<Vec<Node>, ()>)
    requires
        !xpath@.contains('\0'),
{
    Ok(context.node_evaluate(xpath, node)?.get_nodes_as_vec())
}

/// `libxml::tree::Document::node_to_string`. Nothing is stated of the text.
#[verifier::external_body]
fn node_text(document: &Document, node: &Node) -> String {
    document.node_to_string(node)
}

impl From<XmlParseError> for MyError {
    fn from(e: XmlParseError) -> (error: MyError) {
        MyError::XmlParse
    }
}

impl vstd::std_specs::convert::FromSpecImpl<XmlParseError> for MyError {
    open spec fn obeys_from_spec() -> bool {
        true
    }

    open spec fn from_spec(e: XmlParseError) -> MyError {
        MyError::XmlParse
    }
}

/// The texts of `nodes` as libxml writes them: one text for each node, in
/// the order of the nodes.
fn texts_of(document: &Document, nodes: &Vec<Node>) -> (texts: Vec<String>)
    ensures
        texts@.len() == nodes@.len(),
{
    let mut texts: Vec<String> = Vec::new();
    let mut i: usize = 0;
    while i < nodes.len()
        invariant
            i <= nodes.len(),
            texts@.len() == i,
        decreases nodes.len() - i,
    {
        texts.push(node_text(document, &nodes[i]));
        i += 1;
    }
    texts
}

/// The texts of the nodes that `xpath_col` finds from `line`. Which nodes
/// are found and what their texts are is libxml's matter. The one way to
/// fail is that the expression cannot be evaluated, and that is reported as
/// `XPathEval`.
fn cells_of(document: &Document, context: &Context, xpath_col: &str, line: &Node) -> (r: Result<
    Vec<String>,
    MyError,
>)
    requires
        !xpath_col@.contains('\0'),
    ensures
        r matches Err(e) ==> e == MyError::XPathEval,
{
    match find_nodes(context, xpath_col, line) {
        Ok(cols) => Ok(texts_of(document, &cols)),
        Err(_) => Err(MyError::XPathEval),
    }
}

/// Reads the proxies of a page that lists them in a table. `xpath_line`
/// finds the rows from the page's root, `xpath_col` the cells from a row,
/// and `info_pos` names the cells that hold address, port, anonymity and
/// scheme. The proxies are those that the rows found read as; which rows are
/// found is libxml's matter.
///
/// A page that cannot be parsed or has no root ends in `XmlParse`, a
/// context that cannot be made in `ContextInit`, an expression that cannot
/// be evaluated or holds a NUL character in `XPathEval`.
pub fn table_page(page: &str, xpath_line: &str, xpath_col: &str, info_pos: &[usize; 4]) -> (r:
    Result<Vec<Proxy>, MyError>)
    ensures
        r matches Ok(found) ==> exists|rows: Seq<Vec<String>>|
            found@ == read_rows(cells(rows), info_pos@),
        xpath_line@.contains('\0') || xpath_col@.contains('\0') ==> r == Err::<
            Vec<Proxy>,
            MyError,
        >(MyError::XPathEval),
{
    if contains_char(&to_chars(xpath_line), '\0') || contains_char(&to_chars(xpath_col), '\0') {
        return Err(MyError::XPathEval);
    }
    let document = match parse_html(page) {
        Ok(document) => document,
        Err(e) => {
            return Err(MyError::from(e));
        },
    };
    let context = match xpath_context(&document) {
        Ok(context) => context,
        Err(_) => {
            return Err(MyError::ContextInit);
        },
    };
    let root = match root_element(&document) {
        Some(root) => root,
        None => {
            return Err(MyError::XmlParse);
        },
    };
    let lines = match find_nodes(&context, xpath_line, &root) {
        Ok(lines) => lines,
        Err(_) => {
            return Err(MyError::XPathEval);
        },
    };
    let mut rows: Vec<Vec<String>> = Vec::new();
    let mut i: usize = 0;
    while i < lines.len()
        invariant
            i <= lines.len(),
            !xpath_line@.contains('\0'),
            !xpath_col@.contains('\0'),
        decreases lines.len() - i,
    {
        match cells_of(&document, &context, xpath_col, &lines[i]) {
            Ok(texts) => {
                rows.push(texts);
            },
            Err(e) => {
                return Err(e);
            },
        }
        i += 1;
    }
    let found = table_getter(&rows, info_pos);
    assert(found@ == read_rows(cells(rows@), info_pos@));
    Ok(found)
}

} // verus!
