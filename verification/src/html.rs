//! The upstream fetcher/parser's pure half: turning a fetched registry page
//! into sections.
//!
//! The markup itself is parsed by the `select` crate. Its document is opaque
//! here, so what a find or a text call returns is named as a function of the
//! document value and the arguments; since the parse itself is a function of
//! the markup, those names are in turn tied to page-level names over the
//! fetched text, and the traversal — which modules are read, which cells
//! pair, how a missing heading defaults — is this crate's own verified logic
//! over those names.

use vstd::prelude::*;
use vstd::string::*;

use crate::section::Section;
use crate::section::SectionData;
use crate::section::fallback_text;
use crate::section::opt_text_view;
use crate::section::paired_body;
use crate::section::rendered_sections;
use crate::section::sections_to_text;
use crate::section::sections_view;
use crate::section::table_to_section;
use crate::section::texts_view;
use crate::section::title_or_default;

verus! {

#[verifier::external_type_specification]
#[verifier::external_body]
pub struct ExDocument(select::document::Document);

/// The node indexes, in document order, of the document's elements whose
/// class attribute holds `class`.
pub uninterp spec fn doc_class_finds(doc: select::document::Document, class: Seq<char>) -> Seq<
    usize,
>;

/// The node indexes, in document order, of the descendants of node `node`
/// whose class attribute holds `class`.
pub uninterp spec fn node_class_finds(
    doc: select::document::Document,
    node: usize,
    class: Seq<char>,
) -> Seq<usize>;

/// The node indexes, in document order, of the descendants of node `node`
/// whose element name is `name`.
pub uninterp spec fn node_name_finds(
    doc: select::document::Document,
    node: usize,
    name: Seq<char>,
) -> Seq<usize>;

/// The concatenated text of the text descendants of node `node`; empty for
/// an index no node has.
pub uninterp spec fn node_text_at(doc: select::document::Document, node: usize) -> Seq<char>;

/// The node indexes, in document order, of the elements of the parsed
/// markup whose class attribute holds `class`.
pub uninterp spec fn page_class_finds(body: Seq<char>, class: Seq<char>) -> Seq<usize>;

/// The node indexes, in document order, of the descendants of node `node`
/// of the parsed markup whose class attribute holds `class`.
pub uninterp spec fn page_node_class_finds(body: Seq<char>, node: usize, class: Seq<char>) -> Seq<
    usize,
>;

/// The node indexes, in document order, of the descendants of node `node`
/// of the parsed markup whose element name is `name`.
pub uninterp spec fn page_node_name_finds(body: Seq<char>, node: usize, name: Seq<char>) -> Seq<
    usize,
>;

/// The concatenated text of the text descendants of node `node` of the
/// parsed markup; empty for an index no node has.
pub uninterp spec fn page_text_at(body: Seq<char>, node: usize) -> Seq<char>;

/// Relies on select's `Document::from(&str)`: html5ever's parse of the
/// markup into a node arena, a function of the markup alone. So every find
/// and every text of the returned document is itself a function of the
/// markup, which is what ties the document-level names to the body.
#[verifier::external_body]
fn parse_document(body: &str) -> (doc: select::document::Document)
    ensures
        forall|class: Seq<char>| #[trigger] doc_class_finds(doc, class) == page_class_finds(
            body@,
            class,
        ),
        forall|n: usize, class: Seq<char>| #[trigger] node_class_finds(doc, n, class)
            == page_node_class_finds(body@, n, class),
        forall|n: usize, name: Seq<char>| #[trigger] node_name_finds(doc, n, name)
            == page_node_name_finds(body@, n, name),
        forall|n: usize| #[trigger] node_text_at(doc, n) == page_text_at(body@, n),
{
    select::document::Document::from(body)
}

/// Relies on select's `Document::find` with a `Class` predicate: yields the
/// matching nodes in document order, a function of the document and the
/// class name alone.
#[verifier::external_body]
fn find_class_nodes(doc: &select::document::Document, class: &str) -> (r: Vec<usize>)
    ensures
        r@ == doc_class_finds(*doc, class@),
{
    doc.find(select::predicate::Class(class)).map(|n| n.index()).collect()
}

/// Relies on select's `Document::nth` and `Node::find` with a `Class`
/// predicate: yields the matching descendants of node `node` in document
/// order; an index no node has yields nothing.
#[verifier::external_body]
fn node_find_class(doc: &select::document::Document, node: usize, class: &str) -> (r: Vec<usize>)
    ensures
        r@ == node_class_finds(*doc, node, class@),
{
    match doc.nth(node) {
        Some(n) => n.find(select::predicate::Class(class)).map(|d| d.index()).collect(),
        None => Vec::new(),
    }
}

/// Relies on select's `Document::nth` and `Node::find` with a `Name`
/// predicate: yields the matching descendants of node `node` in document
/// order; an index no node has yields nothing.
#[verifier::external_body]
fn node_find_name(doc: &select::document::Document, node: usize, name: &str) -> (r: Vec<usize>)
    ensures
        r@ == node_name_finds(*doc, node, name@),
{
    match doc.nth(node) {
        Some(n) => n.find(select::predicate::Name(name)).map(|d| d.index()).collect(),
        None => Vec::new(),
    }
}

/// Relies on select's `Document::nth` and `Node::text`: the concatenated
/// text of the node's text descendants, a function of the document and the
/// index alone; an index no node has yields the empty string.
#[verifier::external_body]
fn node_text(doc: &select::document::Document, node: usize) -> (r: String)
    ensures
        r@ == node_text_at(*doc, node),
{
    match doc.nth(node) {
        Some(n) => n.text(),
        None => String::new(),
    }
}

/// The texts of the given nodes, in the given order.
pub open spec fn texts_at(doc: select::document::Document, nodes: Seq<usize>) -> Seq<Seq<char>> {
    nodes.map_values(|i: usize| node_text_at(doc, i))
}

/// The title of the module at node `module`: the text of its first heading,
/// if it has one.
pub open spec fn module_title(doc: select::document::Document, module: usize) -> Option<Seq<char>> {
    let heads = node_class_finds(doc, module, "modul-overskrift"@);
    if heads.len() > 0 {
        Some(node_text_at(doc, heads[0]))
    } else {
        None
    }
}

/// The section of the module at node `module`: its title (or the sentinel)
/// and its header cells paired with its data cells in document order.
pub open spec fn module_section(doc: select::document::Document, module: usize) -> SectionData {
    SectionData {
        title: title_or_default(module_title(doc, module)),
        table_body: paired_body(
            texts_at(doc, node_name_finds(doc, module, "th"@)),
            texts_at(doc, node_name_finds(doc, module, "td"@)),
        ),
    }
}

/// The sections of the whole document: one per vehicle data module, in
/// document order.
pub open spec fn document_section_data(doc: select::document::Document) -> Seq<SectionData> {
    doc_class_finds(doc, "kjoretoy-table"@).map_values(|m: usize| module_section(doc, m))
}

/// The texts of the given nodes of the parsed markup, in the given order.
pub open spec fn page_texts_at(body: Seq<char>, nodes: Seq<usize>) -> Seq<Seq<char>> {
    nodes.map_values(|i: usize| page_text_at(body, i))
}

/// The title of the module at node `module` of the parsed markup.
pub open spec fn page_module_title(body: Seq<char>, module: usize) -> Option<Seq<char>> {
    let heads = page_node_class_finds(body, module, "modul-overskrift"@);
    if heads.len() > 0 {
        Some(page_text_at(body, heads[0]))
    } else {
        None
    }
}

/// The section of the module at node `module` of the parsed markup.
pub open spec fn page_module_section(body: Seq<char>, module: usize) -> SectionData {
    SectionData {
        title: title_or_default(page_module_title(body, module)),
        table_body: paired_body(
            page_texts_at(body, page_node_name_finds(body, module, "th"@)),
            page_texts_at(body, page_node_name_finds(body, module, "td"@)),
        ),
    }
}

/// The sections a page yields: one per vehicle data module of its parsed
/// markup, in document order — a function of the fetched text alone.
pub open spec fn page_section_data(body: Seq<char>) -> Seq<SectionData> {
    page_class_finds(body, "kjoretoy-table"@).map_values(|m: usize| page_module_section(body, m))
}

/// Reads the texts of the given nodes.
fn collect_texts(doc: &select::document::Document, nodes: &Vec<usize>) -> (r: Vec<String>)
    ensures
        texts_view(r@) == texts_at(*doc, nodes@),
{
    let mut r: Vec<String> = Vec::new();
    let mut i: usize = 0;
    proof {
        assert(texts_view(r@) =~= texts_at(*doc, nodes@.take(0)));
    }
    while i < nodes.len()
        invariant
            i <= nodes@.len(),
            texts_view(r@) == texts_at(*doc, nodes@.take(i as int)),
        decreases nodes@.len() - i,
    {
        let t = node_text(doc, nodes[i]);
        let ghost rv = r@;
        r.push(t);
        proof {
            assert(texts_view(rv.push(t)) =~= texts_view(rv).push(t@));
            assert(nodes@.take(i + 1) =~= nodes@.take(i as int).push(nodes@[i as int]));
            assert(texts_at(*doc, nodes@.take(i as int).push(nodes@[i as int])) =~= texts_at(
                *doc,
                nodes@.take(i as int),
            ).push(node_text_at(*doc, nodes@[i as int])));
        }
        i = i + 1;
    }
    proof {
        assert(nodes@.take(nodes@.len() as int) =~= nodes@);
    }
    r
}

/// Extracts the section of one vehicle data module.
fn module_to_section(doc: &select::document::Document, module: usize) -> (s: Section)
    ensures
        s@ == module_section(*doc, module),
{
    let heads = node_find_class(doc, module, "modul-overskrift");
    let title: Option<String> = if heads.len() > 0 {
        Some(node_text(doc, heads[0]))
    } else {
        None
    };
    let ghost tv = opt_text_view(title);
    proof {
        assert(tv == module_title(*doc, module));
    }
    let labels = collect_texts(doc, &node_find_name(doc, module, "th"));
    let values = collect_texts(doc, &node_find_name(doc, module, "td"));
    table_to_section(title, &labels, &values)
}

/// Extracts every vehicle data module of a parsed registry page, in
/// document order.
pub fn document_sections(doc: &select::document::Document) -> (r: Vec<Section>)
    ensures
        sections_view(r@) == document_section_data(*doc),
{
    let modules = find_class_nodes(doc, "kjoretoy-table");
    let mut r: Vec<Section> = Vec::new();
    let mut i: usize = 0;
    proof {
        assert(sections_view(r@) =~= modules@.take(0).map_values(
            |m: usize| module_section(*doc, m),
        ));
    }
    while i < modules.len()
        invariant
            i <= modules@.len(),
            modules@ == doc_class_finds(*doc, "kjoretoy-table"@),
            sections_view(r@) == modules@.take(i as int).map_values(
                |m: usize| module_section(*doc, m),
            ),
        decreases modules@.len() - i,
    {
        let s = module_to_section(doc, modules[i]);
        let ghost rv = r@;
        let ghost sv = s@;
        r.push(s);
        proof {
            assert(sections_view(rv.push(s)) =~= sections_view(rv).push(sv));
            assert(modules@.take(i + 1) =~= modules@.take(i as int).push(modules@[i as int]));
            assert(modules@.take(i as int).push(modules@[i as int]).map_values(
                |m: usize| module_section(*doc, m),
            ) =~= modules@.take(i as int).map_values(|m: usize| module_section(*doc, m)).push(
                module_section(*doc, modules@[i as int]),
            ));
        }
        i = i + 1;
    }
    proof {
        assert(modules@.take(modules@.len() as int) =~= modules@);
    }
    r
}

/// Computes the lookup value from a fetched registry page: the serialized
/// sections of its vehicle data modules, or the fallback sentence when the
/// page shows none.
pub fn get_registration_number(body: &str) -> (r: String)
    ensures
        page_class_finds(body@, "kjoretoy-table"@).len() == 0 ==> r@ == fallback_text(),
        page_class_finds(body@, "kjoretoy-table"@).len() > 0 ==> r@ == rendered_sections(
            page_section_data(body@),
        ),
{
    let doc = parse_document(body);
    let sections = document_sections(&doc);
    let r = sections_to_text(&sections);
    proof {
        assert forall|m: usize| #[trigger] module_section(doc, m) == page_module_section(body@, m)
        by {
            assert(node_class_finds(doc, m, "modul-overskrift"@) == page_node_class_finds(
                body@,
                m,
                "modul-overskrift"@,
            ));
            assert(node_name_finds(doc, m, "th"@) == page_node_name_finds(body@, m, "th"@));
            assert(node_name_finds(doc, m, "td"@) == page_node_name_finds(body@, m, "td"@));
            assert(texts_at(doc, node_name_finds(doc, m, "th"@)) =~= page_texts_at(
                body@,
                page_node_name_finds(body@, m, "th"@),
            ));
            assert(texts_at(doc, node_name_finds(doc, m, "td"@)) =~= page_texts_at(
                body@,
                page_node_name_finds(body@, m, "td"@),
            ));
        }
        assert(document_section_data(doc) =~= page_section_data(body@));
        assert(sections@.len() == page_section_data(body@).len());
        if sections@.len() > 0 {
            assert(r@ == rendered_sections(page_section_data(body@)));
        }
    }
    r
}

/// The fixed upstream URL with the key interpolated verbatim as the
/// registration-number query parameter.
pub fn request_url(key: &str) -> (r: String)
    ensures
        r@
            == "http://www.vegvesen.no/Kjoretoy/Kjop+og+salg/Kjøretøyopplysninger?registreringsnummer="@
            + key@,
{
    let mut url: String = String::from_str(
        "http://www.vegvesen.no/Kjoretoy/Kjop+og+salg/Kjøretøyopplysninger?registreringsnummer=",
    );
    url.append(key);
    url
}

} // verus!
