//! Reading a GraphQL query text into a [`GqlDocument`].
//!
//! `graphql_parser` parses the text. Its syntax tree is handed out one level
//! at a time: a selection set stays as the parser holds it until its items
//! are asked for, and the tree of the document is built from those levels.

use vstd::prelude::*;
use graphql_parser::query::{Definition, OperationDefinition, Selection, SelectionSet};
use crate::api::graphql::{
    graphql_plans, invalid_query, own, plans_are, FieldQuery, GqlDefinition, GqlDocument, GqlField,
    GqlSelection, QueryError, TableRels,
};

verus! {

broadcast use vstd::string::group_string_axioms;

/// A selection set of a parsed query, as `graphql_parser` holds it. The
/// parser's syntax types are bound by its `Text` trait, which Verus cannot
/// take, so the set is held here unseen and read through `selection_items`
/// alone.
#[verifier::external_body]
pub struct ParsedSelections {
    set: SelectionSet<'static, String>,
}

/// A field of a parsed query, one level deep: its own selections stay as
/// the parser holds them.
pub struct RawField {
    pub alias: Option<String>,
    pub name: String,
    /// The arguments, each as its name and the text of its value.
    pub arguments: Vec<(String, String)>,
    pub selection_set: ParsedSelections,
}

/// One selection of a parsed query, one level deep.
pub enum RawSelection {
    Field(RawField),
    FragmentSpread,
    InlineFragment,
}

/// A definition of a parsed query, one level deep.
pub enum RawDefinition {
    /// A `query` operation, with its selection set.
    Query(ParsedSelections),
    /// A bare selection set.
    SelectionSet(ParsedSelections),
    /// Another operation (mutation, subscription), with its text.
    Other(String),
    /// A fragment definition.
    Fragment,
}

/// The definitions that `graphql_parser::parse_query` reads from a query
/// text, one level deep, or the text of its error.
pub uninterp spec fn parsed_query(query: Seq<char>) -> Result<Seq<RawDefinition>, Seq<char>>;

/// The items of a selection set of a parsed query, one level deep.
pub uninterp spec fn parsed_items(s: ParsedSelections) -> Seq<RawSelection>;

/// Parses a query text with `graphql_parser::parse_query` and hands out its
/// definitions one level deep, or the parser's error as text. Claimed: the
/// result is `parsed_query` of the text.
#[verifier::external_body]
pub fn parse_query_text(query: &str) -> (r: Result<Vec<RawDefinition>, String>)
    ensures
        match r {
            Ok(d) => parsed_query(query@) == Ok::<Seq<RawDefinition>, Seq<char>>(d@),
            Err(m) => parsed_query(query@) == Err::<Seq<RawDefinition>, Seq<char>>(m@),
        },
{
    match graphql_parser::parse_query::<String>(query) {
        Ok(doc) => Ok(doc.into_static().definitions.into_iter().map(|d| match d {
            Definition::Operation(OperationDefinition::Query(q)) => RawDefinition::Query(ParsedSelections { set: q.selection_set }),
            Definition::Operation(OperationDefinition::SelectionSet(s)) => RawDefinition::SelectionSet(ParsedSelections { set: s }),
            Definition::Operation(other) => RawDefinition::Other(other.to_string()),
            Definition::Fragment(_) => RawDefinition::Fragment,
        }).collect()),
        Err(e) => Err(e.to_string()),
    }
}

/// Hands out the items of a parsed selection set, one level deep, each
/// argument value written out by `graphql_parser`'s formatting. Claimed: the
/// result is `parsed_items` of the set.
#[verifier::external_body]
pub fn selection_items(s: ParsedSelections) -> (r: Vec<RawSelection>)
    ensures
        r@ == parsed_items(s),
{
    s.set.items.into_iter().map(|i| match i {
        Selection::Field(f) => RawSelection::Field(RawField {
            alias: f.alias,
            name: f.name,
            arguments: f.arguments.into_iter().map(|(k, v)| (k, v.to_string())).collect(),
            selection_set: ParsedSelections { set: f.selection_set },
        }),
        Selection::FragmentSpread(_) => RawSelection::FragmentSpread,
        Selection::InlineFragment(_) => RawSelection::InlineFragment,
    }).collect()
}

/// Whether `v` is the tree of the selections of `s`, with fields nested at
/// most `depth` deep.
pub open spec fn selections_are(s: ParsedSelections, depth: nat, v: Seq<GqlSelection>) -> bool
    decreases depth, 1nat,
{
    v.len() == parsed_items(s).len() && forall|i: int|
        0 <= i < v.len() ==> selection_is(#[trigger] parsed_items(s)[i], v[i], depth)
}

/// Whether `g` is the tree of the parsed selection `raw`, with fields
/// nested at most `depth` deep.
pub open spec fn selection_is(raw: RawSelection, g: GqlSelection, depth: nat) -> bool
    decreases depth, 0nat,
{
    match raw {
        RawSelection::Field(f) => depth > 0 && match g {
            GqlSelection::Field(h) => h.alias == f.alias && h.name == f.name && h.arguments
                == f.arguments && selections_are(f.selection_set, (depth - 1) as nat, h.selection_set@),
            _ => false,
        },
        RawSelection::FragmentSpread => g is FragmentSpread,
        RawSelection::InlineFragment => g is InlineFragment,
    }
}

/// Whether the fields of `s` are nested at most `depth` deep.
pub open spec fn selections_fit(s: ParsedSelections, depth: nat) -> bool
    decreases depth, 1nat,
{
    forall|i: int| 0 <= i < parsed_items(s).len() ==> selection_fits(#[trigger] parsed_items(s)[i], depth)
}

/// Whether the fields of the parsed selection `raw` are nested at most
/// `depth` deep.
pub open spec fn selection_fits(raw: RawSelection, depth: nat) -> bool
    decreases depth, 0nat,
{
    match raw {
        RawSelection::Field(f) => depth > 0 && selections_fit(f.selection_set, (depth - 1) as nat),
        _ => true,
    }
}

/// The tree of the selections of `s`, where its fields are nested at most
/// `depth` deep.
pub fn selection_tree(s: ParsedSelections, depth: usize) -> (r: Option<Vec<GqlSelection>>)
    ensures
        r is Some <==> selections_fit(s, depth as nat),
        r matches Some(v) ==> selections_are(s, depth as nat, v@),
    decreases depth,
{
    let ghost orig = parsed_items(s);
    let mut items = selection_items(s);
    let ghost n = orig.len();
    let mut out: Vec<GqlSelection> = Vec::new();
    while items.len() > 0
        invariant
            n == orig.len(),
            orig == parsed_items(s),
            out@.len() <= n,
            items@ == orig.subrange(out@.len() as int, n as int),
            forall|i: int| 0 <= i < out@.len() ==> selection_is(orig[i], #[trigger] out@[i], depth as nat),
            forall|i: int| 0 <= i < out@.len() ==> selection_fits(#[trigger] orig[i], depth as nat),
        decreases items@.len(),
    {
        let ghost k = out@.len() as int;
        assert(items@[0] == orig[k]);
        let item = items.remove(0);
        let g = match item {
            RawSelection::Field(RawField { alias, name, arguments, selection_set }) => {
                if depth == 0 {
                    assert(!selection_fits(orig[k], depth as nat));
                    return None;
                }
                match selection_tree(selection_set, depth - 1) {
                    Some(sub) => GqlSelection::Field(GqlField { alias, name, arguments, selection_set: sub }),
                    None => {
                        assert(!selection_fits(orig[k], depth as nat));
                        return None;
                    },
                }
            },
            RawSelection::FragmentSpread => GqlSelection::FragmentSpread,
            RawSelection::InlineFragment => GqlSelection::InlineFragment,
        };
        out.push(g);
        assert(items@ =~= orig.subrange(out@.len() as int, n as int));
    }
    assert(out@.len() == n);
    Some(out)
}

/// Whether `g` is the tree of the parsed definition `raw`, with fields
/// nested at most `depth` deep.
pub open spec fn definition_is(raw: RawDefinition, g: GqlDefinition, depth: nat) -> bool {
    match raw {
        RawDefinition::Query(s) => g matches GqlDefinition::Query(v) && selections_are(s, depth, v@),
        RawDefinition::SelectionSet(s) => g matches GqlDefinition::SelectionSet(v) && selections_are(
            s,
            depth,
            v@,
        ),
        RawDefinition::Other(t) => g matches GqlDefinition::Other(u) && u == t,
        RawDefinition::Fragment => g is Fragment,
    }
}

/// Whether the fields of the parsed definition `raw` are nested at most
/// `depth` deep.
pub open spec fn definition_fits(raw: RawDefinition, depth: nat) -> bool {
    match raw {
        RawDefinition::Query(s) => selections_fit(s, depth),
        RawDefinition::SelectionSet(s) => selections_fit(s, depth),
        _ => true,
    }
}

/// Whether `d` is the document of the parsed definitions `defs`, with
/// fields nested at most `depth` deep.
pub open spec fn document_is(defs: Seq<RawDefinition>, depth: nat, d: GqlDocument) -> bool {
    d.definitions@.len() == defs.len() && forall|i: int|
        0 <= i < defs.len() ==> definition_is(defs[i], #[trigger] d.definitions@[i], depth)
}

/// Whether the fields of all parsed definitions `defs` are nested at most
/// `depth` deep.
pub open spec fn document_fits(defs: Seq<RawDefinition>, depth: nat) -> bool {
    forall|i: int| 0 <= i < defs.len() ==> definition_fits(#[trigger] defs[i], depth)
}

/// The error of a text that the parser does not take.
pub fn parse_error(message: String) -> (r: QueryError)
    ensures
        r.error@ == "GraphQL parsing error"@,
        r.message@ == message@,
{
    QueryError { error: own("GraphQL parsing error"), message }
}

/// The error of a document whose fields are nested deeper than its text is
/// long. Each level of nesting opens a brace in the text, so no document
/// that the parser reads ends in it.
pub open spec fn too_deep(r: Result<GqlDocument, QueryError>) -> bool {
    r matches Err(e) && e.error@ == "invalid graphql query"@ && e.message@
        == "selections nested deeper than the query is long"@
}

/// Reads a query text into a document: the parser's error, or the tree of
/// what it read.
pub fn parse_document(query: &str) -> (r: Result<GqlDocument, QueryError>)
    ensures
        match parsed_query(query@) {
            Err(m) => r matches Err(e) && e.error@ == "GraphQL parsing error"@ && e.message@ == m,
            Ok(defs) => if document_fits(defs, query@.len()) {
                r matches Ok(d) && document_is(defs, query@.len(), d)
            } else {
                too_deep(r)
            },
        },
{
    let mut defs = match parse_query_text(query) {
        Ok(d) => d,
        Err(m) => return Err(parse_error(m)),
    };
    let depth = query.unicode_len();
    let ghost orig = defs@;
    let ghost n = orig.len();
    let mut out: Vec<GqlDefinition> = Vec::new();
    while defs.len() > 0
        invariant
            n == orig.len(),
            parsed_query(query@) == Ok::<Seq<RawDefinition>, Seq<char>>(orig),
            depth == query@.len(),
            out@.len() <= n,
            defs@ == orig.subrange(out@.len() as int, n as int),
            forall|i: int| 0 <= i < out@.len() ==> definition_is(orig[i], #[trigger] out@[i], depth as nat),
            forall|i: int| 0 <= i < out@.len() ==> definition_fits(#[trigger] orig[i], depth as nat),
        decreases defs@.len(),
    {
        let ghost k = out@.len() as int;
        assert(defs@[0] == orig[k]);
        let def = defs.remove(0);
        let g = match def {
            RawDefinition::Query(s) => match selection_tree(s, depth) {
                Some(v) => GqlDefinition::Query(v),
                None => {
                    assert(!document_fits(orig, depth as nat));
                    return Err(invalid_query(own("selections nested deeper than the query is long")));
                },
            },
            RawDefinition::SelectionSet(s) => match selection_tree(s, depth) {
                Some(v) => GqlDefinition::SelectionSet(v),
                None => {
                    assert(!document_fits(orig, depth as nat));
                    return Err(invalid_query(own("selections nested deeper than the query is long")));
                },
            },
            RawDefinition::Other(t) => GqlDefinition::Other(t),
            RawDefinition::Fragment => GqlDefinition::Fragment,
        };
        out.push(g);
        assert(defs@ =~= orig.subrange(out@.len() as int, n as int));
    }
    let d = GqlDocument { definitions: out };
    assert(document_is(orig, depth as nat, d));
    Ok(d)
}

/// The plans of the top level fields of a query text: the parser's error,
/// or what planning the document that it reads gives.
pub fn graphql_plans_of_text(rels: &TableRels, query: &str) -> (r: Result<Vec<FieldQuery>, QueryError>)
    ensures
        match parsed_query(query@) {
            Err(m) => r matches Err(e) && e.error@ == "GraphQL parsing error"@ && e.message@ == m,
            Ok(defs) => if document_fits(defs, query@.len()) {
                exists|d: GqlDocument|
                    #[trigger] document_is(defs, query@.len(), d) && plans_are(rels.view(), d, r)
            } else {
                r matches Err(e) && e.error@ == "invalid graphql query"@ && e.message@
                    == "selections nested deeper than the query is long"@
            },
        },
{
    let doc = parse_document(query)?;
    let r = graphql_plans(rels, &doc);
    assert(document_is(parsed_query(query@)->Ok_0, query@.len(), doc));
    r
}

} // verus!
