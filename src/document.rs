//! The saved form of a graph: each node's description and each
//! connection's ends, and how a session is rebuilt from it.
use vstd::prelude::*;
use crate::edits::IdGenerator;
use crate::flow::{NodeUIData, Spec, SpecAttribute};
use crate::nodes::{attributes_view, is_catalog_name, AttrValue, Node};
use crate::params::{connection_key, connections_resolve, Connection, Params};
use crate::registry::{build, connect_spec, find_node, node_key};
use crate::table::{lemma_table_contains, lemma_table_index};

verus! {

/// A saved graph.
pub struct Document {
    pub nodes: Vec<Spec>,
    pub connections: Vec<(i64, i64)>,
}

/// Why a document could not be loaded.
#[derive(Debug, Clone, Copy, PartialEq, Eq)]
pub enum LoadError {
    /// A connection names a node that the document does not build.
    MissingNode { from: i64, to: i64 },
}

/// `s` describes `n`: same id, kind and settings.
pub open spec fn describes(s: Spec, n: Node) -> bool {
    &&& s.id == n.node_id()
    &&& s.type_@ == n.kind_name()
    &&& attributes_view(s.attributes@) == n.attributes()
}

/// `d` is the saved form of the session `p`.
pub open spec fn exported(p: Params, d: Document) -> bool {
    &&& d.nodes@.len() == p.node_map@.len()
    &&& forall|i: int| 0 <= i < d.nodes@.len() ==> describes(#[trigger] d.nodes@[i], p.node_map@[i])
    &&& d.connections@ == p.connections@.map_values(|c: Connection| (c.from, c.to))
}

/// The ids of the descriptions whose kind is in the catalog.
pub open spec fn node_ids_of(specs: Seq<Spec>) -> Set<i64>
    decreases specs.len(),
{
    if specs.len() == 0 {
        Set::empty()
    } else if is_catalog_name(specs.last().type_@) {
        node_ids_of(specs.drop_last()).insert(specs.last().id)
    } else {
        node_ids_of(specs.drop_last())
    }
}

/// The last description of `id` whose kind is in the catalog.
pub open spec fn spec_for(specs: Seq<Spec>, id: i64) -> Option<Spec>
    decreases specs.len(),
{
    if specs.len() == 0 {
        None
    } else if specs.last().id == id && is_catalog_name(specs.last().type_@) {
        Some(specs.last())
    } else {
        spec_for(specs.drop_last(), id)
    }
}

/// The filter text that a list of attributes sets: the last `value` text.
pub open spec fn value_setting(attrs: Seq<(Seq<char>, AttrValue)>) -> Seq<char>
    decreases attrs.len(),
{
    if attrs.len() == 0 {
        Seq::empty()
    } else if attrs.last().0 == "value"@ && attrs.last().1 is Text {
        attrs.last().1->Text_0
    } else {
        value_setting(attrs.drop_last())
    }
}

/// The settings that node `n` takes from `attrs`.
pub open spec fn settings_of(n: Node, attrs: Seq<(Seq<char>, AttrValue)>) -> Seq<
    (Seq<char>, AttrValue),
> {
    match n {
        Node::StringContains(_) => seq![("value"@, AttrValue::Text(value_setting(attrs)))],
        _ => Seq::empty(),
    }
}

/// `n` was rebuilt from `s`.
pub open spec fn rebuilt(n: Node, s: Spec) -> bool {
    &&& n.node_id() == s.id
    &&& n.kind_name() == s.type_@
    &&& n.attributes() == settings_of(n, attributes_view(s.attributes@))
}

/// Every connection of `d` joins two nodes that `d` builds.
pub open spec fn loads_ok(d: Document) -> bool {
    forall|j: int|
        0 <= j < d.connections@.len() ==> node_ids_of(d.nodes@).contains(
            (#[trigger] d.connections@[j]).0,
        ) && node_ids_of(d.nodes@).contains(d.connections@[j].1)
}

/// The nodes after wiring each connection of `pairs` in order into slot 1.
pub open spec fn wired(nodes: Map<i64, Node>, pairs: Seq<(i64, i64)>) -> Map<i64, Node>
    decreases pairs.len(),
{
    if pairs.len() == 0 {
        nodes
    } else {
        connect_spec(wired(nodes, pairs.drop_last()), pairs.last().0, pairs.last().1, Some(1))
    }
}

/// The nodes that `d` builds, before any wiring.
pub open spec fn built_from(d: Document, b: Map<i64, Node>) -> bool {
    &&& b.dom() == node_ids_of(d.nodes@)
    &&& forall|id: i64| #[trigger]
        b.contains_key(id) ==> rebuilt(b[id], spec_for(d.nodes@, id)->0) && b[id].input_at(
            Some(1),
        ) is None && b[id].input_at(Some(2)) is None
}

/// `q` is the session rebuilt from `d`.
pub open spec fn loaded(d: Document, q: Params) -> bool {
    &&& q.wf()
    &&& exists|b: Map<i64, Node>| built_from(d, b) && q@.nodes == wired(b, d.connections@)
    &&& q@.nodes.dom() == node_ids_of(d.nodes@)
    &&& forall|id: i64| #[trigger]
        q@.nodes.contains_key(id) ==> rebuilt(q@.nodes[id], spec_for(d.nodes@, id)->0)
    &&& q@.connections.dom() == d.connections@.to_set()
}

/// The saved form of a session: the nodes' descriptions in list order and
/// the ends of each connection.
pub fn export(params: &Params) -> (r: Document)
    ensures
        exported(*params, r),
{
    let mut nodes: Vec<Spec> = Vec::new();
    let mut i: usize = 0;
    while i < params.node_map.len()
        invariant
            0 <= i <= params.node_map@.len(),
            nodes@.len() == i,
            forall|j: int| 0 <= j < i ==> describes(#[trigger] nodes@[j], params.node_map@[j]),
        decreases params.node_map@.len() - i,
    {
        nodes.push(params.node_map[i].get_spec());
        i += 1;
    }
    let mut connections: Vec<(i64, i64)> = Vec::new();
    let mut k: usize = 0;
    while k < params.connections.len()
        invariant
            0 <= k <= params.connections@.len(),
            connections@ == params.connections@.subrange(0, k as int).map_values(
                |c: Connection| (c.from, c.to),
            ),
        decreases params.connections@.len() - k,
    {
        connections.push((params.connections[k].from, params.connections[k].to));
        proof {
            assert(connections@ =~= params.connections@.subrange(0, k + 1).map_values(
                |c: Connection| (c.from, c.to),
            ));
        }
        k += 1;
    }
    proof {
        assert(params.connections@.subrange(0, k as int) =~= params.connections@);
    }
    Document { nodes, connections }
}

/// A node of the kind that `s` names, with its settings applied.
fn rebuild(s: &Spec) -> (r: Option<Node>)
    ensures
        r is Some <==> is_catalog_name(s.type_@),
        r matches Some(n) ==> rebuilt(n, *s) && n.input_at(Some(1)) is None && n.input_at(
            Some(2),
        ) is None,
{
    match build(s.id, s.type_.clone()) {
        Some(node) => {
            let mut n = node;
            let mut i: usize = 0;
            proof {
                assert(attributes_view(s.attributes@.subrange(0, 0)) =~= Seq::empty());
            }
            while i < s.attributes.len()
                invariant
                    0 <= i <= s.attributes@.len(),
                    n.node_id() == s.id,
                    n.kind_name() == s.type_@,
                    n.input_at(Some(1)) is None,
                    n.input_at(Some(2)) is None,
                    n.attributes() == settings_of(
                        n,
                        attributes_view(s.attributes@.subrange(0, i as int)),
                    ),
                decreases s.attributes@.len() - i,
            {
                proof {
                    assert(attributes_view(s.attributes@.subrange(0, i + 1)).drop_last()
                        =~= attributes_view(s.attributes@.subrange(0, i as int)));
                }
                match &s.attributes[i] {
                    SpecAttribute::String(name, value) => {
                        n.set_value(name, NodeUIData::StringData(value.clone()));
                    },
                    SpecAttribute::Int(_, _) => {},
                }
                i += 1;
            }
            proof {
                assert(s.attributes@.subrange(0, s.attributes@.len() as int) =~= s.attributes@);
            }
            Some(n)
        },
        None => None,
    }
}

/// Rebuilds a session from a saved graph: each node whose kind is in the
/// catalog is built and given its settings (a later description of an id
/// replaces an earlier one; others are skipped), then each connection is
/// wired and recorded in order, with widget ids from `ids`. A connection to
/// a node that was not built is an error. The last node id handed out is
/// the largest loaded id (or 0), so that new nodes get fresh ids.
pub fn load(doc: &Document, ids: &mut IdGenerator) -> (r: Result<Params, LoadError>)
    requires
        old(ids).next + doc.connections@.len() < usize::MAX,
    ensures
        r is Ok <==> loads_ok(*doc),
        r matches Ok(q) ==> loaded(*doc, q),
        r matches Ok(q) ==> q.node_id >= 0 && (q.node_id == 0 || q@.nodes.contains_key(
            q.node_id,
        )) && forall|id: i64| #[trigger] q@.nodes.contains_key(id) ==> id <= q.node_id,
{
    let mut params = Params::new();
    let mut i: usize = 0;
    while i < doc.nodes.len()
        invariant
            0 <= i <= doc.nodes@.len(),
            params.wf(),
            params@.connections.is_empty(),
            params.node_id >= 0,
            params.node_id == 0 || params@.nodes.contains_key(params.node_id),
            forall|id: i64| #[trigger] params@.nodes.contains_key(id) ==> id <= params.node_id,
            params@.nodes.dom() == node_ids_of(doc.nodes@.subrange(0, i as int)),
            forall|id: i64| #[trigger]
                params@.nodes.contains_key(id) ==> rebuilt(
                    params@.nodes[id],
                    spec_for(doc.nodes@.subrange(0, i as int), id)->0,
                ) && params@.nodes[id].input_at(Some(1)) is None && params@.nodes[id].input_at(
                    Some(2),
                ) is None,
        decreases doc.nodes@.len() - i,
    {
        proof {
            assert(doc.nodes@.subrange(0, i + 1).drop_last() =~= doc.nodes@.subrange(0, i as int));
        }
        match rebuild(&doc.nodes[i]) {
            Some(n) => {
                let id = n.id();
                params.insert_node(n);
                if id > params.node_id {
                    params.node_id = id;
                }
                proof {
                    assert(params@.nodes.dom() =~= node_ids_of(doc.nodes@.subrange(0, i + 1)));
                }
            },
            None => {
                proof {
                    assert(params@.nodes.dom() =~= node_ids_of(doc.nodes@.subrange(0, i + 1)));
                }
            },
        }
        i += 1;
    }
    proof {
        assert(doc.nodes@.subrange(0, doc.nodes@.len() as int) =~= doc.nodes@);
    }
    let ghost built = params@.nodes;
    assert(built_from(*doc, built));
    let mut k: usize = 0;
    while k < doc.connections.len()
        invariant
            0 <= k <= doc.connections@.len(),
            params.wf(),
            ids.next + doc.connections@.len() - k < usize::MAX,
            params@.nodes.dom() == built.dom(),
            built.dom() == node_ids_of(doc.nodes@),
            params.node_id >= 0,
            params.node_id == 0 || params@.nodes.contains_key(params.node_id),
            forall|id: i64| #[trigger] params@.nodes.contains_key(id) ==> id <= params.node_id,
            built_from(*doc, built),
            params@.nodes == wired(built, doc.connections@.subrange(0, k as int)),
            forall|id: i64| #[trigger]
                params@.nodes.contains_key(id) ==> params@.nodes[id].kind_name()
                    == built[id].kind_name() && params@.nodes[id].attributes()
                    == built[id].attributes() && params@.nodes[id].node_id() == built[id].node_id(),
            params@.connections.dom() == doc.connections@.subrange(0, k as int).to_set(),
            forall|j: int|
                0 <= j < k ==> node_ids_of(doc.nodes@).contains((#[trigger] doc.connections@[j]).0)
                    && node_ids_of(doc.nodes@).contains(doc.connections@[j].1),
        decreases doc.connections@.len() - k,
    {
        let (from, to) = doc.connections[k];
        let has_from = find_node(&params.node_map, from).is_some();
        let has_to = find_node(&params.node_map, to).is_some();
        if !(has_from && has_to) {
            return Err(LoadError::MissingNode { from, to });
        }
        params.connect_nodes(from, to, Some(1));
        let id = ids.next_id();
        params.insert_connection(Connection { id, from, to });
        proof {
            assert(doc.connections@.subrange(0, k + 1) =~= doc.connections@.subrange(
                0,
                k as int,
            ).push((from, to)));
            doc.connections@.subrange(0, k as int).lemma_push_to_set_commute((from, to));
            assert(doc.connections@.subrange(0, k + 1).drop_last() =~= doc.connections@.subrange(
                0,
                k as int,
            ));
            assert(params@.connections.dom() =~= doc.connections@.subrange(0, k + 1).to_set());
        }
        k += 1;
    }
    proof {
        assert(doc.connections@.subrange(0, k as int) =~= doc.connections@);
    }
    Ok(params)
}

} // verus!

verus! {

proof fn lemma_node_ids_of(specs: Seq<Spec>, id: i64)
    ensures
        node_ids_of(specs).contains(id) <==> exists|i: int|
            0 <= i < specs.len() && (#[trigger] specs[i]).id == id && is_catalog_name(
                specs[i].type_@,
            ),
    decreases specs.len(),
{
    if specs.len() > 0 {
        lemma_node_ids_of(specs.drop_last(), id);
        if node_ids_of(specs.drop_last()).contains(id) {
            let i = choose|i: int|
                0 <= i < specs.drop_last().len() && (#[trigger] specs.drop_last()[i]).id == id
                    && is_catalog_name(specs.drop_last()[i].type_@);
            assert(specs[i] == specs.drop_last()[i]);
        }
        if exists|i: int|
            0 <= i < specs.len() && (#[trigger] specs[i]).id == id && is_catalog_name(
                specs[i].type_@,
            ) {
            let i = choose|i: int|
                0 <= i < specs.len() && (#[trigger] specs[i]).id == id && is_catalog_name(
                    specs[i].type_@,
                );
            if i < specs.len() - 1 {
                assert(specs.drop_last()[i] == specs[i]);
            }
        }
    }
}

proof fn lemma_spec_for(specs: Seq<Spec>, i: int)
    requires
        0 <= i < specs.len(),
        is_catalog_name(specs[i].type_@),
        forall|j: int| 0 <= j < specs.len() && j != i ==> (#[trigger] specs[j]).id != specs[i].id,
    ensures
        spec_for(specs, specs[i].id) == Some(specs[i]),
    decreases specs.len(),
{
    if i < specs.len() - 1 {
        let t = specs.drop_last();
        assert(t[i] == specs[i]);
        assert forall|j: int| 0 <= j < t.len() && j != i implies (#[trigger] t[j]).id != t[i].id by {
            assert(t[j] == specs[j]);
        }
        lemma_spec_for(t, i);
    }
}

proof fn lemma_kind_names(n: Node)
    ensures
        is_catalog_name(n.kind_name()),
        n is StringContains <==> n.kind_name().len() == 15,
{
    reveal_strlit("standard-in");
    reveal_strlit("standard-out");
    reveal_strlit("lines");
    reveal_strlit("json-parse");
    reveal_strlit("json-stringify");
    reveal_strlit("json-keys");
    reveal_strlit("json-object");
    reveal_strlit("to-int");
    reveal_strlit("sum");
    reveal_strlit("string-contains");
}

/// Saving a session and loading what was saved succeeds, and gives a graph
/// with the same node ids, each of the same kind and with the same
/// settings, and the same connections.
pub proof fn lemma_round_trip(p: Params, d: Document, q: Params)
    requires
        p.wf(),
        connections_resolve(p@),
        exported(p, d),
    ensures
        loads_ok(d),
        loaded(d, q) ==> {
            &&& q@.nodes.dom() == p@.nodes.dom()
            &&& forall|id: i64| #[trigger]
                q@.nodes.contains_key(id) ==> q@.nodes[id].kind_name() == p@.nodes[id].kind_name()
                    && q@.nodes[id].attributes() == p@.nodes[id].attributes()
            &&& q@.connections.dom() == p@.connections.dom()
        },
{
    let s = d.nodes@;
    let ns = p.node_map@;
    assert forall|i: int| 0 <= i < s.len() implies is_catalog_name(#[trigger] s[i].type_@) by {
        assert(describes(s[i], ns[i]));
        lemma_kind_names(ns[i]);
    }
    assert forall|id: i64| node_ids_of(s).contains(id) <==> p@.nodes.contains_key(id) by {
        lemma_node_ids_of(s, id);
        lemma_table_contains(ns, node_key(), id);
        if p@.nodes.contains_key(id) {
            let i = choose|i: int| 0 <= i < ns.len() && (node_key())(ns[i]) == id;
            assert(describes(s[i], ns[i]));
        }
        if node_ids_of(s).contains(id) {
            let i = choose|i: int|
                0 <= i < s.len() && (#[trigger] s[i]).id == id && is_catalog_name(s[i].type_@);
            assert(describes(s[i], ns[i]));
            assert((node_key())(ns[i]) == id);
        }
    }
    let cs = p.connections@;
    assert forall|j: int| 0 <= j < d.connections@.len() implies node_ids_of(s).contains(
        (#[trigger] d.connections@[j]).0,
    ) && node_ids_of(s).contains(d.connections@[j].1) by {
        lemma_table_contains(cs, connection_key(), (cs[j].from, cs[j].to));
        assert((connection_key())(cs[j]) == (cs[j].from, cs[j].to));
        assert(p@.connections.contains_key((cs[j].from, cs[j].to)));
    }
    assert forall|k: (i64, i64)| d.connections@.to_set().contains(k) <==> p@.connections.contains_key(k) by {
        lemma_table_contains(cs, connection_key(), k);
        if d.connections@.to_set().contains(k) {
            let j = choose|j: int| 0 <= j < d.connections@.len() && d.connections@[j] == k;
            assert((connection_key())(cs[j]) == k);
        }
        if p@.connections.contains_key(k) {
            let j = choose|j: int| 0 <= j < cs.len() && (connection_key())(cs[j]) == k;
            assert(d.connections@[j] == k);
        }
    }
    if loaded(d, q) {
        assert(q@.nodes.dom() =~= p@.nodes.dom());
        assert(q@.connections.dom() =~= p@.connections.dom());
        assert forall|id: i64| #[trigger] q@.nodes.contains_key(id) implies q@.nodes[id].kind_name()
            == p@.nodes[id].kind_name() && q@.nodes[id].attributes() == p@.nodes[id].attributes() by {
            lemma_table_contains(ns, node_key(), id);
            let i = choose|i: int| 0 <= i < ns.len() && (node_key())(ns[i]) == id;
            lemma_table_index(ns, node_key(), i);
            assert(describes(s[i], ns[i]));
            assert forall|j: int| 0 <= j < s.len() && j != i implies (#[trigger] s[j]).id
                != s[i].id by {
                assert(describes(s[j], ns[j]));
                if j < i {
                    assert((node_key())(ns[j]) != (node_key())(ns[i]));
                } else {
                    assert((node_key())(ns[i]) != (node_key())(ns[j]));
                }
            }
            lemma_spec_for(s, i);
            let qn = q@.nodes[id];
            let pn = ns[i];
            lemma_kind_names(qn);
            lemma_kind_names(pn);
            if pn is StringContains {
                let a = attributes_view(s[i].attributes@);
                assert(a.last().0 == "value"@);
            }
        }
    }
}

} // verus!
