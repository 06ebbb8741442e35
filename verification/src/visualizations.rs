//! Topology-description vocabulary and the graph-description renderer:
//! node, link and zone classifications, and the rendering of a node/edge
//! topology to the graph-visualization description format consumed by the
//! diagram tooling.

use vstd::prelude::*;

verus! {

/// The kind of a topology node.
#[derive(Debug, Clone, Copy, PartialEq, Eq, Structural)]
pub enum NodeType {
    Router,
    Switch,
    Firewall,
    Server,
    Client,
    Internet,
    VirtualMachine,
    Container,
    Wireless,
}

/// The kind of a topology link.
#[derive(Debug, Clone, Copy, PartialEq, Eq, Structural)]
pub enum LinkType {
    Ethernet,
    Fiber,
    Wireless,
    VPN,
    VLAN,
}

/// The kind of a topology zone.
#[derive(Debug, Clone, Copy, PartialEq, Eq, Structural)]
pub enum ZoneType {
    Public,
    Private,
    DMZ,
    Secure,
    Restricted,
}

/// One topology node as the diagram renders it: its identifier, display
/// name and kind.
#[derive(Debug, Clone)]
pub struct DiagramNode {
    pub id: String,
    pub name: String,
    pub node_type: NodeType,
}

/// The mathematical view of a `DiagramNode`.
pub struct DiagramNodeV {
    pub id: Seq<char>,
    pub name: Seq<char>,
    pub node_type: NodeType,
}

impl View for DiagramNode {
    type V = DiagramNodeV;

    open spec fn view(&self) -> DiagramNodeV {
        DiagramNodeV { id: self.id@, name: self.name@, node_type: self.node_type }
    }
}

impl DeepView for DiagramNode {
    type V = DiagramNodeV;

    open spec fn deep_view(&self) -> DiagramNodeV {
        self.view()
    }
}

/// One topology link as the diagram renders it: the identifiers of its
/// endpoints and its kind.
#[derive(Debug, Clone)]
pub struct DiagramLink {
    pub source_id: String,
    pub target_id: String,
    pub link_type: LinkType,
}

/// The mathematical view of a `DiagramLink`.
pub struct DiagramLinkV {
    pub source_id: Seq<char>,
    pub target_id: Seq<char>,
    pub link_type: LinkType,
}

impl View for DiagramLink {
    type V = DiagramLinkV;

    open spec fn view(&self) -> DiagramLinkV {
        DiagramLinkV {
            source_id: self.source_id@,
            target_id: self.target_id@,
            link_type: self.link_type,
        }
    }
}

impl DeepView for DiagramLink {
    type V = DiagramLinkV;

    open spec fn deep_view(&self) -> DiagramLinkV {
        self.view()
    }
}

/// The lower-case label of a node kind.
pub open spec fn node_type_chars(t: NodeType) -> Seq<char> {
    match t {
        NodeType::Router => "router"@,
        NodeType::Switch => "switch"@,
        NodeType::Firewall => "firewall"@,
        NodeType::Server => "server"@,
        NodeType::Client => "client"@,
        NodeType::Internet => "internet"@,
        NodeType::VirtualMachine => "virtualmachine"@,
        NodeType::Container => "container"@,
        NodeType::Wireless => "wireless"@,
    }
}

/// The lower-case label of a link kind.
pub open spec fn link_type_chars(t: LinkType) -> Seq<char> {
    match t {
        LinkType::Ethernet => "ethernet"@,
        LinkType::Fiber => "fiber"@,
        LinkType::Wireless => "wireless"@,
        LinkType::VPN => "vpn"@,
        LinkType::VLAN => "vlan"@,
    }
}

/// The rendered line declaring one node, labelled with its name and kind.
pub open spec fn node_line_chars(n: DiagramNodeV) -> Seq<char> {
    "  \""@ + n.id + "\" [label=\""@ + n.name + " ("@ + node_type_chars(n.node_type)
        + ")\"];\n"@
}

/// The rendered line declaring one edge, labelled with its kind.
pub open spec fn edge_line_chars(l: DiagramLinkV) -> Seq<char> {
    "  \""@ + l.source_id + "\" -> \""@ + l.target_id + "\" [label=\""@ + link_type_chars(
        l.link_type,
    ) + "\"];\n"@
}

/// The rendered node declarations, in node order.
pub open spec fn node_lines_chars(ns: Seq<DiagramNodeV>) -> Seq<char>
    decreases ns.len(),
{
    if ns.len() == 0 {
        Seq::empty()
    } else {
        node_lines_chars(ns.drop_last()) + node_line_chars(ns.last())
    }
}

/// The rendered edge declarations, in link order.
pub open spec fn edge_lines_chars(ls: Seq<DiagramLinkV>) -> Seq<char>
    decreases ls.len(),
{
    if ls.len() == 0 {
        Seq::empty()
    } else {
        edge_lines_chars(ls.drop_last()) + edge_line_chars(ls.last())
    }
}

/// The opening of every rendered diagram: the directed-graph header with
/// its layout and node-style directives.
pub open spec fn dot_header_chars() -> Seq<char> {
    "digraph network {\n  rankdir=TB;\n  node [shape=box, style=filled, fillcolor=lightblue];\n\n"@
}

/// The whole rendered diagram: header, node declarations, edge
/// declarations, closing brace.
pub open spec fn dot_chars(ns: Seq<DiagramNodeV>, ls: Seq<DiagramLinkV>) -> Seq<char> {
    dot_header_chars() + node_lines_chars(ns) + edge_lines_chars(ls) + "}\n"@
}

fn render_node_type(t: &NodeType) -> (r: &'static str)
    ensures
        r@ == node_type_chars(*t),
{
    match t {
        NodeType::Router => "router",
        NodeType::Switch => "switch",
        NodeType::Firewall => "firewall",
        NodeType::Server => "server",
        NodeType::Client => "client",
        NodeType::Internet => "internet",
        NodeType::VirtualMachine => "virtualmachine",
        NodeType::Container => "container",
        NodeType::Wireless => "wireless",
    }
}

fn render_link_type(t: &LinkType) -> (r: &'static str)
    ensures
        r@ == link_type_chars(*t),
{
    match t {
        LinkType::Ethernet => "ethernet",
        LinkType::Fiber => "fiber",
        LinkType::Wireless => "wireless",
        LinkType::VPN => "vpn",
        LinkType::VLAN => "vlan",
    }
}

/// Renders the in-memory topology to the graph-visualization description
/// format: one declaration line per node, then one per link, inside a
/// directed-graph block.
pub fn render_dot(nodes: &Vec<DiagramNode>, links: &Vec<DiagramLink>) -> (r: String)
    ensures
        r@ == dot_chars(nodes.deep_view(), links.deep_view()),
{
    let ghost nv = nodes.deep_view();
    let ghost lv = links.deep_view();
    let mut r: String =
        "digraph network {\n  rankdir=TB;\n  node [shape=box, style=filled, fillcolor=lightblue];\n\n".to_owned();
    let mut i: usize = 0;
    proof {
        assert(nv.take(0) =~= Seq::<DiagramNodeV>::empty());
        assert(r@ =~= dot_header_chars() + node_lines_chars(nv.take(0)));
    }
    while i < nodes.len()
        invariant
            i <= nv.len(),
            nv.len() == nodes@.len(),
            nv == nodes.deep_view(),
            r@ == dot_header_chars() + node_lines_chars(nv.take(i as int)),
        decreases nv.len() - i,
    {
        let node = &nodes[i];
        r.append("  \"");
        r.append(node.id.as_str());
        r.append("\" [label=\"");
        r.append(node.name.as_str());
        r.append(" (");
        r.append(render_node_type(&node.node_type));
        r.append(")\"];\n");
        proof {
            assert(nv[i as int] == nodes@[i as int].deep_view());
            assert(nv.take(i + 1).drop_last() =~= nv.take(i as int));
            assert(nv.take(i + 1).last() == nv[i as int]);
            assert(r@ =~= dot_header_chars() + node_lines_chars(nv.take(i + 1)));
        }
        i += 1;
    }
    proof {
        assert(nv.take(i as int) =~= nv);
        assert(lv.take(0) =~= Seq::<DiagramLinkV>::empty());
    }
    let mut j: usize = 0;
    while j < links.len()
        invariant
            j <= lv.len(),
            lv.len() == links@.len(),
            lv == links.deep_view(),
            nv == nodes.deep_view(),
            r@ == dot_header_chars() + node_lines_chars(nv) + edge_lines_chars(
                lv.take(j as int),
            ),
        decreases lv.len() - j,
    {
        let link = &links[j];
        r.append("  \"");
        r.append(link.source_id.as_str());
        r.append("\" -> \"");
        r.append(link.target_id.as_str());
        r.append("\" [label=\"");
        r.append(render_link_type(&link.link_type));
        r.append("\"];\n");
        proof {
            assert(lv[j as int] == links@[j as int].deep_view());
            assert(lv.take(j + 1).drop_last() =~= lv.take(j as int));
            assert(lv.take(j + 1).last() == lv[j as int]);
            assert(r@ =~= dot_header_chars() + node_lines_chars(nv) + edge_lines_chars(
                lv.take(j + 1),
            ));
        }
        j += 1;
    }
    r.append("}\n");
    proof {
        assert(lv.take(j as int) =~= lv);
        assert(r@ =~= dot_chars(nv, lv));
    }
    r
}

} // verus!
