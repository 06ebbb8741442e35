use netpolicy::ir::{Add, AddChain, AddTable, Batch, Cmp, Data, Expr, Flush, Match, Stmt,
    TableFamily};
use netpolicy::text::u64_to_string;
use netpolicy::visualizations::{render_dot, DiagramLink, DiagramNode, LinkType, NodeType};

#[test]
fn decimal_rendering() {
    assert_eq!(u64_to_string(0), "0");
    assert_eq!(u64_to_string(7), "7");
    assert_eq!(u64_to_string(42), "42");
    assert_eq!(u64_to_string(65535), "65535");
    assert_eq!(u64_to_string(u64::MAX), "18446744073709551615");
}

#[test]
fn statement_rendering() {
    let mut batch = Batch::new();
    batch.add(
        &Stmt::AddTable(AddTable { family: TableFamily::Ip6, name: "nat".to_string() }),
        None,
    );
    batch.add(
        &Stmt::AddChain(AddChain {
            family: TableFamily::Inet,
            table: "filter".to_string(),
            name: "spare".to_string(),
            handle: None,
            constraint: None,
        }),
        None,
    );
    batch.add(
        &Stmt::Flush(Flush::Chain {
            family: TableFamily::Ip,
            table: "filter".to_string(),
            name: "input".to_string(),
        }),
        None,
    );
    assert_eq!(
        batch.commands(),
        vec![
            "add table ip6 nat".to_string(),
            "add chain inet filter spare".to_string(),
            "flush chain ip filter input".to_string(),
        ]
    );
}

#[test]
fn rule_rendering_with_numeric_operand() {
    let mut batch = Batch::new();
    batch.add(
        &Stmt::Add(Add {
            family: TableFamily::Inet,
            table: "filter".to_string(),
            chain: "input".to_string(),
            handle: None,
            index: None,
            expr: vec![
                Expr::Match(Match {
                    op: "tcp".to_string(),
                    expr: Box::new(Expr::Cmp(Cmp {
                        op: "dport".to_string(),
                        data: Data::NumVal(8443),
                    })),
                }),
                Expr::Counter,
                Expr::Drop,
            ],
        }),
        None,
    );
    assert_eq!(
        batch.commands(),
        vec!["add rule inet filter input tcp dport 8443 counter drop".to_string()]
    );
}

#[test]
fn comment_suffix_is_appended() {
    let mut batch = Batch::new();
    batch.add(
        &Stmt::AddTable(AddTable { family: TableFamily::Inet, name: "filter".to_string() }),
        Some("generation 1"),
    );
    assert_eq!(
        batch.commands(),
        vec!["add table inet filter # generation 1".to_string()]
    );
}

#[test]
fn script_joins_lines_with_newlines() {
    let mut batch = Batch::new();
    batch.add(
        &Stmt::AddTable(AddTable { family: TableFamily::Inet, name: "filter".to_string() }),
        None,
    );
    batch.add(
        &Stmt::Flush(Flush::Table { family: TableFamily::Inet, name: "filter".to_string() }),
        None,
    );
    assert_eq!(batch.script(), "add table inet filter\nflush table inet filter");
    assert_eq!(Batch::new().script(), "");
}

#[test]
fn batch_clone_renders_identically() {
    let mut batch = Batch::new();
    batch.add(
        &Stmt::AddTable(AddTable { family: TableFamily::Arp, name: "t".to_string() }),
        None,
    );
    let copy = batch.clone();
    assert_eq!(batch.script(), copy.script());
}

#[test]
fn dot_export_renders_nodes_and_edges() {
    let nodes = vec![
        DiagramNode {
            id: "router-main".to_string(),
            name: "Main Router".to_string(),
            node_type: NodeType::Router,
        },
        DiagramNode {
            id: "interface-eth0".to_string(),
            name: "eth0".to_string(),
            node_type: NodeType::Switch,
        },
    ];
    let links = vec![DiagramLink {
        source_id: "router-main".to_string(),
        target_id: "interface-eth0".to_string(),
        link_type: LinkType::Ethernet,
    }];
    let dot = render_dot(&nodes, &links);
    assert_eq!(
        dot,
        "digraph network {\n  rankdir=TB;\n  node [shape=box, style=filled, fillcolor=lightblue];\n\n  \"router-main\" [label=\"Main Router (router)\"];\n  \"interface-eth0\" [label=\"eth0 (switch)\"];\n  \"router-main\" -> \"interface-eth0\" [label=\"ethernet\"];\n}\n"
    );
}

#[test]
fn dot_export_of_empty_topology() {
    let dot = render_dot(&Vec::new(), &Vec::new());
    assert_eq!(
        dot,
        "digraph network {\n  rankdir=TB;\n  node [shape=box, style=filled, fillcolor=lightblue];\n\n}\n"
    );
}
