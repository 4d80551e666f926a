use starrocks_admin_backend::topology::{
    extract_operator_name, ParseError, RawNode, RawTopology, TopologyGraph, TopologyNode, TopologyParser,
};
use starrocks_admin_backend::tree::NodeClass;

/// Decode topology JSON into the raw form the parser checks.
fn raw_from_json(json: &str) -> RawTopology {
    let v: serde_json::Value = serde_json::from_str(json).unwrap();
    let nodes = v.get("nodes").and_then(|n| n.as_array()).map(|arr| {
        arr.iter()
            .map(|n| RawNode {
                id: n.get("id").and_then(|x| x.as_i64()),
                name: n.get("name").and_then(|x| x.as_str()).map(|s| s.to_string()),
                properties: n.get("properties").and_then(|p| p.as_object()).map(|o| {
                    o.iter().map(|(k, v)| (k.clone(), v.to_string())).collect()
                }),
                children: n.get("children").and_then(|c| c.as_array()).map(|c| {
                    c.iter().map(|x| x.as_i64()).collect()
                }),
            })
            .collect()
    });
    RawTopology { root_id: v.get("rootId").and_then(|x| x.as_i64()), nodes }
}

#[test]
fn test_parse_topology() {
    let json = r#"{
            "rootId": 1,
            "nodes": [
                {
                    "id": 1,
                    "name": "EXCHANGE",
                    "properties": {"sinkIds": []},
                    "children": [0]
                },
                {
                    "id": 0,
                    "name": "OLAP_SCAN",
                    "properties": {},
                    "children": []
                }
            ]
        }"#;

    let topology = TopologyParser::parse(&raw_from_json(json)).unwrap();
    assert_eq!(topology.root_id, 1);
    assert_eq!(topology.nodes.len(), 2);
    assert_eq!(topology.nodes[0].name, "EXCHANGE");
    assert_eq!(topology.nodes[0].node_class, NodeClass::ExchangeNode);
    assert_eq!(topology.nodes[1].node_class, NodeClass::ScanNode);
}

fn tnode(id: i32, name: &str, children: Vec<i32>) -> TopologyNode {
    TopologyNode { id, name: name.to_string(), node_class: NodeClass::Unknown, properties: vec![], children }
}

#[test]
fn test_validate_topology() {
    let topology = TopologyGraph {
        root_id: 1,
        nodes: vec![tnode(1, "ROOT", vec![0]), tnode(0, "LEAF", vec![])],
    };

    assert!(TopologyParser::validate(&topology).is_ok());
}

#[test]
fn validate_rejects_missing_root_dangling_child_and_cycle() {
    let no_root = TopologyGraph { root_id: 7, nodes: vec![tnode(1, "A", vec![])] };
    match TopologyParser::validate(&no_root) {
        Err(ParseError::TopologyError(m)) => assert!(m.contains("Root node 7")),
        Ok(()) => panic!("a missing root must be refused"),
    }

    let dangling = TopologyGraph { root_id: 1, nodes: vec![tnode(1, "A", vec![5])] };
    assert!(TopologyParser::validate(&dangling).is_err());

    let cycle = TopologyGraph {
        root_id: 1,
        nodes: vec![tnode(1, "A", vec![2]), tnode(2, "B", vec![3]), tnode(3, "C", vec![1])],
    };
    assert!(TopologyParser::validate(&cycle).is_err());

    let self_loop = TopologyGraph { root_id: 1, nodes: vec![tnode(1, "A", vec![1])] };
    assert!(TopologyParser::validate(&self_loop).is_err());

    let diamond = TopologyGraph {
        root_id: 1,
        nodes: vec![tnode(1, "A", vec![2, 3]), tnode(2, "B", vec![4]), tnode(3, "C", vec![4]), tnode(4, "D", vec![])],
    };
    assert!(TopologyParser::validate(&diamond).is_ok());
}

#[test]
fn parse_rejects_missing_fields() {
    let no_root = raw_from_json(r#"{"nodes": []}"#);
    assert!(TopologyParser::parse(&no_root).is_err());
    let no_nodes = raw_from_json(r#"{"rootId": 1}"#);
    assert!(TopologyParser::parse(&no_nodes).is_err());
}

#[test]
fn operator_name_drops_plan_node_suffix() {
    assert_eq!(extract_operator_name("OLAP_SCAN (plan_node_id=0)"), "OLAP_SCAN");
    assert_eq!(extract_operator_name("EXCHANGE"), "EXCHANGE");
}
