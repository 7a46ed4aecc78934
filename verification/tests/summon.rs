use mc_networking::data_types::command_data::{CommandGraph, CommandNode, GraphEncoder, RootNode};
use mc_networking::summon::{parse_i32, summon_decision, SummonCommand, SummonOutcome};

fn args(words: &[&str]) -> Vec<String> {
    words.iter().map(|w| w.to_string()).collect()
}

#[test]
fn integers_read_as_the_standard_library_reads_them() {
    assert_eq!(parse_i32("0"), Some(0));
    assert_eq!(parse_i32("007"), Some(7));
    assert_eq!(parse_i32("+7"), Some(7));
    assert_eq!(parse_i32("-42"), Some(-42));
    assert_eq!(parse_i32("2147483647"), Some(i32::MAX));
    assert_eq!(parse_i32("-2147483648"), Some(i32::MIN));
    assert_eq!(parse_i32("2147483648"), None);
    assert_eq!(parse_i32("-2147483649"), None);
    assert_eq!(parse_i32("99999999999999999999"), None);
    for bad in ["", "-", "+", " 1", "1 ", "1a", "1_000", "--1", "٣"] {
        assert_eq!(parse_i32(bad), None, "{:?}", bad);
        assert!(bad.parse::<i32>().is_err());
    }
    for good in ["12", "-0", "+2147483647", "000000000000000000001"] {
        assert_eq!(parse_i32(good), good.parse::<i32>().ok());
    }
}

#[test]
fn summon_is_refused_without_a_player_or_arguments() {
    assert!(matches!(summon_decision(false, &args(&["ghost"])), SummonOutcome::Refused));
    assert!(matches!(summon_decision(true, &args(&[])), SummonOutcome::Refused));
    assert!(matches!(summon_decision(true, &args(&["zombie"])), SummonOutcome::Refused));
}

#[test]
fn summon_ghosts() {
    assert!(matches!(summon_decision(true, &args(&["ghost"])), SummonOutcome::Ghosts { amount: 1 }));
    assert!(matches!(summon_decision(true, &args(&["ghost", "5"])), SummonOutcome::Ghosts { amount: 5 }));
    assert!(matches!(summon_decision(true, &args(&["ghost", "-3"])), SummonOutcome::Ghosts { amount: -3 }));
    assert!(matches!(summon_decision(true, &args(&["ghost", "many"])), SummonOutcome::Refused));
    // a third argument is not looked at
    assert!(matches!(summon_decision(true, &args(&["ghost", "2", "x"])), SummonOutcome::Ghosts { amount: 1 }));
}

#[test]
fn summon_living_entities() {
    match summon_decision(true, &args(&["living", "zombie"])) {
        SummonOutcome::Living { entity_type, amount } => {
            assert_eq!(entity_type, "minecraft:zombie");
            assert_eq!(amount, Some(1));
        }
        _ => panic!("expected a living entity"),
    }
    match summon_decision(true, &args(&["living", "mymod:blob", "3"])) {
        SummonOutcome::Living { entity_type, amount } => {
            assert_eq!(entity_type, "mymod:blob");
            assert_eq!(amount, Some(3));
        }
        _ => panic!("expected a living entity"),
    }
    match summon_decision(true, &args(&["living", "cow", "lots"])) {
        SummonOutcome::Living { entity_type, amount } => {
            assert_eq!(entity_type, "minecraft:cow");
            assert_eq!(amount, None);
        }
        _ => panic!("expected a living entity"),
    }
    assert!(matches!(summon_decision(true, &args(&["living"])), SummonOutcome::Refused));
    assert!(matches!(summon_decision(true, &args(&["living", "a", "1", "2"])), SummonOutcome::Refused));
}

#[test]
fn summon_names_and_graph() {
    assert_eq!(SummonCommand.names(), vec!["summon".to_string()]);
    let mut graph = CommandGraph::new();
    let top = SummonCommand.graph(&mut graph).unwrap();
    assert_eq!(top, vec![4]);
    assert_eq!(graph.nodes_len(), 5);
    let root = graph
        .add(CommandNode::Root(RootNode { is_executable: false, children_nodes: top, redirect_node: None }))
        .unwrap();
    let mut encoder = GraphEncoder::new();
    assert_eq!(encoder.add_node(&graph, root), 0);
    let nodes = encoder.encode();
    // the amount argument is shared by both forms and encoded once
    assert_eq!(nodes.len(), 6);
    let mut amount = vec![0x06, 0, 6];
    amount.extend_from_slice(b"amount");
    amount.push(17);
    amount.extend_from_slice(b"brigadier:integer");
    amount.extend_from_slice(&[1, 0, 0, 0, 1]);
    assert!(nodes.contains(&amount));
}
