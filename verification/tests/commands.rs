use mc_networking::commands::{FlyCommand, FlyOutcome, GamemodeCommand, PlayerAbilities};
use mc_networking::data_types::command_data::{CommandGraph, CommandNode, GraphEncoder, RootNode};
use mc_networking::events::{Event, EventHandler};
use std::any::TypeId;

fn args(words: &[&str]) -> Vec<String> {
    words.iter().map(|w| w.to_string()).collect()
}

const WALKER: PlayerAbilities = PlayerAbilities { can_fly: false, is_flying: false, invulnerable: false, gamemode: 0 };
const FLYER: PlayerAbilities = PlayerAbilities { can_fly: true, is_flying: true, invulnerable: true, gamemode: 1 };

#[test]
fn fly_names_and_graph() {
    assert_eq!(FlyCommand.names(), vec!["fly".to_string()]);
    let mut graph = CommandGraph::new();
    let top = FlyCommand.graph(&mut graph).unwrap();
    assert_eq!(top, vec![4]);
    assert_eq!(graph.nodes_len(), 5);
    let root = graph
        .add(CommandNode::Root(RootNode { is_executable: false, children_nodes: top, redirect_node: None }))
        .unwrap();
    let mut encoder = GraphEncoder::new();
    assert_eq!(encoder.add_node(&graph, root), 0);
    let nodes = encoder.encode();
    assert_eq!(nodes.len(), 6);
    assert_eq!(nodes[1], vec![1, 3, 2, 3, 4, 3, b'f', b'l', b'y']);
    assert_eq!(nodes[2], vec![0x05, 0, 6, b'e', b'n', b'a', b'b', b'l', b'e']);
    assert_eq!(nodes[4], vec![1, 1, 5, 5, b's', b'p', b'e', b'e', b'd']);
    let mut arg = vec![0x06, 0, 5];
    arg.extend_from_slice(b"speed");
    arg.push(15);
    arg.extend_from_slice(b"brigadier:float");
    arg.extend_from_slice(&[1, 0, 0, 0, 0]);
    assert_eq!(nodes[5], arg);
}

#[test]
fn fly_enable_and_disable() {
    match FlyCommand.on_command(true, &args(&["enable"]), WALKER) {
        FlyOutcome::Done { abilities, changed, message } => {
            assert_eq!(abilities, PlayerAbilities { can_fly: true, ..WALKER });
            assert!(changed);
            assert_eq!(message, "Fly is now enabled");
        }
        other => panic!("unexpected {:?}", other),
    }
    match FlyCommand.on_command(true, &args(&["enable"]), FLYER) {
        FlyOutcome::Done { abilities, changed, message } => {
            assert_eq!(abilities, FLYER);
            assert!(!changed);
            assert_eq!(message, "Fly is already enabled");
        }
        other => panic!("unexpected {:?}", other),
    }
    match FlyCommand.on_command(true, &args(&["disable"]), FLYER) {
        FlyOutcome::Done { abilities, changed, message } => {
            assert_eq!(abilities, PlayerAbilities { can_fly: false, is_flying: false, ..FLYER });
            assert!(changed);
            assert_eq!(message, "Fly is now disabled");
        }
        other => panic!("unexpected {:?}", other),
    }
    match FlyCommand.on_command(true, &args(&["disable"]), WALKER) {
        FlyOutcome::Done { changed, message, .. } => {
            assert!(!changed);
            assert_eq!(message, "Fly is already disabled");
        }
        other => panic!("unexpected {:?}", other),
    }
}

#[test]
fn fly_refusals_and_speed() {
    assert!(matches!(FlyCommand.on_command(false, &args(&["enable"]), WALKER), FlyOutcome::Refused));
    assert!(matches!(FlyCommand.on_command(true, &args(&[]), WALKER), FlyOutcome::Refused));
    assert!(matches!(FlyCommand.on_command(true, &args(&["enable", "now"]), WALKER), FlyOutcome::Refused));
    assert!(matches!(FlyCommand.on_command(true, &args(&["speed"]), WALKER), FlyOutcome::Refused));
    assert!(matches!(FlyCommand.on_command(true, &args(&["soar"]), WALKER), FlyOutcome::Refused));
    match FlyCommand.on_command(true, &args(&["speed", "2.5"]), WALKER) {
        FlyOutcome::SetSpeed { factor } => assert_eq!(factor, "2.5"),
        other => panic!("unexpected {:?}", other),
    }
}

#[test]
fn gamemode_names_and_graph() {
    assert_eq!(GamemodeCommand.names(), vec!["gamemode".to_string(), "gm".to_string()]);
    let mut graph = CommandGraph::new();
    let top = GamemodeCommand.graph(&mut graph).unwrap();
    assert_eq!(top, vec![4, 5]);
    assert_eq!(graph.nodes_len(), 6);
    let root = graph
        .add(CommandNode::Root(RootNode { is_executable: false, children_nodes: top, redirect_node: None }))
        .unwrap();
    let mut encoder = GraphEncoder::new();
    assert_eq!(encoder.add_node(&graph, root), 0);
    let nodes = encoder.encode();
    assert_eq!(nodes.len(), 7);
    assert_eq!(nodes[0], vec![0, 2, 1, 6]);
    // the alias: a literal that redirects to the main node
    assert_eq!(nodes[6], vec![0x09, 0, 1, 2, b'g', b'm']);
}

#[test]
fn gamemode_switches() {
    let survival = GamemodeCommand.on_command(true, &args(&["survival"]), FLYER);
    assert_eq!(survival, Some(WALKER));
    let creative = GamemodeCommand.on_command(true, &args(&["creative"]), WALKER);
    assert_eq!(creative, Some(PlayerAbilities { can_fly: true, is_flying: false, invulnerable: true, gamemode: 1 }));
    let adventure = GamemodeCommand.on_command(true, &args(&["adventure"]), FLYER);
    assert_eq!(adventure, Some(PlayerAbilities { gamemode: 2, ..WALKER }));
    let spectator = GamemodeCommand.on_command(true, &args(&["spectator"]), FLYER);
    assert_eq!(spectator, Some(PlayerAbilities { gamemode: 3, ..FLYER }));
    assert_eq!(GamemodeCommand.on_command(true, &args(&["hardcore"]), WALKER), None);
    assert_eq!(GamemodeCommand.on_command(true, &args(&["creative", "x"]), WALKER), None);
    assert_eq!(GamemodeCommand.on_command(false, &args(&["creative"]), WALKER), None);
}

struct Named(String);
impl Event for Named {
    fn is_cancellable(&self) -> bool {
        false
    }
}

struct Counter(u32);
impl EventHandler for Counter {
    fn event_type(&self) -> TypeId {
        TypeId::of::<Named>()
    }
    fn on_event(&mut self, event: &mut dyn mc_networking::events::Event) {
        if !event.is_cancellable() {
            self.0 += 1;
        }
    }
}

#[test]
fn handlers_take_events() {
    let mut counter = Counter(0);
    let mut event = Named("join".to_string());
    assert_eq!(counter.event_type(), TypeId::of::<Named>());
    counter.on_event(&mut event);
    counter.on_event(&mut event);
    assert_eq!(counter.0, 2);
    assert_eq!(event.0, "join");
}
