use mc_networking::data_types::command_data::{
    ArgumentNode, CommandGraph, CommandNode, GraphEncoder, LiteralNode, Node, RootNode,
};
use mc_networking::data_types::encoder::PacketDecoder;
use mc_networking::data_types::{Identifier, MetadataValue, Particle, Pose, Position, Slot};
use mc_networking::DecodingError;

#[test]
fn position_packing() {
    let p = Position { x: 1, y: 2, z: 3 };
    assert_eq!(p.encode(), (1u64 << 38) | (3u64 << 12) | 2);
    let q = Position { x: -1, y: 4095, z: -33554432 };
    let bits = q.encode();
    assert_eq!(Position::decode(bits as i64), q);
}

#[test]
fn position_decode_known_value() {
    // x = 18357644, y = 831, z = -20882616: the example of the protocol's documentation
    let bits: u64 = 0b01000110000001110110001100_10110000010101101101001000_001100111111;
    assert_eq!(
        Position::decode(bits as i64),
        Position { x: 18357644, y: 831, z: -20882616 }
    );
    assert_eq!(Position { x: 18357644, y: 831, z: -20882616 }.encode(), bits);
}

#[test]
fn position_with_negative_y_does_not_come_back() {
    // y is packed in 12 bits and read back as an unsigned field
    let p = Position { x: 0, y: -1, z: 0 };
    assert_eq!(Position::decode(p.encode() as i64).y, 4095);
    assert_eq!(Position::decode(Position { x: 0, y: -64, z: 0 }.encode() as i64).y, 4032);
}

#[test]
fn particle_codec() {
    let p = Particle { id: 300, data: -1 };
    let bytes = p.encode();
    assert_eq!(bytes, vec![0xac, 0x02, 0xff, 0xff, 0xff, 0xff, 0x0f]);
    assert_eq!(Particle::decode(&bytes).unwrap(), p);
    assert!(matches!(Particle::decode(&[0xac]), Err(DecodingError::NotEnoughBytes)));
}

#[test]
fn pose_numbers() {
    assert_eq!(Pose::Standing.encode(), 0);
    assert_eq!(Pose::Sneaking.encode(), 5);
    assert_eq!(Pose::decode(6), Pose::Dying);
    for n in 0..=6u8 {
        assert_eq!(Pose::decode(n).encode(), n);
    }
}

#[test]
fn identifier_parts() {
    let id = Identifier::new("minecraft:stone".to_string());
    assert_eq!(id.namespace(), "minecraft");
    assert_eq!(id.name(), "stone");
    assert_eq!(id.to_string(), "minecraft:stone");
    let plain = Identifier::from("stone");
    assert_eq!(plain.as_str(), "minecraft:stone");
    assert_eq!(plain.namespace(), "minecraft");
    let other = Identifier::from("brigadier:float");
    assert_eq!(other.namespace(), "brigadier");
    assert_eq!(other.name(), "float");
    let two = Identifier::from("a:b:c");
    assert_eq!(two.namespace(), "a");
    assert_eq!(two.name(), "b:c");
}

#[test]
fn slot_not_present() {
    assert_eq!(Slot::NotPresent.encode(), vec![0]);
    let mut d = PacketDecoder::from_bytes(vec![0]);
    assert!(!Slot::decode_sync(&mut d).unwrap().is_present());
    assert!(!Slot::default().is_present());
}

#[test]
fn slot_with_empty_nbt() {
    let slot = Slot::decode(&[1, 0x05, 3, 0]).unwrap();
    match &slot {
        Slot::Present { item_id, item_count, .. } => {
            assert_eq!(*item_id, 5);
            assert_eq!(*item_count, 3);
        }
        Slot::NotPresent => panic!("expected an item"),
    }
    let bytes = slot.encode();
    // an empty blob is written back as an empty compound
    assert_eq!(bytes, vec![1, 5, 3, 0x0a, 0, 0, 0]);
}

#[test]
fn slot_with_bad_nbt_is_an_io_error() {
    assert!(matches!(Slot::decode(&[1, 0x05, 3, 7, 7]), Err(DecodingError::IoError(_))));
}

#[test]
fn slot_with_a_named_byte() {
    // A compound with the byte "a" = 7, then the end tag.
    let bytes = [1, 0x05, 3, 0x0a, 0, 0, 1, 0, 1, b'a', 7, 0];
    let slot = Slot::decode(&bytes).unwrap();
    match &slot {
        Slot::Present { item_id, item_count, nbt } => {
            assert_eq!((*item_id, *item_count), (5, 3));
            assert_eq!(nbt.get("a"), Some(&nbt::Value::Byte(7)));
        }
        Slot::NotPresent => panic!("expected an item"),
    }
    assert_eq!(slot.encode(), bytes.to_vec());
}

#[test]
fn slot_nbt_is_written_back_without_its_name() {
    // A compound named "n" holding the byte "a" = 7: the name is not written back.
    let bytes = [1, 0x05, 3, 0x0a, 0, 1, b'n', 1, 0, 1, b'a', 7, 0];
    let slot = Slot::decode(&bytes).unwrap();
    assert_eq!(slot.encode(), vec![1, 5, 3, 0x0a, 0, 0, 1, 0, 1, b'a', 7, 0]);
}

#[test]
fn slot_with_a_negative_array_length_is_marked_as_panicking() {
    // A compound holding a byte array of length -1.
    let bytes = vec![1, 0x05, 3, 0x0a, 0, 0, 7, 0, 0, 0xff, 0xff, 0xff, 0xff];
    let mut d = PacketDecoder::from_bytes(bytes);
    assert!(Slot::decode_sync(&mut d).is_err());
    assert!(d.has_panicked());
}

#[test]
fn slot_with_an_array_longer_than_its_input_is_an_io_error() {
    let bytes = [1, 0x05, 3, 0x0a, 0, 0, 7, 0, 0, 0x7f, 0xff, 0xff, 0xff, 1, 2];
    assert!(matches!(Slot::decode(&bytes), Err(DecodingError::IoError(_))));
    // a list that promises more elements than there are bytes
    let bytes = [1, 0x05, 3, 0x0a, 0, 0, 9, 0, 0, 1, 0x7f, 0xff, 0xff, 0xff, 1, 2];
    assert!(matches!(Slot::decode(&bytes), Err(DecodingError::IoError(_))));
}

#[test]
fn slot_with_nbt_nested_too_deep_is_refused() {
    let mut bytes = vec![1, 0x05, 3, 0x0a, 0, 0];
    for _ in 0..600 {
        bytes.extend_from_slice(&[0x0a, 0, 0]);
    }
    for _ in 0..601 {
        bytes.push(0);
    }
    assert!(matches!(Slot::decode(&bytes), Err(DecodingError::ParseError { .. })));
}

#[test]
fn metadata_values() {
    assert_eq!(MetadataValue::Byte(9).encode(), vec![0, 9]);
    assert_eq!(MetadataValue::VarInt(300).encode(), vec![1, 0xac, 0x02]);
    assert_eq!(MetadataValue::Boolean(true).encode(), vec![7, 1]);
    assert_eq!(MetadataValue::OptVarInt(None).encode(), vec![17, 0]);
    assert_eq!(MetadataValue::OptBlockID(Some(2)).encode(), vec![13, 1, 2]);
    assert_eq!(
        MetadataValue::VillagerData { kind: 1, profession: 2, level: 3 }.encode(),
        vec![16, 1, 3, 2]
    );
    assert_eq!(MetadataValue::Pose(Pose::Swimming).encode(), vec![18, 3]);
    assert_eq!(MetadataValue::String("hi".to_string()).encode(), vec![3, 2, b'h', b'i']);
    assert_eq!(MetadataValue::Float(1.0f32.to_bits()).encode(), vec![2, 0x3f, 0x80, 0, 0]);
    assert_eq!(MetadataValue::Slot(Slot::NotPresent).encode(), vec![6, 0]);
}

#[test]
fn metadata_decoding() {
    let mut d = PacketDecoder::from_bytes(vec![1, 0xac, 0x02]);
    assert!(matches!(MetadataValue::decode_sync(&mut d), Ok(MetadataValue::VarInt(300))));
    let mut d = PacketDecoder::from_bytes(vec![7, 1]);
    assert!(matches!(MetadataValue::decode_sync(&mut d), Ok(MetadataValue::Boolean(true))));
    let mut d = PacketDecoder::from_bytes(vec![40]);
    assert!(matches!(
        MetadataValue::decode_sync(&mut d),
        Err(DecodingError::ParseError { .. })
    ));
}

fn literal(name: &str, executable: bool, children: Vec<usize>) -> CommandNode {
    CommandNode::Literal(LiteralNode {
        is_executable: executable,
        children_nodes: children,
        redirect_node: None,
        name: name.to_string(),
    })
}

#[test]
fn command_graph_encoding() {
    let mut graph = CommandGraph::new();
    let enable = graph.add(literal("enable", true, vec![])).unwrap();
    let speed_arg = graph
        .add(CommandNode::Argument(ArgumentNode {
            is_executable: true,
            children_nodes: vec![],
            redirect_node: None,
            name: "speed".to_string(),
            parser: Identifier::from("brigadier:float"),
            properties: vec![1, 0, 0, 0, 0],
            suggestions_type: None,
        }))
        .unwrap();
    let speed = graph.add(literal("speed", false, vec![speed_arg])).unwrap();
    let fly = graph.add(literal("fly", false, vec![enable, speed])).unwrap();
    let root = graph
        .add(CommandNode::Root(RootNode {
            is_executable: false,
            children_nodes: vec![fly],
            redirect_node: None,
        }))
        .unwrap();
    assert!(graph.add(literal("bad", false, vec![99])).is_none());

    let mut encoder = GraphEncoder::new();
    assert_eq!(encoder.add_node(&graph, root), 0);
    assert_eq!(encoder.get_node_index(fly), 1);
    assert_eq!(encoder.get_node_index(enable), 2);
    assert_eq!(encoder.get_node_index(speed), 3);
    assert_eq!(encoder.get_node_index(speed_arg), 4);
    assert_eq!(encoder.get_node_index(1000), -1);
    assert_eq!(encoder.add_node(&graph, speed), 3);
    let nodes = encoder.encode();
    assert_eq!(nodes.len(), 5);
    assert_eq!(nodes[0], vec![0, 1, 1]);
    assert_eq!(nodes[1], vec![1, 2, 2, 3, 3, b'f', b'l', b'y']);
    assert_eq!(nodes[2], vec![0x05, 0, 6, b'e', b'n', b'a', b'b', b'l', b'e']);
    assert_eq!(nodes[3], vec![1, 1, 4, 5, b's', b'p', b'e', b'e', b'd']);
    let mut arg = vec![0x06, 0, 5];
    arg.extend_from_slice(b"speed");
    arg.push(15);
    arg.extend_from_slice(b"brigadier:float");
    arg.extend_from_slice(&[1, 0, 0, 0, 0]);
    assert_eq!(nodes[4], arg);
}

#[test]
fn shared_nodes_are_encoded_once() {
    let mut graph = CommandGraph::new();
    let leaf = graph.add(literal("x", true, vec![])).unwrap();
    let a = graph.add(literal("a", false, vec![leaf])).unwrap();
    let b = graph
        .add(CommandNode::Literal(LiteralNode {
            is_executable: false,
            children_nodes: vec![leaf],
            redirect_node: Some(a),
            name: "b".to_string(),
        }))
        .unwrap();
    let root = graph
        .add(CommandNode::Root(RootNode { is_executable: false, children_nodes: vec![a, b], redirect_node: None }))
        .unwrap();
    let mut encoder = GraphEncoder::new();
    assert_eq!(encoder.add_node(&graph, root), 0);
    let nodes = encoder.encode();
    assert_eq!(nodes.len(), 4);
    assert_eq!(nodes[3], vec![0x09, 1, 2, 1, 1, b'b']);
}

#[test]
fn node_names() {
    let root = RootNode { is_executable: false, children_nodes: vec![], redirect_node: None };
    assert_eq!(root.name(), "root");
    let lit = LiteralNode { is_executable: false, children_nodes: vec![], redirect_node: None, name: "tp".to_string() };
    assert_eq!(lit.name(), "tp");
}

#[test]
fn readable_metadata_comes_back() {
    let values = vec![
        MetadataValue::Byte(250),
        MetadataValue::VarInt(-5),
        MetadataValue::Float(2.5f32.to_bits()),
        MetadataValue::String("zombie".to_string()),
        MetadataValue::Boolean(false),
    ];
    for v in values {
        let mut bytes = vec![0xaa];
        bytes.extend(v.encode());
        bytes.push(0xbb);
        let mut d = PacketDecoder::from_bytes(bytes);
        d.read_u8().unwrap();
        let back = MetadataValue::decode_sync(&mut d).unwrap();
        assert_eq!(format!("{:?}", back), format!("{:?}", v));
        assert_eq!(d.remaining(), 1);
    }
}
