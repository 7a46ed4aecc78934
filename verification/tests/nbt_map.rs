use mc_networking::nbt_map::NBTMap;

#[test]
fn registry_entries_are_numbered_in_order() {
    let mut m: NBTMap<u8> = NBTMap::new("minecraft:dimension_type".to_string());
    assert_eq!(m.self_type(), "minecraft:dimension_type");
    assert_eq!(m.len(), 0);
    m.push_element("minecraft:overworld".to_string(), 7);
    m.push_element("minecraft:the_nether".to_string(), 9);
    assert_eq!(m.len(), 2);
    assert_eq!(m.entry(0), ("minecraft:overworld", 0));
    assert_eq!(m.entry(1), ("minecraft:the_nether", 1));
}
