//! Decisions a server's client handler takes: whether a player logging in
//! is let in and under which entity id, and which part of the player's
//! inventory a creative-mode slot change fills.
use vstd::prelude::*;
use vstd::string::StringExecFns;

verus! {

broadcast use vstd::string::group_string_axioms;

/// The answer to a login.
#[derive(Debug)]
pub enum LoginDecision {
    /// Disconnect the player with `reason`.
    Refuse { reason: String },
    /// Let the player in as entity `entity_id`; the server's id counter
    /// becomes `next_eid`.
    Accept { entity_id: i32, next_eid: i32, username: String },
}

/// A player logs in as `username` while `players` are online, the server
/// takes at most `max_players`, and its entity id counter stands at
/// `next_eid`: refused where the server is full, else let in under the
/// counter's value, which the counter then passes (an atomic add, wrapping
/// round at the end of the `i32` range).
pub fn on_login_start(players: usize, max_players: u16, next_eid: i32, username: String) -> (d: LoginDecision)
    ensures
        max_players as int <= players ==> (d matches LoginDecision::Refuse { reason } && reason@
            == "The server is full :("@),
        players < max_players as int ==> (d matches LoginDecision::Accept { entity_id, next_eid: n, username: u }
            && entity_id == next_eid && n == next_eid.wrapping_add(1) && u@ == username@),
{
    if (max_players as usize) <= players {
        LoginDecision::Refuse { reason: String::from_str("The server is full :(") }
    } else {
        LoginDecision::Accept { entity_id: next_eid, next_eid: next_eid.wrapping_add(1), username }
    }
}

/// A part of a player's inventory.
#[derive(Clone, Copy, Debug, PartialEq, Eq, Structural)]
pub enum InventoryField {
    CraftingOutput,
    /// One of the four crafting inputs.
    CraftingInput(usize),
    ArmorHead,
    ArmorChest,
    ArmorLegs,
    ArmorFeet,
    /// One of the 27 slots of the main inventory.
    MainInventory(usize),
    /// One of the 9 slots of the hotbar.
    Hotbar(usize),
    Offhand,
}

/// The part of the inventory that window slot `slot_id` stands for.
pub open spec fn slot_field(slot_id: int) -> Option<InventoryField> {
    if slot_id == 0 {
        Some(InventoryField::CraftingOutput)
    } else if 1 <= slot_id <= 4 {
        Some(InventoryField::CraftingInput((slot_id - 1) as usize))
    } else if slot_id == 5 {
        Some(InventoryField::ArmorHead)
    } else if slot_id == 6 {
        Some(InventoryField::ArmorChest)
    } else if slot_id == 7 {
        Some(InventoryField::ArmorLegs)
    } else if slot_id == 8 {
        Some(InventoryField::ArmorFeet)
    } else if 9 <= slot_id <= 35 {
        Some(InventoryField::MainInventory((slot_id - 9) as usize))
    } else if 36 <= slot_id <= 44 {
        Some(InventoryField::Hotbar((slot_id - 36) as usize))
    } else if slot_id == 45 {
        Some(InventoryField::Offhand)
    } else {
        None
    }
}

/// Where a creative-mode player's change of window slot `slot_id` goes:
/// nowhere unless the player is in creative mode (game mode 1), else the
/// part of the inventory the slot stands for, or nowhere for any other
/// slot number.
pub fn creative_slot(gamemode: u8, slot_id: i16) -> (f: Option<InventoryField>)
    ensures
        gamemode != 1 ==> f is None,
        gamemode == 1 ==> f == slot_field(slot_id as int),
{
    if gamemode != 1 {
        return None;
    }
    if slot_id == 0 {
        Some(InventoryField::CraftingOutput)
    } else if 1 <= slot_id && slot_id <= 4 {
        Some(InventoryField::CraftingInput((slot_id - 1) as usize))
    } else if slot_id == 5 {
        Some(InventoryField::ArmorHead)
    } else if slot_id == 6 {
        Some(InventoryField::ArmorChest)
    } else if slot_id == 7 {
        Some(InventoryField::ArmorLegs)
    } else if slot_id == 8 {
        Some(InventoryField::ArmorFeet)
    } else if 9 <= slot_id && slot_id <= 35 {
        Some(InventoryField::MainInventory((slot_id - 9) as usize))
    } else if 36 <= slot_id && slot_id <= 44 {
        Some(InventoryField::Hotbar((slot_id - 36) as usize))
    } else if slot_id == 45 {
        Some(InventoryField::Offhand)
    } else {
        None
    }
}

/// The window slot of each part of the inventory, in the layout of the
/// player's inventory window: the crafting output, the four crafting
/// inputs, the helmet, chestplate, leggings and boots, the 27 slots of the
/// main inventory, the 9 of the hotbar, and last the offhand.
pub open spec fn window_slot(f: InventoryField) -> int {
    match f {
        InventoryField::CraftingOutput => 0,
        InventoryField::CraftingInput(i) => 1 + i,
        InventoryField::ArmorHead => 5,
        InventoryField::ArmorChest => 6,
        InventoryField::ArmorLegs => 7,
        InventoryField::ArmorFeet => 8,
        InventoryField::MainInventory(i) => 9 + i,
        InventoryField::Hotbar(i) => 36 + i,
        InventoryField::Offhand => 45,
    }
}

/// Whether the index of a part lies within the part.
pub open spec fn field_in_range(f: InventoryField) -> bool {
    match f {
        InventoryField::CraftingInput(i) => i < 4,
        InventoryField::MainInventory(i) => i < 27,
        InventoryField::Hotbar(i) => i < 9,
        _ => true,
    }
}

/// A creative player's change of a window slot goes to the part of the
/// inventory that sits at that slot of the window, and every part is
/// reached from its own slot: the slot mapping and the window layout are
/// inverse to each other.
pub proof fn creative_slots_follow_the_window_layout(slot_id: i16, f: InventoryField)
    ensures
        slot_field(slot_id as int) matches Some(g) ==> window_slot(g) == slot_id && field_in_range(g),
        0 <= slot_id <= 45 ==> slot_field(slot_id as int) is Some,
        field_in_range(f) ==> slot_field(window_slot(f)) == Some(f),
{
}

/// The window's slots 0 to 45 each stand for a different part of the
/// inventory, and every index of a part lies in the part's range.
pub proof fn window_slots_are_distinct(a: int, b: int)
    requires
        0 <= a < b <= 45,
    ensures
        slot_field(a) is Some,
        slot_field(a) != slot_field(b),
        slot_field(a) matches Some(InventoryField::CraftingInput(i)) ==> i < 4,
        slot_field(a) matches Some(InventoryField::MainInventory(i)) ==> i < 27,
        slot_field(a) matches Some(InventoryField::Hotbar(i)) ==> i < 9,
{
}

} // verus!
