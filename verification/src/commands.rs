//! The `fly` and `gamemode` chat commands: the nodes they add to the command
//! graph, and what each invocation does to the player's abilities.
use crate::data_types::command_data::{ArgumentNode, CommandGraph, CommandNode, LiteralNode};
use crate::data_types::Identifier;
use vstd::prelude::*;
use vstd::string::StringExecFns;

verus! {

broadcast use vstd::string::group_string_axioms;

/// The abilities of a player that the commands read and change.
#[derive(Clone, Copy, Debug, PartialEq, Eq, Structural)]
pub struct PlayerAbilities {
    pub can_fly: bool,
    pub is_flying: bool,
    pub invulnerable: bool,
    /// 0 survival, 1 creative, 2 adventure, 3 spectator.
    pub gamemode: u8,
}

/// `n` is a literal node with these fields.
pub open spec fn literal_is(
    n: CommandNode,
    name: Seq<char>,
    executable: bool,
    children: Seq<usize>,
    redirect: Option<usize>,
) -> bool {
    &&& n matches CommandNode::Literal(l)
    &&& l.name@ == name
    &&& l.is_executable == executable
    &&& l.children_nodes@ == children
    &&& l.redirect_node == redirect
}

/// `graph` grew from `prev` by `added` nodes and kept the old ones.
pub open spec fn grew_by(prev: Seq<CommandNode>, graph: Seq<CommandNode>, added: int) -> bool {
    &&& graph.len() == prev.len() + added
    &&& graph.take(prev.len() as int) == prev
}

/// Adds a literal node that refers only to nodes below the graph's length.
pub(crate) fn add_literal(
    graph: &mut CommandGraph,
    name: &str,
    executable: bool,
    children: Vec<usize>,
    redirect: Option<usize>,
) -> (id: usize)
    requires
        old(graph).spec_nodes().len() < i32::MAX,
        forall|j: int| 0 <= j < children@.len() ==> children@[j] < old(graph).spec_nodes().len(),
        redirect matches Some(r) ==> r < old(graph).spec_nodes().len(),
    ensures
        id == old(graph).spec_nodes().len(),
        final(graph).spec_nodes().len() == old(graph).spec_nodes().len() + 1,
        final(graph).spec_nodes().take(old(graph).spec_nodes().len() as int) == old(
            graph,
        ).spec_nodes(),
        literal_is(final(graph).spec_nodes()[id as int], name@, executable, children@, redirect),
{
    let ghost c = children@;
    let node = CommandNode::Literal(
        LiteralNode {
            is_executable: executable,
            children_nodes: children,
            redirect_node: redirect,
            name: String::from_str(name),
        },
    );
    let r = graph.add(node);
    match r {
        Some(id) => {
            assert(final(graph).spec_nodes().take(old(graph).spec_nodes().len() as int)
                =~= old(graph).spec_nodes());
            id
        },
        None => {
            assert(false);
            0
        },
    }
}

/// The `fly` command: `fly enable`, `fly disable`, `fly speed <factor>`.
pub struct FlyCommand;

/// What `fly` does.
#[derive(Debug)]
pub enum FlyOutcome {
    /// The command does not apply: the caller answers that it failed.
    Refused,
    /// The player's abilities become `abilities` (updated and sent to the
    /// client where `changed`), and the player reads `message`: green where
    /// `changed`, red where not.
    Done { abilities: PlayerAbilities, changed: bool, message: String },
    /// Set the flying speed to 0.05 times `factor` read as a float; where it
    /// is not one, the command failed.
    SetSpeed { factor: String },
}

impl FlyCommand {
    /// The names the command answers to.
    pub fn names(&self) -> (names: Vec<String>)
        ensures
            names@.len() == 1,
            names@[0]@ == "fly"@,
    {
        let mut names = Vec::new();
        names.push(String::from_str("fly"));
        names
    }

    /// Adds the command's nodes to `graph`, children first, and returns the
    /// ids of the nodes the root is to list; `None`, with the graph
    /// unchanged, where the graph has no room for them.
    pub fn graph(&self, graph: &mut CommandGraph) -> (top: Option<Vec<usize>>)
        ensures
            ({
                let b = old(graph).spec_nodes().len() as int;
                let g = final(graph).spec_nodes();
                if b + 5 <= i32::MAX {
                    &&& top matches Some(t) && t@ == seq![(b + 4) as usize]
                    &&& grew_by(old(graph).spec_nodes(), g, 5)
                    &&& literal_is(g[b], "enable"@, true, seq![], None)
                    &&& literal_is(g[b + 1], "disable"@, true, seq![], None)
                    &&& g[b + 2] matches CommandNode::Argument(a) && a.name@ == "speed"@
                        && a.is_executable && a.children_nodes@ == Seq::<usize>::empty()
                        && a.redirect_node is None && a.parser@ == "brigadier:float"@
                        && a.properties@ == seq![1u8, 0, 0, 0, 0] && a.suggestions_type is None
                    &&& literal_is(g[b + 3], "speed"@, false, seq![(b + 2) as usize], None)
                    &&& literal_is(
                        g[b + 4],
                        "fly"@,
                        false,
                        seq![b as usize, (b + 1) as usize, (b + 3) as usize],
                        None,
                    )
                } else {
                    top is None && g == old(graph).spec_nodes()
                }
            }),
    {
        let b = graph.nodes_len();
        if b > 0x7fff_fffa {
            return None;
        }
        let g0 = Ghost(graph.spec_nodes());
        let enable = add_literal(graph, "enable", true, Vec::new(), None);
        let g1 = Ghost(graph.spec_nodes());
        let disable = add_literal(graph, "disable", true, Vec::new(), None);
        let g2 = Ghost(graph.spec_nodes());
        let parser = Identifier::from("brigadier:float");
        proof {
            reveal_strlit("brigadier:float");
            assert(crate::data_types::identifier::has_char("brigadier:float"@, ':')) by {
                assert("brigadier:float"@[9] == ':');
            }
        }
        let mut properties = Vec::new();
        properties.push(1u8);
        properties.push(0u8);
        properties.push(0u8);
        properties.push(0u8);
        properties.push(0u8);
        let speed_arg = CommandNode::Argument(
            ArgumentNode {
                is_executable: true,
                children_nodes: Vec::new(),
                redirect_node: None,
                name: String::from_str("speed"),
                parser,
                properties,
                suggestions_type: None,
            },
        );
        assert(speed_arg matches CommandNode::Argument(a) && a.properties@ =~= seq![1u8, 0, 0, 0, 0]
            && a.parser@ == "brigadier:float"@);
        let r = graph.add(speed_arg);
        let arg = match r {
            Some(id) => id,
            None => {
                assert(false);
                0
            },
        };
        let g3 = Ghost(graph.spec_nodes());
        let mut speed_children = Vec::new();
        speed_children.push(arg);
        assert(speed_children@ =~= seq![(b + 2) as usize]);
        let speed = add_literal(graph, "speed", false, speed_children, None);
        let g4 = Ghost(graph.spec_nodes());
        let mut fly_children = Vec::new();
        fly_children.push(enable);
        fly_children.push(disable);
        fly_children.push(speed);
        assert(fly_children@ =~= seq![b as usize, (b + 1) as usize, (b + 3) as usize]);
        let fly = add_literal(graph, "fly", false, fly_children, None);
        let mut top = Vec::new();
        top.push(fly);
        proof {
            let g = graph.spec_nodes();
            assert(g[b as int] == g1@[b as int]) by {
                assert(g[b as int] == g4@[b as int]);
                assert(g4@[b as int] == g3@[b as int]);
                assert(g3@[b as int] == g2@[b as int]);
                assert(g2@[b as int] == g1@[b as int]);
            }
            assert(g[b as int + 1] == g2@[b as int + 1]) by {
                assert(g[b as int + 1] == g4@[b as int + 1]);
                assert(g4@[b as int + 1] == g3@[b as int + 1]);
                assert(g3@[b as int + 1] == g2@[b as int + 1]);
            }
            assert(g[b as int + 2] == g3@[b as int + 2]) by {
                assert(g[b as int + 2] == g4@[b as int + 2]);
                assert(g4@[b as int + 2] == g3@[b as int + 2]);
            }
            assert(g[b as int + 3] == g4@[b as int + 3]);
            assert(g.take(b as int) =~= g0@) by {
                assert(g.take(b as int) =~= g4@.take(b as int));
                assert(g4@.take(b as int) =~= g3@.take(b as int));
                assert(g3@.take(b as int) =~= g2@.take(b as int));
                assert(g2@.take(b as int) =~= g1@.take(b as int));
            }
            assert(top@ =~= seq![(b + 4) as usize]);
        }
        Some(top)
    }

    /// What `fly` does with `args` for a player with `current` abilities;
    /// for anyone else it is refused.
    pub fn on_command(&self, is_player: bool, args: &Vec<String>, current: PlayerAbilities) -> (r:
        FlyOutcome)
        ensures
            !is_player || args@.len() == 0 ==> r is Refused,
            is_player && args@.len() > 0 && args@[0]@ == "enable"@ ==> if args@.len() != 1 {
                r is Refused
            } else if current.can_fly {
                r matches FlyOutcome::Done { abilities, changed, message } && abilities == current
                    && !changed && message@ == "Fly is already enabled"@
            } else {
                r matches FlyOutcome::Done { abilities, changed, message } && abilities
                    == PlayerAbilities { can_fly: true, ..current } && changed && message@
                    == "Fly is now enabled"@
            },
            is_player && args@.len() > 0 && args@[0]@ == "disable"@ ==> if args@.len() != 1 {
                r is Refused
            } else if !current.can_fly {
                r matches FlyOutcome::Done { abilities, changed, message } && abilities == current
                    && !changed && message@ == "Fly is already disabled"@
            } else {
                r matches FlyOutcome::Done { abilities, changed, message } && abilities
                    == PlayerAbilities { can_fly: false, is_flying: false, ..current } && changed
                    && message@ == "Fly is now disabled"@
            },
            is_player && args@.len() > 0 && args@[0]@ == "speed"@ ==> if args@.len() != 2 {
                r is Refused
            } else {
                r matches FlyOutcome::SetSpeed { factor } && factor@ == args@[1]@
            },
            is_player && args@.len() > 0 && args@[0]@ != "enable"@ && args@[0]@ != "disable"@
                && args@[0]@ != "speed"@ ==> r is Refused,
    {
        proof {
            reveal_strlit("enable");
            reveal_strlit("disable");
            reveal_strlit("speed");
            assert("enable"@[0] != "disable"@[0] && "enable"@[0] != "speed"@[0]);
            assert("disable"@[0] != "speed"@[0]);
        }
        if !is_player || args.len() == 0 {
            return FlyOutcome::Refused;
        }
        let first = &args[0];
        if *first == String::from_str("enable") {
            if args.len() != 1 {
                FlyOutcome::Refused
            } else if current.can_fly {
                FlyOutcome::Done {
                    abilities: current,
                    changed: false,
                    message: String::from_str("Fly is already enabled"),
                }
            } else {
                FlyOutcome::Done {
                    abilities: PlayerAbilities { can_fly: true, ..current },
                    changed: true,
                    message: String::from_str("Fly is now enabled"),
                }
            }
        } else if *first == String::from_str("disable") {
            if args.len() != 1 {
                FlyOutcome::Refused
            } else if !current.can_fly {
                FlyOutcome::Done {
                    abilities: current,
                    changed: false,
                    message: String::from_str("Fly is already disabled"),
                }
            } else {
                FlyOutcome::Done {
                    abilities: PlayerAbilities { can_fly: false, is_flying: false, ..current },
                    changed: true,
                    message: String::from_str("Fly is now disabled"),
                }
            }
        } else if *first == String::from_str("speed") {
            if args.len() != 2 {
                FlyOutcome::Refused
            } else {
                FlyOutcome::SetSpeed { factor: args[1].clone() }
            }
        } else {
            FlyOutcome::Refused
        }
    }
}

/// The `gamemode` command, also `gm`: `gamemode survival|creative|adventure|spectator`.
pub struct GamemodeCommand;

/// The abilities that switching a player with `current` abilities to the
/// game mode named `mode` gives; `None` for a name that is no game mode.
pub open spec fn gamemode_abilities(mode: Seq<char>, current: PlayerAbilities) -> Option<
    PlayerAbilities,
> {
    if mode == "survival"@ {
        Some(PlayerAbilities { can_fly: false, is_flying: false, invulnerable: false, gamemode: 0 })
    } else if mode == "creative"@ {
        Some(PlayerAbilities { can_fly: true, invulnerable: true, gamemode: 1, ..current })
    } else if mode == "adventure"@ {
        Some(PlayerAbilities { can_fly: false, is_flying: false, invulnerable: false, gamemode: 2 })
    } else if mode == "spectator"@ {
        Some(PlayerAbilities { can_fly: true, invulnerable: true, gamemode: 3, ..current })
    } else {
        None
    }
}

/// Whatever the mode and the abilities before, the abilities a game mode
/// switch gives depend on the new mode as the game has it: creative (1) and
/// spectator (3) may fly and are invulnerable, survival (0) and adventure
/// (2) neither fly nor may fly and can be hurt; the mode's name gives its
/// number; and nothing else is a mode.
pub proof fn gamemode_grants_flight_and_invulnerability(mode: Seq<char>, current: PlayerAbilities)
    ensures
        gamemode_abilities(mode, current) matches Some(a) ==> {
            &&& a.gamemode <= 3
            &&& a.can_fly == (a.gamemode == 1 || a.gamemode == 3)
            &&& a.invulnerable == (a.gamemode == 1 || a.gamemode == 3)
            &&& (a.gamemode == 0 || a.gamemode == 2) ==> !a.is_flying
            &&& (a.gamemode == 1 || a.gamemode == 3) ==> a.is_flying == current.is_flying
        },
        mode == "survival"@ ==> (gamemode_abilities(mode, current) matches Some(a) && a.gamemode == 0),
        mode == "creative"@ ==> (gamemode_abilities(mode, current) matches Some(a) && a.gamemode == 1),
        mode == "adventure"@ ==> (gamemode_abilities(mode, current) matches Some(a) && a.gamemode == 2),
        mode == "spectator"@ ==> (gamemode_abilities(mode, current) matches Some(a) && a.gamemode == 3),
        mode != "survival"@ && mode != "creative"@ && mode != "adventure"@ && mode != "spectator"@
            ==> gamemode_abilities(mode, current) is None,
{
    reveal_strlit("survival");
    reveal_strlit("creative");
    reveal_strlit("adventure");
    reveal_strlit("spectator");
    assert("survival"@[0] != "creative"@[0] && "survival"@[0] != "adventure"@[0]);
    assert("survival"@[1] != "spectator"@[1]);
    assert("creative"@[0] != "adventure"@[0] && "creative"@[0] != "spectator"@[0]);
    assert("adventure"@[0] != "spectator"@[0]);
}

impl GamemodeCommand {
    /// The names the command answers to, the main one first.
    pub fn names(&self) -> (names: Vec<String>)
        ensures
            names@.len() == 2,
            names@[0]@ == "gamemode"@,
            names@[1]@ == "gm"@,
    {
        let mut names = Vec::new();
        names.push(String::from_str("gamemode"));
        names.push(String::from_str("gm"));
        names
    }

    /// Adds the command's nodes to `graph`, children first: the main node
    /// with one child per game mode, then one node per alias that redirects
    /// to it. Returns the ids of the main node and the alias; `None`, with
    /// the graph unchanged, where the graph has no room for them.
    pub fn graph(&self, graph: &mut CommandGraph) -> (top: Option<Vec<usize>>)
        ensures
            ({
                let b = old(graph).spec_nodes().len() as int;
                let g = final(graph).spec_nodes();
                if b + 6 <= i32::MAX {
                    &&& top matches Some(t) && t@ == seq![(b + 4) as usize, (b + 5) as usize]
                    &&& grew_by(old(graph).spec_nodes(), g, 6)
                    &&& literal_is(g[b], "survival"@, true, seq![], None)
                    &&& literal_is(g[b + 1], "creative"@, true, seq![], None)
                    &&& literal_is(g[b + 2], "adventure"@, true, seq![], None)
                    &&& literal_is(g[b + 3], "spectator"@, true, seq![], None)
                    &&& literal_is(
                        g[b + 4],
                        "gamemode"@,
                        false,
                        seq![b as usize, (b + 1) as usize, (b + 2) as usize, (b + 3) as usize],
                        None,
                    )
                    &&& literal_is(g[b + 5], "gm"@, false, seq![], Some((b + 4) as usize))
                } else {
                    top is None && g == old(graph).spec_nodes()
                }
            }),
    {
        let b = graph.nodes_len();
        if b > 0x7fff_fff9 {
            return None;
        }
        let g0 = Ghost(graph.spec_nodes());
        let survival = add_literal(graph, "survival", true, Vec::new(), None);
        let g1 = Ghost(graph.spec_nodes());
        let creative = add_literal(graph, "creative", true, Vec::new(), None);
        let g2 = Ghost(graph.spec_nodes());
        let adventure = add_literal(graph, "adventure", true, Vec::new(), None);
        let g3 = Ghost(graph.spec_nodes());
        let spectator = add_literal(graph, "spectator", true, Vec::new(), None);
        let g4 = Ghost(graph.spec_nodes());
        let mut children = Vec::new();
        children.push(survival);
        children.push(creative);
        children.push(adventure);
        children.push(spectator);
        assert(children@ =~= seq![b as usize, (b + 1) as usize, (b + 2) as usize, (b + 3) as usize]);
        let main = add_literal(graph, "gamemode", false, children, None);
        let g5 = Ghost(graph.spec_nodes());
        let alias = add_literal(graph, "gm", false, Vec::new(), Some(main));
        let mut top = Vec::new();
        top.push(main);
        top.push(alias);
        proof {
            let g = graph.spec_nodes();
            assert(g[b as int] == g1@[b as int]) by {
                assert(g[b as int] == g5@[b as int]);
                assert(g5@[b as int] == g4@[b as int]);
                assert(g4@[b as int] == g3@[b as int]);
                assert(g3@[b as int] == g2@[b as int]);
                assert(g2@[b as int] == g1@[b as int]);
            }
            assert(g[b as int + 1] == g2@[b as int + 1]) by {
                assert(g[b as int + 1] == g5@[b as int + 1]);
                assert(g5@[b as int + 1] == g4@[b as int + 1]);
                assert(g4@[b as int + 1] == g3@[b as int + 1]);
                assert(g3@[b as int + 1] == g2@[b as int + 1]);
            }
            assert(g[b as int + 2] == g3@[b as int + 2]) by {
                assert(g[b as int + 2] == g5@[b as int + 2]);
                assert(g5@[b as int + 2] == g4@[b as int + 2]);
                assert(g4@[b as int + 2] == g3@[b as int + 2]);
            }
            assert(g[b as int + 3] == g4@[b as int + 3]) by {
                assert(g[b as int + 3] == g5@[b as int + 3]);
                assert(g5@[b as int + 3] == g4@[b as int + 3]);
            }
            assert(g[b as int + 4] == g5@[b as int + 4]);
            assert(g.take(b as int) =~= g0@) by {
                assert(g.take(b as int) =~= g5@.take(b as int));
                assert(g5@.take(b as int) =~= g4@.take(b as int));
                assert(g4@.take(b as int) =~= g3@.take(b as int));
                assert(g3@.take(b as int) =~= g2@.take(b as int));
                assert(g2@.take(b as int) =~= g1@.take(b as int));
            }
            assert(top@ =~= seq![(b + 4) as usize, (b + 5) as usize]);
        }
        Some(top)
    }

    /// The abilities the executor gets from `gamemode` with `args`: `None`
    /// where the command fails (not exactly one argument, not a player, or
    /// no game mode of that name). The caller then sends the player its new
    /// game mode and abilities.
    pub fn on_command(&self, is_player: bool, args: &Vec<String>, current: PlayerAbilities) -> (r:
        Option<PlayerAbilities>)
        ensures
            r == (if args@.len() != 1 || !is_player {
                None
            } else {
                gamemode_abilities(args@[0]@, current)
            }),
    {
        if args.len() != 1 {
            return None;
        }
        if !is_player {
            return None;
        }
        let mode = &args[0];
        if *mode == String::from_str("survival") {
            Some(PlayerAbilities { can_fly: false, is_flying: false, invulnerable: false, gamemode: 0 })
        } else if *mode == String::from_str("creative") {
            Some(PlayerAbilities { can_fly: true, invulnerable: true, gamemode: 1, ..current })
        } else if *mode == String::from_str("adventure") {
            Some(PlayerAbilities { can_fly: false, is_flying: false, invulnerable: false, gamemode: 2 })
        } else if *mode == String::from_str("spectator") {
            Some(PlayerAbilities { can_fly: true, invulnerable: true, gamemode: 3, ..current })
        } else {
            None
        }
    }
}

} // verus!
