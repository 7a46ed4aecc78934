//! The `summon` chat command: `summon ghost [amount]` and
//! `summon living <type> [amount]`, the nodes it adds to the command graph,
//! and what an invocation asks for.
use crate::commands::{add_literal, grew_by, literal_is};
use crate::data_types::command_data::{ArgumentNode, CommandGraph, CommandNode};
use crate::data_types::identifier::identifier_text;
use crate::data_types::Identifier;
use crate::text::{digit_char, digits, signed_decimal};
use vstd::prelude::*;
use vstd::string::{StrSliceExecFns, StringExecFns};

verus! {

broadcast use vstd::string::group_string_axioms;

pub open spec fn is_digit(c: char) -> bool {
    '0' <= c <= '9'
}

/// The number that the decimal digits `s` write.
pub open spec fn digits_value(s: Seq<char>) -> int
    decreases s.len(),
{
    if s.len() == 0 {
        0
    } else {
        digits_value(s.drop_last()) * 10 + (s.last() as int - '0' as int)
    }
}

pub open spec fn all_digits(s: Seq<char>) -> bool {
    forall|i: int| 0 <= i < s.len() ==> is_digit(#[trigger] s[i])
}

/// A 32-bit integer in decimal, as the standard library reads one: an
/// optional `+` or `-`, then one or more digits and nothing else, with a
/// value that fits.
pub open spec fn parsed_i32(s: Seq<char>) -> Option<i32> {
    let signed = s.len() > 0 && (s[0] == '-' || s[0] == '+');
    let body = if signed {
        s.skip(1)
    } else {
        s
    };
    let v = if s.len() > 0 && s[0] == '-' {
        -digits_value(body)
    } else {
        digits_value(body)
    };
    if body.len() == 0 || !all_digits(body) || v < i32::MIN || v > i32::MAX {
        None
    } else {
        Some(v as i32)
    }
}

/// Decimal digits written for `m` are all digits, there is at least one,
/// and they read back as `m`.
proof fn decimal_digits_read_back(m: nat)
    ensures
        digits(m, 10).len() > 0,
        all_digits(digits(m, 10)),
        digits_value(digits(m, 10)) == m,
    decreases m,
{
    let d = (m % 10) as nat;
    assert(digit_char(d) as int == '0' as int + d) by {
        assert(d < 10);
    }
    if m < 10 {
        let s = digits(m, 10);
        assert(s =~= seq![digit_char(m)]);
        assert(s.drop_last() =~= Seq::<char>::empty());
        assert(digits_value(Seq::<char>::empty()) == 0);
        assert(digits_value(s) == m);
    } else {
        decimal_digits_read_back(m / 10);
        let s = digits(m, 10);
        let t = digits(m / 10, 10);
        assert(s =~= t.push(digit_char(d)));
        assert(s.drop_last() =~= t);
        assert(s.last() == digit_char(d));
        assert(digits_value(s) == digits_value(t) * 10 + d);
        assert(m == (m / 10) * 10 + d);
        assert forall|i: int| 0 <= i < s.len() implies is_digit(#[trigger] s[i]) by {
            if i < t.len() {
                assert(s[i] == t[i]);
            }
        }
    }
}

/// A 32-bit integer written in decimal, with its minus sign when it is
/// negative, reads back as the same integer.
pub proof fn decimal_text_reads_back(n: i32)
    ensures
        parsed_i32(signed_decimal(n as int)) == Some(n),
{
    if n < 0 {
        let m = (-n) as nat;
        decimal_digits_read_back(m);
        let s = signed_decimal(n as int);
        assert(s.skip(1) =~= digits(m, 10));
    } else {
        decimal_digits_read_back(n as nat);
        let s = digits(n as nat, 10);
        assert(is_digit(s[0]));
    }
}

/// Reads a 32-bit integer in decimal.
pub fn parse_i32(s: &str) -> (r: Option<i32>)
    ensures
        r == parsed_i32(s@),
{
    let n = s.unicode_len();
    let signed = n > 0 && (s.get_char(0) == '-' || s.get_char(0) == '+');
    let negative = n > 0 && s.get_char(0) == '-';
    let start: usize = if signed { 1 } else { 0 };
    let ghost body = if signed {
        s@.skip(1)
    } else {
        s@
    };
    if start == n {
        return None;
    }
    // The magnitude, held at `cap` once it reaches it.
    let cap: i64 = 0x8000_0001;
    let mut acc: i64 = 0;
    let mut i = start;
    while i < n
        invariant
            n == s@.len(),
            start <= i <= n,
            body == s@.skip(start as int),
            signed == (s@.len() > 0 && (s@[0] == '-' || s@[0] == '+')),
            negative == (s@.len() > 0 && s@[0] == '-'),
            start == if signed { 1usize } else { 0usize },
            cap == 0x8000_0001,
            0 <= acc <= cap,
            all_digits(body.take(i - start)),
            acc == if digits_value(body.take(i - start)) < cap {
                digits_value(body.take(i - start))
            } else {
                cap as int
            },
        decreases n - i,
    {
        let c = s.get_char(i);
        let ghost prefix = body.take(i - start);
        proof {
            assert(body.take(i - start + 1).drop_last() =~= prefix);
            assert(body.take(i - start + 1).last() == c);
        }
        if c < '0' || c > '9' {
            proof {
                assert(!is_digit(body[i - start]));
            }
            return None;
        }
        let d = (c as u32 - '0' as u32) as i64;
        proof {
            assert(d == c as int - '0' as int);
            assert forall|j: int| 0 <= j < i - start + 1 implies is_digit(
                #[trigger] body.take(i - start + 1)[j],
            ) by {
                if j < i - start {
                    assert(body.take(i - start + 1)[j] == prefix[j]);
                }
            }
            assert(digits_value(prefix) >= 0) by {
                lemma_digits_value_nonneg(prefix);
            }
        }
        acc = if acc * 10 + d >= cap {
            cap
        } else {
            acc * 10 + d
        };
        i = i + 1;
    }
    proof {
        assert(body.take(n - start) =~= body);
    }
    let v: i64 = if negative { -acc } else { acc };
    if v < -0x8000_0000 || v > 0x7fff_ffff {
        None
    } else {
        Some(v as i32)
    }
}

proof fn lemma_digits_value_nonneg(s: Seq<char>)
    requires
        all_digits(s),
    ensures
        digits_value(s) >= 0,
    decreases s.len(),
{
    if s.len() > 0 {
        assert(all_digits(s.drop_last())) by {
            assert forall|i: int| 0 <= i < s.drop_last().len() implies is_digit(#[trigger] s.drop_last()[i]) by {
                assert(s.drop_last()[i] == s[i]);
            }
        }
        lemma_digits_value_nonneg(s.drop_last());
        assert(is_digit(s[s.len() - 1]));
    }
}

/// The `summon` command.
pub struct SummonCommand;

/// What `summon` asks for.
#[derive(Debug)]
pub enum SummonOutcome {
    /// The command does not apply: the caller answers that it failed.
    Refused,
    /// Spawn `amount` ghosts just above the player (none where `amount` is
    /// not positive).
    Ghosts { amount: i32 },
    /// Look `entity_type` up in the entity type registry. Where it is not
    /// there, the player reads "Invalid entity type" and the command
    /// succeeded; where it is, spawn `amount` living entities of that type
    /// at the player, or, where `amount` is `None` (it did not read as a
    /// number), the command failed.
    Living { entity_type: String, amount: Option<i32> },
}

/// What `summon` does with `args`; for anyone but a player it is refused.
pub fn summon_decision(is_player: bool, args: &Vec<String>) -> (d: SummonOutcome)
    ensures
        !is_player || args@.len() == 0 ==> d is Refused,
        is_player && args@.len() > 0 && args@[0]@ == "ghost"@ ==> if args@.len() == 2 {
            match parsed_i32(args@[1]@) {
                Some(n) => d matches SummonOutcome::Ghosts { amount } && amount == n,
                None => d is Refused,
            }
        } else {
            d matches SummonOutcome::Ghosts { amount } && amount == 1
        },
        is_player && args@.len() > 0 && args@[0]@ == "living"@ ==> if args@.len() != 2 && args@.len()
            != 3 {
            d is Refused
        } else {
            d matches SummonOutcome::Living { entity_type, amount } && entity_type@ == identifier_text(
                args@[1]@,
            ) && amount == if args@.len() == 3 {
                parsed_i32(args@[2]@)
            } else {
                Some(1i32)
            }
        },
        is_player && args@.len() > 0 && args@[0]@ != "ghost"@ && args@[0]@ != "living"@ ==> d is Refused,
{
    proof {
        reveal_strlit("ghost");
        reveal_strlit("living");
        assert("ghost"@[0] != "living"@[0]);
    }
    if !is_player || args.len() == 0 {
        return SummonOutcome::Refused;
    }
    let first = &args[0];
    if *first == String::from_str("ghost") {
        if args.len() == 2 {
            match parse_i32(args[1].as_str()) {
                Some(amount) => SummonOutcome::Ghosts { amount },
                None => SummonOutcome::Refused,
            }
        } else {
            SummonOutcome::Ghosts { amount: 1 }
        }
    } else if *first == String::from_str("living") {
        if args.len() != 2 && args.len() != 3 {
            SummonOutcome::Refused
        } else {
            let entity_type = Identifier::from(args[1].as_str()).to_string();
            let amount = if args.len() == 3 {
                parse_i32(args[2].as_str())
            } else {
                Some(1i32)
            };
            SummonOutcome::Living { entity_type, amount }
        }
    } else {
        SummonOutcome::Refused
    }
}

/// `n` is an argument node with these fields and no suggestions.
pub open spec fn argument_is(
    n: CommandNode,
    name: Seq<char>,
    executable: bool,
    children: Seq<usize>,
    parser: Seq<char>,
    properties: Seq<u8>,
) -> bool {
    &&& n matches CommandNode::Argument(a)
    &&& a.name@ == name
    &&& a.is_executable == executable
    &&& a.children_nodes@ == children
    &&& a.redirect_node is None
    &&& a.parser@ == parser
    &&& a.properties@ == properties
    &&& a.suggestions_type is None
}

/// Adds an argument node that refers only to nodes below the graph's length.
fn add_argument(
    graph: &mut CommandGraph,
    name: &str,
    executable: bool,
    children: Vec<usize>,
    parser: Identifier,
    properties: Vec<u8>,
) -> (id: usize)
    requires
        old(graph).spec_nodes().len() < i32::MAX,
        forall|j: int| 0 <= j < children@.len() ==> children@[j] < old(graph).spec_nodes().len(),
    ensures
        id == old(graph).spec_nodes().len(),
        final(graph).spec_nodes().len() == old(graph).spec_nodes().len() + 1,
        final(graph).spec_nodes().take(old(graph).spec_nodes().len() as int) == old(
            graph,
        ).spec_nodes(),
        argument_is(
            final(graph).spec_nodes()[id as int],
            name@,
            executable,
            children@,
            parser@,
            properties@,
        ),
{
    let node = CommandNode::Argument(
        ArgumentNode {
            is_executable: executable,
            children_nodes: children,
            redirect_node: None,
            name: String::from_str(name),
            parser,
            properties,
            suggestions_type: None,
        },
    );
    match graph.add(node) {
        Some(id) => {
            assert(final(graph).spec_nodes().take(old(graph).spec_nodes().len() as int)
                =~= old(graph).spec_nodes());
            id
        },
        None => {
            assert(false);
            0
        },
    }
}

impl SummonCommand {
    /// The names the command answers to.
    pub fn names(&self) -> (names: Vec<String>)
        ensures
            names@.len() == 1,
            names@[0]@ == "summon"@,
    {
        let mut names = Vec::new();
        names.push(String::from_str("summon"));
        names
    }

    /// Adds the command's nodes to `graph`, children first, and returns the
    /// ids of the nodes the root is to list; `None`, with the graph
    /// unchanged, where the graph has no room for them. The amount argument
    /// is one node, shared by both forms.
    pub fn graph(&self, graph: &mut CommandGraph) -> (top: Option<Vec<usize>>)
        ensures
            ({
                let b = old(graph).spec_nodes().len() as int;
                let g = final(graph).spec_nodes();
                if b + 5 <= i32::MAX {
                    &&& top matches Some(t) && t@ == seq![(b + 4) as usize]
                    &&& grew_by(old(graph).spec_nodes(), g, 5)
                    &&& argument_is(
                        g[b],
                        "amount"@,
                        true,
                        seq![],
                        "brigadier:integer"@,
                        seq![1u8, 0, 0, 0, 1],
                    )
                    &&& argument_is(
                        g[b + 1],
                        "type"@,
                        true,
                        seq![b as usize],
                        "minecraft:resource_location"@,
                        seq![],
                    )
                    &&& literal_is(g[b + 2], "living"@, false, seq![(b + 1) as usize], None)
                    &&& literal_is(g[b + 3], "ghost"@, true, seq![b as usize], None)
                    &&& literal_is(
                        g[b + 4],
                        "summon"@,
                        false,
                        seq![(b + 2) as usize, (b + 3) as usize],
                        None,
                    )
                } else {
                    top is None && g == old(graph).spec_nodes()
                }
            }),
    {
        let b = graph.nodes_len();
        if b > 0x7fff_fffa {
            return None;
        }
        proof {
            reveal_strlit("brigadier:integer");
            reveal_strlit("minecraft:resource_location");
            assert(crate::data_types::identifier::has_char("brigadier:integer"@, ':')) by {
                assert("brigadier:integer"@[9] == ':');
            }
            assert(crate::data_types::identifier::has_char("minecraft:resource_location"@, ':')) by {
                assert("minecraft:resource_location"@[9] == ':');
            }
        }
        let g0 = Ghost(graph.spec_nodes());
        let mut properties = Vec::new();
        properties.push(1u8);
        properties.push(0u8);
        properties.push(0u8);
        properties.push(0u8);
        properties.push(1u8);
        assert(properties@ =~= seq![1u8, 0, 0, 0, 1]);
        let amount = add_argument(
            graph,
            "amount",
            true,
            Vec::new(),
            Identifier::from("brigadier:integer"),
            properties,
        );
        let g1 = Ghost(graph.spec_nodes());
        let mut type_children = Vec::new();
        type_children.push(amount);
        assert(type_children@ =~= seq![b as usize]);
        let type_arg = add_argument(
            graph,
            "type",
            true,
            type_children,
            Identifier::from("minecraft:resource_location"),
            Vec::new(),
        );
        let g2 = Ghost(graph.spec_nodes());
        let mut living_children = Vec::new();
        living_children.push(type_arg);
        assert(living_children@ =~= seq![(b + 1) as usize]);
        let living = add_literal(graph, "living", false, living_children, None);
        let g3 = Ghost(graph.spec_nodes());
        let mut ghost_children = Vec::new();
        ghost_children.push(amount);
        assert(ghost_children@ =~= seq![b as usize]);
        let ghost_node = add_literal(graph, "ghost", true, ghost_children, None);
        let g4 = Ghost(graph.spec_nodes());
        let mut summon_children = Vec::new();
        summon_children.push(living);
        summon_children.push(ghost_node);
        assert(summon_children@ =~= seq![(b + 2) as usize, (b + 3) as usize]);
        let summon = add_literal(graph, "summon", false, summon_children, None);
        let mut top = Vec::new();
        top.push(summon);
        proof {
            let g = graph.spec_nodes();
            assert(g[b as int] == g1@[b as int]) by {
                assert(g[b as int] == g4@[b as int]);
                assert(g4@[b as int] == g3@[b as int]);
                assert(g3@[b as int] == g2@[b as int]);
                assert(g2@[b as int] == g1@[b as int]);
            }
            assert(g[b as int + 1] == g2@[b as int + 1]) by {
                assert(g[b as int + 1] == g4@[b as int + 1]);
                assert(g4@[b as int + 1] == g3@[b as int + 1]);
                assert(g3@[b as int + 1] == g2@[b as int + 1]);
            }
            assert(g[b as int + 2] == g3@[b as int + 2]) by {
                assert(g[b as int + 2] == g4@[b as int + 2]);
                assert(g4@[b as int + 2] == g3@[b as int + 2]);
            }
            assert(g[b as int + 3] == g4@[b as int + 3]);
            assert(g.take(b as int) =~= g0@) by {
                assert(g.take(b as int) =~= g4@.take(b as int));
                assert(g4@.take(b as int) =~= g3@.take(b as int));
                assert(g3@.take(b as int) =~= g2@.take(b as int));
                assert(g2@.take(b as int) =~= g1@.take(b as int));
            }
            assert(top@ =~= seq![(b + 4) as usize]);
        }
        Some(top)
    }
}

} // verus!
