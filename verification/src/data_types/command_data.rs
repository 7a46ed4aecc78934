//! The command graph that the server sends to the client, and its encoding.
use super::encoder::fixed::{be_bytes, lemma_be_bytes_one};
use super::encoder::{string, varint, PacketEncoder};
use super::Identifier;
use vstd::prelude::*;
use vstd::string::StringExecFns;

verus! {

broadcast use vstd::string::group_string_axioms;

/// The graph's root.
#[derive(Clone, Debug)]
pub struct RootNode {
    pub is_executable: bool,
    /// The ids of the children in the graph.
    pub children_nodes: Vec<usize>,
    /// The id of the node this one redirects to, if any.
    pub redirect_node: Option<usize>,
}

/// A literal word of a command.
#[derive(Clone, Debug)]
pub struct LiteralNode {
    pub is_executable: bool,
    pub children_nodes: Vec<usize>,
    pub redirect_node: Option<usize>,
    pub name: String,
}

/// An argument of a command, read by a parser.
#[derive(Clone, Debug)]
pub struct ArgumentNode {
    pub is_executable: bool,
    pub children_nodes: Vec<usize>,
    pub redirect_node: Option<usize>,
    pub name: String,
    /// The parser's identifier.
    pub parser: Identifier,
    /// The parser's properties, already encoded.
    pub properties: Vec<u8>,
    pub suggestions_type: Option<String>,
}

/// A node of the graph.
#[derive(Clone, Debug)]
pub enum CommandNode {
    Root(RootNode),
    Literal(LiteralNode),
    Argument(ArgumentNode),
}

/// What every node offers.
pub trait Node {
    fn name(&self) -> String;
}

impl Node for RootNode {
    fn name(&self) -> (n: String)
        ensures
            n@ == "root"@,
    {
        String::from_str("root")
    }
}

impl Node for LiteralNode {
    fn name(&self) -> (n: String)
        ensures
            n@ == self.name@,
    {
        self.name.clone()
    }
}

impl Node for ArgumentNode {
    fn name(&self) -> (n: String)
        ensures
            n@ == self.name@,
    {
        self.name.clone()
    }
}

pub open spec fn node_children(n: CommandNode) -> Seq<usize> {
    match n {
        CommandNode::Root(r) => r.children_nodes@,
        CommandNode::Literal(l) => l.children_nodes@,
        CommandNode::Argument(a) => a.children_nodes@,
    }
}

pub open spec fn node_redirect(n: CommandNode) -> Option<usize> {
    match n {
        CommandNode::Root(r) => r.redirect_node,
        CommandNode::Literal(l) => l.redirect_node,
        CommandNode::Argument(a) => a.redirect_node,
    }
}

/// Every node refers only to nodes added before it.
pub open spec fn refers_below(n: CommandNode, id: int) -> bool {
    &&& forall|j: int| 0 <= j < node_children(n).len() ==> node_children(n)[j] < id
    &&& node_redirect(n) matches Some(r) ==> r < id
}

/// Nodes that refer to one another by their ids, each only to nodes added
/// before it.
pub struct CommandGraph {
    nodes: Vec<CommandNode>,
}

impl CommandGraph {
    #[verifier::type_invariant]
    spec fn inv(self) -> bool {
        &&& self.nodes@.len() <= i32::MAX
        &&& forall|i: int| 0 <= i < self.nodes@.len() ==> refers_below(#[trigger] self.nodes@[i], i)
    }

    /// The nodes, by id.
    pub closed spec fn spec_nodes(&self) -> Seq<CommandNode> {
        self.nodes@
    }

    pub fn new() -> (g: Self)
        ensures
            g.spec_nodes() == Seq::<CommandNode>::empty(),
    {
        CommandGraph { nodes: Vec::new() }
    }

    pub fn nodes_len(&self) -> (n: usize)
        ensures
            n == self.spec_nodes().len(),
    {
        self.nodes.len()
    }

    /// Adds `node` and returns its id; `None`, with the graph unchanged, where
    /// it refers to a node that is not there yet or the graph is full.
    pub fn add(&mut self, node: CommandNode) -> (id: Option<usize>)
        ensures
            refers_below(node, old(self).spec_nodes().len() as int) && old(self).spec_nodes().len()
                < i32::MAX ==> id == Some(old(self).spec_nodes().len() as usize) && final(self).spec_nodes()
                == old(self).spec_nodes().push(node),
            !(refers_below(node, old(self).spec_nodes().len() as int) && old(self).spec_nodes().len()
                < i32::MAX) ==> id is None && final(self).spec_nodes() == old(self).spec_nodes(),
    {
        proof {
            use_type_invariant(&*self);
        }
        let n = self.nodes.len();
        if n >= 0x7fff_ffff {
            return None;
        }
        let (children, redirect) = match &node {
            CommandNode::Root(r) => (&r.children_nodes, r.redirect_node),
            CommandNode::Literal(l) => (&l.children_nodes, l.redirect_node),
            CommandNode::Argument(a) => (&a.children_nodes, a.redirect_node),
        };
        let mut i: usize = 0;
        while i < children.len()
            invariant
                children@ == node_children(node),
                n == old(self).spec_nodes().len(),
                self.spec_nodes() == old(self).spec_nodes(),
                i <= children.len(),
                forall|j: int| 0 <= j < i ==> children@[j] < n,
            decreases children.len() - i,
        {
            if children[i] >= n {
                assert(node_children(node)[i as int] >= n);
                return None;
            }
            i = i + 1;
        }
        if let Some(r) = redirect {
            if r >= n {
                assert(node_redirect(node) == Some(r));
                return None;
            }
        }
        let mut nodes = Vec::new();
        std::mem::swap(&mut nodes, &mut self.nodes);
        let ghost prev = nodes@;
        nodes.push(node);
        proof {
            assert forall|k: int| 0 <= k < nodes@.len() implies refers_below(
                #[trigger] nodes@[k],
                k,
            ) by {
                if k < n {
                    assert(nodes@[k] == prev[k]);
                }
            }
        }
        self.nodes = nodes;
        proof {
            assert forall|k: int| 0 <= k < self.nodes@.len() implies refers_below(
                #[trigger] self.nodes@[k],
                k,
            ) by {
                if k < n {
                    assert(self.nodes@[k] == old(self).nodes@[k]);
                }
            }
        }
        Some(n)
    }
}

// ------------------------------------------------------------------ encoding

/// The flags byte of a node.
fn flags_byte(kind: u8, executable: bool, redirect: bool, suggestions: bool) -> (b: u8)
    requires
        kind <= 2,
    ensures
        b == kind + (if executable { 4u8 } else { 0 }) + (if redirect { 8u8 } else { 0 }) + (if suggestions {
            16u8
        } else {
            0
        }),
{
    let e: u8 = if executable { 1 } else { 0 };
    let r: u8 = if redirect { 1 } else { 0 };
    let s: u8 = if suggestions { 1 } else { 0 };
    let fe: u8 = 0x04 * e;
    let fr: u8 = 0x08 * r;
    let fs: u8 = 0x10 * s;
    let b = kind | fe | fr | fs;
    assert(b == kind + fe + fr + fs) by (bit_vector)
        requires
            b == kind | fe | fr | fs,
            kind <= 2,
            fe == 0 || fe == 4,
            fr == 0 || fr == 8,
            fs == 0 || fs == 16,
    ;
    b
}

pub open spec fn distinct(s: Seq<usize>) -> bool {
    forall|i: int, j: int| 0 <= i < s.len() && 0 <= j < s.len() && i != j ==> s[i] != s[j]
}

/// The position of `id` in `s`, where it occurs.
pub open spec fn index_of(s: Seq<usize>, id: usize) -> int {
    choose|i: int| 0 <= i < s.len() && s[i] == id
}

proof fn lemma_index_of(s: Seq<usize>, i: int)
    requires
        distinct(s),
        0 <= i < s.len(),
    ensures
        index_of(s, s[i]) == i,
{
    let k = index_of(s, s[i]);
    assert(0 <= k < s.len() && s[k] == s[i]);
}

proof fn lemma_index_of_extends(a: Seq<usize>, b: Seq<usize>, id: usize)
    requires
        distinct(b),
        a.len() <= b.len(),
        b.take(a.len() as int) == a,
        a.contains(id),
    ensures
        index_of(b, id) == index_of(a, id),
        0 <= index_of(a, id) < a.len(),
{
    let i = choose|i: int| 0 <= i < a.len() && a[i] == id;
    assert(b.take(a.len() as int)[i] == b[i]);
    lemma_index_of(b, i);
    let k = index_of(a, id);
    assert(0 <= k < a.len() && a[k] == id);
    assert(b.take(a.len() as int)[k] == b[k]);
}

/// The flags byte: the node's kind in the low bits, 0x04 when executable,
/// 0x08 with a redirect, 0x10 with a suggestions type.
pub open spec fn node_flags(n: CommandNode) -> nat {
    match n {
        CommandNode::Root(r) => 0 + (if r.is_executable { 4nat } else { 0 }) + (if r.redirect_node is Some {
            8nat
        } else {
            0
        }),
        CommandNode::Literal(l) => 1 + (if l.is_executable { 4nat } else { 0 }) + (if l.redirect_node is Some {
            8nat
        } else {
            0
        }),
        CommandNode::Argument(a) => 2 + (if a.is_executable { 4nat } else { 0 }) + (if a.redirect_node
            is Some {
            8nat
        } else {
            0
        }) + (if a.suggestions_type is Some {
            16nat
        } else {
            0
        }),
    }
}

/// The positions of `ids` in `order`, as VarInts.
pub open spec fn index_varints(ids: Seq<usize>, order: Seq<usize>) -> Seq<u8>
    decreases ids.len(),
{
    if ids.len() == 0 {
        Seq::empty()
    } else {
        index_varints(ids.drop_last(), order) + varint::spec_encode(index_of(order, ids.last()) as i32)
    }
}

/// What follows the references: the name, and for an argument the parser,
/// its properties and the suggestions type.
pub open spec fn node_tail(n: CommandNode) -> Seq<u8> {
    match n {
        CommandNode::Root(_) => Seq::empty(),
        CommandNode::Literal(l) => string::spec_encode(l.name@),
        CommandNode::Argument(a) => string::spec_encode(a.name@) + string::spec_encode(a.parser@)
            + a.properties@ + match a.suggestions_type {
            Some(t) => string::spec_encode(t@),
            None => Seq::empty(),
        },
    }
}

/// The flag byte of a command node says what the node is: its low two bits
/// are the node's type (0 for the root, 1 for a literal, 2 for an
/// argument), and the bits of 4, 8 and 16 are set exactly when it is
/// executable, when it redirects, and when it is an argument with
/// suggestions.
pub proof fn node_flags_describe_the_node(n: CommandNode)
    ensures
        node_flags(n) < 32,
        node_flags(n) % 4 == match n {
            CommandNode::Root(_) => 0nat,
            CommandNode::Literal(_) => 1nat,
            CommandNode::Argument(_) => 2nat,
        },
        (node_flags(n) / 4) % 2 == 1 <==> match n {
            CommandNode::Root(r) => r.is_executable,
            CommandNode::Literal(l) => l.is_executable,
            CommandNode::Argument(a) => a.is_executable,
        },
        (node_flags(n) / 8) % 2 == 1 <==> match n {
            CommandNode::Root(r) => r.redirect_node is Some,
            CommandNode::Literal(l) => l.redirect_node is Some,
            CommandNode::Argument(a) => a.redirect_node is Some,
        },
        (node_flags(n) / 16) % 2 == 1 <==> (n matches CommandNode::Argument(a) && a.suggestions_type is Some),
{
}

/// A node's encoding, with every node it refers to named by its position in
/// `order`: the flags, the children with their count, the redirect, then the
/// tail.
pub open spec fn node_bytes(n: CommandNode, order: Seq<usize>) -> Seq<u8> {
    be_bytes(node_flags(n), 1) + varint::spec_encode(node_children(n).len() as i32) + index_varints(
        node_children(n),
        order,
    ) + match node_redirect(n) {
        Some(r) => varint::spec_encode(index_of(order, r) as i32),
        None => Seq::empty(),
    } + node_tail(n)
}

/// Every node `n` refers to is in `order`.
pub open spec fn refs_in(n: CommandNode, order: Seq<usize>) -> bool {
    &&& forall|j: int| 0 <= j < node_children(n).len() ==> order.contains(#[trigger] node_children(n)[j])
    &&& node_redirect(n) matches Some(r) ==> order.contains(r)
}

proof fn lemma_index_varints_extends(ids: Seq<usize>, a: Seq<usize>, b: Seq<usize>)
    requires
        distinct(b),
        a.len() <= b.len(),
        b.take(a.len() as int) == a,
        forall|j: int| 0 <= j < ids.len() ==> a.contains(#[trigger] ids[j]),
    ensures
        index_varints(ids, b) == index_varints(ids, a),
    decreases ids.len(),
{
    if ids.len() > 0 {
        assert forall|j: int| 0 <= j < ids.drop_last().len() implies a.contains(
            #[trigger] ids.drop_last()[j],
        ) by {
            assert(ids.drop_last()[j] == ids[j]);
        }
        lemma_index_varints_extends(ids.drop_last(), a, b);
        assert(a.contains(ids[ids.len() - 1]));
        lemma_index_of_extends(a, b, ids.last());
    }
}

proof fn lemma_node_bytes_extends(n: CommandNode, a: Seq<usize>, b: Seq<usize>)
    requires
        distinct(b),
        a.len() <= b.len(),
        b.take(a.len() as int) == a,
        refs_in(n, a),
    ensures
        node_bytes(n, b) == node_bytes(n, a),
{
    lemma_index_varints_extends(node_children(n), a, b);
    if let Some(r) = node_redirect(n) {
        lemma_index_of_extends(a, b, r);
    }
}

/// Turns a command graph into the list of encoded nodes, numbering each node
/// the first time it is reached.
pub struct GraphEncoder {
    nodes: Vec<usize>,
    encoded: Vec<Vec<u8>>,
}

impl GraphEncoder {
    /// The ids of the nodes reached so far, in the order they were numbered.
    pub closed spec fn spec_order(&self) -> Seq<usize> {
        self.nodes@
    }

    /// The encodings so far, one per numbered node; empty while a node's
    /// references are still being numbered.
    pub closed spec fn spec_encoded(&self) -> Seq<Seq<u8>> {
        self.encoded@.map_values(|e: Vec<u8>| e@)
    }

    /// The encoder fits `g`: distinct ids of `g`, one encoding each.
    pub open spec fn fits(&self, g: &CommandGraph) -> bool {
        &&& distinct(self.spec_order())
        &&& forall|i: int| 0 <= i < self.spec_order().len() ==> #[trigger] self.spec_order()[i]
            < g.spec_nodes().len()
        &&& self.spec_encoded().len() == self.spec_order().len()
    }

    /// Entry `i` holds the encoding of its node.
    pub open spec fn complete(&self, g: &CommandGraph, i: int) -> bool {
        let n = g.spec_nodes()[self.spec_order()[i] as int];
        &&& refs_in(n, self.spec_order())
        &&& self.spec_encoded()[i] == node_bytes(n, self.spec_order())
    }

    /// `self` went on from `prev`: the same entries first, then new ones, all
    /// complete.
    pub open spec fn extends(&self, prev: &GraphEncoder, g: &CommandGraph) -> bool {
        &&& prev.spec_order().len() <= self.spec_order().len()
        &&& self.spec_order().take(prev.spec_order().len() as int) == prev.spec_order()
        &&& self.spec_encoded().take(prev.spec_order().len() as int) == prev.spec_encoded()
        &&& forall|i: int|
            prev.spec_order().len() <= i < self.spec_order().len() ==> #[trigger] self.complete(g, i)
    }

    pub fn new() -> (e: Self)
        ensures
            e.spec_order() == Seq::<usize>::empty(),
            e.spec_encoded() == Seq::<Seq<u8>>::empty(),
    {
        let e = GraphEncoder { nodes: Vec::new(), encoded: Vec::new() };
        assert(e.spec_encoded() =~= Seq::<Seq<u8>>::empty());
        e
    }

    /// The number of `node`, or -1 where it has none yet.
    pub fn get_node_index(&self, node: usize) -> (r: i32)
        requires
            self.spec_order().len() <= i32::MAX,
            distinct(self.spec_order()),
        ensures
            self.spec_order().contains(node) ==> r == index_of(self.spec_order(), node),
            !self.spec_order().contains(node) ==> r == -1,
    {
        let mut i: usize = 0;
        while i < self.nodes.len()
            invariant
                self.nodes@.len() <= i32::MAX,
                distinct(self.nodes@),
                i <= self.nodes.len(),
                forall|j: int| 0 <= j < i ==> self.nodes@[j] != node,
            decreases self.nodes.len() - i,
        {
            if self.nodes[i] == node {
                proof {
                    lemma_index_of(self.nodes@, i as int);
                }
                return i as i32;
            }
            i = i + 1;
        }
        proof {
            if self.nodes@.contains(node) {
                let j = choose|j: int| 0 <= j < self.nodes@.len() && self.nodes@[j] == node;
                assert(self.nodes@[j] != node);
            }
        }
        -1
    }

    /// The number of `node`: the one it has, or the next one, in which case
    /// the node is encoded, numbering the nodes it refers to first.
    pub fn add_node(&mut self, graph: &CommandGraph, node: usize) -> (index: i32)
        requires
            old(self).fits(graph),
            node < graph.spec_nodes().len(),
        ensures
            final(self).fits(graph),
            final(self).extends(old(self), graph),
            final(self).spec_order().contains(node),
            index == index_of(final(self).spec_order(), node),
            !old(self).spec_order().contains(node) ==> index == old(self).spec_order().len(),
            old(self).spec_order().contains(node) ==> *final(self) == *old(self),
        decreases 3 * (graph.spec_nodes().len() - old(self).spec_order().len()),
    {
        proof {
            use_type_invariant(graph);
            lemma_distinct_bound(old(self).spec_order(), graph.spec_nodes().len());
        }
        let found = self.get_node_index(node);
        if found >= 0 {
            proof {
                assert(self.spec_encoded().take(self.spec_order().len() as int) =~= self.spec_encoded());
                assert(self.spec_order().take(self.spec_order().len() as int) =~= self.spec_order());
            }
            return found;
        }
        assert(!self.spec_order().contains(node));
        let ghost start = *self;
        let index = self.nodes.len();
        self.nodes.push(node);
        self.encoded.push(Vec::new());
        proof {
            assert(self.spec_encoded() =~= start.spec_encoded().push(Seq::<u8>::empty()));
            assert(self.spec_order() =~= start.spec_order().push(node));
            assert forall|i: int, j: int|
                0 <= i < self.spec_order().len() && 0 <= j < self.spec_order().len() && i != j implies
                self.spec_order()[i] != self.spec_order()[j] by {
                if i < index && j < index {
                } else if i == index {
                    assert(start.spec_order()[j] == self.spec_order()[j]);
                } else {
                    assert(start.spec_order()[i] == self.spec_order()[i]);
                }
            }
            lemma_distinct_bound(self.spec_order(), graph.spec_nodes().len());
            assert(refers_below(graph.spec_nodes()[node as int], node as int));
        }
        let ghost pushed = *self;
        let bytes = match &graph.nodes[node] {
            CommandNode::Root(r) => r.encode(graph, self),
            CommandNode::Literal(l) => l.encode(graph, self),
            CommandNode::Argument(a) => a.encode(graph, self),
        };
        let ghost before_set = *self;
        self.encoded.set(index, bytes);
        proof {
            assert(self.spec_order() == before_set.spec_order());
            assert(self.spec_encoded() =~= before_set.spec_encoded().update(index as int, bytes@));
            assert(before_set.spec_order().take(pushed.spec_order().len() as int)[index as int]
                == pushed.spec_order()[index as int]);
            assert(self.spec_order()[index as int] == node);
            lemma_index_of(self.spec_order(), index as int);
            assert forall|j: int| 0 <= j < start.spec_order().len() implies self.spec_order()[j]
                == start.spec_order()[j] by {
                assert(before_set.spec_order().take(pushed.spec_order().len() as int)[j] == pushed.spec_order()[j]);
            }
            assert(self.spec_order().take(start.spec_order().len() as int) =~= start.spec_order());
            assert forall|j: int| 0 <= j < start.spec_order().len() implies self.spec_encoded()[j]
                == start.spec_encoded()[j] by {
                assert(before_set.spec_encoded().take(pushed.spec_order().len() as int)[j] == pushed.spec_encoded()[j]);
            }
            assert(self.spec_encoded().take(start.spec_order().len() as int) =~= start.spec_encoded());
            assert forall|i: int| start.spec_order().len() <= i < self.spec_order().len() implies #[trigger] self.complete(
                graph,
                i,
            ) by {
                if i != index {
                    assert(before_set.complete(graph, i));
                }
            }
        }
        index as i32
    }

    /// The encodings, one per node, in the order the nodes were numbered.
    pub fn encode(self) -> (r: Vec<Vec<u8>>)
        ensures
            r@.map_values(|e: Vec<u8>| e@) == self.spec_encoded(),
    {
        self.encoded
    }
}

/// Entry `i` stays complete as the encoder goes on.
proof fn lemma_complete_stable(b: GraphEncoder, c: GraphEncoder, g: &CommandGraph, i: int)
    requires
        b.fits(g),
        c.fits(g),
        b.spec_order().len() <= c.spec_order().len(),
        c.spec_order().take(b.spec_order().len() as int) == b.spec_order(),
        c.spec_encoded().take(b.spec_order().len() as int) == b.spec_encoded(),
        0 <= i < b.spec_order().len(),
        b.complete(g, i),
    ensures
        c.complete(g, i),
{
    let n = g.spec_nodes()[b.spec_order()[i] as int];
    assert(c.spec_order()[i] == c.spec_order().take(b.spec_order().len() as int)[i]);
    assert(c.spec_encoded()[i] == c.spec_encoded().take(b.spec_order().len() as int)[i]);
    lemma_node_bytes_extends(n, b.spec_order(), c.spec_order());
    assert forall|j: int| 0 <= j < node_children(n).len() implies c.spec_order().contains(
        #[trigger] node_children(n)[j],
    ) by {
        let k = choose|k: int| 0 <= k < b.spec_order().len() && b.spec_order()[k] == node_children(n)[j];
        assert(c.spec_order()[k] == c.spec_order().take(b.spec_order().len() as int)[k]);
    }
    if let Some(r) = node_redirect(n) {
        let k = choose|k: int| 0 <= k < b.spec_order().len() && b.spec_order()[k] == r;
        assert(c.spec_order()[k] == c.spec_order().take(b.spec_order().len() as int)[k]);
    }
}

/// Going on is transitive.
proof fn lemma_extends_trans(a: GraphEncoder, b: GraphEncoder, c: GraphEncoder, g: &CommandGraph)
    requires
        a.fits(g),
        b.fits(g),
        c.fits(g),
        b.extends(&a, g),
        c.extends(&b, g),
    ensures
        c.extends(&a, g),
{
    assert(c.spec_order().take(a.spec_order().len() as int) =~= a.spec_order()) by {
        assert forall|j: int| 0 <= j < a.spec_order().len() implies c.spec_order()[j] == a.spec_order()[j] by {
            assert(c.spec_order().take(b.spec_order().len() as int)[j] == b.spec_order()[j]);
            assert(b.spec_order().take(a.spec_order().len() as int)[j] == a.spec_order()[j]);
        }
    }
    assert(c.spec_encoded().take(a.spec_order().len() as int) =~= a.spec_encoded()) by {
        assert forall|j: int| 0 <= j < a.spec_order().len() implies c.spec_encoded()[j] == a.spec_encoded()[j] by {
            assert(c.spec_encoded().take(b.spec_order().len() as int)[j] == b.spec_encoded()[j]);
            assert(b.spec_encoded().take(a.spec_order().len() as int)[j] == a.spec_encoded()[j]);
        }
    }
    assert forall|i: int| a.spec_order().len() <= i < c.spec_order().len() implies #[trigger] c.complete(
        g,
        i,
    ) by {
        if i < b.spec_order().len() {
            assert(b.complete(g, i));
            lemma_complete_stable(b, c, g, i);
        }
    }
}

/// Numbers `children` and `redirect` in `ge` and appends their numbers: the
/// count of children, each child's number, then the redirect's.
fn encode_refs(
    ge: &mut GraphEncoder,
    graph: &CommandGraph,
    children: &Vec<usize>,
    redirect: Option<usize>,
    out: &mut PacketEncoder,
)
    requires
        old(ge).fits(graph),
        forall|j: int| 0 <= j < children@.len() ==> #[trigger] children@[j] < graph.spec_nodes().len(),
        redirect matches Some(r) ==> r < graph.spec_nodes().len(),
    ensures
        final(ge).fits(graph),
        final(ge).extends(old(ge), graph),
        forall|j: int| 0 <= j < children@.len() ==> final(ge).spec_order().contains(#[trigger] children@[j]),
        redirect matches Some(r) ==> final(ge).spec_order().contains(r),
        final(out)@ == old(out)@ + varint::spec_encode(children@.len() as i32) + index_varints(
            children@,
            final(ge).spec_order(),
        ) + match redirect {
            Some(r) => varint::spec_encode(index_of(final(ge).spec_order(), r) as i32),
            None => Seq::empty(),
        },
    decreases 3 * (graph.spec_nodes().len() - old(ge).spec_order().len()) + 1,
{
    proof {
        lemma_distinct_bound(ge.spec_order(), graph.spec_nodes().len());
    }
    let ghost entry = *ge;
    let ghost start = out@;
    out.write_varint(children.len() as i32);
    let mut i: usize = 0;
    proof {
        assert(ge.spec_order().take(entry.spec_order().len() as int) =~= entry.spec_order());
        assert(ge.spec_encoded().take(entry.spec_order().len() as int) =~= entry.spec_encoded());
        assert(children@.take(0) =~= Seq::<usize>::empty());
    }
    while i < children.len()
        invariant
            entry == *old(ge),
            entry.fits(graph),
            ge.fits(graph),
            ge.extends(&entry, graph),
            entry.spec_order().len() <= ge.spec_order().len() <= graph.spec_nodes().len(),
            i <= children.len(),
            forall|j: int| 0 <= j < children@.len() ==> #[trigger] children@[j] < graph.spec_nodes().len(),
            forall|j: int| 0 <= j < i ==> ge.spec_order().contains(#[trigger] children@[j]),
            out@ == start + varint::spec_encode(children@.len() as i32) + index_varints(
                children@.take(i as int),
                ge.spec_order(),
            ),
        decreases children.len() - i,
    {
        let ghost before = *ge;
        let index = ge.add_node(graph, children[i]);
        proof {
            lemma_distinct_bound(ge.spec_order(), graph.spec_nodes().len());
            lemma_extends_trans(entry, before, *ge, graph);
            assert forall|j: int| 0 <= j < children@.take(i as int).len() implies before.spec_order().contains(
                #[trigger] children@.take(i as int)[j],
            ) by {
                assert(children@.take(i as int)[j] == children@[j]);
            }
            lemma_index_varints_extends(children@.take(i as int), before.spec_order(), ge.spec_order());
            assert(children@.take(i + 1).drop_last() =~= children@.take(i as int));
            assert forall|j: int| 0 <= j < i + 1 implies ge.spec_order().contains(#[trigger] children@[j]) by {
                if j < i {
                    let k = choose|k: int| 0 <= k < before.spec_order().len() && before.spec_order()[k] == children@[j];
                    assert(ge.spec_order().take(before.spec_order().len() as int)[k] == ge.spec_order()[k]);
                }
            }
        }
        out.write_varint(index);
        i = i + 1;
        proof {
            assert(out@ =~= start + varint::spec_encode(children@.len() as i32) + index_varints(
                children@.take(i as int),
                ge.spec_order(),
            ));
        }
    }
    proof {
        assert(children@.take(children@.len() as int) =~= children@);
    }
    if let Some(r) = redirect {
        let ghost before = *ge;
        let index = ge.add_node(graph, r);
        proof {
            lemma_extends_trans(entry, before, *ge, graph);
            lemma_index_varints_extends(children@, before.spec_order(), ge.spec_order());
            assert forall|j: int| 0 <= j < children@.len() implies ge.spec_order().contains(#[trigger] children@[j]) by {
                let k = choose|k: int| 0 <= k < before.spec_order().len() && before.spec_order()[k] == children@[j];
                assert(ge.spec_order().take(before.spec_order().len() as int)[k] == ge.spec_order()[k]);
            }
        }
        out.write_varint(index);
        proof {
            assert(out@ =~= start + varint::spec_encode(children@.len() as i32) + index_varints(
                children@,
                ge.spec_order(),
            ) + varint::spec_encode(index_of(ge.spec_order(), r) as i32));
        }
    } else {
        proof {
            assert(out@ =~= start + varint::spec_encode(children@.len() as i32) + index_varints(
                children@,
                ge.spec_order(),
            ) + Seq::<u8>::empty());
        }
    }
}

impl RootNode {
    /// The node's encoding, numbering the nodes it refers to in `graph_encoder`.
    pub fn encode(&self, graph: &CommandGraph, graph_encoder: &mut GraphEncoder) -> (bytes: Vec<u8>)
        requires
            old(graph_encoder).fits(graph),
            refers_below(CommandNode::Root(*self), graph.spec_nodes().len() as int),
        ensures
            final(graph_encoder).fits(graph),
            final(graph_encoder).extends(old(graph_encoder), graph),
            refs_in(CommandNode::Root(*self), final(graph_encoder).spec_order()),
            bytes@ == node_bytes(CommandNode::Root(*self), final(graph_encoder).spec_order()),
        decreases 3 * (graph.spec_nodes().len() - old(graph_encoder).spec_order().len()) + 2,
    {
        proof {
            lemma_distinct_bound(graph_encoder.spec_order(), graph.spec_nodes().len());
            assert(node_children(CommandNode::Root(*self)) == self.children_nodes@);
            assert forall|j: int| 0 <= j < self.children_nodes@.len() implies #[trigger] self.children_nodes@[j]
                < graph.spec_nodes().len() by {
                assert(node_children(CommandNode::Root(*self))[j] < graph.spec_nodes().len());
            }
        }
        let mut encoder = PacketEncoder::new();
        encoder.write_u8(flags_byte(0, self.is_executable, self.redirect_node.is_some(), false));
        encode_refs(graph_encoder, graph, &self.children_nodes, self.redirect_node, &mut encoder);
        proof {
            lemma_be_bytes_one(node_flags(CommandNode::Root(*self)));
            assert(encoder@ =~= node_bytes(CommandNode::Root(*self), graph_encoder.spec_order()));
        }
        encoder.consume()
    }
}

impl LiteralNode {
    /// The node's encoding, numbering the nodes it refers to in `graph_encoder`.
    pub fn encode(&self, graph: &CommandGraph, graph_encoder: &mut GraphEncoder) -> (bytes: Vec<u8>)
        requires
            old(graph_encoder).fits(graph),
            refers_below(CommandNode::Literal(*self), graph.spec_nodes().len() as int),
        ensures
            final(graph_encoder).fits(graph),
            final(graph_encoder).extends(old(graph_encoder), graph),
            refs_in(CommandNode::Literal(*self), final(graph_encoder).spec_order()),
            bytes@ == node_bytes(CommandNode::Literal(*self), final(graph_encoder).spec_order()),
        decreases 3 * (graph.spec_nodes().len() - old(graph_encoder).spec_order().len()) + 2,
    {
        proof {
            lemma_distinct_bound(graph_encoder.spec_order(), graph.spec_nodes().len());
            assert(node_children(CommandNode::Literal(*self)) == self.children_nodes@);
            assert forall|j: int| 0 <= j < self.children_nodes@.len() implies #[trigger] self.children_nodes@[j]
                < graph.spec_nodes().len() by {
                assert(node_children(CommandNode::Literal(*self))[j] < graph.spec_nodes().len());
            }
        }
        let mut encoder = PacketEncoder::new();
        encoder.write_u8(flags_byte(1, self.is_executable, self.redirect_node.is_some(), false));
        encode_refs(graph_encoder, graph, &self.children_nodes, self.redirect_node, &mut encoder);
        encoder.write_string(self.name.as_str());
        proof {
            lemma_be_bytes_one(node_flags(CommandNode::Literal(*self)));
            assert(encoder@ =~= node_bytes(CommandNode::Literal(*self), graph_encoder.spec_order()));
        }
        encoder.consume()
    }
}

impl ArgumentNode {
    /// The node's encoding, numbering the nodes it refers to in `graph_encoder`.
    pub fn encode(&self, graph: &CommandGraph, graph_encoder: &mut GraphEncoder) -> (bytes: Vec<u8>)
        requires
            old(graph_encoder).fits(graph),
            refers_below(CommandNode::Argument(*self), graph.spec_nodes().len() as int),
        ensures
            final(graph_encoder).fits(graph),
            final(graph_encoder).extends(old(graph_encoder), graph),
            refs_in(CommandNode::Argument(*self), final(graph_encoder).spec_order()),
            bytes@ == node_bytes(CommandNode::Argument(*self), final(graph_encoder).spec_order()),
        decreases 3 * (graph.spec_nodes().len() - old(graph_encoder).spec_order().len()) + 2,
    {
        proof {
            lemma_distinct_bound(graph_encoder.spec_order(), graph.spec_nodes().len());
            assert(node_children(CommandNode::Argument(*self)) == self.children_nodes@);
            assert forall|j: int| 0 <= j < self.children_nodes@.len() implies #[trigger] self.children_nodes@[j]
                < graph.spec_nodes().len() by {
                assert(node_children(CommandNode::Argument(*self))[j] < graph.spec_nodes().len());
            }
        }
        let mut encoder = PacketEncoder::new();
        encoder.write_u8(
            flags_byte(2, self.is_executable, self.redirect_node.is_some(), self.suggestions_type.is_some()),
        );
        encode_refs(graph_encoder, graph, &self.children_nodes, self.redirect_node, &mut encoder);
        encoder.write_string(self.name.as_str());
        encoder.write_string(self.parser.as_str());
        encoder.write_bytes(self.properties.as_slice());
        if let Some(suggestions_type) = &self.suggestions_type {
            encoder.write_string(suggestions_type.as_str());
        }
        proof {
            lemma_be_bytes_one(node_flags(CommandNode::Argument(*self)));
            assert(encoder@ =~= node_bytes(CommandNode::Argument(*self), graph_encoder.spec_order()));
        }
        encoder.consume()
    }
}

proof fn lemma_distinct_bound(s: Seq<usize>, n: nat)
    requires
        distinct(s),
        forall|i: int| 0 <= i < s.len() ==> #[trigger] s[i] < n,
    ensures
        s.len() <= n,
{
    let t = s.map_values(|x: usize| x as int);
    assert(t.no_duplicates()) by {
        assert forall|i: int, j: int| 0 <= i < t.len() && 0 <= j < t.len() && i != j implies t[i] != t[j] by {
            assert(s[i] != s[j]);
        }
    }
    t.unique_seq_to_set();
    vstd::set_lib::lemma_int_range(0, n as int);
    assert(t.to_set().subset_of(vstd::set_lib::set_int_range(0, n as int))) by {
        assert forall|x: int| t.to_set().contains(x) implies vstd::set_lib::set_int_range(0, n as int).contains(x) by {
            let i = choose|i: int| 0 <= i < t.len() && t[i] == x;
            assert(s[i] < n);
        }
    }
    vstd::set_lib::lemma_len_subset(t.to_set(), vstd::set_lib::set_int_range(0, n as int));
}

} // verus!
