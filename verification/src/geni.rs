//! GENI models.
//!
//! We just do the bare mininum that's enough to get the full FQDN.

use vstd::prelude::*;
use crate::text::str_eq;

verus! {

/// An IPv4 address, by its four bytes in network order.
#[derive(Debug, Clone, Copy, PartialEq, Eq, Structural)]
pub struct Ipv4 {
    pub a: u8,
    pub b: u8,
    pub c: u8,
    pub d: u8,
}

/// A node of a manifest.
#[derive(Debug, Clone)]
pub struct Node {
    client_id: String,
    name: String,
    ipv4: Ipv4,
}

/// The mathematical value of a [`Node`].
pub ghost struct NodeView {
    /// The nickname of the node in its experiment.
    pub client_id: Seq<char>,
    /// The fully qualified name of the node's host.
    pub fqdn: Seq<char>,
    /// The address of the node's host.
    pub ipv4: Ipv4,
}

impl View for Node {
    type V = NodeView;

    closed spec fn view(&self) -> NodeView {
        NodeView { client_id: self.client_id@, fqdn: self.name@, ipv4: self.ipv4 }
    }
}

impl Node {
    /// A node with the given nickname, host name and address.
    pub fn new(client_id: String, fqdn: String, ipv4: Ipv4) -> (r: Self)
        ensures
            r@ == (NodeView { client_id: client_id@, fqdn: fqdn@, ipv4 }),
    {
        Self { client_id, name: fqdn, ipv4 }
    }

    /// Returns the nickname of the node.
    pub fn client_id(&self) -> (r: &str)
        ensures
            r@ == self@.client_id,
    {
        self.client_id.as_str()
    }

    /// Returns the FQDN of the node.
    pub fn fqdn(&self) -> (r: String)
        ensures
            r@ == self@.fqdn,
    {
        self.name.clone()
    }

    /// Returns the IPv4 address of the node.
    pub fn ipv4(&self) -> (r: Ipv4)
        ensures
            r == self@.ipv4,
    {
        self.ipv4
    }
}

/// The position of the first node with the given nickname, if there is
/// one.
pub open spec fn node_index(nodes: Seq<NodeView>, client_id: Seq<char>) -> Option<int>
    decreases nodes.len(),
{
    if nodes.len() == 0 {
        None
    } else if node_index(nodes.drop_last(), client_id) is Some {
        node_index(nodes.drop_last(), client_id)
    } else if nodes.last().client_id == client_id {
        Some(nodes.len() - 1)
    } else {
        None
    }
}

/// `node_index` finds a node with the nickname, and the first one, exactly
/// where one exists.
pub proof fn lemma_node_index(nodes: Seq<NodeView>, client_id: Seq<char>)
    ensures
        match node_index(nodes, client_id) {
            Some(i) => 0 <= i < nodes.len() && nodes[i].client_id == client_id && forall|j: int|
                0 <= j < i ==> nodes[j].client_id != client_id,
            None => forall|j: int| 0 <= j < nodes.len() ==> nodes[j].client_id != client_id,
        },
    decreases nodes.len(),
{
    if nodes.len() > 0 {
        let init = nodes.drop_last();
        lemma_node_index(init, client_id);
        assert(forall|j: int| 0 <= j < init.len() ==> init[j] == nodes[j]);
    }
}

/// GENI Resource Specification.
///
/// <https://groups.geni.net/geni/wiki/GENIExperimenter/RSpecs>.
#[derive(Debug, Clone)]
pub struct RSpec {
    nodes: Vec<Node>,
}

impl View for RSpec {
    type V = Seq<NodeView>;

    /// The nodes, in the order of the manifest.
    closed spec fn view(&self) -> Seq<NodeView> {
        Seq::new(self.nodes@.len(), |i: int| self.nodes@[i]@)
    }
}

impl RSpec {
    /// A manifest with the given nodes.
    pub fn new(nodes: Vec<Node>) -> (r: Self)
        ensures
            r@ == Seq::new(nodes@.len(), |i: int| nodes@[i]@),
    {
        Self { nodes }
    }

    /// The nodes, in the order of the manifest.
    pub fn nodes(&self) -> (r: &Vec<Node>)
        ensures
            Seq::new(r@.len(), |i: int| r@[i]@) == self@,
    {
        &self.nodes
    }

    /// The first node with the given nickname, if there is one.
    pub fn get_node(&self, client_id: &str) -> (r: Option<&Node>)
        ensures
            match r {
                Some(node) => node_index(self@, client_id@) is Some && node@ == self@[node_index(
                    self@,
                    client_id@,
                ).unwrap()],
                None => node_index(self@, client_id@) is None,
            },
    {
        let mut i: usize = 0;
        while i < self.nodes.len()
            invariant
                i <= self.nodes@.len(),
                forall|j: int| 0 <= j < i ==> self@[j].client_id != client_id@,
            decreases self.nodes@.len() - i,
        {
            if str_eq(self.nodes[i].client_id(), client_id) {
                proof {
                    lemma_node_index(self@, client_id@);
                    assert(self@[i as int].client_id == client_id@);
                }
                return Some(&self.nodes[i]);
            }
            i += 1;
        }
        proof {
            lemma_node_index(self@, client_id@);
        }
        None
    }
}

} // verus!
