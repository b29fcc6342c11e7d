use vstd::prelude::*;

verus! {

/// What a node of a parsed HTML fragment is, without its children.
#[derive(Debug)]
pub enum NodeKind {
    Text(String),
    /// An element with its local name, its attributes, and its whole subtree
    /// written out as HTML.
    Element { name: String, attrs: Vec<(String, String)>, html: String },
    /// A comment, a doctype or a processing instruction.
    Other,
}

/// A node of a parsed HTML fragment with its ordered children.
#[derive(Debug)]
pub struct HtmlNode {
    pub kind: NodeKind,
    pub children: Vec<HtmlNode>,
}

/// One step of a depth-first walk over a tree: a node is entered, or the node
/// entered last and not yet left is left.
#[derive(Debug)]
pub enum TreeEdge {
    Open(NodeKind),
    Close,
}

/// Model of a node kind.
pub enum KindModel {
    Text(Seq<char>),
    Element { name: Seq<char>, attrs: Seq<(Seq<char>, Seq<char>)>, html: Seq<char> },
    Other,
}

/// Model of a step of a walk.
pub enum EdgeModel {
    Open(KindModel),
    Close,
}

/// Model of a node and its subtree.
pub struct NodeModel {
    pub kind: KindModel,
    pub children: Seq<NodeModel>,
}

pub open spec fn attrs_view(a: Seq<(String, String)>) -> Seq<(Seq<char>, Seq<char>)> {
    a.map_values(|p: (String, String)| (p.0@, p.1@))
}

impl View for NodeKind {
    type V = KindModel;

    open spec fn view(&self) -> KindModel {
        match self {
            NodeKind::Text(t) => KindModel::Text(t@),
            NodeKind::Element { name, attrs, html } => KindModel::Element {
                name: name@,
                attrs: attrs_view(attrs@),
                html: html@,
            },
            NodeKind::Other => KindModel::Other,
        }
    }
}

impl View for TreeEdge {
    type V = EdgeModel;

    open spec fn view(&self) -> EdgeModel {
        match self {
            TreeEdge::Open(k) => EdgeModel::Open(k@),
            TreeEdge::Close => EdgeModel::Close,
        }
    }
}

/// The models of the steps of a walk.
pub open spec fn edges_view(e: Seq<TreeEdge>) -> Seq<EdgeModel> {
    e.map_values(|x: TreeEdge| x@)
}

/// The model of one node.
pub open spec fn node_view(n: HtmlNode) -> NodeModel
    decreases n, 1int,
{
    NodeModel { kind: n.kind@, children: nodes_view(n.children@) }
}

/// The models of a sequence of nodes, element by element.
pub open spec fn nodes_view(s: Seq<HtmlNode>) -> Seq<NodeModel>
    decreases s, 0int,
{
    if s.len() == 0 {
        Seq::empty()
    } else {
        nodes_view(s.subrange(0, s.len() - 1)).push(node_view(s[s.len() - 1]))
    }
}

impl View for HtmlNode {
    type V = NodeModel;

    open spec fn view(&self) -> NodeModel {
        node_view(*self)
    }
}

pub proof fn lemma_nodes_view_index(s: Seq<HtmlNode>)
    ensures
        nodes_view(s).len() == s.len(),
        forall|i: int| 0 <= i < s.len() ==> #[trigger] nodes_view(s)[i] == node_view(s[i]),
    decreases s.len(),
{
    if s.len() > 0 {
        lemma_nodes_view_index(s.subrange(0, s.len() - 1));
    }
}

pub proof fn lemma_nodes_view_push(s: Seq<HtmlNode>, n: HtmlNode)
    ensures
        nodes_view(s.push(n)) == nodes_view(s).push(node_view(n)),
{
    assert(s.push(n).subrange(0, s.len() as int) =~= s);
}

/// The node that starts at position `p` of a walk, with the position just
/// after it; `None` where the walk does not hold a whole node there.
pub open spec fn parse_node(e: Seq<EdgeModel>, p: int) -> Option<(NodeModel, int)>
    decreases e.len() - p, 0int,
{
    if 0 <= p < e.len() && e[p] is Open {
        match parse_children(e, p + 1) {
            Some((cs, q)) => {
                if q < e.len() {
                    Some((NodeModel { kind: e[p]->Open_0, children: cs }, q + 1))
                } else {
                    None
                }
            },
            None => None,
        }
    } else {
        None
    }
}

/// The sibling nodes that start at position `p` of a walk and run up to the
/// edge that closes their parent, with that edge's position.
pub open spec fn parse_children(e: Seq<EdgeModel>, p: int) -> Option<(Seq<NodeModel>, int)>
    decreases e.len() - p, 1int,
{
    if p < 0 || p >= e.len() {
        None
    } else if e[p] is Close {
        Some((Seq::empty(), p))
    } else {
        match parse_node(e, p) {
            Some((n, q)) => {
                if p < q <= e.len() {
                    match parse_children(e, q) {
                        Some((ns, r)) => Some((seq![n] + ns, r)),
                        None => None,
                    }
                } else {
                    None
                }
            },
            None => None,
        }
    }
}

/// The tree that a whole walk describes, if it describes exactly one.
pub open spec fn tree_of_edges(e: Seq<EdgeModel>) -> Option<NodeModel> {
    match parse_node(e, 0) {
        Some((n, q)) => if q == e.len() {
            Some(n)
        } else {
            None
        },
        None => None,
    }
}

/// A copy of a string.
fn copy_string(s: &String) -> (r: String)
    ensures
        r@ == s@,
{
    s.clone()
}

/// A copy of a node kind.
fn copy_kind(k: &NodeKind) -> (r: NodeKind)
    ensures
        r@ == k@,
{
    match k {
        NodeKind::Text(t) => NodeKind::Text(copy_string(t)),
        NodeKind::Element { name, attrs, html } => {
            let mut out: Vec<(String, String)> = Vec::new();
            let mut i: usize = 0;
            while i < attrs.len()
                invariant
                    i <= attrs.len(),
                    out@.len() == i,
                    forall|j: int|
                        0 <= j < i ==> #[trigger] out@[j].0@ == attrs@[j].0@ && out@[j].1@
                            == attrs@[j].1@,
                decreases attrs.len() - i,
            {
                let pair = (copy_string(&attrs[i].0), copy_string(&attrs[i].1));
                out.push(pair);
                i = i + 1;
            }
            assert(attrs_view(out@) =~= attrs_view(attrs@));
            NodeKind::Element { name: copy_string(name), attrs: out, html: copy_string(html) }
        },
        NodeKind::Other => NodeKind::Other,
    }
}

/// Rebuilds the node that starts at position `p` of a walk.
fn build_node(e: &Vec<TreeEdge>, p: usize) -> (r: Option<(HtmlNode, usize)>)
    ensures
        match (r, parse_node(edges_view(e@), p as int)) {
            (Some((n, q)), Some((m, q2))) => n@ == m && q as int == q2,
            (None, None) => true,
            _ => false,
        },
    decreases e@.len() - p,
{
    if p >= e.len() {
        return None;
    }
    let kind = match &e[p] {
        TreeEdge::Open(k) => copy_kind(k),
        TreeEdge::Close => {
            return None;
        },
    };
    let ghost start = p + 1;
    let mut children: Vec<HtmlNode> = Vec::new();
    let mut q: usize = p + 1;
    while q < e.len() && matches!(e[q], TreeEdge::Open(_))
        invariant
            p < q <= e.len(),
            start == p + 1,
            parse_children(edges_view(e@), start as int) == match parse_children(edges_view(e@), q as int) {
                Some((ns, r)) => Some((nodes_view(children@) + ns, r)),
                None => None::<(Seq<NodeModel>, int)>,
            },
        decreases e@.len() - q,
    {
        match build_node(e, q) {
            Some((child, next)) => {
                if next <= q || next > e.len() {
                    return None;
                }
                proof {
                    lemma_nodes_view_push(children@, child);
                    let ghost m = node_view(child);
                    match parse_children(edges_view(e@), next as int) {
                        Some((ns, r)) => {
                            assert(nodes_view(children@) + (seq![m] + ns) =~= nodes_view(
                                children@,
                            ).push(m) + ns);
                        },
                        None => {},
                    }
                }
                children.push(child);
                q = next;
            },
            None => {
                return None;
            },
        }
    }
    if q >= e.len() {
        return None;
    }
    assert(nodes_view(children@) + Seq::<NodeModel>::empty() =~= nodes_view(children@));
    Some((HtmlNode { kind, children }, q + 1))
}

/// Rebuilds the tree that a whole walk describes.
pub fn tree_from_edges(e: &Vec<TreeEdge>) -> (r: Option<HtmlNode>)
    ensures
        match (r, tree_of_edges(edges_view(e@))) {
            (Some(n), Some(m)) => n@ == m,
            (None, None) => true,
            _ => false,
        },
{
    match build_node(e, 0) {
        Some((n, q)) => if q == e.len() {
            Some(n)
        } else {
            None
        },
        None => None,
    }
}

} // verus!
