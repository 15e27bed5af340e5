//! An observable document: an arena of element and text nodes that tells a
//! listener about every change, synchronously, before the change returns.
use crate::text::str_eq;
use vstd::prelude::*;

verus! {

/// Handle of a node in a document's arena.
pub type NodeId = u32;

/// A change to a document, as handed to its listener.
#[derive(Debug, Clone, Copy, PartialEq, Eq, Structural)]
pub enum DocumentEvent {
    ParentChanged(NodeId),
    NodeDestroyed(NodeId),
    TextNodeCreated(NodeId),
    TextChanged(NodeId),
    ElementCreated(NodeId),
    AttributesChanged(NodeId),
    /// Parent, child and the index the child was inserted at.
    NodeInserted(NodeId, NodeId, usize),
    /// Parent and child.
    NodeRemoved(NodeId, NodeId),
}

/// What a node holds.
pub enum NodeContent {
    Element { local_name: Seq<char>, attributes: Map<Seq<char>, Seq<char>> },
    Text(Seq<char>),
}

/// A node as the contracts see it.
pub struct NodeView {
    pub content: NodeContent,
    pub parent: Option<NodeId>,
    pub children: Seq<NodeId>,
}

/// A document as the contracts see it: its live nodes, its root, and every
/// event it has sent to its listener so far.
pub struct DocumentView {
    pub nodes: Map<NodeId, NodeView>,
    pub root: NodeId,
    pub events: Seq<DocumentEvent>,
}

impl DocumentView {
    /// Parent and child links agree, children lists hold no node twice, no
    /// node is its own ancestor, and the root is a live element without a
    /// parent.
    pub open spec fn consistent(&self) -> bool {
        &&& self.acyclic()
        &&& self.nodes.contains_key(self.root)
        &&& self.nodes[self.root].content is Element
        &&& self.nodes[self.root].parent is None
        &&& forall|n: NodeId| #[trigger]
            self.nodes.contains_key(n) ==> {
                &&& self.nodes[n].children.no_duplicates()
                &&& self.nodes[n].parent != Some(n)
                &&& (self.nodes[n].parent matches Some(p) ==> self.nodes.contains_key(p)
                    && self.nodes[p].children.contains(n))
                &&& forall|i: int|
                    0 <= i < self.nodes[n].children.len() ==> self.nodes.contains_key(
                        #[trigger] self.nodes[n].children[i],
                    ) && self.nodes[self.nodes[n].children[i]].parent == Some(n)
            }
    }

    /// The node reached from `n` by following parent links `k` times.
    pub open spec fn ancestor_at(&self, n: NodeId, k: nat) -> Option<NodeId>
        decreases k,
    {
        if k == 0 {
            Some(n)
        } else {
            match self.ancestor_at(n, (k - 1) as nat) {
                Some(m) => if self.nodes.contains_key(m) {
                    self.nodes[m].parent
                } else {
                    None
                },
                None => None,
            }
        }
    }

    /// Following parent links never leads back to where it started.
    pub open spec fn acyclic(&self) -> bool {
        forall|n: NodeId, k: nat|
            k > 0 && self.nodes.contains_key(n) ==> #[trigger] self.ancestor_at(n, k) != Some(n)
    }

    /// `a` is `n` itself or one of its ancestors.
    pub open spec fn is_ancestor_or_self(&self, a: NodeId, n: NodeId) -> bool {
        exists|k: nat| self.ancestor_at(n, k) == Some(a)
    }

    pub open spec fn is_element(&self, n: NodeId) -> bool {
        self.nodes.contains_key(n) && self.nodes[n].content is Element
    }

    pub open spec fn is_text(&self, n: NodeId) -> bool {
        self.nodes.contains_key(n) && self.nodes[n].content is Text
    }

    /// The attributes of element `n`.
    pub open spec fn attributes(&self, n: NodeId) -> Map<Seq<char>, Seq<char>>
        recommends
            self.is_element(n),
    {
        self.nodes[n].content->Element_attributes
    }
}

enum NodeData {
    Element(ElementData),
    Text(String),
}

struct ElementData {
    local_name: String,
    /// Name and value pairs, names unique, in order of first setting.
    attributes: Vec<(String, String)>,
}

struct Node {
    data: NodeData,
    parent: Option<NodeId>,
    children: Vec<NodeId>,
}

/// The tree. Every change is reported to `listener` before the changing call
/// returns; the listener sees the document only through the events.
pub struct Document<L: Fn(DocumentEvent)> {
    nodes: Vec<Option<Node>>,
    /// Slots freed by `free_node`, reused first.
    free: Vec<NodeId>,
    root: NodeId,
    listener: L,
    events: Ghost<Seq<DocumentEvent>>,
}

spec fn attr_map(a: Seq<(String, String)>) -> Map<Seq<char>, Seq<char>> {
    Map::new(
        |k: Seq<char>| exists|i: int| 0 <= i < a.len() && a[i].0@ == k,
        |k: Seq<char>| a[choose|i: int| 0 <= i < a.len() && a[i].0@ == k].1@,
    )
}

spec fn keys_unique(a: Seq<(String, String)>) -> bool {
    forall|i: int, j: int| 0 <= i < a.len() && 0 <= j < a.len() && a[i].0@ == a[j].0@ ==> i == j
}

spec fn attrs_ok(slot: Option<Node>) -> bool {
    match slot {
        Some(Node { data: NodeData::Element(e), .. }) => keys_unique(e.attributes@),
        _ => true,
    }
}

spec fn content_of(d: NodeData) -> NodeContent {
    match d {
        NodeData::Element(e) => NodeContent::Element {
            local_name: e.local_name@,
            attributes: attr_map(e.attributes@),
        },
        NodeData::Text(t) => NodeContent::Text(t@),
    }
}

spec fn node_view(n: Node) -> NodeView {
    NodeView { content: content_of(n.data), parent: n.parent, children: n.children@ }
}

proof fn lemma_attr_update(a: Seq<(String, String)>, i: int, v: (String, String))
    requires
        keys_unique(a),
        0 <= i < a.len(),
        a[i].0@ == v.0@,
    ensures
        keys_unique(a.update(i, v)),
        attr_map(a.update(i, v)) == attr_map(a).insert(v.0@, v.1@),
{
    let b = a.update(i, v);
    assert forall|k: Seq<char>| #[trigger] attr_map(b).contains_key(k) implies attr_map(a).insert(
        v.0@,
        v.1@,
    ).contains_key(k) && attr_map(b)[k] == attr_map(a).insert(v.0@, v.1@)[k] by {
        let j = choose|j: int| 0 <= j < b.len() && b[j].0@ == k;
        assert(0 <= j < a.len() && a[j].0@ == k);
        if k != v.0@ {
            let j2 = choose|j2: int| 0 <= j2 < a.len() && a[j2].0@ == k;
            assert(j2 == j);
        }
    }
    assert forall|k: Seq<char>| #[trigger] attr_map(a).insert(v.0@, v.1@).contains_key(
        k,
    ) implies attr_map(b).contains_key(k) by {
        if k != v.0@ {
            let j = choose|j: int| 0 <= j < a.len() && a[j].0@ == k;
            assert(b[j].0@ == k);
        } else {
            assert(b[i].0@ == k);
        }
    }
    assert(attr_map(b) =~= attr_map(a).insert(v.0@, v.1@));
}

proof fn lemma_attr_push(a: Seq<(String, String)>, v: (String, String))
    requires
        keys_unique(a),
        !attr_map(a).contains_key(v.0@),
    ensures
        keys_unique(a.push(v)),
        attr_map(a.push(v)) == attr_map(a).insert(v.0@, v.1@),
{
    let b = a.push(v);
    assert forall|j: int| 0 <= j < a.len() implies a[j].0@ != v.0@ by {
        if a[j].0@ == v.0@ {
            assert(attr_map(a).contains_key(v.0@));
        }
    }
    assert forall|k: Seq<char>| #[trigger] attr_map(b).contains_key(k) implies attr_map(a).insert(
        v.0@,
        v.1@,
    ).contains_key(k) && attr_map(b)[k] == attr_map(a).insert(v.0@, v.1@)[k] by {
        let j = choose|j: int| 0 <= j < b.len() && b[j].0@ == k;
        if k != v.0@ {
            assert(0 <= j < a.len() && a[j].0@ == k);
            let j2 = choose|j2: int| 0 <= j2 < a.len() && a[j2].0@ == k;
            assert(b[j2].0@ == k);
        } else {
            assert(j == a.len());
        }
    }
    assert forall|k: Seq<char>| #[trigger] attr_map(a).insert(v.0@, v.1@).contains_key(
        k,
    ) implies attr_map(b).contains_key(k) by {
        if k != v.0@ {
            let j = choose|j: int| 0 <= j < a.len() && a[j].0@ == k;
            assert(b[j].0@ == k);
        } else {
            assert(b[a.len() as int].0@ == k);
        }
    }
    assert(attr_map(b) =~= attr_map(a).insert(v.0@, v.1@));
}

proof fn lemma_attr_remove(a: Seq<(String, String)>, i: int)
    requires
        keys_unique(a),
        0 <= i < a.len(),
    ensures
        keys_unique(a.remove(i)),
        attr_map(a.remove(i)) == attr_map(a).remove(a[i].0@),
{
    let b = a.remove(i);
    let key = a[i].0@;
    assert forall|x: int, y: int|
        0 <= x < b.len() && 0 <= y < b.len() && b[x].0@ == b[y].0@ implies x == y by {
        let xa = if x < i {
            x
        } else {
            x + 1
        };
        let ya = if y < i {
            y
        } else {
            y + 1
        };
        assert(b[x] == a[xa] && b[y] == a[ya]);
    }
    assert forall|k: Seq<char>| #[trigger] attr_map(b).contains_key(k) implies attr_map(a).remove(
        key,
    ).contains_key(k) && attr_map(b)[k] == attr_map(a).remove(key)[k] by {
        let j = choose|j: int| 0 <= j < b.len() && b[j].0@ == k;
        let ja = if j < i {
            j
        } else {
            j + 1
        };
        assert(a[ja].0@ == k);
        assert(ja != i);
        let j2 = choose|j2: int| 0 <= j2 < a.len() && a[j2].0@ == k;
        assert(j2 == ja);
    }
    assert forall|k: Seq<char>| #[trigger] attr_map(a).remove(key).contains_key(
        k,
    ) implies attr_map(b).contains_key(k) by {
        let j = choose|j: int| 0 <= j < a.len() && a[j].0@ == k;
        assert(j != i);
        if j < i {
            assert(b[j].0@ == k);
        } else {
            assert(b[j - 1].0@ == k);
        }
    }
    assert(attr_map(b) =~= attr_map(a).remove(key));
}

proof fn lemma_anc_compose(v: DocumentView, n: NodeId, a: nat, b: nat)
    ensures
        v.ancestor_at(n, a + b) == match v.ancestor_at(n, a) {
            Some(m) => v.ancestor_at(m, b),
            None => None,
        },
    decreases b,
{
    if b > 0 {
        lemma_anc_compose(v, n, a, (b - 1) as nat);
        assert((a + b - 1) as nat == a + (b - 1) as nat);
    }
}

/// Where `v` has no parent link that `v0` lacks, a chain of parents in `v`
/// is one in `v0`.
proof fn lemma_sub_anc(v0: DocumentView, v: DocumentView, n: NodeId, k: nat)
    requires
        forall|m: NodeId| #[trigger]
            v.nodes.contains_key(m) && v.nodes[m].parent is Some ==> v0.nodes.contains_key(m)
                && v0.nodes[m].parent == v.nodes[m].parent,
    ensures
        v.ancestor_at(n, k) is Some ==> v0.ancestor_at(n, k) == v.ancestor_at(n, k),
    decreases k,
{
    if k > 0 {
        lemma_sub_anc(v0, v, n, (k - 1) as nat);
    }
}

proof fn lemma_sub_parent(v0: DocumentView, v: DocumentView)
    requires
        v0.acyclic(),
        forall|m: NodeId| #[trigger]
            v.nodes.contains_key(m) && v.nodes[m].parent is Some ==> v0.nodes.contains_key(m)
                && v0.nodes[m].parent == v.nodes[m].parent,
    ensures
        v.acyclic(),
{
    assert forall|n: NodeId, k: nat|
        k > 0 && v.nodes.contains_key(n) implies #[trigger] v.ancestor_at(n, k) != Some(n) by {
        if v.ancestor_at(n, k) == Some(n) {
            lemma_sub_anc(v0, v, n, k);
            lemma_anc_compose(v, n, 1, (k - 1) as nat);
            assert(v.ancestor_at(n, 0) == Some(n));
            assert(v.ancestor_at(n, 1) == v.nodes[n].parent);
            assert(v0.ancestor_at(n, k) == Some(n));
        }
    }
}

proof fn lemma_first_hit(v: DocumentView, n: NodeId, big: nat, c: NodeId)
    requires
        v.ancestor_at(n, big) == Some(c),
    ensures
        exists|i: nat|
            i <= big && v.ancestor_at(n, i) == Some(c) && forall|j: nat|
                j < i ==> #[trigger] v.ancestor_at(n, j) != Some(c),
    decreases big,
{
    if exists|j: nat| j < big && #[trigger] v.ancestor_at(n, j) == Some(c) {
        let j = choose|j: nat| j < big && #[trigger] v.ancestor_at(n, j) == Some(c);
        lemma_first_hit(v, n, j, c);
    }
}

/// Before a chain of parents in `v` reaches `child`, it is the same chain
/// as in `v0`.
proof fn lemma_same_until(v0: DocumentView, v: DocumentView, child: NodeId, n: NodeId, k: nat)
    requires
        forall|m: NodeId| #[trigger] v.nodes.contains_key(m) == v0.nodes.contains_key(m),
        forall|m: NodeId|
            m != child && #[trigger] v.nodes.contains_key(m) ==> v.nodes[m].parent
                == v0.nodes[m].parent,
        forall|j: nat| j < k ==> #[trigger] v.ancestor_at(n, j) != Some(child),
    ensures
        v.ancestor_at(n, k) == v0.ancestor_at(n, k),
    decreases k,
{
    if k > 0 {
        lemma_same_until(v0, v, child, n, (k - 1) as nat);
        assert(v.ancestor_at(n, (k - 1) as nat) != Some(child));
    }
}

proof fn lemma_insert_acyclic(v0: DocumentView, v: DocumentView, parent: NodeId, child: NodeId)
    requires
        v0.acyclic(),
        forall|m: NodeId| #[trigger] v.nodes.contains_key(m) == v0.nodes.contains_key(m),
        forall|m: NodeId|
            m != child && #[trigger] v.nodes.contains_key(m) ==> v.nodes[m].parent
                == v0.nodes[m].parent,
        v0.nodes.contains_key(child),
        v.nodes[child].parent == Some(parent),
        !v0.is_ancestor_or_self(child, parent),
    ensures
        v.acyclic(),
{
    assert forall|n: NodeId, k: nat|
        k > 0 && v.nodes.contains_key(n) implies #[trigger] v.ancestor_at(n, k) != Some(n) by {
        if v.ancestor_at(n, k) == Some(n) {
            if forall|j: nat| j < k ==> #[trigger] v.ancestor_at(n, j) != Some(child) {
                lemma_same_until(v0, v, child, n, k);
                assert(v0.ancestor_at(n, k) == Some(n));
            } else {
                let j0 = choose|j: nat| j < k && #[trigger] v.ancestor_at(n, j) == Some(child);
                lemma_anc_compose(v, n, j0, 1);
                assert(v.ancestor_at(child, 1) == Some(parent));
                let rest = (k - (j0 + 1)) as nat;
                lemma_anc_compose(v, n, j0 + 1, rest);
                assert(j0 + 1 + rest == k);
                assert(v.ancestor_at(parent, rest) == Some(n));
                lemma_anc_compose(v, parent, rest, j0);
                assert(v.ancestor_at(parent, rest + j0) == Some(child));
                lemma_first_hit(v, parent, rest + j0, child);
                let i = choose|i: nat|
                    i <= rest + j0 && v.ancestor_at(parent, i) == Some(child) && forall|j: nat|
                        j < i ==> #[trigger] v.ancestor_at(parent, j) != Some(child);
                lemma_same_until(v0, v, child, parent, i);
                assert(v0.ancestor_at(parent, i) == Some(child));
                assert(v0.is_ancestor_or_self(child, parent));
            }
        }
    }
}

proof fn lemma_content_only(v0: DocumentView, v: DocumentView, id: NodeId, c: NodeContent)
    requires
        v0.consistent(),
        v0.nodes.contains_key(id),
        v.root == v0.root,
        v.nodes == v0.nodes.insert(id, NodeView { content: c, ..v0.nodes[id] }),
        id == v0.root ==> c is Element,
    ensures
        v.consistent(),
{
    lemma_sub_parent(v0, v);
    assert forall|n: NodeId| #[trigger] v.nodes.contains_key(n) implies {
        &&& v.nodes[n].children.no_duplicates()
        &&& v.nodes[n].parent != Some(n)
        &&& (v.nodes[n].parent matches Some(q) ==> v.nodes.contains_key(q)
            && v.nodes[q].children.contains(n))
        &&& forall|i: int|
            0 <= i < v.nodes[n].children.len() ==> v.nodes.contains_key(
                #[trigger] v.nodes[n].children[i],
            ) && v.nodes[v.nodes[n].children[i]].parent == Some(n)
    } by {
        assert(v0.nodes.contains_key(n));
    }
}

/// The index of the attribute named `name`, if there is one.
fn find_attr(attrs: &Vec<(String, String)>, name: &str) -> (r: Option<usize>)
    ensures
        match r {
            Some(i) => i < attrs.len() && attrs@[i as int].0@ == name@,
            None => forall|i: int| 0 <= i < attrs.len() ==> attrs@[i].0@ != name@,
        },
{
    let mut i: usize = 0;
    while i < attrs.len()
        invariant
            i <= attrs.len(),
            forall|j: int| 0 <= j < i ==> attrs@[j].0@ != name@,
        decreases attrs.len() - i,
    {
        if str_eq(attrs[i].0.as_str(), name) {
            return Some(i);
        }
        i = i + 1;
    }
    None
}

proof fn lemma_attr_found(a: Seq<(String, String)>, i: int)
    requires
        keys_unique(a),
        0 <= i < a.len(),
    ensures
        attr_map(a).contains_key(a[i].0@),
        attr_map(a)[a[i].0@] == a[i].1@,
{
    let k = a[i].0@;
    assert(attr_map(a).contains_key(k));
    let j = choose|j: int| 0 <= j < a.len() && a[j].0@ == k;
    assert(j == i);
}

impl<L: Fn(DocumentEvent)> View for Document<L> {
    type V = DocumentView;

    closed spec fn view(&self) -> DocumentView {
        DocumentView {
            nodes: Map::new(
                |n: NodeId| (n as int) < self.nodes.len() && self.nodes[n as int] is Some,
                |n: NodeId| node_view(self.nodes[n as int]->Some_0),
            ),
            root: self.root,
            events: self.events@,
        }
    }
}

impl<L: Fn(DocumentEvent)> Document<L> {
    /// The arena and the listener are in order: every id fits a `NodeId`,
    /// the free list names empty slots once each, attribute names are
    /// unique, the links are consistent, and the listener takes any event.
    pub closed spec fn wf(&self) -> bool {
        &&& self.nodes.len() <= u32::MAX as int + 1
        &&& self@.consistent()
        &&& self.free@.no_duplicates()
        &&& forall|i: int|
            0 <= i < self.free.len() ==> (#[trigger] self.free[i] as int) < self.nodes.len()
                && self.nodes[self.free[i] as int] is None
        &&& forall|i: int|
            0 <= i < self.nodes.len() ==> attrs_ok(#[trigger] self.nodes[i])
        &&& forall|e: DocumentEvent| call_requires(self.listener, (e,))
    }

    /// A well-formed document is consistent: parent and child links agree,
    /// a node appears at most once in a children list and only in its
    /// parent's, no node is its own ancestor, and the root is a live
    /// element without a parent.
    pub proof fn lemma_consistent(&self)
        requires
            self.wf(),
        ensures
            self@.consistent(),
    {
    }

    /// A new node can be given an id.
    pub closed spec fn can_create(&self) -> bool {
        self.free.len() > 0 || self.nodes.len() <= u32::MAX as int
    }

    /// Whether a new node can be given an id; creating a node needs one.
    pub fn has_free_id(&self) -> (r: bool)
        ensures
            r == self.can_create(),
    {
        self.free.len() > 0 || self.nodes.len() <= u32::MAX as usize
    }

    /// A document holding only its root element, `:root`; the listener is
    /// told of the root's creation.
    pub fn new(listener: L) -> (r: Self)
        requires
            forall|e: DocumentEvent| call_requires(listener, (e,)),
        ensures
            r.wf(),
            r@.nodes.dom() == set![r@.root],
            r@.nodes[r@.root] == (NodeView {
                content: NodeContent::Element { local_name: ":root"@, attributes: Map::empty() },
                parent: None,
                children: seq![],
            }),
            r@.events == seq![DocumentEvent::ElementCreated(r@.root)],
            r.can_create(),
    {
        let root_node = Node {
            data: NodeData::Element(
                ElementData { local_name: ":root".to_owned(), attributes: Vec::new() },
            ),
            parent: None,
            children: Vec::new(),
        };
        let mut nodes: Vec<Option<Node>> = Vec::new();
        nodes.push(Some(root_node));
        let mut d = Document {
            nodes,
            free: Vec::new(),
            root: 0,
            listener,
            events: Ghost(Seq::empty()),
        };
        proof {
            assert(attr_map(Seq::empty()) =~= Map::empty());
            assert(d@.nodes.dom() =~= set![0u32]);
        }
        d.emit(DocumentEvent::ElementCreated(0));
        proof {
            assert(d@.events =~= seq![DocumentEvent::ElementCreated(0)]);
        }
        d
    }

    fn emit(&mut self, event: DocumentEvent)
        requires
            old(self).wf(),
        ensures
            final(self).wf(),
            final(self)@ == (DocumentView { events: old(self)@.events.push(event), ..old(self)@ }),
            final(self).can_create() == old(self).can_create(),
    {
        (self.listener)(event);
        self.events = Ghost(self.events@.push(event));
        proof {
            assert(self@.nodes =~= old(self)@.nodes);
            lemma_sub_parent(old(self)@, self@);
        }
    }

    pub fn root(&self) -> (r: NodeId)
        ensures
            r == self@.root,
    {
        self.root
    }

    pub fn is_element(&self, node: NodeId) -> (r: bool)
        requires
            self.wf(),
            self@.nodes.contains_key(node),
        ensures
            r == self@.is_element(node),
    {
        match &self.nodes[node as usize] {
            Some(n) => match &n.data {
                NodeData::Element(_) => true,
                NodeData::Text(_) => false,
            },
            None => false,
        }
    }

    pub fn is_text(&self, node: NodeId) -> (r: bool)
        requires
            self.wf(),
            self@.nodes.contains_key(node),
        ensures
            r == self@.is_text(node),
    {
        match &self.nodes[node as usize] {
            Some(n) => match &n.data {
                NodeData::Text(_) => true,
                NodeData::Element(_) => false,
            },
            None => false,
        }
    }

    pub fn parent(&self, node: NodeId) -> (r: Option<NodeId>)
        requires
            self.wf(),
            self@.nodes.contains_key(node),
        ensures
            r == self@.nodes[node].parent,
    {
        match &self.nodes[node as usize] {
            Some(n) => n.parent,
            None => None,
        }
    }

    /// The children of `node`, in order.
    pub fn children(&self, node: NodeId) -> (r: Vec<NodeId>)
        requires
            self.wf(),
            self@.nodes.contains_key(node),
        ensures
            r@ == self@.nodes[node].children,
    {
        match &self.nodes[node as usize] {
            Some(n) => n.children.clone(),
            None => Vec::new(),
        }
    }

    /// Puts `node` in a free slot and returns its id.
    fn place_node(&mut self, node: Node) -> (id: NodeId)
        requires
            old(self).wf(),
            old(self).can_create(),
            node.parent is None,
            node.children@.len() == 0,
            attrs_ok(Some(node)),
        ensures
            final(self).wf(),
            !old(self)@.nodes.contains_key(id),
            final(self)@ == (DocumentView {
                nodes: old(self)@.nodes.insert(id, node_view(node)),
                ..old(self)@
            }),
    {
        let ghost old_nodes = self@.nodes;
        let ghost nv = node_view(node);
        let id = match self.free.pop() {
            Some(id) => {
                proof {
                    assert(old(self).free@[old(self).free.len() - 1] == id);
                }
                self.nodes[id as usize] = Some(node);
                id
            },
            None => {
                let id = self.nodes.len() as u32;
                self.nodes.push(Some(node));
                id
            },
        };
        proof {
            assert(!old_nodes.contains_key(id));
            assert(self@.nodes =~= old_nodes.insert(id, nv));
            lemma_sub_parent(old(self)@, self@);
            assert forall|i: int| 0 <= i < self.free.len() implies (#[trigger] self.free[i] as int)
                < self.nodes.len() && self.nodes[self.free[i] as int] is None by {
                assert(self.free[i] == old(self).free[i]);
                if old(self).free.len() > 0 {
                    assert(old(self).free[i] != id);
                }
            }
            assert forall|i: int| 0 <= i < self.nodes.len() implies attrs_ok(
                #[trigger] self.nodes[i],
            ) by {
                if i != id as int {
                    assert(self.nodes[i] == old(self).nodes[i]);
                }
            }
            let v = self@;
            assert forall|n: NodeId| #[trigger] v.nodes.contains_key(n) implies {
                &&& v.nodes[n].children.no_duplicates()
                &&& v.nodes[n].parent != Some(n)
                &&& (v.nodes[n].parent matches Some(p) ==> v.nodes.contains_key(p)
                    && v.nodes[p].children.contains(n))
                &&& forall|i: int|
                    0 <= i < v.nodes[n].children.len() ==> v.nodes.contains_key(
                        #[trigger] v.nodes[n].children[i],
                    ) && v.nodes[v.nodes[n].children[i]].parent == Some(n)
            } by {
                if n != id {
                    assert(old_nodes.contains_key(n));
                    if let Some(p) = v.nodes[n].parent {
                        assert(old_nodes[p].children.contains(n));
                    }
                }
            }
        }
        id
    }

    /// Makes the detached `child` the `index`-th child of `parent`; the
    /// listener hears of the insertion, then of the child's new parent.
    pub fn insert_child(&mut self, parent: NodeId, child: NodeId, index: usize)
        requires
            old(self).wf(),
            old(self)@.nodes.contains_key(parent),
            old(self)@.nodes.contains_key(child),
            child != old(self)@.root,
            old(self)@.nodes[child].parent is None,
            !old(self)@.is_ancestor_or_self(child, parent),
            index <= old(self)@.nodes[parent].children.len(),
        ensures
            final(self).wf(),
            final(self)@ == (DocumentView {
                nodes: old(self)@.nodes.insert(
                    parent,
                    NodeView {
                        children: old(self)@.nodes[parent].children.insert(index as int, child),
                        ..old(self)@.nodes[parent]
                    },
                ).insert(child, NodeView { parent: Some(parent), ..old(self)@.nodes[child] }),
                events: old(self)@.events + seq![
                    DocumentEvent::NodeInserted(parent, child, index),
                    DocumentEvent::ParentChanged(child),
                ],
                ..old(self)@
            }),
    {
        let ghost v0 = self@;
        proof {
            assert(v0.ancestor_at(parent, 0) == Some(parent));
            assert(!v0.nodes[parent].children.contains(child));
        }
        let mut p = self.nodes[parent as usize].take().unwrap();
        p.children.insert(index, child);
        self.nodes[parent as usize] = Some(p);
        let mut c = self.nodes[child as usize].take().unwrap();
        c.parent = Some(parent);
        self.nodes[child as usize] = Some(c);
        proof {
            let pv = NodeView { children: v0.nodes[parent].children.insert(index as int, child), ..v0.nodes[parent] };
            let cv = NodeView { parent: Some(parent), ..v0.nodes[child] };
            let target = v0.nodes.insert(parent, pv).insert(child, cv);
            assert(self@.nodes =~= target);
            lemma_insert_acyclic(v0, self@, parent, child);
            assert forall|i: int| 0 <= i < self.nodes.len() implies attrs_ok(
                #[trigger] self.nodes[i],
            ) by {
                assert(attrs_ok(old(self).nodes[i]));
            }
            assert forall|i: int| 0 <= i < self.free.len() implies (#[trigger] self.free[i] as int)
                < self.nodes.len() && self.nodes[self.free[i] as int] is None by {
                assert(old(self).nodes[self.free[i] as int] is None);
            }
            let v = self@;
            assert(pv.children.no_duplicates());
            assert forall|n: NodeId| #[trigger] v.nodes.contains_key(n) implies {
                &&& v.nodes[n].children.no_duplicates()
                &&& v.nodes[n].parent != Some(n)
                &&& (v.nodes[n].parent matches Some(q) ==> v.nodes.contains_key(q)
                    && v.nodes[q].children.contains(n))
                &&& forall|i: int|
                    0 <= i < v.nodes[n].children.len() ==> v.nodes.contains_key(
                        #[trigger] v.nodes[n].children[i],
                    ) && v.nodes[v.nodes[n].children[i]].parent == Some(n)
            } by {
                assert(v0.nodes.contains_key(n));
                if n == child {
                    assert(pv.children[index as int] == child);
                } else if let Some(q) = v.nodes[n].parent {
                    let j = choose|j: int| 0 <= j < v0.nodes[q].children.len() && v0.nodes[q].children[j] == n;
                    if q == parent {
                        if j < index {
                            assert(pv.children[j] == n);
                        } else {
                            assert(pv.children[j + 1] == n);
                        }
                    } else {
                        assert(v.nodes[q].children[j] == n);
                    }
                }
                assert forall|i: int| 0 <= i < v.nodes[n].children.len() implies v.nodes.contains_key(
                    #[trigger] v.nodes[n].children[i],
                ) && v.nodes[v.nodes[n].children[i]].parent == Some(n) by {
                    if n == parent {
                        if i < index {
                            assert(v.nodes[n].children[i] == v0.nodes[n].children[i]);
                        } else if i > index {
                            assert(v.nodes[n].children[i] == v0.nodes[n].children[i - 1]);
                        }
                    } else {
                        assert(v.nodes[n].children[i] == v0.nodes[n].children[i]);
                        assert(v0.nodes[n].children[i] != child);
                    }
                }
            }
        }
        self.emit(DocumentEvent::NodeInserted(parent, child, index));
        self.emit(DocumentEvent::ParentChanged(child));
        proof {
            assert(self@.events =~= v0.events + seq![
                DocumentEvent::NodeInserted(parent, child, index),
                DocumentEvent::ParentChanged(child),
            ]);
        }
    }

    /// Detaches `child` from `parent`; the listener hears of the removal,
    /// then of the child having no parent.
    pub fn remove_child(&mut self, parent: NodeId, child: NodeId)
        requires
            old(self).wf(),
            old(self)@.nodes.contains_key(parent),
            old(self)@.nodes.contains_key(child),
            old(self)@.nodes[child].parent == Some(parent),
        ensures
            final(self).wf(),
            exists|i: int|
                0 <= i < old(self)@.nodes[parent].children.len()
                    && old(self)@.nodes[parent].children[i] == child && final(self)@ == (
                DocumentView {
                    nodes: old(self)@.nodes.insert(
                        parent,
                        NodeView {
                            children: old(self)@.nodes[parent].children.remove(i),
                            ..old(self)@.nodes[parent]
                        },
                    ).insert(child, NodeView { parent: None, ..old(self)@.nodes[child] }),
                    events: old(self)@.events + seq![
                        DocumentEvent::NodeRemoved(parent, child),
                        DocumentEvent::ParentChanged(child),
                    ],
                    ..old(self)@
                }),
    {
        let ghost v0 = self@;
        let mut p = self.nodes[parent as usize].take().unwrap();
        let mut idx: usize = 0;
        while idx < p.children.len() && p.children[idx] != child
            invariant
                0 <= idx <= p.children.len(),
                v0.nodes.contains_key(parent),
                p.children@ == v0.nodes[parent].children,
                forall|j: int| 0 <= j < idx ==> p.children@[j] != child,
            decreases p.children.len() - idx,
        {
            idx = idx + 1;
        }
        proof {
            assert(v0.nodes[parent].children.contains(child));
            if idx == p.children.len() {
                let j = choose|j: int| 0 <= j < p.children.len() && p.children@[j] == child;
                assert(false);
            }
        }
        p.children.remove(idx);
        self.nodes[parent as usize] = Some(p);
        let mut c = self.nodes[child as usize].take().unwrap();
        c.parent = None;
        self.nodes[child as usize] = Some(c);
        let ghost i = idx as int;
        proof {
            let old_children = v0.nodes[parent].children;
            let pv = NodeView { children: old_children.remove(i), ..v0.nodes[parent] };
            let cv = NodeView { parent: None, ..v0.nodes[child] };
            let target = v0.nodes.insert(parent, pv).insert(child, cv);
            assert(self@.nodes =~= target);
            lemma_sub_parent(v0, self@);
            assert forall|k: int| 0 <= k < self.nodes.len() implies attrs_ok(
                #[trigger] self.nodes[k],
            ) by {
                assert(attrs_ok(old(self).nodes[k]));
            }
            assert forall|k: int| 0 <= k < self.free.len() implies (#[trigger] self.free[k] as int)
                < self.nodes.len() && self.nodes[self.free[k] as int] is None by {
                assert(old(self).nodes[self.free[k] as int] is None);
            }
            let v = self@;
            assert forall|a: int, b: int| 0 <= a < b < pv.children.len() implies pv.children[a]
                != pv.children[b] by {
                let a0 = if a < i { a } else { a + 1 };
                let b0 = if b < i { b } else { b + 1 };
                assert(pv.children[a] == old_children[a0]);
                assert(pv.children[b] == old_children[b0]);
            }
            assert forall|n: NodeId| #[trigger] v.nodes.contains_key(n) implies {
                &&& v.nodes[n].children.no_duplicates()
                &&& v.nodes[n].parent != Some(n)
                &&& (v.nodes[n].parent matches Some(q) ==> v.nodes.contains_key(q)
                    && v.nodes[q].children.contains(n))
                &&& forall|k: int|
                    0 <= k < v.nodes[n].children.len() ==> v.nodes.contains_key(
                        #[trigger] v.nodes[n].children[k],
                    ) && v.nodes[v.nodes[n].children[k]].parent == Some(n)
            } by {
                assert(v0.nodes.contains_key(n));
                if n != child {
                    if let Some(q) = v.nodes[n].parent {
                        let j = choose|j: int| 0 <= j < v0.nodes[q].children.len() && v0.nodes[q].children[j] == n;
                        if q == parent {
                            assert(j != i);
                            if j < i {
                                assert(pv.children[j] == n);
                            } else {
                                assert(pv.children[j - 1] == n);
                            }
                        } else {
                            assert(v.nodes[q].children[j] == n);
                        }
                    }
                }
                assert forall|k: int| 0 <= k < v.nodes[n].children.len() implies v.nodes.contains_key(
                    #[trigger] v.nodes[n].children[k],
                ) && v.nodes[v.nodes[n].children[k]].parent == Some(n) by {
                    if n == parent {
                        let k0 = if k < i { k } else { k + 1 };
                        assert(v.nodes[n].children[k] == old_children[k0]);
                        assert(old_children[k0] != child);
                    } else {
                        assert(v.nodes[n].children[k] == v0.nodes[n].children[k]);
                        assert(v0.nodes[n].children[k] != child);
                    }
                }
            }
        }
        self.emit(DocumentEvent::NodeRemoved(parent, child));
        self.emit(DocumentEvent::ParentChanged(child));
        proof {
            assert(self@.events =~= v0.events + seq![
                DocumentEvent::NodeRemoved(parent, child),
                DocumentEvent::ParentChanged(child),
            ]);
        }
    }

    /// Gives the slot of a detached, childless node back to the arena; the
    /// listener hears of its destruction. Freeing does not recurse: the
    /// caller detaches and frees the children first.
    pub fn free_node(&mut self, node: NodeId)
        requires
            old(self).wf(),
            old(self)@.nodes.contains_key(node),
            node != old(self)@.root,
            old(self)@.nodes[node].parent is None,
            old(self)@.nodes[node].children.len() == 0,
        ensures
            final(self).wf(),
            final(self)@ == (DocumentView {
                nodes: old(self)@.nodes.remove(node),
                events: old(self)@.events.push(DocumentEvent::NodeDestroyed(node)),
                ..old(self)@
            }),
    {
        let ghost v0 = self@;
        self.nodes[node as usize] = None;
        proof {
            assert forall|k: int| 0 <= k < old(self).free.len() implies old(self).free[k] != node by {
                assert(old(self).nodes[old(self).free[k] as int] is None);
            }
        }
        self.free.push(node);
        proof {
            assert(self@.nodes =~= v0.nodes.remove(node));
            lemma_sub_parent(v0, self@);
            assert forall|k: int| 0 <= k < self.nodes.len() implies attrs_ok(
                #[trigger] self.nodes[k],
            ) by {
                assert(attrs_ok(old(self).nodes[k]));
            }
            assert forall|k: int| 0 <= k < self.free.len() implies (#[trigger] self.free[k] as int)
                < self.nodes.len() && self.nodes[self.free[k] as int] is None by {
                if k < old(self).free.len() {
                    assert(old(self).nodes[self.free[k] as int] is None);
                }
            }
            let v = self@;
            assert forall|n: NodeId| #[trigger] v.nodes.contains_key(n) implies {
                &&& v.nodes[n].children.no_duplicates()
                &&& v.nodes[n].parent != Some(n)
                &&& (v.nodes[n].parent matches Some(q) ==> v.nodes.contains_key(q)
                    && v.nodes[q].children.contains(n))
                &&& forall|k: int|
                    0 <= k < v.nodes[n].children.len() ==> v.nodes.contains_key(
                        #[trigger] v.nodes[n].children[k],
                    ) && v.nodes[v.nodes[n].children[k]].parent == Some(n)
            } by {
                assert(v0.nodes.contains_key(n));
                if let Some(q) = v.nodes[n].parent {
                    assert(q != node);
                }
                assert forall|k: int| 0 <= k < v.nodes[n].children.len() implies v.nodes.contains_key(
                    #[trigger] v.nodes[n].children[k],
                ) && v.nodes[v.nodes[n].children[k]].parent == Some(n) by {
                    assert(v0.nodes[n].children[k] != node);
                }
            }
        }
        self.emit(DocumentEvent::NodeDestroyed(node));
    }

    /// A new, detached text node holding `text`; the listener hears of it.
    pub fn create_text_node(&mut self, text: &str) -> (id: NodeId)
        requires
            old(self).wf(),
            old(self).can_create(),
        ensures
            final(self).wf(),
            !old(self)@.nodes.contains_key(id),
            final(self)@ == (DocumentView {
                nodes: old(self)@.nodes.insert(
                    id,
                    NodeView { content: NodeContent::Text(text@), parent: None, children: seq![] },
                ),
                events: old(self)@.events.push(DocumentEvent::TextNodeCreated(id)),
                ..old(self)@
            }),
    {
        let node = Node { data: NodeData::Text(text.to_owned()), parent: None, children: Vec::new() };
        let id = self.place_node(node);
        proof {
            assert(node_view(node).children =~= seq![]);
        }
        self.emit(DocumentEvent::TextNodeCreated(id));
        id
    }

    /// A new, detached element named `local_name`, without attributes; the
    /// listener hears of it.
    pub fn create_element(&mut self, local_name: &str) -> (id: NodeId)
        requires
            old(self).wf(),
            old(self).can_create(),
        ensures
            final(self).wf(),
            !old(self)@.nodes.contains_key(id),
            final(self)@ == (DocumentView {
                nodes: old(self)@.nodes.insert(
                    id,
                    NodeView {
                        content: NodeContent::Element {
                            local_name: local_name@,
                            attributes: Map::empty(),
                        },
                        parent: None,
                        children: seq![],
                    },
                ),
                events: old(self)@.events.push(DocumentEvent::ElementCreated(id)),
                ..old(self)@
            }),
    {
        let node = Node {
            data: NodeData::Element(
                ElementData { local_name: local_name.to_owned(), attributes: Vec::new() },
            ),
            parent: None,
            children: Vec::new(),
        };
        proof {
            assert(attr_map(Seq::empty()) =~= Map::empty());
        }
        let id = self.place_node(node);
        proof {
            assert(node_view(node).children =~= seq![]);
        }
        self.emit(DocumentEvent::ElementCreated(id));
        id
    }

    /// The text of a text node.
    pub fn text(&self, text_node: NodeId) -> (r: &str)
        requires
            self.wf(),
            self@.is_text(text_node),
        ensures
            self@.nodes[text_node].content == NodeContent::Text(r@),
    {
        match &self.nodes[text_node as usize] {
            Some(Node { data: NodeData::Text(t), .. }) => t.as_str(),
            _ => {
                proof {
                    assert(false);
                }
                ""
            },
        }
    }

    /// The local name of an element.
    pub fn local_name(&self, element: NodeId) -> (r: &str)
        requires
            self.wf(),
            self@.is_element(element),
        ensures
            self@.nodes[element].content->Element_local_name == r@,
    {
        match &self.nodes[element as usize] {
            Some(Node { data: NodeData::Element(e), .. }) => e.local_name.as_str(),
            _ => {
                proof {
                    assert(false);
                }
                ""
            },
        }
    }

    /// Replaces the text of a text node; the listener hears of it.
    pub fn set_text(&mut self, text_node: NodeId, text: &str)
        requires
            old(self).wf(),
            old(self)@.is_text(text_node),
        ensures
            final(self).wf(),
            final(self)@ == (DocumentView {
                nodes: old(self)@.nodes.insert(
                    text_node,
                    NodeView { content: NodeContent::Text(text@), ..old(self)@.nodes[text_node] },
                ),
                events: old(self)@.events.push(DocumentEvent::TextChanged(text_node)),
                ..old(self)@
            }),
    {
        let ghost v0 = self@;
        let Node { data, parent, children } = self.nodes[text_node as usize].take().unwrap();
        self.nodes[text_node as usize] = Some(
            Node { data: NodeData::Text(text.to_owned()), parent, children },
        );
        proof {
            let c = NodeContent::Text(text@);
            assert(self@.nodes =~= v0.nodes.insert(text_node, NodeView { content: c, ..v0.nodes[text_node] }));
            lemma_content_only(v0, self@, text_node, c);
            assert forall|k: int| 0 <= k < self.nodes.len() implies attrs_ok(
                #[trigger] self.nodes[k],
            ) by {
                assert(attrs_ok(old(self).nodes[k]));
            }
            assert forall|k: int| 0 <= k < self.free.len() implies (#[trigger] self.free[k] as int)
                < self.nodes.len() && self.nodes[self.free[k] as int] is None by {
                assert(old(self).nodes[self.free[k] as int] is None);
            }
        }
        self.emit(DocumentEvent::TextChanged(text_node));
    }

    /// The value of attribute `att_name` of an element, if it is set.
    pub fn attribute(&self, element: NodeId, att_name: &str) -> (r: Option<&str>)
        requires
            self.wf(),
            self@.is_element(element),
        ensures
            r is Some == self@.attributes(element).contains_key(att_name@),
            r matches Some(v) ==> v@ == self@.attributes(element)[att_name@],
    {
        match &self.nodes[element as usize] {
            Some(Node { data: NodeData::Element(e), .. }) => {
                proof {
                    assert(attrs_ok(self.nodes[element as int]));
                }
                match find_attr(&e.attributes, att_name) {
                    Some(i) => {
                        proof {
                            lemma_attr_found(e.attributes@, i as int);
                        }
                        Some(e.attributes[i].1.as_str())
                    },
                    None => None,
                }
            },
            _ => {
                proof {
                    assert(false);
                }
                None
            },
        }
    }

    /// Sets attribute `att_name` of an element to `value`; the listener
    /// hears of it.
    pub fn set_attribute(&mut self, element: NodeId, att_name: &str, value: &str)
        requires
            old(self).wf(),
            old(self)@.is_element(element),
        ensures
            final(self).wf(),
            final(self)@ == (DocumentView {
                nodes: old(self)@.nodes.insert(
                    element,
                    NodeView {
                        content: NodeContent::Element {
                            local_name: old(self)@.nodes[element].content->Element_local_name,
                            attributes: old(self)@.attributes(element).insert(att_name@, value@),
                        },
                        ..old(self)@.nodes[element]
                    },
                ),
                events: old(self)@.events.push(DocumentEvent::AttributesChanged(element)),
                ..old(self)@
            }),
    {
        let ghost v0 = self@;
        proof {
            assert(attrs_ok(self.nodes[element as int]));
        }
        let Node { data, parent, children } = self.nodes[element as usize].take().unwrap();
        let data = match data {
            NodeData::Element(e) => {
                let ElementData { local_name, mut attributes } = e;
                let entry = (att_name.to_owned(), value.to_owned());
                match find_attr(&attributes, att_name) {
                    Some(i) => {
                        proof {
                            lemma_attr_update(attributes@, i as int, entry);
                        }
                        attributes[i] = entry;
                    },
                    None => {
                        proof {
                            lemma_attr_push(attributes@, entry);
                        }
                        attributes.push(entry);
                    },
                }
                NodeData::Element(ElementData { local_name, attributes })
            },
            other => other,
        };
        let ghost c = content_of(data);
        self.nodes[element as usize] = Some(Node { data, parent, children });
        proof {
            assert(self@.nodes =~= v0.nodes.insert(element, NodeView { content: c, ..v0.nodes[element] }));
            lemma_content_only(v0, self@, element, c);
            assert forall|k: int| 0 <= k < self.nodes.len() implies attrs_ok(
                #[trigger] self.nodes[k],
            ) by {
                assert(attrs_ok(old(self).nodes[k]));
            }
            assert forall|k: int| 0 <= k < self.free.len() implies (#[trigger] self.free[k] as int)
                < self.nodes.len() && self.nodes[self.free[k] as int] is None by {
                assert(old(self).nodes[self.free[k] as int] is None);
            }
        }
        self.emit(DocumentEvent::AttributesChanged(element));
    }

    /// Removes attribute `att_name` of an element, if it is set; the
    /// listener hears of it either way.
    pub fn remove_attribute(&mut self, element: NodeId, att_name: &str)
        requires
            old(self).wf(),
            old(self)@.is_element(element),
        ensures
            final(self).wf(),
            final(self)@ == (DocumentView {
                nodes: old(self)@.nodes.insert(
                    element,
                    NodeView {
                        content: NodeContent::Element {
                            local_name: old(self)@.nodes[element].content->Element_local_name,
                            attributes: old(self)@.attributes(element).remove(att_name@),
                        },
                        ..old(self)@.nodes[element]
                    },
                ),
                events: old(self)@.events.push(DocumentEvent::AttributesChanged(element)),
                ..old(self)@
            }),
    {
        let ghost v0 = self@;
        proof {
            assert(attrs_ok(self.nodes[element as int]));
        }
        let Node { data, parent, children } = self.nodes[element as usize].take().unwrap();
        let data = match data {
            NodeData::Element(e) => {
                let ElementData { local_name, mut attributes } = e;
                match find_attr(&attributes, att_name) {
                    Some(i) => {
                        proof {
                            lemma_attr_remove(attributes@, i as int);
                        }
                        attributes.remove(i);
                    },
                    None => {
                        proof {
                            assert(attr_map(attributes@).remove(att_name@) =~= attr_map(
                                attributes@,
                            ));
                        }
                    },
                }
                NodeData::Element(ElementData { local_name, attributes })
            },
            other => other,
        };
        let ghost c = content_of(data);
        self.nodes[element as usize] = Some(Node { data, parent, children });
        proof {
            assert(self@.nodes =~= v0.nodes.insert(element, NodeView { content: c, ..v0.nodes[element] }));
            lemma_content_only(v0, self@, element, c);
            assert forall|k: int| 0 <= k < self.nodes.len() implies attrs_ok(
                #[trigger] self.nodes[k],
            ) by {
                assert(attrs_ok(old(self).nodes[k]));
            }
            assert forall|k: int| 0 <= k < self.free.len() implies (#[trigger] self.free[k] as int)
                < self.nodes.len() && self.nodes[self.free[k] as int] is None by {
                assert(old(self).nodes[self.free[k] as int] is None);
            }
        }
        self.emit(DocumentEvent::AttributesChanged(element));
    }
}

} // verus!
