//! The graph: nodes in display order, the links between their ports, the pending link
//! selection, and the per-cycle sweep that keeps them consistent.
use vstd::prelude::*;
use indexmap::IndexMap;
use crate::registry::{distinct_keys, has_key, keys_below, lemma_filter_keys, lemma_filter_subset, same_keys, ParamType};
use crate::registry::{FunctionParam, ParamTypes};
use crate::script::ran;
use crate::widget::{
    changed_at, code_set, commit_sets_value, constant_typed, edit_begun, edit_committed, marked,
    mode_toggled, node_closed, only_runnable_changed, rename_cancelled, rename_typed, ports_changed, rename_begun, rename_committed, renamed, swept_node, valued,
    FunctionWidget, LinkVertex,
};
use crate::value::int_of;
use crate::naming::{function_name, name_for};
use crate::constant::is_digit;
use vstd::string::StrSliceExecFns;

verus! {

/// The entries of the node map, in display order.
pub uninterp spec fn widget_entries(m: IndexMap<u64, FunctionWidget>) -> Seq<(u64, FunctionWidget)>;

/// The predicate under which a node survives a sweep.
pub open spec fn node_is_open(e: (u64, FunctionWidget)) -> bool {
    e.1.is_open
}

/// Relies on `IndexMap::new`: a new map is empty.
#[verifier::external_body]
pub(crate) fn widgets_new() -> (r: IndexMap<u64, FunctionWidget>)
    ensures
        widget_entries(r) == Seq::<(u64, FunctionWidget)>::empty(),
{
    IndexMap::new()
}

/// Relies on `IndexMap::len`: the number of entries.
#[verifier::external_body]
pub(crate) fn widgets_len(m: &IndexMap<u64, FunctionWidget>) -> (r: usize)
    ensures
        r == widget_entries(*m).len(),
{
    m.len()
}

/// Relies on `Index<usize> for IndexMap`: the value of the entry at a position.
#[verifier::external_body]
pub(crate) fn widgets_at(m: &IndexMap<u64, FunctionWidget>, i: usize) -> (r: &FunctionWidget)
    requires
        i < widget_entries(*m).len(),
    ensures
        *r == widget_entries(*m)[i as int].1,
{
    &m[i]
}

/// Relies on `IndexMut<usize> for IndexMap`: the value of the entry at a position, in place.
#[verifier::external_body]
pub(crate) fn widgets_at_mut(m: &mut IndexMap<u64, FunctionWidget>, i: usize) -> (r: &mut FunctionWidget)
    requires
        i < widget_entries(*old(m)).len(),
    ensures
        *r == widget_entries(*old(m))[i as int].1,
        widget_entries(*final(m)) == widget_entries(*old(m)).update(
            i as int,
            (widget_entries(*old(m))[i as int].0, *final(r)),
        ),
{
    &mut m[i]
}

/// Relies on `IndexMap::keys` and `Index<usize> for Keys`: the key of the entry at a position.
#[verifier::external_body]
pub(crate) fn widgets_key_at(m: &IndexMap<u64, FunctionWidget>, i: usize) -> (r: u64)
    requires
        i < widget_entries(*m).len(),
    ensures
        r == widget_entries(*m)[i as int].0,
{
    m.keys()[i]
}

/// Relies on `IndexMap::get_index_of`: the position of the key, if it is present.
#[verifier::external_body]
pub(crate) fn widgets_index_of(m: &IndexMap<u64, FunctionWidget>, k: u64) -> (r: Option<usize>)
    ensures
        match r {
            Some(i) => i < widget_entries(*m).len() && widget_entries(*m)[i as int].0 == k,
            None => !has_key(widget_entries(*m), k),
        },
{
    m.get_index_of(&k)
}

/// Relies on `IndexMap::insert`: a key that is not present goes last.
#[verifier::external_body]
pub(crate) fn widgets_push(m: &mut IndexMap<u64, FunctionWidget>, k: u64, v: FunctionWidget)
    requires
        !has_key(widget_entries(*old(m)), k),
    ensures
        widget_entries(*final(m)) == widget_entries(*old(m)).push((k, v)),
{
    m.insert(k, v);
}

/// Relies on `IndexMap::retain`: the entries kept stay in order.
/// Keeps the nodes that are open.
#[verifier::external_body]
pub(crate) fn widgets_retain_open(m: &mut IndexMap<u64, FunctionWidget>)
    ensures
        widget_entries(*final(m)) == widget_entries(*old(m)).filter(|e: (u64, FunctionWidget)| node_is_open(e)),
{
    m.retain(|_, w| w.is_open);
}

/// A directed edge from an output port of one node to an input port of another.
#[derive(Clone, Copy, Debug, PartialEq, Eq, Structural)]
pub struct Link {
    pub start: LinkVertex,
    pub end: LinkVertex,
    pub should_be_deleted: bool,
}

/// Whether the vertex names a live port of the registry `dir` on a live node.
pub open spec fn port_in(nodes: Seq<(u64, FunctionWidget)>, v: LinkVertex, dir: ParamType) -> bool {
    exists|i: int|
        0 <= i < nodes.len() && #[trigger] nodes[i].0 == v.function_id
            && has_key(nodes[i].1.runnable.registry(dir), v.param_id)
}

/// Which registry the vertex resolves into, if it resolves at all.
pub open spec fn vertex_dir(nodes: Seq<(u64, FunctionWidget)>, v: LinkVertex) -> Option<ParamType> {
    if port_in(nodes, v, ParamType::Output) {
        Some(ParamType::Output)
    } else if port_in(nodes, v, ParamType::Input) {
        Some(ParamType::Input)
    } else {
        None
    }
}

/// Whether both ends of a link resolve: its start to an output, its end to an input.
pub open spec fn resolves(nodes: Seq<(u64, FunctionWidget)>, l: Link) -> bool {
    port_in(nodes, l.start, ParamType::Output) && port_in(nodes, l.end, ParamType::Input)
}

/// The link that two clicked ports make, first `a` then `b`: none on one node, none unless
/// one is an output and the other an input; the output always starts it.
pub open spec fn link_for(nodes: Seq<(u64, FunctionWidget)>, a: LinkVertex, b: LinkVertex) -> Option<Link> {
    if a.function_id == b.function_id {
        None
    } else {
        match (vertex_dir(nodes, a), vertex_dir(nodes, b)) {
            (Some(ParamType::Output), Some(ParamType::Input)) => Some(Link { start: a, end: b, should_be_deleted: false }),
            (Some(ParamType::Input), Some(ParamType::Output)) => Some(Link { start: b, end: a, should_be_deleted: false }),
            _ => None,
        }
    }
}

/// No link starts and ends on the same node.
pub open spec fn no_self_links(links: Seq<Link>) -> bool {
    forall|k: int| 0 <= k < links.len() ==> (#[trigger] links[k]).start.function_id != links[k].end.function_id
}

/// The graph that the editor shows and edits.
/// Node ids are issued from `next_function_id` upwards and never handed out twice;
/// `last_rect_id` numbers the default names of new nodes.
#[derive(Debug)]
pub struct TemplateApp {
    pub functions: IndexMap<u64, FunctionWidget>,
    pub links: Vec<Link>,
    pub pending: Option<LinkVertex>,
    pub last_rect_id: u64,
    pub next_function_id: u64,
}

impl TemplateApp {
    pub open spec fn nodes(&self) -> Seq<(u64, FunctionWidget)> {
        widget_entries(self.functions)
    }

    /// Node ids are unique and below the next id; each node is keyed by its own id and
    /// keeps its port ids unique; no link joins a node to itself; a pending selection names a
    /// node id already issued.
    pub open spec fn wf(&self) -> bool {
        &&& distinct_keys(self.nodes())
        &&& keys_below(self.nodes(), self.next_function_id)
        &&& forall|i: int| 0 <= i < self.nodes().len() ==> (#[trigger] self.nodes()[i]).1.wf()
            && self.nodes()[i].1.id == self.nodes()[i].0
        &&& no_self_links(self.links@)
        &&& self.pending matches Some(p) ==> p.function_id < self.next_function_id
    }

    /// Whether a click on the vertex is taken: its port exists and is not being renamed.
    pub open spec fn clickable(&self, v: LinkVertex) -> bool {
        &&& vertex_dir(self.nodes(), v) is Some
        &&& forall|i: int| 0 <= i < self.nodes().len() && (#[trigger] self.nodes()[i]).0 == v.function_id
            ==> !(self.nodes()[i].1.rename_options matches Some(o) && o.rename_id == v.param_id)
    }

    /// `b` is `a` after a click on the port `v`.
    pub open spec fn clicked(a: TemplateApp, v: LinkVertex, b: TemplateApp) -> bool {
        &&& b.functions == a.functions
        &&& b.last_rect_id == a.last_rect_id
        &&& b.next_function_id == a.next_function_id
        &&& if !a.clickable(v) {
            b.pending == a.pending && b.links@ == a.links@
        } else {
            match a.pending {
                None => b.pending == Some(v) && b.links@ == a.links@,
                Some(p) => if p == v {
                    b.pending == a.pending && b.links@ == a.links@
                } else {
                    &&& b.pending is None
                    &&& b.links@ == match link_for(a.nodes(), p, v) {
                        Some(l) => a.links@.push(l),
                        None => a.links@,
                    }
                },
            }
        }
    }

    /// On a graph that satisfies `wf`, the node found at position `i` decides where a
    /// vertex on it resolves.
    proof fn lemma_port_at(&self, i: int, v: LinkVertex, dir: ParamType)
        requires
            self.wf(),
            0 <= i < self.nodes().len(),
            self.nodes()[i].0 == v.function_id,
        ensures
            port_in(self.nodes(), v, dir) == has_key(self.nodes()[i].1.runnable.registry(dir), v.param_id),
    {
        if port_in(self.nodes(), v, dir) {
            let j = choose|j: int|
                0 <= j < self.nodes().len() && #[trigger] self.nodes()[j].0 == v.function_id
                    && has_key(self.nodes()[j].1.runnable.registry(dir), v.param_id);
            assert(i == j);
        }
    }

    /// Which registry a vertex resolves into, found through the node and port maps.
    pub fn vertex_direction(&self, v: LinkVertex) -> (r: Option<ParamType>)
        requires
            self.wf(),
        ensures
            r == vertex_dir(self.nodes(), v),
    {
        match widgets_index_of(&self.functions, v.function_id) {
            Some(i) => {
                let w = widgets_at(&self.functions, i);
                proof {
                    self.lemma_port_at(i as int, v, ParamType::Output);
                    self.lemma_port_at(i as int, v, ParamType::Input);
                }
                w.runnable.param_direction(v.param_id)
            },
            None => None,
        }
    }

    /// Whether a click on the vertex is taken, found through the node and port maps.
    fn is_clickable(&self, v: LinkVertex) -> (r: bool)
        requires
            self.wf(),
        ensures
            r == self.clickable(v),
    {
        match widgets_index_of(&self.functions, v.function_id) {
            Some(i) => {
                let w = widgets_at(&self.functions, i);
                let renaming = match &w.rename_options {
                    Some(o) => o.rename_id == v.param_id,
                    None => false,
                };
                proof {
                    self.lemma_port_at(i as int, v, ParamType::Output);
                    self.lemma_port_at(i as int, v, ParamType::Input);
                    assert forall|j: int| 0 <= j < self.nodes().len() && (#[trigger] self.nodes()[j]).0 == v.function_id
                        implies j == i by {}
                }
                let dir = w.runnable.param_direction(v.param_id);
                dir.is_some() && !renaming
            },
            None => false,
        }
    }

    /// Handles a click on the port `v`, the link controller's one input.
    /// With no selection pending, the port becomes the pending selection. A click on another
    /// port ends the selection: when the two lie on different nodes and one is an output and
    /// the other an input, a link from the output to the input is appended; otherwise nothing
    /// is added. A click on a missing port, or on one being renamed, is ignored.
    pub fn click_param(&mut self, v: LinkVertex)
        requires
            old(self).wf(),
        ensures
            final(self).wf(),
            TemplateApp::clicked(*old(self), v, *final(self)),
    {
        if !self.is_clickable(v) {
            return;
        }
        match self.pending {
            None => {
                self.pending = Some(v);
            },
            Some(p) => {
                if p == v {
                    return;
                }
                self.pending = None;
                if p.function_id != v.function_id {
                    let dp = self.vertex_direction(p);
                    let dv = self.vertex_direction(v);
                    match (dp, dv) {
                        (Some(ParamType::Output), Some(ParamType::Input)) => {
                            self.links.push(Link { start: p, end: v, should_be_deleted: false });
                        },
                        (Some(ParamType::Input), Some(ParamType::Output)) => {
                            self.links.push(Link { start: v, end: p, should_be_deleted: false });
                        },
                        _ => {},
                    }
                }
            },
        }
    }

    /// Drops the pending selection, as the Escape key does; no link is made or removed.
    pub fn cancel_link_if_esc(&mut self)
        ensures
            final(self).pending is None,
            final(self).links@ == old(self).links@,
            final(self).functions == old(self).functions,
            final(self).last_rect_id == old(self).last_rect_id,
            final(self).next_function_id == old(self).next_function_id,
    {
        self.pending = None;
    }
}

/// Whether a link is kept by a sweep that left the nodes `nodes`.
pub open spec fn link_survives(nodes: Seq<(u64, FunctionWidget)>, l: Link) -> bool {
    resolves(nodes, l) && !l.should_be_deleted
}

impl TemplateApp {
    /// `b` is `a` after a sweep: closed nodes are gone, the ports marked for deletion are
    /// gone from the nodes left, then every link that no longer resolves, or that was marked
    /// for deletion, is gone, and so is a pending selection whose port is gone.
    pub open spec fn swept(a: TemplateApp, b: TemplateApp) -> bool {
        let open = a.nodes().filter(|e: (u64, FunctionWidget)| node_is_open(e));
        &&& b.nodes().len() == open.len()
        &&& forall|i: int| 0 <= i < open.len() ==> (#[trigger] b.nodes()[i]).0 == open[i].0
            && swept_node(open[i].1, b.nodes()[i].1)
        &&& b.links@ == a.links@.filter(|l: Link| link_survives(b.nodes(), l))
        &&& b.pending == match a.pending {
            Some(p) => if vertex_dir(b.nodes(), p) is Some { a.pending } else { None },
            None => None,
        }
        &&& b.last_rect_id == a.last_rect_id
        &&& b.next_function_id == a.next_function_id
    }

    /// On a graph that satisfies `wf`, a vertex resolves into at most one registry.
    pub proof fn lemma_dir_exclusive(&self, v: LinkVertex)
        requires
            self.wf(),
        ensures
            !(port_in(self.nodes(), v, ParamType::Output) && port_in(self.nodes(), v, ParamType::Input)),
    {
        if port_in(self.nodes(), v, ParamType::Output) && port_in(self.nodes(), v, ParamType::Input) {
            let i = choose|i: int|
                0 <= i < self.nodes().len() && #[trigger] self.nodes()[i].0 == v.function_id
                    && has_key(self.nodes()[i].1.runnable.registry(ParamType::Output), v.param_id);
            self.lemma_port_at(i, v, ParamType::Input);
            let r = self.nodes()[i].1.runnable;
            let a = choose|a: int| 0 <= a < r.outs().len() && #[trigger] r.outs()[a].0 == v.param_id;
            let b = choose|b: int| 0 <= b < r.ins().len() && #[trigger] r.ins()[b].0 == v.param_id;
            assert(r.ins()[b].0 != r.outs()[a].0);
        }
    }

    /// Whether a link is kept by a sweep, found through the node and port maps.
    fn survives(&self, l: Link) -> (r: bool)
        requires
            self.wf(),
        ensures
            r == link_survives(self.nodes(), l),
    {
        proof {
            self.lemma_dir_exclusive(l.end);
        }
        let ds = self.vertex_direction(l.start);
        let de = self.vertex_direction(l.end);
        !l.should_be_deleted && matches!(ds, Some(ParamType::Output)) && matches!(de, Some(ParamType::Input))
    }

    /// The per-cycle sweep. Closed nodes go first; their ports go with them, so removing
    /// marked ports before or after them leaves the same graph. Then the marked ports go, then
    /// the links that no longer resolve or were marked for deletion, then a pending selection
    /// whose port is gone.
    pub fn sweep(&mut self)
        requires
            old(self).wf(),
        ensures
            final(self).wf(),
            TemplateApp::swept(*old(self), *final(self)),
    {
        let ghost a = *self;
        widgets_retain_open(&mut self.functions);
        let ghost open = self.nodes();
        proof {
            lemma_filter_keys(a.nodes(), |e: (u64, FunctionWidget)| node_is_open(e));
            assert forall|i: int| 0 <= i < open.len() implies #[trigger] open[i].0 < self.next_function_id
                && open[i].1.wf() && open[i].1.id == open[i].0 by {
                let j = choose|j: int| 0 <= j < a.nodes().len() && a.nodes()[j] == open[i];
                assert(a.nodes()[j].0 < a.next_function_id);
            }
        }
        let n = widgets_len(&self.functions);
        let mut i: usize = 0;
        while i < n
            invariant
                n == open.len(),
                i <= n,
                same_keys(open, self.nodes()),
                distinct_keys(open),
                keys_below(open, self.next_function_id),
                forall|k: int| 0 <= k < open.len() ==> (#[trigger] open[k]).1.wf() && open[k].1.id == open[k].0,
                forall|k: int| 0 <= k < i ==> swept_node(open[k].1, (#[trigger] self.nodes()[k]).1)
                    && self.nodes()[k].1.wf(),
                forall|k: int| i <= k < n ==> #[trigger] self.nodes()[k] == open[k],
                self.links == a.links,
                self.pending == a.pending,
                self.last_rect_id == a.last_rect_id,
                self.next_function_id == a.next_function_id,
            decreases n - i,
        {
            let w = widgets_at_mut(&mut self.functions, i);
            w.sweep_params();
            i += 1;
        }
        assert(self.wf()) by {
            assert forall|x: int, y: int| 0 <= x < self.nodes().len() && 0 <= y < self.nodes().len() && x != y
                implies #[trigger] self.nodes()[x].0 != #[trigger] self.nodes()[y].0 by {
                assert(open[x].0 != open[y].0);
            }
            assert forall|x: int| 0 <= x < self.nodes().len() implies #[trigger] self.nodes()[x].0 < self.next_function_id by {
                assert(open[x].0 < self.next_function_id);
            }
        }
        let ghost links0 = self.links@;
        let ghost nodes1 = self.nodes();
        let mut kept: Vec<Link> = Vec::new();
        let mut j: usize = 0;
        while j < self.links.len()
            invariant
                self.wf(),
                self.nodes() == nodes1,
                self.links@ == links0,
                j <= links0.len(),
                kept@ == links0.take(j as int).filter(|l: Link| link_survives(nodes1, l)),
            decreases links0.len() - j,
        {
            let l = self.links[j];
            let keep = self.survives(l);
            proof {
                reveal(Seq::filter);
                assert(links0.take(j + 1).drop_last() =~= links0.take(j as int));
                assert(links0.take(j + 1).last() == l);
            }
            if keep {
                kept.push(l);
            }
            j += 1;
        }
        assert(links0.take(links0.len() as int) =~= links0);
        proof {
            lemma_filter_subset(links0, |l: Link| link_survives(nodes1, l));
            assert forall|k: int| 0 <= k < kept@.len() implies (#[trigger] kept@[k]).start.function_id != kept@[k].end.function_id by {
                let m = choose|m: int| 0 <= m < links0.len() && links0[m] == kept@[k];
            }
        }
        self.links = kept;
        let drop_pending = match self.pending {
            Some(p) => self.vertex_direction(p).is_none(),
            None => false,
        };
        if drop_pending {
            self.pending = None;
        }
    }
}

impl TemplateApp {
    /// After the node at position `i` changed in place, keeping its id and its well-formedness,
    /// the graph is still well-formed and no other node has that id.
    proof fn lemma_node_updated(a: TemplateApp, b: TemplateApp, i: int)
        requires
            a.wf(),
            0 <= i < a.nodes().len(),
            b.next_function_id == a.next_function_id,
            b.links == a.links,
            b.pending == a.pending,
            b.nodes() == a.nodes().update(i, (a.nodes()[i].0, b.nodes()[i].1)),
            b.nodes()[i].1.wf(),
            b.nodes()[i].1.id == a.nodes()[i].1.id,
        ensures
            b.wf(),
            same_keys(a.nodes(), b.nodes()),
            forall|j: int| 0 <= j < a.nodes().len() && j != i ==> (#[trigger] a.nodes()[j]).0 != a.nodes()[i].0
                && b.nodes()[j] == a.nodes()[j],
    {
        assert forall|j: int| 0 <= j < a.nodes().len() && j != i implies (#[trigger] a.nodes()[j]).0 != a.nodes()[i].0 by {}
        assert forall|x: int, y: int| 0 <= x < b.nodes().len() && 0 <= y < b.nodes().len() && x != y
            implies #[trigger] b.nodes()[x].0 != #[trigger] b.nodes()[y].0 by {
            assert(a.nodes()[x].0 != a.nodes()[y].0);
        }
        assert forall|x: int| 0 <= x < b.nodes().len() implies #[trigger] b.nodes()[x].0 < b.next_function_id by {
            assert(a.nodes()[x].0 < a.next_function_id);
        }
    }

    /// Appends a new port with the default name to the registry `dir` of the node `node`.
    /// Gives its id, or `None`, changing nothing, when the node is missing or out of port ids.
    pub fn add_param(&mut self, node: u64, dir: ParamType) -> (r: Option<u64>)
        requires
            old(self).wf(),
        ensures
            final(self).wf(),
            final(self).links == old(self).links,
            final(self).pending == old(self).pending,
            final(self).last_rect_id == old(self).last_rect_id,
            final(self).next_function_id == old(self).next_function_id,
            same_keys(old(self).nodes(), final(self).nodes()),
            r is None ==> final(self).nodes() == old(self).nodes(),
            !has_key(old(self).nodes(), node) ==> r is None,
            forall|i: int| 0 <= i < old(self).nodes().len() && (#[trigger] old(self).nodes()[i]).0 == node ==> {
                let a = old(self).nodes()[i].1;
                let b = final(self).nodes()[i].1;
                &&& a.runnable.next_param_id == u64::MAX ==> r is None
                &&& a.runnable.next_param_id < u64::MAX ==> {
                    &&& r == Some(a.runnable.next_param_id)
                    &&& only_runnable_changed(a, b)
                    &&& b.runnable.next_param_id == a.runnable.next_param_id + 1
                    &&& b.runnable.registry(dir).drop_last() == a.runnable.registry(dir)
                    &&& b.runnable.registry(dir).len() == a.runnable.registry(dir).len() + 1
                    &&& b.runnable.registry(dir).last().0 == a.runnable.next_param_id
                    &&& b.runnable.registry(dir).last().1.param_name@ == "New..."@
                    &&& b.runnable.registry(dir).last().1.param_kind == ParamTypes::String
                    &&& b.runnable.registry(dir).last().1.last_value is None
                    &&& !b.runnable.registry(dir).last().1.should_be_deleted
                    &&& dir == ParamType::Input ==> b.runnable.outs() == a.runnable.outs()
                    &&& dir == ParamType::Output ==> b.runnable.ins() == a.runnable.ins()
                }
            },
            forall|i: int| 0 <= i < old(self).nodes().len() && (#[trigger] old(self).nodes()[i]).0 != node
                ==> final(self).nodes()[i] == old(self).nodes()[i],
    {
        match widgets_index_of(&self.functions, node) {
            Some(i) => {
                let ghost a = *self;
                let w = widgets_at_mut(&mut self.functions, i);
                let r = w.runnable.add_param(dir);
                proof {
                    TemplateApp::lemma_node_updated(a, *self, i as int);
                    if r is None {
                        assert(self.nodes() =~= a.nodes());
                    }
                }
                r
            },
            None => None,
        }
    }

    /// Marks the port that `v` names for deletion; it goes at the next sweep.
    /// Gives whether the port was found.
    pub fn delete_param(&mut self, v: LinkVertex) -> (r: bool)
        requires
            old(self).wf(),
        ensures
            final(self).wf(),
            r == (vertex_dir(old(self).nodes(), v) is Some),
            final(self).links == old(self).links,
            final(self).pending == old(self).pending,
            final(self).last_rect_id == old(self).last_rect_id,
            final(self).next_function_id == old(self).next_function_id,
            changed_at(old(self).nodes(), final(self).nodes(), v.function_id,
                |a: FunctionWidget, b: FunctionWidget| ports_changed(a, b, v.param_id,
                    |p: FunctionParam, q: FunctionParam| marked(p, q))),
    {
        match widgets_index_of(&self.functions, v.function_id) {
            Some(i) => {
                let ghost a = *self;
                proof {
                    a.lemma_port_at(i as int, v, ParamType::Output);
                    a.lemma_port_at(i as int, v, ParamType::Input);
                }
                let w = widgets_at_mut(&mut self.functions, i);
                let r = w.runnable.delete_param(v.param_id);
                proof { TemplateApp::lemma_node_updated(a, *self, i as int); }
                r
            },
            None => false,
        }
    }

    /// Sets the display name of the port that `v` names; its id, and so every link through
    /// it, stays. Gives whether the port was found.
    pub fn rename_param(&mut self, v: LinkVertex, name: &str) -> (r: bool)
        requires
            old(self).wf(),
        ensures
            final(self).wf(),
            r == (vertex_dir(old(self).nodes(), v) is Some),
            final(self).links == old(self).links,
            final(self).pending == old(self).pending,
            final(self).last_rect_id == old(self).last_rect_id,
            final(self).next_function_id == old(self).next_function_id,
            changed_at(old(self).nodes(), final(self).nodes(), v.function_id,
                |a: FunctionWidget, b: FunctionWidget| ports_changed(a, b, v.param_id,
                    |p: FunctionParam, q: FunctionParam| renamed(p, q, name@))),
    {
        match widgets_index_of(&self.functions, v.function_id) {
            Some(i) => {
                let ghost a = *self;
                proof {
                    a.lemma_port_at(i as int, v, ParamType::Output);
                    a.lemma_port_at(i as int, v, ParamType::Input);
                }
                let w = widgets_at_mut(&mut self.functions, i);
                let r = w.runnable.rename_param(v.param_id, name);
                proof { TemplateApp::lemma_node_updated(a, *self, i as int); }
                r
            },
            None => false,
        }
    }

    /// Sets the port that `v` names to hold the integer `n`. Gives whether the port was found.
    pub fn set_constant(&mut self, v: LinkVertex, n: i64) -> (r: bool)
        requires
            old(self).wf(),
        ensures
            final(self).wf(),
            r == (vertex_dir(old(self).nodes(), v) is Some),
            final(self).links == old(self).links,
            final(self).pending == old(self).pending,
            final(self).last_rect_id == old(self).last_rect_id,
            final(self).next_function_id == old(self).next_function_id,
            changed_at(old(self).nodes(), final(self).nodes(), v.function_id,
                |a: FunctionWidget, b: FunctionWidget| ports_changed(a, b, v.param_id,
                    |p: FunctionParam, q: FunctionParam| valued(p, q, Some(int_of(n))))),
    {
        match widgets_index_of(&self.functions, v.function_id) {
            Some(i) => {
                let ghost a = *self;
                proof {
                    a.lemma_port_at(i as int, v, ParamType::Output);
                    a.lemma_port_at(i as int, v, ParamType::Input);
                }
                let w = widgets_at_mut(&mut self.functions, i);
                let r = w.runnable.set_constant(v.param_id, n);
                proof { TemplateApp::lemma_node_updated(a, *self, i as int); }
                r
            },
            None => false,
        }
    }

    /// Runs the script of the node `node` (see `Runnable::run`). Gives whether the node was found.
    pub fn run_function(&mut self, node: u64) -> (r: bool)
        requires
            old(self).wf(),
        ensures
            final(self).wf(),
            r == has_key(old(self).nodes(), node),
            final(self).links == old(self).links,
            final(self).pending == old(self).pending,
            final(self).last_rect_id == old(self).last_rect_id,
            final(self).next_function_id == old(self).next_function_id,
            changed_at(old(self).nodes(), final(self).nodes(), node,
                |a: FunctionWidget, b: FunctionWidget| only_runnable_changed(a, b) && ran(a.runnable, b.runnable)),
    {
        match widgets_index_of(&self.functions, node) {
            Some(i) => {
                let ghost a = *self;
                let w = widgets_at_mut(&mut self.functions, i);
                w.runnable.run();
                proof { TemplateApp::lemma_node_updated(a, *self, i as int); }
                true
            },
            None => false,
        }
    }

    /// Closes the node `node`; the next sweep removes it with every link that touches it.
    /// Gives whether the node was found.
    pub fn close_function(&mut self, node: u64) -> (r: bool)
        requires
            old(self).wf(),
        ensures
            final(self).wf(),
            r == has_key(old(self).nodes(), node),
            final(self).links == old(self).links,
            final(self).pending == old(self).pending,
            final(self).last_rect_id == old(self).last_rect_id,
            final(self).next_function_id == old(self).next_function_id,
            changed_at(old(self).nodes(), final(self).nodes(), node,
                |a: FunctionWidget, b: FunctionWidget| node_closed(a, b)),
    {
        match widgets_index_of(&self.functions, node) {
            Some(i) => {
                let ghost a = *self;
                let w = widgets_at_mut(&mut self.functions, i);
                w.is_open = false;
                proof { TemplateApp::lemma_node_updated(a, *self, i as int); }
                true
            },
            None => false,
        }
    }

    /// Marks the link at position `index` for deletion, as its delete icon does; the next
    /// sweep removes it. Gives whether there was such a link.
    pub fn delete_link(&mut self, index: usize) -> (r: bool)
        requires
            old(self).wf(),
        ensures
            final(self).wf(),
            r == (index < old(self).links@.len()),
            final(self).functions == old(self).functions,
            final(self).pending == old(self).pending,
            final(self).last_rect_id == old(self).last_rect_id,
            final(self).next_function_id == old(self).next_function_id,
            r ==> final(self).links@ == old(self).links@.update(index as int,
                Link { should_be_deleted: true, ..old(self).links@[index as int] }),
            !r ==> final(self).links@ == old(self).links@,
    {
        if index < self.links.len() {
            let mut l = self.links[index];
            l.should_be_deleted = true;
            self.links.set(index, l);
            assert(no_self_links(self.links@)) by {
                assert forall|k: int| 0 <= k < self.links@.len() implies (#[trigger] self.links@[k]).start.function_id
                    != self.links@[k].end.function_id by {
                    if k != index {
                        assert(self.links@[k] == old(self).links@[k]);
                    }
                }
            }
            true
        } else {
            false
        }
    }
}

impl TemplateApp {
    /// Opens a rename session on the port that `v` names, closing any session open on its
    /// node; a pending selection of that same port is dropped. Gives whether the port
    /// was found; if it was not, nothing changes.
    pub fn begin_rename(&mut self, v: LinkVertex) -> (r: bool)
        requires
            old(self).wf(),
        ensures
            final(self).wf(),
            r == (vertex_dir(old(self).nodes(), v) is Some),
            final(self).links == old(self).links,
            final(self).pending == if r && old(self).pending == Some(v) { None } else { old(self).pending },
            final(self).last_rect_id == old(self).last_rect_id,
            final(self).next_function_id == old(self).next_function_id,
            !r ==> final(self).nodes() == old(self).nodes(),
            r ==> changed_at(old(self).nodes(), final(self).nodes(), v.function_id,
                |a: FunctionWidget, b: FunctionWidget| rename_begun(a, b, v.param_id)),
    {
        match widgets_index_of(&self.functions, v.function_id) {
            Some(i) => {
                let ghost a = *self;
                proof {
                    a.lemma_port_at(i as int, v, ParamType::Output);
                    a.lemma_port_at(i as int, v, ParamType::Input);
                }
                let w = widgets_at_mut(&mut self.functions, i);
                let r = w.begin_rename(v.param_id);
                proof {
                    TemplateApp::lemma_node_updated(a, *self, i as int);
                    if !r {
                        assert(self.nodes() =~= a.nodes());
                    }
                }
                if r && self.pending == Some(v) {
                    self.pending = None;
                }
                r
            },
            None => false,
        }
    }

    /// Replaces the text of the rename session open on the node `node`, if there is one.
    pub fn edit_rename(&mut self, node: u64, text: String)
        requires
            old(self).wf(),
        ensures
            final(self).wf(),
            final(self).links == old(self).links,
            final(self).pending == old(self).pending,
            final(self).last_rect_id == old(self).last_rect_id,
            final(self).next_function_id == old(self).next_function_id,
            changed_at(old(self).nodes(), final(self).nodes(), node,
                |a: FunctionWidget, b: FunctionWidget| rename_typed(a, b, text@)),
    {
        match widgets_index_of(&self.functions, node) {
            Some(i) => {
                let ghost a = *self;
                let w = widgets_at_mut(&mut self.functions, i);
                w.edit_rename(text);
                proof { TemplateApp::lemma_node_updated(a, *self, i as int); }
            },
            None => {},
        }
    }

    /// Closes the rename session open on the node `node` and writes its text as the port's
    /// name, as Enter or leaving the field does. Gives whether a name was written.
    pub fn commit_rename(&mut self, node: u64) -> (r: bool)
        requires
            old(self).wf(),
        ensures
            final(self).wf(),
            final(self).links == old(self).links,
            final(self).pending == old(self).pending,
            final(self).last_rect_id == old(self).last_rect_id,
            final(self).next_function_id == old(self).next_function_id,
            changed_at(old(self).nodes(), final(self).nodes(), node,
                |a: FunctionWidget, b: FunctionWidget| rename_committed(a, b)),
            forall|i: int| 0 <= i < old(self).nodes().len() && (#[trigger] old(self).nodes()[i]).0 == node ==>
                (r <==> (old(self).nodes()[i].1.rename_options matches Some(o)
                    && old(self).nodes()[i].1.runnable.direction_of(o.rename_id) is Some)),
            !has_key(old(self).nodes(), node) ==> !r,
    {
        match widgets_index_of(&self.functions, node) {
            Some(i) => {
                let ghost a = *self;
                let w = widgets_at_mut(&mut self.functions, i);
                let r = w.commit_rename();
                proof { TemplateApp::lemma_node_updated(a, *self, i as int); }
                r
            },
            None => false,
        }
    }

    /// Closes the rename session open on the node `node` and discards its text, as Escape
    /// does; every name stays as it was.
    pub fn cancel_rename(&mut self, node: u64)
        requires
            old(self).wf(),
        ensures
            final(self).wf(),
            final(self).links == old(self).links,
            final(self).pending == old(self).pending,
            final(self).last_rect_id == old(self).last_rect_id,
            final(self).next_function_id == old(self).next_function_id,
            changed_at(old(self).nodes(), final(self).nodes(), node,
                |a: FunctionWidget, b: FunctionWidget| rename_cancelled(a, b)),
    {
        match widgets_index_of(&self.functions, node) {
            Some(i) => {
                let ghost a = *self;
                let w = widgets_at_mut(&mut self.functions, i);
                w.cancel_rename();
                proof { TemplateApp::lemma_node_updated(a, *self, i as int); }
            },
            None => {},
        }
    }
}

impl TemplateApp {
    /// Appends a new open node with the default function, named after `last_rect_id`, under
    /// a fresh id, and advances both counters. Gives its id, or `None`, changing nothing,
    /// once a counter is used up.
    pub fn add_function(&mut self) -> (r: Option<u64>)
        requires
            old(self).wf(),
        ensures
            final(self).wf(),
            final(self).links == old(self).links,
            final(self).pending == old(self).pending,
            old(self).next_function_id == u64::MAX || old(self).last_rect_id == u64::MAX ==> {
                &&& r is None
                &&& final(self).nodes() == old(self).nodes()
                &&& final(self).last_rect_id == old(self).last_rect_id
                &&& final(self).next_function_id == old(self).next_function_id
            },
            old(self).next_function_id < u64::MAX && old(self).last_rect_id < u64::MAX ==> {
                let w = final(self).nodes().last().1;
                &&& r == Some(old(self).next_function_id)
                &&& final(self).nodes().len() == old(self).nodes().len() + 1
                &&& final(self).nodes().drop_last() == old(self).nodes()
                &&& final(self).nodes().last().0 == old(self).next_function_id
                &&& w.id == old(self).next_function_id
                &&& w.runnable.name@ == function_name(old(self).last_rect_id as nat)
                &&& w.is_open
                &&& w.runnable.ins().len() == 3
                &&& w.runnable.outs().len() == 2
                &&& w.rename_options is None
                &&& !(final(self).pending matches Some(p) && p.function_id == old(self).next_function_id)
                &&& final(self).last_rect_id == old(self).last_rect_id + 1
                &&& final(self).next_function_id == old(self).next_function_id + 1
            },
    {
        if self.next_function_id == u64::MAX || self.last_rect_id == u64::MAX {
            return None;
        }
        let id = self.next_function_id;
        let w = FunctionWidget::default_with_pos(id, name_for(self.last_rect_id));
        let ghost before = self.nodes();
        assert(!has_key(before, id)) by {
            if has_key(before, id) {
                let i = choose|i: int| 0 <= i < before.len() && #[trigger] before[i].0 == id;
                assert(before[i].0 < id);
            }
        }
        widgets_push(&mut self.functions, id, w);
        self.next_function_id = id + 1;
        self.last_rect_id = self.last_rect_id + 1;
        proof {
            let after = self.nodes();
            assert(after.drop_last() =~= before);
            assert forall|x: int, y: int| 0 <= x < after.len() && 0 <= y < after.len() && x != y
                implies #[trigger] after[x].0 != #[trigger] after[y].0 by {
                if x < before.len() && y < before.len() {
                    assert(before[x].0 != before[y].0);
                } else if x < before.len() {
                    assert(before[x].0 < id);
                } else {
                    assert(before[y].0 < id);
                }
            }
            assert forall|x: int| 0 <= x < after.len() implies #[trigger] after[x].0 < id + 1 by {
                if x < before.len() {
                    assert(before[x].0 < id);
                }
            }
            assert forall|x: int| 0 <= x < after.len() implies (#[trigger] after[x]).1.wf()
                && after[x].1.id == after[x].0 by {
                if x < before.len() {
                    assert(after[x] == before[x]);
                }
            }
        }
        Some(id)
    }
}

/// The value of the last character of a name, when it is a decimal digit.
pub open spec fn last_digit(s: Seq<char>) -> Option<u64> {
    if s.len() > 0 && is_digit(s.last()) {
        Some((s.last() as int - '0' as int) as u64)
    } else {
        None
    }
}

impl TemplateApp {
    /// The graph the editor starts with: two nodes, the first output of the first linked to
    /// the first input of the second.
    pub open spec fn initial(r: TemplateApp) -> bool {
        &&& r.wf()
        &&& r.nodes().len() == 2
        &&& r.nodes()[0].0 == 0
        &&& r.nodes()[1].0 == 1
        &&& r.nodes()[0].1.runnable.name@ == function_name(0)
        &&& r.nodes()[1].1.runnable.name@ == function_name(1)
        &&& r.nodes()[0].1.runnable.outs()[0].0 == 3
        &&& r.nodes()[0].1.runnable.outs()[0].1.param_name@ == "Output1"@
        &&& r.nodes()[1].1.runnable.ins()[0].0 == 0
        &&& r.nodes()[1].1.runnable.ins()[0].1.param_name@ == "Input1"@
        &&& r.nodes()[0].1.runnable.ins().len() == 3 && r.nodes()[0].1.runnable.outs().len() == 2
        &&& r.nodes()[1].1.runnable.ins().len() == 3 && r.nodes()[1].1.runnable.outs().len() == 2
        &&& r.nodes()[0].1.rename_options is None
        &&& r.nodes()[1].1.rename_options is None
        &&& r.links@ == seq![Link {
            start: LinkVertex { function_id: 0, param_id: 3 },
            end: LinkVertex { function_id: 1, param_id: 0 },
            should_be_deleted: false,
        }]
        &&& r.pending is None
        &&& r.last_rect_id == 3
        &&& r.next_function_id == 2
    }

    /// Whether the graph satisfies `wf`, checked node by node and port by port.
    pub fn is_wf(&self) -> (r: bool)
        ensures
            r == self.wf(),
    {
        let ghost s = self.nodes();
        let n = widgets_len(&self.functions);
        let mut i: usize = 0;
        while i < n
            invariant
                n == s.len(),
                s == self.nodes(),
                i <= n,
                forall|x: int| 0 <= x < i ==> #[trigger] s[x].0 < self.next_function_id
                    && s[x].1.wf() && s[x].1.id == s[x].0,
                forall|x: int, y: int| 0 <= x < i && 0 <= y < i && x != y ==> #[trigger] s[x].0 != #[trigger] s[y].0,
            decreases n - i,
        {
            let k = widgets_key_at(&self.functions, i);
            let w = widgets_at(&self.functions, i);
            if k >= self.next_function_id || w.id != k || !w.runnable.is_wf() {
                return false;
            }
            let mut j: usize = 0;
            while j < i
                invariant
                    i < n,
                    n == s.len(),
                    s == self.nodes(),
                    k == s[i as int].0,
                    j <= i,
                    forall|y: int| 0 <= y < j ==> #[trigger] s[y].0 != k,
                decreases i - j,
            {
                if widgets_key_at(&self.functions, j) == k {
                    return false;
                }
                j += 1;
            }
            i += 1;
        }
        assert forall|x: int| 0 <= x < n implies (#[trigger] s[x]).1.wf() && s[x].1.id == s[x].0 by {
            assert(s[x].0 < self.next_function_id);
        }
        let mut k: usize = 0;
        while k < self.links.len()
            invariant
                k <= self.links@.len(),
                forall|y: int| 0 <= y < k ==> (#[trigger] self.links@[y]).start.function_id != self.links@[y].end.function_id,
            decreases self.links@.len() - k,
        {
            if self.links[k].start.function_id == self.links[k].end.function_id {
                return false;
            }
            k += 1;
        }
        match self.pending {
            Some(p) => p.function_id < self.next_function_id,
            None => true,
        }
    }

    /// The graph to start from: a restored one, when it is well-formed and has a node, else the
    /// initial graph. A restored graph keeps its nodes and links and drops its pending selection
    /// and open sessions; when the last node's name ends in a digit, new nodes are numbered
    /// from that digit plus one.
    pub fn new(stored: Option<TemplateApp>) -> (r: TemplateApp)
        ensures
            r.wf(),
            match stored {
                Some(s) if s.wf() && s.nodes().len() > 0 => {
                    &&& same_keys(s.nodes(), r.nodes())
                    &&& forall|i: int| 0 <= i < s.nodes().len() ==> {
                        let a = #[trigger] s.nodes()[i].1;
                        let b = r.nodes()[i].1;
                        &&& b.id == a.id
                        &&& b.runnable == a.runnable
                        &&& b.is_open == a.is_open
                        &&& b.is_collapsed == a.is_collapsed
                        &&& b.mode == a.mode
                        &&& b.rename_options is None
                        &&& b.edit_options is None
                    }
                    &&& r.links == s.links
                    &&& r.pending is None
                    &&& r.next_function_id == s.next_function_id
                    &&& r.last_rect_id == match last_digit(s.nodes().last().1.runnable.name@) {
                        Some(d) => d + 1,
                        None => s.last_rect_id as int,
                    }
                },
                _ => TemplateApp::initial(r),
            },
    {
        match stored {
            Some(mut s) => {
                if !s.is_wf() || widgets_len(&s.functions) == 0 {
                    return TemplateApp::default();
                }
                let ghost a = s;
                let n = widgets_len(&s.functions);
                let mut i: usize = 0;
                while i < n
                    invariant
                        n == a.nodes().len(),
                        i <= n,
                        a.wf(),
                        s.wf(),
                        s.links == a.links,
                        s.pending == a.pending,
                        s.next_function_id == a.next_function_id,
                        s.last_rect_id == a.last_rect_id,
                        same_keys(a.nodes(), s.nodes()),
                        forall|x: int| i <= x < n ==> #[trigger] s.nodes()[x] == a.nodes()[x],
                        forall|x: int| 0 <= x < i ==> {
                            let p = #[trigger] a.nodes()[x].1;
                            let q = s.nodes()[x].1;
                            &&& q.id == p.id
                            &&& q.runnable == p.runnable
                            &&& q.is_open == p.is_open
                            &&& q.is_collapsed == p.is_collapsed
                            &&& q.mode == p.mode
                            &&& q.rename_options is None
                            &&& q.edit_options is None
                        },
                    decreases n - i,
                {
                    let ghost before = s;
                    let w = widgets_at_mut(&mut s.functions, i);
                    w.rename_options = None;
                    w.edit_options = None;
                    proof { TemplateApp::lemma_node_updated(before, s, i as int); }
                    i += 1;
                }
                s.pending = None;
                let last = widgets_at(&s.functions, n - 1);
                let name = last.runnable.name.as_str();
                let len = name.unicode_len();
                if len > 0 {
                    let c = name.get_char(len - 1);
                    if '0' <= c && c <= '9' {
                        s.last_rect_id = (c as u32 - '0' as u32) as u64 + 1;
                    }
                }
                s
            },
            None => TemplateApp::default(),
        }
    }
}

impl Default for TemplateApp {
    fn default() -> (r: TemplateApp)
        ensures
            TemplateApp::initial(r),
    {
        let mut functions = widgets_new();
        let w0 = FunctionWidget::default_with_pos(0, name_for(0));
        let w1 = FunctionWidget::default_with_pos(1, name_for(1));
        widgets_push(&mut functions, 0, w0);
        let ghost one = widget_entries(functions);
        assert(!has_key(one, 1)) by {
            if has_key(one, 1) {
                let i = choose|i: int| 0 <= i < one.len() && #[trigger] one[i].0 == 1;
            }
        }
        widgets_push(&mut functions, 1, w1);
        let link = Link {
            start: LinkVertex { function_id: 0, param_id: 3 },
            end: LinkVertex { function_id: 1, param_id: 0 },
            should_be_deleted: false,
        };
        let mut links: Vec<Link> = Vec::new();
        links.push(link);
        let r = TemplateApp { functions, links, pending: None, last_rect_id: 3, next_function_id: 2 };
        assert(r.links@ =~= seq![link]);
        r
    }
}

impl TemplateApp {
    /// Replaces the script of the node `node`. Gives whether the node was found.
    pub fn set_code(&mut self, node: u64, code: String) -> (r: bool)
        requires
            old(self).wf(),
        ensures
            final(self).wf(),
            final(self).links == old(self).links,
            final(self).pending == old(self).pending,
            final(self).last_rect_id == old(self).last_rect_id,
            final(self).next_function_id == old(self).next_function_id,
            r == has_key(old(self).nodes(), node),
            changed_at(old(self).nodes(), final(self).nodes(), node,
                |a: FunctionWidget, b: FunctionWidget| code_set(a, b, code@)),
    {
        match widgets_index_of(&self.functions, node) {
            Some(i) => {
                let ghost a = *self;
                let w = widgets_at_mut(&mut self.functions, i);
                w.runnable.code = code;
                proof { TemplateApp::lemma_node_updated(a, *self, i as int); }
                true
            },
            None => false,
        }
    }

    /// Switches the node `node` between showing its ports and showing its script.
    /// Gives whether the node was found.
    pub fn toggle_mode(&mut self, node: u64) -> (r: bool)
        requires
            old(self).wf(),
        ensures
            final(self).wf(),
            final(self).links == old(self).links,
            final(self).pending == old(self).pending,
            final(self).last_rect_id == old(self).last_rect_id,
            final(self).next_function_id == old(self).next_function_id,
            r == has_key(old(self).nodes(), node),
            changed_at(old(self).nodes(), final(self).nodes(), node,
                |a: FunctionWidget, b: FunctionWidget| mode_toggled(a, b)),
    {
        match widgets_index_of(&self.functions, node) {
            Some(i) => {
                let ghost a = *self;
                let w = widgets_at_mut(&mut self.functions, i);
                w.toggle_mode();
                proof { TemplateApp::lemma_node_updated(a, *self, i as int); }
                true
            },
            None => false,
        }
    }

    /// Opens a session that types in a constant for the input port that `v` names, with an
    /// empty buffer, closing any session open on its node. Gives whether that input exists;
    /// if it does not, nothing changes.
    pub fn begin_edit(&mut self, v: LinkVertex) -> (r: bool)
        requires
            old(self).wf(),
        ensures
            final(self).wf(),
            final(self).links == old(self).links,
            final(self).pending == old(self).pending,
            final(self).last_rect_id == old(self).last_rect_id,
            final(self).next_function_id == old(self).next_function_id,
            r == port_in(old(self).nodes(), v, ParamType::Input),
            !r ==> final(self).nodes() == old(self).nodes(),
            r ==> changed_at(old(self).nodes(), final(self).nodes(), v.function_id,
                |a: FunctionWidget, b: FunctionWidget| edit_begun(a, b, v.param_id)),
    {
        match widgets_index_of(&self.functions, v.function_id) {
            Some(i) => {
                let ghost a = *self;
                proof { a.lemma_port_at(i as int, v, ParamType::Input); }
                let w = widgets_at_mut(&mut self.functions, i);
                let r = w.begin_edit(v.param_id);
                proof {
                    TemplateApp::lemma_node_updated(a, *self, i as int);
                    if !r {
                        assert(self.nodes() =~= a.nodes());
                    }
                }
                r
            },
            None => false,
        }
    }

    /// Replaces the text of the constant session open on the node `node`, if there is one.
    pub fn edit_constant(&mut self, node: u64, text: String)
        requires
            old(self).wf(),
        ensures
            final(self).wf(),
            final(self).links == old(self).links,
            final(self).pending == old(self).pending,
            final(self).last_rect_id == old(self).last_rect_id,
            final(self).next_function_id == old(self).next_function_id,
            changed_at(old(self).nodes(), final(self).nodes(), node,
                |a: FunctionWidget, b: FunctionWidget| constant_typed(a, b, text@)),
    {
        match widgets_index_of(&self.functions, node) {
            Some(i) => {
                let ghost a = *self;
                let w = widgets_at_mut(&mut self.functions, i);
                w.edit_constant(text);
                proof { TemplateApp::lemma_node_updated(a, *self, i as int); }
            },
            None => {},
        }
    }

    /// Closes the constant session open on the node `node`, as Enter does; when its text
    /// reads as an integer, the port takes that value. Gives whether a value was set.
    pub fn commit_edit(&mut self, node: u64) -> (r: bool)
        requires
            old(self).wf(),
        ensures
            final(self).wf(),
            final(self).links == old(self).links,
            final(self).pending == old(self).pending,
            final(self).last_rect_id == old(self).last_rect_id,
            final(self).next_function_id == old(self).next_function_id,
            changed_at(old(self).nodes(), final(self).nodes(), node,
                |a: FunctionWidget, b: FunctionWidget| edit_committed(a, b)),
            forall|i: int| 0 <= i < old(self).nodes().len() && (#[trigger] old(self).nodes()[i]).0 == node
                ==> r == commit_sets_value(old(self).nodes()[i].1),
            !has_key(old(self).nodes(), node) ==> !r,
    {
        match widgets_index_of(&self.functions, node) {
            Some(i) => {
                let ghost a = *self;
                let w = widgets_at_mut(&mut self.functions, i);
                let r = w.commit_edit();
                proof { TemplateApp::lemma_node_updated(a, *self, i as int); }
                r
            },
            None => false,
        }
    }
}

} // verus!
