//! Laws that relate the graph's operations to each other.
use vstd::prelude::*;
use crate::graph::{node_is_open, port_in, resolves, vertex_dir, Link, TemplateApp};
use crate::registry::{has_key, lemma_filter_keys, port_is_live, same_keys, FunctionParam, ParamType};
use crate::script::{bindings_of, ran, script_result};
use crate::widget::{changed_at, ports_changed, renamed, FunctionWidget, LinkVertex, Runnable};

verus! {

/// After a sweep, every node is open, no port is marked for deletion, and every link left
/// resolves: its start to an output port and its end to an input port of a node left.
pub proof fn lemma_sweep_leaves_resolving_links(a: TemplateApp, b: TemplateApp)
    requires
        a.wf(),
        TemplateApp::swept(a, b),
    ensures
        forall|k: int| 0 <= k < b.links@.len() ==> resolves(b.nodes(), #[trigger] b.links@[k]),
        forall|i: int| 0 <= i < b.nodes().len() ==> (#[trigger] b.nodes()[i]).1.is_open,
        forall|i: int, j: int| 0 <= i < b.nodes().len() && 0 <= j < b.nodes()[i].1.runnable.ins().len()
            ==> !(#[trigger] b.nodes()[i].1.runnable.ins()[j]).1.should_be_deleted,
        forall|i: int, j: int| 0 <= i < b.nodes().len() && 0 <= j < b.nodes()[i].1.runnable.outs().len()
            ==> !(#[trigger] b.nodes()[i].1.runnable.outs()[j]).1.should_be_deleted,
{
    broadcast use vstd::seq_lib::group_filter_ensures;
    let open = a.nodes().filter(|e: (u64, FunctionWidget)| node_is_open(e));
    lemma_filter_keys(a.nodes(), |e: (u64, FunctionWidget)| node_is_open(e));
    assert forall|k: int| 0 <= k < b.links@.len() implies resolves(b.nodes(), #[trigger] b.links@[k]) by {
        assert(crate::graph::link_survives(b.nodes(), b.links@[k]));
    }
    assert forall|i: int| 0 <= i < b.nodes().len() implies (#[trigger] b.nodes()[i]).1.is_open by {
        assert(node_is_open(open[i]));
    }
    assert forall|i: int, j: int| 0 <= i < b.nodes().len() && 0 <= j < b.nodes()[i].1.runnable.ins().len()
        implies !(#[trigger] b.nodes()[i].1.runnable.ins()[j]).1.should_be_deleted by {
        let r = open[i].1.runnable;
        lemma_filter_keys(r.ins(), |e: (u64, FunctionParam)| port_is_live(e));
    }
    assert forall|i: int, j: int| 0 <= i < b.nodes().len() && 0 <= j < b.nodes()[i].1.runnable.outs().len()
        implies !(#[trigger] b.nodes()[i].1.runnable.outs()[j]).1.should_be_deleted by {
        let r = open[i].1.runnable;
        lemma_filter_keys(r.outs(), |e: (u64, FunctionParam)| port_is_live(e));
    }
}

/// After a sweep, no link touches a node that was closed before it.
pub proof fn lemma_sweep_unlinks_closed_nodes(a: TemplateApp, b: TemplateApp)
    requires
        a.wf(),
        TemplateApp::swept(a, b),
    ensures
        forall|k: int, i: int| 0 <= k < b.links@.len() && 0 <= i < a.nodes().len() && !a.nodes()[i].1.is_open
            ==> (#[trigger] b.links@[k]).start.function_id != (#[trigger] a.nodes()[i]).0
                && b.links@[k].end.function_id != a.nodes()[i].0,
{
    lemma_sweep_leaves_resolving_links(a, b);
    let open = a.nodes().filter(|e: (u64, FunctionWidget)| node_is_open(e));
    lemma_filter_keys(a.nodes(), |e: (u64, FunctionWidget)| node_is_open(e));
    assert forall|k: int, i: int| 0 <= k < b.links@.len() && 0 <= i < a.nodes().len() && !a.nodes()[i].1.is_open
        implies (#[trigger] b.links@[k]).start.function_id != (#[trigger] a.nodes()[i]).0
            && b.links@[k].end.function_id != a.nodes()[i].0 by {
        let l = b.links@[k];
        assert(resolves(b.nodes(), l));
        let js = choose|j: int| 0 <= j < b.nodes().len() && #[trigger] b.nodes()[j].0 == l.start.function_id
            && crate::registry::has_key(b.nodes()[j].1.runnable.registry(ParamType::Output), l.start.param_id);
        let je = choose|j: int| 0 <= j < b.nodes().len() && #[trigger] b.nodes()[j].0 == l.end.function_id
            && crate::registry::has_key(b.nodes()[j].1.runnable.registry(ParamType::Input), l.end.param_id);
        let ms = choose|m: int| 0 <= m < a.nodes().len() && a.nodes()[m] == open[js];
        let me = choose|m: int| 0 <= m < a.nodes().len() && a.nodes()[m] == open[je];
        assert(node_is_open(open[js]) && node_is_open(open[je]));
        assert(ms != i && me != i);
        assert(a.nodes()[ms].0 != a.nodes()[i].0);
        assert(a.nodes()[me].0 != a.nodes()[i].0);
    }
}

/// From no pending selection, clicking an output port and then an input port of another
/// node, in either order, appends exactly one link, from the output to the input.
pub proof fn lemma_click_links_output_to_input(
    a: TemplateApp,
    o: LinkVertex,
    i: LinkVertex,
    x: LinkVertex,
    y: LinkVertex,
    m: TemplateApp,
    b: TemplateApp,
)
    requires
        a.wf(),
        a.pending is None,
        port_in(a.nodes(), o, ParamType::Output),
        port_in(a.nodes(), i, ParamType::Input),
        o.function_id != i.function_id,
        a.clickable(o),
        a.clickable(i),
        (x == o && y == i) || (x == i && y == o),
        TemplateApp::clicked(a, x, m),
        TemplateApp::clicked(m, y, b),
    ensures
        b.links@ == a.links@.push(Link { start: o, end: i, should_be_deleted: false }),
        b.pending is None,
{
    a.lemma_dir_exclusive(o);
    a.lemma_dir_exclusive(i);
    assert(m.nodes() == a.nodes());
    assert(vertex_dir(a.nodes(), o) == Some(ParamType::Output));
    assert(vertex_dir(a.nodes(), i) == Some(ParamType::Input));
    assert(m.clickable(y) == a.clickable(y));
}

/// From no pending selection, two clicks on ports of one node make no link.
pub proof fn lemma_click_same_node_no_link(a: TemplateApp, x: LinkVertex, y: LinkVertex, m: TemplateApp, b: TemplateApp)
    requires
        a.pending is None,
        x.function_id == y.function_id,
        TemplateApp::clicked(a, x, m),
        TemplateApp::clicked(m, y, b),
    ensures
        b.links@ == a.links@,
{
}

/// From no pending selection, two clicks on ports of the same direction make no link.
pub proof fn lemma_click_same_direction_no_link(
    a: TemplateApp,
    dir: ParamType,
    x: LinkVertex,
    y: LinkVertex,
    m: TemplateApp,
    b: TemplateApp,
)
    requires
        a.wf(),
        a.pending is None,
        port_in(a.nodes(), x, dir),
        port_in(a.nodes(), y, dir),
        TemplateApp::clicked(a, x, m),
        TemplateApp::clicked(m, y, b),
    ensures
        b.links@ == a.links@,
{
    a.lemma_dir_exclusive(x);
    a.lemma_dir_exclusive(y);
    assert(m.nodes() == a.nodes());
    assert(vertex_dir(a.nodes(), x) == vertex_dir(a.nodes(), y));
}

/// Two node sequences carry the same node ids, and each node the same port ids in each
/// registry, all in the same order.
pub open spec fn same_shape(a: Seq<(u64, FunctionWidget)>, b: Seq<(u64, FunctionWidget)>) -> bool {
    &&& same_keys(a, b)
    &&& forall|i: int| 0 <= i < a.len() ==> same_keys((#[trigger] a[i]).1.runnable.ins(), b[i].1.runnable.ins())
        && same_keys(a[i].1.runnable.outs(), b[i].1.runnable.outs())
}

/// Where node and port ids are all in place, a vertex resolves into a registry exactly when
/// it did before, and so does every link.
pub proof fn lemma_same_shape_resolves(a: Seq<(u64, FunctionWidget)>, b: Seq<(u64, FunctionWidget)>)
    requires
        same_shape(a, b),
    ensures
        forall|v: LinkVertex, dir: ParamType| port_in(a, v, dir) == #[trigger] port_in(b, v, dir),
        forall|l: Link| resolves(a, l) == #[trigger] resolves(b, l),
{
    assert forall|v: LinkVertex, dir: ParamType| port_in(a, v, dir) == #[trigger] port_in(b, v, dir) by {
        if port_in(a, v, dir) {
            let i = choose|i: int| 0 <= i < a.len() && #[trigger] a[i].0 == v.function_id
                && has_key(a[i].1.runnable.registry(dir), v.param_id);
            let ra = a[i].1.runnable.registry(dir);
            let rb = b[i].1.runnable.registry(dir);
            let j = choose|j: int| 0 <= j < ra.len() && #[trigger] ra[j].0 == v.param_id;
            assert(rb[j].0 == v.param_id);
            assert(b[i].0 == v.function_id);
        }
        if port_in(b, v, dir) {
            let i = choose|i: int| 0 <= i < b.len() && #[trigger] b[i].0 == v.function_id
                && has_key(b[i].1.runnable.registry(dir), v.param_id);
            let ra = a[i].1.runnable.registry(dir);
            let rb = b[i].1.runnable.registry(dir);
            let j = choose|j: int| 0 <= j < rb.len() && #[trigger] rb[j].0 == v.param_id;
            assert(ra[j].0 == v.param_id);
            assert(a[i].0 == v.function_id);
        }
    }
}

/// Renaming a port keeps every node id and port id where it was, the renamed port's too,
/// so every link resolves after the rename exactly when it did before.
pub proof fn lemma_rename_keeps_links(a: TemplateApp, v: LinkVertex, name: Seq<char>, b: TemplateApp)
    requires
        changed_at(a.nodes(), b.nodes(), v.function_id,
            |x: FunctionWidget, y: FunctionWidget| ports_changed(x, y, v.param_id,
                |p: FunctionParam, q: FunctionParam| renamed(p, q, name))),
    ensures
        same_shape(a.nodes(), b.nodes()),
        forall|l: Link| resolves(a.nodes(), l) == #[trigger] resolves(b.nodes(), l),
{
    assert forall|i: int| 0 <= i < a.nodes().len() implies same_keys((#[trigger] a.nodes()[i]).1.runnable.ins(), b.nodes()[i].1.runnable.ins())
        && same_keys(a.nodes()[i].1.runnable.outs(), b.nodes()[i].1.runnable.outs()) by {
        if a.nodes()[i].0 == v.function_id {
            assert(ports_changed(a.nodes()[i].1, b.nodes()[i].1, v.param_id,
                |p: FunctionParam, q: FunctionParam| renamed(p, q, name)));
        } else {
            assert(b.nodes()[i] == a.nodes()[i]);
        }
    }
    lemma_same_shape_resolves(a.nodes(), b.nodes());
}

/// Running a script a second time, with its inputs and source unchanged, leaves every output
/// holding the value the first run gave it.
pub proof fn lemma_run_twice_same_values(r0: Runnable, r1: Runnable, r2: Runnable)
    requires
        ran(r0, r1),
        ran(r1, r2),
    ensures
        same_keys(r1.outs(), r2.outs()),
        forall|i: int| 0 <= i < r1.outs().len() ==> (#[trigger] r2.outs()[i]).1.last_value == r1.outs()[i].1.last_value,
{
    assert(r1.ins() == r0.ins());
    assert(script_result(r1.code@, bindings_of(r1.ins())) == script_result(r0.code@, bindings_of(r0.ins())));
    assert forall|i: int| 0 <= i < r1.outs().len() implies (#[trigger] r2.outs()[i]).1.last_value == r1.outs()[i].1.last_value by {
        let p0 = r0.outs()[i].1;
        let p1 = r1.outs()[i].1;
        assert(p1.param_name@ == p0.param_name@);
    }
}

} // verus!
