//! Values flowing along links, from each link's output port to its input port.
use vstd::prelude::*;
use crate::graph::{widgets_at, widgets_at_mut, widgets_index_of, Link, TemplateApp};
use crate::registry::{distinct_keys, has_key, params_at, params_at_mut, params_index_of, same_keys, FunctionParam};
use crate::value::copy_of;
use crate::widget::{valued, FunctionWidget, LinkVertex};

verus! {

/// The position of the first entry with key `k`, or -1.
pub open spec fn key_pos<V>(s: Seq<(u64, V)>, k: u64) -> int
    decreases s.len(),
{
    if s.len() == 0 {
        -1
    } else if s[0].0 == k {
        0
    } else {
        let p = key_pos(s.drop_first(), k);
        if p < 0 { -1 } else { p + 1 }
    }
}

/// The value of the first entry with key `k`.
pub open spec fn find<V>(s: Seq<(u64, V)>, k: u64) -> Option<V> {
    let p = key_pos(s, k);
    if 0 <= p < s.len() { Some(s[p].1) } else { None }
}

/// With distinct keys, the entry at `i` is the one found for its key; and a missing key
/// is found nowhere.
pub proof fn lemma_key_pos<V>(s: Seq<(u64, V)>, k: u64)
    ensures
        -1 <= key_pos(s, k) < s.len(),
        key_pos(s, k) >= 0 ==> s[key_pos(s, k)].0 == k,
        !has_key(s, k) ==> key_pos(s, k) == -1,
        distinct_keys(s) ==> forall|i: int| 0 <= i < s.len() && #[trigger] s[i].0 == k ==> key_pos(s, k) == i,
    decreases s.len(),
{
    if s.len() > 0 {
        let t = s.drop_first();
        lemma_key_pos(t, k);
        if !has_key(s, k) {
            assert(s[0].0 != k);
            if has_key(t, k) {
                let j = choose|j: int| 0 <= j < t.len() && #[trigger] t[j].0 == k;
                assert(s[j + 1].0 == k);
            }
        }
        if distinct_keys(s) {
            assert(distinct_keys(t)) by {
                assert forall|x: int, y: int| 0 <= x < t.len() && 0 <= y < t.len() && x != y
                    implies #[trigger] t[x].0 != #[trigger] t[y].0 by {
                    assert(s[x + 1].0 != s[y + 1].0);
                }
            }
            assert forall|i: int| 0 <= i < s.len() && #[trigger] s[i].0 == k implies key_pos(s, k) == i by {
                if i > 0 {
                    assert(s[0].0 != s[i].0);
                    assert(t[i - 1].0 == k);
                }
            }
        }
    }
}

/// Sequences with the same keys find a key at the same position.
pub proof fn lemma_key_pos_same_keys<V>(a: Seq<(u64, V)>, b: Seq<(u64, V)>, k: u64)
    requires
        same_keys(a, b),
    ensures
        key_pos(a, k) == key_pos(b, k),
    decreases a.len(),
{
    if a.len() > 0 {
        assert(a[0].0 == b[0].0);
        let (ta, tb) = (a.drop_first(), b.drop_first());
        assert forall|i: int| 0 <= i < ta.len() implies #[trigger] ta[i].0 == tb[i].0 by {
            assert(a[i + 1].0 == b[i + 1].0);
        }
        lemma_key_pos_same_keys(ta, tb, k);
    }
}

/// The value held by the output port that a vertex names, if it resolves and holds one.
pub open spec fn out_value(nodes: Seq<(u64, FunctionWidget)>, v: LinkVertex) -> Option<rhai::Dynamic> {
    match find(nodes, v.function_id) {
        Some(w) => match find(w.runnable.outs(), v.param_id) {
            Some(p) => p.last_value,
            None => None,
        },
        None => None,
    }
}

/// What the input port `u` takes from the links, in order: a copy of the value at the start
/// of the last link into `u` whose output holds one.
pub open spec fn fed(nodes: Seq<(u64, FunctionWidget)>, links: Seq<Link>, u: LinkVertex) -> Option<rhai::Dynamic>
    decreases links.len(),
{
    if links.len() == 0 {
        None
    } else {
        let l = links.last();
        if l.end == u && out_value(nodes, l.start) is Some {
            Some(copy_of(out_value(nodes, l.start)->0))
        } else {
            fed(nodes, links.drop_last(), u)
        }
    }
}

/// `b` holds the nodes of `a` where every input port has taken what the links `links`
/// feed it, and nothing else has changed.
pub open spec fn fed_all(a: Seq<(u64, FunctionWidget)>, b: Seq<(u64, FunctionWidget)>, links: Seq<Link>) -> bool {
    &&& same_keys(a, b)
    &&& forall|i: int| 0 <= i < a.len() ==> {
        let wa = #[trigger] a[i].1;
        let wb = b[i].1;
        &&& wb.id == wa.id
        &&& wb.is_open == wa.is_open
        &&& wb.is_collapsed == wa.is_collapsed
        &&& wb.mode == wa.mode
        &&& wb.rename_options == wa.rename_options
        &&& wb.edit_options == wa.edit_options
        &&& wb.runnable.name == wa.runnable.name
        &&& wb.runnable.code == wa.runnable.code
        &&& wb.runnable.next_param_id == wa.runnable.next_param_id
        &&& wb.runnable.outputs == wa.runnable.outputs
        &&& same_keys(wa.runnable.ins(), wb.runnable.ins())
        &&& forall|j: int| 0 <= j < wa.runnable.ins().len() ==>
            input_fed(a, links, a[i].0, wa.runnable.ins()[j], #[trigger] wb.runnable.ins()[j])
    }
}

/// The input port `pb` is `pa`, of the node `key`, after the links `links` fed it.
pub open spec fn input_fed(
    a: Seq<(u64, FunctionWidget)>,
    links: Seq<Link>,
    key: u64,
    pa: (u64, FunctionParam),
    pb: (u64, FunctionParam),
) -> bool {
    match fed(a, links, LinkVertex { function_id: key, param_id: pa.0 }) {
        Some(v) => valued(pa.1, pb.1, Some(v)),
        None => pb == pa,
    }
}

/// `b` holds the nodes of `a` where only the input port `u`, if it resolves, has changed,
/// to hold `val`.
pub open spec fn fed_one(a: Seq<(u64, FunctionWidget)>, b: Seq<(u64, FunctionWidget)>, u: LinkVertex, val: rhai::Dynamic) -> bool {
    &&& same_keys(a, b)
    &&& forall|i: int| 0 <= i < a.len() ==> {
        let wa = #[trigger] a[i].1;
        let wb = b[i].1;
        &&& wb.id == wa.id
        &&& wb.is_open == wa.is_open
        &&& wb.is_collapsed == wa.is_collapsed
        &&& wb.mode == wa.mode
        &&& wb.rename_options == wa.rename_options
        &&& wb.edit_options == wa.edit_options
        &&& wb.runnable.name == wa.runnable.name
        &&& wb.runnable.code == wa.runnable.code
        &&& wb.runnable.next_param_id == wa.runnable.next_param_id
        &&& wb.runnable.outputs == wa.runnable.outputs
        &&& same_keys(wa.runnable.ins(), wb.runnable.ins())
        &&& forall|j: int| 0 <= j < wa.runnable.ins().len() ==> if a[i].0 == u.function_id
            && wa.runnable.ins()[j].0 == u.param_id {
            valued(wa.runnable.ins()[j].1, #[trigger] wb.runnable.ins()[j].1, Some(val))
        } else {
            wb.runnable.ins()[j] == wa.runnable.ins()[j]
        }
    }
}

/// Nodes that differ only in their inputs hold the same output values.
proof fn lemma_out_value_same(a: Seq<(u64, FunctionWidget)>, b: Seq<(u64, FunctionWidget)>, v: LinkVertex)
    requires
        same_keys(a, b),
        forall|i: int| 0 <= i < a.len() ==> (#[trigger] a[i]).1.runnable.outputs == b[i].1.runnable.outputs,
    ensures
        out_value(a, v) == out_value(b, v),
{
    lemma_key_pos_same_keys(a, b, v.function_id);
    lemma_key_pos(a, v.function_id);
    let p = key_pos(a, v.function_id);
    if 0 <= p < a.len() {
        assert(a[p].1.runnable.outputs == b[p].1.runnable.outputs);
    }
}

/// One link's step: feeding its input from its output extends what the links before it fed.
proof fn lemma_fed_step(
    a: Seq<(u64, FunctionWidget)>,
    cur: Seq<(u64, FunctionWidget)>,
    next: Seq<(u64, FunctionWidget)>,
    links: Seq<Link>,
    k: int,
)
    requires
        0 <= k < links.len(),
        fed_all(a, cur, links.take(k)),
        out_value(a, links[k].start) is None ==> next == cur,
        out_value(a, links[k].start) is Some ==> fed_one(cur, next, links[k].end, copy_of(out_value(a, links[k].start)->0)),
    ensures
        fed_all(a, next, links.take(k + 1)),
{
    let l = links[k];
    assert(links.take(k + 1).drop_last() =~= links.take(k));
    assert(links.take(k + 1).last() == l);
    assert(same_keys(a, next)) by {
        assert forall|i: int| 0 <= i < a.len() implies #[trigger] a[i].0 == next[i].0 by {
            assert(a[i].0 == cur[i].0);
        }
    }
    assert forall|i: int| 0 <= i < a.len() implies {
        let wa = #[trigger] a[i].1;
        let wb = next[i].1;
        &&& wb.id == wa.id
        &&& wb.is_open == wa.is_open
        &&& wb.is_collapsed == wa.is_collapsed
        &&& wb.mode == wa.mode
        &&& wb.rename_options == wa.rename_options
        &&& wb.edit_options == wa.edit_options
        &&& wb.runnable.name == wa.runnable.name
        &&& wb.runnable.code == wa.runnable.code
        &&& wb.runnable.next_param_id == wa.runnable.next_param_id
        &&& wb.runnable.outputs == wa.runnable.outputs
        &&& same_keys(wa.runnable.ins(), wb.runnable.ins())
        &&& forall|j: int| 0 <= j < wa.runnable.ins().len() ==>
            input_fed(a, links.take(k + 1), a[i].0, wa.runnable.ins()[j], #[trigger] wb.runnable.ins()[j])
    } by {
        let wa = a[i].1;
        let wc = cur[i].1;
        let wb = next[i].1;
        assert forall|j: int| 0 <= j < wa.runnable.ins().len() implies
            input_fed(a, links.take(k + 1), a[i].0, wa.runnable.ins()[j], #[trigger] wb.runnable.ins()[j]) by {
            let u = LinkVertex { function_id: a[i].0, param_id: wa.runnable.ins()[j].0 };
            assert(cur[i].0 == a[i].0);
            assert(wc.runnable.ins()[j].0 == wa.runnable.ins()[j].0);
            let pa = wa.runnable.ins()[j].1;
            let pc = wc.runnable.ins()[j].1;
            let pb = wb.runnable.ins()[j].1;
            let src = out_value(a, l.start);
            let fk = fed(a, links.take(k), u);
            assert(fed(a, links.take(k + 1), u) == if l.end == u && src is Some {
                Some(copy_of(src->0))
            } else {
                fk
            });
            assert(input_fed(a, links.take(k), a[i].0, wa.runnable.ins()[j], wc.runnable.ins()[j]));
            if src is Some {
                assert(fed_one(cur, next, l.end, copy_of(src->0)));
                assert(wc == cur[i].1);
                if l.end == u {
                    assert(valued(pc, pb, Some(copy_of(src->0))));
                } else {
                    assert(!(cur[i].0 == l.end.function_id && wc.runnable.ins()[j].0 == l.end.param_id));
                    assert(wb.runnable.ins()[j] == wc.runnable.ins()[j]);
                }
            } else {
                assert(next == cur);
            }
        }
    }
}

impl TemplateApp {
    /// A copy of the value held by the output port `v`, if it resolves and holds one.
    fn output_value(&self, v: LinkVertex) -> (r: Option<rhai::Dynamic>)
        requires
            self.wf(),
        ensures
            r == match out_value(self.nodes(), v) {
                Some(x) => Some(copy_of(x)),
                None => None,
            },
    {
        proof { lemma_key_pos(self.nodes(), v.function_id); }
        match widgets_index_of(&self.functions, v.function_id) {
            Some(i) => {
                let w = widgets_at(&self.functions, i);
                proof { lemma_key_pos(w.runnable.outs(), v.param_id); }
                match params_index_of(&w.runnable.outputs, v.param_id) {
                    Some(j) => match &params_at(&w.runnable.outputs, j).last_value {
                        Some(x) => Some(x.clone()),
                        None => None,
                    },
                    None => None,
                }
            },
            None => None,
        }
    }

    /// Sets the input port `u`, if it resolves, to hold `val`.
    fn feed_input(&mut self, u: LinkVertex, val: rhai::Dynamic)
        requires
            old(self).wf(),
        ensures
            final(self).wf(),
            final(self).links == old(self).links,
            final(self).pending == old(self).pending,
            final(self).last_rect_id == old(self).last_rect_id,
            final(self).next_function_id == old(self).next_function_id,
            fed_one(old(self).nodes(), final(self).nodes(), u, val),
    {
        let ghost a = *self;
        match widgets_index_of(&self.functions, u.function_id) {
            Some(i) => {
                let w = widgets_at_mut(&mut self.functions, i);
                let ghost w0 = *w;
                match params_index_of(&w.runnable.inputs, u.param_id) {
                    Some(j) => {
                        let p = params_at_mut(&mut w.runnable.inputs, j);
                        p.last_value = Some(val);
                        proof {
                            let ins0 = w0.runnable.ins();
                            assert forall|x: int| 0 <= x < ins0.len() && x != j implies #[trigger] ins0[x].0 != u.param_id by {
                                assert(ins0[x].0 != ins0[j as int].0);
                            }
                            assert forall|x: int| 0 <= x < w.runnable.ins().len() implies #[trigger] w.runnable.ins()[x].0 < w.runnable.next_param_id by {
                                assert(ins0[x].0 < w0.runnable.next_param_id);
                            }
                            assert forall|x: int, y: int| 0 <= x < w.runnable.ins().len() && 0 <= y < w.runnable.outs().len()
                                implies #[trigger] w.runnable.ins()[x].0 != #[trigger] w.runnable.outs()[y].0 by {
                                assert(ins0[x].0 != w0.runnable.outs()[y].0);
                            }
                            assert forall|x: int, y: int| 0 <= x < w.runnable.ins().len() && 0 <= y < w.runnable.ins().len() && x != y
                                implies #[trigger] w.runnable.ins()[x].0 != #[trigger] w.runnable.ins()[y].0 by {
                                assert(ins0[x].0 != ins0[y].0);
                            }
                        }
                    },
                    None => {},
                }
                proof {
                    assert forall|x: int| 0 <= x < a.nodes().len() && x != i implies #[trigger] a.nodes()[x].0 != u.function_id by {
                        assert(a.nodes()[x].0 != a.nodes()[i as int].0);
                    }
                    assert forall|x: int, y: int| 0 <= x < self.nodes().len() && 0 <= y < self.nodes().len() && x != y
                        implies #[trigger] self.nodes()[x].0 != #[trigger] self.nodes()[y].0 by {
                        assert(a.nodes()[x].0 != a.nodes()[y].0);
                    }
                    assert forall|x: int| 0 <= x < self.nodes().len() implies #[trigger] self.nodes()[x].0 < self.next_function_id by {
                        assert(a.nodes()[x].0 < a.next_function_id);
                    }
                }
            },
            None => {},
        }
    }

    /// Copies, link by link in order, the value held by each link's output port into its
    /// input port; an output without a value leaves the input as it is, and a later link
    /// into the same input wins.
    pub fn propagate_values(&mut self)
        requires
            old(self).wf(),
        ensures
            final(self).wf(),
            final(self).links == old(self).links,
            final(self).pending == old(self).pending,
            final(self).last_rect_id == old(self).last_rect_id,
            final(self).next_function_id == old(self).next_function_id,
            fed_all(old(self).nodes(), final(self).nodes(), old(self).links@),
    {
        let ghost a = *self;
        let n = self.links.len();
        let mut k: usize = 0;
        assert(fed_all(a.nodes(), self.nodes(), a.links@.take(0))) by {
            assert forall|i: int| 0 <= i < a.nodes().len() implies same_keys((#[trigger] a.nodes()[i]).1.runnable.ins(), a.nodes()[i].1.runnable.ins()) by {}
        }
        while k < n
            invariant
                n == a.links@.len(),
                k <= n,
                self.wf(),
                self.links == a.links,
                self.pending == a.pending,
                self.last_rect_id == a.last_rect_id,
                self.next_function_id == a.next_function_id,
                fed_all(a.nodes(), self.nodes(), a.links@.take(k as int)),
            decreases n - k,
        {
            let l = self.links[k];
            let ghost cur = self.nodes();
            proof { lemma_out_value_same(a.nodes(), cur, l.start); }
            let src = self.output_value(l.start);
            match src {
                Some(x) => self.feed_input(l.end, x),
                None => {},
            }
            proof { lemma_fed_step(a.nodes(), cur, self.nodes(), a.links@, k as int); }
            k += 1;
        }
        assert(a.links@.take(n as int) =~= a.links@);
    }
}

} // verus!
