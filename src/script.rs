//! Running a node's script against its input values.
use vstd::prelude::*;
use crate::registry::{params_at, params_at_mut, params_len, same_keys, FunctionParam};
use crate::value::{copy_of, default_value};
use crate::widget::{valued, Runnable};

verus! {

/// The named values a script gives for the given bindings, or `None` when the script
/// does not parse, fails while running, or does not give a map. The engine is built without
/// time functions, closures and modules, so no value can hold shared state, read the clock or
/// load a file, and the result depends on the source and the bindings alone.
pub uninterp spec fn script_result(
    source: Seq<char>,
    bindings: Seq<(Seq<char>, rhai::Dynamic)>,
) -> Option<Seq<(Seq<char>, rhai::Dynamic)>>;

/// Named values, with each name seen as its characters.
pub open spec fn pairs_view(s: Seq<(String, rhai::Dynamic)>) -> Seq<(Seq<char>, rhai::Dynamic)> {
    s.map_values(|e: (String, rhai::Dynamic)| (e.0@, e.1))
}

/// Relies on `rhai::Engine::eval_with_scope`, on a new engine and a scope built from the
/// bindings: it either fails or gives a `rhai::Map`, whose entries are handed back. The crate
/// is built with the `no_time`, `no_closure` and `no_module` features.
#[verifier::external_body]
fn eval_script(source: &str, bindings: Vec<(String, rhai::Dynamic)>) -> (r: Option<Vec<(String, rhai::Dynamic)>>)
    ensures
        match r {
            None => script_result(source@, pairs_view(bindings@)) is None,
            Some(v) => script_result(source@, pairs_view(bindings@)) == Some(pairs_view(v@)),
        },
{
    let mut scope: rhai::Scope = bindings.into_iter().collect();
    match rhai::Engine::new().eval_with_scope::<rhai::Map>(&mut scope, source) {
        Ok(m) => Some(m.into_iter().map(|(k, v)| (k.to_string(), v)).collect()),
        Err(_) => None,
    }
}

/// The value an input port is bound to: a copy of its value, or the engine's unit value.
pub open spec fn bound_value(p: FunctionParam) -> rhai::Dynamic {
    match p.last_value {
        Some(v) => copy_of(v),
        None => default_value(),
    }
}

/// The bindings a script runs with: each input's name and bound value, in display order.
pub open spec fn bindings_of(ins: Seq<(u64, FunctionParam)>) -> Seq<(Seq<char>, rhai::Dynamic)> {
    ins.map_values(|e: (u64, FunctionParam)| (e.1.param_name@, bound_value(e.1)))
}

/// The value of the first entry named `name`.
pub open spec fn lookup(res: Seq<(Seq<char>, rhai::Dynamic)>, name: Seq<char>) -> Option<rhai::Dynamic>
    decreases res.len(),
{
    if res.len() == 0 {
        None
    } else if res[0].0 == name {
        Some(res[0].1)
    } else {
        lookup(res.drop_first(), name)
    }
}

/// `b` is `a` with the named values `res` written to its outputs: each output whose name
/// `res` holds takes a copy of the first such value; nothing else changes.
pub open spec fn assigned(a: Runnable, b: Runnable, res: Seq<(Seq<char>, rhai::Dynamic)>) -> bool {
    &&& b.name == a.name
    &&& b.code == a.code
    &&& b.inputs == a.inputs
    &&& b.next_param_id == a.next_param_id
    &&& same_keys(a.outs(), b.outs())
    &&& forall|i: int| 0 <= i < a.outs().len() ==> {
        let p = #[trigger] a.outs()[i].1;
        match lookup(res, p.param_name@) {
            Some(v) => valued(p, b.outs()[i].1, Some(copy_of(v))),
            None => b.outs()[i] == a.outs()[i],
        }
    }
}

/// `b` is `a` after one run of its script: the result, if the script gave one, is written
/// to the outputs; a failed run changes nothing.
pub open spec fn ran(a: Runnable, b: Runnable) -> bool {
    match script_result(a.code@, bindings_of(a.ins())) {
        Some(res) => assigned(a, b, res),
        None => {
            &&& b.name == a.name
            &&& b.code == a.code
            &&& b.inputs == a.inputs
            &&& b.next_param_id == a.next_param_id
            &&& b.outputs == a.outputs
        },
    }
}

/// A copy of the value of the first entry named `name`.
pub fn find_value(res: &Vec<(String, rhai::Dynamic)>, name: &String) -> (r: Option<rhai::Dynamic>)
    ensures
        r == match lookup(pairs_view(res@), name@) {
            Some(v) => Some(copy_of(v)),
            None => None,
        },
{
    let mut k: usize = 0;
    assert(pairs_view(res@).subrange(0, res@.len() as int) =~= pairs_view(res@));
    while k < res.len()
        invariant
            k <= res.len(),
            lookup(pairs_view(res@), name@) == lookup(pairs_view(res@).subrange(k as int, res@.len() as int), name@),
        decreases res.len() - k,
    {
        let ghost rest = pairs_view(res@).subrange(k as int, res@.len() as int);
        assert(rest.drop_first() =~= pairs_view(res@).subrange(k + 1, res@.len() as int));
        if res[k].0.eq(name) {
            return Some(res[k].1.clone());
        }
        k += 1;
    }
    None
}

impl Runnable {
    /// Runs the script with each input's name bound to its value, or to the engine's unit
    /// value when it has none; then each output whose name the result holds takes that value.
    /// When the script fails, no port changes.
    pub fn run(&mut self)
        requires
            old(self).wf(),
        ensures
            final(self).wf(),
            ran(*old(self), *final(self)),
    {
        let n = params_len(&self.inputs);
        let mut bindings: Vec<(String, rhai::Dynamic)> = Vec::new();
        let mut i: usize = 0;
        while i < n
            invariant
                n == self.ins().len(),
                i <= n,
                bindings@.len() == i,
                pairs_view(bindings@) == bindings_of(self.ins()).take(i as int),
            decreases n - i,
        {
            let p = params_at(&self.inputs, i);
            let v = match &p.last_value {
                Some(v) => v.clone(),
                None => <rhai::Dynamic as From<()>>::from(()),
            };
            let name = p.param_name.clone();
            assert(v == bound_value(self.ins()[i as int].1));
            let ghost b0 = bindings@;
            bindings.push((name, v));
            assert(pairs_view(bindings@)[i as int] == bindings_of(self.ins())[i as int]);
            assert(pairs_view(bindings@) =~= bindings_of(self.ins()).take(i + 1));
            i += 1;
        }
        assert(bindings_of(self.ins()).take(n as int) =~= bindings_of(self.ins()));
        let result = eval_script(self.code.as_str(), bindings);
        if let Some(res) = result {
            self.assign_outputs(&res);
        }
    }

    /// Writes named values to the outputs: each output whose name they hold takes a copy of
    /// the first such value; the other outputs, and everything else, stay as they are.
    pub fn assign_outputs(&mut self, res: &Vec<(String, rhai::Dynamic)>)
        requires
            old(self).wf(),
        ensures
            final(self).wf(),
            assigned(*old(self), *final(self), pairs_view(res@)),
    {
        let ghost before = *self;
        let m = params_len(&self.outputs);
        let mut j: usize = 0;
        while j < m
            invariant
                m == before.outs().len(),
                j <= m,
                self.wf(),
                self.name == before.name,
                self.code == before.code,
                self.inputs == before.inputs,
                self.next_param_id == before.next_param_id,
                same_keys(before.outs(), self.outs()),
                forall|k: int| j <= k < m ==> #[trigger] self.outs()[k] == before.outs()[k],
                forall|k: int| 0 <= k < j ==> {
                    let p = #[trigger] before.outs()[k].1;
                    match lookup(pairs_view(res@), p.param_name@) {
                        Some(v) => valued(p, self.outs()[k].1, Some(copy_of(v))),
                        None => self.outs()[k] == before.outs()[k],
                    }
                },
            decreases m - j,
        {
            let name = params_at(&self.outputs, j).param_name.clone();
            let found = find_value(res, &name);
            if let Some(v) = found {
                let p = params_at_mut(&mut self.outputs, j);
                p.last_value = Some(v);
            }
            j += 1;
        }
    }
}

} // verus!
