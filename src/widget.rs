//! Nodes: a function with its port registries, source text and edit sessions.
use vstd::prelude::*;
use indexmap::IndexMap;
use crate::value::int_of;
use crate::constant::{parse_constant, parse_int};
use crate::registry::{
    disjoint_keys, distinct_keys, has_key, keys_below, lemma_filter_keys, param_entries,
    params_at, params_at_mut, params_index_of, params_len, params_new, params_push,
    params_disjoint, params_keys_ok, params_retain_live, port_is_live, same_keys, FunctionParam,
    ParamType, ParamTypes,
};

verus! {

/// One endpoint of a link, or a pending selection: a port named by its node and its own id.
#[derive(Clone, Copy, Debug, PartialEq, Eq, Structural)]
pub struct LinkVertex {
    pub function_id: u64,
    pub param_id: u64,
}

/// The port with key `k` in the entries `s` is named `name`.
pub open spec fn names_port(s: Seq<(u64, FunctionParam)>, k: u64, name: Seq<char>) -> bool {
    forall|j: int| 0 <= j < s.len() && #[trigger] s[j].0 == k ==> s[j].1.param_name@ == name
}

/// `b` is `a` with its display name replaced by `name`.
pub open spec fn renamed(a: FunctionParam, b: FunctionParam, name: Seq<char>) -> bool {
    &&& b.param_name@ == name
    &&& b.param_kind == a.param_kind
    &&& b.should_be_deleted == a.should_be_deleted
    &&& b.last_value == a.last_value
}

/// `b` is `a` marked for deletion.
pub open spec fn marked(a: FunctionParam, b: FunctionParam) -> bool {
    &&& b.param_name@ == a.param_name@
    &&& b.param_kind == a.param_kind
    &&& b.should_be_deleted
    &&& b.last_value == a.last_value
}

/// `b` is `a` holding the value `v`.
pub open spec fn valued(a: FunctionParam, b: FunctionParam, v: Option<rhai::Dynamic>) -> bool {
    &&& b.param_name@ == a.param_name@
    &&& b.param_kind == a.param_kind
    &&& b.should_be_deleted == a.should_be_deleted
    &&& b.last_value == v
}

/// `b` holds the entries of `a`, in the same order, and only the entry with key `k` may differ,
/// as `step` allows.
pub open spec fn changed_at<V>(
    a: Seq<(u64, V)>,
    b: Seq<(u64, V)>,
    k: u64,
    step: spec_fn(V, V) -> bool,
) -> bool {
    &&& same_keys(a, b)
    &&& forall|i: int| 0 <= i < a.len() ==> if a[i].0 == k {
        step(a[i].1, #[trigger] b[i].1)
    } else {
        b[i] == a[i]
    }
}

/// A function: its name, its script, and its ordered input and output registries.
/// Port ids are issued from `next_param_id` upwards and never handed out twice.
#[derive(Debug)]
pub struct Runnable {
    pub name: String,
    pub code: String,
    pub inputs: IndexMap<u64, FunctionParam>,
    pub outputs: IndexMap<u64, FunctionParam>,
    pub next_param_id: u64,
}

impl Runnable {
    pub open spec fn ins(&self) -> Seq<(u64, FunctionParam)> {
        param_entries(self.inputs)
    }

    pub open spec fn outs(&self) -> Seq<(u64, FunctionParam)> {
        param_entries(self.outputs)
    }

    /// The registry of one direction.
    pub open spec fn registry(&self, dir: ParamType) -> Seq<(u64, FunctionParam)> {
        match dir {
            ParamType::Input => self.ins(),
            ParamType::Output => self.outs(),
        }
    }

    /// Port ids are unique within the node, across both registries, and below the next id.
    pub open spec fn wf(&self) -> bool {
        &&& distinct_keys(self.ins())
        &&& distinct_keys(self.outs())
        &&& disjoint_keys(self.ins(), self.outs())
        &&& keys_below(self.ins(), self.next_param_id)
        &&& keys_below(self.outs(), self.next_param_id)
    }

    /// The registry that holds a port id, if any.
    pub open spec fn direction_of(&self, id: u64) -> Option<ParamType> {
        if has_key(self.outs(), id) {
            Some(ParamType::Output)
        } else if has_key(self.ins(), id) {
            Some(ParamType::Input)
        } else {
            None
        }
    }

    /// A function with the given name and script and empty registries.
    pub fn new(name: String, code: String) -> (r: Runnable)
        ensures
            r.wf(),
            r.name@ == name@,
            r.code@ == code@,
            r.ins().len() == 0,
            r.outs().len() == 0,
            r.next_param_id == 0,
    {
        Runnable { name, code, inputs: params_new(), outputs: params_new(), next_param_id: 0 }
    }

    /// Appends a new port named `name` to the end of the registry `dir`, under a fresh id.
    /// Gives `None`, changing nothing, once the ids are used up.
    pub fn add_param_named(&mut self, dir: ParamType, name: &str) -> (r: Option<u64>)
        requires
            old(self).wf(),
        ensures
            final(self).wf(),
            final(self).name == old(self).name,
            final(self).code == old(self).code,
            old(self).next_param_id == u64::MAX ==> r is None && *final(self) == *old(self),
            old(self).next_param_id < u64::MAX ==> {
                &&& r == Some(old(self).next_param_id)
                &&& final(self).next_param_id == old(self).next_param_id + 1
                &&& final(self).registry(dir).len() == old(self).registry(dir).len() + 1
                &&& final(self).registry(dir).drop_last() == old(self).registry(dir)
                &&& final(self).registry(dir).last().0 == old(self).next_param_id
                &&& final(self).registry(dir).last().1.param_name@ == name@
                &&& final(self).registry(dir).last().1.param_kind == ParamTypes::String
                &&& !final(self).registry(dir).last().1.should_be_deleted
                &&& final(self).registry(dir).last().1.last_value is None
                &&& dir == ParamType::Input ==> final(self).outs() == old(self).outs()
                &&& dir == ParamType::Output ==> final(self).ins() == old(self).ins()
            },
    {
        if self.next_param_id == u64::MAX {
            return None;
        }
        let id = self.next_param_id;
        let p = FunctionParam::default_with_name(name);
        let ghost before = self.registry(dir);
        assert(!has_key(before, id)) by {
            if has_key(before, id) {
                let i = choose|i: int| 0 <= i < before.len() && #[trigger] before[i].0 == id;
                assert(before[i].0 < id);
            }
        }
        match dir {
            ParamType::Input => params_push(&mut self.inputs, id, p),
            ParamType::Output => params_push(&mut self.outputs, id, p),
        }
        self.next_param_id = id + 1;
        let ghost after = self.registry(dir);
        assert(after.drop_last() =~= before);
        assert forall|i: int| 0 <= i < after.len() implies #[trigger] after[i].0 < id + 1 by {
            if i < before.len() {
                assert(after[i] == before[i]);
            }
        }
        Some(id)
    }

    /// Appends a new port with the default name to the end of the registry `dir`.
    pub fn add_param(&mut self, dir: ParamType) -> (r: Option<u64>)
        requires
            old(self).wf(),
        ensures
            final(self).wf(),
            final(self).name == old(self).name,
            final(self).code == old(self).code,
            old(self).next_param_id == u64::MAX ==> r is None && *final(self) == *old(self),
            old(self).next_param_id < u64::MAX ==> {
                &&& r == Some(old(self).next_param_id)
                &&& final(self).next_param_id == old(self).next_param_id + 1
                &&& final(self).registry(dir).drop_last() == old(self).registry(dir)
                &&& final(self).registry(dir).len() == old(self).registry(dir).len() + 1
                &&& final(self).registry(dir).last().0 == old(self).next_param_id
                &&& final(self).registry(dir).last().1.param_name@ == "New..."@
                &&& final(self).registry(dir).last().1.param_kind == ParamTypes::String
                &&& !final(self).registry(dir).last().1.should_be_deleted
                &&& final(self).registry(dir).last().1.last_value is None
                &&& dir == ParamType::Input ==> final(self).outs() == old(self).outs()
                &&& dir == ParamType::Output ==> final(self).ins() == old(self).ins()
            },
    {
        self.add_param_named(dir, "New...")
    }

    /// Marks the port `id` for deletion, in whichever registry holds it; its removal waits
    /// for the next sweep. Gives whether the port was found.
    pub fn delete_param(&mut self, id: u64) -> (r: bool)
        requires
            old(self).wf(),
        ensures
            final(self).wf(),
            r == (old(self).direction_of(id) is Some),
            final(self).name == old(self).name,
            final(self).code == old(self).code,
            final(self).next_param_id == old(self).next_param_id,
            changed_at(old(self).ins(), final(self).ins(), id, |a: FunctionParam, b: FunctionParam| marked(a, b)),
            changed_at(old(self).outs(), final(self).outs(), id, |a: FunctionParam, b: FunctionParam| marked(a, b)),
    {
        let ghost ins0 = self.ins();
        let ghost outs0 = self.outs();
        if let Some(i) = params_index_of(&self.outputs, id) {
            let p = params_at_mut(&mut self.outputs, i);
            p.should_be_deleted = true;
            proof { self.lemma_only_key(ParamType::Output, outs0, i as int, id); }
            assert(!has_key(ins0, id));
            true
        } else if let Some(i) = params_index_of(&self.inputs, id) {
            let p = params_at_mut(&mut self.inputs, i);
            p.should_be_deleted = true;
            proof { self.lemma_only_key(ParamType::Input, ins0, i as int, id); }
            true
        } else {
            false
        }
    }

    /// Sets the display name of the port `id`; its id and every other field stay.
    /// Gives whether the port was found.
    pub fn rename_param(&mut self, id: u64, name: &str) -> (r: bool)
        requires
            old(self).wf(),
        ensures
            final(self).wf(),
            r == (old(self).direction_of(id) is Some),
            final(self).name == old(self).name,
            final(self).code == old(self).code,
            final(self).next_param_id == old(self).next_param_id,
            changed_at(old(self).ins(), final(self).ins(), id, |a: FunctionParam, b: FunctionParam| renamed(a, b, name@)),
            changed_at(old(self).outs(), final(self).outs(), id, |a: FunctionParam, b: FunctionParam| renamed(a, b, name@)),
    {
        let ghost ins0 = self.ins();
        let ghost outs0 = self.outs();
        if let Some(i) = params_index_of(&self.outputs, id) {
            let p = params_at_mut(&mut self.outputs, i);
            p.param_name = String::from_str(name);
            proof { self.lemma_only_key(ParamType::Output, outs0, i as int, id); }
            assert(!has_key(ins0, id));
            true
        } else if let Some(i) = params_index_of(&self.inputs, id) {
            let p = params_at_mut(&mut self.inputs, i);
            p.param_name = String::from_str(name);
            proof { self.lemma_only_key(ParamType::Input, ins0, i as int, id); }
            true
        } else {
            false
        }
    }

    /// Sets the value held by the port `id`. Gives whether the port was found.
    pub fn set_param_value(&mut self, id: u64, v: Option<rhai::Dynamic>) -> (r: bool)
        requires
            old(self).wf(),
        ensures
            final(self).wf(),
            r == (old(self).direction_of(id) is Some),
            final(self).name == old(self).name,
            final(self).code == old(self).code,
            final(self).next_param_id == old(self).next_param_id,
            changed_at(old(self).ins(), final(self).ins(), id, |a: FunctionParam, b: FunctionParam| valued(a, b, v)),
            changed_at(old(self).outs(), final(self).outs(), id, |a: FunctionParam, b: FunctionParam| valued(a, b, v)),
    {
        let ghost ins0 = self.ins();
        let ghost outs0 = self.outs();
        if let Some(i) = params_index_of(&self.outputs, id) {
            let p = params_at_mut(&mut self.outputs, i);
            p.last_value = v;
            proof { self.lemma_only_key(ParamType::Output, outs0, i as int, id); }
            assert(!has_key(ins0, id));
            true
        } else if let Some(i) = params_index_of(&self.inputs, id) {
            let p = params_at_mut(&mut self.inputs, i);
            p.last_value = v;
            proof { self.lemma_only_key(ParamType::Input, ins0, i as int, id); }
            true
        } else {
            false
        }
    }

    /// Sets the port `id` to hold the integer `n`, as a constant typed in by the user.
    pub fn set_constant(&mut self, id: u64, n: i64) -> (r: bool)
        requires
            old(self).wf(),
        ensures
            final(self).wf(),
            r == (old(self).direction_of(id) is Some),
            final(self).name == old(self).name,
            final(self).code == old(self).code,
            final(self).next_param_id == old(self).next_param_id,
            changed_at(old(self).ins(), final(self).ins(), id, |a: FunctionParam, b: FunctionParam| valued(a, b, Some(int_of(n)))),
            changed_at(old(self).outs(), final(self).outs(), id, |a: FunctionParam, b: FunctionParam| valued(a, b, Some(int_of(n)))),
    {
        self.set_param_value(id, Some(rhai::Dynamic::from_int(n)))
    }

    /// After one port of the registry `dir` changed in place at position `i`, which holds `id`:
    /// the registries still satisfy `wf`, and no other entry holds `id`.
    proof fn lemma_only_key(&self, dir: ParamType, before: Seq<(u64, FunctionParam)>, i: int, id: u64)
        requires
            0 <= i < before.len(),
            before[i].0 == id,
            distinct_keys(before),
            same_keys(before, self.registry(dir)),
            forall|j: int| 0 <= j < before.len() && j != i ==> #[trigger] self.registry(dir)[j] == before[j],
        ensures
            forall|j: int| 0 <= j < before.len() && j != i ==> #[trigger] before[j].0 != id,
    {
        assert forall|j: int| 0 <= j < before.len() && j != i implies #[trigger] before[j].0 != id by {
            assert(before[j].0 != before[i].0);
        }
    }

    /// Removes, from both registries, the ports marked for deletion; the rest keep their order.
    pub fn sweep_params(&mut self)
        requires
            old(self).wf(),
        ensures
            final(self).wf(),
            final(self).name == old(self).name,
            final(self).code == old(self).code,
            final(self).next_param_id == old(self).next_param_id,
            final(self).ins() == old(self).ins().filter(|e: (u64, FunctionParam)| port_is_live(e)),
            final(self).outs() == old(self).outs().filter(|e: (u64, FunctionParam)| port_is_live(e)),
    {
        let ghost ins0 = self.ins();
        let ghost outs0 = self.outs();
        params_retain_live(&mut self.inputs);
        params_retain_live(&mut self.outputs);
        proof {
            let p = |e: (u64, FunctionParam)| port_is_live(e);
            lemma_filter_keys(ins0, p);
            lemma_filter_keys(outs0, p);
            let ins = self.ins();
            let outs = self.outs();
            assert forall|i: int| 0 <= i < ins.len() implies #[trigger] ins[i].0 < self.next_param_id by {
                let j = choose|j: int| 0 <= j < ins0.len() && ins0[j] == ins[i];
            }
            assert forall|i: int| 0 <= i < outs.len() implies #[trigger] outs[i].0 < self.next_param_id by {
                let j = choose|j: int| 0 <= j < outs0.len() && outs0[j] == outs[i];
            }
            assert forall|i: int, j: int| 0 <= i < ins.len() && 0 <= j < outs.len() implies #[trigger] ins[i].0 != #[trigger] outs[j].0 by {
                let a = choose|a: int| 0 <= a < ins0.len() && ins0[a] == ins[i];
                let b = choose|b: int| 0 <= b < outs0.len() && outs0[b] == outs[j];
            }
        }
    }

    /// The port that a vertex names, looked up in the inputs first, then in the outputs.
    pub fn get_param_by_vertex(&self, vertex: &LinkVertex) -> (r: Option<&FunctionParam>)
        ensures
            has_key(self.ins(), vertex.param_id) ==> exists|i: int|
                0 <= i < self.ins().len() && self.ins()[i].0 == vertex.param_id && r == Some(&self.ins()[i].1),
            !has_key(self.ins(), vertex.param_id) && has_key(self.outs(), vertex.param_id) ==> exists|i: int|
                0 <= i < self.outs().len() && self.outs()[i].0 == vertex.param_id && r == Some(&self.outs()[i].1),
            !has_key(self.ins(), vertex.param_id) && !has_key(self.outs(), vertex.param_id) ==> r is None,
    {
        if let Some(i) = params_index_of(&self.inputs, vertex.param_id) {
            return Some(params_at(&self.inputs, i));
        }
        if let Some(i) = params_index_of(&self.outputs, vertex.param_id) {
            return Some(params_at(&self.outputs, i));
        }
        None
    }

    /// Whether the function satisfies `wf`, checked entry by entry.
    pub fn is_wf(&self) -> (r: bool)
        ensures
            r == self.wf(),
    {
        params_keys_ok(&self.inputs, self.next_param_id) && params_keys_ok(&self.outputs, self.next_param_id)
            && params_disjoint(&self.inputs, &self.outputs)
    }

    /// Which registry holds the port `id`.
    pub fn param_direction(&self, id: u64) -> (r: Option<ParamType>)
        ensures
            r == self.direction_of(id),
    {
        if params_index_of(&self.outputs, id).is_some() {
            Some(ParamType::Output)
        } else if params_index_of(&self.inputs, id).is_some() {
            Some(ParamType::Input)
        } else {
            None
        }
    }
}


impl Default for Runnable {
    /// The function a new node starts with: three inputs, two outputs, and a script that
    /// forwards the first two inputs.
    fn default() -> (r: Runnable)
        ensures
            r.wf(),
            r.name@ == "Function #0"@,
            r.ins().len() == 3,
            r.outs().len() == 2,
            r.ins()[0].1.param_name@ == "Input1"@,
            r.ins()[1].1.param_name@ == "Input2"@,
            r.ins()[2].1.param_name@ == "Input3"@,
            r.outs()[0].1.param_name@ == "Output1"@,
            r.outs()[1].1.param_name@ == "Output2"@,
            r.ins()[0].0 == 0 && r.ins()[1].0 == 1 && r.ins()[2].0 == 2,
            r.outs()[0].0 == 3 && r.outs()[1].0 == 4,
            r.next_param_id == 5,
            r.code@ == "let val = #{Output1: Input1, Output2: Input2};\nval"@,
            forall|i: int| 0 <= i < r.ins().len() ==> (#[trigger] r.ins()[i]).1.param_kind == ParamTypes::String,
            forall|i: int| 0 <= i < r.outs().len() ==> (#[trigger] r.outs()[i]).1.param_kind == ParamTypes::String,
            forall|i: int| 0 <= i < r.ins().len() ==> (#[trigger] r.ins()[i]).1.last_value is None,
            forall|i: int| 0 <= i < r.outs().len() ==> (#[trigger] r.outs()[i]).1.last_value is None,
            forall|i: int| 0 <= i < r.ins().len() ==> !(#[trigger] r.ins()[i]).1.should_be_deleted,
            forall|i: int| 0 <= i < r.outs().len() ==> !(#[trigger] r.outs()[i]).1.should_be_deleted,
    {
        let mut r = Runnable::new(
            String::from_str("Function #0"),
            String::from_str("let val = #{Output1: Input1, Output2: Input2};\nval"),
        );
        r.add_param_named(ParamType::Input, "Input1");
        r.add_param_named(ParamType::Input, "Input2");
        r.add_param_named(ParamType::Input, "Input3");
        r.add_param_named(ParamType::Output, "Output1");
        r.add_param_named(ParamType::Output, "Output2");
        r
    }
}

/// How a node shows itself: its ports, or its script.
#[derive(Clone, Copy, Debug, PartialEq, Eq, Structural)]
pub enum WidgetMode {
    Code,
    Signature,
}

/// An open rename session: the port being renamed and the text typed so far.
#[derive(Debug)]
pub struct RenameOptions {
    pub rename_id: u64,
    pub param_type: ParamType,
    pub new_name: String,
}

impl Default for RenameOptions {
    fn default() -> (r: RenameOptions)
        ensures
            r.rename_id == 0,
            r.param_type == ParamType::Input,
            r.new_name@.len() == 0,
    {
        RenameOptions { rename_id: 0, param_type: ParamType::Input, new_name: String::new() }
    }
}

/// An open session that types in a constant for a port.
#[derive(Debug)]
pub struct EditOptions {
    pub edit_id: u64,
    pub new_last_value: String,
}

impl Default for EditOptions {
    fn default() -> (r: EditOptions)
        ensures
            r.edit_id == 0,
            r.new_last_value@.len() == 0,
    {
        EditOptions { edit_id: 0, new_last_value: String::new() }
    }
}

/// A node of the graph: a function with its identity, display flags and edit sessions.
#[derive(Debug)]
pub struct FunctionWidget {
    pub id: u64,
    pub runnable: Runnable,
    pub is_open: bool,
    pub is_collapsed: bool,
    pub mode: WidgetMode,
    pub rename_options: Option<RenameOptions>,
    pub edit_options: Option<EditOptions>,
}

impl FunctionWidget {
    pub open spec fn wf(&self) -> bool {
        self.runnable.wf()
    }

    /// A node with the given function and identity, showing its ports, with no session open.
    pub fn new(runnable: Runnable, id: u64, is_open: bool, is_collapsed: bool) -> (r: FunctionWidget)
        ensures
            r.id == id,
            r.runnable == runnable,
            r.is_open == is_open,
            r.is_collapsed == is_collapsed,
            r.mode == WidgetMode::Signature,
            r.rename_options is None,
            r.edit_options is None,
    {
        FunctionWidget {
            id,
            runnable,
            is_open,
            is_collapsed,
            mode: WidgetMode::Signature,
            rename_options: None,
            edit_options: None,
        }
    }

    /// An open, collapsed node with the default function, renamed to `name`.
    pub fn default_with_pos(id: u64, name: String) -> (r: FunctionWidget)
        ensures
            r.wf(),
            r.id == id,
            r.runnable.name@ == name@,
            r.runnable.ins().len() == 3,
            r.runnable.outs().len() == 2,
            r.runnable.outs()[0].1.param_name@ == "Output1"@,
            r.runnable.ins()[0].1.param_name@ == "Input1"@,
            r.runnable.ins()[0].0 == 0,
            r.runnable.outs()[0].0 == 3,
            r.is_open,
            r.is_collapsed,
            r.mode == WidgetMode::Signature,
            r.rename_options is None,
    {
        let mut runnable = Runnable::default();
        runnable.name = name;
        FunctionWidget::new(runnable, id, true, true)
    }

    /// Switches between showing the ports and showing the script.
    pub fn toggle_mode(&mut self)
        ensures
            mode_toggled(*old(self), *final(self)),
    {
        self.mode = match self.mode {
            WidgetMode::Code => WidgetMode::Signature,
            WidgetMode::Signature => WidgetMode::Code,
        };
    }

    /// Opens a rename session on the port `param_id`, closing any session, rename or constant,
    /// open on this node;
    /// the buffer starts as the current name. Gives whether the port was found; if it was not,
    /// nothing changes.
    pub fn begin_rename(&mut self, param_id: u64) -> (r: bool)
        requires
            old(self).wf(),
        ensures
            r == (old(self).runnable.direction_of(param_id) is Some),
            !r ==> *final(self) == *old(self),
            r ==> rename_begun(*old(self), *final(self), param_id),
    {
        match self.runnable.param_direction(param_id) {
            Some(dir) => {
                let reg = match dir {
                    ParamType::Input => &self.runnable.inputs,
                    ParamType::Output => &self.runnable.outputs,
                };
                let i = params_index_of(reg, param_id);
                let ghost entries = self.runnable.registry(dir);
                let current = match i {
                    Some(i) => params_at(reg, i).param_name.clone(),
                    None => String::new(),
                };
                proof {
                    if let Some(i) = i {
                        assert forall|j: int| 0 <= j < entries.len() && #[trigger] entries[j].0 == param_id
                            implies entries[j].1.param_name@ == current@ by {
                            assert(j == i as int);
                        }
                    }
                }
                self.rename_options = Some(RenameOptions { rename_id: param_id, param_type: dir, new_name: current });
                self.edit_options = None;
                true
            },
            None => false,
        }
    }

    /// Replaces the text of the open rename session, if there is one.
    pub fn edit_rename(&mut self, text: String)
        ensures
            rename_typed(*old(self), *final(self), text@),
    {
        if let Some(o) = &mut self.rename_options {
            o.new_name = text;
        }
    }

    /// Closes the rename session and writes its text as the port's new name.
    /// Gives whether a session was open on a port that still exists.
    pub fn commit_rename(&mut self) -> (r: bool)
        requires
            old(self).wf(),
        ensures
            final(self).wf(),
            rename_committed(*old(self), *final(self)),
            r == (old(self).rename_options matches Some(o) && old(self).runnable.direction_of(o.rename_id) is Some),
    {
        match self.rename_options.take() {
            Some(o) => self.runnable.rename_param(o.rename_id, o.new_name.as_str()),
            None => false,
        }
    }

    /// Closes the rename session and discards its text; every name stays as it was.
    pub fn cancel_rename(&mut self)
        ensures
            rename_cancelled(*old(self), *final(self)),
    {
        self.rename_options = None;
    }
}


/// `b` is the node `a` after a sweep of its ports: the ports marked for deletion are gone,
/// and a rename session on a port that is gone is closed.
pub open spec fn swept_node(a: FunctionWidget, b: FunctionWidget) -> bool {
    &&& b.id == a.id
    &&& b.is_open == a.is_open
    &&& b.is_collapsed == a.is_collapsed
    &&& b.mode == a.mode
    &&& b.runnable.name == a.runnable.name
    &&& b.runnable.code == a.runnable.code
    &&& b.runnable.next_param_id == a.runnable.next_param_id
    &&& b.runnable.ins() == a.runnable.ins().filter(|e: (u64, FunctionParam)| port_is_live(e))
    &&& b.runnable.outs() == a.runnable.outs().filter(|e: (u64, FunctionParam)| port_is_live(e))
    &&& b.rename_options == match a.rename_options {
        Some(o) => if b.runnable.direction_of(o.rename_id) is Some { a.rename_options } else { None },
        None => None,
    }
}

impl FunctionWidget {
    /// Removes the ports marked for deletion and closes a rename session left without its port.
    pub fn sweep_params(&mut self)
        requires
            old(self).wf(),
        ensures
            final(self).wf(),
            swept_node(*old(self), *final(self)),
    {
        self.runnable.sweep_params();
        let gone = match &self.rename_options {
            Some(o) => self.runnable.param_direction(o.rename_id).is_none(),
            None => false,
        };
        if gone {
            self.rename_options = None;
        }
    }
}


/// `b` is the node `a` with only its ports changed: each port with key `k` as `step` allows.
pub open spec fn ports_changed(
    a: FunctionWidget,
    b: FunctionWidget,
    k: u64,
    step: spec_fn(FunctionParam, FunctionParam) -> bool,
) -> bool {
    &&& b.id == a.id
    &&& b.is_open == a.is_open
    &&& b.is_collapsed == a.is_collapsed
    &&& b.mode == a.mode
    &&& b.rename_options == a.rename_options
    &&& b.edit_options == a.edit_options
    &&& b.runnable.name == a.runnable.name
    &&& b.runnable.code == a.runnable.code
    &&& b.runnable.next_param_id == a.runnable.next_param_id
    &&& changed_at(a.runnable.ins(), b.runnable.ins(), k, step)
    &&& changed_at(a.runnable.outs(), b.runnable.outs(), k, step)
}

/// `b` is the node `a` with a rename session opened on its port `k`.
pub open spec fn rename_begun(a: FunctionWidget, b: FunctionWidget, k: u64) -> bool {
    &&& b.id == a.id
    &&& b.is_open == a.is_open
    &&& b.is_collapsed == a.is_collapsed
    &&& b.mode == a.mode
    &&& b.edit_options is None
    &&& b.runnable == a.runnable
    &&& b.rename_options matches Some(o)
    &&& b.rename_options->0.rename_id == k
    &&& Some(b.rename_options->0.param_type) == a.runnable.direction_of(k)
    &&& names_port(a.runnable.registry(b.rename_options->0.param_type), k, b.rename_options->0.new_name@)
}

/// `b` is the node `a` with its rename session closed and, if one was open, its text
/// written as the name of its port.
pub open spec fn rename_committed(a: FunctionWidget, b: FunctionWidget) -> bool {
    &&& b.id == a.id
    &&& b.is_open == a.is_open
    &&& b.is_collapsed == a.is_collapsed
    &&& b.mode == a.mode
    &&& b.edit_options == a.edit_options
    &&& b.rename_options is None
    &&& b.runnable.name == a.runnable.name
    &&& b.runnable.code == a.runnable.code
    &&& b.runnable.next_param_id == a.runnable.next_param_id
    &&& a.rename_options is None ==> b.runnable == a.runnable
    &&& a.rename_options matches Some(o) ==> {
        &&& changed_at(a.runnable.ins(), b.runnable.ins(), o.rename_id,
            |p: FunctionParam, q: FunctionParam| renamed(p, q, o.new_name@))
        &&& changed_at(a.runnable.outs(), b.runnable.outs(), o.rename_id,
            |p: FunctionParam, q: FunctionParam| renamed(p, q, o.new_name@))
    }
}

/// `b` is the node `a` with the text of its rename session, if one is open, replaced by `text`.
pub open spec fn rename_typed(a: FunctionWidget, b: FunctionWidget, text: Seq<char>) -> bool {
    &&& b.id == a.id
    &&& b.is_open == a.is_open
    &&& b.is_collapsed == a.is_collapsed
    &&& b.mode == a.mode
    &&& b.edit_options == a.edit_options
    &&& b.runnable == a.runnable
    &&& a.rename_options is None ==> b.rename_options is None
    &&& a.rename_options matches Some(o) ==> (b.rename_options matches Some(n)
        && n.rename_id == o.rename_id && n.param_type == o.param_type && n.new_name@ == text)
}

/// `b` is the node `a` with its rename session closed and every name as it was.
pub open spec fn rename_cancelled(a: FunctionWidget, b: FunctionWidget) -> bool {
    &&& b.id == a.id
    &&& b.is_open == a.is_open
    &&& b.is_collapsed == a.is_collapsed
    &&& b.mode == a.mode
    &&& b.edit_options == a.edit_options
    &&& b.runnable == a.runnable
    &&& b.rename_options is None
}

/// `b` is the node `a` closed, to be removed by the next sweep.
pub open spec fn node_closed(a: FunctionWidget, b: FunctionWidget) -> bool {
    &&& !b.is_open
    &&& b.id == a.id
    &&& b.is_collapsed == a.is_collapsed
    &&& b.mode == a.mode
    &&& b.rename_options == a.rename_options
    &&& b.edit_options == a.edit_options
    &&& b.runnable == a.runnable
}

/// `b` is the node `a` showing its other face: ports instead of script, or the reverse.
pub open spec fn mode_toggled(a: FunctionWidget, b: FunctionWidget) -> bool {
    &&& b.mode == match a.mode {
        WidgetMode::Code => WidgetMode::Signature,
        WidgetMode::Signature => WidgetMode::Code,
    }
    &&& b.id == a.id
    &&& b.runnable == a.runnable
    &&& b.is_open == a.is_open
    &&& b.is_collapsed == a.is_collapsed
    &&& b.rename_options == a.rename_options
    &&& b.edit_options == a.edit_options
}

/// `b` is the node `a` with a constant session opened, with an empty buffer, on its input `k`.
pub open spec fn edit_begun(a: FunctionWidget, b: FunctionWidget, k: u64) -> bool {
    &&& b.id == a.id
    &&& b.runnable == a.runnable
    &&& b.is_open == a.is_open
    &&& b.is_collapsed == a.is_collapsed
    &&& b.mode == a.mode
    &&& b.rename_options is None
    &&& b.edit_options matches Some(e)
    &&& b.edit_options->0.edit_id == k
    &&& b.edit_options->0.new_last_value@.len() == 0
}

/// `b` is the node `a` with the text of its constant session, if one is open, replaced by `text`.
pub open spec fn constant_typed(a: FunctionWidget, b: FunctionWidget, text: Seq<char>) -> bool {
    &&& b.id == a.id
    &&& b.runnable == a.runnable
    &&& b.is_open == a.is_open
    &&& b.is_collapsed == a.is_collapsed
    &&& b.mode == a.mode
    &&& b.rename_options == a.rename_options
    &&& a.edit_options is None ==> b.edit_options is None
    &&& a.edit_options matches Some(e) ==> (b.edit_options matches Some(n)
        && n.edit_id == e.edit_id && n.new_last_value@ == text)
}

/// Whether committing the constant session of `a` sets a value: a session is open, its text
/// reads as an integer, and its port exists.
pub open spec fn commit_sets_value(a: FunctionWidget) -> bool {
    a.edit_options matches Some(e) && parse_int(e.new_last_value@) is Some
        && a.runnable.direction_of(e.edit_id) is Some
}

/// `b` is the node `a` with its constant session closed; when the session's text reads as an
/// integer, its port holds that integer, and nothing else changes.
pub open spec fn edit_committed(a: FunctionWidget, b: FunctionWidget) -> bool {
    &&& b.edit_options is None
    &&& b.id == a.id
    &&& b.is_open == a.is_open
    &&& b.is_collapsed == a.is_collapsed
    &&& b.mode == a.mode
    &&& b.rename_options == a.rename_options
    &&& b.runnable.name == a.runnable.name
    &&& b.runnable.code == a.runnable.code
    &&& b.runnable.next_param_id == a.runnable.next_param_id
    &&& a.edit_options is None ==> b.runnable == a.runnable
    &&& a.edit_options matches Some(e) ==> match parse_int(e.new_last_value@) {
        Some(n) => {
            &&& changed_at(a.runnable.ins(), b.runnable.ins(), e.edit_id,
                |p: FunctionParam, q: FunctionParam| valued(p, q, Some(int_of(n))))
            &&& changed_at(a.runnable.outs(), b.runnable.outs(), e.edit_id,
                |p: FunctionParam, q: FunctionParam| valued(p, q, Some(int_of(n))))
        },
        None => b.runnable == a.runnable,
    }
}

/// `b` is the node `a` with its script replaced by `code`.
pub open spec fn code_set(a: FunctionWidget, b: FunctionWidget, code: Seq<char>) -> bool {
    &&& b.runnable.code@ == code
    &&& b.runnable.name == a.runnable.name
    &&& b.runnable.inputs == a.runnable.inputs
    &&& b.runnable.outputs == a.runnable.outputs
    &&& b.runnable.next_param_id == a.runnable.next_param_id
    &&& only_runnable_changed(a, b)
}

/// `b` is the node `a` with only its function changed.
pub open spec fn only_runnable_changed(a: FunctionWidget, b: FunctionWidget) -> bool {
    &&& b.id == a.id
    &&& b.is_open == a.is_open
    &&& b.is_collapsed == a.is_collapsed
    &&& b.mode == a.mode
    &&& b.rename_options == a.rename_options
    &&& b.edit_options == a.edit_options
}


impl FunctionWidget {
    /// Opens a session that types in a constant for the input port `param_id`, with an empty
    /// buffer, closing any session open on this node. Gives whether that input exists; if it
    /// does not, nothing changes.
    pub fn begin_edit(&mut self, param_id: u64) -> (r: bool)
        requires
            old(self).wf(),
        ensures
            r == has_key(old(self).runnable.ins(), param_id),
            !r ==> *final(self) == *old(self),
            r ==> edit_begun(*old(self), *final(self), param_id),
    {
        if params_index_of(&self.runnable.inputs, param_id).is_some() {
            self.edit_options = Some(EditOptions { edit_id: param_id, new_last_value: String::new() });
            self.rename_options = None;
            true
        } else {
            false
        }
    }

    /// Replaces the text of the open constant session, if there is one.
    pub fn edit_constant(&mut self, text: String)
        ensures
            constant_typed(*old(self), *final(self), text@),
    {
        if let Some(e) = &mut self.edit_options {
            e.new_last_value = text;
        }
    }

    /// Closes the constant session; when its text reads as an integer, the port takes that
    /// value, and otherwise nothing else changes. Gives whether a value was set.
    pub fn commit_edit(&mut self) -> (r: bool)
        requires
            old(self).wf(),
        ensures
            final(self).wf(),
            edit_committed(*old(self), *final(self)),
            r == commit_sets_value(*old(self)),
    {
        match self.edit_options.take() {
            Some(e) => match parse_constant(e.new_last_value.as_str()) {
                Some(n) => self.runnable.set_constant(e.edit_id, n),
                None => false,
            },
            None => false,
        }
    }
}

} // verus!
