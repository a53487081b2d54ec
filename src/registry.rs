//! Ports and the ordered, id-keyed registries that hold them.
use vstd::prelude::*;
use indexmap::IndexMap;

verus! {

#[verifier::external_type_specification]
#[verifier::external_body]
#[verifier::reject_recursive_types(K)]
#[verifier::reject_recursive_types(V)]
#[verifier::reject_recursive_types(S)]
pub struct ExIndexMap<K, V, S>(indexmap::IndexMap<K, V, S>);

/// The type tag of a port.
#[derive(Clone, Copy, Debug, PartialEq, Eq, Structural)]
pub enum ParamTypes {
    Number,
    String,
    Bool,
}

/// Which registry of a node a port belongs to.
#[derive(Clone, Copy, Debug, PartialEq, Eq, Structural)]
pub enum ParamType {
    Input,
    Output,
}

/// A port: a named, typed attachment point of a node.
/// Its id is the key under which its registry holds it.
#[derive(Debug)]
pub struct FunctionParam {
    pub param_name: String,
    pub param_kind: ParamTypes,
    pub should_be_deleted: bool,
    pub last_value: Option<rhai::Dynamic>,
}

impl FunctionParam {
    /// A fresh port with the given display name, no value, not marked for deletion.
    pub fn default_with_name(name: &str) -> (r: FunctionParam)
        ensures
            r.param_name@ == name@,
            r.param_kind == ParamTypes::String,
            !r.should_be_deleted,
            r.last_value is None,
    {
        FunctionParam {
            param_name: String::from_str(name),
            param_kind: ParamTypes::String,
            should_be_deleted: false,
            last_value: None,
        }
    }

    /// Whether the port survives the next sweep: it is not marked for deletion.
    pub fn is_live(&self) -> (r: bool)
        ensures
            r == !self.should_be_deleted,
    {
        !self.should_be_deleted
    }
}

impl Default for FunctionParam {
    fn default() -> (r: FunctionParam)
        ensures
            r.param_name@ == "New..."@,
            r.param_kind == ParamTypes::String,
            !r.should_be_deleted,
            r.last_value is None,
    {
        FunctionParam::default_with_name("New...")
    }
}

/// The entries of a port registry, in display order.
pub uninterp spec fn param_entries(m: IndexMap<u64, FunctionParam>) -> Seq<(u64, FunctionParam)>;

/// Whether an entry sequence holds the key.
pub open spec fn has_key<V>(s: Seq<(u64, V)>, k: u64) -> bool {
    exists|i: int| 0 <= i < s.len() && #[trigger] s[i].0 == k
}

/// Keys of an entry sequence are pairwise distinct.
pub open spec fn distinct_keys<V>(s: Seq<(u64, V)>) -> bool {
    forall|i: int, j: int| 0 <= i < s.len() && 0 <= j < s.len() && i != j ==> #[trigger] s[i].0 != #[trigger] s[j].0
}

/// Every key of an entry sequence is below a bound.
pub open spec fn keys_below<V>(s: Seq<(u64, V)>, bound: u64) -> bool {
    forall|i: int| 0 <= i < s.len() ==> #[trigger] s[i].0 < bound
}

/// No key is shared between two entry sequences.
pub open spec fn disjoint_keys<V>(a: Seq<(u64, V)>, b: Seq<(u64, V)>) -> bool {
    forall|i: int, j: int| 0 <= i < a.len() && 0 <= j < b.len() ==> #[trigger] a[i].0 != #[trigger] b[j].0
}

/// Two entry sequences carry the same keys in the same order.
pub open spec fn same_keys<V>(a: Seq<(u64, V)>, b: Seq<(u64, V)>) -> bool {
    a.len() == b.len() && forall|i: int| 0 <= i < a.len() ==> #[trigger] a[i].0 == b[i].0
}

/// The predicate under which a port survives a sweep.
pub open spec fn port_is_live(e: (u64, FunctionParam)) -> bool {
    !e.1.should_be_deleted
}

/// A filtered sequence only holds elements of the sequence it was filtered from.
pub proof fn lemma_filter_subset<A>(s: Seq<A>, p: spec_fn(A) -> bool)
    ensures
        forall|i: int| 0 <= i < s.filter(p).len() ==> s.contains(#[trigger] s.filter(p)[i]),
    decreases s.len(),
{
    reveal(Seq::filter);
    if s.len() > 0 {
        let d = s.drop_last();
        lemma_filter_subset(d, p);
        let f = s.filter(p);
        let fd = d.filter(p);
        assert forall|i: int| 0 <= i < f.len() implies s.contains(#[trigger] f[i]) by {
            if i < fd.len() {
                assert(f[i] == fd[i]);
                assert(d.contains(fd[i]));
                let j = choose|j: int| 0 <= j < d.len() && d[j] == fd[i];
                assert(s[j] == f[i]);
            } else {
                assert(s[s.len() - 1] == f[i]);
            }
        }
    }
}

/// A filtered sequence only holds elements of the sequence it was filtered from, and keeps
/// distinct keys distinct.
pub proof fn lemma_filter_keys<V>(s: Seq<(u64, V)>, p: spec_fn((u64, V)) -> bool)
    ensures
        forall|i: int| 0 <= i < s.filter(p).len() ==> s.contains(#[trigger] s.filter(p)[i]),
        forall|i: int| 0 <= i < s.filter(p).len() ==> p(#[trigger] s.filter(p)[i]),
        distinct_keys(s) ==> distinct_keys(s.filter(p)),
    decreases s.len(),
{
    reveal(Seq::filter);
    broadcast use vstd::seq_lib::group_filter_ensures;
    lemma_filter_subset(s, p);
    if s.len() > 0 {
        let d = s.drop_last();
        lemma_filter_keys(d, p);
        let f = s.filter(p);
        let fd = d.filter(p);
        if distinct_keys(s) {
            assert(distinct_keys(d)) by {
                assert forall|i: int, j: int| 0 <= i < d.len() && 0 <= j < d.len() && i != j implies #[trigger] d[i].0 != #[trigger] d[j].0 by {
                    assert(d[i] == s[i] && d[j] == s[j]);
                }
            }
            if p(s.last()) {
                assert forall|i: int, j: int| 0 <= i < f.len() && 0 <= j < f.len() && i != j implies #[trigger] f[i].0 != #[trigger] f[j].0 by {
                    if i < fd.len() && j < fd.len() {
                        assert(f[i] == fd[i] && f[j] == fd[j]);
                    } else {
                        let k = if i < fd.len() { i } else { j };
                        assert(f[k] == fd[k]);
                        assert(d.contains(fd[k]));
                        let m = choose|m: int| 0 <= m < d.len() && d[m] == fd[k];
                        assert(s[m] == d[m]);
                        assert(s[s.len() - 1].0 != s[m].0);
                    }
                }
            }
        }
    }
}

/// Relies on `IndexMap::new`: a new map is empty.
#[verifier::external_body]
pub(crate) fn params_new() -> (r: IndexMap<u64, FunctionParam>)
    ensures
        param_entries(r) == Seq::<(u64, FunctionParam)>::empty(),
{
    IndexMap::new()
}

/// Relies on `IndexMap::len`: the number of entries.
#[verifier::external_body]
pub(crate) fn params_len(m: &IndexMap<u64, FunctionParam>) -> (r: usize)
    ensures
        r == param_entries(*m).len(),
{
    m.len()
}

/// Relies on `Index<usize> for IndexMap`: the value of the entry at a position.
#[verifier::external_body]
pub(crate) fn params_at(m: &IndexMap<u64, FunctionParam>, i: usize) -> (r: &FunctionParam)
    requires
        i < param_entries(*m).len(),
    ensures
        *r == param_entries(*m)[i as int].1,
{
    &m[i]
}

/// Relies on `IndexMut<usize> for IndexMap`: the value of the entry at a position, in place.
#[verifier::external_body]
pub(crate) fn params_at_mut(m: &mut IndexMap<u64, FunctionParam>, i: usize) -> (r: &mut FunctionParam)
    requires
        i < param_entries(*old(m)).len(),
    ensures
        *r == param_entries(*old(m))[i as int].1,
        param_entries(*final(m)) == param_entries(*old(m)).update(
            i as int,
            (param_entries(*old(m))[i as int].0, *final(r)),
        ),
{
    &mut m[i]
}

/// Relies on `IndexMap::keys` and `Index<usize> for Keys`: the key of the entry at a position.
#[verifier::external_body]
pub(crate) fn params_key_at(m: &IndexMap<u64, FunctionParam>, i: usize) -> (r: u64)
    requires
        i < param_entries(*m).len(),
    ensures
        r == param_entries(*m)[i as int].0,
{
    m.keys()[i]
}

/// Relies on `IndexMap::get_index_of`: the position of the key, if it is present.
#[verifier::external_body]
pub(crate) fn params_index_of(m: &IndexMap<u64, FunctionParam>, k: u64) -> (r: Option<usize>)
    ensures
        match r {
            Some(i) => i < param_entries(*m).len() && param_entries(*m)[i as int].0 == k,
            None => !has_key(param_entries(*m), k),
        },
{
    m.get_index_of(&k)
}

/// Relies on `IndexMap::insert`: a key that is not present goes last.
#[verifier::external_body]
pub(crate) fn params_push(m: &mut IndexMap<u64, FunctionParam>, k: u64, v: FunctionParam)
    requires
        !has_key(param_entries(*old(m)), k),
    ensures
        param_entries(*final(m)) == param_entries(*old(m)).push((k, v)),
{
    m.insert(k, v);
}

/// Relies on `IndexMap::retain`: the entries kept stay in order.
/// Keeps the ports that are not marked for deletion.
#[verifier::external_body]
pub(crate) fn params_retain_live(m: &mut IndexMap<u64, FunctionParam>)
    ensures
        param_entries(*final(m)) == param_entries(*old(m)).filter(|e: (u64, FunctionParam)| port_is_live(e)),
{
    m.retain(|_, p| p.is_live());
}

/// Whether the keys of a port registry are distinct and below `bound`.
pub(crate) fn params_keys_ok(m: &IndexMap<u64, FunctionParam>, bound: u64) -> (r: bool)
    ensures
        r == (distinct_keys(param_entries(*m)) && keys_below(param_entries(*m), bound)),
{
    let ghost s = param_entries(*m);
    let n = params_len(m);
    let mut i: usize = 0;
    while i < n
        invariant
            n == s.len(),
            s == param_entries(*m),
            i <= n,
            forall|x: int| 0 <= x < i ==> #[trigger] s[x].0 < bound,
            forall|x: int, y: int| 0 <= x < i && 0 <= y < i && x != y ==> #[trigger] s[x].0 != #[trigger] s[y].0,
        decreases n - i,
    {
        let k = params_key_at(m, i);
        if k >= bound {
            return false;
        }
        let mut j: usize = 0;
        while j < i
            invariant
                i < n,
                n == s.len(),
                s == param_entries(*m),
                k == s[i as int].0,
                j <= i,
                forall|y: int| 0 <= y < j ==> #[trigger] s[y].0 != k,
            decreases i - j,
        {
            if params_key_at(m, j) == k {
                return false;
            }
            j += 1;
        }
        i += 1;
    }
    true
}

/// Whether no key of `a` is also a key of `b`.
pub(crate) fn params_disjoint(a: &IndexMap<u64, FunctionParam>, b: &IndexMap<u64, FunctionParam>) -> (r: bool)
    ensures
        r == disjoint_keys(param_entries(*a), param_entries(*b)),
{
    let ghost sa = param_entries(*a);
    let ghost sb = param_entries(*b);
    let n = params_len(a);
    let mut i: usize = 0;
    while i < n
        invariant
            n == sa.len(),
            sa == param_entries(*a),
            sb == param_entries(*b),
            i <= n,
            forall|x: int, y: int| 0 <= x < i && 0 <= y < sb.len() ==> #[trigger] sa[x].0 != #[trigger] sb[y].0,
        decreases n - i,
    {
        let k = params_key_at(a, i);
        match params_index_of(b, k) {
            Some(j) => {
                assert(sa[i as int].0 == sb[j as int].0);
                return false;
            },
            None => {},
        }
        i += 1;
    }
    true
}

} // verus!
