use vstd::prelude::*;

verus! {

/// Abstract shape of one node of a TOML document, as far as this tool reads it.
///
/// A node is either a string, a boolean, some other scalar value (integer,
/// float, date-time), an array of nodes, a table-like node (a standard table or
/// an inline table, abstracted to the mapping from keys to child nodes), or an
/// array of tables, into which this tool never descends.
#[verifier::ext_equal]
pub enum Toml {
    Str(Seq<char>),
    Boolean(bool),
    OtherScalar,
    Arr(Seq<Toml>),
    SubTable(Map<Seq<char>, Toml>),
    OtherItem,
}

/// The entry of a table under one key, if the key is present.
pub open spec fn entry_of(m: Map<Seq<char>, Toml>, k: Seq<char>) -> Option<Toml> {
    if m.contains_key(k) {
        Some(m[k])
    } else {
        None
    }
}

/// The node reached from the table `m` by following `path`; `None` when a key
/// along the way is missing or an intermediate node is not table-like.
pub open spec fn node_at(m: Map<Seq<char>, Toml>, path: Seq<Seq<char>>) -> Option<Toml>
    decreases path.len(),
{
    if path.len() == 0 {
        Some(Toml::SubTable(m))
    } else if !m.contains_key(path[0]) {
        None
    } else if path.len() == 1 {
        Some(m[path[0]])
    } else {
        match m[path[0]] {
            Toml::SubTable(sub) => node_at(sub, path.drop_first()),
            _ => None,
        }
    }
}

/// The table `m` with the node at `path` replaced by `v`, creating an empty
/// table wherever an intermediate key is missing or not table-like.
pub open spec fn set_path(m: Map<Seq<char>, Toml>, path: Seq<Seq<char>>, v: Toml) -> Map<
    Seq<char>,
    Toml,
>
    recommends
        path.len() >= 1,
    decreases path.len(),
{
    if path.len() <= 1 {
        m.insert(path[0], v)
    } else {
        let sub = if m.contains_key(path[0]) && m[path[0]] is SubTable {
            m[path[0]]->SubTable_0
        } else {
            Map::<Seq<char>, Toml>::empty()
        };
        m.insert(path[0], Toml::SubTable(set_path(sub, path.drop_first(), v)))
    }
}

/// Every key along `path` is either absent (so the step can be created) or
/// holds a table-like node.
pub open spec fn navigable(m: Map<Seq<char>, Toml>, path: Seq<Seq<char>>) -> bool
    decreases path.len(),
{
    path.len() == 0 || match entry_of(m, path[0]) {
        None => true,
        Some(Toml::SubTable(sub)) => navigable(sub, path.drop_first()),
        Some(_) => false,
    }
}

/// Whether the array holds the string `s` as one of its elements.
pub open spec fn arr_has_str(items: Seq<Toml>, s: Seq<char>) -> bool {
    exists|i: int| 0 <= i < items.len() && items[i] == Toml::Str(s)
}

/// Unfolds `navigable` and `node_at` one level when the first key holds a
/// table-like node.
pub proof fn lemma_step_table(m: Map<Seq<char>, Toml>, path: Seq<Seq<char>>)
    requires
        path.len() >= 1,
        entry_of(m, path[0]) matches Some(Toml::SubTable(_)),
    ensures
        navigable(m, path) == navigable(m[path[0]]->SubTable_0, path.drop_first()),
        path.len() >= 2 ==> node_at(m, path) == node_at(
            m[path[0]]->SubTable_0,
            path.drop_first(),
        ),
{
}

/// When the first key of a non-empty path is absent, the path is navigable
/// (every missing step can be created) and reaches no node.
pub proof fn lemma_step_absent(m: Map<Seq<char>, Toml>, path: Seq<Seq<char>>)
    requires
        path.len() >= 1,
        entry_of(m, path[0]) is None,
    ensures
        navigable(m, path),
        node_at(m, path) is None,
{
}

/// Computes `set_path` along a three-key path whose first two keys hold the
/// given tables.
pub proof fn lemma_set_path3(
    m: Map<Seq<char>, Toml>,
    s1: Map<Seq<char>, Toml>,
    s2: Map<Seq<char>, Toml>,
    a: Seq<char>,
    b: Seq<char>,
    c: Seq<char>,
    v: Toml,
)
    requires
        entry_of(m, a) == Some(Toml::SubTable(s1)),
        entry_of(s1, b) == Some(Toml::SubTable(s2)),
    ensures
        set_path(m, seq![a, b, c], v) == m.insert(
            a,
            Toml::SubTable(s1.insert(b, Toml::SubTable(s2.insert(c, v)))),
        ),
{
    assert(seq![a, b, c].drop_first() =~= seq![b, c]);
    assert(seq![b, c].drop_first() =~= seq![c]);
    assert(set_path(s2, seq![c], v) == s2.insert(c, v));
    assert(set_path(s1, seq![b, c], v) == s1.insert(b, Toml::SubTable(s2.insert(c, v))));
}

/// `q` leaves `p` at some position: the two agree up to it and then differ.
pub open spec fn diverges_from(p: Seq<Seq<char>>, q: Seq<Seq<char>>) -> bool {
    exists|i: int|
        0 <= i < p.len() && i < q.len() && (forall|j: int| 0 <= j < i ==> q[j] == p[j]) && q[i]
            != p[i]
}

/// Law: the node written by `set_path` reads back unchanged.
pub proof fn lemma_set_path_reads_back(m: Map<Seq<char>, Toml>, path: Seq<Seq<char>>, v: Toml)
    requires
        path.len() >= 1,
    ensures
        node_at(set_path(m, path, v), path) == Some(v),
    decreases path.len(),
{
    if path.len() > 1 {
        let sub = if m.contains_key(path[0]) && m[path[0]] is SubTable {
            m[path[0]]->SubTable_0
        } else {
            Map::<Seq<char>, Toml>::empty()
        };
        lemma_set_path_reads_back(sub, path.drop_first(), v);
    }
}

/// Helper for the frame law, with the point of divergence given explicitly.
pub proof fn lemma_set_path_frame(
    m: Map<Seq<char>, Toml>,
    path: Seq<Seq<char>>,
    v: Toml,
    q: Seq<Seq<char>>,
    i: int,
)
    requires
        path.len() >= 1,
        q.len() >= 1,
        0 <= i < path.len(),
        i < q.len(),
        forall|j: int| 0 <= j < i ==> q[j] == path[j],
        q[i] != path[i],
    ensures
        node_at(set_path(m, path, v), q) == node_at(m, q),
    decreases i,
{
    if i == 0 {
    } else {
        let sub = if m.contains_key(path[0]) && m[path[0]] is SubTable {
            m[path[0]]->SubTable_0
        } else {
            Map::<Seq<char>, Toml>::empty()
        };
        assert forall|j: int| 0 <= j < i - 1 implies q.drop_first()[j] == path.drop_first()[j] by {
            assert(q[j + 1] == path[j + 1]);
        }
        lemma_set_path_frame(sub, path.drop_first(), v, q.drop_first(), i - 1);
        if m.contains_key(q[0]) && m[q[0]] is SubTable {
        } else {
            assert(node_at(Map::<Seq<char>, Toml>::empty(), q.drop_first()) is None);
        }
    }
}

/// Law: `set_path` touches nothing beside its path. Any path that diverges
/// from the written one reaches the same node before and after.
pub proof fn lemma_set_path_preserves_divergent(
    m: Map<Seq<char>, Toml>,
    path: Seq<Seq<char>>,
    v: Toml,
    q: Seq<Seq<char>>,
)
    requires
        path.len() >= 1,
        q.len() >= 1,
        diverges_from(path, q),
    ensures
        node_at(set_path(m, path, v), q) == node_at(m, q),
{
    let i = choose|i: int|
        0 <= i < path.len() && i < q.len() && (forall|j: int| 0 <= j < i ==> q[j] == path[j]) && q[i]
            != path[i];
    lemma_set_path_frame(m, path, v, q, i);
}

/// Law: writing the same node twice is the same as writing it once.
pub proof fn lemma_set_path_idempotent(m: Map<Seq<char>, Toml>, path: Seq<Seq<char>>, v: Toml)
    requires
        path.len() >= 1,
    ensures
        set_path(set_path(m, path, v), path, v) == set_path(m, path, v),
    decreases path.len(),
{
    if path.len() <= 1 {
        assert(m.insert(path[0], v).insert(path[0], v) =~= m.insert(path[0], v));
    } else {
        let sub = if m.contains_key(path[0]) && m[path[0]] is SubTable {
            m[path[0]]->SubTable_0
        } else {
            Map::<Seq<char>, Toml>::empty()
        };
        lemma_set_path_idempotent(sub, path.drop_first(), v);
        let s = Toml::SubTable(set_path(sub, path.drop_first(), v));
        assert(m.insert(path[0], s).insert(path[0], s) =~= m.insert(path[0], s));
    }
}

/// After `set_path`, every key on the way to the written node holds a table,
/// so the same path can be navigated again.
pub proof fn lemma_set_path_navigable(m: Map<Seq<char>, Toml>, path: Seq<Seq<char>>, v: Toml)
    requires
        path.len() >= 1,
    ensures
        navigable(set_path(m, path, v), path.drop_last()),
    decreases path.len(),
{
    if path.len() <= 1 {
        assert(path.drop_last().len() == 0);
    } else {
        let sub = if m.contains_key(path[0]) && m[path[0]] is SubTable {
            m[path[0]]->SubTable_0
        } else {
            Map::<Seq<char>, Toml>::empty()
        };
        lemma_set_path_navigable(sub, path.drop_first(), v);
        assert(path.drop_last().drop_first() =~= path.drop_first().drop_last());
        assert(path.drop_last()[0] == path[0]);
    }
}

} // verus!
