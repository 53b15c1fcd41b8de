use vstd::prelude::*;

use crate::document::{
    arr_create_at1, arr_len_at1, arr_push_at1, arr_str_at1, doc_model, doc_well_formed, kind_at1,
    kind_at2, kind_at3, kind_at4, parse_doc, parsed_model, render_doc, set_bool_at4, set_str_at3,
    table_create_nested2, NodeKind,
};
use crate::model::{
    arr_has_str, entry_of, lemma_set_path3, lemma_step_absent, lemma_step_table, navigable,
    node_at, set_path, Toml,
};
use toml_edit::DocumentMut;
use vstd::string::StringExecFns;

verus! {

/// One failure of the enable operation. Every variant is fatal; the caller is
/// expected to stop and report it.
///
/// `AlreadyConfigured` is the idempotence guard: the plugin configuration file
/// is already on disk. `ImportConflict` means the import entry is already
/// registered. `ImportsNotAList`, `AnnotationPathNotATable` and
/// `AnnotationNotAValue` are schema violations: a document node does not have
/// the shape this tool expects. `MalformedConfig` means the main configuration
/// text did not parse as TOML.
#[derive(Clone, Copy, Debug, PartialEq, Eq, Structural)]
pub enum EnableError {
    AlreadyConfigured,
    ImportConflict,
    ImportsNotAList,
    AnnotationPathNotATable,
    AnnotationNotAValue,
    MalformedConfig,
}

pub open spec fn spec_containerd_config_path() -> Seq<char> {
    "/etc/containerd/config.toml"@
}

pub open spec fn spec_imports_dir_path() -> Seq<char> {
    "/etc/containerd/config.toml.d"@
}

pub open spec fn spec_nydus_config_path() -> Seq<char> {
    "/etc/containerd/config.toml.d/nydus-snapshotter.toml"@
}

pub open spec fn spec_nydus_socket_path() -> Seq<char> {
    "/run/containerd-nydus/containerd-nydus-grpc.sock"@
}

/// Path of the main containerd configuration file.
pub fn containerd_config_path() -> (r: &'static str)
    ensures
        r@ == spec_containerd_config_path(),
{
    "/etc/containerd/config.toml"
}

/// Path of the drop-in imports directory.
pub fn imports_dir_path() -> (r: &'static str)
    ensures
        r@ == spec_imports_dir_path(),
{
    "/etc/containerd/config.toml.d"
}

/// Path of the standalone snapshotter configuration file this tool creates.
pub fn nydus_config_path() -> (r: &'static str)
    ensures
        r@ == spec_nydus_config_path(),
{
    "/etc/containerd/config.toml.d/nydus-snapshotter.toml"
}

/// Path of the snapshotter's listen socket, referenced but never created.
pub fn nydus_socket_path() -> (r: &'static str)
    ensures
        r@ == spec_nydus_socket_path(),
{
    "/run/containerd-nydus/containerd-nydus-grpc.sock"
}

/// The keys leading to the table that holds the annotation flag.
pub open spec fn annotation_parents() -> Seq<Seq<char>> {
    seq!["plugins"@, "io.containerd.grpc.v1.cri"@, "containerd"@]
}

/// The full path of the annotation flag.
pub open spec fn annotation_path() -> Seq<Seq<char>> {
    seq!["plugins"@, "io.containerd.grpc.v1.cri"@, "containerd"@, "disable_snapshot_annotations"@]
}

/// What registering the import path `path` does to a document: create
/// `imports` as a one-element list when it is absent, refuse a duplicate
/// entry, refuse an `imports` that is not a list, and otherwise append `path`,
/// keeping the existing entries and their order.
pub open spec fn import_registration(m: Map<Seq<char>, Toml>, path: Seq<char>) -> Result<
    Map<Seq<char>, Toml>,
    EnableError,
> {
    match entry_of(m, "imports"@) {
        None => Ok(m.insert("imports"@, Toml::Arr(seq![Toml::Str(path)]))),
        Some(Toml::Arr(items)) => if arr_has_str(items, path) {
            Err(EnableError::ImportConflict)
        } else {
            Ok(m.insert("imports"@, Toml::Arr(items.push(Toml::Str(path)))))
        },
        Some(_) => Err(EnableError::ImportsNotAList),
    }
}

/// What forcing the annotation flag does to a document: refuse a non-table
/// node on the way down, refuse a non-scalar node at the flag itself, and
/// otherwise set the flag to `false`, creating the missing tables.
pub open spec fn annotation_update(m: Map<Seq<char>, Toml>) -> Result<
    Map<Seq<char>, Toml>,
    EnableError,
> {
    if !navigable(m, annotation_parents()) {
        Err(EnableError::AnnotationPathNotATable)
    } else {
        match node_at(m, annotation_path()) {
            Some(Toml::Arr(_)) => Err(EnableError::AnnotationNotAValue),
            Some(Toml::SubTable(_)) => Err(EnableError::AnnotationNotAValue),
            Some(Toml::OtherItem) => Err(EnableError::AnnotationNotAValue),
            _ => Ok(set_path(m, annotation_path(), Toml::Boolean(false))),
        }
    }
}

/// The content of the standalone snapshotter configuration document.
pub open spec fn nydus_config_model() -> Map<Seq<char>, Toml> {
    Map::<Seq<char>, Toml>::empty().insert(
        "proxy_plugins"@,
        Toml::SubTable(
            Map::<Seq<char>, Toml>::empty().insert(
                "nydus"@,
                Toml::SubTable(
                    Map::<Seq<char>, Toml>::empty().insert(
                        "type"@,
                        Toml::Str("snapshot"@),
                    ).insert("address"@, Toml::Str(spec_nydus_socket_path())),
                ),
            ),
        ),
    )
}

/// Builds the standalone snapshotter configuration document:
/// a `proxy_plugins` table with one `nydus` sub-table holding
/// `type = "snapshot"` and the socket address.
pub fn create_nydus_config() -> (d: DocumentMut)
    ensures
        doc_model(d) == nydus_config_model(),
        doc_well_formed(d),
{
    proof {
        reveal_strlit("");
    }
    let mut d = match parse_doc("") {
        Ok(fresh) => fresh,
        Err(()) => unreached(),
    };
    table_create_nested2(&mut d, "proxy_plugins", "nydus");
    proof {
        reveal_with_fuel(navigable, 4);
        assert(seq!["proxy_plugins"@, "nydus"@].drop_first() =~= seq!["nydus"@]);
        assert(seq!["nydus"@].drop_first() =~= Seq::<Seq<char>>::empty());
        assert(navigable(doc_model(d), seq!["proxy_plugins"@, "nydus"@]));
    }
    let ghost e = Map::<Seq<char>, Toml>::empty();
    let ghost inner0 = e.insert("nydus"@, Toml::SubTable(e));
    let ghost m1 = doc_model(d);
    proof {
        assert(m1 == e.insert("proxy_plugins"@, Toml::SubTable(inner0)));
        lemma_set_path3(
            m1,
            inner0,
            e,
            "proxy_plugins"@,
            "nydus"@,
            "type"@,
            Toml::Str("snapshot"@),
        );
    }
    set_str_at3(&mut d, "proxy_plugins", "nydus", "type", "snapshot");
    let ghost inner1 = inner0.insert(
        "nydus"@,
        Toml::SubTable(e.insert("type"@, Toml::Str("snapshot"@))),
    );
    let ghost m2 = doc_model(d);
    proof {
        reveal_with_fuel(navigable, 4);
        assert(seq!["proxy_plugins"@, "nydus"@].drop_first() =~= seq!["nydus"@]);
        assert(seq!["nydus"@].drop_first() =~= Seq::<Seq<char>>::empty());
        assert(m2 == m1.insert("proxy_plugins"@, Toml::SubTable(inner1)));
        assert(navigable(m2, seq!["proxy_plugins"@, "nydus"@]));
        lemma_set_path3(
            m2,
            inner1,
            e.insert("type"@, Toml::Str("snapshot"@)),
            "proxy_plugins"@,
            "nydus"@,
            "address"@,
            Toml::Str(spec_nydus_socket_path()),
        );
    }
    let sock = nydus_socket_path();
    set_str_at3(&mut d, "proxy_plugins", "nydus", "address", sock);
    proof {
        let leaf = e.insert("type"@, Toml::Str("snapshot"@)).insert(
            "address"@,
            Toml::Str(spec_nydus_socket_path()),
        );
        assert(doc_model(d) == m2.insert(
            "proxy_plugins"@,
            Toml::SubTable(inner1.insert("nydus"@, Toml::SubTable(leaf))),
        ));
        assert(inner1.insert("nydus"@, Toml::SubTable(leaf)) =~~= e.insert(
            "nydus"@,
            Toml::SubTable(leaf),
        ));
        assert(doc_model(d) =~~= nydus_config_model());
    }
    d
}

/// Ensures the document's `imports` list holds `path` exactly once: creates
/// the list when it is absent, fails with `ImportConflict` when `path` is
/// already present, fails with `ImportsNotAList` when `imports` is present but
/// not a list, and otherwise appends `path` after the existing entries,
/// leaving them unchanged. On failure the document is not modified.
pub fn add_import(doc: &mut DocumentMut, path: &str) -> (r: Result<(), EnableError>)
    ensures
        doc_well_formed(*old(doc)) ==> doc_well_formed(*final(doc)),
        match import_registration(doc_model(*old(doc)), path@) {
            Ok(m1) => r is Ok && doc_model(*final(doc)) == m1,
            Err(e) => r == Err::<(), EnableError>(e) && doc_model(*final(doc)) == doc_model(
                *old(doc),
            ),
        },
{
    match kind_at1(doc, "imports") {
        NodeKind::Absent => {
            arr_create_at1(doc, "imports", path);
            Ok(())
        },
        NodeKind::ArrayValue => {
            let n = arr_len_at1(doc, "imports");
            let path_owned = String::from_str(path);
            let mut found = false;
            let mut i: usize = 0;
            while i < n
                invariant
                    *doc == *old(doc),
                    i <= n,
                    path_owned@ == path@,
                    node_at(doc_model(*doc), seq!["imports"@]) matches Some(Toml::Arr(items))
                        && n == items.len() && (found <==> exists|j: int|
                        0 <= j < i && items[j] == Toml::Str(path@)),
                decreases n - i,
            {
                match arr_str_at1(doc, "imports", i) {
                    Some(s) => {
                        if s == path_owned {
                            found = true;
                        }
                    },
                    None => {},
                }
                i += 1;
            }
            if found {
                Err(EnableError::ImportConflict)
            } else {
                arr_push_at1(doc, "imports", path);
                Ok(())
            }
        },
        _ => Err(EnableError::ImportsNotAList),
    }
}

/// Forces `plugins."io.containerd.grpc.v1.cri".containerd.
/// disable_snapshot_annotations` to `false`, creating the intermediate tables
/// as needed. Fails with `AnnotationPathNotATable` when an intermediate key
/// holds a non-table node, and with `AnnotationNotAValue` when the flag itself
/// holds a non-scalar node. On failure the document is not modified.
pub fn set_disable_snapshot_annotations(doc: &mut DocumentMut) -> (r: Result<(), EnableError>)
    ensures
        doc_well_formed(*old(doc)) ==> doc_well_formed(*final(doc)),
        match annotation_update(doc_model(*old(doc))) {
            Ok(m1) => r is Ok && doc_model(*final(doc)) == m1,
            Err(e) => r == Err::<(), EnableError>(e) && doc_model(*final(doc)) == doc_model(
                *old(doc),
            ),
        },
{
    let ghost m = doc_model(*doc);
    let k1 = kind_at1(doc, "plugins");
    proof {
        assert(annotation_parents()[0] == "plugins"@);
        assert(annotation_parents().drop_first() =~= seq!["io.containerd.grpc.v1.cri"@,
            "containerd"@]);
        assert(annotation_path().drop_first() =~= seq!["io.containerd.grpc.v1.cri"@,
            "containerd"@, "disable_snapshot_annotations"@]);
    }
    if matches!(k1, NodeKind::Absent) {
        proof {
            lemma_step_absent(m, annotation_parents());
            lemma_step_absent(m, annotation_path());
        }
        set_bool_at4(
            doc,
            "plugins",
            "io.containerd.grpc.v1.cri",
            "containerd",
            "disable_snapshot_annotations",
            false,
        );
        return Ok(());
    }
    if !matches!(k1, NodeKind::TableLike) {
        return Err(EnableError::AnnotationPathNotATable);
    }
    let ghost s1 = m["plugins"@]->SubTable_0;
    proof {
        lemma_step_table(m, annotation_parents());
        lemma_step_table(m, annotation_path());
        lemma_step_table(m, seq!["plugins"@, "io.containerd.grpc.v1.cri"@]);
        assert(seq!["plugins"@, "io.containerd.grpc.v1.cri"@].drop_first() =~= seq![
            "io.containerd.grpc.v1.cri"@,
        ]);
    }
    let k2 = kind_at2(doc, "plugins", "io.containerd.grpc.v1.cri");
    proof {
        assert(node_at(m, seq!["plugins"@, "io.containerd.grpc.v1.cri"@]) == node_at(s1, seq![
            "io.containerd.grpc.v1.cri"@,
        ]));
    }
    if matches!(k2, NodeKind::Absent) {
        proof {
            lemma_step_absent(s1, annotation_parents().drop_first());
            lemma_step_absent(s1, annotation_path().drop_first());
        }
        set_bool_at4(
            doc,
            "plugins",
            "io.containerd.grpc.v1.cri",
            "containerd",
            "disable_snapshot_annotations",
            false,
        );
        return Ok(());
    }
    if !matches!(k2, NodeKind::TableLike) {
        return Err(EnableError::AnnotationPathNotATable);
    }
    let ghost s2 = s1["io.containerd.grpc.v1.cri"@]->SubTable_0;
    proof {
        lemma_step_table(s1, annotation_parents().drop_first());
        lemma_step_table(s1, annotation_path().drop_first());
        assert(annotation_parents().drop_first().drop_first() =~= seq!["containerd"@]);
        assert(annotation_path().drop_first().drop_first() =~= seq!["containerd"@,
            "disable_snapshot_annotations"@]);
        lemma_step_table(m, seq!["plugins"@, "io.containerd.grpc.v1.cri"@, "containerd"@]);
        assert(seq!["plugins"@, "io.containerd.grpc.v1.cri"@, "containerd"@].drop_first() =~= seq![
            "io.containerd.grpc.v1.cri"@,
            "containerd"@,
        ]);
        lemma_step_table(s1, seq!["io.containerd.grpc.v1.cri"@, "containerd"@]);
        assert(seq!["io.containerd.grpc.v1.cri"@, "containerd"@].drop_first() =~= seq![
            "containerd"@,
        ]);
    }
    let k3 = kind_at3(doc, "plugins", "io.containerd.grpc.v1.cri", "containerd");
    if matches!(k3, NodeKind::Absent) {
        proof {
            lemma_step_absent(s2, seq!["containerd"@]);
            lemma_step_absent(s2, seq!["containerd"@, "disable_snapshot_annotations"@]);
        }
        set_bool_at4(
            doc,
            "plugins",
            "io.containerd.grpc.v1.cri",
            "containerd",
            "disable_snapshot_annotations",
            false,
        );
        return Ok(());
    }
    if !matches!(k3, NodeKind::TableLike) {
        return Err(EnableError::AnnotationPathNotATable);
    }
    proof {
        lemma_step_table(s2, seq!["containerd"@]);
        lemma_step_table(s2, seq!["containerd"@, "disable_snapshot_annotations"@]);
        assert(seq!["containerd"@, "disable_snapshot_annotations"@].drop_first() =~= seq![
            "disable_snapshot_annotations"@,
        ]);
    }
    let k4 = kind_at4(
        doc,
        "plugins",
        "io.containerd.grpc.v1.cri",
        "containerd",
        "disable_snapshot_annotations",
    );
    match k4 {
        NodeKind::ArrayValue | NodeKind::TableLike | NodeKind::OtherNode => Err(
            EnableError::AnnotationNotAValue,
        ),
        _ => {
            set_bool_at4(
                doc,
                "plugins",
                "io.containerd.grpc.v1.cri",
                "containerd",
                "disable_snapshot_annotations",
                false,
            );
            Ok(())
        },
    }
}

/// Law: import registration keeps the list free of duplicates of the
/// registered path. After a successful registration the list holds the path,
/// and no two positions both hold it.
pub proof fn lemma_import_registration_unique(
    m: Map<Seq<char>, Toml>,
    p: Seq<char>,
    m1: Map<Seq<char>, Toml>,
)
    requires
        import_registration(m, p) == Ok::<Map<Seq<char>, Toml>, EnableError>(m1),
    ensures
        entry_of(m1, "imports"@) matches Some(Toml::Arr(new_items)) && arr_has_str(new_items, p)
            && forall|i: int, j: int|
            0 <= i < j < new_items.len() ==> !(new_items[i] == Toml::Str(p) && new_items[j]
                == Toml::Str(p)),
{
    match entry_of(m, "imports"@) {
        None => {
            assert(entry_of(m1, "imports"@) == Some(Toml::Arr(seq![Toml::Str(p)])));
            assert(seq![Toml::Str(p)][0] == Toml::Str(p));
        },
        Some(Toml::Arr(items)) => {
            let new_items = items.push(Toml::Str(p));
            assert(entry_of(m1, "imports"@) == Some(Toml::Arr(new_items)));
            assert(new_items[items.len() as int] == Toml::Str(p));
            assert forall|i: int, j: int| 0 <= i < j < new_items.len() implies !(new_items[i]
                == Toml::Str(p) && new_items[j] == Toml::Str(p)) by {
                if new_items[i] == Toml::Str(p) && new_items[j] == Toml::Str(p) {
                    assert(items[i] == Toml::Str(p));
                    assert(arr_has_str(items, p));
                }
            }
        },
        Some(_) => {
            assert(false);
        },
    }
}

/// Law: after a registration and then an annotation update both succeed, the
/// flag reads back `false` and the `imports` entry is exactly what the
/// registration produced: the flag setter does not touch it.
pub proof fn lemma_enable_outcome(
    m: Map<Seq<char>, Toml>,
    p: Seq<char>,
    m1: Map<Seq<char>, Toml>,
    m2: Map<Seq<char>, Toml>,
)
    requires
        import_registration(m, p) == Ok::<Map<Seq<char>, Toml>, EnableError>(m1),
        annotation_update(m1) == Ok::<Map<Seq<char>, Toml>, EnableError>(m2),
    ensures
        node_at(m2, annotation_path()) == Some(Toml::Boolean(false)),
        entry_of(m2, "imports"@) == entry_of(m1, "imports"@),
{
    crate::model::lemma_set_path_reads_back(m1, annotation_path(), Toml::Boolean(false));
    reveal_strlit("imports");
    reveal_strlit("plugins");
    assert("imports"@[0] == 'i');
    assert("plugins"@[0] == 'p');
    let q = seq!["imports"@];
    assert(q[0] != annotation_path()[0]);
    crate::model::lemma_set_path_frame(m1, annotation_path(), Toml::Boolean(false), q, 0);
    assert(node_at(m2, q) == node_at(m1, q));
    assert(node_at(m1, q) == entry_of(m1, "imports"@));
    assert(node_at(m2, q) == entry_of(m2, "imports"@));
}

/// Law: a successful annotation update forces the flag to `false` — whether
/// it was absent, `true` or `false` before — and any path that diverges from
/// the flag's path, such as a sibling key under one of its parent tables,
/// reaches the same node as before.
pub proof fn lemma_annotation_update_effect(
    m: Map<Seq<char>, Toml>,
    m1: Map<Seq<char>, Toml>,
    q: Seq<Seq<char>>,
)
    requires
        annotation_update(m) == Ok::<Map<Seq<char>, Toml>, EnableError>(m1),
        q.len() >= 1,
        crate::model::diverges_from(annotation_path(), q),
    ensures
        node_at(m1, annotation_path()) == Some(Toml::Boolean(false)),
        node_at(m1, q) == node_at(m, q),
{
    crate::model::lemma_set_path_reads_back(m, annotation_path(), Toml::Boolean(false));
    crate::model::lemma_set_path_preserves_divergent(m, annotation_path(), Toml::Boolean(false), q);
}

/// Law: the annotation update is idempotent. Running it again on a document
/// it has produced succeeds and changes nothing.
pub proof fn lemma_annotation_update_idempotent(m: Map<Seq<char>, Toml>, m1: Map<Seq<char>, Toml>)
    requires
        annotation_update(m) == Ok::<Map<Seq<char>, Toml>, EnableError>(m1),
    ensures
        annotation_update(m1) == Ok::<Map<Seq<char>, Toml>, EnableError>(m1),
{
    crate::model::lemma_set_path_reads_back(m, annotation_path(), Toml::Boolean(false));
    crate::model::lemma_set_path_idempotent(m, annotation_path(), Toml::Boolean(false));
    crate::model::lemma_set_path_navigable(m, annotation_path(), Toml::Boolean(false));
    assert(annotation_path().drop_last() =~= annotation_parents());
}

/// The enable operation on the in-memory main document. `nydus_config_exists`
/// reports whether the standalone configuration file is already on disk; when
/// it is, the operation refuses to run and the document is untouched. Then the
/// import is registered and the annotation flag forced, in that order; a
/// failure of the flag setter leaves the already registered import in place,
/// as the caller has not yet written the document out.
pub fn enable_nydus_snapshotter(doc: &mut DocumentMut, nydus_config_exists: bool) -> (r: Result<
    (),
    EnableError,
>)
    ensures
        doc_well_formed(*old(doc)) ==> doc_well_formed(*final(doc)),
        nydus_config_exists ==> r == Err::<(), EnableError>(EnableError::AlreadyConfigured)
            && doc_model(*final(doc)) == doc_model(*old(doc)),
        !nydus_config_exists ==> match import_registration(
            doc_model(*old(doc)),
            spec_nydus_config_path(),
        ) {
            Err(e) => r == Err::<(), EnableError>(e) && doc_model(*final(doc)) == doc_model(
                *old(doc),
            ),
            Ok(m1) => match annotation_update(m1) {
                Err(e) => r == Err::<(), EnableError>(e) && doc_model(*final(doc)) == m1,
                Ok(m2) => r is Ok && doc_model(*final(doc)) == m2,
            },
        },
{
    if nydus_config_exists {
        return Err(EnableError::AlreadyConfigured);
    }
    let path = nydus_config_path();
    match add_import(doc, path) {
        Ok(()) => {},
        Err(e) => {
            return Err(e);
        },
    }
    match set_disable_snapshot_annotations(doc) {
        Ok(()) => Ok(()),
        Err(e) => Err(e),
    }
}

/// Parses the main configuration text, failing with `MalformedConfig` exactly
/// on text that is not well-formed TOML.
pub fn parse_main_config(s: &str) -> (r: Result<DocumentMut, EnableError>)
    ensures
        r matches Ok(d) ==> parsed_model(s@) == Some(doc_model(d)) && doc_well_formed(d),
        r matches Err(e) ==> parsed_model(s@) is None && e == EnableError::MalformedConfig,
{
    match parse_doc(s) {
        Ok(d) => Ok(d),
        Err(()) => Err(EnableError::MalformedConfig),
    }
}

/// Renders a document back to TOML text: the text parses back to a document
/// with the same content, so what is written to disk is what was edited.
/// Every document this library hands out is well-formed in the required
/// sense: parsing establishes it and every edit keeps it.
pub fn render_config(doc: &DocumentMut) -> (r: String)
    requires
        doc_well_formed(*doc),
    ensures
        parsed_model(r@) == Some(doc_model(*doc)),
{
    render_doc(doc)
}

} // verus!
