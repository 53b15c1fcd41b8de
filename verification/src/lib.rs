//! One-shot, idempotent registration of the nydus snapshotter in containerd's
//! TOML configuration.
//!
//! The library performs the structural edits: it synthesizes the snapshotter's
//! standalone configuration document, registers its path in the main
//! document's `imports` list exactly once, and forces
//! `plugins."io.containerd.grpc.v1.cri".containerd.disable_snapshot_annotations`
//! to `false`. Reading and writing the files, and the check whether the
//! standalone file already exists, are left to the caller.
//!
//! Documents are edited in place through `toml_edit`, so the formatting of
//! untouched regions is preserved. What the edits do is specified against an
//! abstract view of a document (`model::Toml`), and proved.

pub mod configure;
pub mod document;
pub mod model;
