//! Discovery and streaming of Kubernetes-style manifest documents out of a
//! fixed directory convention: a root holds `clusters/<platform>`,
//! `environments/<platform>` and `manifests/<platform>/<component>` trees, and
//! every `.yaml`/`.yml` file under a component directory is parsed as a stream
//! of YAML documents.
//!
//! The library holds the decision logic: which directory shapes are valid,
//! which entries become platforms, components and manifest files, in what
//! order documents are yielded, and how per-item failures are surfaced without
//! aborting a walk. The filesystem itself is reported to the library as plain
//! values (directory statuses, listings, file contents) by the surrounding
//! program, which performs the reads lazily and pulls decisions from here.

pub mod discovery;
pub mod errors;
pub mod fsview;
pub mod resource;
pub mod walker;
pub mod yaml;

use vstd::prelude::*;

verus! {

/// The mathematical value of joining one path segment onto a base path.
pub open spec fn joined(base: Seq<char>, seg: Seq<char>) -> Seq<char> {
    base + "/"@ + seg
}

/// Joins one path segment onto a base path with a `/` separator.
pub fn join_path(base: &str, seg: &str) -> (r: String)
    ensures
        r@ == joined(base@, seg@),
{
    let mut s = base.to_owned();
    s.append("/");
    s.append(seg);
    s
}

} // verus!
