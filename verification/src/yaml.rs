//! The YAML decoding collaborator. A manifest file's text is handed to the
//! outside decoder, which splits it into a stream of YAML documents and
//! decodes each into a structured object; the library keeps only each
//! document's `kind` discriminator and identity metadata, as
//! [`DocOutcome`] values. What the decoder yields for a given text is named
//! by [`yaml_docs_of`]; nothing more is assumed of it.

use vstd::prelude::*;

use serde::Deserialize;

use crate::resource::{DocOutcome, DocOutcomeView, Resource, ResourceMeta};

verus! {

/// The sequence of document outcomes that the YAML decoder yields for a
/// given text: one outcome per YAML document of the stream, in document
/// order, determined by the text alone. A stream-level syntax error ends
/// the sequence after finitely many failure outcomes for the remainder of
/// the text.
pub uninterp spec fn yaml_docs_of(text: Seq<char>) -> Seq<DocOutcomeView>;

/// The declared type of one decoded document object of the outside decoder.
#[verifier::external_type_specification]
#[verifier::external_body]
pub struct ExDynamicObject(kube::core::DynamicObject);

/// Relies on the public fields of kube's `DynamicObject`: picks the decoded
/// document's `kind` and its identity metadata (name, namespace, labels,
/// annotations, in the decoder's reported order) into the library's own
/// resource model.
#[verifier::external_body]
fn decode_object(o: kube::core::DynamicObject) -> (r: Resource) {
    Resource {
        kind: o.types.map(|t| t.kind),
        metadata: ResourceMeta {
            name: o.metadata.name,
            namespace: o.metadata.namespace,
            labels: o.metadata.labels.map_or(Vec::new(), |m| m.into_iter().collect()),
            annotations: o.metadata.annotations.map_or(Vec::new(), |m| m.into_iter().collect()),
        },
    }
}

/// Relies on serde_yaml's multi-document `Deserializer` over a string and on
/// the `Deserialize` impl of kube's `DynamicObject`: the text alone
/// determines the stream of documents and what each decodes to, so the
/// result is exactly `yaml_docs_of` of the text — each document either a
/// structured resource or a decode failure carrying the decoder's message.
///
/// Once its underlying parser hits a stream-level syntax error it stays in
/// that error state and the document iterator repeats the identical error —
/// with its input position — indefinitely, so decoding stops at the first
/// repetition: the wedged remainder of the text surfaces as the few failure
/// outcomes seen before the error stabilizes, and the call always returns.
/// A genuine run of distinct failing documents is unaffected, since each
/// carries its own position.
#[verifier::external_body]
pub fn parse_documents(text: &str) -> (r: Vec<DocOutcome>)
    ensures
        r.deep_view() == yaml_docs_of(text@),
{
    let mut out: Vec<DocOutcome> = Vec::new();
    let mut prior_error: Option<String> = None;
    for doc in serde_yaml::Deserializer::from_str(text) {
        match kube::core::DynamicObject::deserialize(doc) {
            Ok(o) => { prior_error = None; out.push(DocOutcome::Parsed(decode_object(o))); },
            Err(e) if prior_error.as_deref() == Some(e.to_string().as_str()) => break,
            Err(e) => {
                prior_error = Some(e.to_string());
                out.push(DocOutcome::Malformed(e.to_string()));
            },
        }
    }
    out
}

} // verus!
