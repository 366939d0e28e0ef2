//! The library's model of one decoded manifest document: its optional `kind`
//! discriminator and its identity metadata (name, namespace, labels,
//! annotations), held as plain values so that every rule that reads them is
//! verified. The decoding collaborator fills these in from the raw document.

use vstd::prelude::*;

verus! {

/// The identity metadata block of one manifest document. Label and
/// annotation pairs are kept in the decoder's reported order.
#[derive(Debug, Clone, PartialEq)]
pub struct ResourceMeta {
    pub name: Option<String>,
    pub namespace: Option<String>,
    pub labels: Vec<(String, String)>,
    pub annotations: Vec<(String, String)>,
}

/// The mathematical value of a [`ResourceMeta`].
#[verifier::ext_equal]
pub struct ResourceMetaView {
    pub name: Option<Seq<char>>,
    pub namespace: Option<Seq<char>>,
    pub labels: Seq<(Seq<char>, Seq<char>)>,
    pub annotations: Seq<(Seq<char>, Seq<char>)>,
}

impl View for ResourceMeta {
    type V = ResourceMetaView;

    open spec fn view(&self) -> ResourceMetaView {
        ResourceMetaView {
            name: self.name.deep_view(),
            namespace: self.namespace.deep_view(),
            labels: self.labels.deep_view(),
            annotations: self.annotations.deep_view(),
        }
    }
}

impl DeepView for ResourceMeta {
    type V = ResourceMetaView;

    open spec fn deep_view(&self) -> ResourceMetaView {
        self.view()
    }
}

/// One decoded manifest document: the optional top-level `kind` discriminator
/// and the identity metadata.
#[derive(Debug, Clone, PartialEq)]
pub struct Resource {
    pub kind: Option<String>,
    pub metadata: ResourceMeta,
}

/// The mathematical value of a [`Resource`].
#[verifier::ext_equal]
pub struct ResourceView {
    pub kind: Option<Seq<char>>,
    pub metadata: ResourceMetaView,
}

impl View for Resource {
    type V = ResourceView;

    open spec fn view(&self) -> ResourceView {
        ResourceView { kind: self.kind.deep_view(), metadata: self.metadata@ }
    }
}

impl DeepView for Resource {
    type V = ResourceView;

    open spec fn deep_view(&self) -> ResourceView {
        self.view()
    }
}

/// The outcome of decoding one YAML document of a manifest file.
#[derive(Debug, Clone, PartialEq)]
pub enum DocOutcome {
    /// The document decoded into a structured resource.
    Parsed(Resource),
    /// The document could not be decoded; carries the decoder's message.
    Malformed(String),
}

/// The mathematical value of a [`DocOutcome`].
#[verifier::ext_equal]
pub enum DocOutcomeView {
    Parsed(ResourceView),
    Malformed(Seq<char>),
}

impl View for DocOutcome {
    type V = DocOutcomeView;

    open spec fn view(&self) -> DocOutcomeView {
        match self {
            DocOutcome::Parsed(r) => DocOutcomeView::Parsed(r@),
            DocOutcome::Malformed(m) => DocOutcomeView::Malformed(m@),
        }
    }
}

impl DeepView for DocOutcome {
    type V = DocOutcomeView;

    open spec fn deep_view(&self) -> DocOutcomeView {
        self.view()
    }
}

impl ResourceMeta {
    /// An equal copy of this metadata block.
    pub fn duplicate(&self) -> (r: ResourceMeta)
        ensures
            r@ == self@,
    {
        let r = ResourceMeta {
            name: duplicate_opt_string(&self.name),
            namespace: duplicate_opt_string(&self.namespace),
            labels: duplicate_pairs(&self.labels),
            annotations: duplicate_pairs(&self.annotations),
        };
        r
    }
}

impl Resource {
    /// An equal copy of this resource.
    pub fn duplicate(&self) -> (r: Resource)
        ensures
            r@ == self@,
    {
        Resource { kind: duplicate_opt_string(&self.kind), metadata: self.metadata.duplicate() }
    }
}

/// An equal copy of an optional string.
pub fn duplicate_opt_string(o: &Option<String>) -> (r: Option<String>)
    ensures
        r.deep_view() == o.deep_view(),
{
    match o {
        Some(s) => Some(s.clone()),
        None => None,
    }
}

/// An equal copy of a list of string pairs.
pub fn duplicate_pairs(v: &Vec<(String, String)>) -> (r: Vec<(String, String)>)
    ensures
        r.deep_view() == v.deep_view(),
{
    let mut r: Vec<(String, String)> = Vec::new();
    let mut i: usize = 0;
    while i < v.len()
        invariant
            i <= v.len(),
            r.deep_view() == v.deep_view().take(i as int),
        decreases v.len() - i,
    {
        let a = v[i].0.clone();
        let b = v[i].1.clone();
        proof {
            assert(a@ == v.deep_view()[i as int].0);
            assert(b@ == v.deep_view()[i as int].1);
        }
        proof {
            assert(r.deep_view().len() == i);
            assert(r@.len() == i);
        }
        r.push((a, b));
        proof {
            assert(r@.len() == i + 1);
            assert(r.deep_view().len() == r@.len());
            assert(r.deep_view()[i as int] == v.deep_view()[i as int]);
            assert(r.deep_view() =~~= v.deep_view().take(i + 1));
        }
        i = i + 1;
    }
    proof {
        assert(v.deep_view().take(v.len() as int) =~~= v.deep_view());
    }
    r
}

} // verus!
