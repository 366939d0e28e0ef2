//! The manifest stream walker and the flattening projection.
//!
//! For each component the walker selects the `.yaml`/`.yml` files of its
//! manifest directory listing, turns each file's text into a run of document
//! items, and concatenates the runs in file-listing order; components are
//! concatenated in discovery order and platforms in root-discovery order.
//! Every failure — an unreadable directory entry, a file that could not be
//! read, a document that could not be decoded — is one item of the yielded
//! sequence, at its natural position, and never aborts the rest of the walk.
//!
//! The surrounding program performs the reads one file at a time and may
//! drive these functions lazily, pulling one listing or one file's items at
//! a time; the order and content of the full sequence is fixed here.

use vstd::prelude::*;

use crate::discovery::{Component, ComponentView, Platform, PlatformView, SystemManifests};
use crate::errors::{WalkError, WalkErrorView};
use crate::fsview::{ListEntry, ListEntryView, Listing, ListingView};
use crate::resource::{DocOutcome, DocOutcomeView, Resource, ResourceMeta, ResourceMetaView, ResourceView};
use crate::yaml::{parse_documents, yaml_docs_of};
use crate::join_path;
use crate::joined;

verus! {

// ===== Resources in context =====

/// One decoded manifest document together with where it came from: its file,
/// its component and its platform.
#[derive(Debug, Clone, PartialEq)]
pub struct ManifestResource {
    pub file: String,
    pub component: Component,
    pub platform: Platform,
    pub resource: Resource,
}

/// The mathematical value of a [`ManifestResource`].
#[verifier::ext_equal]
pub struct ManifestResourceView {
    pub file: Seq<char>,
    pub component: ComponentView,
    pub platform: PlatformView,
    pub resource: ResourceView,
}

impl View for ManifestResource {
    type V = ManifestResourceView;

    open spec fn view(&self) -> ManifestResourceView {
        ManifestResourceView {
            file: self.file@,
            component: self.component@,
            platform: self.platform@,
            resource: self.resource@,
        }
    }
}

impl DeepView for ManifestResource {
    type V = ManifestResourceView;

    open spec fn deep_view(&self) -> ManifestResourceView {
        self.view()
    }
}

/// The flattened projection of a manifest resource: its provenance as plain
/// names, and its identity metadata, nothing else.
#[derive(Debug, Clone, PartialEq)]
pub struct FlatManifestResource {
    pub file: String,
    pub component_name: String,
    pub platform_name: String,
    pub resource_meta: ResourceMeta,
}

/// The mathematical value of a [`FlatManifestResource`].
#[verifier::ext_equal]
pub struct FlatManifestResourceView {
    pub file: Seq<char>,
    pub component_name: Seq<char>,
    pub platform_name: Seq<char>,
    pub resource_meta: ResourceMetaView,
}

impl View for FlatManifestResource {
    type V = FlatManifestResourceView;

    open spec fn view(&self) -> FlatManifestResourceView {
        FlatManifestResourceView {
            file: self.file@,
            component_name: self.component_name@,
            platform_name: self.platform_name@,
            resource_meta: self.resource_meta@,
        }
    }
}

impl DeepView for FlatManifestResource {
    type V = FlatManifestResourceView;

    open spec fn deep_view(&self) -> FlatManifestResourceView {
        self.view()
    }
}

/// The flattening projection over mathematical values: provenance and
/// identity metadata carried over verbatim.
pub open spec fn project_view(m: ManifestResourceView) -> FlatManifestResourceView {
    FlatManifestResourceView {
        file: m.file,
        component_name: m.component.name,
        platform_name: m.platform.name,
        resource_meta: m.resource.metadata,
    }
}

impl FlatManifestResource {
    /// Flattens one manifest resource. Total and pure: it never fails, and
    /// carries the source file, the component's name, the platform's name
    /// and the resource's identity metadata over verbatim.
    pub fn from(value: ManifestResource) -> (r: FlatManifestResource)
        ensures
            r@ == project_view(value@),
    {
        FlatManifestResource {
            file: value.file,
            component_name: value.component.name,
            platform_name: value.platform.name,
            resource_meta: value.resource.metadata,
        }
    }
}

/// The flattening projection is total and pure: every field of the
/// projection is the stated function of the resource alone — the source
/// file, the owning component's name, the owning platform's name and the
/// resource's identity metadata, for every resource.
pub proof fn lemma_projection_total(m: ManifestResourceView)
    ensures
        project_view(m).file == m.file,
        project_view(m).component_name == m.component.name,
        project_view(m).platform_name == m.platform.name,
        project_view(m).resource_meta == m.resource.metadata,
{
}

// ===== Items of the walked sequence =====

/// The mathematical value of one walked item.
pub open spec fn item_view(r: Result<ManifestResource, WalkError>) -> Result<
    ManifestResourceView,
    WalkErrorView,
> {
    match r {
        Ok(m) => Ok(m@),
        Err(e) => Err(e@),
    }
}

/// The mathematical value of a run of walked items.
pub open spec fn items_view(v: Seq<Result<ManifestResource, WalkError>>) -> Seq<
    Result<ManifestResourceView, WalkErrorView>,
> {
    v.map_values(|r: Result<ManifestResource, WalkError>| item_view(r))
}

/// The mathematical value of one file's reported content: its text, or the
/// message of the failed read.
pub open spec fn content_view(c: Result<String, String>) -> Result<Seq<char>, Seq<char>> {
    match c {
        Ok(t) => Ok(t@),
        Err(m) => Err(m@),
    }
}

/// The mathematical value of a run of reported file contents.
pub open spec fn contents_view(v: Seq<Result<String, String>>) -> Seq<
    Result<Seq<char>, Seq<char>>,
> {
    v.map_values(|c: Result<String, String>| content_view(c))
}

// ===== One file's documents =====

/// The items of one decoded document stream: each parsed document becomes a
/// resource in context, each malformed one a decode error carrying the file
/// and the document's position, counted from 1, in document order.
pub open spec fn doc_items(
    file: Seq<char>,
    c: ComponentView,
    p: PlatformView,
    docs: Seq<DocOutcomeView>,
) -> Seq<Result<ManifestResourceView, WalkErrorView>> {
    Seq::new(
        docs.len(),
        |i: int|
            match docs[i] {
                DocOutcomeView::Parsed(r) => Ok(
                    ManifestResourceView { file, component: c, platform: p, resource: r },
                ),
                DocOutcomeView::Malformed(m) => Err(
                    WalkErrorView::Decode {
                        file,
                        document_index: (i + 1) as nat,
                        message: m,
                    },
                ),
            },
    )
}

/// The items of one candidate manifest file: a file that could not be read
/// yields exactly one file-open error; one that could be read yields one
/// item per YAML document of its text.
pub open spec fn file_items_spec(
    file: Seq<char>,
    c: ComponentView,
    p: PlatformView,
    content: Result<Seq<char>, Seq<char>>,
) -> Seq<Result<ManifestResourceView, WalkErrorView>> {
    match content {
        Err(m) => seq![Err(WalkErrorView::FileOpen { file, message: m })],
        Ok(text) => doc_items(file, c, p, yaml_docs_of(text)),
    }
}

/// Turns one candidate manifest file into its run of walked items: a single
/// file-open error if the file's content could not be read, else one item
/// per YAML document — parsed documents as resources bound to this file,
/// component and platform, malformed ones as decode errors with the
/// document's position in the file, counted from 1. A failing document
/// never suppresses its sibling documents.
#[verifier::loop_isolation(false)]
pub fn file_documents(
    file: &String,
    component: &Component,
    platform: &Platform,
    content: &Result<String, String>,
) -> (r: Vec<Result<ManifestResource, WalkError>>)
    ensures
        items_view(r@) == file_items_spec(file@, (*component)@, (*platform)@, content_view(*content)),
{
    match content {
        Err(m) => {
            let mut out: Vec<Result<ManifestResource, WalkError>> = Vec::new();
            out.push(Err(WalkError::FileOpen { file: file.clone(), message: m.clone() }));
            proof {
                assert(items_view(out@) =~= file_items_spec(
                    file@,
                    (*component)@,
                    (*platform)@,
                    content_view(*content),
                ));
            }
            out
        },
        Ok(text) => {
            let docs = parse_documents(text.as_str());
            let ghost docs_v = docs.deep_view();
            let ghost want = doc_items(file@, (*component)@, (*platform)@, docs_v);
            let mut out: Vec<Result<ManifestResource, WalkError>> = Vec::new();
            let mut i: usize = 0;
            while i < docs.len()
                invariant
                    0 <= i <= docs.len(),
                    out@.len() == i,
                    items_view(out@) == want.take(i as int),
                decreases docs.len() - i,
            {
                proof {
                    assert(docs_v[i as int] == docs@[i as int].deep_view());
                }
                match &docs[i] {
                    DocOutcome::Parsed(res) => {
                        out.push(
                            Ok(
                                ManifestResource {
                                    file: file.clone(),
                                    component: component.duplicate(),
                                    platform: platform.duplicate(),
                                    resource: res.duplicate(),
                                },
                            ),
                        );
                    },
                    DocOutcome::Malformed(m) => {
                        out.push(
                            Err(
                                WalkError::Decode {
                                    file: file.clone(),
                                    document_index: i + 1,
                                    message: m.clone(),
                                },
                            ),
                        );
                    },
                }
                proof {
                    assert(items_view(out@).len() == i + 1);
                    assert forall|j: int|
                        0 <= j < i + 1 implies items_view(out@)[j] == want.take(i + 1)[j] by {
                        assert(items_view(out@)[j] == item_view(out@[j]));
                        assert(want.take(i + 1)[j] == want[j]);
                        if j < i {
                            assert(items_view(out@)[j] == want.take(i as int)[j]);
                            assert(want.take(i as int)[j] == want[j]);
                        } else {
                            assert(want[j] == doc_items(
                                file@,
                                (*component)@,
                                (*platform)@,
                                docs_v,
                            )[j]);
                        }
                    }
                    assert(items_view(out@) =~= want.take(i + 1));
                }
                i = i + 1;
            }
            proof {
                assert(want.take(docs.len() as int) =~= want);
                assert(docs_v == yaml_docs_of(text@));
            }
            out
        },
    }
}

// ===== Selecting a component's manifest files =====

/// One step of walking a component's manifest directory listing: a selected
/// candidate file name, or an entry that could not be read.
#[derive(Debug, Clone, PartialEq)]
pub enum FileStep {
    Candidate(String),
    EntryFailure(String),
}

/// The mathematical value of a [`FileStep`].
#[verifier::ext_equal]
pub enum FileStepView {
    Candidate(Seq<char>),
    EntryFailure(Seq<char>),
}

impl View for FileStep {
    type V = FileStepView;

    open spec fn view(&self) -> FileStepView {
        match self {
            FileStep::Candidate(n) => FileStepView::Candidate(n@),
            FileStep::EntryFailure(m) => FileStepView::EntryFailure(m@),
        }
    }
}

impl DeepView for FileStep {
    type V = FileStepView;

    open spec fn deep_view(&self) -> FileStepView {
        self.view()
    }
}

/// Whether a file name carries the `.yaml` or `.yml` extension, as an exact,
/// case-sensitive match, with at least one character before the dot.
pub open spec fn has_yaml_ext(s: Seq<char>) -> bool {
    ||| (s.len() >= 6 && s[s.len() - 5] == '.' && s[s.len() - 4] == 'y' && s[s.len() - 3] == 'a'
        && s[s.len() - 2] == 'm' && s[s.len() - 1] == 'l')
    ||| (s.len() >= 5 && s[s.len() - 4] == '.' && s[s.len() - 3] == 'y' && s[s.len() - 2] == 'm'
        && s[s.len() - 1] == 'l')
}

/// Decides [`has_yaml_ext`] for a file name.
pub fn name_has_yaml_ext(name: &str) -> (r: bool)
    ensures
        r == has_yaml_ext(name@),
{
    let n = name.unicode_len();
    if n >= 6 && name.get_char(n - 5) == '.' && name.get_char(n - 4) == 'y' && name.get_char(
        n - 3,
    ) == 'a' && name.get_char(n - 2) == 'm' && name.get_char(n - 1) == 'l' {
        true
    } else if n >= 5 && name.get_char(n - 4) == '.' && name.get_char(n - 3) == 'y'
        && name.get_char(n - 2) == 'm' && name.get_char(n - 1) == 'l' {
        true
    } else {
        false
    }
}

/// The walk steps that a component's manifest directory listing yields, in
/// listing order: every regular file with a `.yaml`/`.yml` extension becomes
/// a candidate; every entry that could not be read is kept as a failure
/// step; everything else — subdirectories, other files — contributes
/// nothing.
pub open spec fn selected_steps(entries: Seq<ListEntryView>) -> Seq<FileStepView>
    decreases entries.len(),
{
    if entries.len() == 0 {
        Seq::empty()
    } else {
        let rest = selected_steps(entries.drop_last());
        match entries.last() {
            ListEntryView::Entry(e) => if e.is_file && has_yaml_ext(e.name) {
                rest.push(FileStepView::Candidate(e.name))
            } else {
                rest
            },
            ListEntryView::Failure(m) => rest.push(FileStepView::EntryFailure(m)),
        }
    }
}

/// Selects the walk steps of one component's manifest directory listing:
/// candidate `.yaml`/`.yml` files and failed entries, in listing order.
#[verifier::loop_isolation(false)]
pub fn select_manifest_entries(entries: &Vec<ListEntry>) -> (r: Vec<FileStep>)
    ensures
        r.deep_view() == selected_steps((*entries).deep_view()),
{
    let ghost all = (*entries).deep_view();
    let mut steps: Vec<FileStep> = Vec::new();
    let mut i: usize = 0;
    while i < entries.len()
        invariant
            0 <= i <= entries.len(),
            steps.deep_view() == selected_steps(all.take(i as int)),
        decreases entries.len() - i,
    {
        proof {
            assert(steps.deep_view().len() == selected_steps(all.take(i as int)).len());
            assert(steps@.len() == steps.deep_view().len());
            assert(all[i as int] == entries@[i as int].deep_view());
            assert(all.take(i + 1).drop_last() =~= all.take(i as int));
            assert(all.take(i + 1).last() == all[i as int]);
        }
        let ghost prev = steps.deep_view();
        match &entries[i] {
            ListEntry::Entry(e) => {
                if e.is_file && name_has_yaml_ext(e.name.as_str()) {
                    steps.push(FileStep::Candidate(e.name.clone()));
                    proof {
                        assert forall|j: int|
                            0 <= j < prev.len() + 1 implies steps.deep_view()[j]
                            == selected_steps(all.take(i + 1))[j] by {
                            assert(steps.deep_view()[j] == steps@[j].deep_view());
                        }
                        assert(steps.deep_view() =~= selected_steps(all.take(i + 1)));
                    }
                } else {
                    proof {
                        assert(steps.deep_view() =~= selected_steps(all.take(i + 1)));
                    }
                }
            },
            ListEntry::Failure(m) => {
                steps.push(FileStep::EntryFailure(m.clone()));
                proof {
                    assert forall|j: int|
                        0 <= j < prev.len() + 1 implies steps.deep_view()[j] == selected_steps(
                        all.take(i + 1),
                    )[j] by {
                        assert(steps.deep_view()[j] == steps@[j].deep_view());
                    }
                    assert(steps.deep_view() =~= selected_steps(all.take(i + 1)));
                }
            },
        }
        i = i + 1;
    }
    proof {
        assert(all.take(entries.len() as int) =~= all);
    }
    steps
}

/// How many of the walk steps are file candidates.
pub open spec fn candidate_count(steps: Seq<FileStepView>) -> nat
    decreases steps.len(),
{
    if steps.len() == 0 {
        0
    } else {
        match steps.first() {
            FileStepView::Candidate(n) => 1 + candidate_count(steps.drop_first()),
            FileStepView::EntryFailure(m) => candidate_count(steps.drop_first()),
        }
    }
}

// ===== One component's items =====

/// What the surrounding program read for one component: the listing of its
/// manifest directory, and the content of each selected candidate file, in
/// candidate order.
#[derive(Debug, Clone)]
pub struct ComponentScan {
    pub listing: Listing,
    pub contents: Vec<Result<String, String>>,
}

/// The mathematical value of a [`ComponentScan`].
#[verifier::ext_equal]
pub struct ComponentScanView {
    pub listing: ListingView,
    pub contents: Seq<Result<Seq<char>, Seq<char>>>,
}

impl View for ComponentScan {
    type V = ComponentScanView;

    open spec fn view(&self) -> ComponentScanView {
        ComponentScanView { listing: self.listing@, contents: contents_view(self.contents@) }
    }
}

impl DeepView for ComponentScan {
    type V = ComponentScanView;

    open spec fn deep_view(&self) -> ComponentScanView {
        self.view()
    }
}

/// The scan reports one file content per candidate of its listing.
pub open spec fn scan_wf(s: ComponentScanView) -> bool {
    match s.listing {
        ListingView::Entries(es) => candidate_count(selected_steps(es)) == s.contents.len(),
        ListingView::Failed(_) => true,
    }
}

/// The items of one component's walk steps, in step order: a failed entry
/// yields one listing error naming the component's manifest directory; a
/// candidate file yields its file items, consuming the next reported
/// content.
pub open spec fn component_items_spec(
    p: PlatformView,
    c: ComponentView,
    steps: Seq<FileStepView>,
    contents: Seq<Result<Seq<char>, Seq<char>>>,
) -> Seq<Result<ManifestResourceView, WalkErrorView>>
    decreases steps.len(),
{
    if steps.len() == 0 {
        Seq::empty()
    } else {
        match steps.first() {
            FileStepView::EntryFailure(m) => seq![
                Err(
                    WalkErrorView::Listing { directory: c.manifests_directory, message: m },
                ),
            ] + component_items_spec(p, c, steps.drop_first(), contents),
            FileStepView::Candidate(name) => file_items_spec(
                joined(c.manifests_directory, name),
                c,
                p,
                contents.first(),
            ) + component_items_spec(p, c, steps.drop_first(), contents.drop_first()),
        }
    }
}

/// The items of one scanned component: a directory that could not be
/// enumerated at all yields exactly one listing error; otherwise the items
/// of its selected walk steps.
pub open spec fn component_scan_items(
    p: PlatformView,
    c: ComponentView,
    scan: ComponentScanView,
) -> Seq<Result<ManifestResourceView, WalkErrorView>> {
    match scan.listing {
        ListingView::Failed(m) => seq![
            Err(WalkErrorView::Listing { directory: c.manifests_directory, message: m }),
        ],
        ListingView::Entries(es) => component_items_spec(p, c, selected_steps(es), scan.contents),
    }
}

/// One listing-failure item, as the walk surfaces it: a directory that
/// could not be enumerated, or one entry of it that could not be read,
/// becomes an error naming the component's manifest directory and carrying
/// the reported message. A program that pulls the walk one file at a time
/// yields this item for a failed listing or for one failure step.
pub fn listing_failure_item(component: &Component, message: String) -> (r: Result<
    ManifestResource,
    WalkError,
>)
    ensures
        item_view(r) == Result::<ManifestResourceView, WalkErrorView>::Err(
            WalkErrorView::Listing {
                directory: (*component)@.manifests_directory,
                message: message@,
            },
        ),
{
    Err(WalkError::Listing { directory: component.manifests_directory.clone(), message })
}

/// Walks one component: selects its manifest files, turns each into its run
/// of items, and concatenates the runs in listing order, with every failed
/// entry surfaced as a listing error at its natural position.
#[verifier::loop_isolation(false)]
pub fn walk_component(platform: &Platform, component: &Component, scan: &ComponentScan) -> (r:
    Vec<Result<ManifestResource, WalkError>>)
    requires
        scan_wf((*scan)@),
    ensures
        items_view(r@) == component_scan_items((*platform)@, (*component)@, (*scan)@),
{
    let ghost pv = (*platform)@;
    let ghost cv = (*component)@;
    match &scan.listing {
        Listing::Failed(m) => {
            let mut out: Vec<Result<ManifestResource, WalkError>> = Vec::new();
            out.push(
                Err(
                    WalkError::Listing {
                        directory: component.manifests_directory.clone(),
                        message: m.clone(),
                    },
                ),
            );
            proof {
                assert(items_view(out@) =~= component_scan_items(pv, cv, (*scan)@));
            }
            out
        },
        Listing::Entries(entries) => {
            let steps = select_manifest_entries(entries);
            let ghost steps_v = steps.deep_view();
            let ghost contents_v = contents_view(scan.contents@);
            proof {
                assert(steps_v == selected_steps((*entries).deep_view()));
                assert((*scan)@.listing == ListingView::Entries((*entries).deep_view()));
                assert(candidate_count(steps_v) == contents_v.len());
            }
            let mut out: Vec<Result<ManifestResource, WalkError>> = Vec::new();
            let mut i: usize = 0;
            let mut j: usize = 0;
            proof {
                assert(steps_v.skip(0) =~= steps_v);
                assert(contents_v.skip(0) =~= contents_v);
                assert(items_view(out@) =~= Seq::<
                    Result<ManifestResourceView, WalkErrorView>,
                >::empty());
                assert(items_view(out@) + component_items_spec(pv, cv, steps_v, contents_v)
                    =~= component_items_spec(pv, cv, steps_v, contents_v));
            }
            while i < steps.len()
                invariant
                    0 <= i <= steps.len(),
                    0 <= j <= scan.contents.len(),
                    candidate_count(steps_v.skip(i as int)) == contents_v.len() - j,
                    component_items_spec(pv, cv, steps_v, contents_v) == items_view(out@)
                        + component_items_spec(
                        pv,
                        cv,
                        steps_v.skip(i as int),
                        contents_v.skip(j as int),
                    ),
                decreases steps.len() - i,
            {
                proof {
                    assert(steps_v.skip(i as int).first() == steps_v[i as int]);
                    assert(steps_v.skip(i as int).drop_first() =~= steps_v.skip(i + 1));
                    assert(steps_v[i as int] == steps@[i as int].deep_view());
                }
                match &steps[i] {
                    FileStep::EntryFailure(m) => {
                        let ghost head = seq![
                            Result::<ManifestResourceView, WalkErrorView>::Err(
                                WalkErrorView::Listing {
                                    directory: cv.manifests_directory,
                                    message: m@,
                                },
                            ),
                        ];
                        out.push(
                            Err(
                                WalkError::Listing {
                                    directory: component.manifests_directory.clone(),
                                    message: m.clone(),
                                },
                            ),
                        );
                        proof {
                            assert(items_view(out@) =~= items_view(out@.take(out@.len() - 1))
                                + head);
                            assert(items_view(out@.take(out@.len() - 1)) + head
                                + component_items_spec(
                                pv,
                                cv,
                                steps_v.skip(i + 1),
                                contents_v.skip(j as int),
                            ) =~= items_view(out@) + component_items_spec(
                                pv,
                                cv,
                                steps_v.skip(i + 1),
                                contents_v.skip(j as int),
                            ));
                        }
                    },
                    FileStep::Candidate(name) => {
                        proof {
                            assert(candidate_count(steps_v.skip(i as int)) >= 1);
                            assert(j < scan.contents.len());
                            assert(contents_v.skip(j as int).first() == contents_v[j as int]);
                            assert(contents_v.skip(j as int).drop_first() =~= contents_v.skip(
                                j + 1,
                            ));
                            assert(contents_v[j as int] == content_view(scan.contents@[j as int]));
                        }
                        let path = join_path(component.manifests_directory.as_str(), name.as_str());
                        let mut items = file_documents(&path, component, platform, &scan.contents[j]);
                        let ghost head = items_view(items@);
                        let ghost before = items_view(out@);
                        out.append(&mut items);
                        proof {
                            assert(items_view(out@) =~= before + head);
                            assert((before + head) + component_items_spec(
                                pv,
                                cv,
                                steps_v.skip(i + 1),
                                contents_v.skip(j + 1),
                            ) =~= before + (head + component_items_spec(
                                pv,
                                cv,
                                steps_v.skip(i + 1),
                                contents_v.skip(j + 1),
                            )));
                        }
                        j = j + 1;
                    },
                }
                i = i + 1;
            }
            proof {
                assert(steps_v.skip(steps.len() as int) =~= Seq::<FileStepView>::empty());
                assert(component_items_spec(
                    pv,
                    cv,
                    steps_v.skip(steps.len() as int),
                    contents_v.skip(j as int),
                ) =~= Seq::<Result<ManifestResourceView, WalkErrorView>>::empty());
                assert(items_view(out@) + Seq::<Result<ManifestResourceView, WalkErrorView>>::empty()
                    =~= items_view(out@));
            }
            out
        },
    }
}

// ===== A platform's items, the corpus's items =====

/// The items of a run of components, each walked with its scan, in
/// component-discovery order.
pub open spec fn components_items_spec(
    p: PlatformView,
    comps: Seq<ComponentView>,
    scans: Seq<ComponentScanView>,
) -> Seq<Result<ManifestResourceView, WalkErrorView>>
    decreases comps.len(),
{
    if comps.len() == 0 {
        Seq::empty()
    } else {
        component_scan_items(p, comps.first(), scans.first()) + components_items_spec(
            p,
            comps.drop_first(),
            scans.drop_first(),
        )
    }
}

/// The items of one platform: its components' runs concatenated in
/// discovery order.
pub open spec fn platform_items_spec(p: PlatformView, scans: Seq<ComponentScanView>) -> Seq<
    Result<ManifestResourceView, WalkErrorView>,
> {
    components_items_spec(p, p.components, scans)
}

/// The platform's scans report one scan per component, each well-formed.
pub open spec fn platform_scans_wf(p: PlatformView, scans: Seq<ComponentScanView>) -> bool {
    scans.len() == p.components.len() && forall|l: int|
        0 <= l < scans.len() ==> scan_wf(#[trigger] scans[l])
}

impl Platform {
    /// Walks every component of this platform, in discovery order, given
    /// one scan per component.
    #[verifier::loop_isolation(false)]
    pub fn resource_iter(&self, scans: &Vec<ComponentScan>) -> (r: Vec<
        Result<ManifestResource, WalkError>,
    >)
        requires
            platform_scans_wf((*self)@, (*scans).deep_view()),
        ensures
            items_view(r@) == platform_items_spec((*self)@, (*scans).deep_view()),
    {
        let ghost pv = (*self)@;
        let ghost comps_v = self.components.deep_view();
        let ghost scans_v = (*scans).deep_view();
        let mut out: Vec<Result<ManifestResource, WalkError>> = Vec::new();
        let mut i: usize = 0;
        proof {
            assert(comps_v.skip(0) =~= comps_v);
            assert(scans_v.skip(0) =~= scans_v);
            assert(items_view(out@) =~= Seq::<
                Result<ManifestResourceView, WalkErrorView>,
            >::empty());
            assert(items_view(out@) + components_items_spec(pv, comps_v, scans_v)
                =~= components_items_spec(pv, comps_v, scans_v));
        }
        while i < self.components.len()
            invariant
                0 <= i <= self.components.len(),
                components_items_spec(pv, comps_v, scans_v) == items_view(out@)
                    + components_items_spec(pv, comps_v.skip(i as int), scans_v.skip(i as int)),
            decreases self.components.len() - i,
        {
            proof {
                assert(comps_v.skip(i as int).first() == comps_v[i as int]);
                assert(comps_v.skip(i as int).drop_first() =~= comps_v.skip(i + 1));
                assert(scans_v.skip(i as int).first() == scans_v[i as int]);
                assert(scans_v.skip(i as int).drop_first() =~= scans_v.skip(i + 1));
                assert(comps_v[i as int] == self.components@[i as int].deep_view());
                assert(scans_v[i as int] == scans@[i as int].deep_view());
                assert(scan_wf(scans_v[i as int]));
            }
            let mut items = walk_component(self, &self.components[i], &scans[i]);
            let ghost head = items_view(items@);
            let ghost before = items_view(out@);
            out.append(&mut items);
            proof {
                assert(items_view(out@) =~= before + head);
                assert((before + head) + components_items_spec(
                    pv,
                    comps_v.skip(i + 1),
                    scans_v.skip(i + 1),
                ) =~= before + (head + components_items_spec(
                    pv,
                    comps_v.skip(i + 1),
                    scans_v.skip(i + 1),
                )));
            }
            i = i + 1;
        }
        proof {
            assert(comps_v.skip(self.components.len() as int) =~= Seq::<ComponentView>::empty());
            assert(items_view(out@) + Seq::<Result<ManifestResourceView, WalkErrorView>>::empty()
                =~= items_view(out@));
        }
        out
    }
}

/// The items of a run of platforms, in root-discovery order.
pub open spec fn platforms_items_spec(
    platforms: Seq<PlatformView>,
    scans: Seq<Seq<ComponentScanView>>,
) -> Seq<Result<ManifestResourceView, WalkErrorView>>
    decreases platforms.len(),
{
    if platforms.len() == 0 {
        Seq::empty()
    } else {
        platform_items_spec(platforms.first(), scans.first()) + platforms_items_spec(
            platforms.drop_first(),
            scans.drop_first(),
        )
    }
}

/// The items of the whole corpus: every platform's run concatenated in
/// root-discovery order.
pub open spec fn corpus_items_spec(
    m: crate::discovery::SystemManifestsView,
    scans: Seq<Seq<ComponentScanView>>,
) -> Seq<Result<ManifestResourceView, WalkErrorView>> {
    platforms_items_spec(m.platforms, scans)
}

/// The corpus's scans report one run of scans per platform, each well-formed
/// for its platform.
pub open spec fn corpus_scans_wf(
    platforms: Seq<PlatformView>,
    scans: Seq<Seq<ComponentScanView>>,
) -> bool {
    scans.len() == platforms.len() && forall|k: int|
        0 <= k < platforms.len() ==> platform_scans_wf(platforms[k], #[trigger] scans[k])
}

impl SystemManifests {
    /// Walks the whole corpus: every YAML document of every manifest file of
    /// every component of every platform, as one flat run of items, in
    /// platform, component, file, document order, with every failure an
    /// item at its natural position.
    #[verifier::loop_isolation(false)]
    pub fn resource_iter(&self, scans: &Vec<Vec<ComponentScan>>) -> (r: Vec<
        Result<ManifestResource, WalkError>,
    >)
        requires
            corpus_scans_wf(self.platforms.deep_view(), (*scans).deep_view()),
        ensures
            items_view(r@) == corpus_items_spec((*self)@, (*scans).deep_view()),
    {
        let ghost plats_v = self.platforms.deep_view();
        let ghost scans_v = (*scans).deep_view();
        let mut out: Vec<Result<ManifestResource, WalkError>> = Vec::new();
        let mut i: usize = 0;
        proof {
            assert(plats_v.skip(0) =~= plats_v);
            assert(scans_v.skip(0) =~= scans_v);
            assert(items_view(out@) =~= Seq::<
                Result<ManifestResourceView, WalkErrorView>,
            >::empty());
            assert(items_view(out@) + platforms_items_spec(plats_v, scans_v)
                =~= platforms_items_spec(plats_v, scans_v));
        }
        while i < self.platforms.len()
            invariant
                0 <= i <= self.platforms.len(),
                platforms_items_spec(plats_v, scans_v) == items_view(out@)
                    + platforms_items_spec(plats_v.skip(i as int), scans_v.skip(i as int)),
            decreases self.platforms.len() - i,
        {
            proof {
                assert(plats_v.skip(i as int).first() == plats_v[i as int]);
                assert(plats_v.skip(i as int).drop_first() =~= plats_v.skip(i + 1));
                assert(scans_v.skip(i as int).first() == scans_v[i as int]);
                assert(scans_v.skip(i as int).drop_first() =~= scans_v.skip(i + 1));
                assert(plats_v[i as int] == self.platforms@[i as int].deep_view());
                assert(scans_v[i as int] == scans@[i as int].deep_view());
                assert(platform_scans_wf(plats_v[i as int], scans_v[i as int]));
            }
            let mut items = self.platforms[i].resource_iter(&scans[i]);
            let ghost head = items_view(items@);
            let ghost before = items_view(out@);
            out.append(&mut items);
            proof {
                assert(items_view(out@) =~= before + head);
                assert((before + head) + platforms_items_spec(
                    plats_v.skip(i + 1),
                    scans_v.skip(i + 1),
                ) =~= before + (head + platforms_items_spec(
                    plats_v.skip(i + 1),
                    scans_v.skip(i + 1),
                )));
            }
            i = i + 1;
        }
        proof {
            assert(plats_v.skip(self.platforms.len() as int) =~= Seq::<PlatformView>::empty());
            assert(items_view(out@) + Seq::<Result<ManifestResourceView, WalkErrorView>>::empty()
                =~= items_view(out@));
        }
        out
    }
}

// ===== Laws of the walk =====

/// Whether one walk step is a file candidate.
pub open spec fn step_is_candidate(s: FileStepView) -> bool {
    s matches FileStepView::Candidate(_)
}

/// Whether a reported file content was read and every document of its text
/// decoded.
pub open spec fn content_fully_parsed(c: Result<Seq<char>, Seq<char>>) -> bool {
    match c {
        Ok(t) => forall|d: int|
            0 <= d < yaml_docs_of(t).len() ==> (#[trigger] yaml_docs_of(t)[d]) matches
                DocOutcomeView::Parsed(_),
        Err(m) => false,
    }
}

/// How many documents the reported contents hold in all.
pub open spec fn total_docs(contents: Seq<Result<Seq<char>, Seq<char>>>) -> nat
    decreases contents.len(),
{
    if contents.len() == 0 {
        0
    } else {
        (match contents.first() {
            Ok(t) => yaml_docs_of(t).len(),
            Err(m) => 0,
        }) + total_docs(contents.drop_first())
    }
}

/// A component whose listing selected N candidate files, read cleanly and
/// fully decoded, yields exactly the sum of the files' document counts as
/// successful items, in file-then-document order, and nothing else.
pub proof fn lemma_component_yields_every_document(
    p: PlatformView,
    c: ComponentView,
    steps: Seq<FileStepView>,
    contents: Seq<Result<Seq<char>, Seq<char>>>,
)
    requires
        candidate_count(steps) == contents.len(),
        forall|i: int| 0 <= i < steps.len() ==> step_is_candidate(#[trigger] steps[i]),
        forall|j: int| 0 <= j < contents.len() ==> content_fully_parsed(#[trigger] contents[j]),
    ensures
        component_items_spec(p, c, steps, contents).len() == total_docs(contents),
        forall|i: int|
            0 <= i < component_items_spec(p, c, steps, contents).len() ==> ((
            #[trigger] component_items_spec(p, c, steps, contents)[i]) matches Ok(_)),
    decreases steps.len(),
{
    if steps.len() == 0 {
        assert(contents.len() == 0);
    } else {
        match steps.first() {
            FileStepView::EntryFailure(m) => {
                assert(step_is_candidate(steps[0]));
            },
            FileStepView::Candidate(name) => {
                let steps1 = steps.drop_first();
                let contents1 = contents.drop_first();
                assert(candidate_count(steps) == 1 + candidate_count(steps1));
                assert forall|i: int| 0 <= i < steps1.len() implies step_is_candidate(
                    #[trigger] steps1[i],
                ) by {
                    assert(steps1[i] == steps[i + 1]);
                }
                assert forall|j: int| 0 <= j < contents1.len() implies content_fully_parsed(
                    #[trigger] contents1[j],
                ) by {
                    assert(contents1[j] == contents[j + 1]);
                }
                lemma_component_yields_every_document(p, c, steps1, contents1);
                assert(content_fully_parsed(contents[0]));
                let head = file_items_spec(joined(c.manifests_directory, name), c, p, contents.first());
                match contents.first() {
                    Err(m) => {},
                    Ok(t) => {
                        assert(head.len() == yaml_docs_of(t).len());
                        assert forall|i: int| 0 <= i < head.len() implies (#[trigger] head[i])
                            matches Ok(_) by {
                            assert(yaml_docs_of(t)[i] matches DocOutcomeView::Parsed(_));
                        }
                    },
                }
            },
        }
    }
}

/// Whether one listing item is a regular file bearing the given name.
pub open spec fn entry_is_file_named(e: ListEntryView, n: Seq<char>) -> bool {
    e matches ListEntryView::Entry(r) && r.is_file && r.name == n
}

/// Whether a walk step could come from these listing entries: a candidate
/// only as the name of a listed regular file with a `.yaml`/`.yml`
/// extension.
pub open spec fn step_from_entries(entries: Seq<ListEntryView>, s: FileStepView) -> bool {
    match s {
        FileStepView::Candidate(n) => has_yaml_ext(n) && exists|j: int|
            0 <= j < entries.len() && entry_is_file_named(#[trigger] entries[j], n),
        FileStepView::EntryFailure(m) => true,
    }
}

/// Only regular files with a `.yaml`/`.yml` extension are ever selected for
/// walking: every candidate step names such a listed file, so other files
/// and subdirectories are never yielded nor opened.
pub proof fn lemma_only_yaml_files_selected(entries: Seq<ListEntryView>)
    ensures
        forall|i: int|
            0 <= i < selected_steps(entries).len() ==> step_from_entries(
                entries,
                #[trigger] selected_steps(entries)[i],
            ),
    decreases entries.len(),
{
    if entries.len() > 0 {
        let prior = entries.drop_last();
        lemma_only_yaml_files_selected(prior);
        let s = selected_steps(entries);
        let s0 = selected_steps(prior);
        assert forall|i: int| 0 <= i < s.len() implies step_from_entries(entries, #[trigger] s[i])
            by {
            if i < s0.len() {
                assert(s[i] == s0[i]);
                assert(step_from_entries(prior, s0[i]));
                match s0[i] {
                    FileStepView::Candidate(n) => {
                        let j = choose|j: int|
                            0 <= j < prior.len() && entry_is_file_named(#[trigger] prior[j], n);
                        assert(entries[j] == prior[j]);
                        assert(entry_is_file_named(entries[j], n));
                    },
                    FileStepView::EntryFailure(m) => {},
                }
            } else {
                match entries.last() {
                    ListEntryView::Entry(e) => {
                        assert(e.is_file && has_yaml_ext(e.name));
                        assert(entry_is_file_named(entries[entries.len() - 1], e.name));
                    },
                    ListEntryView::Failure(m) => {},
                }
            }
        }
    }
}

/// The walk is deterministic: one corpus and one set of scans admit one
/// run of items, so walking the same unmodified directory tree twice
/// yields sequences that serialize identically.
pub proof fn lemma_walk_deterministic(
    m: crate::discovery::SystemManifestsView,
    scans: Seq<Seq<ComponentScanView>>,
    o1: Seq<Result<ManifestResourceView, WalkErrorView>>,
    o2: Seq<Result<ManifestResourceView, WalkErrorView>>,
)
    requires
        o1 == corpus_items_spec(m, scans),
        o2 == corpus_items_spec(m, scans),
    ensures
        o1 == o2,
{
}

} // verus!
