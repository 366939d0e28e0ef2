//! Discovery of the platform/component corpus out of a root directory.
//!
//! The convention is fixed: a root holds `clusters/<platform>`,
//! `environments/<platform>` and `manifests/<platform>/<component>`
//! directories. Discovery validates that shape before trusting it, derives
//! every path from the root by joining fixed segments, and either returns a
//! fully built corpus or the first error — never a partially built platform.
//!
//! The filesystem is reported to these functions as plain values (probed
//! directory statuses and directory listings); every decision over them is
//! verified against the spec functions below.

use vstd::prelude::*;

use crate::errors::{disc_view, DiscoveryError, DiscoveryErrorView};
use crate::fsview::{DirCheck, DirCheckView, DirStatus, ListEntry, ListEntryView, Listing, ListingView};
use crate::join_path;
use crate::joined;

verus! {

// ===== Directory validation =====

/// What validating a batch of probed paths yields: success when every path is
/// a directory, else the first offender's error, in batch order.
pub open spec fn validate_spec(checks: Seq<DirCheckView>) -> Result<(), DiscoveryErrorView>
    decreases checks.len(),
{
    if checks.len() == 0 {
        Ok(())
    } else if checks.first().status == DirStatus::Absent {
        Err(DiscoveryErrorView::Missing { path: checks.first().path })
    } else if checks.first().status == DirStatus::NotDirectory {
        Err(DiscoveryErrorView::NotADirectory { path: checks.first().path })
    } else {
        validate_spec(checks.drop_first())
    }
}

proof fn lemma_validate_ok(checks: Seq<DirCheckView>)
    requires
        forall|j: int| 0 <= j < checks.len() ==> checks[j].status == DirStatus::Directory,
    ensures
        validate_spec(checks) == Result::<(), DiscoveryErrorView>::Ok(()),
    decreases checks.len(),
{
    if checks.len() > 0 {
        lemma_validate_ok(checks.drop_first());
    }
}

proof fn lemma_validate_first_bad(checks: Seq<DirCheckView>, i: int)
    requires
        0 <= i < checks.len(),
        checks[i].status != DirStatus::Directory,
        forall|j: int| 0 <= j < i ==> checks[j].status == DirStatus::Directory,
    ensures
        validate_spec(checks) == (if checks[i].status == DirStatus::Absent {
            Result::<(), DiscoveryErrorView>::Err(DiscoveryErrorView::Missing { path: checks[i].path })
        } else {
            Result::<(), DiscoveryErrorView>::Err(
                DiscoveryErrorView::NotADirectory { path: checks[i].path },
            )
        }),
    decreases i,
{
    if i > 0 {
        lemma_validate_first_bad(checks.drop_first(), i - 1);
    }
}

/// Confirms that every probed path in the batch is an existing directory.
/// Fail-fast: the first offending path decides the error, and whether it was
/// missing or merely not a directory is reported with its path.
pub fn validate_directories_exist(checks: &Vec<DirCheck>) -> (r: Result<(), DiscoveryError>)
    ensures
        disc_view(r) == validate_spec((*checks).deep_view()),
{
    let ghost all = (*checks).deep_view();
    let mut i: usize = 0;
    while i < checks.len()
        invariant
            0 <= i <= checks.len(),
            all == (*checks).deep_view(),
            forall|j: int| 0 <= j < i ==> all[j].status == DirStatus::Directory,
        decreases checks.len() - i,
    {
        let c = &checks[i];
        match c.status {
            DirStatus::Directory => {},
            DirStatus::Absent => {
                proof {
                    lemma_validate_first_bad(all, i as int);
                }
                return Err(DiscoveryError::Missing { path: c.path.clone() });
            },
            DirStatus::NotDirectory => {
                proof {
                    lemma_validate_first_bad(all, i as int);
                }
                return Err(DiscoveryError::NotADirectory { path: c.path.clone() });
            },
        }
        i = i + 1;
    }
    proof {
        lemma_validate_ok(all);
    }
    Ok(())
}

// ===== Listing directories for candidates =====

/// The names of the directory entries of a listing, in listing order;
/// non-directory entries and failed entries contribute nothing.
pub open spec fn dir_candidates(entries: Seq<ListEntryView>) -> Seq<Seq<char>>
    decreases entries.len(),
{
    if entries.len() == 0 {
        Seq::empty()
    } else {
        let rest = dir_candidates(entries.drop_last());
        match entries.last() {
            ListEntryView::Entry(e) => if e.is_dir {
                rest.push(e.name)
            } else {
                rest
            },
            ListEntryView::Failure(_) => rest,
        }
    }
}

/// Whether one listing item is a failed entry.
pub open spec fn entry_failed(e: ListEntryView) -> bool {
    e matches ListEntryView::Failure(_)
}

/// The message of the first entry that failed to be read, if any.
pub open spec fn first_entry_failure(entries: Seq<ListEntryView>) -> Option<Seq<char>>
    decreases entries.len(),
{
    if entries.len() == 0 {
        None
    } else {
        match entries.first() {
            ListEntryView::Failure(m) => Some(m),
            ListEntryView::Entry(_) => first_entry_failure(entries.drop_first()),
        }
    }
}

proof fn lemma_no_entry_failure(entries: Seq<ListEntryView>)
    requires
        forall|j: int| 0 <= j < entries.len() ==> !entry_failed(entries[j]),
    ensures
        first_entry_failure(entries) is None,
    decreases entries.len(),
{
    if entries.len() > 0 {
        lemma_no_entry_failure(entries.drop_first());
    }
}

proof fn lemma_first_entry_failure_at(entries: Seq<ListEntryView>, i: int, m: Seq<char>)
    requires
        0 <= i < entries.len(),
        entries[i] == ListEntryView::Failure(m),
        forall|j: int| 0 <= j < i ==> !entry_failed(entries[j]),
    ensures
        first_entry_failure(entries) == Some(m),
    decreases i,
{
    if i > 0 {
        lemma_first_entry_failure_at(entries.drop_first(), i - 1, m);
    }
}

/// What listing a directory for subdirectory candidates yields: the candidate
/// names in listing order, or the first failure — a failed enumeration or an
/// unreadable entry — as an `Unreadable` error naming the listed directory.
pub open spec fn listed_names_spec(dir: Seq<char>, listing: ListingView) -> Result<
    Seq<Seq<char>>,
    DiscoveryErrorView,
> {
    match listing {
        ListingView::Failed(m) => Err(DiscoveryErrorView::Unreadable { path: dir, message: m }),
        ListingView::Entries(es) => match first_entry_failure(es) {
            Some(m) => Err(DiscoveryErrorView::Unreadable { path: dir, message: m }),
            None => Ok(dir_candidates(es)),
        },
    }
}

/// Lists the subdirectory names of one directory, as reported by the given
/// listing, aborting on the first unreadable entry.
pub fn listed_directory_names(dir: &String, listing: &Listing) -> (r: Result<
    Vec<String>,
    DiscoveryError,
>)
    ensures
        disc_view(r) == listed_names_spec(dir@, listing@),
{
    match listing {
        Listing::Failed(m) => Err(
            DiscoveryError::Unreadable { path: dir.clone(), message: m.clone() },
        ),
        Listing::Entries(entries) => {
            let ghost all = (*entries).deep_view();
            proof {
                assert(all =~= ((*listing)->Entries_0).deep_view());
                assert(listing@ == ListingView::Entries(all));
            }
            let mut names: Vec<String> = Vec::new();
            let mut i: usize = 0;
            while i < entries.len()
                invariant
                    0 <= i <= entries.len(),
                    all == (*entries).deep_view(),
                    listing@ == ListingView::Entries(all),
                    forall|j: int| 0 <= j < i ==> !entry_failed(all[j]),
                    names.deep_view() == dir_candidates(all.take(i as int)),
                decreases entries.len() - i,
            {
                match &entries[i] {
                    ListEntry::Failure(m) => {
                        proof {
                            lemma_first_entry_failure_at(all, i as int, m@);
                        }
                        return Err(
                            DiscoveryError::Unreadable { path: dir.clone(), message: m.clone() },
                        );
                    },
                    ListEntry::Entry(e) => {
                        if e.is_dir {
                            names.push(e.name.clone());
                        }
                        proof {
                            assert(all.take(i + 1 as int).drop_last() =~= all.take(i as int));
                            assert(all.take(i + 1 as int).last() == all[i as int]);
                            assert(names.deep_view() =~= dir_candidates(all.take(i + 1 as int)));
                        }
                    },
                }
                i = i + 1;
            }
            proof {
                lemma_no_entry_failure(all);
                assert(all.take(entries.len() as int) =~= all);
            }
            Ok(names)
        },
    }
}

/// Lists the platform candidates of the clusters directory: each subdirectory
/// name of `<root>/clusters` becomes a candidate platform name.
pub fn get_cluster_names_from_clusters_directories(
    clusters_directory: &String,
    listing: &Listing,
) -> (r: Result<Vec<String>, DiscoveryError>)
    ensures
        disc_view(r) == listed_names_spec(clusters_directory@, listing@),
{
    listed_directory_names(clusters_directory, listing)
}

/// Lists the component candidates of one platform: each subdirectory name of
/// `manifests/<platform>` becomes a component name.
pub fn get_component_names_from_manifest_directory(
    platform_manifests_directory: &String,
    listing: &Listing,
) -> (r: Result<Vec<String>, DiscoveryError>)
    ensures
        disc_view(r) == listed_names_spec(platform_manifests_directory@, listing@),
{
    listed_directory_names(platform_manifests_directory, listing)
}

// ===== Components =====

/// A named subdivision of a platform's manifests: one directory per
/// component. Its manifest directory must have existed as a directory when
/// the component was discovered.
#[derive(Debug, Clone, PartialEq)]
pub struct Component {
    pub manifests_directory: String,
    pub name: String,
}

/// The mathematical value of a [`Component`].
#[verifier::ext_equal]
pub struct ComponentView {
    pub manifests_directory: Seq<char>,
    pub name: Seq<char>,
}

impl View for Component {
    type V = ComponentView;

    open spec fn view(&self) -> ComponentView {
        ComponentView { manifests_directory: self.manifests_directory@, name: self.name@ }
    }
}

impl DeepView for Component {
    type V = ComponentView;

    open spec fn deep_view(&self) -> ComponentView {
        self.view()
    }
}

impl Component {
    /// An equal copy of this component record.
    pub fn duplicate(&self) -> (r: Component)
        ensures
            r@ == self@,
    {
        Component {
            manifests_directory: self.manifests_directory.clone(),
            name: self.name.clone(),
        }
    }
}

/// The component records that component discovery builds from candidate
/// names, each bound to `<manifests dir>/<name>`.
pub open spec fn built_components(mdir: Seq<char>, names: Seq<Seq<char>>) -> Seq<ComponentView> {
    Seq::new(
        names.len(),
        |j: int| ComponentView { manifests_directory: joined(mdir, names[j]), name: names[j] },
    )
}

/// What building the component records of one platform yields: every
/// candidate whose directory was re-probed as a directory becomes a
/// component, in discovery order; the first candidate whose directory is
/// missing or not a directory aborts the platform with its error.
pub open spec fn components_spec(
    mdir: Seq<char>,
    names: Seq<Seq<char>>,
    statuses: Seq<DirStatus>,
) -> Result<Seq<ComponentView>, DiscoveryErrorView>
    decreases names.len(),
{
    if names.len() == 0 {
        Ok(Seq::empty())
    } else if statuses.first() == DirStatus::Absent {
        Err(DiscoveryErrorView::Missing { path: joined(mdir, names.first()) })
    } else if statuses.first() == DirStatus::NotDirectory {
        Err(DiscoveryErrorView::NotADirectory { path: joined(mdir, names.first()) })
    } else {
        match components_spec(mdir, names.drop_first(), statuses.drop_first()) {
            Ok(rest) => Ok(
                seq![
                    ComponentView {
                        manifests_directory: joined(mdir, names.first()),
                        name: names.first(),
                    },
                ] + rest,
            ),
            Err(e) => Err(e),
        }
    }
}

proof fn lemma_components_ok(mdir: Seq<char>, names: Seq<Seq<char>>, statuses: Seq<DirStatus>)
    requires
        names.len() == statuses.len(),
        forall|j: int| 0 <= j < statuses.len() ==> statuses[j] == DirStatus::Directory,
    ensures
        components_spec(mdir, names, statuses) == Result::<
            Seq<ComponentView>,
            DiscoveryErrorView,
        >::Ok(built_components(mdir, names)),
    decreases names.len(),
{
    if names.len() == 0 {
        assert(built_components(mdir, names) =~= Seq::empty());
    } else {
        lemma_components_ok(mdir, names.drop_first(), statuses.drop_first());
        assert(seq![
            ComponentView { manifests_directory: joined(mdir, names.first()), name: names.first() },
        ] + built_components(mdir, names.drop_first()) =~= built_components(mdir, names));
    }
}

proof fn lemma_components_first_bad(
    mdir: Seq<char>,
    names: Seq<Seq<char>>,
    statuses: Seq<DirStatus>,
    i: int,
)
    requires
        names.len() == statuses.len(),
        0 <= i < names.len(),
        statuses[i] != DirStatus::Directory,
        forall|j: int| 0 <= j < i ==> statuses[j] == DirStatus::Directory,
    ensures
        components_spec(mdir, names, statuses) == (if statuses[i] == DirStatus::Absent {
            Result::<Seq<ComponentView>, DiscoveryErrorView>::Err(
                DiscoveryErrorView::Missing { path: joined(mdir, names[i]) },
            )
        } else {
            Result::<Seq<ComponentView>, DiscoveryErrorView>::Err(
                DiscoveryErrorView::NotADirectory { path: joined(mdir, names[i]) },
            )
        }),
    decreases i,
{
    if i > 0 {
        lemma_components_first_bad(mdir, names.drop_first(), statuses.drop_first(), i - 1);
    }
}

/// Builds the component records of one platform from the discovered names and
/// the re-probed status of each component's manifest directory, fail-fast.
pub fn build_components(
    mdir: &String,
    names: &Vec<String>,
    statuses: &Vec<DirStatus>,
) -> (r: Result<Vec<Component>, DiscoveryError>)
    requires
        names@.len() == statuses@.len(),
    ensures
        disc_view(r) == components_spec(mdir@, (*names).deep_view(), statuses@),
{
    let ghost names_dv = (*names).deep_view();
    let ghost statuses_v = statuses@;
    let mut comps: Vec<Component> = Vec::new();
    let mut i: usize = 0;
    while i < names.len()
        invariant
            0 <= i <= names.len(),
            names_dv == (*names).deep_view(),
            statuses_v == statuses@,
            names@.len() == statuses@.len(),
            forall|j: int| 0 <= j < i ==> statuses_v[j] == DirStatus::Directory,
            comps.deep_view() == built_components(mdir@, names_dv.take(i as int)),
        decreases names.len() - i,
    {
        let path = join_path(mdir.as_str(), names[i].as_str());
        match statuses[i] {
            DirStatus::Directory => {
                proof {
                    assert(comps.deep_view().len() == i as int);
                    assert(comps@.len() == i);
                }
                let ghost prev = comps.deep_view();
                comps.push(Component { manifests_directory: path, name: names[i].clone() });
                proof {
                    assert(comps@.len() == i + 1);
                    assert(comps.deep_view()[i as int] == ComponentView {
                        manifests_directory: joined(mdir@, names_dv[i as int]),
                        name: names_dv[i as int],
                    });
                    assert forall|j: int|
                        0 <= j < i + 1 implies comps.deep_view()[j] == built_components(
                            mdir@,
                            names_dv.take(i + 1),
                        )[j] by {
                        assert(names_dv.take(i + 1)[j] == names_dv[j]);
                        if j < i {
                            assert(comps.deep_view()[j] == comps@[j].deep_view());
                            assert(comps.deep_view()[j] == prev[j]);
                            assert(prev[j] == built_components(
                                mdir@,
                                names_dv.take(i as int),
                            )[j]);
                            assert(names_dv.take(i as int)[j] == names_dv[j]);
                        }
                    }
                    assert(built_components(mdir@, names_dv.take(i + 1)).len() == i + 1);
                    assert(comps.deep_view() =~= built_components(
                        mdir@,
                        names_dv.take(i + 1),
                    ));
                }
            },
            DirStatus::Absent => {
                proof {
                    lemma_components_first_bad(mdir@, names_dv, statuses_v, i as int);
                }
                return Err(DiscoveryError::Missing { path });
            },
            DirStatus::NotDirectory => {
                proof {
                    lemma_components_first_bad(mdir@, names_dv, statuses_v, i as int);
                }
                return Err(DiscoveryError::NotADirectory { path });
            },
        }
        i = i + 1;
    }
    proof {
        lemma_components_ok(mdir@, names_dv, statuses_v);
        assert(names_dv.take(names.len() as int) =~= names_dv);
    }
    Ok(comps)
}

// ===== Platforms =====

/// A top-level deployment target. All three convention directories existed
/// as directories at construction time, and the component list is fully
/// built; no partially built platform ever escapes.
#[derive(Debug, Clone, PartialEq)]
pub struct Platform {
    pub name: String,
    pub environment_directory: String,
    pub cluster_directory: String,
    pub manifests_directory: String,
    pub components: Vec<Component>,
}

/// The mathematical value of a [`Platform`].
#[verifier::ext_equal]
pub struct PlatformView {
    pub name: Seq<char>,
    pub environment_directory: Seq<char>,
    pub cluster_directory: Seq<char>,
    pub manifests_directory: Seq<char>,
    pub components: Seq<ComponentView>,
}

impl View for Platform {
    type V = PlatformView;

    open spec fn view(&self) -> PlatformView {
        PlatformView {
            name: self.name@,
            environment_directory: self.environment_directory@,
            cluster_directory: self.cluster_directory@,
            manifests_directory: self.manifests_directory@,
            components: self.components.deep_view(),
        }
    }
}

impl DeepView for Platform {
    type V = PlatformView;

    open spec fn deep_view(&self) -> PlatformView {
        self.view()
    }
}

impl Platform {
    /// An equal copy of this platform record.
    pub fn duplicate(&self) -> (r: Platform)
        ensures
            r@ == self@,
    {
        let mut components: Vec<Component> = Vec::new();
        let mut i: usize = 0;
        while i < self.components.len()
            invariant
                0 <= i <= self.components.len(),
                components.deep_view() == self.components.deep_view().take(i as int),
            decreases self.components.len() - i,
        {
            proof {
                assert(components.deep_view().len() == i as int);
                assert(components@.len() == i);
            }
            components.push(self.components[i].duplicate());
            proof {
                assert(components@.len() == i + 1);
                assert forall|j: int|
                    0 <= j < i + 1 implies components.deep_view()[j]
                    == self.components.deep_view().take(i + 1)[j] by {
                    assert(components.deep_view()[j] == components@[j].deep_view());
                    assert(self.components.deep_view().take(i + 1)[j]
                        == self.components.deep_view()[j]);
                    if j < i {
                        assert(self.components.deep_view().take(i as int)[j]
                            == self.components.deep_view()[j]);
                    }
                }
                assert(components.deep_view() =~= self.components.deep_view().take(i + 1));
            }
            i = i + 1;
        }
        proof {
            assert(self.components.deep_view().take(self.components.len() as int)
                =~= self.components.deep_view());
        }
        Platform {
            name: self.name.clone(),
            environment_directory: self.environment_directory.clone(),
            cluster_directory: self.cluster_directory.clone(),
            manifests_directory: self.manifests_directory.clone(),
            components,
        }
    }
}

/// What the surrounding program probed for one platform candidate: the
/// status of its three convention directories, the listing of its manifests
/// directory, and the re-probed status of each component candidate's
/// directory, in candidate order.
#[derive(Debug, Clone)]
pub struct PlatformInput {
    pub environment_status: DirStatus,
    pub cluster_status: DirStatus,
    pub manifests_status: DirStatus,
    pub manifests_listing: Listing,
    pub component_statuses: Vec<DirStatus>,
}

/// The mathematical value of a [`PlatformInput`].
#[verifier::ext_equal]
pub struct PlatformInputView {
    pub environment_status: DirStatus,
    pub cluster_status: DirStatus,
    pub manifests_status: DirStatus,
    pub manifests_listing: ListingView,
    pub component_statuses: Seq<DirStatus>,
}

impl View for PlatformInput {
    type V = PlatformInputView;

    open spec fn view(&self) -> PlatformInputView {
        PlatformInputView {
            environment_status: self.environment_status,
            cluster_status: self.cluster_status,
            manifests_status: self.manifests_status,
            manifests_listing: self.manifests_listing@,
            component_statuses: self.component_statuses@,
        }
    }
}

impl DeepView for PlatformInput {
    type V = PlatformInputView;

    open spec fn deep_view(&self) -> PlatformInputView {
        self.view()
    }
}

/// The names of a sequence are pairwise distinct, as the entries of a real
/// directory always are.
pub open spec fn distinct_names(names: Seq<Seq<char>>) -> bool {
    forall|a: int, b: int| 0 <= a < b < names.len() ==> names[a] != names[b]
}

/// The platform input reports a real listing of the manifests directory —
/// its subdirectory candidates bear pairwise distinct names — with one
/// re-probed status per component candidate.
pub open spec fn platform_input_wf(i: PlatformInputView) -> bool {
    match i.manifests_listing {
        ListingView::Entries(es) => {
            &&& distinct_names(dir_candidates(es))
            &&& (first_entry_failure(es) is None ==> i.component_statuses.len()
                == dir_candidates(es).len())
        },
        ListingView::Failed(m) => true,
    }
}

/// The convention directory of a platform under `environments/`.
pub open spec fn environment_dir_of(root: Seq<char>, name: Seq<char>) -> Seq<char> {
    joined(joined(root, "environments"@), name)
}

/// The convention directory of a platform under `clusters/`.
pub open spec fn cluster_dir_of(root: Seq<char>, name: Seq<char>) -> Seq<char> {
    joined(joined(root, "clusters"@), name)
}

/// The convention directory of a platform under `manifests/`.
pub open spec fn manifests_dir_of(root: Seq<char>, name: Seq<char>) -> Seq<char> {
    joined(joined(root, "manifests"@), name)
}

/// What constructing one platform yields: its three convention directories
/// are validated as one batch, in environment, cluster, manifests order;
/// then its manifests directory is listed for component candidates; then the
/// component records are built. The first failure anywhere is the
/// platform's error, and a platform is returned only fully built.
pub open spec fn platform_spec(
    name: Seq<char>,
    root: Seq<char>,
    input: PlatformInputView,
) -> Result<PlatformView, DiscoveryErrorView> {
    let env = environment_dir_of(root, name);
    let clu = cluster_dir_of(root, name);
    let man = manifests_dir_of(root, name);
    let checks = seq![
        DirCheckView { path: env, status: input.environment_status },
        DirCheckView { path: clu, status: input.cluster_status },
        DirCheckView { path: man, status: input.manifests_status },
    ];
    match validate_spec(checks) {
        Err(e) => Err(e),
        Ok(u) => match listed_names_spec(man, input.manifests_listing) {
            Err(e) => Err(e),
            Ok(names) => match components_spec(man, names, input.component_statuses) {
                Err(e) => Err(e),
                Ok(cs) => Ok(
                    PlatformView {
                        name,
                        environment_directory: env,
                        cluster_directory: clu,
                        manifests_directory: man,
                        components: cs,
                    },
                ),
            },
        },
    }
}

impl Platform {
    /// Builds one platform out of the probed statuses and listings of its
    /// convention directories. Either a fully valid platform is produced or
    /// the first error is returned; a missing or non-directory
    /// `environments/<name>`, `clusters/<name>` or `manifests/<name>` path
    /// is reported with that exact path, in that order, before any component
    /// discovery is attempted.
    pub fn new(name: String, system_manifest_directory: String, input: &PlatformInput) -> (r:
        Result<Platform, DiscoveryError>)
        requires
            platform_input_wf((*input)@),
        ensures
            disc_view(r) == platform_spec(name@, system_manifest_directory@, (*input)@),
    {
        let environment_directory = join_path(
            join_path(system_manifest_directory.as_str(), "environments").as_str(),
            name.as_str(),
        );
        let cluster_directory = join_path(
            join_path(system_manifest_directory.as_str(), "clusters").as_str(),
            name.as_str(),
        );
        let manifests_directory = join_path(
            join_path(system_manifest_directory.as_str(), "manifests").as_str(),
            name.as_str(),
        );
        let mut checks: Vec<DirCheck> = Vec::new();
        checks.push(
            DirCheck { path: environment_directory.clone(), status: input.environment_status },
        );
        checks.push(DirCheck { path: cluster_directory.clone(), status: input.cluster_status });
        checks.push(DirCheck { path: manifests_directory.clone(), status: input.manifests_status });
        proof {
            assert(checks.deep_view() =~= seq![
                DirCheckView {
                    path: environment_dir_of(system_manifest_directory@, name@),
                    status: input.environment_status,
                },
                DirCheckView {
                    path: cluster_dir_of(system_manifest_directory@, name@),
                    status: input.cluster_status,
                },
                DirCheckView {
                    path: manifests_dir_of(system_manifest_directory@, name@),
                    status: input.manifests_status,
                },
            ]);
        }
        match validate_directories_exist(&checks) {
            Err(e) => Err(e),
            Ok(u) => {
                match get_component_names_from_manifest_directory(
                    &manifests_directory,
                    &input.manifests_listing,
                ) {
                    Err(e) => Err(e),
                    Ok(names) => {
                        match build_components(
                            &manifests_directory,
                            &names,
                            &input.component_statuses,
                        ) {
                            Err(e) => Err(e),
                            Ok(components) => Ok(
                                Platform {
                                    name,
                                    environment_directory,
                                    cluster_directory,
                                    manifests_directory,
                                    components,
                                },
                            ),
                        }
                    },
                }
            },
        }
    }
}

// ===== The corpus root =====

/// The fully resolved corpus: the root directory and every platform under
/// it, in clusters-listing order.
#[derive(Debug, Clone, PartialEq)]
pub struct SystemManifests {
    pub directory: String,
    pub platforms: Vec<Platform>,
}

/// The mathematical value of a [`SystemManifests`].
#[verifier::ext_equal]
pub struct SystemManifestsView {
    pub directory: Seq<char>,
    pub platforms: Seq<PlatformView>,
}

impl View for SystemManifests {
    type V = SystemManifestsView;

    open spec fn view(&self) -> SystemManifestsView {
        SystemManifestsView { directory: self.directory@, platforms: self.platforms.deep_view() }
    }
}

impl DeepView for SystemManifests {
    type V = SystemManifestsView;

    open spec fn deep_view(&self) -> SystemManifestsView {
        self.view()
    }
}

/// What the surrounding program probed for the whole corpus: the status and
/// listing of `<root>/clusters`, and one [`PlatformInput`] per platform
/// candidate, in candidate order.
#[derive(Debug, Clone)]
pub struct DiscoveryInput {
    pub clusters_status: DirStatus,
    pub clusters_listing: Listing,
    pub platform_inputs: Vec<PlatformInput>,
}

/// The mathematical value of a [`DiscoveryInput`].
#[verifier::ext_equal]
pub struct DiscoveryInputView {
    pub clusters_status: DirStatus,
    pub clusters_listing: ListingView,
    pub platform_inputs: Seq<PlatformInputView>,
}

impl View for DiscoveryInput {
    type V = DiscoveryInputView;

    open spec fn view(&self) -> DiscoveryInputView {
        DiscoveryInputView {
            clusters_status: self.clusters_status,
            clusters_listing: self.clusters_listing@,
            platform_inputs: self.platform_inputs.deep_view(),
        }
    }
}

impl DeepView for DiscoveryInput {
    type V = DiscoveryInputView;

    open spec fn deep_view(&self) -> DiscoveryInputView {
        self.view()
    }
}

/// The discovery input reports a real clusters listing — its subdirectory
/// candidates bear pairwise distinct names — with one platform input per
/// candidate, each itself well-formed.
pub open spec fn discovery_input_wf(i: DiscoveryInputView) -> bool {
    &&& match i.clusters_listing {
        ListingView::Entries(es) => {
            &&& distinct_names(dir_candidates(es))
            &&& (first_entry_failure(es) is None ==> i.platform_inputs.len()
                == dir_candidates(es).len())
        },
        ListingView::Failed(m) => true,
    }
    &&& forall|k: int|
        0 <= k < i.platform_inputs.len() ==> platform_input_wf(#[trigger] i.platform_inputs[k])
}

/// What constructing every platform of the corpus yields: platforms in
/// candidate order, or the first platform's construction error.
pub open spec fn platforms_spec(
    root: Seq<char>,
    names: Seq<Seq<char>>,
    inputs: Seq<PlatformInputView>,
) -> Result<Seq<PlatformView>, DiscoveryErrorView>
    decreases names.len(),
{
    if names.len() == 0 {
        Ok(Seq::empty())
    } else {
        match platform_spec(names.first(), root, inputs.first()) {
            Err(e) => Err(e),
            Ok(p) => match platforms_spec(root, names.drop_first(), inputs.drop_first()) {
                Ok(rest) => Ok(seq![p] + rest),
                Err(e) => Err(e),
            },
        }
    }
}

/// What resolving a root directory yields: the `clusters` subdirectory is
/// validated, listed for platform candidates, and every candidate platform
/// is built; the first failure anywhere is the resolver's error, and no
/// partial corpus is ever returned.
pub open spec fn corpus_spec(directory: Seq<char>, input: DiscoveryInputView) -> Result<
    SystemManifestsView,
    DiscoveryErrorView,
> {
    let clusters_dir = joined(directory, "clusters"@);
    match validate_spec(
        seq![DirCheckView { path: clusters_dir, status: input.clusters_status }],
    ) {
        Err(e) => Err(e),
        Ok(u) => match listed_names_spec(clusters_dir, input.clusters_listing) {
            Err(e) => Err(e),
            Ok(names) => match platforms_spec(directory, names, input.platform_inputs) {
                Err(e) => Err(e),
                Ok(ps) => Ok(SystemManifestsView { directory, platforms: ps }),
            },
        },
    }
}

proof fn lemma_platforms_spec_step(
    root: Seq<char>,
    names: Seq<Seq<char>>,
    inputs: Seq<PlatformInputView>,
    i: int,
    built: Seq<PlatformView>,
)
    requires
        names.len() == inputs.len(),
        0 <= i < names.len(),
        built.len() == i,
        forall|j: int|
            0 <= j < i ==> platform_spec(names[j], root, inputs[j]) == Result::<
                PlatformView,
                DiscoveryErrorView,
            >::Ok(built[j]),
    ensures
        platforms_spec(root, names, inputs) == (match platform_spec(names[i], root, inputs[i]) {
            Err(e) => Result::<Seq<PlatformView>, DiscoveryErrorView>::Err(e),
            Ok(p) => match platforms_spec(
                root,
                names.skip(i + 1),
                inputs.skip(i + 1),
            ) {
                Ok(rest) => Ok(built.push(p) + rest),
                Err(e) => Err(e),
            },
        }),
    decreases i,
{
    if i == 0 {
        assert(names.drop_first() =~= names.skip(1));
        assert(inputs.drop_first() =~= inputs.skip(1));
        match platform_spec(names[0], root, inputs[0]) {
            Err(e) => {},
            Ok(p) => {
                assert(seq![p] =~= built.push(p));
                match platforms_spec(root, names.skip(1), inputs.skip(1)) {
                    Ok(rest) => {
                        assert(seq![p] + rest =~= built.push(p) + rest);
                    },
                    Err(e) => {},
                }
            },
        }
    } else {
        let names1 = names.drop_first();
        let inputs1 = inputs.drop_first();
        let built1 = built.drop_first();
        assert(platform_spec(names[0], root, inputs[0]) == Result::<
            PlatformView,
            DiscoveryErrorView,
        >::Ok(built[0]));
        assert forall|j: int|
            0 <= j < i - 1 implies platform_spec(names1[j], root, inputs1[j]) == Result::<
            PlatformView,
            DiscoveryErrorView,
        >::Ok(built1[j]) by {
            assert(names1[j] == names[j + 1]);
            assert(inputs1[j] == inputs[j + 1]);
            assert(built1[j] == built[j + 1]);
        }
        lemma_platforms_spec_step(root, names1, inputs1, i - 1, built1);
        assert(names1.skip(i) =~= names.skip(i + 1));
        assert(inputs1.skip(i) =~= inputs.skip(i + 1));
        match platform_spec(names[i], root, inputs[i]) {
            Err(e) => {},
            Ok(p) => {
                assert(seq![built[0]] + built1.push(p) =~= built.push(p));
                match platforms_spec(root, names.skip(i + 1), inputs.skip(i + 1)) {
                    Ok(rest) => {
                        assert(seq![built[0]] + (built1.push(p) + rest) =~= built.push(p) + rest);
                    },
                    Err(e) => {},
                }
            },
        }
    }
}

proof fn lemma_platforms_spec_done(
    root: Seq<char>,
    names: Seq<Seq<char>>,
    inputs: Seq<PlatformInputView>,
    built: Seq<PlatformView>,
)
    requires
        names.len() == inputs.len(),
        built.len() == names.len(),
        forall|j: int|
            0 <= j < names.len() ==> platform_spec(names[j], root, inputs[j]) == Result::<
                PlatformView,
                DiscoveryErrorView,
            >::Ok(built[j]),
    ensures
        platforms_spec(root, names, inputs) == Result::<
            Seq<PlatformView>,
            DiscoveryErrorView,
        >::Ok(built),
    decreases names.len(),
{
    if names.len() == 0 {
        assert(built =~= Seq::<PlatformView>::empty());
    } else {
        let names1 = names.drop_first();
        let inputs1 = inputs.drop_first();
        let built1 = built.drop_first();
        assert forall|j: int|
            0 <= j < names1.len() implies platform_spec(names1[j], root, inputs1[j]) == Result::<
            PlatformView,
            DiscoveryErrorView,
        >::Ok(built1[j]) by {
            assert(names1[j] == names[j + 1]);
            assert(inputs1[j] == inputs[j + 1]);
            assert(built1[j] == built[j + 1]);
        }
        lemma_platforms_spec_done(root, names1, inputs1, built1);
        assert(seq![built[0]] + built1 =~= built);
    }
}

impl SystemManifests {
    /// Resolves the whole corpus out of the probed state of a root
    /// directory: validates `<root>/clusters`, takes each of its
    /// subdirectory names as a platform, and builds every platform. Either
    /// the full corpus is returned, with platforms in clusters-listing
    /// order, or the first discovery error.
    #[verifier::loop_isolation(false)]
    pub fn new(directory: String, input: &DiscoveryInput) -> (r: Result<
        SystemManifests,
        DiscoveryError,
    >)
        requires
            discovery_input_wf((*input)@),
        ensures
            disc_view(r) == corpus_spec(directory@, (*input)@),
    {
        let clusters_directory = join_path(directory.as_str(), "clusters");
        let mut checks: Vec<DirCheck> = Vec::new();
        checks.push(DirCheck { path: clusters_directory.clone(), status: input.clusters_status });
        proof {
            assert(checks.deep_view() =~= seq![
                DirCheckView {
                    path: joined(directory@, "clusters"@),
                    status: input.clusters_status,
                },
            ]);
        }
        match validate_directories_exist(&checks) {
            Err(e) => Err(e),
            Ok(u) => {
                match get_cluster_names_from_clusters_directories(
                    &clusters_directory,
                    &input.clusters_listing,
                ) {
                    Err(e) => Err(e),
                    Ok(names) => {
                        let ghost names_dv = names.deep_view();
                        let ghost inputs_v = input.platform_inputs.deep_view();
                        let ghost root_v = directory@;
                        proof {
                            assert(names_dv.len() == names@.len());
                            assert(inputs_v.len() == input.platform_inputs@.len());
                        }
                        let mut platforms: Vec<Platform> = Vec::new();
                        let mut i: usize = 0;
                        while i < names.len()
                            invariant
                                0 <= i <= names.len(),
                                names_dv == names.deep_view(),
                                inputs_v == input.platform_inputs.deep_view(),
                                root_v == directory@,
                                names.len() == input.platform_inputs.len(),
                                forall|k: int|
                                    0 <= k < inputs_v.len() ==> platform_input_wf(
                                        #[trigger] inputs_v[k],
                                    ),
                                platforms@.len() == i,
                                forall|j: int|
                                    0 <= j < i ==> platform_spec(names_dv[j], root_v, inputs_v[j])
                                        == Result::<PlatformView, DiscoveryErrorView>::Ok(
                                        platforms.deep_view()[j],
                                    ),
                            decreases names.len() - i,
                        {
                            let ghost built = platforms.deep_view();
                            proof {
                                assert(inputs_v[i as int] == input.platform_inputs@[
                                    i as int
                                ].deep_view());
                                assert(names_dv[i as int] == names@[i as int]@);
                            }
                            match Platform::new(
                                names[i].clone(),
                                directory.clone(),
                                &input.platform_inputs[i],
                            ) {
                                Err(e) => {
                                    proof {
                                        lemma_platforms_spec_step(
                                            root_v,
                                            names_dv,
                                            inputs_v,
                                            i as int,
                                            built,
                                        );
                                    }
                                    return Err(e);
                                },
                                Ok(p) => {
                                    platforms.push(p);
                                    proof {
                                        assert(platforms@.len() == i + 1);
                                        assert forall|j: int|
                                            0 <= j < i + 1 implies platform_spec(
                                            names_dv[j],
                                            root_v,
                                            inputs_v[j],
                                        ) == Result::<PlatformView, DiscoveryErrorView>::Ok(
                                            platforms.deep_view()[j],
                                        ) by {
                                            assert(platforms.deep_view()[j] == platforms@[
                                                j
                                            ].deep_view());
                                            if j < i {
                                                assert(built[j] == platforms@[j].deep_view());
                                            }
                                        }
                                    }
                                },
                            }
                            i = i + 1;
                        }
                        proof {
                            lemma_platforms_spec_done(
                                root_v,
                                names_dv,
                                inputs_v,
                                platforms.deep_view(),
                            );
                        }
                        Ok(SystemManifests { directory, platforms })
                    },
                }
            },
        }
    }
}

// ===== Laws of discovery =====

proof fn lemma_components_spec_ok_shape(
    mdir: Seq<char>,
    names: Seq<Seq<char>>,
    statuses: Seq<DirStatus>,
    cs: Seq<ComponentView>,
)
    requires
        components_spec(mdir, names, statuses) == Result::<
            Seq<ComponentView>,
            DiscoveryErrorView,
        >::Ok(cs),
    ensures
        cs.len() == names.len(),
        forall|k: int|
            0 <= k < cs.len() ==> #[trigger] cs[k] == (ComponentView {
                manifests_directory: joined(mdir, names[k]),
                name: names[k],
            }),
    decreases names.len(),
{
    if names.len() > 0 {
        let rest = components_spec(mdir, names.drop_first(), statuses.drop_first());
        lemma_components_spec_ok_shape(
            mdir,
            names.drop_first(),
            statuses.drop_first(),
            rest->Ok_0,
        );
        assert forall|k: int| 0 <= k < cs.len() implies #[trigger] cs[k] == ComponentView {
            manifests_directory: joined(mdir, names[k]),
            name: names[k],
        } by {
            if k > 0 {
                assert(cs[k] == rest->Ok_0[k - 1]);
                assert(names.drop_first()[k - 1] == names[k]);
            }
        }
    }
}

/// Whether a platform's component names are exactly the subdirectory names
/// of the given manifests-directory listing, in listing order and as sets;
/// false of a listing that failed to enumerate.
pub open spec fn component_names_match(listing: ListingView, p: PlatformView) -> bool {
    match listing {
        ListingView::Entries(es) => {
            &&& p.components.len() == dir_candidates(es).len()
            &&& forall|k: int|
                0 <= k < p.components.len() ==> #[trigger] p.components[k].name
                    == dir_candidates(es)[k]
            &&& p.components.map_values(|c: ComponentView| c.name).to_set() == dir_candidates(
                es,
            ).to_set()
        },
        ListingView::Failed(m) => false,
    }
}

/// A successfully built platform's component names are exactly the
/// subdirectory names of its `manifests/<platform>` listing, in listing
/// order — and so as sets too; its listing cannot have failed.
pub proof fn lemma_platform_component_names(
    name: Seq<char>,
    root: Seq<char>,
    input: PlatformInputView,
    p: PlatformView,
)
    requires
        platform_spec(name, root, input) == Result::<PlatformView, DiscoveryErrorView>::Ok(p),
    ensures
        component_names_match(input.manifests_listing, p),
{
    let man = manifests_dir_of(root, name);
    match input.manifests_listing {
        ListingView::Failed(m) => {},
        ListingView::Entries(es) => {
            let names = dir_candidates(es);
            lemma_components_spec_ok_shape(man, names, input.component_statuses, p.components);
            assert(p.components.map_values(|c: ComponentView| c.name) =~= names);
        },
    }
}

proof fn lemma_platforms_spec_ok_shape(
    root: Seq<char>,
    names: Seq<Seq<char>>,
    inputs: Seq<PlatformInputView>,
    ps: Seq<PlatformView>,
)
    requires
        platforms_spec(root, names, inputs) == Result::<
            Seq<PlatformView>,
            DiscoveryErrorView,
        >::Ok(ps),
    ensures
        ps.len() == names.len(),
        forall|k: int| 0 <= k < ps.len() ==> #[trigger] ps[k].name == names[k],
    decreases names.len(),
{
    if names.len() > 0 {
        let rest = platforms_spec(root, names.drop_first(), inputs.drop_first());
        lemma_platforms_spec_ok_shape(root, names.drop_first(), inputs.drop_first(), rest->Ok_0);
        assert forall|k: int| 0 <= k < ps.len() implies #[trigger] ps[k].name == names[k] by {
            if k == 0 {
                assert(platform_spec(names.first(), root, inputs.first())->Ok_0.name
                    == names.first());
            } else {
                assert(ps[k] == rest->Ok_0[k - 1]);
                assert(names.drop_first()[k - 1] == names[k]);
            }
        }
    }
}

/// Whether a corpus's platform names are exactly the subdirectory names of
/// the given clusters listing, in listing order and as sets; false of a
/// listing that failed to enumerate.
pub open spec fn platform_names_match(listing: ListingView, m: SystemManifestsView) -> bool {
    match listing {
        ListingView::Entries(es) => {
            &&& m.platforms.len() == dir_candidates(es).len()
            &&& forall|k: int|
                0 <= k < m.platforms.len() ==> #[trigger] m.platforms[k].name
                    == dir_candidates(es)[k]
            &&& m.platforms.map_values(|p: PlatformView| p.name).to_set() == dir_candidates(
                es,
            ).to_set()
        },
        ListingView::Failed(m2) => false,
    }
}

/// A successfully resolved corpus's platform names are exactly the
/// subdirectory names of the `clusters` listing, in listing order — and so
/// as sets too; the listing cannot have failed, and the corpus keeps its
/// root directory.
pub proof fn lemma_corpus_platform_names(
    directory: Seq<char>,
    input: DiscoveryInputView,
    m: SystemManifestsView,
)
    requires
        corpus_spec(directory, input) == Result::<SystemManifestsView, DiscoveryErrorView>::Ok(m),
    ensures
        platform_names_match(input.clusters_listing, m),
        m.directory == directory,
{
    match input.clusters_listing {
        ListingView::Failed(f) => {},
        ListingView::Entries(es) => {
            let names = dir_candidates(es);
            lemma_platforms_spec_ok_shape(directory, names, input.platform_inputs, m.platforms);
            assert(m.platforms.map_values(|p: PlatformView| p.name) =~= names);
        },
    }
}

/// A successfully built platform's components bear pairwise distinct names:
/// they are the distinct subdirectory names of a real manifests listing.
pub proof fn lemma_platform_component_names_distinct(
    name: Seq<char>,
    root: Seq<char>,
    input: PlatformInputView,
    p: PlatformView,
)
    requires
        platform_input_wf(input),
        platform_spec(name, root, input) == Result::<PlatformView, DiscoveryErrorView>::Ok(p),
    ensures
        forall|a: int, b: int|
            0 <= a < b < p.components.len() ==> p.components[a].name != p.components[b].name,
{
    lemma_platform_component_names(name, root, input, p);
    match input.manifests_listing {
        ListingView::Failed(m) => {},
        ListingView::Entries(es) => {
            let cand = dir_candidates(es);
            assert forall|a: int, b: int|
                0 <= a < b < p.components.len() implies p.components[a].name
                != p.components[b].name by {
                assert(p.components[a].name == cand[a]);
                assert(p.components[b].name == cand[b]);
            }
        },
    }
}

/// A successfully resolved corpus's platforms bear pairwise distinct names:
/// they are the distinct subdirectory names of a real clusters listing.
pub proof fn lemma_corpus_platform_names_distinct(
    directory: Seq<char>,
    input: DiscoveryInputView,
    m: SystemManifestsView,
)
    requires
        discovery_input_wf(input),
        corpus_spec(directory, input) == Result::<SystemManifestsView, DiscoveryErrorView>::Ok(m),
    ensures
        forall|a: int, b: int|
            0 <= a < b < m.platforms.len() ==> m.platforms[a].name != m.platforms[b].name,
{
    lemma_corpus_platform_names(directory, input, m);
    match input.clusters_listing {
        ListingView::Failed(f) => {},
        ListingView::Entries(es) => {
            let cand = dir_candidates(es);
            assert forall|a: int, b: int|
                0 <= a < b < m.platforms.len() implies m.platforms[a].name
                != m.platforms[b].name by {
                assert(m.platforms[a].name == cand[a]);
                assert(m.platforms[b].name == cand[b]);
            }
        },
    }
}

/// A missing `environments/<platform>` directory fails the platform's
/// construction with a discovery error naming that exact path, whatever the
/// rest of the input reports: no component discovery is reached.
pub proof fn lemma_missing_environment_fails(
    name: Seq<char>,
    root: Seq<char>,
    input: PlatformInputView,
)
    requires
        input.environment_status == DirStatus::Absent,
    ensures
        platform_spec(name, root, input) == Result::<PlatformView, DiscoveryErrorView>::Err(
            DiscoveryErrorView::Missing { path: environment_dir_of(root, name) },
        ),
{
}

/// Resolution is deterministic: one discovery input admits one corpus, so
/// resolving the same unmodified directory tree twice yields equal results.
pub proof fn lemma_resolution_deterministic(
    directory: Seq<char>,
    input: DiscoveryInputView,
    r1: SystemManifestsView,
    r2: SystemManifestsView,
)
    requires
        corpus_spec(directory, input) == Result::<SystemManifestsView, DiscoveryErrorView>::Ok(r1),
        corpus_spec(directory, input) == Result::<SystemManifestsView, DiscoveryErrorView>::Ok(r2),
    ensures
        r1 == r2,
{
}

} // verus!
