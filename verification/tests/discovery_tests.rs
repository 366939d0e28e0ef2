use system_manifests::discovery::{
    build_components, get_cluster_names_from_clusters_directories,
    get_component_names_from_manifest_directory, validate_directories_exist, DiscoveryInput,
    Platform, PlatformInput, SystemManifests,
};
use system_manifests::errors::DiscoveryError;
use system_manifests::fsview::{DirCheck, DirEntryRecord, DirStatus, ListEntry, Listing};
use system_manifests::join_path;

fn dir_entry(name: &str, is_dir: bool, is_file: bool) -> ListEntry {
    ListEntry::Entry(DirEntryRecord { name: name.to_string(), is_dir, is_file })
}

fn empty_platform_input() -> PlatformInput {
    PlatformInput {
        environment_status: DirStatus::Directory,
        cluster_status: DirStatus::Directory,
        manifests_status: DirStatus::Directory,
        manifests_listing: Listing::Entries(Vec::new()),
        component_statuses: Vec::new(),
    }
}

#[test]
fn join_path_inserts_separator() {
    assert_eq!(join_path("root", "clusters"), "root/clusters");
    assert_eq!(join_path("root/clusters", "prod"), "root/clusters/prod");
    assert_eq!(join_path("", "x"), "/x");
}

#[test]
fn validate_accepts_all_directories() {
    let checks = vec![
        DirCheck { path: "a".to_string(), status: DirStatus::Directory },
        DirCheck { path: "b".to_string(), status: DirStatus::Directory },
    ];
    assert!(validate_directories_exist(&checks).is_ok());
}

#[test]
fn validate_reports_first_missing_path() {
    let checks = vec![
        DirCheck { path: "a".to_string(), status: DirStatus::Directory },
        DirCheck { path: "b".to_string(), status: DirStatus::Absent },
        DirCheck { path: "c".to_string(), status: DirStatus::NotDirectory },
    ];
    match validate_directories_exist(&checks) {
        Err(DiscoveryError::Missing { path }) => assert_eq!(path, "b"),
        other => panic!("expected missing b, got {:?}", other),
    }
}

#[test]
fn validate_reports_not_a_directory() {
    let checks = vec![DirCheck { path: "a".to_string(), status: DirStatus::NotDirectory }];
    match validate_directories_exist(&checks) {
        Err(DiscoveryError::NotADirectory { path }) => assert_eq!(path, "a"),
        other => panic!("expected not-a-directory a, got {:?}", other),
    }
}

#[test]
fn cluster_names_keep_only_directories_in_order() {
    let listing = Listing::Entries(vec![
        dir_entry("prod", true, false),
        dir_entry("notes.txt", false, true),
        dir_entry("staging", true, false),
    ]);
    let names =
        get_cluster_names_from_clusters_directories(&"root/clusters".to_string(), &listing)
            .unwrap();
    assert_eq!(names, vec!["prod".to_string(), "staging".to_string()]);
}

#[test]
fn cluster_names_abort_on_unreadable_entry() {
    let listing = Listing::Entries(vec![
        dir_entry("prod", true, false),
        ListEntry::Failure("permission denied".to_string()),
        dir_entry("staging", true, false),
    ]);
    match get_cluster_names_from_clusters_directories(&"root/clusters".to_string(), &listing) {
        Err(DiscoveryError::Unreadable { path, message }) => {
            assert_eq!(path, "root/clusters");
            assert_eq!(message, "permission denied");
        }
        other => panic!("expected unreadable, got {:?}", other),
    }
}

#[test]
fn component_names_abort_when_listing_fails() {
    let listing = Listing::Failed("io error".to_string());
    match get_component_names_from_manifest_directory(&"root/manifests/prod".to_string(), &listing)
    {
        Err(DiscoveryError::Unreadable { path, message }) => {
            assert_eq!(path, "root/manifests/prod");
            assert_eq!(message, "io error");
        }
        other => panic!("expected unreadable, got {:?}", other),
    }
}

#[test]
fn build_components_binds_each_name_to_its_directory() {
    let comps = build_components(
        &"root/manifests/prod".to_string(),
        &vec!["auth".to_string(), "db".to_string()],
        &vec![DirStatus::Directory, DirStatus::Directory],
    )
    .unwrap();
    assert_eq!(comps.len(), 2);
    assert_eq!(comps[0].name, "auth");
    assert_eq!(comps[0].manifests_directory, "root/manifests/prod/auth");
    assert_eq!(comps[1].name, "db");
    assert_eq!(comps[1].manifests_directory, "root/manifests/prod/db");
}

#[test]
fn build_components_fails_fast_on_missing_directory() {
    let r = build_components(
        &"m".to_string(),
        &vec!["a".to_string(), "b".to_string()],
        &vec![DirStatus::Absent, DirStatus::Directory],
    );
    match r {
        Err(DiscoveryError::Missing { path }) => assert_eq!(path, "m/a"),
        other => panic!("expected missing m/a, got {:?}", other),
    }
}

#[test]
fn platform_new_builds_components_from_manifest_listing() {
    let input = PlatformInput {
        environment_status: DirStatus::Directory,
        cluster_status: DirStatus::Directory,
        manifests_status: DirStatus::Directory,
        manifests_listing: Listing::Entries(vec![
            dir_entry("auth", true, false),
            dir_entry("README.md", false, true),
            dir_entry("db", true, false),
        ]),
        component_statuses: vec![DirStatus::Directory, DirStatus::Directory],
    };
    let p = Platform::new("prod".to_string(), "root".to_string(), &input).unwrap();
    assert_eq!(p.name, "prod");
    assert_eq!(p.environment_directory, "root/environments/prod");
    assert_eq!(p.cluster_directory, "root/clusters/prod");
    assert_eq!(p.manifests_directory, "root/manifests/prod");
    let names: Vec<&str> = p.components.iter().map(|c| c.name.as_str()).collect();
    assert_eq!(names, vec!["auth", "db"]);
    assert_eq!(p.components[0].manifests_directory, "root/manifests/prod/auth");
}

#[test]
fn platform_new_missing_environment_names_exact_path() {
    let input = PlatformInput {
        environment_status: DirStatus::Absent,
        cluster_status: DirStatus::Directory,
        manifests_status: DirStatus::Directory,
        manifests_listing: Listing::Entries(vec![dir_entry("auth", true, false)]),
        component_statuses: vec![DirStatus::Directory],
    };
    match Platform::new("prod".to_string(), "root".to_string(), &input) {
        Err(DiscoveryError::Missing { path }) => assert_eq!(path, "root/environments/prod"),
        other => panic!("expected missing environments path, got {:?}", other),
    }
}

#[test]
fn platform_new_checks_environment_before_cluster_and_manifests() {
    let input = PlatformInput {
        environment_status: DirStatus::NotDirectory,
        cluster_status: DirStatus::Absent,
        manifests_status: DirStatus::Absent,
        manifests_listing: Listing::Failed("never read".to_string()),
        component_statuses: Vec::new(),
    };
    match Platform::new("p".to_string(), "r".to_string(), &input) {
        Err(DiscoveryError::NotADirectory { path }) => assert_eq!(path, "r/environments/p"),
        other => panic!("expected not-a-directory, got {:?}", other),
    }
}

#[test]
fn resolve_collects_platforms_from_clusters_listing() {
    let input = DiscoveryInput {
        clusters_status: DirStatus::Directory,
        clusters_listing: Listing::Entries(vec![
            dir_entry("prod", true, false),
            dir_entry("staging", true, false),
        ]),
        platform_inputs: vec![empty_platform_input(), empty_platform_input()],
    };
    let m = SystemManifests::new("root".to_string(), &input).unwrap();
    assert_eq!(m.directory, "root");
    let names: Vec<&str> = m.platforms.iter().map(|p| p.name.as_str()).collect();
    assert_eq!(names, vec!["prod", "staging"]);
}

#[test]
fn resolve_fails_when_clusters_directory_missing() {
    let input = DiscoveryInput {
        clusters_status: DirStatus::Absent,
        clusters_listing: Listing::Entries(Vec::new()),
        platform_inputs: Vec::new(),
    };
    match SystemManifests::new("root".to_string(), &input) {
        Err(DiscoveryError::Missing { path }) => assert_eq!(path, "root/clusters"),
        other => panic!("expected missing clusters, got {:?}", other),
    }
}

#[test]
fn resolve_fails_whole_corpus_on_one_bad_platform() {
    let mut bad = empty_platform_input();
    bad.manifests_status = DirStatus::Absent;
    let input = DiscoveryInput {
        clusters_status: DirStatus::Directory,
        clusters_listing: Listing::Entries(vec![
            dir_entry("prod", true, false),
            dir_entry("staging", true, false),
        ]),
        platform_inputs: vec![empty_platform_input(), bad],
    };
    match SystemManifests::new("root".to_string(), &input) {
        Err(DiscoveryError::Missing { path }) => assert_eq!(path, "root/manifests/staging"),
        other => panic!("expected missing manifests, got {:?}", other),
    }
}

#[test]
fn resolving_twice_yields_equal_corpora() {
    let input = DiscoveryInput {
        clusters_status: DirStatus::Directory,
        clusters_listing: Listing::Entries(vec![dir_entry("prod", true, false)]),
        platform_inputs: vec![PlatformInput {
            environment_status: DirStatus::Directory,
            cluster_status: DirStatus::Directory,
            manifests_status: DirStatus::Directory,
            manifests_listing: Listing::Entries(vec![dir_entry("auth", true, false)]),
            component_statuses: vec![DirStatus::Directory],
        }],
    };
    let m1 = SystemManifests::new("root".to_string(), &input).unwrap();
    let m2 = SystemManifests::new("root".to_string(), &input).unwrap();
    assert_eq!(m1, m2);
}
