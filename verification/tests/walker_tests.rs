use system_manifests::discovery::{Component, DiscoveryInput, Platform, PlatformInput, SystemManifests};
use system_manifests::errors::WalkError;
use system_manifests::fsview::{DirEntryRecord, DirStatus, ListEntry, Listing};
use system_manifests::walker::{
    file_documents, name_has_yaml_ext, select_manifest_entries, walk_component, ComponentScan,
    FileStep, FlatManifestResource, ManifestResource,
};

fn file_entry(name: &str) -> ListEntry {
    ListEntry::Entry(DirEntryRecord { name: name.to_string(), is_dir: false, is_file: true })
}

fn dir_entry(name: &str) -> ListEntry {
    ListEntry::Entry(DirEntryRecord { name: name.to_string(), is_dir: true, is_file: false })
}

fn test_component() -> Component {
    Component { manifests_directory: "root/manifests/prod/auth".to_string(), name: "auth".to_string() }
}

fn test_platform() -> Platform {
    Platform {
        name: "prod".to_string(),
        environment_directory: "root/environments/prod".to_string(),
        cluster_directory: "root/clusters/prod".to_string(),
        manifests_directory: "root/manifests/prod".to_string(),
        components: vec![test_component()],
    }
}

#[test]
fn yaml_extension_is_exact_and_case_sensitive() {
    assert!(name_has_yaml_ext("a.yaml"));
    assert!(name_has_yaml_ext("a.yml"));
    assert!(name_has_yaml_ext("config.v2.yaml"));
    assert!(!name_has_yaml_ext("a.YAML"));
    assert!(!name_has_yaml_ext("a.Yml"));
    assert!(!name_has_yaml_ext("ayaml"));
    assert!(!name_has_yaml_ext("a.yamll"));
    assert!(!name_has_yaml_ext("a.json"));
    assert!(!name_has_yaml_ext(".yaml"));
    assert!(!name_has_yaml_ext(".yml"));
    assert!(!name_has_yaml_ext(""));
}

#[test]
fn selection_keeps_only_yaml_files_and_failures() {
    let entries = vec![
        file_entry("one.yaml"),
        file_entry("notes.txt"),
        dir_entry("subdir.yaml"),
        ListEntry::Failure("bad entry".to_string()),
        file_entry("two.yml"),
    ];
    let steps = select_manifest_entries(&entries);
    assert_eq!(
        steps,
        vec![
            FileStep::Candidate("one.yaml".to_string()),
            FileStep::EntryFailure("bad entry".to_string()),
            FileStep::Candidate("two.yml".to_string()),
        ]
    );
}

#[test]
fn unreadable_file_yields_single_open_error() {
    let items = file_documents(
        &"root/manifests/prod/auth/a.yaml".to_string(),
        &test_component(),
        &test_platform(),
        &Err("no such file".to_string()),
    );
    assert_eq!(items.len(), 1);
    match &items[0] {
        Err(WalkError::FileOpen { file, message }) => {
            assert_eq!(file, "root/manifests/prod/auth/a.yaml");
            assert_eq!(message, "no such file");
        }
        other => panic!("expected file-open error, got {:?}", other),
    }
}

#[test]
fn multi_document_file_yields_documents_in_order() {
    let text = "apiVersion: v1\nkind: Secret\nmetadata:\n  name: first\n---\napiVersion: v1\nkind: ConfigMap\nmetadata:\n  name: second\n";
    let items = file_documents(
        &"f.yaml".to_string(),
        &test_component(),
        &test_platform(),
        &Ok(text.to_string()),
    );
    assert_eq!(items.len(), 2);
    let first = items[0].as_ref().unwrap();
    assert_eq!(first.resource.kind.as_deref(), Some("Secret"));
    assert_eq!(first.resource.metadata.name.as_deref(), Some("first"));
    assert_eq!(first.file, "f.yaml");
    assert_eq!(first.component.name, "auth");
    assert_eq!(first.platform.name, "prod");
    let second = items[1].as_ref().unwrap();
    assert_eq!(second.resource.kind.as_deref(), Some("ConfigMap"));
    assert_eq!(second.resource.metadata.name.as_deref(), Some("second"));
}

#[test]
fn malformed_middle_document_never_suppresses_siblings() {
    let text = "kind: Secret\nmetadata:\n  name: one\n---\n42\n---\nkind: Secret\nmetadata:\n  name: three\n";
    let items = file_documents(
        &"f.yaml".to_string(),
        &test_component(),
        &test_platform(),
        &Ok(text.to_string()),
    );
    assert_eq!(items.len(), 3);
    assert_eq!(items[0].as_ref().unwrap().resource.metadata.name.as_deref(), Some("one"));
    match &items[1] {
        Err(WalkError::Decode { file, document_index, .. }) => {
            assert_eq!(file, "f.yaml");
            assert_eq!(*document_index, 2);
        }
        other => panic!("expected decode error for document 2, got {:?}", other),
    }
    assert_eq!(items[2].as_ref().unwrap().resource.metadata.name.as_deref(), Some("three"));
}

#[test]
fn stream_syntax_error_ends_file_with_one_error_item() {
    let text = "apiVersion: v1\nkind: Secret\nmetadata:\n  name: good\n---\n[unclosed\n";
    let items = file_documents(
        &"f.yaml".to_string(),
        &test_component(),
        &test_platform(),
        &Ok(text.to_string()),
    );
    assert!(items.len() >= 2);
    assert_eq!(items[0].as_ref().unwrap().resource.metadata.name.as_deref(), Some("good"));
    for (offset, item) in items.iter().enumerate().skip(1) {
        match item {
            Err(WalkError::Decode { file, document_index, .. }) => {
                assert_eq!(file, "f.yaml");
                assert_eq!(*document_index, offset + 1);
            }
            other => panic!("expected only decode errors after the syntax error, got {:?}", other),
        }
    }
}

#[test]
fn whole_file_syntax_error_yields_one_error_item() {
    let items = file_documents(
        &"f.yaml".to_string(),
        &test_component(),
        &test_platform(),
        &Ok("\"unclosed".to_string()),
    );
    assert_eq!(items.len(), 1);
    assert!(matches!(&items[0], Err(WalkError::Decode { .. })));
}

#[test]
fn failed_listing_yields_single_listing_error() {
    let scan = ComponentScan {
        listing: Listing::Failed("cannot enumerate".to_string()),
        contents: Vec::new(),
    };
    let items = walk_component(&test_platform(), &test_component(), &scan);
    assert_eq!(items.len(), 1);
    match &items[0] {
        Err(WalkError::Listing { directory, message }) => {
            assert_eq!(directory, "root/manifests/prod/auth");
            assert_eq!(message, "cannot enumerate");
        }
        other => panic!("expected listing error, got {:?}", other),
    }
}

#[test]
fn component_yields_every_document_in_file_then_document_order() {
    let scan = ComponentScan {
        listing: Listing::Entries(vec![
            file_entry("a.yaml"),
            file_entry("skip.txt"),
            file_entry("b.yaml"),
        ]),
        contents: vec![
            Ok("kind: A\nmetadata:\n  name: a1\n---\nkind: A\nmetadata:\n  name: a2\n".to_string()),
            Ok("kind: B\nmetadata:\n  name: b1\n".to_string()),
        ],
    };
    let items = walk_component(&test_platform(), &test_component(), &scan);
    assert_eq!(items.len(), 3);
    let names: Vec<String> = items
        .iter()
        .map(|i| i.as_ref().unwrap().resource.metadata.name.clone().unwrap())
        .collect();
    assert_eq!(names, vec!["a1", "a2", "b1"]);
    assert_eq!(items[0].as_ref().unwrap().file, "root/manifests/prod/auth/a.yaml");
    assert_eq!(items[2].as_ref().unwrap().file, "root/manifests/prod/auth/b.yaml");
}

#[test]
fn projection_carries_provenance_and_metadata() {
    let text = "kind: Secret\nmetadata:\n  name: x\n  namespace: ns\n  labels:\n    app: web\n";
    let items = file_documents(
        &"f.yaml".to_string(),
        &test_component(),
        &test_platform(),
        &Ok(text.to_string()),
    );
    let resource: ManifestResource = items.into_iter().next().unwrap().unwrap();
    let flat = FlatManifestResource::from(resource);
    assert_eq!(flat.file, "f.yaml");
    assert_eq!(flat.component_name, "auth");
    assert_eq!(flat.platform_name, "prod");
    assert_eq!(flat.resource_meta.name.as_deref(), Some("x"));
    assert_eq!(flat.resource_meta.namespace.as_deref(), Some("ns"));
    assert_eq!(
        flat.resource_meta.labels,
        vec![("app".to_string(), "web".to_string())]
    );
}

#[test]
fn corpus_scenario_yields_exactly_one_flat_secret() {
    let input = DiscoveryInput {
        clusters_status: DirStatus::Directory,
        clusters_listing: Listing::Entries(vec![dir_entry("prod"), dir_entry("staging")]),
        platform_inputs: vec![
            PlatformInput {
                environment_status: DirStatus::Directory,
                cluster_status: DirStatus::Directory,
                manifests_status: DirStatus::Directory,
                manifests_listing: Listing::Entries(vec![dir_entry("auth"), dir_entry("db")]),
                component_statuses: vec![DirStatus::Directory, DirStatus::Directory],
            },
            PlatformInput {
                environment_status: DirStatus::Directory,
                cluster_status: DirStatus::Directory,
                manifests_status: DirStatus::Directory,
                manifests_listing: Listing::Entries(Vec::new()),
                component_statuses: Vec::new(),
            },
        ],
    };
    let corpus = SystemManifests::new("root".to_string(), &input).unwrap();

    let scans = vec![
        vec![
            ComponentScan {
                listing: Listing::Entries(vec![file_entry("secret.yaml")]),
                contents: vec![Ok("kind: Secret\nmetadata:\n  name: x\n".to_string())],
            },
            ComponentScan { listing: Listing::Entries(Vec::new()), contents: Vec::new() },
        ],
        Vec::new(),
    ];
    let items = corpus.resource_iter(&scans);
    assert_eq!(items.len(), 1);
    let flat = FlatManifestResource::from(items.into_iter().next().unwrap().unwrap());
    assert_eq!(flat.component_name, "auth");
    assert_eq!(flat.platform_name, "prod");
    assert_eq!(flat.resource_meta.name.as_deref(), Some("x"));

    let scans2 = vec![
        vec![
            ComponentScan {
                listing: Listing::Entries(vec![file_entry("secret.yaml")]),
                contents: vec![Ok("kind: Secret\nmetadata:\n  name: x\n".to_string())],
            },
            ComponentScan { listing: Listing::Entries(Vec::new()), contents: Vec::new() },
        ],
        Vec::new(),
    ];
    let items2 = corpus.resource_iter(&scans2);
    assert_eq!(items2.len(), 1);
}
