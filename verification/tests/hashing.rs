use workspace_hasher::{hash, hash_workspace_files, FileData, HashCache};

fn scenario_inventory() -> Vec<FileData> {
    vec![
        FileData {
            file: ".gitignore".into(),
            hash: "123".into(),
        },
        FileData {
            file: ".nxignore".into(),
            hash: "456".into(),
        },
        FileData {
            file: "package.json".into(),
            hash: "789".into(),
        },
        FileData {
            file: "packages/project/project.json".into(),
            hash: "abc".into(),
        },
    ]
}

#[test]
fn invalid_workspace_input_is_just_empty_hash() {
    let mut cache = HashCache::new();
    let result = hash_workspace_files("packages/{package}", &[], &mut cache).unwrap();
    assert_eq!(result, hash(b""));
}

#[test]
fn test_hash_workspace_files() {
    let gitignore_file = FileData {
        file: ".gitignore".into(),
        hash: "123".into(),
    };
    let nxignore_file = FileData {
        file: ".nxignore".into(),
        hash: "456".into(),
    };
    let package_json_file = FileData {
        file: "package.json".into(),
        hash: "789".into(),
    };
    let project_file = FileData {
        file: "packages/project/project.json".into(),
        hash: "abc".into(),
    };
    let mut cache = HashCache::new();
    let result = hash_workspace_files(
        "{workspaceRoot}/.gitignore",
        &[
            gitignore_file.clone(),
            nxignore_file.clone(),
            package_json_file.clone(),
            project_file.clone(),
        ],
        &mut cache,
    )
    .unwrap();
    assert_eq!(result, hash(gitignore_file.hash.as_bytes()));
}

#[test]
fn recursive_json_pattern_matches_in_inventory_order() {
    let inventory = scenario_inventory();
    let mut cache = HashCache::new();
    let result = hash_workspace_files("{workspaceRoot}/**/*.json", &inventory, &mut cache).unwrap();
    assert_eq!(result, hash(b"789abc"));
}

#[test]
fn digest_matches_independent_concatenation() {
    let inventory = scenario_inventory();
    let mut cache = HashCache::new();
    let result = hash_workspace_files("{workspaceRoot}/**/*.json", &inventory, &mut cache).unwrap();
    let mut concatenation: Vec<u8> = Vec::new();
    concatenation.extend_from_slice(inventory[2].hash.as_bytes());
    concatenation.extend_from_slice(inventory[3].hash.as_bytes());
    assert_eq!(result, hash(&concatenation));
}

#[test]
fn unprefixed_descriptor_ignores_the_inventory() {
    let inventory = scenario_inventory();
    let mut cache = HashCache::new();
    let result = hash_workspace_files("packages/{package}", &inventory, &mut cache).unwrap();
    assert_eq!(result, hash(b""));
}

#[test]
fn zero_matches_yield_empty_digest() {
    let mut cache = HashCache::new();
    let result = hash_workspace_files("{workspaceRoot}/nonexistent", &[], &mut cache).unwrap();
    assert_eq!(result, hash(b""));

    let inventory = scenario_inventory();
    let mut other_cache = HashCache::new();
    let unmatched =
        hash_workspace_files("{workspaceRoot}/nothing-here/*.rs", &inventory, &mut other_cache)
            .unwrap();
    assert_eq!(unmatched, hash(b""));
}

#[test]
fn repeated_call_returns_identical_digest() {
    let inventory = scenario_inventory();
    let mut cache = HashCache::new();
    let first =
        hash_workspace_files("{workspaceRoot}/**/*.json", &inventory, &mut cache).unwrap();
    let second =
        hash_workspace_files("{workspaceRoot}/**/*.json", &inventory, &mut cache).unwrap();
    assert_eq!(first, second);
}

#[test]
fn cache_is_keyed_by_pattern_text_only() {
    let mut cache = HashCache::new();
    let first_inventory = vec![FileData {
        file: ".gitignore".into(),
        hash: "123".into(),
    }];
    let first =
        hash_workspace_files("{workspaceRoot}/.gitignore", &first_inventory, &mut cache).unwrap();

    let changed_inventory = vec![FileData {
        file: ".gitignore".into(),
        hash: "999".into(),
    }];
    let second = hash_workspace_files("{workspaceRoot}/.gitignore", &changed_inventory, &mut cache)
        .unwrap();
    assert_eq!(second, first);
    assert_ne!(second, hash(b"999"));
}

#[test]
fn preinserted_digest_is_returned_for_any_inventory() {
    let mut cache = HashCache::new();
    cache.insert(".gitignore".to_string(), "42".to_string());
    let inventory = scenario_inventory();
    let result = hash_workspace_files("{workspaceRoot}/.gitignore", &inventory, &mut cache).unwrap();
    assert_eq!(result, "42");
}

#[test]
fn invalid_glob_pattern_is_a_fatal_error() {
    let mut cache = HashCache::new();
    let result = hash_workspace_files("{workspaceRoot}/[", &[], &mut cache);
    let error = match result {
        Ok(_) => panic!("an unclosed character class must be refused"),
        Err(e) => e,
    };
    assert!(!error.message_string().is_empty());
    assert!(cache.lookup("[").is_none());
}

#[test]
fn cache_lookup_returns_inserted_value() {
    let mut cache = HashCache::new();
    assert!(cache.lookup("pattern").is_none());
    cache.insert("pattern".to_string(), "12345".to_string());
    assert_eq!(cache.lookup("pattern"), Some("12345".to_string()));
    cache.insert("pattern".to_string(), "67890".to_string());
    assert_eq!(cache.lookup("pattern"), Some("67890".to_string()));
}

#[test]
fn digest_text_matches_xxh3_reference() {
    assert_eq!(hash(b""), xxhash_rust::xxh3::xxh3_64(b"").to_string());
    assert_eq!(hash(b"789abc"), xxhash_rust::xxh3::xxh3_64(b"789abc").to_string());
    assert_eq!(hash(b"123"), xxhash_rust::xxh3::xxh3_64(b"123").to_string());
}

#[test]
fn digest_of_empty_input_is_a_fixed_decimal_text() {
    let empty = hash(b"");
    assert!(!empty.is_empty());
    assert!(empty.chars().all(|c| c.is_ascii_digit()));
    assert_eq!(empty, hash(b""));
}

#[test]
fn error_message_carries_engine_diagnostic() {
    let mut cache = HashCache::new();
    let error = match hash_workspace_files("{workspaceRoot}/[", &[], &mut cache) {
        Ok(_) => panic!("an unclosed character class must be refused"),
        Err(e) => e,
    };
    let expected = globset::Glob::new("[").unwrap_err().to_string();
    assert_eq!(error.message_string(), expected);
}

#[test]
fn matched_file_paths_lists_matches_in_inventory_order() {
    let inventory = scenario_inventory();
    let matcher = workspace_hasher::PatternMatcher::compile("**/*.json").unwrap();
    let paths = workspace_hasher::matched_file_paths(&matcher, &inventory);
    assert_eq!(
        paths,
        vec![
            "package.json".to_string(),
            "packages/project/project.json".to_string()
        ]
    );
}

