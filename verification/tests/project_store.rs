use anchor::project_store::{DiskMerge, 
    merge_disk_projects, new_project_id, project_json_path, slugify, validate_slug, ProjectJson,
    ProjectMemberJson, ProjectRecord,
};

#[test]
fn slugify_basic() {
    assert_eq!(slugify("Platform App"), "platform-app");
    assert_eq!(slugify("  Hello!! "), "hello");
    assert_eq!(slugify(""), "project");
}

#[test]
fn validate_slug_ok() {
    assert!(validate_slug("platform").is_ok());
    assert!(validate_slug("a_b-1").is_ok());
    assert!(validate_slug("Bad").is_err());
    assert!(validate_slug("-x").is_err());
}

#[test]
fn slugify_edge_cases() {
    assert_eq!(slugify("--A--B--"), "a-b");
    assert_eq!(slugify("Ünïcode ÅB"), "n-code-b");
    assert_eq!(slugify("!!!"), "project");
    assert_eq!(slugify("x_y"), "x-y");
}

#[test]
fn validate_slug_messages() {
    assert_eq!(validate_slug(""), Err("slug must be 1–64 characters".to_string()));
    assert_eq!(validate_slug(&"a".repeat(65)), Err("slug must be 1–64 characters".to_string()));
    assert!(validate_slug(&"a".repeat(64)).is_ok());
    assert_eq!(validate_slug("x-"), Err("slug must not start or end with a hyphen".to_string()));
    assert_eq!(
        validate_slug("a b"),
        Err("slug must be lowercase alphanumeric, hyphen, or underscore".to_string())
    );
}

#[test]
fn json_path_under_anchor_dir() {
    assert_eq!(project_json_path("/p/demo"), "/p/demo/.anchor/project.json");
    assert_eq!(project_json_path("/p/demo/"), "/p/demo/.anchor/project.json");
}

#[test]
fn project_ids_are_random_hex() {
    let a = new_project_id();
    let b = new_project_id();
    assert_eq!(a.len(), 32);
    assert!(a.chars().all(|c| c.is_ascii_hexdigit() && !c.is_ascii_uppercase()));
    assert_ne!(a, b);
}

fn meta() -> ProjectJson {
    ProjectJson {
        id: "abc".into(),
        slug: "platform".into(),
        name: "Platform".into(),
        default_branch: Some("main".into()),
        members: vec![ProjectMemberJson {
            owner: "alice".into(),
            name: "anchor".into(),
            full_name: "alice/anchor".into(),
            clone_url: "https://github.com/alice/anchor.git".into(),
            private: true,
            default_branch: "main".into(),
        }],
    }
}

#[test]
fn mirror_round_trip() {
    let m = meta();
    let rec = m.to_record_at("2024-01-01T00:00:00+00:00".into());
    assert_eq!(rec.created_at, "2024-01-01T00:00:00+00:00");
    let back = ProjectJson::from_record(&rec);
    assert_eq!(back.id, m.id);
    assert_eq!(back.slug, m.slug);
    assert_eq!(back.default_branch, m.default_branch);
    assert_eq!(back.members.len(), 1);
    assert_eq!(back.members[0].clone_url, m.members[0].clone_url);
    assert!(back.members[0].private);
    let now = m.to_record();
    assert!(!now.created_at.is_empty());
}

fn rec(slug: &str) -> ProjectRecord {
    ProjectRecord {
        id: slug.into(),
        slug: slug.into(),
        name: slug.into(),
        default_branch: None,
        created_at: "t".into(),
        repos: vec![],
    }
}

#[test]
fn save_and_list() {
    let (listed, to_store) = merge_disk_projects(vec![rec("demo")], vec![("demo".into(), rec("demo"))]);
    assert_eq!(listed.len(), 1);
    assert_eq!(listed[0].slug, "demo");
    assert!(to_store.is_empty());
}

#[test]
fn disk_projects_are_merged_and_sorted() {
    let db = vec![rec("zeta"), rec("alpha")];
    let disk = vec![
        ("alpha".to_string(), rec("alpha")),
        ("mid".to_string(), rec("mid")),
        ("renamed-dir".to_string(), rec("zeta")),
        ("beta".to_string(), rec("beta")),
    ];
    let (listed, to_store) = merge_disk_projects(db, disk);
    let slugs: Vec<&str> = listed.iter().map(|p| p.slug.as_str()).collect();
    assert_eq!(slugs, vec!["alpha", "beta", "mid", "zeta", "zeta"]);
    let stored: Vec<&str> = to_store.iter().map(|p| p.slug.as_str()).collect();
    assert_eq!(stored, vec!["mid", "beta"]);
}

#[test]
fn equal_slugs_keep_stored_record_first() {
    let mut on_disk = rec("zeta");
    on_disk.id = "from-disk".into();
    let db = vec![rec("zeta"), rec("alpha")];
    let (listed, _) = merge_disk_projects(db, vec![("renamed-dir".to_string(), on_disk)]);
    let ids: Vec<&str> = listed.iter().map(|p| p.id.as_str()).collect();
    assert_eq!(ids, vec!["alpha", "zeta", "from-disk"]);
}

#[test]
fn slugs_have_no_double_dash_and_keep_alphanumerics() {
    let s = slugify("--Hello,  World!! 42--");
    assert_eq!(s, "hello-world-42");
    assert!(!s.contains("--"));
    assert_eq!(s.replace('-', ""), "helloworld42");
    assert_eq!(slugify("!!!"), "project");
}

#[test]
fn disk_merge_skips_known_directories() {
    let mut m = DiskMerge::new(vec![rec("alpha")]);
    assert!(!m.wants("alpha"));
    assert!(m.wants("beta"));
    m.add("beta".to_string(), rec("gamma"));
    assert!(!m.wants("gamma"));
    let (listed, stored) = m.finish();
    let slugs: Vec<&str> = listed.iter().map(|p| p.slug.as_str()).collect();
    assert_eq!(slugs, vec!["alpha", "gamma"]);
    assert_eq!(stored.len(), 1);
}
