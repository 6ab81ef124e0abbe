use octa::dashboard::api_keys::api_key_of;
use octa::kb::import::{DocStep, ImportState};
use octa::kb::vault::{format_frontmatter, parent_path_of, parse_obsidian_md, DbDoc};

#[test]
fn api_key_text_of_bytes() {
    assert_eq!(api_key_of(&[0u8; 32]), format!("tk_{}", "00".repeat(32)));
    let mut b = [0u8; 32];
    b[0] = 0xab;
    b[31] = 0x0f;
    let k = api_key_of(&b);
    assert!(k.starts_with("tk_ab00"));
    assert!(k.ends_with("000f"));
    assert_eq!(k.len(), 67);
}

#[test]
fn parents_walk_up_one_slash_at_a_time() {
    let mut p = "a/b/c/d.md".to_string();
    let mut seen = Vec::new();
    while let Some(q) = parent_path_of(&p) {
        seen.push(q.clone());
        p = q;
    }
    assert_eq!(seen, vec!["a/b/c", "a/b", "a"]);
    assert_eq!(parent_path_of("x.md.md"), None);
}

#[test]
fn import_records_ids_and_plans_folders() {
    let mut st = ImportState::new();
    assert_eq!(st.id_of("a"), None);
    assert!(matches!(st.document_step("top.md"), DocStep::TopLevel));
    match st.document_step("a/b/c/note.md") {
        DocStep::CreateFolders(v) => assert_eq!(v, vec!["a", "a/b", "a/b/c"]),
        other => panic!("unexpected {:?}", other),
    }
    assert_eq!(st.folder_parent_id("a"), None);
    st.record("a".to_string(), 1);
    assert_eq!(st.folder_parent_id("a/b"), Some(1));
    st.record("a/b".to_string(), 2);
    assert_eq!(st.folders_to_create("a/b/c"), vec!["a/b/c"]);
    assert!(st.folders_to_create("a/b").is_empty());
    st.record("a/b/c".to_string(), 3);
    assert!(matches!(st.document_step("a/b/c/note.md"), DocStep::InFolder(3)));
    st.record("a".to_string(), 10);
    assert_eq!(st.id_of("a"), Some(10));
}

#[test]
fn import_counts_and_errors() {
    let mut st = ImportState::new();
    st.document_stored("docs/x.md", Ok(7));
    assert_eq!(st.imported, 1);
    assert_eq!(st.id_of("docs/x"), Some(7));
    st.document_stored("docs/y.md", Err("duplicate".to_string()));
    assert_eq!(st.imported, 1);
    assert_eq!(st.errors, vec!["docs/y.md: duplicate"]);
    st.folder_failed("z/w.md", "boom");
    assert_eq!(st.errors[1], "Failed to create folder for z/w.md: boom");
    assert!(matches!(st.document_step("docs/x/inner.md"), DocStep::InFolder(7)));
}

#[test]
fn front_matter_reads_back_flag_and_order() {
    let d = DbDoc {
        id: 1,
        title: "T".to_string(),
        slug: "t".to_string(),
        content: String::new(),
        parent_id: None,
        is_folder: true,
        sort_order: -12,
        created_at: "c".to_string(),
        updated_at: "u".to_string(),
    };
    let (_, _, _, fm) = parse_obsidian_md(&format_frontmatter(&d, "x"), "any/where.md");
    assert!(fm.contains(&("is_folder".to_string(), "true".to_string())));
    assert!(fm.contains(&("sort_order".to_string(), "-12".to_string())));
}
