use octa::kb::vault::{
    build_path, doc_filename, export_entry, export_vault, folder_failure, folder_title_slug,
    format_frontmatter, import_failure, import_item, import_order, import_status,
    parent_folder_of, parent_path_of, parse_obsidian_md, path_key, DbDoc, VaultDocument,
};

fn doc(id: u128, title: &str, slug: &str, parent: Option<u128>, is_folder: bool) -> DbDoc {
    DbDoc {
        id,
        title: title.to_string(),
        slug: slug.to_string(),
        content: "Body".to_string(),
        parent_id: parent,
        is_folder,
        sort_order: 3,
        created_at: "2024-01-02T03:04:05+00:00".to_string(),
        updated_at: "2024-02-03T04:05:06+00:00".to_string(),
    }
}

fn vdoc(path: &str, content: &str, is_folder: bool) -> VaultDocument {
    VaultDocument { path: path.to_string(), content: content.to_string(), is_folder }
}

#[test]
fn parse_note_with_front_matter() {
    let raw = "---\ntitle: \"My Note\"\nslug: \"my-note\"\ntags: a, b\n---\n\nBody text\n";
    let (title, slug, content, fm) = parse_obsidian_md(raw, "folder/other.md");
    assert_eq!(title, "My Note");
    assert_eq!(slug, "my-note");
    assert_eq!(content, "Body text\n");
    assert_eq!(
        fm,
        vec![
            ("title".to_string(), "My Note".to_string()),
            ("slug".to_string(), "my-note".to_string()),
            ("tags".to_string(), "a, b".to_string()),
        ]
    );
}

#[test]
fn parse_note_without_front_matter_uses_path() {
    let raw = "Just text";
    let (title, slug, content, fm) = parse_obsidian_md(raw, "notes/hello-world_test.md");
    assert_eq!(title, "Hello world test");
    assert_eq!(slug, "hello-world_test");
    assert_eq!(content, "Just text");
    assert!(fm.is_empty());
}

#[test]
fn parse_note_path_with_spaces_and_capitals() {
    let (title, slug, _, _) = parse_obsidian_md("", "My Notes/Big Plan.md");
    assert_eq!(title, "Big Plan");
    assert_eq!(slug, "big-plan");
}

#[test]
fn parse_note_crlf_opening_and_unclosed_front_matter() {
    let (title, slug, content, fm) = parse_obsidian_md("---\ntitle: x", "a/b.md");
    assert_eq!(title, "B");
    assert_eq!(slug, "b");
    assert_eq!(content, "---\ntitle: x");
    assert!(fm.is_empty());
}

#[test]
fn parse_note_front_matter_without_title_keeps_slug() {
    let raw = "---\nslug: custom\n---\nText";
    let (title, slug, content, _) = parse_obsidian_md(raw, "dir/some_file.md");
    assert_eq!(title, "Some file");
    assert_eq!(slug, "custom");
    assert_eq!(content, "Text");
}

#[test]
fn parent_paths() {
    assert_eq!(parent_path_of("a/b/c.md"), Some("a/b".to_string()));
    assert_eq!(parent_path_of("top.md"), None);
    assert_eq!(parent_path_of("a/b"), Some("a".to_string()));
    assert_eq!(path_key("a/b.md"), "a/b");
    assert_eq!(path_key("a/b"), "a/b");
    assert_eq!(parent_folder_of("x/y/z"), Some("x/y".to_string()));
    assert_eq!(parent_folder_of("x"), None);
}

#[test]
fn folder_names_from_paths() {
    let (title, slug) = folder_title_slug("guides/Getting_Started-Now");
    assert_eq!(title, "Getting Started Now");
    assert_eq!(slug, "getting_started-now");
}

#[test]
fn file_names_and_paths() {
    let folder = doc(1, "Guides", "guides", None, true);
    let inner = doc(2, "Sub", "sub", Some(1), true);
    let note = doc(3, "Intro", "intro", Some(2), false);
    let orphan = doc(4, "Lost", "lost", Some(99), false);
    assert_eq!(doc_filename(&folder), "guides");
    assert_eq!(doc_filename(&note), "intro.md");
    let all = vec![folder.clone(), inner.clone(), note.clone(), orphan.clone()];
    assert_eq!(build_path(&note, &all), "guides/sub/intro.md");
    assert_eq!(build_path(&inner, &all), "guides/sub");
    assert_eq!(build_path(&folder, &all), "guides");
    assert_eq!(build_path(&orphan, &all), "lost.md");
}

#[test]
fn front_matter_text() {
    let d = doc(1, "Say \"hi\"", "say-hi", None, false);
    let text = format_frontmatter(&d, "Hello");
    assert_eq!(
        text,
        "---\ntitle: \"Say \\\"hi\\\"\"\nslug: \"say-hi\"\nis_folder: false\nsort_order: 3\ncreated_at: \"2024-01-02T03:04:05+00:00\"\nupdated_at: \"2024-02-03T04:05:06+00:00\"\n---\n\nHello"
    );
    let mut f = doc(2, "F", "f", None, true);
    f.sort_order = -7;
    let t2 = format_frontmatter(&f, "");
    assert!(t2.contains("is_folder: true\nsort_order: -7\n"));
}

#[test]
fn export_then_import_gives_back_the_document() {
    let d = doc(1, "My Note", "my-note", None, false);
    let exported = format_frontmatter(&d, "Line one\nLine two");
    let (title, slug, content, _) = parse_obsidian_md(&exported, "elsewhere/name.md");
    assert_eq!(title, "My Note");
    assert_eq!(slug, "my-note");
    assert_eq!(content, "Line one\nLine two");
}

#[test]
fn whole_export() {
    let docs = vec![doc(1, "Guides", "guides", None, true), doc(2, "Intro", "intro", Some(1), false)];
    let e = export_vault(&docs, "2024-05-06T07:08:09+00:00".to_string());
    assert_eq!(e.version, 1);
    assert_eq!(e.exported_at, "2024-05-06T07:08:09+00:00");
    assert_eq!(e.documents.len(), 2);
    assert_eq!(e.documents[0].path, "guides");
    assert!(e.documents[0].is_folder);
    assert_eq!(e.documents[1].path, "guides/intro.md");
    assert_eq!(e.documents[1].content, format_frontmatter(&docs[1], "Body"));
    let one = export_entry(&docs[1], &docs);
    assert_eq!(one.path, "guides/intro.md");
    assert!(!one.is_folder);
}

#[test]
fn import_puts_folders_and_shallow_paths_first() {
    let docs = vec![
        vdoc("a/b.md", "", false),
        vdoc("a", "", true),
        vdoc("c.md", "", false),
        vdoc("x/y", "", true),
        vdoc("d.md", "", false),
    ];
    assert_eq!(import_order(&docs), vec![1, 3, 2, 4, 0]);
    assert_eq!(import_order(&Vec::new()), Vec::<usize>::new());
}

#[test]
fn import_step_for_one_document() {
    let item = import_item(&vdoc("docs/setup/install-guide.md", "Steps", false));
    assert_eq!(item.title, "Install guide");
    assert_eq!(item.slug, "install-guide");
    assert_eq!(item.content, "Steps");
    assert_eq!(item.parent_path, Some("docs/setup".to_string()));
    assert_eq!(item.key, "docs/setup/install-guide");
    assert!(!item.is_folder);
    let top = import_item(&vdoc("readme.md", "x", false));
    assert_eq!(top.parent_path, None);
    assert_eq!(import_status(0), 200);
    assert_eq!(import_status(3), 207);
}

#[test]
fn exported_documents_keep_their_folder() {
    let docs = vec![
        doc(1, "Guides", "guides", None, true),
        doc(2, "Sub", "sub", Some(1), true),
        doc(3, "Intro", "intro", Some(2), false),
        doc(4, "Top", "top", None, false),
    ];
    let export = export_vault(&docs, "t".to_string());
    let items: Vec<_> = export.documents.iter().map(import_item).collect();
    assert_eq!(items[0].parent_path, None);
    assert_eq!(items[1].parent_path, Some(items[0].key.clone()));
    assert_eq!(items[2].parent_path, Some(items[1].key.clone()));
    assert_eq!(items[2].key, "guides/sub/intro");
    assert_eq!(items[3].parent_path, None);
    let order = import_order(&export.documents);
    assert_eq!(order, vec![0, 1, 3, 2]);
}

#[test]
fn import_error_texts() {
    assert_eq!(folder_failure("a/b.md", "boom"), "Failed to create folder for a/b.md: boom");
    assert_eq!(import_failure("a/b.md", "boom"), "a/b.md: boom");
}
