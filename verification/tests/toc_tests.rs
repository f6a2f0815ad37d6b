use pageturtle::toc::{TableOfContents, TableOfContentsEntry};

fn entry(level: u8, title: &str) -> TableOfContentsEntry {
    TableOfContentsEntry {
        level,
        title: title.to_string(),
        anchor: title.to_lowercase(),
        children: Vec::new(),
    }
}

fn levels(entries: &[TableOfContentsEntry]) -> Vec<u8> {
    entries.iter().map(|e| e.level).collect()
}

#[test]
fn toc_nesting_1_2_3_2_1() {
    let toc = TableOfContents::from_entries(vec![
        entry(1, "A"),
        entry(2, "B"),
        entry(3, "C"),
        entry(2, "D"),
        entry(1, "E"),
    ]);
    // Two top-level entries; the first holds the level-2 chain.
    assert_eq!(toc.entries.len(), 2);
    let first = &toc.entries[0];
    assert_eq!(first.title, "A");
    assert_eq!(levels(&first.children), vec![2, 2]);
    assert_eq!(first.children[0].title, "B");
    assert_eq!(levels(&first.children[0].children), vec![3]);
    assert_eq!(first.children[0].children[0].title, "C");
    assert_eq!(first.children[1].title, "D");
    assert!(first.children[1].children.is_empty());
    let second = &toc.entries[1];
    assert_eq!(second.title, "E");
    assert!(second.children.is_empty());
}

#[test]
fn toc_nesting_2_4_3_1() {
    let toc = TableOfContents::from_entries(vec![
        entry(2, "A"),
        entry(4, "B"),
        entry(3, "C"),
        entry(1, "D"),
    ]);
    // The level-4 node nests under level-2; when the level-3 node closes
    // the level-4 subtree, the level-2 root closes with it, so the level-3
    // node comes back as a new root; the level-1 node is a root too.
    assert_eq!(levels(&toc.entries), vec![2, 3, 1]);
    assert_eq!(levels(&toc.entries[0].children), vec![4]);
    assert!(toc.entries[0].children[0].children.is_empty());
    assert!(toc.entries[1].children.is_empty());
    assert!(toc.entries[2].children.is_empty());
}

#[test]
fn toc_nesting_equal_levels() {
    let toc = TableOfContents::from_entries(vec![
        entry(2, "A"),
        entry(2, "B"),
        entry(2, "C"),
    ]);
    assert_eq!(levels(&toc.entries), vec![2, 2, 2]);
    for e in &toc.entries {
        assert!(e.children.is_empty());
    }
}

#[test]
fn toc_nesting_repeated_deep_level() {
    let toc = TableOfContents::from_entries(vec![
        entry(1, "A"),
        entry(2, "B"),
        entry(3, "C"),
        entry(3, "D"),
    ]);
    // The queue-consuming rule closes the level-2 subtree after its first
    // deep child comes back; the second level-3 entry attaches to the root.
    assert_eq!(toc.entries.len(), 1);
    let root = &toc.entries[0];
    assert_eq!(levels(&root.children), vec![2, 3]);
    assert_eq!(levels(&root.children[0].children), vec![3]);
    assert_eq!(root.children[0].children[0].title, "C");
    assert_eq!(root.children[1].title, "D");
}

#[test]
fn toc_empty() {
    let toc = TableOfContents::from_entries(Vec::new());
    assert!(toc.entries.is_empty());
}

#[test]
fn toc_single_entry() {
    let toc = TableOfContents::from_entries(vec![entry(3, "Only")]);
    assert_eq!(toc.entries.len(), 1);
    assert_eq!(toc.entries[0].level, 3);
    assert!(toc.entries[0].children.is_empty());
}
