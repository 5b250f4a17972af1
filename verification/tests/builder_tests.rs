use modmod::book::Book;

#[test]
fn builder_builds_expected_tree() {
    let mut bb = Book::builder("The Book");
    let mut cb = bb.chapter("Ch");
    let mut sb = cb.section("Se");
    sb.subsection("Su", "path.md".to_string(), "out".to_string());
    cb = sb.add();
    bb = cb.add();
    let book = bb.build();
    assert_eq!(book.title, "The Book");
    assert_eq!(book.chapters.len(), 1);
    assert_eq!(book.chapters[0].title, "Ch");
    assert_eq!(book.chapters[0].sections.len(), 1);
    assert_eq!(book.chapters[0].sections[0].title, "Se");
    let subs = &book.chapters[0].sections[0].subsections;
    assert_eq!(subs.len(), 1);
    assert_eq!(subs[0].title, "Su");
    assert_eq!(subs[0].content, "path.md");
    assert_eq!(subs[0].out_dir, "out");
}

#[test]
fn chapters_and_sections_keep_insertion_order() {
    let mut bb = Book::builder("B");
    for ct in ["C1", "C2", "C3"] {
        let mut cb = bb.chapter(ct);
        for st in ["Sa", "Sb"] {
            let sb = cb.section(st);
            cb = sb.add();
        }
        bb = cb.add();
    }
    let book = bb.build();
    let titles: Vec<&str> = book.chapters.iter().map(|c| c.title.as_str()).collect();
    assert_eq!(titles, vec!["C1", "C2", "C3"]);
    for chapter in &book.chapters {
        let secs: Vec<&str> = chapter.sections.iter().map(|s| s.title.as_str()).collect();
        assert_eq!(secs, vec!["Sa", "Sb"]);
    }
}

#[test]
fn unadded_chapter_is_not_visible() {
    let mut bb = Book::builder("B");
    let cb = bb.chapter("Kept");
    bb = cb.add();
    let cb2 = bb.chapter("Dropped");
    drop(cb2);
    // The second chapter builder was discarded before its terminal add, so
    // the book never saw it; but the book builder was consumed with it.
    let mut bb2 = Book::builder("B");
    let cb3 = bb2.chapter("Kept");
    bb2 = cb3.add();
    let book = bb2.build();
    assert_eq!(book.chapters.len(), 1);
    assert_eq!(book.chapters[0].title, "Kept");
}
