use modmod::book::Book;

const BOOK_TOML: &str =
    "[book]\nlanguage = \"en\"\nmultilingual = false\n\n[build]\nbuild-dir = \"./target\"\n";

fn one_subsection_book(content_path: &str, out_dir: &str) -> Book {
    let mut bb = Book::builder("T");
    let mut cb = bb.chapter("C1");
    let mut sb = cb.section("Intro");
    sb.subsection("Ex1", content_path.to_string(), out_dir.to_string());
    cb = sb.add();
    bb = cb.add();
    bb.build()
}

#[test]
fn end_to_end_single_exercise() {
    let book = one_subsection_book("ex1.md", "exercises/ex1");
    let sources = vec![("ex1.md".to_string(), "# Hello\n".to_string())];
    let files = book.render(&sources).unwrap();
    assert_eq!(files.len(), 3);
    assert_eq!(files[0].path, "book/book.toml");
    assert_eq!(files[0].content, BOOK_TOML);
    assert_eq!(files[1].path, "book/src/SUMMARY.md");
    assert_eq!(
        files[1].content,
        "# Summary\n\n- [C1]()\n\t- [Intro](intro.md)\n\n"
    );
    assert_eq!(files[2].path, "book/src/intro.md");
    assert_eq!(
        files[2].content,
        "# Unit 1.1 - Intro\n\n## Exercise 1.1.1: Ex1\n\n### Hello\n"
    );
}

#[test]
fn exercise_dir_placeholder_substituted() {
    let book = one_subsection_book("src.md", "/tmp/ex1");
    let sources = vec![(
        "src.md".to_string(),
        "Path: #[modmod:exercise_dir]".to_string(),
    )];
    let files = book.render(&sources).unwrap();
    assert!(files[2].content.contains("Path: /tmp/ex1"));
}

#[test]
fn exercise_ref_substituted_before_demotion() {
    let book = one_subsection_book("src.md", "out");
    let sources = vec![(
        "src.md".to_string(),
        "# #[modmod:exercise_ref]\n".to_string(),
    )];
    let files = book.render(&sources).unwrap();
    assert_eq!(
        files[2].content,
        "# Unit 1.1 - Intro\n\n## Exercise 1.1.1: Ex1\n\n### 1.1.1\n"
    );
}

#[test]
fn every_dir_token_occurrence_substituted() {
    let book = one_subsection_book("src.md", "D");
    let sources = vec![(
        "src.md".to_string(),
        "#[modmod:exercise_dir]/#[modmod:exercise_dir]".to_string(),
    )];
    let files = book.render(&sources).unwrap();
    assert!(files[2].content.ends_with("D/D\n"));
}

#[test]
fn dir_substitution_runs_before_ref_substitution() {
    // The directory text is inserted first, so a reference token inside it
    // is still replaced by the following substitution.
    let book = one_subsection_book("src.md", "x#[modmod:exercise_ref]y");
    let sources = vec![("src.md".to_string(), "#[modmod:exercise_dir]".to_string())];
    let files = book.render(&sources).unwrap();
    assert!(files[2].content.ends_with("x1.1.1y\n"));
}

#[test]
fn heading_demotion_in_rendered_file() {
    let book = one_subsection_book("src.md", "out");
    let sources = vec![("src.md".to_string(), "# Title\nbody".to_string())];
    let files = book.render(&sources).unwrap();
    assert!(files[2].content.ends_with("### Title\nbody\n"));
}

#[test]
fn missing_source_is_an_error() {
    let book = one_subsection_book("absent.md", "out");
    let sources = vec![("other.md".to_string(), "text".to_string())];
    let r = book.render(&sources);
    assert!(r.is_err());
    assert_eq!(r.unwrap_err().message(), "unable to render book");
}

#[test]
fn rendering_twice_is_byte_identical() {
    let book = one_subsection_book("ex1.md", "dir");
    let sources = vec![("ex1.md".to_string(), "# A\n\ntext #[modmod:exercise_ref]".to_string())];
    let f1 = book.render(&sources).unwrap();
    let f2 = book.render(&sources).unwrap();
    assert_eq!(f1.len(), f2.len());
    for (a, b) in f1.iter().zip(f2.iter()) {
        assert_eq!(a.path, b.path);
        assert_eq!(a.content, b.content);
    }
}

#[test]
fn first_matching_source_wins() {
    let book = one_subsection_book("dup.md", "out");
    let sources = vec![
        ("dup.md".to_string(), "first".to_string()),
        ("dup.md".to_string(), "second".to_string()),
    ];
    let files = book.render(&sources).unwrap();
    assert!(files[2].content.ends_with("first\n"));
}

#[test]
fn empty_book_renders_config_and_header_only() {
    let book = Book::builder("Empty").build();
    let files = book.render(&Vec::new()).unwrap();
    assert_eq!(files.len(), 2);
    assert_eq!(files[0].path, "book/book.toml");
    assert_eq!(files[1].path, "book/src/SUMMARY.md");
    assert_eq!(files[1].content, "# Summary\n\n");
}

#[test]
fn section_without_subsections() {
    let mut bb = Book::builder("T");
    let mut cb = bb.chapter("C");
    let sb = cb.section("Lone Part");
    cb = sb.add();
    bb = cb.add();
    let book = bb.build();
    let files = book.render(&Vec::new()).unwrap();
    assert_eq!(files[2].path, "book/src/lone-part.md");
    assert_eq!(files[2].content, "# Unit 1.1 - Lone Part\n\n");
}

#[test]
fn duplicate_slugs_collide_silently() {
    // Slug uniqueness is not enforced: two sections whose titles share a
    // slug yield two planned files with the same path, in section order,
    // so writing the plan in order lets the later one overwrite.
    let mut bb = Book::builder("B");
    let mut cb = bb.chapter("C");
    let mut sb = cb.section("A B");
    cb = sb.add();
    sb = cb.section("A+B");
    cb = sb.add();
    bb = cb.add();
    let files = bb.build().render(&Vec::new()).unwrap();
    assert_eq!(files[2].path, "book/src/a-b.md");
    assert_eq!(files[3].path, "book/src/a-b.md");
    assert!(files[2].content.starts_with("# Unit 1.1 - A B"));
    assert!(files[3].content.starts_with("# Unit 1.2 - A+B"));
}

fn two_chapter_book(t1: &str, t2: &str) -> Book {
    let mut bb = Book::builder("B");
    let mut cb = bb.chapter(t1);
    let mut sb = cb.section("Alpha");
    sb.subsection("A1", "a.md".to_string(), "oa".to_string());
    cb = sb.add();
    sb = cb.section("Beta");
    cb = sb.add();
    bb = cb.add();
    cb = bb.chapter(t2);
    sb = cb.section("Gamma");
    sb.subsection("G1", "g.md".to_string(), "og".to_string());
    cb = sb.add();
    bb = cb.add();
    bb.build()
}

fn two_chapter_sources() -> Vec<(String, String)> {
    vec![
        ("a.md".to_string(), "a text".to_string()),
        ("g.md".to_string(), "g text".to_string()),
    ]
}

#[test]
fn summary_has_one_entry_per_chapter_and_section() {
    let book = two_chapter_book("One", "Two");
    let files = book.render(&two_chapter_sources()).unwrap();
    let summary = &files[1].content;
    let top: Vec<&str> = summary.lines().filter(|l| l.starts_with("- [")).collect();
    let sub: Vec<&str> = summary.lines().filter(|l| l.starts_with("\t- [")).collect();
    assert_eq!(top, vec!["- [One]()", "- [Two]()"]);
    assert_eq!(
        sub,
        vec![
            "\t- [Alpha](alpha.md)",
            "\t- [Beta](beta.md)",
            "\t- [Gamma](gamma.md)"
        ]
    );
    assert_eq!(
        summary,
        "# Summary\n\n- [One]()\n\t- [Alpha](alpha.md)\n\t- [Beta](beta.md)\n\n- [Two]()\n\t- [Gamma](gamma.md)\n\n"
    );
}

#[test]
fn reordering_chapters_renumbers_by_position() {
    // The same two chapters built in both orders: each takes the number of
    // the place it stands in, not a number of its own.
    let book = two_chapter_book("One", "Two");
    let files = book.render(&two_chapter_sources()).unwrap();
    assert!(files[2].content.starts_with("# Unit 1.1 - Alpha"));
    assert!(files[4].content.starts_with("# Unit 2.1 - Gamma"));

    let mut bb = Book::builder("B");
    let mut cb = bb.chapter("Two");
    let mut sb = cb.section("Gamma");
    sb.subsection("G1", "g.md".to_string(), "og".to_string());
    cb = sb.add();
    bb = cb.add();
    cb = bb.chapter("One");
    sb = cb.section("Alpha");
    sb.subsection("A1", "a.md".to_string(), "oa".to_string());
    cb = sb.add();
    sb = cb.section("Beta");
    cb = sb.add();
    bb = cb.add();
    let swapped = bb.build();
    let sfiles = swapped.render(&two_chapter_sources()).unwrap();
    assert!(sfiles[2].content.starts_with("# Unit 1.1 - Gamma"));
    assert!(sfiles[3].content.starts_with("# Unit 2.1 - Alpha"));
}

#[test]
fn renaming_titles_keeps_numbers() {
    let book = two_chapter_book("One", "Two");
    let renamed = two_chapter_book("Eins", "Zwei");
    let files = book.render(&two_chapter_sources()).unwrap();
    let rfiles = renamed.render(&two_chapter_sources()).unwrap();
    for (f, r) in files.iter().zip(rfiles.iter()).skip(2) {
        let num = |c: &str| c.split(" - ").next().unwrap().to_string();
        assert_eq!(num(&f.content), num(&r.content));
    }
    assert!(rfiles[4].content.contains("## Exercise 2.1.1: G1"));
}
