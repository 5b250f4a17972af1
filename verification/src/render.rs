//! The renderer: a pure function from a book and the texts of its
//! subsection source files to the list of files a static-book generator
//! needs — a fixed `book.toml`, a `SUMMARY.md` manifest, and one markdown
//! file per section. Writing the files to disk is the caller's business;
//! everything here is deterministic and fully specified.

use vstd::prelude::*;

use crate::book::{Book, BookV, ChapterV, Section, SectionV, SubSection, SubSectionV};
use crate::text::{
    demote_headings, demote_seq, dec_str, replace_all, replace_seq, tag_of, to_tag, trim,
    trim_seq, usize_to_string,
};

verus! {

/// The single error of rendering: some needed source text was not supplied.
#[derive(Debug, Default)]
#[non_exhaustive]
pub struct RenderBookError;

impl RenderBookError {
    /// A short description of the failure.
    pub fn message(&self) -> (r: String)
        ensures
            r@ == "unable to render book"@,
    {
        "unable to render book".to_owned()
    }
}

/// One output file: a path relative to the output root, and its content.
#[derive(Debug)]
pub struct RenderedFile {
    pub path: String,
    pub content: String,
}

/// Mathematical image of a [`RenderedFile`].
pub ghost struct FileV {
    pub path: Seq<char>,
    pub content: Seq<char>,
}

impl View for RenderedFile {
    type V = FileV;

    open spec fn view(&self) -> FileV {
        FileV { path: self.path@, content: self.content@ }
    }
}

/// The images of a sequence of rendered files.
pub open spec fn files_view(fs: Seq<RenderedFile>) -> Seq<FileV> {
    fs.map_values(|f: RenderedFile| f@)
}

/// The images of the supplied (source path, source text) pairs.
pub open spec fn sources_view(s: Seq<(String, String)>) -> Seq<(Seq<char>, Seq<char>)> {
    s.map_values(|p: (String, String)| (p.0@, p.1@))
}

/// First-match lookup of a source text by its path.
pub open spec fn lookup(srcs: Seq<(Seq<char>, Seq<char>)>, key: Seq<char>) -> Option<Seq<char>>
    decreases srcs.len(),
{
    if srcs.len() == 0 {
        None
    } else if srcs[0].0 == key {
        Some(srcs[0].1)
    } else {
        lookup(srcs.skip(1), key)
    }
}

/// The text found for a path, or empty where there is none.
pub open spec fn lookup_val(srcs: Seq<(Seq<char>, Seq<char>)>, key: Seq<char>) -> Seq<char> {
    match lookup(srcs, key) {
        Some(t) => t,
        None => Seq::empty(),
    }
}

/// Every subsection of the run finds its source text.
pub open spec fn subs_ok(sss: Seq<SubSectionV>, srcs: Seq<(Seq<char>, Seq<char>)>) -> bool {
    forall|k: int| 0 <= k < sss.len() ==> lookup(srcs, sss[k].content) is Some
}

/// Every subsection of every section of the run finds its source text.
pub open spec fn secs_ok(secs: Seq<SectionV>, srcs: Seq<(Seq<char>, Seq<char>)>) -> bool {
    forall|k: int| 0 <= k < secs.len() ==> subs_ok(secs[k].subsections, srcs)
}

/// Every subsection of every chapter of the run finds its source text.
pub open spec fn chs_ok(chs: Seq<ChapterV>, srcs: Seq<(Seq<char>, Seq<char>)>) -> bool {
    forall|k: int| 0 <= k < chs.len() ==> secs_ok(chs[k].sections, srcs)
}

/// Rendering succeeds exactly when every subsection of the book finds its
/// source text among the supplied pairs.
pub open spec fn sources_ok(b: BookV, srcs: Seq<(Seq<char>, Seq<char>)>) -> bool {
    chs_ok(b.chapters, srcs)
}

/// The placeholder replaced by a subsection's exercise directory.
pub open spec fn dir_token() -> Seq<char> {
    "#[modmod:exercise_dir]"@
}

/// The placeholder replaced by a subsection's dotted number.
pub open spec fn ref_token() -> Seq<char> {
    "#[modmod:exercise_ref]"@
}

/// The fixed configuration payload written to `book.toml`.
pub open spec fn book_toml_text() -> Seq<char> {
    "[book]\nlanguage = \"en\"\nmultilingual = false\n\n[build]\nbuild-dir = \"./target\"\n"@
}

/// The dotted reference of a subsection: `chapter.section.subsection`.
pub open spec fn ref_str(ci: nat, si: nat, ui: nat) -> Seq<char> {
    dec_str(ci) + "."@ + dec_str(si) + "."@ + dec_str(ui)
}

/// A subsection's source text after the three substitutions — exercise
/// directory, exercise reference, heading demotion, in that order — and
/// trimming.
pub open spec fn rendered_content(
    src: Seq<char>,
    out_dir: Seq<char>,
    ci: nat,
    si: nat,
    ui: nat,
) -> Seq<char> {
    trim_seq(
        demote_seq(
            replace_seq(replace_seq(src, dir_token(), out_dir), ref_token(), ref_str(ci, si, ui)),
        ),
    )
}

/// The block a subsection contributes to its section's file: an exercise
/// heading, then the substituted, trimmed source text with one trailing
/// newline.
pub open spec fn subsection_block(
    ci: nat,
    si: nat,
    ui: nat,
    ss: SubSectionV,
    src: Seq<char>,
) -> Seq<char> {
    "## Exercise "@ + ref_str(ci, si, ui) + ": "@ + ss.title + "\n\n"@ + rendered_content(
        src,
        ss.out_dir,
        ci,
        si,
        ui,
    ) + "\n"@
}

/// The blocks of a run of subsections, numbered from `ui0`.
pub open spec fn subsection_blocks(
    sss: Seq<SubSectionV>,
    ci: nat,
    si: nat,
    ui0: nat,
    srcs: Seq<(Seq<char>, Seq<char>)>,
) -> Seq<char>
    decreases sss.len(),
{
    if sss.len() == 0 {
        Seq::empty()
    } else {
        subsection_block(ci, si, ui0, sss[0], lookup_val(srcs, sss[0].content))
            + subsection_blocks(sss.skip(1), ci, si, (ui0 + 1) as nat, srcs)
    }
}

/// The whole markdown file of one section: the unit heading, then the
/// blocks of its subsections.
pub open spec fn section_file_text(
    ci: nat,
    si: nat,
    sec: SectionV,
    srcs: Seq<(Seq<char>, Seq<char>)>,
) -> Seq<char> {
    "# Unit "@ + dec_str(ci) + "."@ + dec_str(si) + " - "@ + sec.title + "\n\n"@
        + subsection_blocks(sec.subsections, ci, si, 1, srcs)
}

/// A section's indented manifest line, linking its title to its file.
pub open spec fn section_line(title: Seq<char>) -> Seq<char> {
    "\t- ["@ + title + "]("@ + tag_of(title) + ".md)\n"@
}

/// The manifest lines of a run of sections.
pub open spec fn section_lines(secs: Seq<SectionV>) -> Seq<char>
    decreases secs.len(),
{
    if secs.len() == 0 {
        Seq::empty()
    } else {
        section_line(secs[0].title) + section_lines(secs.skip(1))
    }
}

/// A chapter's manifest block: an unlinked chapter line — kept so the
/// generated numbering stays in step with the model — then its section
/// lines, then a separating blank line.
pub open spec fn chapter_block(ch: ChapterV) -> Seq<char> {
    "- ["@ + ch.title + "]()\n"@ + section_lines(ch.sections) + "\n"@
}

/// The manifest blocks of a run of chapters.
pub open spec fn chapter_blocks(chs: Seq<ChapterV>) -> Seq<char>
    decreases chs.len(),
{
    if chs.len() == 0 {
        Seq::empty()
    } else {
        chapter_block(chs[0]) + chapter_blocks(chs.skip(1))
    }
}

/// The whole `SUMMARY.md` manifest of a book.
pub open spec fn summary_text(b: BookV) -> Seq<char> {
    "# Summary\n\n"@ + chapter_blocks(b.chapters)
}

/// The files of a run of sections of chapter `ci`, numbered from `si0`.
pub open spec fn section_files(
    secs: Seq<SectionV>,
    ci: nat,
    si0: nat,
    srcs: Seq<(Seq<char>, Seq<char>)>,
) -> Seq<FileV>
    decreases secs.len(),
{
    if secs.len() == 0 {
        Seq::empty()
    } else {
        seq![
            FileV {
                path: "book/src/"@ + tag_of(secs[0].title) + ".md"@,
                content: section_file_text(ci, si0, secs[0], srcs),
            },
        ] + section_files(secs.skip(1), ci, (si0 + 1) as nat, srcs)
    }
}

/// The section files of a run of chapters, numbered from `ci0`.
pub open spec fn chapter_files(
    chs: Seq<ChapterV>,
    ci0: nat,
    srcs: Seq<(Seq<char>, Seq<char>)>,
) -> Seq<FileV>
    decreases chs.len(),
{
    if chs.len() == 0 {
        Seq::empty()
    } else {
        section_files(chs[0].sections, ci0, 1, srcs) + chapter_files(
            chs.skip(1),
            (ci0 + 1) as nat,
            srcs,
        )
    }
}

/// Everything a render of `b` writes, in order: the fixed configuration,
/// the manifest, then one file per section in chapter-then-section order.
pub open spec fn plan_files(b: BookV, srcs: Seq<(Seq<char>, Seq<char>)>) -> Seq<FileV> {
    seq![
        FileV { path: "book/book.toml"@, content: book_toml_text() },
        FileV { path: "book/src/SUMMARY.md"@, content: summary_text(b) },
    ] + chapter_files(b.chapters, 1, srcs)
}

/// Find the text supplied for a source path, first match winning.
fn lookup_source(sources: &Vec<(String, String)>, key: &String) -> (r: Option<String>)
    ensures
        match r {
            Some(t) => lookup(sources_view(sources@), key@) == Some(t@),
            None => lookup(sources_view(sources@), key@) is None,
        },
{
    let ghost sv = sources_view(sources@);
    let n: usize = sources.len();
    let mut i: usize = 0;
    proof {
        assert(sv.skip(0) =~= sv);
    }
    while i < n
        invariant
            i <= n,
            n == sources@.len(),
            sv == sources_view(sources@),
            lookup(sv, key@) == lookup(sv.skip(i as int), key@),
        decreases n - i,
    {
        proof {
            assert(sv.skip(i as int)[0] == sv[i as int]);
            assert(sv.skip(i as int).skip(1) =~= sv.skip(i + 1));
        }
        if sources[i].0 == *key {
            let t = sources[i].1.clone();
            return Some(t);
        }
        i = i + 1;
    }
    proof {
        assert(sv.skip(n as int) =~= Seq::<(Seq<char>, Seq<char>)>::empty());
    }
    None
}

/// The dotted `chapter.section.subsection` reference as a string.
fn ref_string(ci: usize, si: usize, ui: usize) -> (r: String)
    ensures
        r@ == ref_str(ci as nat, si as nat, ui as nat),
{
    let mut r = usize_to_string(ci);
    r.append(".");
    let s2 = usize_to_string(si);
    r.append(s2.as_str());
    r.append(".");
    let s3 = usize_to_string(ui);
    r.append(s3.as_str());
    proof {
        assert(r@ =~= ref_str(ci as nat, si as nat, ui as nat));
    }
    r
}

/// The block one subsection contributes to its section's file, given its
/// source text.
fn subsection_block_text(
    ci: usize,
    si: usize,
    ui: usize,
    ss: &SubSection,
    src: &String,
) -> (r: String)
    ensures
        r@ == subsection_block(ci as nat, si as nat, ui as nat, ss@, src@),
{
    let refs = ref_string(ci, si, ui);
    let mut r = "## Exercise ".to_owned();
    r.append(refs.as_str());
    r.append(": ");
    r.append(ss.title.as_str());
    r.append("\n\n");
    proof {
        reveal_strlit("#[modmod:exercise_dir]");
        reveal_strlit("#[modmod:exercise_ref]");
    }
    let c1 = replace_all(src.as_str(), "#[modmod:exercise_dir]", ss.out_dir.as_str());
    let c2 = replace_all(c1.as_str(), "#[modmod:exercise_ref]", refs.as_str());
    let c3 = demote_headings(c2.as_str());
    let c4 = trim(c3.as_str());
    r.append(c4.as_str());
    r.append("\n");
    proof {
        assert(r@ =~= subsection_block(ci as nat, si as nat, ui as nat, ss@, src@));
    }
    r
}

/// The markdown file of one section, or the render error if some
/// subsection's source text is missing.
fn section_file_content(
    ci: usize,
    si: usize,
    sec: &Section,
    sources: &Vec<(String, String)>,
) -> (r: Result<String, RenderBookError>)
    ensures
        match r {
            Ok(text) => subs_ok(sec@.subsections, sources_view(sources@)) && text@
                == section_file_text(ci as nat, si as nat, sec@, sources_view(sources@)),
            Err(_) => !subs_ok(sec@.subsections, sources_view(sources@)),
        },
{
    let ghost sv = sources_view(sources@);
    let ghost sss = sec@.subsections;
    let mut r = "# Unit ".to_owned();
    let cs = usize_to_string(ci);
    r.append(cs.as_str());
    r.append(".");
    let ss_num = usize_to_string(si);
    r.append(ss_num.as_str());
    r.append(" - ");
    r.append(sec.title.as_str());
    r.append("\n\n");
    let n: usize = sec.subsections.len();
    let mut i: usize = 0;
    proof {
        assert(sss.skip(0) =~= sss);
        assert(r@ + subsection_blocks(sss, ci as nat, si as nat, 1, sv) =~= section_file_text(
            ci as nat,
            si as nat,
            sec@,
            sv,
        ));
    }
    while i < n
        invariant
            i <= n,
            n == sec.subsections@.len(),
            sss == sec@.subsections,
            sv == sources_view(sources@),
            sss.len() == n,
            forall|k: int| 0 <= k < i ==> lookup(sv, sss[k].content) is Some,
            section_file_text(ci as nat, si as nat, sec@, sv) == r@ + subsection_blocks(
                sss.skip(i as int),
                ci as nat,
                si as nat,
                (i + 1) as nat,
                sv,
            ),
        decreases n - i,
    {
        let ghost r0 = r@;
        let ghost rest = sss.skip(i as int);
        proof {
            assert(rest[0] == sss[i as int]);
            assert(rest.skip(1) =~= sss.skip(i + 1));
            assert(sec.subsections@.map_values(|ss: SubSection| ss@)[i as int]
                == sec.subsections@[i as int]@);
        }
        let ss = &sec.subsections[i];
        match lookup_source(sources, &ss.content) {
            None => {
                return Err(RenderBookError);
            },
            Some(src) => {
                let block = subsection_block_text(ci, si, i + 1, ss, &src);
                r.append(block.as_str());
                proof {
                    assert(lookup_val(sv, rest[0].content) == src@);
                    let x = subsection_blocks(
                        sss.skip(i + 1),
                        ci as nat,
                        si as nat,
                        (i + 2) as nat,
                        sv,
                    );
                    assert(subsection_blocks(rest, ci as nat, si as nat, (i + 1) as nat, sv)
                        == block@ + x);
                    assert(r0 + (block@ + x) =~= (r0 + block@) + x);
                }
                i = i + 1;
            },
        }
    }
    proof {
        assert(sss.skip(n as int) =~= Seq::<SubSectionV>::empty());
        assert(r@ + subsection_blocks(
            sss.skip(n as int),
            ci as nat,
            si as nat,
            (n + 1) as nat,
            sv,
        ) =~= r@);
        assert(sss.take(n as int) =~= sss);
    }
    Ok(r)
}

/// The manifest block of one chapter.
fn chapter_block_text(ch_title: &String, sections: &Vec<Section>) -> (r: String)
    ensures
        r@ == chapter_block(
            ChapterV { title: ch_title@, sections: sections@.map_values(|s: Section| s@) },
        ),
{
    let ghost secs = sections@.map_values(|s: Section| s@);
    let ghost chv = ChapterV { title: ch_title@, sections: secs };
    let mut r = "- [".to_owned();
    r.append(ch_title.as_str());
    r.append("]()\n");
    let n: usize = sections.len();
    let mut i: usize = 0;
    proof {
        assert(secs.skip(0) =~= secs);
        assert(r@ + (section_lines(secs) + "\n"@) =~= chapter_block(chv));
    }
    while i < n
        invariant
            i <= n,
            n == sections@.len(),
            secs == sections@.map_values(|s: Section| s@),
            secs.len() == n,
            chapter_block(chv) == r@ + (section_lines(secs.skip(i as int)) + "\n"@),
        decreases n - i,
    {
        let ghost r0 = r@;
        let ghost rest = secs.skip(i as int);
        proof {
            assert(rest[0] == secs[i as int]);
            assert(rest.skip(1) =~= secs.skip(i + 1));
        }
        let title = &sections[i].title;
        let tag = to_tag(title.as_str());
        r.append("\t- [");
        r.append(title.as_str());
        r.append("](");
        r.append(tag.as_str());
        r.append(".md)\n");
        proof {
            let x = section_lines(secs.skip(i + 1));
            assert(section_lines(rest) == section_line(secs[i as int].title) + x);
            assert(r@ =~= r0 + section_line(secs[i as int].title));
            assert((r0 + section_line(secs[i as int].title)) + (x + "\n"@) =~= r0 + (
            section_line(secs[i as int].title) + x + "\n"@));
            assert(section_line(secs[i as int].title) + x + "\n"@ =~= (section_line(
                secs[i as int].title,
            ) + x) + "\n"@);
        }
        i = i + 1;
    }
    r.append("\n");
    proof {
        assert(secs.skip(n as int) =~= Seq::<SectionV>::empty());
        assert(section_lines(secs.skip(n as int)) + "\n"@ =~= "\n"@);
    }
    r
}

/// The whole `SUMMARY.md` manifest of a book.
fn summary_of(b: &Book) -> (r: String)
    ensures
        r@ == summary_text(b@),
{
    let ghost chs = b@.chapters;
    let mut r = "# Summary\n\n".to_owned();
    let n: usize = b.chapters.len();
    let mut i: usize = 0;
    proof {
        assert(chs.skip(0) =~= chs);
        assert(r@ + chapter_blocks(chs) =~= summary_text(b@));
    }
    while i < n
        invariant
            i <= n,
            n == b.chapters@.len(),
            chs == b@.chapters,
            chs.len() == n,
            summary_text(b@) == r@ + chapter_blocks(chs.skip(i as int)),
        decreases n - i,
    {
        let ghost r0 = r@;
        let ghost rest = chs.skip(i as int);
        proof {
            assert(rest[0] == chs[i as int]);
            assert(rest.skip(1) =~= chs.skip(i + 1));
            assert(b.chapters@.map_values(|c: crate::book::Chapter| c@)[i as int]
                == b.chapters@[i as int]@);
        }
        let ch = &b.chapters[i];
        let block = chapter_block_text(&ch.title, &ch.sections);
        r.append(block.as_str());
        proof {
            let x = chapter_blocks(chs.skip(i + 1));
            assert(chapter_blocks(rest) == chapter_block(chs[i as int]) + x);
            assert(r0 + (chapter_block(chs[i as int]) + x) =~= (r0 + block@) + x);
        }
        i = i + 1;
    }
    proof {
        assert(chs.skip(n as int) =~= Seq::<ChapterV>::empty());
        assert(r@ + chapter_blocks(chs.skip(n as int)) =~= r@);
    }
    r
}

impl Book {
    /// Render the book against the supplied source texts, one pair per
    /// source path. On success the result is exactly the planned file
    /// list — configuration, manifest, then one file per section — and
    /// success comes precisely when every subsection's source path is
    /// found among the pairs.
    pub fn render(&self, sources: &Vec<(String, String)>) -> (r: Result<
        Vec<RenderedFile>,
        RenderBookError,
    >)
        ensures
            match r {
                Ok(files) => sources_ok(self@, sources_view(sources@)) && files_view(files@)
                    == plan_files(self@, sources_view(sources@)),
                Err(_) => !sources_ok(self@, sources_view(sources@)),
            },
    {
        let ghost sv = sources_view(sources@);
        let ghost chs = self@.chapters;
        let ghost plan = plan_files(self@, sv);
        let mut files: Vec<RenderedFile> = Vec::new();
        files.push(
            RenderedFile {
                path: "book/book.toml".to_owned(),
                content:
                    "[book]\nlanguage = \"en\"\nmultilingual = false\n\n[build]\nbuild-dir = \"./target\"\n".to_owned(),
            },
        );
        let summary = summary_of(self);
        files.push(RenderedFile { path: "book/src/SUMMARY.md".to_owned(), content: summary });
        proof {
            assert(files_view(files@) =~= seq![
                FileV { path: "book/book.toml"@, content: book_toml_text() },
                FileV { path: "book/src/SUMMARY.md"@, content: summary_text(self@) },
            ]);
            assert(chs.skip(0) =~= chs);
            assert(plan == files_view(files@) + chapter_files(chs, 1, sv));
        }
        let n: usize = self.chapters.len();
        let mut ci: usize = 0;
        while ci < n
            invariant
                ci <= n,
                n == self.chapters@.len(),
                chs == self@.chapters,
                chs.len() == n,
                sv == sources_view(sources@),
                plan == plan_files(self@, sv),
                forall|k: int| 0 <= k < ci ==> secs_ok(chs[k].sections, sv),
                plan == files_view(files@) + chapter_files(chs.skip(ci as int), (ci + 1) as nat, sv),
            decreases n - ci,
        {
            let ghost crest = chs.skip(ci as int);
            proof {
                assert(crest[0] == chs[ci as int]);
                assert(crest.skip(1) =~= chs.skip(ci + 1));
                assert(self.chapters@.map_values(|c: crate::book::Chapter| c@)[ci as int]
                    == self.chapters@[ci as int]@);
            }
            let chapter = &self.chapters[ci];
            let ghost secs = chs[ci as int].sections;
            let m: usize = chapter.sections.len();
            let mut si: usize = 0;
            proof {
                assert(secs.skip(0) =~= secs);
                assert(chapter_files(crest, (ci + 1) as nat, sv) == section_files(
                    secs,
                    (ci + 1) as nat,
                    1,
                    sv,
                ) + chapter_files(chs.skip(ci + 1), (ci + 2) as nat, sv));
            }
            while si < m
                invariant
                    si <= m,
                    ci < n,
                    m == chapter.sections@.len(),
                    chapter == &self.chapters[ci as int],
                    n == self.chapters@.len(),
                    chs == self@.chapters,
                    chs.len() == n,
                    secs == chs[ci as int].sections,
                    secs.len() == m,
                    sv == sources_view(sources@),
                    plan == plan_files(self@, sv),
                    forall|k: int| 0 <= k < si ==> subs_ok(secs[k].subsections, sv),
                    plan == files_view(files@) + (section_files(
                        secs.skip(si as int),
                        (ci + 1) as nat,
                        (si + 1) as nat,
                        sv,
                    ) + chapter_files(chs.skip(ci + 1), (ci + 2) as nat, sv)),
                decreases m - si,
            {
                let ghost fv0 = files_view(files@);
                let ghost srest = secs.skip(si as int);
                proof {
                    assert(srest[0] == secs[si as int]);
                    assert(srest.skip(1) =~= secs.skip(si + 1));
                    assert(chapter.sections@.map_values(|s: Section| s@)[si as int]
                        == chapter.sections@[si as int]@);
                }
                let section = &chapter.sections[si];
                let text = match section_file_content(ci + 1, si + 1, section, sources) {
                    Ok(text) => text,
                    Err(e) => {
                        proof {
                            assert(!subs_ok(secs[si as int].subsections, sv));
                            assert(!secs_ok(chs[ci as int].sections, sv));
                            assert(!chs_ok(chs, sv));
                        }
                        return Err(e);
                    },
                };
                let tag = to_tag(section.title.as_str());
                let mut path = "book/src/".to_owned();
                path.append(tag.as_str());
                path.append(".md");
                files.push(RenderedFile { path, content: text });
                proof {
                    let f = FileV {
                        path: "book/src/"@ + tag_of(secs[si as int].title) + ".md"@,
                        content: section_file_text((ci + 1) as nat, (si + 1) as nat, srest[0], sv),
                    };
                    assert(files_view(files@) =~= fv0.push(f));
                    let x = section_files(secs.skip(si + 1), (ci + 1) as nat, (si + 2) as nat, sv);
                    let y = chapter_files(chs.skip(ci + 1), (ci + 2) as nat, sv);
                    assert(section_files(srest, (ci + 1) as nat, (si + 1) as nat, sv) == seq![f]
                        + x);
                    assert(fv0 + ((seq![f] + x) + y) =~= fv0.push(f) + (x + y));
                }
                si = si + 1;
            }
            proof {
                assert(secs.skip(m as int) =~= Seq::<SectionV>::empty());
                assert(section_files(secs.skip(m as int), (ci + 1) as nat, (m + 1) as nat, sv)
                    =~= Seq::<FileV>::empty());
                assert(Seq::<FileV>::empty() + chapter_files(chs.skip(ci + 1), (ci + 2) as nat, sv)
                    =~= chapter_files(chs.skip(ci + 1), (ci + 2) as nat, sv));
            }
            ci = ci + 1;
        }
        proof {
            assert(chs.skip(n as int) =~= Seq::<ChapterV>::empty());
            assert(files_view(files@) + chapter_files(chs.skip(n as int), (n + 1) as nat, sv)
                =~= files_view(files@));
        }
        Ok(files)
    }
}

} // verus!
