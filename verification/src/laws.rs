//! Laws of the renderer, stated over the same spec functions as the
//! renderer's contracts: the line structure of the manifest, the purely
//! positional numbering, and determinism of rendering.

use vstd::prelude::*;

use crate::book::{BookV, ChapterV, SectionV, SubSectionV};
use crate::render::{
    chapter_blocks, chapter_files, plan_files, ref_str, section_file_text, section_files,
    section_lines, subsection_block, summary_text, FileV,
};
use crate::text::{dec_str, tag_of, slug_char};

verus! {

/// The text holds no newline.
pub open spec fn no_nl(s: Seq<char>) -> bool {
    forall|k: int| 0 <= k < s.len() ==> s[k] != '\n'
}

/// Every chapter and section title of the run holds no newline.
pub open spec fn titles_nl_free(chs: Seq<ChapterV>) -> bool {
    forall|ci: int|
        0 <= ci < chs.len() ==> no_nl(chs[ci].title) && (forall|si: int|
            0 <= si < chs[ci].sections.len() ==> no_nl(chs[ci].sections[si].title))
}

/// The text split at every newline, as `str::split('\n')` splits it: one
/// more piece than there are newlines, each piece newline-free.
pub open spec fn line_split(s: Seq<char>) -> Seq<Seq<char>>
    decreases s.len(),
{
    if s.len() == 0 {
        seq![Seq::<char>::empty()]
    } else if s[0] == '\n' {
        seq![Seq::<char>::empty()] + line_split(s.skip(1))
    } else {
        let rest = line_split(s.skip(1));
        seq![seq![s[0]] + rest[0]] + rest.skip(1)
    }
}

proof fn lemma_line_split_len(s: Seq<char>)
    ensures
        line_split(s).len() >= 1,
    decreases s.len(),
{
    if s.len() == 0 {
    } else {
        lemma_line_split_len(s.skip(1));
    }
}

/// Splitting `a + "\n" + b` where `a` has no newline yields `a` and then
/// the split of `b`.
proof fn lemma_line_split_append(a: Seq<char>, b: Seq<char>)
    requires
        no_nl(a),
    ensures
        line_split(a + seq!['\n'] + b) == seq![a] + line_split(b),
    decreases a.len(),
{
    let s = a + seq!['\n'] + b;
    if a.len() == 0 {
        assert(s[0] == '\n');
        assert(s.skip(1) =~= b);
        assert(line_split(s) =~~= seq![a] + line_split(b));
    } else {
        assert(s[0] == a[0]);
        assert(s[0] != '\n');
        assert(s.skip(1) =~= a.skip(1) + seq!['\n'] + b);
        lemma_line_split_append(a.skip(1), b);
        let rest = line_split(s.skip(1));
        lemma_line_split_len(b);
        assert(rest == seq![a.skip(1)] + line_split(b));
        assert(rest[0] == a.skip(1));
        assert(seq![s[0]] + rest[0] =~= a);
        assert(rest.skip(1) =~= line_split(b));
        assert(line_split(s) =~~= seq![a] + line_split(b));
    }
}

/// A section's manifest line without its final newline.
pub open spec fn section_entry(title: Seq<char>) -> Seq<char> {
    "\t- ["@ + title + "]("@ + tag_of(title) + ".md)"@
}

/// A chapter's unlinked manifest line without its final newline.
pub open spec fn chapter_entry(title: Seq<char>) -> Seq<char> {
    "- ["@ + title + "]()"@
}

/// The manifest lines of a run of sections, one entry per section, in order.
pub open spec fn section_entry_lines(secs: Seq<SectionV>) -> Seq<Seq<char>>
    decreases secs.len(),
{
    if secs.len() == 0 {
        Seq::empty()
    } else {
        seq![section_entry(secs[0].title)] + section_entry_lines(secs.skip(1))
    }
}

/// The manifest lines of one chapter: its own entry, its sections'
/// entries in order, and a separating blank line.
pub open spec fn chapter_entry_lines(ch: ChapterV) -> Seq<Seq<char>> {
    seq![chapter_entry(ch.title)] + section_entry_lines(ch.sections) + seq![Seq::<char>::empty()]
}

/// The manifest lines of a run of chapters, in order.
pub open spec fn chapters_entry_lines(chs: Seq<ChapterV>) -> Seq<Seq<char>>
    decreases chs.len(),
{
    if chs.len() == 0 {
        Seq::empty()
    } else {
        chapter_entry_lines(chs[0]) + chapters_entry_lines(chs.skip(1))
    }
}

/// All the lines of a book's manifest: the header, a blank line, each
/// chapter's lines in order, and the empty piece after the final newline.
pub open spec fn summary_lines(b: BookV) -> Seq<Seq<char>> {
    seq!["# Summary"@, Seq::<char>::empty()] + chapters_entry_lines(b.chapters) + seq![
        Seq::<char>::empty(),
    ]
}

/// A slug never holds a newline.
proof fn lemma_tag_nl_free(title: Seq<char>)
    ensures
        no_nl(tag_of(title)),
{
    assert forall|k: int| 0 <= k < tag_of(title).len() implies tag_of(title)[k] != '\n' by {
        assert(tag_of(title)[k] == slug_char(title[k]));
        assert(slug_char(title[k]) != '\n');
    }
}

proof fn lemma_section_lines_split(secs: Seq<SectionV>, tail: Seq<char>)
    requires
        forall|si: int| 0 <= si < secs.len() ==> no_nl(secs[si].title),
    ensures
        line_split(section_lines(secs) + tail) == section_entry_lines(secs) + line_split(tail),
    decreases secs.len(),
{
    if secs.len() == 0 {
        assert(section_lines(secs) + tail =~= tail);
        assert(line_split(section_lines(secs) + tail) =~~= section_entry_lines(secs) + line_split(
            tail,
        ));
    } else {
        let entry = section_entry(secs[0].title);
        lemma_tag_nl_free(secs[0].title);
        proof_strlits();
        assert(no_nl(entry));
        lemma_section_lines_split(secs.skip(1), tail);
        let rest = section_lines(secs.skip(1)) + tail;
        assert(section_lines(secs) + tail =~= entry + seq!['\n'] + rest);
        lemma_line_split_append(entry, rest);
        assert(line_split(section_lines(secs) + tail) =~~= section_entry_lines(secs) + line_split(
            tail,
        ));
    }
}

proof fn lemma_chapter_blocks_split(chs: Seq<ChapterV>, tail: Seq<char>)
    requires
        titles_nl_free(chs),
    ensures
        line_split(chapter_blocks(chs) + tail) == chapters_entry_lines(chs) + line_split(tail),
    decreases chs.len(),
{
    if chs.len() == 0 {
        assert(chapter_blocks(chs) + tail =~= tail);
        assert(line_split(chapter_blocks(chs) + tail) =~~= chapters_entry_lines(chs) + line_split(
            tail,
        ));
    } else {
        let ch = chs[0];
        let entry = chapter_entry(ch.title);
        proof_strlits();
        assert(no_nl(entry));
        assert(titles_nl_free(chs.skip(1)));
        lemma_chapter_blocks_split(chs.skip(1), tail);
        let rest2 = chapter_blocks(chs.skip(1)) + tail;
        let rest1 = seq!['\n'] + rest2;
        let rest0 = section_lines(ch.sections) + rest1;
        assert(chapter_blocks(chs) + tail =~= entry + seq!['\n'] + rest0);
        lemma_line_split_append(entry, rest0);
        assert(forall|si: int| 0 <= si < ch.sections.len() ==> no_nl(ch.sections[si].title));
        lemma_section_lines_split(ch.sections, rest1);
        assert(rest1 =~= Seq::<char>::empty() + seq!['\n'] + rest2);
        lemma_line_split_append(Seq::<char>::empty(), rest2);
        assert(line_split(chapter_blocks(chs) + tail) =~~= chapters_entry_lines(chs) + line_split(
            tail,
        ));
    }
}

proof fn proof_strlits()
    ensures
        no_nl("\t- ["@),
        no_nl("]("@),
        no_nl(".md)"@),
        no_nl("- ["@),
        no_nl("]()"@),
        no_nl("# Summary"@),
        ".md)\n"@ == ".md)"@ + seq!['\n'],
        "]()\n"@ == "]()"@ + seq!['\n'],
        "\n"@ == seq!['\n'],
        "# Summary\n\n"@ == "# Summary"@ + seq!['\n'] + seq!['\n'],
{
    reveal_strlit("\t- [");
    reveal_strlit("](");
    reveal_strlit(".md)");
    reveal_strlit(".md)\n");
    reveal_strlit("- [");
    reveal_strlit("]()");
    reveal_strlit("]()\n");
    reveal_strlit("\n");
    reveal_strlit("# Summary");
    reveal_strlit("# Summary\n\n");
    assert(".md)\n"@ =~= ".md)"@ + seq!['\n']);
    assert("]()\n"@ =~= "]()"@ + seq!['\n']);
    assert("\n"@ =~= seq!['\n']);
    assert("# Summary\n\n"@ =~= "# Summary"@ + seq!['\n'] + seq!['\n']);
}

/// The manifest has exactly the expected lines: a header and a blank line,
/// then, per chapter in book order, the chapter's unlinked entry, one
/// indented entry per section in chapter order, and a blank line. In
/// particular it has exactly one top-level entry per chapter and one
/// indented entry per section, in chapter-then-section order.
pub proof fn lemma_summary_line_structure(b: BookV)
    requires
        titles_nl_free(b.chapters),
    ensures
        line_split(summary_text(b)) == summary_lines(b),
{
    proof_strlits();
    let blocks = chapter_blocks(b.chapters);
    assert(summary_text(b) =~= "# Summary"@ + seq!['\n'] + (Seq::<char>::empty() + seq!['\n']
        + (blocks + Seq::<char>::empty())));
    lemma_line_split_append("# Summary"@, Seq::<char>::empty() + seq!['\n'] + (blocks
        + Seq::<char>::empty()));
    lemma_line_split_append(Seq::<char>::empty(), blocks + Seq::<char>::empty());
    lemma_chapter_blocks_split(b.chapters, Seq::<char>::empty());
    assert(line_split(summary_text(b)) =~~= summary_lines(b));
}

/// The number of sections of a run of chapters, summed.
pub open spec fn total_sections(chs: Seq<ChapterV>) -> nat
    decreases chs.len(),
{
    if chs.len() == 0 {
        0
    } else {
        chs[0].sections.len() + total_sections(chs.skip(1))
    }
}

proof fn lemma_section_entry_lines_len(secs: Seq<SectionV>)
    ensures
        section_entry_lines(secs).len() == secs.len(),
    decreases secs.len(),
{
    if secs.len() > 0 {
        lemma_section_entry_lines_len(secs.skip(1));
    }
}

proof fn lemma_chapters_entry_lines_len(chs: Seq<ChapterV>)
    ensures
        chapters_entry_lines(chs).len() == 2 * chs.len() + total_sections(chs),
    decreases chs.len(),
{
    if chs.len() > 0 {
        lemma_section_entry_lines_len(chs[0].sections);
        lemma_chapters_entry_lines_len(chs.skip(1));
    }
}

/// Counting corollary of the manifest's line structure: a book with C
/// chapters and S sections in all splits into 3 + 2C + S pieces — the
/// header, one blank, and then per chapter one top-level entry, one
/// indented entry per section, and one blank — so the manifest has exactly
/// one top-level entry per chapter and one indented entry per section.
pub proof fn lemma_summary_line_count(b: BookV)
    requires
        titles_nl_free(b.chapters),
    ensures
        line_split(summary_text(b)).len() == 3 + 2 * b.chapters.len() + total_sections(b.chapters),
{
    lemma_summary_line_structure(b);
    lemma_chapters_entry_lines_len(b.chapters);
}

/// The heading that opens the file of the section at place `(ci, si)`.
pub open spec fn unit_heading(ci: nat, si: nat) -> Seq<char> {
    "# Unit "@ + dec_str(ci) + "."@ + dec_str(si) + " - "@
}

/// The heading that opens the block of the subsection at place
/// `(ci, si, ui)`.
pub open spec fn exercise_heading(ci: nat, si: nat, ui: nat) -> Seq<char> {
    "## Exercise "@ + ref_str(ci, si, ui) + ": "@
}

/// Numbering is purely positional, chapter level: the files of a run of
/// chapters split at any point, the second part numbered by how many
/// chapters stand before it — so reordering chapters renumbers them by
/// their new positions alone.
pub proof fn lemma_chapter_numbering_positional(
    chs1: Seq<ChapterV>,
    chs2: Seq<ChapterV>,
    ci0: nat,
    srcs: Seq<(Seq<char>, Seq<char>)>,
)
    ensures
        chapter_files(chs1 + chs2, ci0, srcs) == chapter_files(chs1, ci0, srcs) + chapter_files(
            chs2,
            ci0 + chs1.len(),
            srcs,
        ),
    decreases chs1.len(),
{
    if chs1.len() == 0 {
        assert(chs1 + chs2 =~= chs2);
        assert(chapter_files(chs1 + chs2, ci0, srcs) =~= chapter_files(chs1, ci0, srcs)
            + chapter_files(chs2, ci0 + chs1.len(), srcs));
    } else {
        let all = chs1 + chs2;
        assert(all[0] == chs1[0]);
        assert(all.skip(1) =~= chs1.skip(1) + chs2);
        lemma_chapter_numbering_positional(chs1.skip(1), chs2, (ci0 + 1) as nat, srcs);
        assert(chapter_files(all, ci0, srcs) =~= chapter_files(chs1, ci0, srcs) + chapter_files(
            chs2,
            ci0 + chs1.len(),
            srcs,
        ));
    }
}

/// Numbering is purely positional, section level: the files of a run of
/// sections split at any point, the second part numbered by how many
/// sections stand before it.
pub proof fn lemma_section_numbering_positional(
    s1: Seq<SectionV>,
    s2: Seq<SectionV>,
    ci: nat,
    si0: nat,
    srcs: Seq<(Seq<char>, Seq<char>)>,
)
    ensures
        section_files(s1 + s2, ci, si0, srcs) == section_files(s1, ci, si0, srcs) + section_files(
            s2,
            ci,
            si0 + s1.len(),
            srcs,
        ),
    decreases s1.len(),
{
    if s1.len() == 0 {
        assert(s1 + s2 =~= s2);
        assert(section_files(s1 + s2, ci, si0, srcs) =~= section_files(s1, ci, si0, srcs)
            + section_files(s2, ci, si0 + s1.len(), srcs));
    } else {
        let all = s1 + s2;
        assert(all[0] == s1[0]);
        assert(all.skip(1) =~= s1.skip(1) + s2);
        lemma_section_numbering_positional(s1.skip(1), s2, ci, (si0 + 1) as nat, srcs);
        assert(section_files(all, ci, si0, srcs) =~= section_files(s1, ci, si0, srcs)
            + section_files(s2, ci, si0 + s1.len(), srcs));
    }
}

/// The emitted numbers never depend on titles or content: whatever the
/// section and its sources, its file opens with the unit heading of its
/// place, and whatever the subsection and its source text, its block opens
/// with the exercise heading of its place — so renaming a title never
/// changes a number.
pub proof fn lemma_headings_positional(
    ci: nat,
    si: nat,
    ui: nat,
    sec: SectionV,
    ss: SubSectionV,
    src: Seq<char>,
    srcs: Seq<(Seq<char>, Seq<char>)>,
)
    ensures
        section_file_text(ci, si, sec, srcs).take(unit_heading(ci, si).len() as int)
            == unit_heading(ci, si),
        subsection_block(ci, si, ui, ss, src).take(exercise_heading(ci, si, ui).len() as int)
            == exercise_heading(ci, si, ui),
{
    assert(section_file_text(ci, si, sec, srcs).take(unit_heading(ci, si).len() as int)
        =~= unit_heading(ci, si));
    assert(subsection_block(ci, si, ui, ss, src).take(exercise_heading(ci, si, ui).len() as int)
        =~= exercise_heading(ci, si, ui));
}

/// Rendering is deterministic: the planned files are a function of the
/// book and the source texts alone, so — with `Book::render` bound to the
/// plan by its contract — rendering the same book twice over the same
/// sources yields byte-identical trees.
pub proof fn lemma_render_deterministic(
    b: BookV,
    srcs: Seq<(Seq<char>, Seq<char>)>,
    f1: Seq<FileV>,
    f2: Seq<FileV>,
)
    requires
        f1 == plan_files(b, srcs),
        f2 == plan_files(b, srcs),
    ensures
        f1 == f2,
{
}

} // verus!
