//! The document model — a book of chapters, sections and subsections — and
//! the fluent builder that is the only way to grow a tree. A builder level
//! owns its parent until its terminal `add` returns it, so no half-built
//! chapter or section is ever visible from the book.

use vstd::prelude::*;

verus! {

/// A subsection: a titled exercise whose body is read from a source file
/// (named by `content`) and whose `out_dir` path is substituted for the
/// exercise-directory placeholder.
pub struct SubSection {
    pub title: String,
    pub content: String,
    pub out_dir: String,
}

/// Mathematical image of a [`SubSection`].
pub ghost struct SubSectionV {
    pub title: Seq<char>,
    pub content: Seq<char>,
    pub out_dir: Seq<char>,
}

impl View for SubSection {
    type V = SubSectionV;

    open spec fn view(&self) -> SubSectionV {
        SubSectionV { title: self.title@, content: self.content@, out_dir: self.out_dir@ }
    }
}

/// A section: a titled, ordered run of subsections. Its place in the
/// chapter gives its 1-based number; its title gives its file name.
pub struct Section {
    pub title: String,
    pub subsections: Vec<SubSection>,
}

/// Mathematical image of a [`Section`].
pub ghost struct SectionV {
    pub title: Seq<char>,
    pub subsections: Seq<SubSectionV>,
}

impl View for Section {
    type V = SectionV;

    open spec fn view(&self) -> SectionV {
        SectionV {
            title: self.title@,
            subsections: self.subsections@.map_values(|ss: SubSection| ss@),
        }
    }
}

/// A chapter: a titled, ordered run of sections. Its place in the book
/// gives its 1-based number.
pub struct Chapter {
    pub title: String,
    pub sections: Vec<Section>,
}

/// Mathematical image of a [`Chapter`].
pub ghost struct ChapterV {
    pub title: Seq<char>,
    pub sections: Seq<SectionV>,
}

impl View for Chapter {
    type V = ChapterV;

    open spec fn view(&self) -> ChapterV {
        ChapterV { title: self.title@, sections: self.sections@.map_values(|s: Section| s@) }
    }
}

/// The root of the tree: a titled, ordered run of chapters.
pub struct Book {
    pub title: String,
    pub chapters: Vec<Chapter>,
}

/// Mathematical image of a [`Book`].
pub ghost struct BookV {
    pub title: Seq<char>,
    pub chapters: Seq<ChapterV>,
}

impl View for Book {
    type V = BookV;

    open spec fn view(&self) -> BookV {
        BookV { title: self.title@, chapters: self.chapters@.map_values(|c: Chapter| c@) }
    }
}

impl Book {
    /// Start building a book with the given title and no chapters yet.
    pub fn builder(title: &str) -> (b: BookBuilder)
        ensures
            b@.title == title@,
            b@.chapters.len() == 0,
    {
        let b = BookBuilder { book: Book { title: title.to_owned(), chapters: Vec::new() } };
        proof {
            assert(b@.chapters =~= Seq::<ChapterV>::empty());
        }
        b
    }
}

/// Builder for a [`Book`]; chapters are appended through [`BookBuilder::chapter`].
pub struct BookBuilder {
    book: Book,
}

impl View for BookBuilder {
    type V = BookV;

    closed spec fn view(&self) -> BookV {
        self.book@
    }
}

impl BookBuilder {
    /// Open a chapter context; the chapter joins the book when the returned
    /// builder's `add` runs.
    pub fn chapter(self, title: &str) -> (cb: ChapterBuilder)
        ensures
            cb@.book == self@,
            cb@.chapter.title == title@,
            cb@.chapter.sections.len() == 0,
    {
        let cb = ChapterBuilder {
            book_builder: self,
            chapter: Chapter { title: title.to_owned(), sections: Vec::new() },
        };
        proof {
            assert(cb@.chapter.sections =~= Seq::<SectionV>::empty());
        }
        cb
    }

    /// Finish building and hand out the completed, immutable book.
    pub fn build(self) -> (b: Book)
        ensures
            b@ == self@,
    {
        self.book
    }
}

/// Mathematical image of a [`ChapterBuilder`]: the book built so far and
/// the chapter under construction.
pub ghost struct ChapterBuilderV {
    pub book: BookV,
    pub chapter: ChapterV,
}

/// Builder for one chapter; it holds the book builder until `add` releases
/// it, so the book never sees an unfinished chapter.
pub struct ChapterBuilder {
    book_builder: BookBuilder,
    chapter: Chapter,
}

impl View for ChapterBuilder {
    type V = ChapterBuilderV;

    closed spec fn view(&self) -> ChapterBuilderV {
        ChapterBuilderV { book: self.book_builder@, chapter: self.chapter@ }
    }
}

impl ChapterBuilder {
    /// Open a section context under this chapter.
    pub fn section(self, title: &str) -> (sb: SectionBuilder)
        ensures
            sb@.book == self@.book,
            sb@.chapter == self@.chapter,
            sb@.section.title == title@,
            sb@.section.subsections.len() == 0,
    {
        let sb = SectionBuilder {
            chapter_builder: self,
            section: Section { title: title.to_owned(), subsections: Vec::new() },
        };
        proof {
            assert(sb@.section.subsections =~= Seq::<SubSectionV>::empty());
        }
        sb
    }

    /// Append the completed chapter to the book and give the book builder back.
    pub fn add(self) -> (bb: BookBuilder)
        ensures
            bb@.title == self@.book.title,
            bb@.chapters == self@.book.chapters.push(self@.chapter),
    {
        let ChapterBuilder { mut book_builder, chapter } = self;
        book_builder.book.chapters.push(chapter);
        proof {
            assert(book_builder@.chapters =~= self@.book.chapters.push(self@.chapter));
        }
        book_builder
    }
}

/// Mathematical image of a [`SectionBuilder`]: the book and chapter built
/// so far and the section under construction.
pub ghost struct SectionBuilderV {
    pub book: BookV,
    pub chapter: ChapterV,
    pub section: SectionV,
}

/// Builder for one section; it holds the chapter builder until `add`
/// releases it.
pub struct SectionBuilder {
    chapter_builder: ChapterBuilder,
    section: Section,
}

impl View for SectionBuilder {
    type V = SectionBuilderV;

    closed spec fn view(&self) -> SectionBuilderV {
        SectionBuilderV {
            book: self.chapter_builder@.book,
            chapter: self.chapter_builder@.chapter,
            section: self.section@,
        }
    }
}

impl SectionBuilder {
    /// Append a subsection: its title, the path of its source content file,
    /// and the path substituted for the exercise-directory placeholder.
    pub fn subsection(&mut self, title: &str, content: String, out_dir: String)
        ensures
            final(self)@.book == old(self)@.book,
            final(self)@.chapter == old(self)@.chapter,
            final(self)@.section.title == old(self)@.section.title,
            final(self)@.section.subsections == old(self)@.section.subsections.push(
                SubSectionV { title: title@, content: content@, out_dir: out_dir@ },
            ),
    {
        let ghost before = self@.section.subsections;
        self.section.subsections.push(
            SubSection { title: title.to_owned(), content, out_dir },
        );
        proof {
            assert(self@.section.subsections =~= before.push(
                SubSectionV { title: title@, content: content@, out_dir: out_dir@ },
            ));
        }
    }

    /// Append the completed section to the chapter and give the chapter
    /// builder back.
    pub fn add(self) -> (cb: ChapterBuilder)
        ensures
            cb@.book == self@.book,
            cb@.chapter.title == self@.chapter.title,
            cb@.chapter.sections == self@.chapter.sections.push(self@.section),
    {
        let SectionBuilder { mut chapter_builder, section } = self;
        chapter_builder.chapter.sections.push(section);
        proof {
            assert(chapter_builder@.chapter.sections =~= self@.chapter.sections.push(
                self@.section,
            ));
        }
        chapter_builder
    }
}

} // verus!
