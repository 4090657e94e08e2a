//! Lessons and the outline of a course: chapters, in them the kinds of
//! lessons, in them the lessons.

use crate::files::FilePath;
use crate::text::{
    chars_of, comes_before, ends_with, is_digit, is_white, join, joined, law_precedes_total,
    law_precedes_transitive, law_words_are_parted, lemma_words_of_word, lemma_words_push, opt_view,
    precedes, same_text,
    split_whitespace, text_between, views, words,
};
use vstd::multiset::Multiset;
use vstd::prelude::*;
use vstd::seq_lib::lemma_multiset_commutative;

verus! {

// ---------------------------------------------------------------------------
// Lessons
// ---------------------------------------------------------------------------

/// What a lesson is for.
#[derive(Debug, Clone, Copy, PartialEq, Eq, PartialOrd, Ord, Structural)]
pub enum LessonKind {
    Example,
    Exercise,
    Homework,
    Challenge,
}

impl Default for LessonKind {
    fn default() -> (r: Self)
        ensures
            r == LessonKind::Exercise,
    {
        LessonKind::Exercise
    }
}

impl LessonKind {
    /// The sign of a kind.
    pub open spec fn icon_text(self) -> Seq<char> {
        match self {
            LessonKind::Example => "📘"@,
            LessonKind::Exercise => "✏️"@,
            LessonKind::Homework => "📝"@,
            LessonKind::Challenge => "🧠"@,
        }
    }

    /// The heading of a kind.
    pub open spec fn label_text(self) -> Seq<char> {
        match self {
            LessonKind::Example => "Examples"@,
            LessonKind::Exercise => "Exercises"@,
            LessonKind::Homework => "Homework"@,
            LessonKind::Challenge => "Challenges"@,
        }
    }

    /// The sign of a kind.
    pub fn icon(self) -> (r: &'static str)
        ensures
            r@ == self.icon_text(),
    {
        match self {
            LessonKind::Example => "📘",
            LessonKind::Exercise => "✏️",
            LessonKind::Homework => "📝",
            LessonKind::Challenge => "🧠",
        }
    }

    /// The heading of a kind.
    pub fn label(self) -> (r: &'static str)
        ensures
            r@ == self.label_text(),
    {
        match self {
            LessonKind::Example => "Examples",
            LessonKind::Exercise => "Exercises",
            LessonKind::Homework => "Homework",
            LessonKind::Challenge => "Challenges",
        }
    }
}

/// A lesson, as its description gives it.
#[derive(Debug, Clone)]
pub struct Lesson {
    pub id: String,
    pub title: String,
    pub title_en: Option<String>,
    pub kind: Option<LessonKind>,
    pub no_paste: bool,
    pub kc: Vec<String>,
    pub language: Option<String>,
    pub entry: Option<String>,
    pub test: Option<String>,
    pub run: Option<String>,
    pub estimated_minutes: Option<u32>,
    pub tests_pass_required: Option<u32>,
}

/// Whether a file of that name describes a lesson.
pub fn describes_lesson(name: &str) -> (r: bool)
    ensures
        r == ".lesson.json"@.is_suffix_of(name@),
{
    ends_with(name, ".lesson.json")
}

// ---------------------------------------------------------------------------
// Chapter titles
// ---------------------------------------------------------------------------

/// `s` without the digits and dashes at its start.
pub open spec fn after_number(s: Seq<char>) -> Seq<char>
    decreases s.len(),
{
    if s.len() > 0 && (is_digit(s[0]) || s[0] == '-') {
        after_number(s.skip(1))
    } else {
        s
    }
}

/// A character, or a space for a dash.
pub open spec fn undashed(c: char) -> char {
    if c == '-' {
        ' '
    } else {
        c
    }
}

/// `s` with a space for each dash.
pub open spec fn dashes_to_spaces(s: Seq<char>) -> Seq<char> {
    Seq::new(s.len(), |i: int| undashed(s[i]))
}

/// A character in upper case, where it is a small ASCII letter.
pub open spec fn ascii_upper(c: char) -> char {
    if 'a' <= c <= 'z' {
        (c as int - 32) as char
    } else {
        c
    }
}

/// A word with its first letter in upper case.
pub open spec fn capital(word: Seq<char>) -> Seq<char> {
    if word.len() == 0 {
        word
    } else {
        seq![ascii_upper(word[0])] + word.skip(1)
    }
}

/// Words with their first letters in upper case.
pub open spec fn capitals(list: Seq<Seq<char>>) -> Seq<Seq<char>> {
    Seq::new(list.len(), |i: int| capital(list[i]))
}

/// The title of a chapter, by the name of its directory: the words of the
/// name, without its number, each with its first letter in upper case.
pub open spec fn title_cased(slug: Seq<char>) -> Seq<char> {
    joined(capitals(words(dashes_to_spaces(after_number(slug)))), " "@)
}

/// A word with its first letter in upper case.
fn capitalize(word: &str) -> (r: String)
    ensures
        r@ == capital(word@),
{
    let chars = chars_of(word);
    if chars.len() == 0 {
        return word.to_string();
    }
    let first = chars[0];
    let first = if 'a' <= first && first <= 'z' {
        (first as u8 - 32) as char
    } else {
        first
    };
    let mut r = String::new();
    r.push(first);
    r.append(text_between(chars.as_slice(), 1, chars.len()).as_str());
    assert(r@ =~= capital(word@));
    r
}

/// The title of a chapter, by the name of its directory.
pub fn title_case_slug(slug: &str) -> (r: String)
    ensures
        r@ == title_cased(slug@),
{
    let chars = chars_of(slug);
    let mut from: usize = 0;
    assert(chars@.skip(0) =~= chars@);
    while from < chars.len() && (('0' <= chars[from] && chars[from] <= '9') || chars[from] == '-')
        invariant
            from <= chars.len(),
            after_number(chars@.skip(from as int)) == after_number(chars@),
        decreases chars.len() - from,
    {
        assert(chars@.skip(from as int).skip(1) =~= chars@.skip(from + 1));
        from = from + 1;
    }
    let ghost rest = chars@.skip(from as int);
    assert(after_number(chars@) == rest) by {
        if from < chars.len() {
            assert(rest[0] == chars@[from as int]);
        }
    }
    let mut spaced = String::new();
    for i in from..chars.len()
        invariant
            from <= chars.len(),
            rest == chars@.skip(from as int),
            spaced@ == dashes_to_spaces(rest).take(i - from),
    {
        spaced.push(
            if chars[i] == '-' {
                ' '
            } else {
                chars[i]
            },
        );
        assert(spaced@ =~= dashes_to_spaces(rest).take(i + 1 - from));
    }
    assert(dashes_to_spaces(rest).take(rest.len() as int) =~= dashes_to_spaces(rest));
    let found = split_whitespace(spaced.as_str());
    let mut titled: Vec<String> = Vec::new();
    for i in 0..found.len()
        invariant
            titled@.len() == i,
            forall|k: int| 0 <= k < i ==> (#[trigger] titled@[k])@ == capital(found@[k]@),
    {
        titled.push(capitalize(found[i].as_str()));
    }
    assert(views(titled@) =~= capitals(views(found@)));
    join(&titled, " ")
}

// ---------------------------------------------------------------------------
// The outline
// ---------------------------------------------------------------------------

/// A lesson in the outline.
pub struct OutlineItem {
    pub id: String,
    pub title: String,
    pub kind: LessonKind,
    pub no_paste: bool,
    /// The file that opens when the lesson is picked.
    pub entry_path: FilePath,
}

impl Clone for OutlineItem {
    fn clone(&self) -> (r: Self)
        ensures
            r == *self,
    {
        OutlineItem {
            id: self.id.clone(),
            title: self.title.clone(),
            kind: self.kind,
            no_paste: self.no_paste,
            entry_path: self.entry_path.clone(),
        }
    }
}

/// The lessons of one kind in a chapter.
pub struct Section {
    pub kind: LessonKind,
    pub items: Vec<OutlineItem>,
}

/// A chapter in the outline.
pub struct ChapterGroup {
    pub slug: String,
    pub display: String,
    pub sections: Vec<Section>,
}

/// A lesson that was found on disk.
pub struct FoundLesson {
    pub lesson: Lesson,
    /// Its entry file, beside the description, where the description names one.
    pub entry_path: Option<FilePath>,
}

/// A chapter directory that was found on disk, with the lessons in it in the
/// order in which they were found.
pub struct FoundChapter {
    pub slug: String,
    pub lessons: Vec<FoundLesson>,
}

/// A chapter directory that was found on disk.
pub ghost struct ChapterView {
    pub slug: Seq<char>,
    pub lessons: Seq<FoundLesson>,
}

impl View for FoundChapter {
    type V = ChapterView;

    open spec fn view(&self) -> ChapterView {
        ChapterView { slug: self.slug@, lessons: self.lessons@ }
    }
}

/// The views of a list of chapters.
pub open spec fn chapter_views(found: Seq<FoundChapter>) -> Seq<ChapterView> {
    Seq::new(found.len(), |i: int| found[i]@)
}

/// The place of a lesson in the outline; it has none without an entry file.
pub open spec fn found_item(found: FoundLesson) -> Option<OutlineItem> {
    match (found.lesson.entry, found.entry_path) {
        (Some(_), Some(entry_path)) => Some(
            OutlineItem {
                id: found.lesson.id,
                title: found.lesson.title,
                kind: match found.lesson.kind {
                    Some(kind) => kind,
                    None => LessonKind::Exercise,
                },
                no_paste: found.lesson.no_paste,
                entry_path,
            },
        ),
        _ => None,
    }
}

/// A list in order, with one more item put in its place: behind all that do
/// not come after it.
pub open spec fn insert_by_id(list: Seq<OutlineItem>, item: OutlineItem) -> Seq<OutlineItem>
    decreases list.len(),
{
    if list.len() > 0 && precedes(item.id@, list.last().id@) {
        insert_by_id(list.drop_last(), item).push(list.last())
    } else {
        list.push(item)
    }
}

/// The items of one kind among the lessons of a directory, in the order in
/// which they were found.
pub open spec fn items_of_kind(lessons: Seq<FoundLesson>, kind: LessonKind) -> Seq<OutlineItem>
    decreases lessons.len(),
{
    if lessons.len() == 0 {
        seq![]
    } else {
        let before = items_of_kind(lessons.drop_last(), kind);
        match found_item(lessons.last()) {
            Some(item) => if item.kind == kind {
                before.push(item)
            } else {
                before
            },
            None => before,
        }
    }
}

/// The items of one kind in the chapter of that name, in the order in which
/// they were found.
pub open spec fn chapter_items(
    found: Seq<ChapterView>,
    slug: Seq<char>,
    kind: LessonKind,
) -> Seq<OutlineItem>
    decreases found.len(),
{
    if found.len() == 0 {
        seq![]
    } else {
        let before = chapter_items(found.drop_last(), slug, kind);
        if found.last().slug == slug {
            before + items_of_kind(found.last().lessons, kind)
        } else {
            before
        }
    }
}

/// Items in the order of their ids; where ids are equal, in the order they
/// had.
pub open spec fn sorted_by_id(items: Seq<OutlineItem>) -> Seq<OutlineItem>
    decreases items.len(),
{
    if items.len() == 0 {
        seq![]
    } else {
        insert_by_id(sorted_by_id(items.drop_last()), items.last())
    }
}

/// The section of one kind, where it has any items.
pub open spec fn section_of(
    found: Seq<ChapterView>,
    slug: Seq<char>,
    kind: LessonKind,
) -> Seq<(LessonKind, Seq<OutlineItem>)> {
    let items = chapter_items(found, slug, kind);
    if items.len() == 0 {
        seq![]
    } else {
        seq![(kind, sorted_by_id(items))]
    }
}

/// The sections of a chapter.
pub open spec fn chapter_sections(found: Seq<ChapterView>, slug: Seq<char>) -> Seq<
    (LessonKind, Seq<OutlineItem>),
> {
    section_of(found, slug, LessonKind::Example) + section_of(found, slug, LessonKind::Exercise)
        + section_of(found, slug, LessonKind::Homework) + section_of(
        found,
        slug,
        LessonKind::Challenge,
    )
}

/// The kinds and the items of a list of sections.
pub open spec fn section_views(sections: Seq<Section>) -> Seq<(LessonKind, Seq<OutlineItem>)> {
    Seq::new(sections.len(), |i: int| (sections[i].kind, sections[i].items@))
}

/// Whether a list of names is in order, with none twice.
pub open spec fn in_order(slugs: Seq<Seq<char>>) -> bool {
    forall|i: int, j: int|
        0 <= i < j < slugs.len() ==> precedes(#[trigger] slugs[i], #[trigger] slugs[j])
}

/// The names of the chapters of an outline.
pub open spec fn slugs_of(out: Seq<ChapterGroup>) -> Seq<Seq<char>> {
    Seq::new(out.len(), |i: int| out[i].slug@)
}

/// The names of the directories that were found.
pub open spec fn found_slugs(found: Seq<ChapterView>) -> Seq<Seq<char>> {
    Seq::new(found.len(), |i: int| found[i].slug)
}

/// Whether two lists hold the same names.
pub open spec fn same_names(a: Seq<Seq<char>>, b: Seq<Seq<char>>) -> bool {
    forall|s: Seq<char>| #[trigger] a.contains(s) <==> b.contains(s)
}

/// Whether `group` is the chapter of its name.
pub open spec fn is_chapter(found: Seq<ChapterView>, group: ChapterGroup) -> bool {
    &&& group.display@ == title_cased(group.slug@)
    &&& section_views(group.sections@) == chapter_sections(found, group.slug@)
}

/// Whether `out` is the outline of what was found: one chapter for each name,
/// in the order of the names.
pub open spec fn is_outline(found: Seq<ChapterView>, out: Seq<ChapterGroup>) -> bool {
    &&& in_order(slugs_of(out))
    &&& same_names(slugs_of(out), found_slugs(found))
    &&& forall|i: int| 0 <= i < out.len() ==> is_chapter(found, #[trigger] out[i])
}

/// The place of a lesson in the outline.
fn item_of(found: &FoundLesson) -> (r: Option<OutlineItem>)
    ensures
        r == found_item(*found),
{
    match (&found.lesson.entry, &found.entry_path) {
        (Some(_), Some(entry_path)) => Some(
            OutlineItem {
                id: found.lesson.id.clone(),
                title: found.lesson.title.clone(),
                kind: match found.lesson.kind {
                    Some(kind) => kind,
                    None => LessonKind::default(),
                },
                no_paste: found.lesson.no_paste,
                entry_path: entry_path.clone(),
            },
        ),
        _ => None,
    }
}

/// What is put in its place lies between what does not come after it and what
/// does.
proof fn lemma_insert_by_id(list: Seq<OutlineItem>, item: OutlineItem, at: int)
    requires
        0 <= at <= list.len(),
        at > 0 ==> !precedes(item.id@, list[at - 1].id@),
        forall|i: int| at <= i < list.len() ==> precedes(item.id@, (#[trigger] list[i]).id@),
    ensures
        insert_by_id(list, item) == list.insert(at, item),
    decreases list.len(),
{
    if at < list.len() {
        lemma_insert_by_id(list.drop_last(), item, at);
        assert(list.insert(at, item) =~= list.drop_last().insert(at, item).push(list.last()));
    } else {
        assert(list.insert(at, item) =~= list.push(item));
    }
}

/// Puts one more item in its place.
fn insert_item(list: &mut Vec<OutlineItem>, item: OutlineItem)
    ensures
        final(list)@ == insert_by_id(old(list)@, item),
{
    let mut at: usize = list.len();
    while at > 0 && comes_before(item.id.as_str(), list[at - 1].id.as_str())
        invariant
            at <= list.len(),
            list@ == old(list)@,
            forall|i: int| at <= i < list@.len() ==> precedes(item.id@, (#[trigger] list@[i]).id@),
        decreases at,
    {
        at = at - 1;
    }
    proof {
        lemma_insert_by_id(list@, item, at as int);
    }
    list.insert(at, item);
}

/// What is sorted item by item is sorted as a whole.
proof fn lemma_sorted_push(items: Seq<OutlineItem>, item: OutlineItem)
    ensures
        sorted_by_id(items.push(item)) == insert_by_id(sorted_by_id(items), item),
{
    assert(items.push(item).drop_last() =~= items);
}

/// The items of one kind in the chapter of that name, in the order of their
/// ids.
fn section_items(found: &Vec<FoundChapter>, slug: &str, kind: LessonKind) -> (r: Vec<OutlineItem>)
    ensures
        r@ == sorted_by_id(chapter_items(chapter_views(found@), slug@, kind)),
{
    let mut r: Vec<OutlineItem> = Vec::new();
    assert(r@ =~= sorted_by_id(seq![]));
    let ghost chapters = chapter_views(found@);
    for i in 0..found.len()
        invariant
            chapters == chapter_views(found@),
            r@ == sorted_by_id(chapter_items(chapters.take(i as int), slug@, kind)),
    {
        let ghost before = chapter_items(chapters.take(i as int), slug@, kind);
        assert(chapters.take(i + 1).drop_last() =~= chapters.take(i as int));
        assert(chapters.take(i + 1).last() == found@[i as int]@);
        if same_text(found[i].slug.as_str(), slug) {
            let lessons = &found[i].lessons;
            assert(before + items_of_kind(lessons@.take(0), kind) =~= before);
            for j in 0..lessons.len()
                invariant
                    r@ == sorted_by_id(before + items_of_kind(lessons@.take(j as int), kind)),
            {
                let ghost so_far = items_of_kind(lessons@.take(j as int), kind);
                assert(lessons@.take(j + 1).drop_last() =~= lessons@.take(j as int));
                match item_of(&lessons[j]) {
                    Some(item) => {
                        if item.kind == kind {
                            proof {
                                lemma_sorted_push(before + so_far, item);
                                assert((before + so_far).push(item) =~= before + so_far.push(item));
                            }
                            insert_item(&mut r, item);
                        }
                    },
                    None => {},
                }
            }
            assert(lessons@.take(lessons@.len() as int) =~= lessons@);
        }
    }
    assert(chapters.take(chapters.len() as int) =~= chapters);
    r
}

/// Sorting keeps the number of items.
proof fn lemma_sorted_len(items: Seq<OutlineItem>)
    ensures
        sorted_by_id(items).len() == items.len(),
    decreases items.len(),
{
    if items.len() > 0 {
        lemma_sorted_len(items.drop_last());
        lemma_insert_len(sorted_by_id(items.drop_last()), items.last());
    }
}

/// Putting an item in its place makes a list longer by one.
proof fn lemma_insert_len(list: Seq<OutlineItem>, item: OutlineItem)
    ensures
        insert_by_id(list, item).len() == list.len() + 1,
    decreases list.len(),
{
    if list.len() > 0 && precedes(item.id@, list.last().id@) {
        lemma_insert_len(list.drop_last(), item);
    }
}

/// Adds the section of one kind to the sections of a chapter, where it has any
/// items.
fn add_section(
    sections: &mut Vec<Section>,
    found: &Vec<FoundChapter>,
    slug: &str,
    kind: LessonKind,
)
    ensures
        section_views(final(sections)@) == section_views(old(sections)@) + section_of(
            chapter_views(found@),
            slug@,
            kind,
        ),
{
    let items = section_items(found, slug, kind);
    proof {
        lemma_sorted_len(chapter_items(chapter_views(found@), slug@, kind));
    }
    if items.len() > 0 {
        sections.push(Section { kind, items });
    }
    assert(section_views(sections@) =~= section_views(old(sections)@) + section_of(
        chapter_views(found@),
        slug@,
        kind,
    ));
}

/// The chapter of that name.
fn chapter_group(found: &Vec<FoundChapter>, slug: String) -> (r: ChapterGroup)
    ensures
        r.slug == slug,
        is_chapter(chapter_views(found@), r),
{
    let mut sections: Vec<Section> = Vec::new();
    assert(section_views(sections@) =~= seq![]);
    add_section(&mut sections, found, slug.as_str(), LessonKind::Example);
    add_section(&mut sections, found, slug.as_str(), LessonKind::Exercise);
    add_section(&mut sections, found, slug.as_str(), LessonKind::Homework);
    add_section(&mut sections, found, slug.as_str(), LessonKind::Challenge);
    assert(section_views(sections@) =~= chapter_sections(chapter_views(found@), slug@));
    let display = title_case_slug(slug.as_str());
    ChapterGroup { slug, display, sections }
}

/// A name can be put into a list in order at one place.
proof fn lemma_insert_name(list: Seq<Seq<char>>, name: Seq<char>, at: int)
    requires
        in_order(list),
        0 <= at <= list.len(),
        forall|i: int| 0 <= i < at ==> precedes(#[trigger] list[i], name),
        at < list.len() ==> precedes(name, list[at]),
    ensures
        in_order(list.insert(at, name)),
        forall|s: Seq<char>|
            #[trigger] list.insert(at, name).contains(s) <==> list.contains(s) || s == name,
{
    let longer = list.insert(at, name);
    assert forall|i: int, j: int| 0 <= i < j < longer.len() implies precedes(
        #[trigger] longer[i],
        #[trigger] longer[j],
    ) by {
        if i == at {
            assert(longer[j] == list[j - 1]);
            if j - 1 > at {
                law_precedes_transitive(name, list[at], list[j - 1]);
            }
        } else if j == at {
            assert(longer[i] == list[i]);
        } else {
            let a = if i < at {
                i
            } else {
                i - 1
            };
            let b = if j < at {
                j
            } else {
                j - 1
            };
            assert(longer[i] == list[a] && longer[j] == list[b]);
        }
    }
    assert forall|s: Seq<char>| #[trigger] longer.contains(s) <==> list.contains(s) || s == name by {
        if longer.contains(s) {
            let i = choose|i: int| 0 <= i < longer.len() && longer[i] == s;
            if i < at {
                assert(list[i] == s);
            } else if i > at {
                assert(list[i - 1] == s);
            }
        }
        if list.contains(s) {
            let i = choose|i: int| 0 <= i < list.len() && list[i] == s;
            if i < at {
                assert(longer[i] == s);
            } else {
                assert(longer[i + 1] == s);
            }
        }
        if s == name {
            assert(longer[at] == s);
        }
    }
}

/// The names of the chapters that were found, each once and in order.
fn chapter_names(found: &Vec<FoundChapter>) -> (r: Vec<String>)
    ensures
        in_order(views(r@)),
        same_names(views(r@), found_slugs(chapter_views(found@))),
{
    let mut r: Vec<String> = Vec::new();
    let ghost chapters = chapter_views(found@);
    assert(views(r@) =~= found_slugs(chapters.take(0)));
    for i in 0..found.len()
        invariant
            chapters == chapter_views(found@),
            in_order(views(r@)),
            same_names(views(r@), found_slugs(chapters.take(i as int))),
    {
        let slug = found[i].slug.clone();
        let ghost before = views(r@);
        let ghost earlier = found_slugs(chapters.take(i as int));
        let mut at: usize = 0;
        while at < r.len() && comes_before(r[at].as_str(), slug.as_str())
            invariant
                at <= r.len(),
                before == views(r@),
                forall|k: int| 0 <= k < at ==> precedes(#[trigger] before[k], slug@),
            decreases r.len() - at,
        {
            assert(before[at as int] == r@[at as int]@);
            at = at + 1;
        }
        assert(found_slugs(chapters.take(i + 1)) =~= earlier.push(slug@));
        proof {
            lemma_push_name(earlier, slug@);
        }
        if at < r.len() && same_text(r[at].as_str(), slug.as_str()) {
            assert(before[at as int] == slug@);
            assert(before.contains(slug@));
        } else {
            proof {
                if at < r.len() {
                    assert(before[at as int] == r@[at as int]@);
                    law_precedes_total(before[at as int], slug@);
                }
                lemma_insert_name(before, slug@, at as int);
            }
            r.insert(at, slug);
            assert(views(r@) =~= before.insert(at as int, slug@));
        }
    }
    assert(chapters.take(chapters.len() as int) =~= chapters);
    r
}

/// A longer list holds the names it held and the new one.
proof fn lemma_push_name(list: Seq<Seq<char>>, name: Seq<char>)
    ensures
        forall|s: Seq<char>| #[trigger] list.push(name).contains(s) <==> list.contains(s) || s
            == name,
{
    let longer = list.push(name);
    assert forall|s: Seq<char>| #[trigger] longer.contains(s) <==> list.contains(s) || s == name by {
        if list.contains(s) {
            let i = choose|i: int| 0 <= i < list.len() && list[i] == s;
            assert(longer[i] == s);
        }
        if s == name {
            assert(longer[list.len() as int] == s);
        }
    }
}

// ---------------------------------------------------------------------------
// From the listing of the directories
// ---------------------------------------------------------------------------

/// A file in a directory of lessons.
pub struct ListedFile {
    /// The final component of its path, where it has one.
    pub name: Option<String>,
    /// The lesson that it describes, where it could be read and understood.
    pub lesson: Option<FoundLesson>,
}

/// An entry among the chapters.
pub struct ListedEntry {
    /// The final component of its path, where it has one.
    pub name: Option<String>,
    pub is_dir: bool,
    /// The files in the directory of its lessons, where that could be listed;
    /// nothing stands for a file that could not.
    pub files: Option<Vec<Option<ListedFile>>>,
}

/// The lesson of a file: only a description gives one.
pub open spec fn kept_lesson(file: Option<ListedFile>) -> Option<FoundLesson> {
    match file {
        Some(file) => match file.name {
            Some(name) => if ".lesson.json"@.is_suffix_of(name@) {
                file.lesson
            } else {
                None
            },
            None => None,
        },
        None => None,
    }
}

/// The lessons of a list of files, in its order.
pub open spec fn kept_lessons(files: Seq<Option<ListedFile>>) -> Seq<FoundLesson>
    decreases files.len(),
{
    if files.len() == 0 {
        seq![]
    } else {
        let rest = kept_lessons(files.skip(1));
        match kept_lesson(files[0]) {
            Some(lesson) => seq![lesson] + rest,
            None => rest,
        }
    }
}

/// The chapter of an entry: only a directory with a name and a directory of
/// lessons is one, whether or not there are lessons in it.
pub open spec fn kept_chapter(entry: Option<ListedEntry>) -> Option<ChapterView> {
    match entry {
        Some(entry) => match (entry.name, entry.files) {
            (Some(name), Some(files)) => if entry.is_dir {
                Some(ChapterView { slug: name@, lessons: kept_lessons(files@) })
            } else {
                None
            },
            _ => None,
        },
        None => None,
    }
}

/// The chapters of a list of entries, in its order.
pub open spec fn kept_chapters(entries: Seq<Option<ListedEntry>>) -> Seq<ChapterView>
    decreases entries.len(),
{
    if entries.len() == 0 {
        seq![]
    } else {
        let rest = kept_chapters(entries.skip(1));
        match kept_chapter(entries[0]) {
            Some(chapter) => seq![chapter] + rest,
            None => rest,
        }
    }
}

/// The lessons of a list of files.
fn keep_lessons(files: Vec<Option<ListedFile>>) -> (r: Vec<FoundLesson>)
    ensures
        r@ == kept_lessons(files@),
{
    let mut files = files;
    let ghost all = files@;
    let mut r: Vec<FoundLesson> = Vec::new();
    assert(r@ + kept_lessons(files@) =~= kept_lessons(all));
    while files.len() > 0
        invariant
            r@ + kept_lessons(files@) == kept_lessons(all),
        decreases files.len(),
    {
        let ghost before = r@;
        let ghost left = files@;
        let file = files.remove(0);
        assert(files@ =~= left.skip(1));
        match file {
            Some(file) => match file.name {
                Some(name) => if describes_lesson(name.as_str()) {
                    match file.lesson {
                        Some(lesson) => {
                            r.push(lesson);
                            assert(r@ =~= before + seq![lesson]);
                        },
                        None => {},
                    }
                },
                None => {},
            },
            None => {},
        }
        assert(r@ + kept_lessons(files@) =~= before + kept_lessons(left));
    }
    assert(r@ + kept_lessons(files@) =~= r@);
    r
}

/// The chapters of a list of entries.
pub fn keep_chapters(entries: Vec<Option<ListedEntry>>) -> (r: Vec<FoundChapter>)
    ensures
        chapter_views(r@) == kept_chapters(entries@),
{
    let mut entries = entries;
    let ghost all = entries@;
    let mut r: Vec<FoundChapter> = Vec::new();
    assert(chapter_views(r@) + kept_chapters(entries@) =~= kept_chapters(all));
    while entries.len() > 0
        invariant
            chapter_views(r@) + kept_chapters(entries@) == kept_chapters(all),
        decreases entries.len(),
    {
        let ghost before = chapter_views(r@);
        let ghost left = entries@;
        let entry = entries.remove(0);
        assert(entries@ =~= left.skip(1));
        match entry {
            Some(entry) => match (entry.name, entry.files) {
                (Some(slug), Some(files)) => if entry.is_dir {
                    let lessons = keep_lessons(files);
                    r.push(FoundChapter { slug, lessons });
                    assert(chapter_views(r@) =~= before + seq![ChapterView { slug: slug@, lessons: lessons@ }]);
                },
                _ => {},
            },
            None => {},
        }
        assert(chapter_views(r@) + kept_chapters(entries@) =~= before + kept_chapters(left));
    }
    assert(chapter_views(r@) + kept_chapters(entries@) =~= chapter_views(r@));
    r
}

/// The outline of what was listed below the directory of the chapters.
pub fn scan_outline(entries: Vec<Option<ListedEntry>>) -> (out: Vec<ChapterGroup>)
    ensures
        is_outline(kept_chapters(entries@), out@),
{
    build_outline(&keep_chapters(entries))
}

/// The outline of what was found on disk.
pub fn build_outline(found: &Vec<FoundChapter>) -> (out: Vec<ChapterGroup>)
    ensures
        is_outline(chapter_views(found@), out@),
{
    let names = chapter_names(found);
    let mut out: Vec<ChapterGroup> = Vec::new();
    for i in 0..names.len()
        invariant
            out@.len() == i,
            forall|k: int| 0 <= k < i ==> (#[trigger] out@[k]).slug == names@[k],
            forall|k: int| 0 <= k < i ==> is_chapter(chapter_views(found@), #[trigger] out@[k]),
    {
        out.push(chapter_group(found, names[i].clone()));
    }
    assert(slugs_of(out@) =~= views(names@));
    out
}

// ---------------------------------------------------------------------------
// Laws
// ---------------------------------------------------------------------------

/// Whether no item comes before an earlier one.
pub open spec fn ids_in_order(items: Seq<OutlineItem>) -> bool {
    forall|i: int, j: int|
        0 <= i < j < items.len() ==> !precedes(
            (#[trigger] items[j]).id@,
            (#[trigger] items[i]).id@,
        )
}

/// The items of one id, in the order they have in a list.
pub open spec fn items_with_id(items: Seq<OutlineItem>, id: Seq<char>) -> Seq<OutlineItem>
    decreases items.len(),
{
    if items.len() == 0 {
        seq![]
    } else if items.last().id@ == id {
        items_with_id(items.drop_last(), id).push(items.last())
    } else {
        items_with_id(items.drop_last(), id)
    }
}

/// Putting an item in its place keeps a list in order, adds that item and no
/// other, and puts it behind those of the same id.
proof fn lemma_insert_keeps(list: Seq<OutlineItem>, item: OutlineItem)
    requires
        ids_in_order(list),
    ensures
        ids_in_order(insert_by_id(list, item)),
        insert_by_id(list, item).to_multiset() == list.to_multiset().insert(item),
        forall|id: Seq<char>|
            #[trigger] items_with_id(insert_by_id(list, item), id) == items_with_id(
                list.push(item),
                id,
            ),
    decreases list.len(),
{
    broadcast use vstd::seq_lib::group_to_multiset_ensures;

    let longer = insert_by_id(list, item);
    if list.len() > 0 && precedes(item.id@, list.last().id@) {
        let rest = list.drop_last();
        let last = list.last();
        assert(ids_in_order(rest)) by {
            assert forall|i: int, j: int| 0 <= i < j < rest.len() implies !precedes(
                (#[trigger] rest[j]).id@,
                (#[trigger] rest[i]).id@,
            ) by {
                assert(rest[j] == list[j] && rest[i] == list[i]);
            }
        }
        lemma_insert_keeps(rest, item);
        let inner = insert_by_id(rest, item);
        assert(list =~= rest.push(last));
        assert forall|i: int, j: int| 0 <= i < j < longer.len() implies !precedes(
            (#[trigger] longer[j]).id@,
            (#[trigger] longer[i]).id@,
        ) by {
            if j == longer.len() - 1 {
                assert(longer[j] == last);
                assert(longer[i] == inner[i]);
                assert(inner.to_multiset().count(inner[i]) > 0) by {
                    assert(inner.contains(inner[i]));
                }
                if inner[i] == item {
                    law_precedes_total(item.id@, last.id@);
                } else {
                    assert(rest.to_multiset().count(inner[i]) > 0);
                    assert(rest.contains(inner[i]));
                    let k = choose|k: int| 0 <= k < rest.len() && rest[k] == inner[i];
                    assert(list[k] == inner[i]);
                    assert(list[list.len() - 1] == last);
                }
            } else {
                assert(longer[j] == inner[j] && longer[i] == inner[i]);
            }
        }
        assert(longer.to_multiset() =~= list.to_multiset().insert(item));
        assert forall|id: Seq<char>| #[trigger]
            items_with_id(longer, id) == items_with_id(list.push(item), id) by {
            assert(longer.drop_last() =~= inner);
            assert(list.push(item).drop_last() =~= list);
            assert(rest.push(item).drop_last() =~= rest);
            assert(items_with_id(inner, id) == items_with_id(rest.push(item), id));
            law_precedes_total(item.id@, item.id@);
            assert(item.id@ != last.id@);
            assert(list.drop_last() == rest && list.last() == last);
            assert(longer.last() == last);
            reveal_with_fuel(items_with_id, 3);
        }
    } else {
        if list.len() > 0 {
            law_precedes_total(list.last().id@, list.last().id@);
        }
        assert forall|i: int, j: int| 0 <= i < j < longer.len() implies !precedes(
            (#[trigger] longer[j]).id@,
            (#[trigger] longer[i]).id@,
        ) by {
            if j == longer.len() - 1 {
                let last = list.last();
                assert(longer[j] == item && longer[i] == list[i]);
                assert(i < list.len() - 1 ==> !precedes(list[list.len() - 1].id@, list[i].id@));
                if precedes(item.id@, list[i].id@) && i < list.len() - 1 {
                    law_precedes_total(list[i].id@, last.id@);
                    if list[i].id@ != last.id@ {
                        law_precedes_transitive(item.id@, list[i].id@, last.id@);
                    }
                }
            } else {
                assert(longer[j] == list[j] && longer[i] == list[i]);
            }
        }
        assert(longer.to_multiset() =~= list.to_multiset().insert(item));
    }
}

/// The lessons of a section stand in the order of their ids, none is lost or
/// added, and lessons of the same id stay in the order in which they were
/// found.
pub proof fn law_sections_are_sorted(items: Seq<OutlineItem>)
    ensures
        ids_in_order(sorted_by_id(items)),
        sorted_by_id(items).to_multiset() == items.to_multiset(),
        forall|id: Seq<char>|
            #[trigger] items_with_id(sorted_by_id(items), id) == items_with_id(items, id),
    decreases items.len(),
{
    broadcast use vstd::seq_lib::group_to_multiset_ensures;

    if items.len() > 0 {
        let rest = items.drop_last();
        let last = items.last();
        law_sections_are_sorted(rest);
        lemma_insert_keeps(sorted_by_id(rest), last);
        assert(items =~= rest.push(last));
        assert(sorted_by_id(items).to_multiset() =~= items.to_multiset());
        assert forall|id: Seq<char>| #[trigger]
            items_with_id(sorted_by_id(items), id) == items_with_id(items, id) by {
            assert(sorted_by_id(rest).push(last).drop_last() =~= sorted_by_id(rest));
            assert(items_with_id(sorted_by_id(rest), id) == items_with_id(rest, id));
        }
    } else {
        assert(sorted_by_id(items) =~= items);
    }
}

/// Two lists in order that hold the same items with different ids are equal.
proof fn lemma_order_is_unique(a: Seq<OutlineItem>, b: Seq<OutlineItem>)
    requires
        ids_in_order(a),
        ids_in_order(b),
        a.to_multiset() == b.to_multiset(),
        forall|i: int, j: int|
            0 <= i < a.len() && 0 <= j < a.len() && (#[trigger] a[i]).id@ == (#[trigger] a[j]).id@
                ==> i == j,
    ensures
        a == b,
    decreases a.len(),
{
    broadcast use vstd::seq_lib::group_to_multiset_ensures;

    assert(a.to_multiset().len() == a.len());
    assert(b.to_multiset().len() == b.len());
    if a.len() > 0 {
        let n = a.len() - 1;
        let x = a[n];
        let y = b[n];
        assert(b.contains(x)) by {
            assert(a.contains(x));
            assert(b.to_multiset().count(x) > 0);
        }
        assert(a.contains(y)) by {
            assert(b.contains(y));
            assert(a.to_multiset().count(y) > 0);
        }
        let k = choose|k: int| 0 <= k < b.len() && b[k] == x;
        let m = choose|m: int| 0 <= m < a.len() && a[m] == y;
        if x.id@ == y.id@ {
            assert(a[m].id@ == a[n].id@);
        } else {
            law_precedes_total(x.id@, y.id@);
            assert(k < n && m < n);
            assert(!precedes(b[n].id@, b[k].id@));
            assert(!precedes(a[n].id@, a[m].id@));
        }
        assert(x == y);
        let ra = a.drop_last();
        let rb = b.drop_last();
        assert(a =~= ra.push(x) && b =~= rb.push(x));
        assert(ra.to_multiset() =~= a.to_multiset().remove(x));
        assert(rb.to_multiset() =~= b.to_multiset().remove(x));
        assert forall|i: int, j: int| 0 <= i < j < ra.len() implies !precedes(
            (#[trigger] ra[j]).id@,
            (#[trigger] ra[i]).id@,
        ) by {
            assert(ra[j] == a[j] && ra[i] == a[i]);
        }
        assert forall|i: int, j: int| 0 <= i < j < rb.len() implies !precedes(
            (#[trigger] rb[j]).id@,
            (#[trigger] rb[i]).id@,
        ) by {
            assert(rb[j] == b[j] && rb[i] == b[i]);
        }
        assert forall|i: int, j: int|
            0 <= i < ra.len() && 0 <= j < ra.len() && (#[trigger] ra[i]).id@ == (
            #[trigger] ra[j]).id@ implies i == j by {
            assert(ra[j] == a[j] && ra[i] == a[i]);
        }
        lemma_order_is_unique(ra, rb);
    }
    assert(a =~= b);
}

/// The order in which the files happen to be found makes no difference to a
/// section, as long as its lessons have different ids.
pub proof fn law_order_is_deterministic(a: Seq<OutlineItem>, b: Seq<OutlineItem>)
    requires
        a.to_multiset() == b.to_multiset(),
        forall|i: int, j: int|
            0 <= i < a.len() && 0 <= j < a.len() && (#[trigger] a[i]).id@ == (#[trigger] a[j]).id@
                ==> i == j,
    ensures
        sorted_by_id(a) == sorted_by_id(b),
{
    broadcast use vstd::seq_lib::group_to_multiset_ensures;

    law_sections_are_sorted(a);
    law_sections_are_sorted(b);
    let sorted = sorted_by_id(a);
    lemma_sorted_len(a);
    assert forall|i: int, j: int|
        0 <= i < sorted.len() && 0 <= j < sorted.len() && (#[trigger] sorted[i]).id@ == (
        #[trigger] sorted[j]).id@ implies i == j by {
        if i != j {
            let id = sorted[i].id@;
            lemma_two_with_id(sorted, i, j);
            lemma_one_with_id(a, id);
            assert(items_with_id(sorted, id) == items_with_id(a, id));
        }
    }
    lemma_order_is_unique(sorted, sorted_by_id(b));
}

/// Two places of the same id make two items of that id.
proof fn lemma_two_with_id(items: Seq<OutlineItem>, i: int, j: int)
    requires
        0 <= i < items.len(),
        0 <= j < items.len(),
        i != j,
        items[i].id@ == items[j].id@,
    ensures
        items_with_id(items, items[i].id@).len() >= 2,
    decreases items.len(),
{
    let id = items[i].id@;
    let rest = items.drop_last();
    let n = items.len() - 1;
    if i < n && j < n {
        lemma_two_with_id(rest, i, j);
    } else {
        let other = if i < n {
            i
        } else {
            j
        };
        assert(rest[other] == items[other]);
        lemma_some_with_id(rest, other);
    }
}

/// A place of an id makes an item of that id.
proof fn lemma_some_with_id(items: Seq<OutlineItem>, i: int)
    requires
        0 <= i < items.len(),
    ensures
        items_with_id(items, items[i].id@).len() >= 1,
    decreases items.len(),
{
    if i < items.len() - 1 {
        lemma_some_with_id(items.drop_last(), i);
    }
}

/// Where all ids differ there is one item at most of each.
proof fn lemma_one_with_id(items: Seq<OutlineItem>, id: Seq<char>)
    requires
        forall|i: int, j: int|
            0 <= i < items.len() && 0 <= j < items.len() && (#[trigger] items[i]).id@ == (
            #[trigger] items[j]).id@ ==> i == j,
    ensures
        items_with_id(items, id).len() <= 1,
    decreases items.len(),
{
    if items.len() > 0 {
        let rest = items.drop_last();
        assert forall|i: int, j: int|
            0 <= i < rest.len() && 0 <= j < rest.len() && (#[trigger] rest[i]).id@ == (
            #[trigger] rest[j]).id@ implies i == j by {
            assert(rest[i] == items[i] && rest[j] == items[j]);
        }
        lemma_one_with_id(rest, id);
        if items.last().id@ == id && items_with_id(rest, id).len() > 0 {
            lemma_with_id_is_there(rest, id);
            let k = choose|k: int| 0 <= k < rest.len() && (#[trigger] rest[k]).id@ == id;
            assert(items[k].id@ == items[items.len() - 1].id@);
        }
    }
}

/// An item of an id has a place.
proof fn lemma_with_id_is_there(items: Seq<OutlineItem>, id: Seq<char>)
    requires
        items_with_id(items, id).len() > 0,
    ensures
        exists|k: int| 0 <= k < items.len() && (#[trigger] items[k]).id@ == id,
    decreases items.len(),
{
    if items.len() > 0 && items.last().id@ == id {
        assert(items[items.len() - 1].id@ == id);
    } else if items.len() > 0 {
        lemma_with_id_is_there(items.drop_last(), id);
        let rest = items.drop_last();
        let k = choose|k: int| 0 <= k < rest.len() && (#[trigger] rest[k]).id@ == id;
        assert(items[k].id@ == id);
    }
}

/// Whether an item is listed in a chapter, under its kind.
pub open spec fn is_listed(group: ChapterGroup, item: OutlineItem) -> bool {
    exists|k: int|
        0 <= k < group.sections@.len() && (#[trigger] group.sections@[k]).kind == item.kind
            && group.sections@[k].items@.contains(item)
}

/// A lesson of a directory is among the items of its kind there.
proof fn lemma_item_of_kind(lessons: Seq<FoundLesson>, at: int)
    requires
        0 <= at < lessons.len(),
        found_item(lessons[at]) is Some,
    ensures
        items_of_kind(lessons, found_item(lessons[at])->0.kind).contains(
            found_item(lessons[at])->0,
        ),
    decreases lessons.len(),
{
    let item = found_item(lessons[at])->0;
    let before = items_of_kind(lessons.drop_last(), item.kind);
    let all = items_of_kind(lessons, item.kind);
    if at < lessons.len() - 1 {
        assert(lessons.drop_last()[at] == lessons[at]);
        lemma_item_of_kind(lessons.drop_last(), at);
        let k = choose|k: int| 0 <= k < before.len() && before[k] == item;
        assert(all[k] == item);
    } else {
        assert(all[before.len() as int] == item);
    }
}

/// A lesson of a chapter is among the items of its kind there.
proof fn lemma_chapter_item(found: Seq<ChapterView>, chapter: int, at: int)
    requires
        0 <= chapter < found.len(),
        0 <= at < found[chapter].lessons.len(),
        found_item(found[chapter].lessons[at]) is Some,
    ensures
        ({
            let item = found_item(found[chapter].lessons[at])->0;
            chapter_items(found, found[chapter].slug, item.kind).contains(item)
        }),
    decreases found.len(),
{
    let item = found_item(found[chapter].lessons[at])->0;
    let slug = found[chapter].slug;
    let rest = found.drop_last();
    let before = chapter_items(rest, slug, item.kind);
    let all = chapter_items(found, slug, item.kind);
    if chapter < found.len() - 1 {
        assert(rest[chapter] == found[chapter]);
        lemma_chapter_item(rest, chapter, at);
        let k = choose|k: int| 0 <= k < before.len() && before[k] == item;
        assert(all[k] == item);
    } else {
        let here = items_of_kind(found.last().lessons, item.kind);
        lemma_item_of_kind(found.last().lessons, at);
        let k = choose|k: int| 0 <= k < here.len() && here[k] == item;
        assert(all[before.len() + k] == item);
    }
}

/// Every lesson that was found with an entry file is listed in the outline,
/// in the chapter of its directory and under its kind.
pub proof fn law_every_lesson_is_listed(
    found: Seq<ChapterView>,
    out: Seq<ChapterGroup>,
    chapter: int,
    at: int,
)
    requires
        is_outline(found, out),
        0 <= chapter < found.len(),
        0 <= at < found[chapter].lessons.len(),
        found_item(found[chapter].lessons[at]) is Some,
    ensures
        exists|g: int|
            0 <= g < out.len() && (#[trigger] out[g]).slug@ == found[chapter].slug && is_listed(
                out[g],
                found_item(found[chapter].lessons[at])->0,
            ),
{
    broadcast use vstd::seq_lib::group_to_multiset_ensures;

    let item = found_item(found[chapter].lessons[at])->0;
    let slug = found[chapter].slug;
    assert(found_slugs(found)[chapter] == slug);
    assert(found_slugs(found).contains(slug));
    assert(slugs_of(out).contains(slug));
    let g = choose|g: int| 0 <= g < slugs_of(out).len() && slugs_of(out)[g] == slug;
    let group = out[g];
    assert(is_chapter(found, out[g]));
    lemma_chapter_item(found, chapter, at);
    let items = chapter_items(found, slug, item.kind);
    law_sections_are_sorted(items);
    lemma_sorted_len(items);
    let sorted = sorted_by_id(items);
    assert(sorted.contains(item)) by {
        assert(items.to_multiset().count(item) > 0);
    }
    let e = section_of(found, slug, LessonKind::Example);
    let x = section_of(found, slug, LessonKind::Exercise);
    let h = section_of(found, slug, LessonKind::Homework);
    let k = match item.kind {
        LessonKind::Example => 0,
        LessonKind::Exercise => e.len(),
        LessonKind::Homework => e.len() + x.len(),
        LessonKind::Challenge => e.len() + x.len() + h.len(),
    } as int;
    assert(chapter_sections(found, slug)[k] == (item.kind, sorted));
    assert(0 <= k < section_views(group.sections@).len());
    assert(section_views(group.sections@)[k] == (item.kind, sorted));
    assert(group.sections@[k].kind == item.kind);
    assert(is_listed(group, item));
}

/// A lesson that is kept is among those that are kept.
proof fn lemma_lesson_is_kept(files: Seq<Option<ListedFile>>, at: int)
    requires
        0 <= at < files.len(),
        kept_lesson(files[at]) is Some,
    ensures
        kept_lessons(files).contains(kept_lesson(files[at])->0),
    decreases files.len(),
{
    let lesson = kept_lesson(files[at])->0;
    let rest = kept_lessons(files.skip(1));
    let all = kept_lessons(files);
    if at == 0 {
        assert(all[0] == lesson);
    } else {
        assert(files.skip(1)[at - 1] == files[at]);
        lemma_lesson_is_kept(files.skip(1), at - 1);
        let k = choose|k: int| 0 <= k < rest.len() && rest[k] == lesson;
        assert(all[k + all.len() - rest.len()] == lesson);
    }
}

/// A chapter that is kept is among those that are kept.
proof fn lemma_chapter_is_kept(entries: Seq<Option<ListedEntry>>, at: int)
    requires
        0 <= at < entries.len(),
        kept_chapter(entries[at]) is Some,
    ensures
        kept_chapters(entries).contains(kept_chapter(entries[at])->0),
    decreases entries.len(),
{
    let chapter = kept_chapter(entries[at])->0;
    let rest = kept_chapters(entries.skip(1));
    let all = kept_chapters(entries);
    if at == 0 {
        assert(all[0] == chapter);
    } else {
        assert(entries.skip(1)[at - 1] == entries[at]);
        lemma_chapter_is_kept(entries.skip(1), at - 1);
        let k = choose|k: int| 0 <= k < rest.len() && rest[k] == chapter;
        assert(all[k + all.len() - rest.len()] == chapter);
    }
}

/// Every description of a lesson with an entry file that lies in the directory
/// of lessons of a chapter is listed in the outline, in that chapter and under
/// the lesson's kind.
pub proof fn law_every_description_is_listed(
    entries: Seq<Option<ListedEntry>>,
    out: Seq<ChapterGroup>,
    chapter: int,
    at: int,
)
    requires
        is_outline(kept_chapters(entries), out),
        0 <= chapter < entries.len(),
        kept_chapter(entries[chapter]) is Some,
        0 <= at < entries[chapter]->0.files->0@.len(),
        kept_lesson(entries[chapter]->0.files->0@[at]) matches Some(lesson) && found_item(
            lesson,
        ) is Some,
    ensures
        exists|g: int|
            0 <= g < out.len() && (#[trigger] out[g]).slug@ == entries[chapter]->0.name->0@
                && is_listed(
                out[g],
                found_item(kept_lesson(entries[chapter]->0.files->0@[at])->0)->0,
            ),
{
    let found = kept_chapters(entries);
    let files = entries[chapter]->0.files->0@;
    let lesson = kept_lesson(files[at])->0;
    let kept = kept_chapter(entries[chapter])->0;
    lemma_chapter_is_kept(entries, chapter);
    lemma_lesson_is_kept(files, at);
    let c = choose|c: int| 0 <= c < found.len() && found[c] == kept;
    let l = choose|l: int| 0 <= l < kept.lessons.len() && kept.lessons[l] == lesson;
    law_every_lesson_is_listed(found, out, c, l);
}

/// Whether `b` holds what `a` holds, in another order perhaps.
pub open spec fn reordered<A>(a: Seq<A>, b: Seq<A>, same: spec_fn(A, A) -> bool) -> bool
    decreases a.len(),
{
    if a.len() == 0 {
        b.len() == 0
    } else {
        exists|j: int|
            0 <= j < b.len() && same(a[0], #[trigger] b[j]) && reordered(
                a.skip(1),
                b.remove(j),
                same,
            )
    }
}

/// Whether two listed files are the same.
pub open spec fn same_file(a: Option<ListedFile>, b: Option<ListedFile>) -> bool {
    match (a, b) {
        (Some(a), Some(b)) => opt_view(a.name) == opt_view(b.name) && a.lesson == b.lesson,
        (None, None) => true,
        _ => false,
    }
}

/// Whether two listed entries are the same, but for the order of the files in
/// them.
pub open spec fn same_entry(a: Option<ListedEntry>, b: Option<ListedEntry>) -> bool {
    match (a, b) {
        (Some(a), Some(b)) => {
            &&& opt_view(a.name) == opt_view(b.name)
            &&& a.is_dir == b.is_dir
            &&& match (a.files, b.files) {
                (Some(x), Some(y)) => reordered(
                    x@,
                    y@,
                    |f: Option<ListedFile>, g: Option<ListedFile>| same_file(f, g),
                ),
                (None, None) => true,
                _ => false,
            }
        },
        (None, None) => true,
        _ => false,
    }
}

/// Whether two listings are of the same tree: they differ in nothing but the
/// order of the entries, and of the files in them.
pub open spec fn same_tree(a: Seq<Option<ListedEntry>>, b: Seq<Option<ListedEntry>>) -> bool {
    reordered(a, b, |x: Option<ListedEntry>, y: Option<ListedEntry>| same_entry(x, y))
}

/// What the elements of a list give, all together.
spec fn total<A, B>(s: Seq<A>, give: spec_fn(A) -> Multiset<B>) -> Multiset<B>
    decreases s.len(),
{
    if s.len() == 0 {
        Multiset::empty()
    } else {
        give(s[0]).add(total(s.skip(1), give))
    }
}

/// An element can be taken out and counted apart.
proof fn lemma_total_remove<A, B>(s: Seq<A>, give: spec_fn(A) -> Multiset<B>, j: int)
    requires
        0 <= j < s.len(),
    ensures
        total(s, give) == give(s[j]).add(total(s.remove(j), give)),
    decreases s.len(),
{
    if j == 0 {
        assert(s.remove(0) =~= s.skip(1));
    } else {
        let rest = s.skip(1);
        lemma_total_remove(rest, give, j - 1);
        assert(s.remove(j)[0] == s[0]);
        assert(s.remove(j).skip(1) =~= rest.remove(j - 1));
        assert(total(s, give) =~= give(s[j]).add(total(s.remove(j), give)));
    }
}

/// The order makes no difference to what the elements give all together.
proof fn lemma_total_reordered<A, B>(
    a: Seq<A>,
    b: Seq<A>,
    same: spec_fn(A, A) -> bool,
    give: spec_fn(A) -> Multiset<B>,
)
    requires
        reordered(a, b, same),
        forall|x: A, y: A| #[trigger] same(x, y) ==> give(x) == give(y),
    ensures
        total(a, give) == total(b, give),
    decreases a.len(),
{
    if a.len() > 0 {
        let j = choose|j: int|
            0 <= j < b.len() && same(a[0], #[trigger] b[j]) && reordered(
                a.skip(1),
                b.remove(j),
                same,
            );
        lemma_total_reordered(a.skip(1), b.remove(j), same, give);
        lemma_total_remove(b, give, j);
    }
}

/// The items of one kind that a lesson gives.
spec fn lesson_gives(lesson: FoundLesson, kind: LessonKind) -> Seq<OutlineItem> {
    match found_item(lesson) {
        Some(item) => if item.kind == kind {
            seq![item]
        } else {
            seq![]
        },
        None => seq![],
    }
}

/// The items of one kind, from the front.
proof fn lemma_items_of_kind_front(lessons: Seq<FoundLesson>, kind: LessonKind)
    requires
        lessons.len() > 0,
    ensures
        items_of_kind(lessons, kind) == lesson_gives(lessons[0], kind) + items_of_kind(
            lessons.skip(1),
            kind,
        ),
    decreases lessons.len(),
{
    let rest = lessons.drop_last();
    if rest.len() == 0 {
        assert(items_of_kind(rest, kind) =~= seq![]);
        assert(lessons.skip(1) =~= rest);
        assert(items_of_kind(lessons, kind) =~= lesson_gives(lessons[0], kind));
    } else {
        lemma_items_of_kind_front(rest, kind);
        assert(rest.skip(1) =~= lessons.skip(1).drop_last());
        assert(lessons.skip(1).last() == lessons.last());
        assert(items_of_kind(lessons, kind) =~= lesson_gives(lessons[0], kind) + items_of_kind(
            lessons.skip(1),
            kind,
        ));
    }
}

/// The items of one kind that a file gives.
spec fn file_gives(kind: LessonKind) -> spec_fn(Option<ListedFile>) -> Multiset<OutlineItem> {
    |file: Option<ListedFile>|
        match kept_lesson(file) {
            Some(lesson) => lesson_gives(lesson, kind).to_multiset(),
            None => Multiset::empty(),
        }
}

/// The items of one kind among the lessons of a list of files.
proof fn lemma_files_give(files: Seq<Option<ListedFile>>, kind: LessonKind)
    ensures
        items_of_kind(kept_lessons(files), kind).to_multiset() == total(files, file_gives(kind)),
    decreases files.len(),
{
    broadcast use vstd::seq_lib::group_to_multiset_ensures;

    let lessons = kept_lessons(files);
    if files.len() == 0 {
        assert(items_of_kind(lessons, kind).to_multiset() =~= Multiset::empty());
    } else {
        lemma_files_give(files.skip(1), kind);
        let rest = kept_lessons(files.skip(1));
        match kept_lesson(files[0]) {
            Some(lesson) => {
                lemma_items_of_kind_front(lessons, kind);
                assert(lessons.skip(1) =~= rest);
                lemma_multiset_commutative(lesson_gives(lesson, kind), items_of_kind(rest, kind));
            },
            None => {
                assert(total(files, file_gives(kind)) =~= total(files.skip(1), file_gives(kind)));
            },
        }
    }
}

/// The items of one kind that a chapter gives to the chapter of that name.
spec fn chapter_gives(chapter: ChapterView, slug: Seq<char>, kind: LessonKind) -> Seq<OutlineItem> {
    if chapter.slug == slug {
        items_of_kind(chapter.lessons, kind)
    } else {
        seq![]
    }
}

/// The items of a chapter, from the front.
proof fn lemma_chapter_items_front(found: Seq<ChapterView>, slug: Seq<char>, kind: LessonKind)
    requires
        found.len() > 0,
    ensures
        chapter_items(found, slug, kind) == chapter_gives(found[0], slug, kind) + chapter_items(
            found.skip(1),
            slug,
            kind,
        ),
    decreases found.len(),
{
    let rest = found.drop_last();
    if rest.len() == 0 {
        assert(chapter_items(rest, slug, kind) =~= seq![]);
        assert(found.skip(1) =~= rest);
    } else {
        lemma_chapter_items_front(rest, slug, kind);
        assert(rest.skip(1) =~= found.skip(1).drop_last());
        assert(found.skip(1).last() == found.last());
    }
    assert(chapter_items(found, slug, kind) =~= chapter_gives(found[0], slug, kind)
        + chapter_items(found.skip(1), slug, kind));
}

/// The items of one kind that an entry gives to the chapter of that name.
spec fn entry_gives(slug: Seq<char>, kind: LessonKind) -> spec_fn(Option<ListedEntry>) -> Multiset<
    OutlineItem,
> {
    |entry: Option<ListedEntry>|
        match kept_chapter(entry) {
            Some(chapter) => chapter_gives(chapter, slug, kind).to_multiset(),
            None => Multiset::empty(),
        }
}

/// The items of one kind in the chapter of that name, by the entries.
proof fn lemma_entries_give(
    entries: Seq<Option<ListedEntry>>,
    slug: Seq<char>,
    kind: LessonKind,
)
    ensures
        chapter_items(kept_chapters(entries), slug, kind).to_multiset() == total(
            entries,
            entry_gives(slug, kind),
        ),
    decreases entries.len(),
{
    broadcast use vstd::seq_lib::group_to_multiset_ensures;

    let found = kept_chapters(entries);
    let give = entry_gives(slug, kind);
    if entries.len() == 0 {
        assert(chapter_items(found, slug, kind).to_multiset() =~= Multiset::empty());
    } else {
        lemma_entries_give(entries.skip(1), slug, kind);
        let rest = kept_chapters(entries.skip(1));
        match kept_chapter(entries[0]) {
            Some(chapter) => {
                lemma_chapter_items_front(found, slug, kind);
                assert(found.skip(1) =~= rest);
                lemma_multiset_commutative(
                    chapter_gives(chapter, slug, kind),
                    chapter_items(rest, slug, kind),
                );
            },
            None => {
                assert(total(entries, give) =~= total(entries.skip(1), give));
            },
        }
    }
}

/// The name that an entry gives.
spec fn entry_name() -> spec_fn(Option<ListedEntry>) -> Multiset<Seq<char>> {
    |entry: Option<ListedEntry>|
        match kept_chapter(entry) {
            Some(chapter) => Multiset::singleton(chapter.slug),
            None => Multiset::empty(),
        }
}

/// The names of the chapters, by the entries.
proof fn lemma_entries_name(entries: Seq<Option<ListedEntry>>)
    ensures
        found_slugs(kept_chapters(entries)).to_multiset() == total(entries, entry_name()),
    decreases entries.len(),
{
    broadcast use vstd::seq_lib::group_to_multiset_ensures;

    let slugs = found_slugs(kept_chapters(entries));
    if entries.len() == 0 {
        assert(slugs.to_multiset() =~= Multiset::empty());
    } else {
        lemma_entries_name(entries.skip(1));
        let rest = found_slugs(kept_chapters(entries.skip(1)));
        match kept_chapter(entries[0]) {
            Some(chapter) => {
                let one = seq![chapter.slug];
                assert(slugs =~= one + rest);
                lemma_multiset_commutative(one, rest);
                assert(one =~= Seq::<Seq<char>>::empty().push(chapter.slug));
                assert(Seq::<Seq<char>>::empty().to_multiset() =~= Multiset::empty());
                assert(one.to_multiset() =~= Multiset::singleton(chapter.slug));
            },
            None => {
                assert(total(entries, entry_name()) =~= total(entries.skip(1), entry_name()));
            },
        }
    }
}

/// Entries that are the same but for the order of their files give the same.
proof fn lemma_same_entry(
    a: Option<ListedEntry>,
    b: Option<ListedEntry>,
    slug: Seq<char>,
    kind: LessonKind,
)
    requires
        same_entry(a, b),
    ensures
        entry_gives(slug, kind)(a) == entry_gives(slug, kind)(b),
        entry_name()(a) == entry_name()(b),
{
    if kept_chapter(a) is Some {
        let x = a->0.files->0@;
        let y = b->0.files->0@;
        let same = |f: Option<ListedFile>, g: Option<ListedFile>| same_file(f, g);
        let give = file_gives(kind);
        assert forall|f: Option<ListedFile>, g: Option<ListedFile>| #[trigger]
            same(f, g) implies give(f) == give(g) by {
            assert(kept_lesson(f) == kept_lesson(g));
        }
        lemma_total_reordered(x, y, same, give);
        lemma_files_give(x, kind);
        lemma_files_give(y, kind);
    }
}

/// Listings of the same tree have the same chapters with the same items.
proof fn lemma_same_tree(
    a: Seq<Option<ListedEntry>>,
    b: Seq<Option<ListedEntry>>,
    slug: Seq<char>,
    kind: LessonKind,
)
    requires
        same_tree(a, b),
    ensures
        chapter_items(kept_chapters(a), slug, kind).to_multiset() == chapter_items(
            kept_chapters(b),
            slug,
            kind,
        ).to_multiset(),
        found_slugs(kept_chapters(a)).contains(slug) <==> found_slugs(kept_chapters(b)).contains(
            slug,
        ),
{
    broadcast use vstd::seq_lib::group_to_multiset_ensures;

    let same = |x: Option<ListedEntry>, y: Option<ListedEntry>| same_entry(x, y);
    assert forall|x: Option<ListedEntry>, y: Option<ListedEntry>| #[trigger]
        same(x, y) implies entry_gives(slug, kind)(x) == entry_gives(slug, kind)(y)
        && entry_name()(x) == entry_name()(y) by {
        lemma_same_entry(x, y, slug, kind);
    }
    lemma_total_reordered(a, b, same, entry_gives(slug, kind));
    lemma_total_reordered(a, b, same, entry_name());
    lemma_entries_give(a, slug, kind);
    lemma_entries_give(b, slug, kind);
    lemma_entries_name(a);
    lemma_entries_name(b);
    let names_a = found_slugs(kept_chapters(a));
    let names_b = found_slugs(kept_chapters(b));
    assert(names_a.contains(slug) <==> names_a.to_multiset().count(slug) > 0);
    assert(names_b.contains(slug) <==> names_b.to_multiset().count(slug) > 0);
}

/// Two lists of names in order that hold the same names are equal.
proof fn lemma_names_are_unique(a: Seq<Seq<char>>, b: Seq<Seq<char>>)
    requires
        in_order(a),
        in_order(b),
        same_names(a, b),
    ensures
        a == b,
    decreases a.len(),
{
    if a.len() == 0 {
        if b.len() > 0 {
            assert(b.contains(b[0]));
            assert(a.contains(b[0]));
        }
        assert(a =~= b);
    } else {
        let x = a.last();
        assert(a.contains(a[a.len() - 1]));
        assert(b.contains(x));
        let k = choose|k: int| 0 <= k < b.len() && b[k] == x;
        let y = b.last();
        assert(b.contains(b[b.len() - 1]));
        assert(a.contains(y));
        let m = choose|m: int| 0 <= m < a.len() && a[m] == y;
        if x != y {
            law_precedes_total(x, y);
            assert(precedes(b[k], b[b.len() - 1]));
            assert(precedes(a[m], a[a.len() - 1]));
        }
        let ra = a.drop_last();
        let rb = b.drop_last();
        assert(a =~= ra.push(x) && b =~= rb.push(x));
        assert forall|i: int, j: int| 0 <= i < j < ra.len() implies precedes(
            #[trigger] ra[i],
            #[trigger] ra[j],
        ) by {
            assert(ra[i] == a[i] && ra[j] == a[j]);
        }
        assert forall|i: int, j: int| 0 <= i < j < rb.len() implies precedes(
            #[trigger] rb[i],
            #[trigger] rb[j],
        ) by {
            assert(rb[i] == b[i] && rb[j] == b[j]);
        }
        lemma_push_name(ra, x);
        lemma_push_name(rb, x);
        lemma_last_is_new(a);
        lemma_last_is_new(b);
        assert forall|s: Seq<char>| #[trigger] ra.contains(s) <==> rb.contains(s) by {
            assert(a.contains(s) <==> b.contains(s));
            assert(ra.push(x).contains(s) <==> ra.contains(s) || s == x);
            assert(rb.push(x).contains(s) <==> rb.contains(s) || s == x);
        }
        lemma_names_are_unique(ra, rb);
    }
}

/// The last of a list of names in order does not occur before.
proof fn lemma_last_is_new(a: Seq<Seq<char>>)
    requires
        in_order(a),
        a.len() > 0,
    ensures
        !a.drop_last().contains(a.last()),
{
    if a.drop_last().contains(a.last()) {
        let k = choose|k: int| 0 <= k < a.len() - 1 && a.drop_last()[k] == a.last();
        assert(precedes(a[k], a[a.len() - 1]));
        law_precedes_total(a.last(), a.last());
    }
}

/// Whether no two items of a list have the same id.
pub open spec fn distinct_ids(items: Seq<OutlineItem>) -> bool {
    forall|i: int, j: int|
        0 <= i < items.len() && 0 <= j < items.len() && (#[trigger] items[i]).id@ == (
        #[trigger] items[j]).id@ ==> i == j
}

/// Whether no two lessons of one kind in one chapter have the same id.
pub open spec fn ids_differ(entries: Seq<Option<ListedEntry>>) -> bool {
    forall|slug: Seq<char>, kind: LessonKind|
        distinct_ids(#[trigger] chapter_items(kept_chapters(entries), slug, kind))
}

/// A chapter of an outline as it is shown: its name, its title and its
/// sections.
pub ghost struct GroupView {
    pub slug: Seq<char>,
    pub display: Seq<char>,
    pub sections: Seq<(LessonKind, Seq<OutlineItem>)>,
}

impl View for ChapterGroup {
    type V = GroupView;

    open spec fn view(&self) -> GroupView {
        GroupView {
            slug: self.slug@,
            display: self.display@,
            sections: section_views(self.sections@),
        }
    }
}

/// An outline as it is shown.
pub open spec fn outline_view(out: Seq<ChapterGroup>) -> Seq<GroupView> {
    Seq::new(out.len(), |i: int| out[i]@)
}

/// The order in which the directories happen to be listed makes no difference
/// to the outline, as long as the lessons of one kind in one chapter have
/// different ids.
pub proof fn law_outline_is_deterministic(
    a: Seq<Option<ListedEntry>>,
    b: Seq<Option<ListedEntry>>,
    out_a: Seq<ChapterGroup>,
    out_b: Seq<ChapterGroup>,
)
    requires
        same_tree(a, b),
        ids_differ(a),
        is_outline(kept_chapters(a), out_a),
        is_outline(kept_chapters(b), out_b),
    ensures
        outline_view(out_a) == outline_view(out_b),
{
    let fa = kept_chapters(a);
    let fb = kept_chapters(b);
    assert forall|s: Seq<char>| #[trigger] slugs_of(out_a).contains(s) <==> slugs_of(
        out_b,
    ).contains(s) by {
        lemma_same_tree(a, b, s, LessonKind::Example);
        assert(slugs_of(out_a).contains(s) <==> found_slugs(fa).contains(s));
        assert(slugs_of(out_b).contains(s) <==> found_slugs(fb).contains(s));
    }
    lemma_names_are_unique(slugs_of(out_a), slugs_of(out_b));
    assert(out_a.len() == slugs_of(out_a).len());
    assert(out_b.len() == slugs_of(out_b).len());
    assert forall|i: int| 0 <= i < out_a.len() implies out_a[i]@ == out_b[i]@ by {
        let slug = out_a[i].slug@;
        assert(slugs_of(out_a)[i] == slug && slugs_of(out_b)[i] == out_b[i].slug@);
        assert(is_chapter(fa, out_a[i]) && is_chapter(fb, out_b[i]));
        lemma_same_section(a, b, slug, LessonKind::Example);
        lemma_same_section(a, b, slug, LessonKind::Exercise);
        lemma_same_section(a, b, slug, LessonKind::Homework);
        lemma_same_section(a, b, slug, LessonKind::Challenge);
    }
    assert(outline_view(out_a) =~= outline_view(out_b));
}

/// Listings of the same tree have the same sections.
proof fn lemma_same_section(
    a: Seq<Option<ListedEntry>>,
    b: Seq<Option<ListedEntry>>,
    slug: Seq<char>,
    kind: LessonKind,
)
    requires
        same_tree(a, b),
        ids_differ(a),
    ensures
        section_of(kept_chapters(a), slug, kind) == section_of(kept_chapters(b), slug, kind),
{
    broadcast use vstd::seq_lib::group_to_multiset_ensures;

    lemma_same_tree(a, b, slug, kind);
    let x = chapter_items(kept_chapters(a), slug, kind);
    let y = chapter_items(kept_chapters(b), slug, kind);
    assert(x.to_multiset().len() == x.len());
    assert(y.to_multiset().len() == y.len());
    assert(distinct_ids(x));
    law_order_is_deterministic(x, y);
}

/// Whether a text is a word that a chapter's name can be made of.
pub open spec fn is_slug_word(word: Seq<char>) -> bool {
    &&& word.len() > 0
    &&& forall|i: int| 0 <= i < word.len() ==> !is_white(#[trigger] word[i]) && word[i] != '-'
}

/// Words that are put together with dashes come apart again.
proof fn lemma_slug_words(list: Seq<Seq<char>>)
    requires
        forall|i: int| 0 <= i < list.len() ==> is_slug_word(#[trigger] list[i]),
    ensures
        words(dashes_to_spaces(joined(list, "-"@))) == list,
    decreases list.len(),
{
    reveal_strlit("-");
    if list.len() == 0 {
        assert(dashes_to_spaces(joined(list, "-"@)) =~= Seq::<char>::empty());
        assert(words(dashes_to_spaces(joined(list, "-"@))) =~= list);
    } else {
        let rest = list.drop_last();
        let last = list.last();
        assert(is_slug_word(list[list.len() - 1]));
        assert(dashes_to_spaces(last) =~= last) by {
            assert forall|i: int| 0 <= i < last.len() implies undashed(
                #[trigger] last[i],
            ) == last[i] by {}
        }
        if list.len() == 1 {
            lemma_words_of_word(last);
            assert(list =~= seq![last]);
        } else {
            assert forall|i: int| 0 <= i < rest.len() implies is_slug_word(#[trigger] rest[i]) by {
                assert(rest[i] == list[i]);
            }
            lemma_slug_words(rest);
            assert(dashes_to_spaces(joined(list, "-"@)) =~= dashes_to_spaces(joined(rest, "-"@))
                + seq![' '] + last);
            lemma_words_push(dashes_to_spaces(joined(rest, "-"@)), ' ', last);
            assert(rest.push(last) =~= list);
        }
    }
}

/// What starts neither with a digit nor with a dash is what is left behind a
/// number.
proof fn lemma_after_number(number: Seq<char>, rest: Seq<char>)
    requires
        forall|i: int|
            0 <= i < number.len() ==> is_digit(#[trigger] number[i]) || number[i] == '-',
        rest.len() > 0 ==> !is_digit(rest[0]) && rest[0] != '-',
    ensures
        after_number(number + rest) == rest,
    decreases number.len(),
{
    if number.len() == 0 {
        assert(number + rest =~= rest);
    } else {
        assert((number + rest).skip(1) =~= number.skip(1) + rest);
        assert(is_digit(number[0]) || number[0] == '-');
        lemma_after_number(number.skip(1), rest);
    }
}

/// A joined list starts with its first word.
proof fn lemma_joined_first(list: Seq<Seq<char>>, separator: Seq<char>)
    requires
        list.len() > 0,
        list[0].len() > 0,
    ensures
        joined(list, separator).len() > 0,
        joined(list, separator)[0] == list[0][0],
    decreases list.len(),
{
    if list.len() > 1 {
        lemma_joined_first(list.drop_last(), separator);
    }
}

/// A directory named by a number and words with dashes between them gives the
/// title made of those words, each with its first letter in upper case.
pub proof fn law_title_of_slug(number: Seq<char>, list: Seq<Seq<char>>)
    requires
        forall|i: int|
            0 <= i < number.len() ==> is_digit(#[trigger] number[i]) || number[i] == '-',
        forall|i: int| 0 <= i < list.len() ==> is_slug_word(#[trigger] list[i]),
        list.len() > 0 ==> !is_digit(list[0][0]),
    ensures
        title_cased(number + joined(list, "-"@)) == joined(capitals(list), " "@),
{
    if list.len() > 0 {
        assert(is_slug_word(list[0]));
        lemma_joined_first(list, "-"@);
        assert(list[0][0] != '-');
    }
    lemma_after_number(number, joined(list, "-"@));
    lemma_slug_words(list);
}

/// Whether a lesson stands in the outline among those of a kind: its description
/// names an entry file, and it is of that kind; one that says no kind is an
/// exercise.
pub open spec fn belongs(found: FoundLesson, kind: LessonKind) -> bool {
    &&& found.lesson.entry is Some
    &&& found.entry_path is Some
    &&& match found.lesson.kind {
        Some(own) => own == kind,
        None => kind is Exercise,
    }
}

/// A lesson as it stands in the outline among those of a kind.
pub open spec fn placed(found: FoundLesson, kind: LessonKind) -> OutlineItem {
    OutlineItem {
        id: found.lesson.id,
        title: found.lesson.title,
        kind,
        no_paste: found.lesson.no_paste,
        entry_path: found.entry_path->0,
    }
}

/// A lesson has a place in the outline exactly where its description names an
/// entry file, whatever its kind, and it stands there with its own id, title,
/// kind, entry file and word on pasting.
pub proof fn law_entry_files_make_items(found: FoundLesson)
    ensures
        found_item(found) is Some <==> found.lesson.entry is Some && found.entry_path is Some,
        found_item(found) matches Some(item) ==> {
            &&& item.id == found.lesson.id
            &&& item.title == found.lesson.title
            &&& item.no_paste == found.lesson.no_paste
            &&& item.entry_path == found.entry_path->0
            &&& found.lesson.kind is Some ==> item.kind == found.lesson.kind->0
            &&& found.lesson.kind is None ==> item.kind == LessonKind::Exercise
        },
{
}

/// The items of a kind among lessons are those lessons that belong there.
proof fn lemma_items_are_placed(lessons: Seq<FoundLesson>, kind: LessonKind)
    ensures
        items_of_kind(lessons, kind) == lessons.filter(
            |l: FoundLesson| belongs(l, kind),
        ).map_values(|l: FoundLesson| placed(l, kind)),
    decreases lessons.len(),
{
    reveal(Seq::filter);
    let keep = |l: FoundLesson| belongs(l, kind);
    let put = |l: FoundLesson| placed(l, kind);
    if lessons.len() > 0 {
        lemma_items_are_placed(lessons.drop_last(), kind);
        law_entry_files_make_items(lessons.last());
        let before = lessons.drop_last().filter(keep);
        assert(items_of_kind(lessons.drop_last(), kind) == before.map_values(put));
        if belongs(lessons.last(), kind) {
            assert(found_item(lessons.last()) == Some(placed(lessons.last(), kind)));
            assert(before.push(lessons.last()).map_values(put) =~= before.map_values(put).push(
                placed(lessons.last(), kind),
            ));
        }
    }
    assert(items_of_kind(lessons, kind) =~= lessons.filter(keep).map_values(put));
}

/// The items of a chapter that one directory alone has the name of.
proof fn lemma_one_directory(found: Seq<ChapterView>, slug: Seq<char>, kind: LessonKind, c: int)
    requires
        0 <= c < found.len(),
        found[c].slug == slug,
        forall|d: int| 0 <= d < found.len() && d != c ==> (#[trigger] found[d]).slug != slug,
    ensures
        chapter_items(found, slug, kind) == items_of_kind(found[c].lessons, kind),
    decreases found.len(),
{
    let rest = found.drop_last();
    let last = found.len() - 1;
    assert forall|d: int| 0 <= d < rest.len() implies #[trigger] rest[d] == found[d] by {}
    if c == last {
        lemma_no_directory(rest, slug, kind);
        assert(chapter_items(found, slug, kind) =~= items_of_kind(found[c].lessons, kind));
    } else {
        assert(found[last].slug != slug);
        lemma_one_directory(rest, slug, kind, c);
    }
}

/// No directory of a name, no items.
proof fn lemma_no_directory(found: Seq<ChapterView>, slug: Seq<char>, kind: LessonKind)
    requires
        forall|d: int| 0 <= d < found.len() ==> (#[trigger] found[d]).slug != slug,
    ensures
        chapter_items(found, slug, kind).len() == 0,
    decreases found.len(),
{
    if found.len() > 0 {
        let rest = found.drop_last();
        assert forall|d: int| 0 <= d < rest.len() implies (#[trigger] rest[d]).slug != slug by {
            assert(rest[d] == found[d]);
        }
        assert(found[found.len() - 1].slug != slug);
        lemma_no_directory(rest, slug, kind);
    }
}

/// The order of the kinds.
pub open spec fn rank(kind: LessonKind) -> int {
    match kind {
        LessonKind::Example => 0,
        LessonKind::Exercise => 1,
        LessonKind::Homework => 2,
        LessonKind::Challenge => 3,
    }
}

/// The sections of a chapter: one for each kind that has any lessons, in the
/// order of the kinds.
proof fn lemma_sections(found: Seq<ChapterView>, slug: Seq<char>)
    ensures
        ({
            let all = chapter_sections(found, slug);
            &&& forall|k: int|
                0 <= k < all.len() ==> (#[trigger] all[k]).1 == sorted_by_id(
                    chapter_items(found, slug, all[k].0),
                ) && chapter_items(found, slug, all[k].0).len() > 0
            &&& forall|kind: LessonKind|
                (#[trigger] chapter_items(found, slug, kind)).len() > 0 ==> exists|k: int|
                    0 <= k < all.len() && (#[trigger] all[k]).0 == kind
            &&& forall|i: int, j: int|
                0 <= i < j < all.len() ==> rank((#[trigger] all[i]).0) < rank(
                    (#[trigger] all[j]).0,
                )
        }),
{
    let all = chapter_sections(found, slug);
    let e = section_of(found, slug, LessonKind::Example);
    let x = section_of(found, slug, LessonKind::Exercise);
    let h = section_of(found, slug, LessonKind::Homework);
    let c = section_of(found, slug, LessonKind::Challenge);
    assert(e.len() <= 1 && x.len() <= 1 && h.len() <= 1 && c.len() <= 1);
    assert(all =~= e + x + h + c);
    let a = e.len() as int;
    let b = a + x.len();
    let d = b + h.len();
    assert(forall|k: int| 0 <= k < a ==> #[trigger] all[k] == e[k]);
    assert(forall|k: int| a <= k < b ==> #[trigger] all[k] == x[k - a]);
    assert(forall|k: int| b <= k < d ==> #[trigger] all[k] == h[k - b]);
    assert(forall|k: int| d <= k < all.len() ==> #[trigger] all[k] == c[k - d]);
    assert forall|kind: LessonKind|
        (#[trigger] chapter_items(found, slug, kind)).len() > 0 implies exists|k: int|
        0 <= k < all.len() && (#[trigger] all[k]).0 == kind by {
        let at = match kind {
            LessonKind::Example => 0,
            LessonKind::Exercise => a,
            LessonKind::Homework => b,
            LessonKind::Challenge => d,
        };
        assert(all[at].0 == kind);
    }
}

/// A chapter has a section for a kind exactly where its directory has lessons of
/// that kind whose descriptions name an entry file, and the section holds each
/// of these once and nothing else, in the order of their ids.
pub proof fn law_sections_hold_their_lessons(
    found: Seq<ChapterView>,
    out: Seq<ChapterGroup>,
    c: int,
    g: int,
    kind: LessonKind,
)
    requires
        is_outline(found, out),
        0 <= c < found.len(),
        forall|d: int|
            0 <= d < found.len() && d != c ==> (#[trigger] found[d]).slug != found[c].slug,
        0 <= g < out.len(),
        out[g].slug@ == found[c].slug,
    ensures
        ({
            let wanted = found[c].lessons.filter(|l: FoundLesson| belongs(l, kind)).map_values(
                |l: FoundLesson| placed(l, kind),
            );
            let sections = out[g].sections@;
            if wanted.len() == 0 {
                forall|k: int| 0 <= k < sections.len() ==> (#[trigger] sections[k]).kind != kind
            } else {
                exists|k: int|
                    {
                        &&& 0 <= k < sections.len()
                        &&& (#[trigger] sections[k]).kind == kind
                        &&& sections[k].items@.to_multiset() == wanted.to_multiset()
                        &&& ids_in_order(sections[k].items@)
                    }
            }
        }),
{
    let slug = found[c].slug;
    let sections = out[g].sections@;
    let wanted = found[c].lessons.filter(|l: FoundLesson| belongs(l, kind)).map_values(
        |l: FoundLesson| placed(l, kind),
    );
    assert(is_chapter(found, out[g]));
    let all = chapter_sections(found, slug);
    assert(section_views(sections) == all);
    lemma_one_directory(found, slug, kind, c);
    lemma_items_are_placed(found[c].lessons, kind);
    lemma_sections(found, slug);
    let items = chapter_items(found, slug, kind);
    assert(items == wanted);
    assert forall|k: int| 0 <= k < sections.len() implies (#[trigger] sections[k]).kind == all[k].0
        && sections[k].items@ == all[k].1 by {
        assert(section_views(sections)[k] == (sections[k].kind, sections[k].items@));
    }
    if items.len() > 0 {
        let k = choose|k: int| 0 <= k < all.len() && (#[trigger] all[k]).0 == kind;
        assert(all.len() == sections.len());
        assert(sections[k].kind == kind);
        assert(sections[k].items@ == sorted_by_id(items));
        law_sections_are_sorted(items);
    }
}

/// The sections of a chapter stand in the order of the kinds: examples,
/// exercises, homework, challenges. No kind comes twice and no section is empty,
/// and what stands in a section is of its kind.
pub proof fn law_kinds_stand_in_order(found: Seq<ChapterView>, out: Seq<ChapterGroup>, g: int)
    requires
        is_outline(found, out),
        0 <= g < out.len(),
    ensures
        ({
            let sections = out[g].sections@;
            &&& forall|i: int, j: int|
                0 <= i < j < sections.len() ==> rank((#[trigger] sections[i]).kind) < rank(
                    (#[trigger] sections[j]).kind,
                )
            &&& forall|k: int| 0 <= k < sections.len() ==> (#[trigger] sections[k]).items@.len() > 0
            &&& forall|k: int, i: int|
                0 <= k < sections.len() && 0 <= i < sections[k].items@.len() ==> (
                #[trigger] sections[k].items@[i]).kind == sections[k].kind
        }),
{
    let slug = out[g].slug@;
    let sections = out[g].sections@;
    let all = chapter_sections(found, slug);
    assert(is_chapter(found, out[g]));
    lemma_sections(found, slug);
    assert(section_views(sections) == all);
    assert forall|k: int| 0 <= k < sections.len() implies (#[trigger] sections[k]).kind == all[k].0
        && sections[k].items@ == all[k].1 by {
        assert(section_views(sections)[k] == (sections[k].kind, sections[k].items@));
    }
    assert forall|k: int| 0 <= k < sections.len() implies (
    #[trigger] sections[k]).items@.len() > 0 by {
        lemma_sorted_len(chapter_items(found, slug, all[k].0));
    }
    assert forall|k: int, i: int|
        0 <= k < sections.len() && 0 <= i < sections[k].items@.len() implies (
    #[trigger] sections[k].items@[i]).kind == sections[k].kind by {
        lemma_item_has_source(found, slug, all[k].0, sections[k].items@[i]);
    }
}

/// What stands in a section comes from a lesson of a directory of that name.
proof fn lemma_item_has_source(
    found: Seq<ChapterView>,
    slug: Seq<char>,
    kind: LessonKind,
    item: OutlineItem,
)
    requires
        sorted_by_id(chapter_items(found, slug, kind)).contains(item),
    ensures
        item.kind == kind,
        exists|c: int, at: int|
            {
                &&& 0 <= c < found.len()
                &&& 0 <= at < found[c].lessons.len()
                &&& found[c].slug == slug
                &&& found_item(#[trigger] found[c].lessons[at]) == Some(item)
            },
{
    broadcast use vstd::seq_lib::group_to_multiset_ensures;

    let items = chapter_items(found, slug, kind);
    law_sections_are_sorted(items);
    assert(sorted_by_id(items).to_multiset().count(item) > 0);
    assert(items.contains(item));
    lemma_chapter_item_has_source(found, slug, kind, item);
}

/// An item of a chapter comes from a lesson of a directory of that name.
proof fn lemma_chapter_item_has_source(
    found: Seq<ChapterView>,
    slug: Seq<char>,
    kind: LessonKind,
    item: OutlineItem,
)
    requires
        chapter_items(found, slug, kind).contains(item),
    ensures
        item.kind == kind,
        exists|c: int, at: int|
            {
                &&& 0 <= c < found.len()
                &&& 0 <= at < found[c].lessons.len()
                &&& found[c].slug == slug
                &&& found_item(#[trigger] found[c].lessons[at]) == Some(item)
            },
    decreases found.len(),
{
    let rest = found.drop_last();
    let last = found.len() - 1;
    let before = chapter_items(rest, slug, kind);
    let all = chapter_items(found, slug, kind);
    let k = choose|k: int| 0 <= k < all.len() && all[k] == item;
    if k < before.len() {
        assert(before[k] == item);
        assert(before.contains(item));
        lemma_chapter_item_has_source(rest, slug, kind, item);
        let (c, at) = choose|c: int, at: int|
            {
                &&& 0 <= c < rest.len()
                &&& 0 <= at < rest[c].lessons.len()
                &&& rest[c].slug == slug
                &&& found_item(#[trigger] rest[c].lessons[at]) == Some(item)
            };
        assert(rest[c] == found[c]);
        assert(found_item(found[c].lessons[at]) == Some(item));
    } else {
        let here = items_of_kind(found.last().lessons, kind);
        assert(here[k - before.len()] == item);
        assert(here.contains(item));
        lemma_kind_item_has_source(found.last().lessons, kind, item);
        let at = choose|at: int|
            0 <= at < found.last().lessons.len() && found_item(
                #[trigger] found.last().lessons[at],
            ) == Some(item);
        assert(found_item(found[last].lessons[at]) == Some(item));
    }
}

/// An item of a kind comes from a lesson.
proof fn lemma_kind_item_has_source(lessons: Seq<FoundLesson>, kind: LessonKind, item: OutlineItem)
    requires
        items_of_kind(lessons, kind).contains(item),
    ensures
        item.kind == kind,
        exists|at: int|
            0 <= at < lessons.len() && found_item(#[trigger] lessons[at]) == Some(item),
    decreases lessons.len(),
{
    let rest = lessons.drop_last();
    let before = items_of_kind(rest, kind);
    let all = items_of_kind(lessons, kind);
    let k = choose|k: int| 0 <= k < all.len() && all[k] == item;
    if k < before.len() {
        assert(before[k] == item);
        assert(before.contains(item));
        lemma_kind_item_has_source(rest, kind, item);
        let at = choose|at: int|
            0 <= at < rest.len() && found_item(#[trigger] rest[at]) == Some(item);
        assert(rest[at] == lessons[at]);
    } else {
        assert(found_item(lessons[lessons.len() - 1]) == Some(item));
    }
}

/// Whether a place is one of an outline: a chapter, a section of it, and a lesson
/// in that.
pub open spec fn is_place(out: Seq<ChapterGroup>, g: int, k: int, i: int) -> bool {
    &&& 0 <= g < out.len()
    &&& 0 <= k < out[g].sections@.len()
    &&& 0 <= i < out[g].sections@[k].items@.len()
}

/// Whether an item is a found lesson as the outline shows it: the description
/// names an entry file, and all that is shown is the lesson's own.
pub open spec fn shows(item: OutlineItem, found: FoundLesson) -> bool {
    &&& found.lesson.entry is Some
    &&& found.entry_path == Some(item.entry_path)
    &&& item.id@ == found.lesson.id@
    &&& item.title@ == found.lesson.title@
    &&& item.no_paste == found.lesson.no_paste
    &&& match found.lesson.kind {
        Some(kind) => item.kind == kind,
        None => item.kind == LessonKind::Exercise,
    }
}

/// Every lesson that was found and whose description names an entry file is
/// listed, whatever its kind: in the chapter of its directory, in the section of
/// its own kind, with its own id, title, entry file and word on pasting.
pub proof fn law_every_found_lesson_has_a_place(
    found: Seq<ChapterView>,
    out: Seq<ChapterGroup>,
    c: int,
    at: int,
)
    requires
        is_outline(found, out),
        0 <= c < found.len(),
        0 <= at < found[c].lessons.len(),
        found[c].lessons[at].lesson.entry is Some,
        found[c].lessons[at].entry_path is Some,
    ensures
        exists|g: int, k: int, i: int|
            {
                &&& #[trigger] is_place(out, g, k, i)
                &&& out[g].slug@ == found[c].slug
                &&& shows(out[g].sections@[k].items@[i], found[c].lessons[at])
                &&& out[g].sections@[k].kind == out[g].sections@[k].items@[i].kind
            },
{
    let lesson = found[c].lessons[at];
    law_entry_files_make_items(lesson);
    law_every_lesson_is_listed(found, out, c, at);
    let item = found_item(lesson)->0;
    let g = choose|g: int|
        0 <= g < out.len() && (#[trigger] out[g]).slug@ == found[c].slug && is_listed(out[g], item);
    let k = choose|k: int|
        0 <= k < out[g].sections@.len() && (#[trigger] out[g].sections@[k]).kind == item.kind
            && out[g].sections@[k].items@.contains(item);
    let items = out[g].sections@[k].items@;
    let i = choose|i: int| 0 <= i < items.len() && items[i] == item;
    assert(is_place(out, g, k, i));
    assert(shows(out[g].sections@[k].items@[i], lesson));
}

/// Nothing is listed that was not found: whatever stands at a place of the
/// outline is a lesson of a directory with the name of that chapter, as its
/// description gives it, and of the kind of that section.
pub proof fn law_every_place_has_a_lesson(
    found: Seq<ChapterView>,
    out: Seq<ChapterGroup>,
    g: int,
    k: int,
    i: int,
)
    requires
        is_outline(found, out),
        is_place(out, g, k, i),
    ensures
        out[g].sections@[k].items@[i].kind == out[g].sections@[k].kind,
        exists|c: int, at: int|
            {
                &&& 0 <= c < found.len()
                &&& 0 <= at < found[c].lessons.len()
                &&& found[c].slug == out[g].slug@
                &&& shows(out[g].sections@[k].items@[i], #[trigger] found[c].lessons[at])
            },
{
    let slug = out[g].slug@;
    let sections = out[g].sections@;
    let item = sections[k].items@[i];
    let all = chapter_sections(found, slug);
    assert(is_chapter(found, out[g]));
    lemma_sections(found, slug);
    assert(section_views(sections)[k] == (sections[k].kind, sections[k].items@));
    assert(all[k].1 == sections[k].items@);
    assert(sorted_by_id(chapter_items(found, slug, all[k].0)).contains(item));
    lemma_item_has_source(found, slug, all[k].0, item);
    let (c, at) = choose|c: int, at: int|
        {
            &&& 0 <= c < found.len()
            &&& 0 <= at < found[c].lessons.len()
            &&& found[c].slug == slug
            &&& found_item(#[trigger] found[c].lessons[at]) == Some(item)
        };
    law_entry_files_make_items(found[c].lessons[at]);
    assert(shows(item, found[c].lessons[at]));
}

/// The chapters of an outline are the directories that were found, each name
/// once, in the order of the names, and shown by the title of its name.
pub proof fn law_chapters_are_the_directories(
    found: Seq<ChapterView>,
    out: Seq<ChapterGroup>,
    g: int,
    c: int,
)
    requires
        is_outline(found, out),
    ensures
        forall|a: int, b: int|
            0 <= a < b < out.len() ==> precedes(
                (#[trigger] out[a]).slug@,
                (#[trigger] out[b]).slug@,
            ),
        0 <= c < found.len() ==> exists|a: int|
            0 <= a < out.len() && (#[trigger] out[a]).slug@ == found[c].slug,
        0 <= g < out.len() ==> exists|d: int|
            0 <= d < found.len() && (#[trigger] found[d]).slug == out[g].slug@,
        0 <= g < out.len() ==> out[g].display@ == title_cased(out[g].slug@),
{
    let names = slugs_of(out);
    assert forall|a: int, b: int| 0 <= a < b < out.len() implies precedes(
        (#[trigger] out[a]).slug@,
        (#[trigger] out[b]).slug@,
    ) by {
        assert(names[a] == out[a].slug@ && names[b] == out[b].slug@);
    }
    if 0 <= c < found.len() {
        let slug = found[c].slug;
        assert(found_slugs(found)[c] == slug);
        assert(found_slugs(found).contains(slug));
        assert(names.contains(slug));
        let a = choose|a: int| 0 <= a < names.len() && names[a] == slug;
        assert(out[a].slug@ == slug);
    }
    if 0 <= g < out.len() {
        let slug = out[g].slug@;
        assert(names[g] == slug);
        assert(names.contains(slug));
        assert(found_slugs(found).contains(slug));
        let d = choose|d: int| 0 <= d < found.len() && found_slugs(found)[d] == slug;
        assert(found[d].slug == slug);
        assert(is_chapter(found, out[g]));
    }
}

/// Whether a file describes a lesson that could be read and understood.
pub open spec fn is_description(file: Option<ListedFile>) -> bool {
    file matches Some(file) && file.lesson is Some && (file.name matches Some(name)
        && ".lesson.json"@.is_suffix_of(name@))
}

/// Whether an entry is the directory of a chapter: a directory with a name, whose
/// directory of lessons could be listed.
pub open spec fn is_chapter_directory(entry: Option<ListedEntry>) -> bool {
    entry matches Some(entry) && entry.is_dir && entry.name is Some && entry.files is Some
}

/// One more file at the end is one more lesson at the end, or none.
proof fn lemma_kept_lessons_push(files: Seq<Option<ListedFile>>)
    requires
        files.len() > 0,
    ensures
        kept_lessons(files) == kept_lessons(files.drop_last()) + (match kept_lesson(files.last()) {
            Some(lesson) => seq![lesson],
            None => seq![],
        }),
    decreases files.len(),
{
    let rest = files.drop_last();
    if rest.len() == 0 {
        assert(files.skip(1) =~= rest);
        assert(kept_lessons(files) =~= kept_lessons(rest) + (match kept_lesson(files.last()) {
            Some(lesson) => seq![lesson],
            None => seq![],
        }));
    } else {
        lemma_kept_lessons_push(files.skip(1));
        assert(files.skip(1).drop_last() =~= rest.skip(1));
        assert(files.skip(1).last() == files.last());
        assert(rest[0] == files[0]);
        assert(kept_lessons(files) =~= kept_lessons(rest) + (match kept_lesson(files.last()) {
            Some(lesson) => seq![lesson],
            None => seq![],
        }));
    }
}

/// The lessons of a directory are those of its descriptions that could be read
/// and understood, in the order in which they were listed; no other file gives
/// one.
pub proof fn law_descriptions_are_the_lessons(files: Seq<Option<ListedFile>>)
    ensures
        kept_lessons(files) == files.filter(
            |f: Option<ListedFile>| is_description(f),
        ).map_values(|f: Option<ListedFile>| f->0.lesson->0),
    decreases files.len(),
{
    reveal(Seq::filter);
    let keep = |f: Option<ListedFile>| is_description(f);
    let give = |f: Option<ListedFile>| f->0.lesson->0;
    if files.len() > 0 {
        let rest = files.drop_last();
        law_descriptions_are_the_lessons(rest);
        lemma_kept_lessons_push(files);
        let before = rest.filter(keep);
        assert(kept_lessons(rest) == before.map_values(give));
        if is_description(files.last()) {
            assert(before.push(files.last()).map_values(give) =~= before.map_values(give).push(
                files.last()->0.lesson->0,
            ));
        }
    }
    assert(kept_lessons(files) =~= files.filter(keep).map_values(give));
}

/// One more entry at the end is one more chapter at the end, or none.
proof fn lemma_kept_chapters_push(entries: Seq<Option<ListedEntry>>)
    requires
        entries.len() > 0,
    ensures
        kept_chapters(entries) == kept_chapters(entries.drop_last()) + (match kept_chapter(
            entries.last(),
        ) {
            Some(chapter) => seq![chapter],
            None => seq![],
        }),
    decreases entries.len(),
{
    let rest = entries.drop_last();
    if rest.len() == 0 {
        assert(entries.skip(1) =~= rest);
    } else {
        lemma_kept_chapters_push(entries.skip(1));
        assert(entries.skip(1).drop_last() =~= rest.skip(1));
        assert(entries.skip(1).last() == entries.last());
        assert(rest[0] == entries[0]);
    }
    assert(kept_chapters(entries) =~= kept_chapters(rest) + (match kept_chapter(entries.last()) {
        Some(chapter) => seq![chapter],
        None => seq![],
    }));
}

/// The chapters are the directories that have a name and lessons that could be
/// listed, in the order in which they were listed, each with the name of the
/// directory and its lessons; nothing else is a chapter.
pub proof fn law_directories_are_the_chapters(entries: Seq<Option<ListedEntry>>)
    ensures
        kept_chapters(entries) == entries.filter(
            |e: Option<ListedEntry>| is_chapter_directory(e),
        ).map_values(
            |e: Option<ListedEntry>|
                ChapterView { slug: e->0.name->0@, lessons: kept_lessons(e->0.files->0@) },
        ),
    decreases entries.len(),
{
    reveal(Seq::filter);
    let keep = |e: Option<ListedEntry>| is_chapter_directory(e);
    let give = |e: Option<ListedEntry>|
        ChapterView { slug: e->0.name->0@, lessons: kept_lessons(e->0.files->0@) };
    if entries.len() > 0 {
        let rest = entries.drop_last();
        let last = entries.last();
        law_directories_are_the_chapters(rest);
        lemma_kept_chapters_push(entries);
        let before = rest.filter(keep);
        assert(kept_chapters(rest) == before.map_values(give));
        if is_chapter_directory(last) {
            assert(before.push(last).map_values(give) =~= before.map_values(give).push(give(last)));
        }
    }
    assert(kept_chapters(entries) =~= entries.filter(keep).map_values(give));
}

/// Every description that lies among the lessons of a chapter's directory, could
/// be understood and names an entry file has its place in the outline, whatever
/// the kind of its lesson.
pub proof fn law_every_description_has_a_place(
    entries: Seq<Option<ListedEntry>>,
    out: Seq<ChapterGroup>,
    c: int,
    at: int,
)
    requires
        is_outline(kept_chapters(entries), out),
        0 <= c < entries.len(),
        is_chapter_directory(entries[c]),
        0 <= at < entries[c]->0.files->0@.len(),
        is_description(entries[c]->0.files->0@[at]),
        entries[c]->0.files->0@[at]->0.lesson->0.lesson.entry is Some,
        entries[c]->0.files->0@[at]->0.lesson->0.entry_path is Some,
    ensures
        exists|g: int, k: int, i: int|
            {
                &&& #[trigger] is_place(out, g, k, i)
                &&& out[g].slug@ == entries[c]->0.name->0@
                &&& shows(
                    out[g].sections@[k].items@[i],
                    entries[c]->0.files->0@[at]->0.lesson->0,
                )
                &&& out[g].sections@[k].kind == out[g].sections@[k].items@[i].kind
            },
{
    let found = kept_chapters(entries);
    let files = entries[c]->0.files->0@;
    let lesson = files[at]->0.lesson->0;
    let kept = kept_chapter(entries[c])->0;
    lemma_chapter_is_kept(entries, c);
    lemma_lesson_is_kept(files, at);
    let f = choose|f: int| 0 <= f < found.len() && found[f] == kept;
    let l = choose|l: int| 0 <= l < kept.lessons.len() && kept.lessons[l] == lesson;
    law_every_found_lesson_has_a_place(found, out, f, l);
}

/// A small letter of ASCII at the start of a word becomes the capital letter;
/// nothing else of the word changes, and a word that starts otherwise stays as
/// it is.
pub proof fn law_first_letters_become_capitals(n: int, c: char, rest: Seq<char>)
    requires
        0 <= n < 26,
        !('a' <= c <= 'z'),
    ensures
        capital(seq!["abcdefghijklmnopqrstuvwxyz"@[n]] + rest) == seq![
            "ABCDEFGHIJKLMNOPQRSTUVWXYZ"@[n],
        ] + rest,
        capital(seq![c] + rest) == seq![c] + rest,
        capital(Seq::empty()).len() == 0,
{
    reveal_strlit("abcdefghijklmnopqrstuvwxyz");
    reveal_strlit("ABCDEFGHIJKLMNOPQRSTUVWXYZ");
    let small = "abcdefghijklmnopqrstuvwxyz"@[n];
    assert((seq![small] + rest).skip(1) =~= rest);
    assert((seq![c] + rest).skip(1) =~= rest);
    assert(small as int == 'a' as int + n);
    assert("ABCDEFGHIJKLMNOPQRSTUVWXYZ"@[n] as int == 'A' as int + n);
    assert(ascii_upper(small) == "ABCDEFGHIJKLMNOPQRSTUVWXYZ"@[n]);
}

/// Spaces for dashes, in two texts one after the other.
proof fn lemma_dashes_concat(a: Seq<char>, c: char, b: Seq<char>)
    ensures
        dashes_to_spaces(a + seq![c] + b) == dashes_to_spaces(a) + seq![undashed(c)]
            + dashes_to_spaces(b),
{
    assert(dashes_to_spaces(a + seq![c] + b) =~= dashes_to_spaces(a) + seq![undashed(c)]
        + dashes_to_spaces(b));
}

/// Which words a name has does not depend on what parts them: a dash and any
/// white space part them alike, and several of these like one. The digits and
/// dashes at the start do not belong to the title.
pub proof fn law_words_of_a_name(
    number: Seq<char>,
    a: Seq<char>,
    first: char,
    second: char,
    b: Seq<char>,
)
    requires
        forall|i: int|
            0 <= i < number.len() ==> '0' <= #[trigger] number[i] <= '9' || number[i] == '-',
        a.len() > 0,
        !('0' <= a[0] <= '9'),
        a[0] != '-',
        first == '-' || is_white(first),
        second == '-' || is_white(second),
    ensures
        title_cased(number + a) == title_cased(a),
        title_cased(a + seq![first] + b) == title_cased(a + seq![second] + b),
        title_cased(a + seq![first] + (seq![second] + b)) == title_cased(a + seq![first] + b),
        title_cased(number) == title_cased(Seq::empty()),
        title_cased(Seq::empty()).len() == 0,
{
    let none = Seq::<char>::empty();
    lemma_after_number(number, a);
    lemma_after_number(number, none);
    assert(number + none =~= number);
    let x = a + seq![first] + b;
    let y = a + seq![second] + b;
    let z = a + seq![first] + (seq![second] + b);
    lemma_after_number(none, x);
    lemma_after_number(none, y);
    lemma_after_number(none, z);
    lemma_after_number(none, a);
    lemma_after_number(none, none);
    assert(none + x =~= x && none + y =~= y && none + z =~= z && none + a =~= a);
    assert(none + none =~= none);
    assert(x[0] == a[0] && y[0] == a[0] && z[0] == a[0]);
    assert(is_white(undashed(first)) && is_white(undashed(second)));
    let p = dashes_to_spaces(a);
    let q = dashes_to_spaces(b);
    lemma_dashes_concat(a, first, b);
    lemma_dashes_concat(a, second, b);
    lemma_dashes_concat(a, first, seq![second] + b);
    lemma_dashes_concat(none, second, b);
    assert(none + seq![second] + b =~= seq![second] + b);
    law_words_are_parted(p, undashed(first), q);
    law_words_are_parted(p, undashed(second), q);
    law_words_are_parted(p, undashed(first), dashes_to_spaces(seq![second] + b));
    law_words_are_parted(dashes_to_spaces(none), undashed(second), q);
    assert(dashes_to_spaces(none) =~= none);
    assert(words(none).len() == 0);
    assert(words(none) + words(q) =~= words(q));
    assert(capitals(words(none)) =~= Seq::<Seq<char>>::empty());
}

/// Each word of a title has its own first letter in upper case, and no word is
/// lost.
pub proof fn law_every_word_is_capitalised(list: Seq<Seq<char>>, at: int)
    requires
        0 <= at < list.len(),
    ensures
        capitals(list).len() == list.len(),
        capitals(list)[at] == capital(list[at]),
{
}

/// Each kind has its own sign and heading.
pub proof fn law_kinds_have_their_headings(kind: LessonKind)
    ensures
        kind.icon_text() == seq!["📘"@, "✏️"@, "📝"@, "🧠"@][rank(kind)],
        kind.label_text() == seq!["Examples"@, "Exercises"@, "Homework"@, "Challenges"@][rank(
            kind,
        )],
{
}

} // verus!
