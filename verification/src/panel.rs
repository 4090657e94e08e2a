//! The lesson panel: the outline of the course, with a mark for what is done,
//! and the lesson that the student is at.

use crate::files::{lesson_id_for_status, same_path, status_key, FilePath};
use crate::outline::{ChapterGroup, Lesson, OutlineItem, Section};
use crate::text::{decimal, decimal_text, ends_with, opt_view, same_text, views};
use crate::view::{label, label_view, label_views, opt_label, Label, LabelView, Tone};
use vstd::prelude::*;

verus! {

/// The name of the lesson panel.
pub const LESSON_PANEL_KEY: &'static str = "LessonPanel";

/// What the student is told when a paste is blocked.
pub const PASTE_BLOCKED: &'static str =
    "🔒 Paste is disabled for this lesson. Type it out yourself — the AI Tutor (💡) can hint you in your own words.";

// ---------------------------------------------------------------------------
// How far the student has come
// ---------------------------------------------------------------------------

/// How far the student has come with a lesson.
#[derive(Debug, Clone, Copy, PartialEq, Eq, Structural)]
pub struct LessonStatusFlags {
    pub tested_pass: bool,
    pub submitted_at: Option<i64>,
    pub test_count: u32,
    pub submit_count: u32,
}

/// Nothing done yet.
pub open spec fn no_status() -> LessonStatusFlags {
    LessonStatusFlags { tested_pass: false, submitted_at: None, test_count: 0, submit_count: 0 }
}

impl Default for LessonStatusFlags {
    fn default() -> (r: Self)
        ensures
            r == no_status(),
    {
        LessonStatusFlags { tested_pass: false, submitted_at: None, test_count: 0, submit_count: 0 }
    }
}

/// How far the student has come with the lesson of that id.
pub struct StatusEntry {
    pub lesson_id: String,
    pub flags: LessonStatusFlags,
}

/// What a list of entries says of each lesson. Of two entries for one lesson
/// the later one counts.
pub open spec fn status_map(entries: Seq<StatusEntry>) -> Map<Seq<char>, LessonStatusFlags>
    decreases entries.len(),
{
    if entries.len() == 0 {
        Map::empty()
    } else {
        status_map(entries.drop_last()).insert(entries.last().lesson_id@, entries.last().flags)
    }
}

/// What is known of the lesson under that key: nothing done, where nothing is
/// known.
pub open spec fn status_under(
    known: Map<Seq<char>, LessonStatusFlags>,
    key: Seq<char>,
) -> LessonStatusFlags {
    if known.contains_key(key) {
        known[key]
    } else {
        no_status()
    }
}

/// What is known of the lesson under that key.
pub fn lesson_status(entries: &Vec<StatusEntry>, key: &str) -> (r: LessonStatusFlags)
    ensures
        r == status_under(status_map(entries@), key@),
{
    let mut n: usize = entries.len();
    assert(entries@.take(n as int) =~= entries@);
    while n > 0
        invariant
            n <= entries.len(),
            status_under(status_map(entries@.take(n as int)), key@) == status_under(
                status_map(entries@),
                key@,
            ),
        decreases n,
    {
        let ghost some = entries@.take(n as int);
        assert(some.drop_last() =~= entries@.take(n - 1));
        assert(some.last() == entries@[n - 1]);
        if same_text(entries[n - 1].lesson_id.as_str(), key) {
            return entries[n - 1].flags;
        }
        n = n - 1;
    }
    LessonStatusFlags::default()
}

// ---------------------------------------------------------------------------
// The state of the panel
// ---------------------------------------------------------------------------

/// The lesson panel.
pub struct LessonPanel {
    /// The lesson that the student is at.
    pub current: Option<Lesson>,
    /// The entry file of that lesson, where it was opened.
    pub current_entry_path: Option<FilePath>,
    pub outline: Vec<ChapterGroup>,
    pub lesson_status: Vec<StatusEntry>,
    pub active: bool,
}

/// What a change of the lesson means for the editor.
pub struct LessonChange {
    /// Whether pasting is blocked from now on.
    pub paste_blocked: bool,
    /// Whether the panel has to be drawn anew.
    pub redraw: bool,
}

/// Whether pasting is blocked in a lesson; it is not outside of lessons.
pub open spec fn blocks_paste(lesson: Option<Lesson>) -> bool {
    match lesson {
        Some(lesson) => lesson.no_paste,
        None => false,
    }
}

/// Whether going from one lesson to the other is a change worth drawing.
pub open spec fn is_change(from: Option<Lesson>, to: Option<Lesson>) -> bool {
    match (from, to) {
        (Some(a), Some(b)) => a.id@ != b.id@,
        (None, None) => false,
        _ => true,
    }
}

/// Whether a lesson holds what the outline knows of it, and no more.
pub open spec fn is_stub(lesson: Lesson, item: OutlineItem) -> bool {
    &&& lesson.id@ == item.id@
    &&& lesson.title@ == item.title@
    &&& lesson.title_en is None
    &&& lesson.kind == Some(item.kind)
    &&& lesson.no_paste == item.no_paste
    &&& lesson.kc@.len() == 0
    &&& opt_view(lesson.language) == Some("python"@)
    &&& opt_view(lesson.entry) == opt_view(item.entry_path.name)
    &&& lesson.test is None
    &&& lesson.run is None
    &&& lesson.estimated_minutes is None
    &&& lesson.tests_pass_required is None
}

/// The first item with that entry file in a list.
pub open spec fn item_at(items: Seq<OutlineItem>, key: Seq<char>) -> Option<OutlineItem>
    decreases items.len(),
{
    if items.len() == 0 {
        None
    } else if items[0].entry_path.key@ == key {
        Some(items[0])
    } else {
        item_at(items.skip(1), key)
    }
}

/// The first item with that entry file in the sections of a chapter.
pub open spec fn item_in_sections(sections: Seq<Section>, key: Seq<char>) -> Option<OutlineItem>
    decreases sections.len(),
{
    if sections.len() == 0 {
        None
    } else {
        match item_at(sections[0].items@, key) {
            Some(item) => Some(item),
            None => item_in_sections(sections.skip(1), key),
        }
    }
}

/// The first item with that entry file in an outline.
pub open spec fn item_in_outline(outline: Seq<ChapterGroup>, key: Seq<char>) -> Option<OutlineItem>
    decreases outline.len(),
{
    if outline.len() == 0 {
        None
    } else {
        match item_in_sections(outline[0].sections@, key) {
            Some(item) => Some(item),
            None => item_in_outline(outline.skip(1), key),
        }
    }
}

/// The first item with that entry file in a list.
fn find_item(items: &Vec<OutlineItem>, path: &FilePath) -> (r: Option<OutlineItem>)
    ensures
        r == item_at(items@, path.key@),
{
    assert(items@.skip(0) =~= items@);
    for i in 0..items.len()
        invariant
            item_at(items@.skip(i as int), path.key@) == item_at(items@, path.key@),
    {
        assert(items@.skip(i as int).skip(1) =~= items@.skip(i + 1));
        assert(items@.skip(i as int)[0] == items@[i as int]);
        if same_path(&items[i].entry_path, path) {
            return Some(items[i].clone());
        }
    }
    None
}

/// The first item with that entry file in the sections of a chapter.
fn find_in_sections(sections: &Vec<Section>, path: &FilePath) -> (r: Option<OutlineItem>)
    ensures
        r == item_in_sections(sections@, path.key@),
{
    assert(sections@.skip(0) =~= sections@);
    for i in 0..sections.len()
        invariant
            item_in_sections(sections@.skip(i as int), path.key@) == item_in_sections(
                sections@,
                path.key@,
            ),
    {
        assert(sections@.skip(i as int).skip(1) =~= sections@.skip(i + 1));
        assert(sections@.skip(i as int)[0] == sections@[i as int]);
        match find_item(&sections[i].items, path) {
            Some(item) => {
                return Some(item);
            },
            None => {},
        }
    }
    None
}

/// The first item with that entry file in an outline.
pub fn find_in_outline(outline: &Vec<ChapterGroup>, path: &FilePath) -> (r: Option<OutlineItem>)
    ensures
        r == item_in_outline(outline@, path.key@),
{
    assert(outline@.skip(0) =~= outline@);
    for i in 0..outline.len()
        invariant
            item_in_outline(outline@.skip(i as int), path.key@) == item_in_outline(
                outline@,
                path.key@,
            ),
    {
        assert(outline@.skip(i as int).skip(1) =~= outline@.skip(i + 1));
        assert(outline@.skip(i as int)[0] == outline@[i as int]);
        match find_in_sections(&outline[i].sections, path) {
            Some(item) => {
                return Some(item);
            },
            None => {},
        }
    }
    None
}

/// What comes of opening a file.
pub enum Refresh {
    /// Nothing.
    Nothing,
    /// The lesson of the file is shown.
    Shown(LessonChange),
    /// The file describes a lesson, and has to be read.
    Load(FilePath),
}

/// Whether a lesson is the current one.
pub open spec fn is_current(current: Option<Lesson>, id: Seq<char>) -> bool {
    match current {
        Some(lesson) => lesson.id@ == id,
        None => false,
    }
}

/// The item of the outline that opening a file brings up: the one whose entry
/// file it is, where it is not the current one already.
pub open spec fn item_brought_up(panel: LessonPanel, path: FilePath) -> Option<OutlineItem> {
    match item_in_outline(panel.outline@, path.key@) {
        Some(item) => if is_current(panel.current, item.id@) {
            None
        } else {
            Some(item)
        },
        None => None,
    }
}

/// Whether `after` and `outcome` are what comes of opening a file.
pub open spec fn refreshes(
    before: LessonPanel,
    path: Option<FilePath>,
    after: LessonPanel,
    outcome: Refresh,
) -> bool {
    match path {
        None => after == before && outcome is Nothing,
        Some(path) => if ".lesson.json"@.is_suffix_of(path.text@) {
            after == before && outcome == Refresh::Load(path)
        } else {
            match item_brought_up(before, path) {
                None => after == before && outcome is Nothing,
                Some(item) => {
                    &&& after.current matches Some(lesson) && is_stub(lesson, item)
                    &&& after.current_entry_path == Some(item.entry_path)
                    &&& after.outline == before.outline
                    &&& after.lesson_status == before.lesson_status
                    &&& after.active == before.active
                    &&& outcome matches Refresh::Shown(change) && change.paste_blocked
                        == item.no_paste && change.redraw
                },
            }
        },
    }
}

impl LessonPanel {
    /// A panel before anything is known.
    pub fn new() -> (r: Self)
        ensures
            r.current is None,
            r.current_entry_path is None,
            r.outline@.len() == 0,
            r.lesson_status@.len() == 0,
            !r.active,
    {
        LessonPanel {
            current: None,
            current_entry_path: None,
            outline: Vec::new(),
            lesson_status: Vec::new(),
            active: false,
        }
    }

    /// The outline of the course is known.
    pub fn set_outline(&mut self, outline: Vec<ChapterGroup>)
        ensures
            *final(self) == (LessonPanel { outline, ..*old(self) }),
    {
        self.outline = outline;
    }

    /// How far the student has come is known; what was known before is gone.
    pub fn set_status(&mut self, entries: Vec<StatusEntry>)
        ensures
            *final(self) == (LessonPanel { lesson_status: entries, ..*old(self) }),
    {
        self.lesson_status = entries;
    }

    /// The panel was brought to the front, or is there no more.
    pub fn set_active(&mut self, active: bool)
        ensures
            *final(self) == (LessonPanel { active, ..*old(self) }),
    {
        self.active = active;
    }

    /// The student is at a lesson. Where there is none to go to, the panel
    /// stays at the lesson where it was.
    pub fn set_lesson(&mut self, lesson: Option<Lesson>) -> (change: LessonChange)
        ensures
            *final(self) == (LessonPanel {
                current: if lesson is Some {
                    lesson
                } else {
                    old(self).current
                },
                ..*old(self)
            }),
            change.paste_blocked == blocks_paste(final(self).current),
            change.redraw == is_change(old(self).current, lesson),
    {
        let redraw = match (&self.current, &lesson) {
            (Some(a), Some(b)) => !same_text(a.id.as_str(), b.id.as_str()),
            (None, None) => false,
            _ => true,
        };
        if lesson.is_some() {
            self.current = lesson;
        }
        let paste_blocked = match &self.current {
            Some(lesson) => lesson.no_paste,
            None => false,
        };
        LessonChange { paste_blocked, redraw }
    }

    /// The student is at a lesson of the outline. What its description says
    /// beyond that is not known.
    pub fn load_lesson_from_outline_item(&mut self, item: OutlineItem) -> (change: LessonChange)
        ensures
            final(self).current matches Some(lesson) && is_stub(lesson, item),
            *final(self) == (LessonPanel { current: final(self).current, ..*old(self) }),
            change.paste_blocked == item.no_paste,
            change.redraw == !is_current(old(self).current, item.id@),
    {
        let lesson = Lesson {
            id: item.id,
            title: item.title,
            title_en: None,
            kind: Some(item.kind),
            no_paste: item.no_paste,
            kc: Vec::new(),
            language: Some("python".to_string()),
            entry: item.entry_path.name,
            test: None,
            run: None,
            estimated_minutes: None,
            tests_pass_required: None,
        };
        self.set_lesson(Some(lesson))
    }

    /// Whether a lesson is the current one.
    fn is_at(&self, id: &str) -> (r: bool)
        ensures
            r == is_current(self.current, id@),
    {
        match &self.current {
            Some(lesson) => same_text(lesson.id.as_str(), id),
            None => false,
        }
    }

    /// A file was opened.
    pub fn refresh_lesson(&mut self, abs_path: Option<FilePath>) -> (outcome: Refresh)
        ensures
            refreshes(*old(self), abs_path, *final(self), outcome),
    {
        let path = match abs_path {
            Some(path) => path,
            None => {
                return Refresh::Nothing;
            },
        };
        if ends_with(path.text.as_str(), ".lesson.json") {
            return Refresh::Load(path);
        }
        match find_in_outline(&self.outline, &path) {
            Some(item) => if self.is_at(item.id.as_str()) {
                Refresh::Nothing
            } else {
                self.current_entry_path = Some(item.entry_path.clone());
                let change = self.load_lesson_from_outline_item(item);
                Refresh::Shown(change)
            },
            None => Refresh::Nothing,
        }
    }

    /// The description of a lesson was read, as far as it could be understood,
    /// and its entry file opened, where it is there.
    pub fn lesson_loaded(&mut self, lesson: Option<Lesson>, opened_entry: Option<FilePath>) -> (change:
        LessonChange)
        ensures
            *final(self) == (LessonPanel {
                current: if lesson is Some {
                    lesson
                } else {
                    old(self).current
                },
                current_entry_path: opened_entry,
                ..*old(self)
            }),
            change.paste_blocked == blocks_paste(final(self).current),
            change.redraw == is_change(old(self).current, lesson),
    {
        self.current_entry_path = opened_entry;
        self.set_lesson(lesson)
    }
}

/// The name of the file to open along with a description, where it was
/// understood and names one.
pub fn entry_to_open(lesson: &Option<Lesson>) -> (r: Option<String>)
    ensures
        r == (match *lesson {
            Some(lesson) => lesson.entry,
            None => None,
        }),
{
    match lesson {
        Some(lesson) => match &lesson.entry {
            Some(entry) => Some(entry.clone()),
            None => None,
        },
        None => None,
    }
}

// ---------------------------------------------------------------------------
// The outline on the screen
// ---------------------------------------------------------------------------

/// A row of the outline.
pub enum OutlineRow {
    /// The heading of the whole.
    Heading(Label),
    /// A word on the whole.
    Note(Label),
    Chapter(Label),
    Section(Label),
    /// A lesson, with its marks. Its entry file opens when it is picked.
    Lesson { label: Label, marks: Vec<Label>, item: OutlineItem },
}

/// A row of the outline.
pub ghost enum OutlineRowView {
    Heading(LabelView),
    Note(LabelView),
    Chapter(LabelView),
    Section(LabelView),
    Lesson(LabelView, Seq<LabelView>, OutlineItem),
}

impl View for OutlineRow {
    type V = OutlineRowView;

    open spec fn view(&self) -> OutlineRowView {
        match *self {
            OutlineRow::Heading(l) => OutlineRowView::Heading(l@),
            OutlineRow::Note(l) => OutlineRowView::Note(l@),
            OutlineRow::Chapter(l) => OutlineRowView::Chapter(l@),
            OutlineRow::Section(l) => OutlineRowView::Section(l@),
            OutlineRow::Lesson { label, marks, item } => OutlineRowView::Lesson(
                label@,
                label_views(marks@),
                item,
            ),
        }
    }
}

/// The views of a list of rows.
pub open spec fn row_views(rows: Seq<OutlineRow>) -> Seq<OutlineRowView> {
    Seq::new(rows.len(), |i: int| rows[i]@)
}

/// The marks of a lesson, by how far the student has come with it.
pub open spec fn marks(status: LessonStatusFlags) -> Seq<LabelView> {
    let tested = if status.tested_pass {
        seq![label_view("✓test"@, Tone::Success)]
    } else {
        seq![]
    };
    let submitted = if status.submitted_at is Some {
        seq![label_view("✓sub"@, Tone::Info)]
    } else {
        seq![]
    };
    tested + submitted
}

/// The row of a lesson: a full bullet for the current one, an empty one for
/// the others.
pub open spec fn lesson_row(
    current: Option<Lesson>,
    known: Map<Seq<char>, LessonStatusFlags>,
    item: OutlineItem,
) -> OutlineRowView {
    OutlineRowView::Lesson(
        if is_current(current, item.id@) {
            label_view("● "@ + item.title@, Tone::Accent)
        } else {
            label_view("○ "@ + item.title@, Tone::Default)
        },
        marks(status_under(known, status_key(item.entry_path))),
        item,
    )
}

/// The rows of a list of lessons.
pub open spec fn lesson_rows(
    current: Option<Lesson>,
    known: Map<Seq<char>, LessonStatusFlags>,
    items: Seq<OutlineItem>,
) -> Seq<OutlineRowView> {
    Seq::new(items.len(), |i: int| lesson_row(current, known, items[i]))
}

/// The row of a kind of lessons, with how many there are.
pub open spec fn section_row(section: Section) -> OutlineRowView {
    OutlineRowView::Section(
        label_view(
            "  "@ + section.kind.icon_text() + " "@ + section.kind.label_text() + " ("@ + decimal(
                section.items@.len(),
            ) + ")"@,
            Tone::Muted,
        ),
    )
}

/// The rows of the sections of a chapter.
pub open spec fn section_rows(
    current: Option<Lesson>,
    known: Map<Seq<char>, LessonStatusFlags>,
    sections: Seq<Section>,
) -> Seq<OutlineRowView>
    decreases sections.len(),
{
    if sections.len() == 0 {
        seq![]
    } else {
        section_rows(current, known, sections.drop_last()) + seq![section_row(sections.last())]
            + lesson_rows(current, known, sections.last().items@)
    }
}

/// The rows of a list of chapters.
pub open spec fn chapter_rows(
    current: Option<Lesson>,
    known: Map<Seq<char>, LessonStatusFlags>,
    outline: Seq<ChapterGroup>,
) -> Seq<OutlineRowView>
    decreases outline.len(),
{
    if outline.len() == 0 {
        seq![]
    } else {
        chapter_rows(current, known, outline.drop_last()) + seq![
            OutlineRowView::Chapter(label_view("📂 "@ + outline.last().display@, Tone::Accent)),
        ] + section_rows(current, known, outline.last().sections@)
    }
}

/// The rows of the outline of a panel.
pub open spec fn outline_shown(panel: LessonPanel) -> Seq<OutlineRowView> {
    seq![OutlineRowView::Heading(label_view("Course Outline"@, Tone::Muted))] + if panel.outline@.len()
        == 0 {
        seq![OutlineRowView::Note(label_view("Scanning chapters…"@, Tone::Muted))]
    } else {
        chapter_rows(panel.current, status_map(panel.lesson_status@), panel.outline@)
    }
}

/// The marks of a lesson, by how far the student has come with it.
fn status_marks(status: LessonStatusFlags) -> (r: Vec<Label>)
    ensures
        label_views(r@) == marks(status),
{
    let mut r: Vec<Label> = Vec::new();
    if status.tested_pass {
        r.push(label("✓test".to_string(), Tone::Success));
    }
    if status.submitted_at.is_some() {
        r.push(label("✓sub".to_string(), Tone::Info));
    }
    assert(label_views(r@) =~= marks(status));
    r
}

impl LessonPanel {
    /// The row of a lesson.
    fn row_of(&self, item: &OutlineItem) -> (r: OutlineRow)
        ensures
            r@ == lesson_row(self.current, status_map(self.lesson_status@), *item),
    {
        let key = lesson_id_for_status(&item.entry_path);
        let status = lesson_status(&self.lesson_status, key.as_str());
        let label = if self.is_at(item.id.as_str()) {
            label("● ".to_string().concat(item.title.as_str()), Tone::Accent)
        } else {
            label("○ ".to_string().concat(item.title.as_str()), Tone::Default)
        };
        OutlineRow::Lesson { label, marks: status_marks(status), item: item.clone() }
    }

    /// Adds the rows of a section.
    fn add_section_rows(&self, section: &Section, rows: &mut Vec<OutlineRow>)
        ensures
            row_views(final(rows)@) == row_views(old(rows)@) + seq![section_row(*section)]
                + lesson_rows(self.current, status_map(self.lesson_status@), section.items@),
    {
        let ghost known = status_map(self.lesson_status@);
        let mut text = "  ".to_string();
        text.append(section.kind.icon());
        text.append(" ");
        text.append(section.kind.label());
        text.append(" (");
        text.append(decimal_text(section.items.len() as u128).as_str());
        text.append(")");
        rows.push(OutlineRow::Section(label(text, Tone::Muted)));
        let ghost head = row_views(old(rows)@) + seq![section_row(*section)];
        let ghost all = lesson_rows(self.current, known, section.items@);
        assert(row_views(rows@) =~= head + all.take(0));
        for i in 0..section.items.len()
            invariant
                known == status_map(self.lesson_status@),
                all == lesson_rows(self.current, known, section.items@),
                row_views(rows@) == head + all.take(i as int),
        {
            let ghost before = row_views(rows@);
            let row = self.row_of(&section.items[i]);
            rows.push(row);
            assert(row_views(rows@) =~= before.push(all[i as int]));
            assert(head + all.take(i + 1) =~= before.push(all[i as int]));
        }
        assert(all.take(all.len() as int) =~= all);
    }

    /// Adds the rows of a chapter.
    fn add_chapter_rows(&self, chapter: &ChapterGroup, rows: &mut Vec<OutlineRow>)
        ensures
            row_views(final(rows)@) == row_views(old(rows)@) + seq![
                OutlineRowView::Chapter(label_view("📂 "@ + chapter.display@, Tone::Accent)),
            ] + section_rows(self.current, status_map(self.lesson_status@), chapter.sections@),
    {
        let ghost known = status_map(self.lesson_status@);
        let ghost head = row_views(old(rows)@) + seq![
            OutlineRowView::Chapter(label_view("📂 "@ + chapter.display@, Tone::Accent)),
        ];
        rows.push(
            OutlineRow::Chapter(
                label("📂 ".to_string().concat(chapter.display.as_str()), Tone::Accent),
            ),
        );
        let ghost sections = chapter.sections@;
        assert(row_views(rows@) =~= head + section_rows(self.current, known, sections.take(0)));
        for i in 0..chapter.sections.len()
            invariant
                known == status_map(self.lesson_status@),
                sections == chapter.sections@,
                row_views(rows@) == head + section_rows(
                    self.current,
                    known,
                    sections.take(i as int),
                ),
        {
            let ghost before = section_rows(self.current, known, sections.take(i as int));
            self.add_section_rows(&chapter.sections[i], rows);
            assert(sections.take(i + 1).drop_last() =~= sections.take(i as int));
            assert(sections.take(i + 1).last() == sections[i as int]);
            assert(row_views(rows@) =~= head + section_rows(
                self.current,
                known,
                sections.take(i + 1),
            ));
        }
        assert(sections.take(sections.len() as int) =~= sections);
    }

    /// The rows of the outline.
    pub fn outline_rows(&self) -> (rows: Vec<OutlineRow>)
        ensures
            row_views(rows@) == outline_shown(*self),
    {
        let mut rows: Vec<OutlineRow> = Vec::new();
        rows.push(OutlineRow::Heading(label("Course Outline".to_string(), Tone::Muted)));
        let ghost head = seq![OutlineRowView::Heading(label_view("Course Outline"@, Tone::Muted))];
        if self.outline.len() == 0 {
            rows.push(OutlineRow::Note(label("Scanning chapters…".to_string(), Tone::Muted)));
            assert(row_views(rows@) =~= outline_shown(*self));
            return rows;
        }
        let ghost known = status_map(self.lesson_status@);
        let ghost outline = self.outline@;
        assert(row_views(rows@) =~= head + chapter_rows(self.current, known, outline.take(0)));
        for i in 0..self.outline.len()
            invariant
                known == status_map(self.lesson_status@),
                outline == self.outline@,
                row_views(rows@) == head + chapter_rows(
                    self.current,
                    known,
                    outline.take(i as int),
                ),
        {
            self.add_chapter_rows(&self.outline[i], &mut rows);
            assert(outline.take(i + 1).drop_last() =~= outline.take(i as int));
            assert(outline.take(i + 1).last() == outline[i as int]);
            assert(row_views(rows@) =~= head + chapter_rows(
                self.current,
                known,
                outline.take(i + 1),
            ));
        }
        assert(outline.take(outline.len() as int) =~= outline);
        rows
    }
}

// ---------------------------------------------------------------------------
// The lesson on the screen
// ---------------------------------------------------------------------------

/// What a button of the panel does.
#[derive(Clone, Copy, PartialEq, Eq, Structural)]
pub enum LessonAction {
    Run,
    Test,
    Submit,
    AskL1,
    AskL2,
    AskL3,
}

/// A button.
pub struct ActionButton {
    pub id: &'static str,
    pub label: &'static str,
    pub action: LessonAction,
}

/// Whether a button is the one of that action.
pub open spec fn is_button(
    button: ActionButton,
    id: Seq<char>,
    label: Seq<char>,
    action: LessonAction,
) -> bool {
    button.id@ == id && button.label@ == label && button.action == action
}

/// The buttons that run a lesson, test it and hand it in.
pub fn run_buttons() -> (r: Vec<ActionButton>)
    ensures
        r@.len() == 3,
        is_button(r@[0], "wolf-run"@, "▶  Run"@, LessonAction::Run),
        is_button(r@[1], "wolf-test"@, "✓  Test"@, LessonAction::Test),
        is_button(r@[2], "wolf-submit"@, "↗  Submit"@, LessonAction::Submit),
{
    let mut r: Vec<ActionButton> = Vec::new();
    r.push(ActionButton { id: "wolf-run", label: "▶  Run", action: LessonAction::Run });
    r.push(ActionButton { id: "wolf-test", label: "✓  Test", action: LessonAction::Test });
    r.push(ActionButton { id: "wolf-submit", label: "↗  Submit", action: LessonAction::Submit });
    r
}

/// The buttons that ask the tutor.
pub fn tutor_buttons() -> (r: Vec<ActionButton>)
    ensures
        r@.len() == 3,
        is_button(r@[0], "wolf-l1"@, "💡  Hint Level 1 (where)"@, LessonAction::AskL1),
        is_button(r@[1], "wolf-l2"@, "💡  Hint Level 2 (concept)"@, LessonAction::AskL2),
        is_button(r@[2], "wolf-l3"@, "💡  Hint Level 3 (analogy)"@, LessonAction::AskL3),
{
    let mut r: Vec<ActionButton> = Vec::new();
    r.push(
        ActionButton {
            id: "wolf-l1",
            label: "💡  Hint Level 1 (where)",
            action: LessonAction::AskL1,
        },
    );
    r.push(
        ActionButton {
            id: "wolf-l2",
            label: "💡  Hint Level 2 (concept)",
            action: LessonAction::AskL2,
        },
    );
    r.push(
        ActionButton {
            id: "wolf-l3",
            label: "💡  Hint Level 3 (analogy)",
            action: LessonAction::AskL3,
        },
    );
    r
}

/// What is shown of the lesson that the student is at.
pub struct LessonDetail {
    pub title: Label,
    pub title_en: Option<Label>,
    /// The knowledge components.
    pub kc: Vec<String>,
    pub minutes: Option<Label>,
    /// The notice that pasting is blocked, where it is.
    pub no_paste: Option<Label>,
    /// Where to find the task.
    pub task: Label,
}

/// Whether `detail` is what is shown of a lesson.
pub open spec fn details(lesson: Lesson, detail: LessonDetail) -> bool {
    &&& detail.title@ == label_view(lesson.title@, Tone::Default)
    &&& opt_label(detail.title_en) == (match lesson.title_en {
        Some(en) => Some(label_view(en@, Tone::Muted)),
        None => None,
    })
    &&& views(detail.kc@) == views(lesson.kc@)
    &&& opt_label(detail.minutes) == (match lesson.estimated_minutes {
        Some(m) => Some(label_view("~"@ + decimal(m as nat) + " min"@, Tone::Muted)),
        None => None,
    })
    &&& opt_label(detail.no_paste) == (if lesson.no_paste {
        Some(
            label_view(
                "🔒 No-paste mode: type it out, don't paste AI answers."@,
                Tone::Warning,
            ),
        )
    } else {
        None
    })
    &&& detail.task@ == label_view(
        "任务说明在编辑器里的注释中 / Task description is in the code comments."@,
        Tone::Muted,
    )
}

/// What is shown of a lesson.
pub fn lesson_detail(lesson: &Lesson) -> (r: LessonDetail)
    ensures
        details(*lesson, r),
{
    let title_en = match &lesson.title_en {
        Some(en) => Some(label(en.clone(), Tone::Muted)),
        None => None,
    };
    let mut kc: Vec<String> = Vec::new();
    for i in 0..lesson.kc.len()
        invariant
            kc@.len() == i,
            forall|k: int| 0 <= k < i ==> #[trigger] kc@[k] == lesson.kc@[k],
    {
        kc.push(lesson.kc[i].clone());
    }
    assert(views(kc@) =~= views(lesson.kc@));
    let minutes = match lesson.estimated_minutes {
        Some(m) => {
            let mut text = "~".to_string();
            text.append(decimal_text(m as u128).as_str());
            text.append(" min");
            Some(label(text, Tone::Muted))
        },
        None => None,
    };
    let no_paste = if lesson.no_paste {
        Some(
            label(
                "🔒 No-paste mode: type it out, don't paste AI answers.".to_string(),
                Tone::Warning,
            ),
        )
    } else {
        None
    };
    let task = label(
        "任务说明在编辑器里的注释中 / Task description is in the code comments.".to_string(),
        Tone::Muted,
    );
    LessonDetail {
        title: label(lesson.title.clone(), Tone::Default),
        title_en,
        kc,
        minutes,
        no_paste,
        task,
    }
}

/// What is shown where the student is at no lesson.
pub fn no_lesson() -> (r: Label)
    ensures
        r@ == label_view("Pick a lesson from the outline above."@, Tone::Muted),
{
    label("Pick a lesson from the outline above.".to_string(), Tone::Muted)
}

impl LessonPanel {
    /// What is shown of the lesson that the student is at; nothing where there
    /// is none.
    pub fn current_detail(&self) -> (r: Option<LessonDetail>)
        ensures
            match self.current {
                Some(lesson) => r matches Some(detail) && details(lesson, detail),
                None => r is None,
            },
    {
        match &self.current {
            Some(lesson) => Some(lesson_detail(lesson)),
            None => None,
        }
    }
}

// ---------------------------------------------------------------------------
// Laws
// ---------------------------------------------------------------------------

/// A list does not bring up a lesson of another file.
proof fn lemma_item_at(items: Seq<OutlineItem>, key: Seq<char>)
    ensures
        item_at(items, key) matches Some(item) ==> item.entry_path.key@ == key && items.contains(
            item,
        ),
    decreases items.len(),
{
    if items.len() > 0 {
        if items[0].entry_path.key@ == key {
            assert(items.contains(items[0]));
        } else {
            lemma_item_at(items.skip(1), key);
            if let Some(item) = item_at(items.skip(1), key) {
                let rest = items.skip(1);
                let k = choose|k: int| 0 <= k < rest.len() && rest[k] == item;
                assert(items[k + 1] == item);
            }
        }
    }
}

/// Sections do not bring up a lesson of another file.
proof fn lemma_item_in_sections(sections: Seq<Section>, key: Seq<char>)
    ensures
        item_in_sections(sections, key) matches Some(item) ==> item.entry_path.key@ == key,
    decreases sections.len(),
{
    if sections.len() > 0 {
        lemma_item_at(sections[0].items@, key);
        lemma_item_in_sections(sections.skip(1), key);
    }
}

/// Opening a file brings up a lesson only by its own entry file.
pub proof fn law_lesson_comes_by_its_entry(outline: Seq<ChapterGroup>, key: Seq<char>)
    ensures
        item_in_outline(outline, key) matches Some(item) ==> item.entry_path.key@ == key,
    decreases outline.len(),
{
    if outline.len() > 0 {
        lemma_item_in_sections(outline[0].sections@, key);
        law_lesson_comes_by_its_entry(outline.skip(1), key);
    }
}

/// Opening a file leaves the outline and the marks as they are, and never
/// leaves the student without a lesson that was there before.
pub proof fn law_refresh_keeps_the_rest(
    before: LessonPanel,
    path: Option<FilePath>,
    after: LessonPanel,
    outcome: Refresh,
)
    requires
        refreshes(before, path, after, outcome),
    ensures
        after.outline == before.outline,
        after.lesson_status == before.lesson_status,
        before.current is Some ==> after.current is Some,
        outcome matches Refresh::Shown(change) ==> change.paste_blocked == blocks_paste(
            after.current,
        ),
        !(outcome is Shown) ==> after == before,
{
}

/// Opening the same file again changes nothing.
pub proof fn law_refresh_twice(
    before: LessonPanel,
    path: FilePath,
    between: LessonPanel,
    first: Refresh,
    after: LessonPanel,
    second: Refresh,
)
    requires
        refreshes(before, Some(path), between, first),
        refreshes(between, Some(path), after, second),
    ensures
        after == between,
        !(second is Shown),
{
}

/// The marks of a lesson are those of the latest report that names it, and a
/// lesson that no report names has none.
pub proof fn law_marks_follow_report(entries: Seq<StatusEntry>, key: Seq<char>)
    ensures
        (forall|i: int| 0 <= i < entries.len() ==> (#[trigger] entries[i]).lesson_id@ != key)
            ==> marks(status_under(status_map(entries), key)) == Seq::<LabelView>::empty(),
        entries.len() > 0 && entries.last().lesson_id@ == key ==> status_under(
            status_map(entries),
            key,
        ) == entries.last().flags,
    decreases entries.len(),
{
    if entries.len() > 0 {
        let rest = entries.drop_last();
        law_marks_follow_report(rest, key);
        if forall|i: int| 0 <= i < entries.len() ==> (#[trigger] entries[i]).lesson_id@ != key {
            assert forall|i: int| 0 <= i < rest.len() implies (#[trigger] rest[i]).lesson_id@
                != key by {
                assert(rest[i] == entries[i]);
            }
            assert(entries[entries.len() - 1].lesson_id@ != key);
        }
    } else {
        assert(marks(status_under(status_map(entries), key)) =~= Seq::<LabelView>::empty());
    }
}

/// Whether the lesson at that place of an outline has that entry file.
pub open spec fn entry_at(
    outline: Seq<ChapterGroup>,
    chapter: int,
    section: int,
    at: int,
    key: Seq<char>,
) -> bool {
    &&& 0 <= chapter < outline.len()
    &&& 0 <= section < outline[chapter].sections@.len()
    &&& 0 <= at < outline[chapter].sections@[section].items@.len()
    &&& outline[chapter].sections@[section].items@[at].entry_path.key@ == key
}

/// A list brings up the first lesson with that entry file, and some lesson
/// wherever there is one.
proof fn lemma_first_item(items: Seq<OutlineItem>, key: Seq<char>)
    ensures
        match item_at(items, key) {
            Some(item) => exists|at: int|
                {
                    &&& 0 <= at < items.len()
                    &&& #[trigger] items[at] == item
                    &&& item.entry_path.key@ == key
                    &&& forall|i: int| 0 <= i < at ==> (#[trigger] items[i]).entry_path.key@ != key
                },
            None => forall|i: int|
                0 <= i < items.len() ==> (#[trigger] items[i]).entry_path.key@ != key,
        },
    decreases items.len(),
{
    if items.len() > 0 {
        let rest = items.skip(1);
        lemma_first_item(rest, key);
        if items[0].entry_path.key@ == key {
            assert(items[0] == item_at(items, key)->0);
        } else {
            assert forall|i: int| 0 < i < items.len() implies #[trigger] items[i] == rest[i
                - 1] by {}
            match item_at(rest, key) {
                Some(item) => {
                    let at = choose|at: int|
                        {
                            &&& 0 <= at < rest.len()
                            &&& #[trigger] rest[at] == item
                            &&& item.entry_path.key@ == key
                            &&& forall|i: int|
                                0 <= i < at ==> (#[trigger] rest[i]).entry_path.key@ != key
                        };
                    assert(items[at + 1] == item);
                    assert forall|i: int| 0 <= i < at + 1 implies (
                    #[trigger] items[i]).entry_path.key@ != key by {
                        if i > 0 {
                            assert(rest[i - 1].entry_path.key@ != key);
                        }
                    }
                },
                None => {
                    assert forall|i: int| 0 <= i < items.len() implies (
                    #[trigger] items[i]).entry_path.key@ != key by {
                        if i > 0 {
                            assert(rest[i - 1].entry_path.key@ != key);
                        }
                    }
                },
            }
        }
    }
}

/// The sections of a chapter bring up a lesson with that entry file wherever
/// there is one, and from the first section that has one.
proof fn lemma_first_in_sections(sections: Seq<Section>, key: Seq<char>)
    ensures
        match item_in_sections(sections, key) {
            Some(item) => exists|s: int|
                {
                    &&& 0 <= s < sections.len()
                    &&& item_at((#[trigger] sections[s]).items@, key) == Some(item)
                    &&& forall|i: int|
                        0 <= i < s ==> item_at((#[trigger] sections[i]).items@, key) is None
                },
            None => forall|i: int|
                0 <= i < sections.len() ==> item_at((#[trigger] sections[i]).items@, key) is None,
        },
    decreases sections.len(),
{
    if sections.len() > 0 {
        let rest = sections.skip(1);
        lemma_first_in_sections(rest, key);
        assert forall|i: int| 0 < i < sections.len() implies #[trigger] sections[i] == rest[i
            - 1] by {}
        match item_at(sections[0].items@, key) {
            Some(item) => {},
            None => match item_in_sections(rest, key) {
                Some(item) => {
                    let s = choose|s: int|
                        {
                            &&& 0 <= s < rest.len()
                            &&& item_at((#[trigger] rest[s]).items@, key) == Some(item)
                            &&& forall|i: int|
                                0 <= i < s ==> item_at((#[trigger] rest[i]).items@, key) is None
                        };
                    assert(item_at(sections[s + 1].items@, key) == Some(item));
                    assert forall|i: int| 0 <= i < s + 1 implies item_at(
                        (#[trigger] sections[i]).items@,
                        key,
                    ) is None by {
                        if i > 0 {
                            assert(item_at(rest[i - 1].items@, key) is None);
                        }
                    }
                },
                None => {
                    assert forall|i: int| 0 <= i < sections.len() implies item_at(
                        (#[trigger] sections[i]).items@,
                        key,
                    ) is None by {
                        if i > 0 {
                            assert(item_at(rest[i - 1].items@, key) is None);
                        }
                    }
                },
            },
        }
    }
}

/// An outline brings up a lesson from the first chapter that has one.
proof fn lemma_first_in_outline(outline: Seq<ChapterGroup>, key: Seq<char>)
    ensures
        match item_in_outline(outline, key) {
            Some(item) => exists|c: int|
                {
                    &&& 0 <= c < outline.len()
                    &&& item_in_sections((#[trigger] outline[c]).sections@, key) == Some(item)
                    &&& forall|i: int|
                        0 <= i < c ==> item_in_sections(
                            (#[trigger] outline[i]).sections@,
                            key,
                        ) is None
                },
            None => forall|i: int|
                0 <= i < outline.len() ==> item_in_sections(
                    (#[trigger] outline[i]).sections@,
                    key,
                ) is None,
        },
    decreases outline.len(),
{
    if outline.len() > 0 {
        let rest = outline.skip(1);
        lemma_first_in_outline(rest, key);
        assert forall|i: int| 0 < i < outline.len() implies #[trigger] outline[i] == rest[i
            - 1] by {}
        match item_in_sections(outline[0].sections@, key) {
            Some(item) => {},
            None => match item_in_outline(rest, key) {
                Some(item) => {
                    let c = choose|c: int|
                        {
                            &&& 0 <= c < rest.len()
                            &&& item_in_sections((#[trigger] rest[c]).sections@, key) == Some(item)
                            &&& forall|i: int|
                                0 <= i < c ==> item_in_sections(
                                    (#[trigger] rest[i]).sections@,
                                    key,
                                ) is None
                        };
                    assert(item_in_sections(outline[c + 1].sections@, key) == Some(item));
                    assert forall|i: int| 0 <= i < c + 1 implies item_in_sections(
                        (#[trigger] outline[i]).sections@,
                        key,
                    ) is None by {
                        if i > 0 {
                            assert(item_in_sections(rest[i - 1].sections@, key) is None);
                        }
                    }
                },
                None => {
                    assert forall|i: int| 0 <= i < outline.len() implies item_in_sections(
                        (#[trigger] outline[i]).sections@,
                        key,
                    ) is None by {
                        if i > 0 {
                            assert(item_in_sections(rest[i - 1].sections@, key) is None);
                        }
                    }
                },
            },
        }
    }
}

/// A lesson is found by its entry file wherever in the outline it stands: where
/// any item of any section of any chapter has that entry file, one that has it
/// is found, and of several the one that stands first. Nothing is found only
/// where no chapter holds such an item.
pub proof fn law_every_lesson_is_found(outline: Seq<ChapterGroup>, key: Seq<char>)
    ensures
        item_in_outline(outline, key) is Some <==> exists|c: int, s: int, i: int|
            #[trigger] entry_at(outline, c, s, i, key),
        item_in_outline(outline, key) matches Some(item) ==> exists|c: int, s: int, i: int|
            {
                &&& #[trigger] entry_at(outline, c, s, i, key)
                &&& outline[c].sections@[s].items@[i] == item
                &&& forall|c2: int, s2: int, i2: int|
                    #[trigger] entry_at(outline, c2, s2, i2, key) ==> c2 > c || (c2 == c && (s2 > s
                        || (s2 == s && i2 >= i)))
            },
{
    lemma_first_in_outline(outline, key);
    match item_in_outline(outline, key) {
        Some(item) => {
            let c = choose|c: int|
                {
                    &&& 0 <= c < outline.len()
                    &&& item_in_sections((#[trigger] outline[c]).sections@, key) == Some(item)
                    &&& forall|i: int|
                        0 <= i < c ==> item_in_sections(
                            (#[trigger] outline[i]).sections@,
                            key,
                        ) is None
                };
            let sections = outline[c].sections@;
            lemma_first_in_sections(sections, key);
            let s = choose|s: int|
                {
                    &&& 0 <= s < sections.len()
                    &&& item_at((#[trigger] sections[s]).items@, key) == Some(item)
                    &&& forall|i: int|
                        0 <= i < s ==> item_at((#[trigger] sections[i]).items@, key) is None
                };
            let items = sections[s].items@;
            lemma_first_item(items, key);
            let at = choose|at: int|
                {
                    &&& 0 <= at < items.len()
                    &&& #[trigger] items[at] == item
                    &&& item.entry_path.key@ == key
                    &&& forall|i: int| 0 <= i < at ==> (#[trigger] items[i]).entry_path.key@ != key
                };
            assert(entry_at(outline, c, s, at, key));
            assert forall|c2: int, s2: int, i2: int| #[trigger]
                entry_at(outline, c2, s2, i2, key) implies c2 > c || (c2 == c && (s2 > s || (s2 == s
                && i2 >= at))) by {
                lemma_entry_is_seen(outline, c2, s2, i2, key);
                if c2 < c {
                    assert(item_in_sections(outline[c2].sections@, key) is None);
                } else if c2 == c && s2 < s {
                    assert(item_at(sections[s2].items@, key) is None);
                } else if c2 == c && s2 == s && i2 < at {
                    assert(items[i2].entry_path.key@ != key);
                }
            }
        },
        None => {
            assert forall|c: int, s: int, i: int| !#[trigger] entry_at(outline, c, s, i, key) by {
                if entry_at(outline, c, s, i, key) {
                    lemma_entry_is_seen(outline, c, s, i, key);
                    assert(item_in_sections(outline[c].sections@, key) is None);
                }
            }
        },
    }
}

/// Where a lesson has that entry file, its section and its chapter bring one up.
proof fn lemma_entry_is_seen(
    outline: Seq<ChapterGroup>,
    c: int,
    s: int,
    i: int,
    key: Seq<char>,
)
    requires
        entry_at(outline, c, s, i, key),
    ensures
        item_at(outline[c].sections@[s].items@, key) is Some,
        item_in_sections(outline[c].sections@, key) is Some,
{
    let sections = outline[c].sections@;
    lemma_first_item(sections[s].items@, key);
    if item_at(sections[s].items@, key) is None {
        assert(sections[s].items@[i].entry_path.key@ != key);
    }
    lemma_first_in_sections(sections, key);
    if item_in_sections(sections, key) is None {
        assert(item_at(sections[s].items@, key) is None);
    }
}

/// Opening the entry file of a lesson brings that lesson up, whatever chapter it
/// is in, unless the student is at it already: it is shown with what the outline
/// knows of it, and pasting is blocked exactly where it says so. Of several
/// lessons with that entry file it is the one that stands first.
pub proof fn law_opening_a_lesson_brings_it_up(
    before: LessonPanel,
    path: FilePath,
    after: LessonPanel,
    outcome: Refresh,
    c: int,
    s: int,
    i: int,
)
    requires
        refreshes(before, Some(path), after, outcome),
        !".lesson.json"@.is_suffix_of(path.text@),
        entry_at(before.outline@, c, s, i, path.key@),
    ensures
        exists|c2: int, s2: int, i2: int|
            #[trigger] entry_at(before.outline@, c2, s2, i2, path.key@) && (forall|
                c3: int,
                s3: int,
                i3: int,
            | #[trigger]
                entry_at(before.outline@, c3, s3, i3, path.key@) ==> c3 > c2 || (c3 == c2 && (s3
                    > s2 || (s3 == s2 && i3 >= i2)))) && {
                let item = before.outline@[c2].sections@[s2].items@[i2];
                if before.current is Some && before.current->0.id@ == item.id@ {
                    after == before && outcome is Nothing
                } else {
                    &&& after.current matches Some(lesson) && {
                        &&& lesson.id@ == item.id@
                        &&& lesson.title@ == item.title@
                        &&& lesson.kind == Some(item.kind)
                        &&& lesson.no_paste == item.no_paste
                        &&& lesson.language matches Some(language) && language@ == "python"@
                        &&& lesson.entry is Some <==> item.entry_path.name is Some
                        &&& lesson.entry matches Some(entry) ==> entry@ == item.entry_path.name->0@
                        &&& lesson.title_en is None && lesson.test is None && lesson.run is None
                        &&& lesson.estimated_minutes is None
                        &&& lesson.tests_pass_required is None
                        &&& lesson.kc@.len() == 0
                    }
                    &&& after.current_entry_path == Some(item.entry_path)
                    &&& outcome matches Refresh::Shown(change) && change.paste_blocked
                        == item.no_paste && change.redraw
                    &&& after.outline == before.outline
                    &&& after.lesson_status == before.lesson_status
                    &&& after.active == before.active
                }
            },
{
    law_every_lesson_is_found(before.outline@, path.key@);
    let item = item_in_outline(before.outline@, path.key@)->0;
    let (c2, s2, i2) = choose|c2: int, s2: int, i2: int| #[trigger]
        entry_at(before.outline@, c2, s2, i2, path.key@)
            && before.outline@[c2].sections@[s2].items@[i2] == item && (forall|
            c3: int,
            s3: int,
            i3: int,
        | #[trigger]
            entry_at(before.outline@, c3, s3, i3, path.key@) ==> c3 > c2 || (c3 == c2 && (s3 > s2
                || (s3 == s2 && i3 >= i2))));
    assert(entry_at(before.outline@, c2, s2, i2, path.key@));
}

/// Opening a description has it read, and nothing changes until it was; opening
/// a file that is no lesson's entry file, or none at all, changes nothing.
pub proof fn law_other_files_change_nothing(
    before: LessonPanel,
    path: FilePath,
    after: LessonPanel,
    outcome: Refresh,
)
    ensures
        refreshes(before, None, after, outcome) ==> after == before && outcome is Nothing,
        ".lesson.json"@.is_suffix_of(path.text@) && refreshes(before, Some(path), after, outcome)
            ==> after == before && outcome == Refresh::Load(path),
        !".lesson.json"@.is_suffix_of(path.text@) && refreshes(before, Some(path), after, outcome)
            && (forall|c: int, s: int, i: int|
            !#[trigger] entry_at(before.outline@, c, s, i, path.key@)) ==> after == before
            && outcome is Nothing,
{
    law_every_lesson_is_found(before.outline@, path.key@);
}

/// Pasting is blocked exactly where the lesson at hand says so. Going to another
/// lesson is worth drawing, and so is going from no lesson to one or from one to
/// none; staying at the same one is not.
pub proof fn law_lessons_are_told_apart_by_id(a: Lesson, b: Lesson, id: Seq<char>)
    ensures
        blocks_paste(Some(a)) == a.no_paste,
        !blocks_paste(None),
        is_change(Some(a), Some(b)) <==> a.id@ != b.id@,
        is_change(Some(a), None),
        is_change(None, Some(a)),
        !is_change(None, None),
        is_current(Some(a), id) <==> a.id@ == id,
        !is_current(None, id),
{
}

/// What is known of a lesson is what the latest entry for it says; where no
/// entry is for it, nothing is done yet.
pub proof fn law_latest_entry_counts(entries: Seq<StatusEntry>, at: int, key: Seq<char>)
    ensures
        0 <= at < entries.len() && entries[at].lesson_id@ == key && (forall|i: int|
            at < i < entries.len() ==> (#[trigger] entries[i]).lesson_id@ != key) ==> status_under(
            status_map(entries),
            key,
        ) == entries[at].flags,
        (forall|i: int| 0 <= i < entries.len() ==> (#[trigger] entries[i]).lesson_id@ != key) ==> {
            let status = status_under(status_map(entries), key);
            &&& !status.tested_pass
            &&& status.submitted_at is None
            &&& status.test_count == 0
            &&& status.submit_count == 0
        },
    decreases entries.len(),
{
    if entries.len() > 0 {
        let rest = entries.drop_last();
        law_latest_entry_counts(rest, at, key);
        assert forall|i: int| 0 <= i < rest.len() implies #[trigger] rest[i] == entries[i] by {}
        let last = entries.len() - 1;
        if entries[last].lesson_id@ != key {
            assert(status_under(status_map(entries), key) == status_under(status_map(rest), key));
        }
    }
}

/// A lesson has a mark for its tests exactly where they passed, and then one for
/// its submission exactly where it was handed in.
pub proof fn law_marks_tell_what_is_done(status: LessonStatusFlags)
    ensures
        status.tested_pass && status.submitted_at is Some ==> marks(status) == seq![
            LabelView { text: "✓test"@, tone: Tone::Success },
            LabelView { text: "✓sub"@, tone: Tone::Info },
        ],
        status.tested_pass && status.submitted_at is None ==> marks(status) == seq![
            LabelView { text: "✓test"@, tone: Tone::Success },
        ],
        !status.tested_pass && status.submitted_at is Some ==> marks(status) == seq![
            LabelView { text: "✓sub"@, tone: Tone::Info },
        ],
        !status.tested_pass && status.submitted_at is None ==> marks(status).len() == 0,
{
}

/// A lesson's row shows its title, behind a full bullet for the lesson that the
/// student is at and an empty one for any other; it has the marks of what is
/// known under the lesson's key, and opens that lesson.
pub proof fn law_lesson_row(
    current: Option<Lesson>,
    known: Map<Seq<char>, LessonStatusFlags>,
    items: Seq<OutlineItem>,
    at: int,
)
    requires
        0 <= at < items.len(),
    ensures
        lesson_rows(current, known, items).len() == items.len(),
        lesson_rows(current, known, items)[at] matches OutlineRowView::Lesson(shown, found, item)
            && {
            &&& item == items[at]
            &&& current is Some && current->0.id@ == item.id@ ==> shown == (LabelView {
                text: "● "@ + item.title@,
                tone: Tone::Accent,
            })
            &&& current is None || current->0.id@ != item.id@ ==> shown == (LabelView {
                text: "○ "@ + item.title@,
                tone: Tone::Default,
            })
            &&& known.contains_key(status_key(item.entry_path)) ==> found == marks(
                known[status_key(item.entry_path)],
            )
            &&& !known.contains_key(status_key(item.entry_path)) ==> found.len() == 0
        },
{
    law_marks_tell_what_is_done(no_status());
}

/// The rows of an outline are those of its chapters, one after the other: the
/// title of the chapter, then for each of its sections a row with its sign, its
/// heading and how many lessons it has, and then a row for each of these.
pub proof fn law_rows_follow_the_outline(
    panel: LessonPanel,
    a: Seq<ChapterGroup>,
    chapter: ChapterGroup,
    some: Seq<Section>,
    section: Section,
)
    ensures
        ({
            let known = status_map(panel.lesson_status@);
            let now = panel.current;
            &&& chapter_rows(now, known, a.push(chapter)) == chapter_rows(now, known, a) + seq![
                OutlineRowView::Chapter(
                    LabelView { text: "📂 "@ + chapter.display@, tone: Tone::Accent },
                ),
            ] + section_rows(now, known, chapter.sections@)
            &&& chapter_rows(now, known, Seq::empty()).len() == 0
            &&& section_rows(now, known, some.push(section)) == section_rows(now, known, some)
                + seq![
                OutlineRowView::Section(
                    LabelView {
                        text: "  "@ + section.kind.icon_text() + " "@ + section.kind.label_text()
                            + " ("@ + decimal(section.items@.len()) + ")"@,
                        tone: Tone::Muted,
                    },
                ),
            ] + lesson_rows(now, known, section.items@)
            &&& section_rows(now, known, Seq::empty()).len() == 0
        }),
        panel.outline@.len() == 0 ==> outline_shown(panel) == seq![
            OutlineRowView::Heading(LabelView { text: "Course Outline"@, tone: Tone::Muted }),
            OutlineRowView::Note(LabelView { text: "Scanning chapters…"@, tone: Tone::Muted }),
        ],
        panel.outline@.len() > 0 ==> outline_shown(panel) == seq![
            OutlineRowView::Heading(LabelView { text: "Course Outline"@, tone: Tone::Muted }),
        ] + chapter_rows(panel.current, status_map(panel.lesson_status@), panel.outline@),
{
    assert(a.push(chapter).drop_last() =~= a);
    assert(some.push(section).drop_last() =~= some);
}

/// What is shown of a lesson is its title, its English title, its knowledge
/// components, how long it takes, and that pasting is blocked: each where the
/// lesson has it and nowhere else.
pub proof fn law_lesson_is_shown_whole(lesson: Lesson, detail: LessonDetail)
    requires
        details(lesson, detail),
    ensures
        detail.title.text@ == lesson.title@ && detail.title.tone == Tone::Default,
        detail.title_en is Some <==> lesson.title_en is Some,
        detail.title_en matches Some(l) ==> l.text@ == lesson.title_en->0@ && l.tone == Tone::Muted,
        detail.kc@.len() == lesson.kc@.len(),
        forall|i: int| 0 <= i < lesson.kc@.len() ==> (#[trigger] detail.kc@[i])@ == lesson.kc@[i]@,
        detail.minutes is Some <==> lesson.estimated_minutes is Some,
        detail.minutes matches Some(l) ==> l.text@ == "~"@ + decimal(
            lesson.estimated_minutes->0 as nat,
        ) + " min"@ && l.tone == Tone::Muted,
        detail.no_paste is Some <==> lesson.no_paste,
        detail.no_paste matches Some(l) ==> l.text@
            == "🔒 No-paste mode: type it out, don't paste AI answers."@ && l.tone == Tone::Warning,
        detail.task.text@
            == "任务说明在编辑器里的注释中 / Task description is in the code comments."@,
        detail.task.tone == Tone::Muted,
{
    assert(views(detail.kc@).len() == views(lesson.kc@).len());
    assert forall|i: int| 0 <= i < lesson.kc@.len() implies (#[trigger] detail.kc@[i])@
        == lesson.kc@[i]@ by {
        assert(views(detail.kc@)[i] == views(lesson.kc@)[i]);
    }
}

/// A button of an action has that id and that label, and does that.
pub proof fn law_buttons_do_what_they_say(
    button: ActionButton,
    id: Seq<char>,
    label: Seq<char>,
    action: LessonAction,
)
    ensures
        is_button(button, id, label, action) <==> button.id@ == id && button.label@ == label
            && button.action == action,
{
}

} // verus!
