use wolfcode_lessons::files::FilePath;
use wolfcode_lessons::outline::{
    build_outline, FoundChapter, FoundLesson, Lesson, LessonKind,
};
use wolfcode_lessons::panel::{
    entry_to_open, find_in_outline, lesson_detail, lesson_status, no_lesson, run_buttons,
    tutor_buttons, LessonAction, LessonPanel, LessonStatusFlags, OutlineRow, Refresh, StatusEntry,
    LESSON_PANEL_KEY, PASTE_BLOCKED,
};
use wolfcode_lessons::view::Tone;

fn file(text: &str) -> FilePath {
    FilePath {
        text: text.to_string(),
        key: text.to_string(),
        name: text.rsplit('/').next().map(|n| n.to_string()),
        exact_name: true,
        parent: None,
    }
}

fn lesson(id: &str, no_paste: bool) -> Lesson {
    Lesson {
        id: id.to_string(),
        title: format!("T {id}"),
        title_en: None,
        kind: None,
        no_paste,
        kc: Vec::new(),
        language: None,
        entry: Some(format!("{id}.py")),
        test: None,
        run: None,
        estimated_minutes: None,
        tests_pass_required: None,
    }
}

fn panel() -> LessonPanel {
    let mut panel = LessonPanel::new();
    panel.set_outline(build_outline(&vec![FoundChapter {
        slug: "01-loops".to_string(),
        lessons: vec![
            FoundLesson { lesson: lesson("a", true), entry_path: Some(file("/c/a.py")) },
            FoundLesson { lesson: lesson("b", false), entry_path: Some(file("/c/b.py")) },
        ],
    }]));
    panel
}

fn flags(tested_pass: bool, submitted_at: Option<i64>) -> LessonStatusFlags {
    LessonStatusFlags { tested_pass, submitted_at, test_count: 1, submit_count: 0 }
}

fn shown(row: &OutlineRow) -> String {
    match row {
        OutlineRow::Heading(l)
        | OutlineRow::Note(l)
        | OutlineRow::Chapter(l)
        | OutlineRow::Section(l) => l.text.clone(),
        OutlineRow::Lesson { label, marks, .. } => {
            let mut s = label.text.clone();
            for m in marks {
                s = format!("{s} {}", m.text);
            }
            s
        }
    }
}

#[test]
fn empty_panel_is_scanning() {
    let panel = LessonPanel::new();
    let rows: Vec<String> = panel.outline_rows().iter().map(shown).collect();
    assert_eq!(rows, vec!["Course Outline", "Scanning chapters…"]);
    assert!(panel.current_detail().is_none());
    assert_eq!(no_lesson().text, "Pick a lesson from the outline above.");
    assert_eq!(LESSON_PANEL_KEY, "LessonPanel");
}

#[test]
fn outline_rows_show_chapters_kinds_and_lessons() {
    let mut panel = panel();
    panel.set_status(vec![
        StatusEntry { lesson_id: "a".to_string(), flags: flags(true, Some(1)) },
        StatusEntry { lesson_id: "b".to_string(), flags: flags(true, None) },
    ]);
    panel.refresh_lesson(Some(file("/c/b.py")));
    let rows = panel.outline_rows();
    let texts: Vec<String> = rows.iter().map(shown).collect();
    assert_eq!(
        texts,
        vec![
            "Course Outline",
            "📂 Loops",
            "  ✏️ Exercises (2)",
            "○ T a ✓test ✓sub",
            "● T b ✓test",
        ]
    );
    match &rows[4] {
        OutlineRow::Lesson { label, marks, item } => {
            assert!(label.tone == Tone::Accent);
            assert!(marks[0].tone == Tone::Success);
            assert_eq!(item.entry_path.text, "/c/b.py");
        }
        _ => panic!(),
    }
    match &rows[3] {
        OutlineRow::Lesson { label, marks, .. } => {
            assert!(label.tone == Tone::Default);
            assert!(marks[1].tone == Tone::Info);
        }
        _ => panic!(),
    }
}

#[test]
fn status_of_a_lesson_is_the_latest() {
    let entries = vec![
        StatusEntry { lesson_id: "a".to_string(), flags: flags(false, None) },
        StatusEntry { lesson_id: "a".to_string(), flags: flags(true, Some(-3)) },
    ];
    assert_eq!(lesson_status(&entries, "a"), flags(true, Some(-3)));
    assert_eq!(lesson_status(&entries, "b"), LessonStatusFlags::default());
    assert_eq!(
        LessonStatusFlags::default(),
        LessonStatusFlags { tested_pass: false, submitted_at: None, test_count: 0, submit_count: 0 }
    );
}

#[test]
fn new_status_replaces_the_old() {
    let mut panel = panel();
    panel.set_status(vec![StatusEntry { lesson_id: "a".to_string(), flags: flags(true, None) }]);
    panel.set_status(Vec::new());
    assert_eq!(shown(&panel.outline_rows()[3]), "○ T a");
}

#[test]
fn opening_an_entry_file_brings_its_lesson_up() {
    let mut panel = panel();
    match panel.refresh_lesson(Some(file("/c/a.py"))) {
        Refresh::Shown(change) => assert!(change.paste_blocked && change.redraw),
        _ => panic!(),
    }
    let current = panel.current.as_ref().unwrap();
    assert_eq!(current.id, "a");
    assert_eq!(current.kind, Some(LessonKind::Exercise));
    assert_eq!(current.language, Some("python".to_string()));
    assert_eq!(current.entry, Some("a.py".to_string()));
    assert_eq!(panel.current_entry_path.as_ref().unwrap().text, "/c/a.py");
    assert!(matches!(panel.refresh_lesson(Some(file("/c/a.py"))), Refresh::Nothing));
    match panel.refresh_lesson(Some(file("/c/b.py"))) {
        Refresh::Shown(change) => assert!(!change.paste_blocked && change.redraw),
        _ => panic!(),
    }
}

#[test]
fn opening_another_file_changes_nothing() {
    let mut panel = panel();
    assert!(matches!(panel.refresh_lesson(None), Refresh::Nothing));
    assert!(matches!(panel.refresh_lesson(Some(file("/c/other.py"))), Refresh::Nothing));
    assert!(panel.current.is_none());
    assert!(find_in_outline(&panel.outline, &file("/c/other.py")).is_none());
    assert_eq!(find_in_outline(&panel.outline, &file("/c/b.py")).unwrap().id, "b");
}

#[test]
fn opening_a_description_loads_it() {
    let mut panel = panel();
    match panel.refresh_lesson(Some(file("/c/a.lesson.json"))) {
        Refresh::Load(path) => assert_eq!(path.text, "/c/a.lesson.json"),
        _ => panic!(),
    }
    assert!(panel.current.is_none());
}

#[test]
fn loaded_lesson_is_shown() {
    let mut panel = panel();
    let found = Some(lesson("a", true));
    assert_eq!(entry_to_open(&found), Some("a.py".to_string()));
    let change = panel.lesson_loaded(found, Some(file("/c/a.py")));
    assert!(change.paste_blocked && change.redraw);
    assert_eq!(panel.current.as_ref().unwrap().id, "a");
    let change = panel.lesson_loaded(Some(lesson("a", false)), None);
    assert!(!change.paste_blocked && !change.redraw);
    assert!(panel.current_entry_path.is_none());
}

#[test]
fn description_that_is_not_understood_keeps_the_lesson() {
    let mut panel = panel();
    panel.set_lesson(Some(lesson("a", true)));
    let change = panel.lesson_loaded(None, None);
    assert!(change.paste_blocked && change.redraw);
    assert_eq!(panel.current.as_ref().unwrap().id, "a");
    assert_eq!(entry_to_open(&None), None);
}

#[test]
fn no_lesson_blocks_no_paste() {
    let mut panel = LessonPanel::new();
    let change = panel.set_lesson(None);
    assert!(!change.paste_blocked && !change.redraw);
    panel.set_active(true);
    assert!(panel.active);
}

#[test]
fn lesson_details_are_shown() {
    let mut l = lesson("a", true);
    l.title_en = Some("en".to_string());
    l.kc = vec!["k1".to_string(), "k2".to_string()];
    l.estimated_minutes = Some(15);
    let d = lesson_detail(&l);
    assert_eq!(d.title.text, "T a");
    assert_eq!(d.title_en.unwrap().text, "en");
    assert_eq!(d.kc, vec!["k1".to_string(), "k2".to_string()]);
    assert_eq!(d.minutes.unwrap().text, "~15 min");
    let notice = d.no_paste.unwrap();
    assert_eq!(notice.text, "🔒 No-paste mode: type it out, don't paste AI answers.");
    assert!(notice.tone == Tone::Warning);
    assert_eq!(
        d.task.text,
        "任务说明在编辑器里的注释中 / Task description is in the code comments."
    );
    let d = lesson_detail(&lesson("b", false));
    assert!(d.title_en.is_none() && d.minutes.is_none() && d.no_paste.is_none());
}

#[test]
fn buttons_do_what_they_say() {
    let run: Vec<(&str, &str)> = run_buttons().iter().map(|b| (b.id, b.label)).collect();
    assert_eq!(
        run,
        vec![("wolf-run", "▶  Run"), ("wolf-test", "✓  Test"), ("wolf-submit", "↗  Submit")]
    );
    assert!(run_buttons()[2].action == LessonAction::Submit);
    let ask: Vec<(&str, &str)> = tutor_buttons().iter().map(|b| (b.id, b.label)).collect();
    assert_eq!(
        ask,
        vec![
            ("wolf-l1", "💡  Hint Level 1 (where)"),
            ("wolf-l2", "💡  Hint Level 2 (concept)"),
            ("wolf-l3", "💡  Hint Level 3 (analogy)"),
        ]
    );
    assert!(tutor_buttons()[0].action == LessonAction::AskL1);
    assert!(PASTE_BLOCKED.starts_with("🔒 Paste is disabled for this lesson."));
}
