use wolfcode_lessons::files::FilePath;
use wolfcode_lessons::outline::{
    build_outline, describes_lesson, keep_chapters, scan_outline, title_case_slug, FoundChapter,
    FoundLesson, Lesson, LessonKind, ListedEntry, ListedFile,
};

fn lesson(id: &str, title: &str, kind: Option<LessonKind>, entry: Option<&str>) -> FoundLesson {
    FoundLesson {
        lesson: Lesson {
            id: id.to_string(),
            title: title.to_string(),
            title_en: None,
            kind,
            no_paste: false,
            kc: Vec::new(),
            language: None,
            entry: entry.map(|e| e.to_string()),
            test: None,
            run: None,
            estimated_minutes: None,
            tests_pass_required: None,
        },
        entry_path: entry.map(|e| FilePath {
            text: e.to_string(),
            key: e.to_string(),
            name: Some(e.to_string()),
            exact_name: true,
            parent: None,
        }),
    }
}

fn chapter(slug: &str, lessons: Vec<FoundLesson>) -> FoundChapter {
    FoundChapter { slug: slug.to_string(), lessons }
}

#[test]
fn slug_becomes_a_title() {
    assert_eq!(title_case_slug("01-variables-types"), "Variables Types");
    assert_eq!(title_case_slug("10--loops"), "Loops");
    assert_eq!(title_case_slug("intro"), "Intro");
    assert_eq!(title_case_slug("3"), "");
    assert_eq!(title_case_slug("02-If-else 2x-été"), "If Else 2x été");
    assert_eq!(title_case_slug(""), "");
}

#[test]
fn kinds_have_signs_and_headings() {
    assert_eq!(LessonKind::default(), LessonKind::Exercise);
    assert_eq!((LessonKind::Example.icon(), LessonKind::Example.label()), ("📘", "Examples"));
    assert_eq!((LessonKind::Exercise.icon(), LessonKind::Exercise.label()), ("✏️", "Exercises"));
    assert_eq!((LessonKind::Homework.icon(), LessonKind::Homework.label()), ("📝", "Homework"));
    assert_eq!((LessonKind::Challenge.icon(), LessonKind::Challenge.label()), ("🧠", "Challenges"));
}

#[test]
fn descriptions_are_known_by_their_ending() {
    assert!(describes_lesson("01-x.lesson.json"));
    assert!(!describes_lesson("course.json"));
}

#[test]
fn chapters_come_in_the_order_of_their_names() {
    let out = build_outline(&vec![
        chapter("02-b", Vec::new()),
        chapter("01-a", Vec::new()),
        chapter("10-c", Vec::new()),
    ]);
    let slugs: Vec<&str> = out.iter().map(|c| c.slug.as_str()).collect();
    assert_eq!(slugs, vec!["01-a", "02-b", "10-c"]);
    assert_eq!(out[0].display, "A");
    assert!(out[0].sections.is_empty());
    assert!(build_outline(&Vec::new()).is_empty());
}

#[test]
fn lessons_are_grouped_by_kind_and_sorted_by_id() {
    let out = build_outline(&vec![chapter(
        "01-a",
        vec![
            lesson("h1", "H", Some(LessonKind::Homework), Some("h.py")),
            lesson("e2", "E2", None, Some("e2.py")),
            lesson("x1", "X", Some(LessonKind::Example), Some("x.py")),
            lesson("e1", "E1", Some(LessonKind::Exercise), Some("e1.py")),
            lesson("e2", "second", Some(LessonKind::Exercise), Some("e2b.py")),
            lesson("e0", "lost", None, None),
        ],
    )]);
    assert_eq!(out.len(), 1);
    let kinds: Vec<LessonKind> = out[0].sections.iter().map(|s| s.kind).collect();
    assert_eq!(kinds, vec![LessonKind::Example, LessonKind::Exercise, LessonKind::Homework]);
    let titles: Vec<&str> = out[0].sections[1].items.iter().map(|i| i.title.as_str()).collect();
    assert_eq!(titles, vec!["E1", "E2", "second"]);
    assert_eq!(out[0].sections[0].items[0].entry_path.text, "x.py");
}

#[test]
fn directories_of_one_name_are_one_chapter() {
    let out = build_outline(&vec![
        chapter("a", vec![lesson("2", "two", None, Some("2.py"))]),
        chapter("b", Vec::new()),
        chapter("a", vec![lesson("1", "one", None, Some("1.py"))]),
    ]);
    assert_eq!(out.len(), 2);
    let ids: Vec<&str> = out[0].sections[0].items.iter().map(|i| i.id.as_str()).collect();
    assert_eq!(ids, vec!["1", "2"]);
}

#[test]
fn order_of_finding_makes_no_difference() {
    let one = build_outline(&vec![chapter(
        "a",
        vec![lesson("2", "x", None, Some("x")), lesson("1", "y", None, Some("y"))],
    )]);
    let other = build_outline(&vec![chapter(
        "a",
        vec![lesson("1", "y", None, Some("y")), lesson("2", "x", None, Some("x"))],
    )]);
    let ids = |o: &Vec<wolfcode_lessons::outline::ChapterGroup>| {
        o[0].sections[0].items.iter().map(|i| i.id.clone()).collect::<Vec<_>>()
    };
    assert_eq!(ids(&one), ids(&other));
}

fn listed(name: Option<&str>, lesson: Option<FoundLesson>) -> Option<ListedFile> {
    Some(ListedFile { name: name.map(|n| n.to_string()), lesson })
}

fn entry(name: Option<&str>, is_dir: bool, files: Option<Vec<Option<ListedFile>>>) -> Option<ListedEntry> {
    Some(ListedEntry { name: name.map(|n| n.to_string()), is_dir, files })
}

#[test]
fn only_directories_with_lessons_are_chapters() {
    let found = keep_chapters(vec![
        None,
        entry(None, true, Some(Vec::new())),
        entry(Some("notes.txt"), false, Some(Vec::new())),
        entry(Some("02-empty"), true, None),
        entry(Some("01-a"), true, Some(Vec::new())),
    ]);
    assert_eq!(found.len(), 1);
    assert_eq!(found[0].slug, "01-a");
    assert!(found[0].lessons.is_empty());
}

#[test]
fn only_descriptions_that_are_understood_are_lessons() {
    let out = scan_outline(vec![
        entry(
            Some("02-b"),
            true,
            Some(vec![
                None,
                listed(None, Some(lesson("x", "X", None, Some("x.py")))),
                listed(Some("x.py"), Some(lesson("x", "X", None, Some("x.py")))),
                listed(Some("bad.lesson.json"), None),
                listed(Some("two.lesson.json"), Some(lesson("2", "Two", None, Some("2.py")))),
                listed(Some("one.lesson.json"), Some(lesson("1", "One", None, Some("1.py")))),
                listed(Some("bare.lesson.json"), Some(lesson("0", "Bare", None, None))),
            ]),
        ),
        entry(Some("01-a"), true, Some(Vec::new())),
    ]);
    assert_eq!(out.len(), 2);
    assert_eq!(out[1].slug, "02-b");
    let titles: Vec<&str> = out[1].sections[0].items.iter().map(|i| i.title.as_str()).collect();
    assert_eq!(titles, vec!["One", "Two"]);
    assert!(scan_outline(Vec::new()).is_empty());
}

#[test]
fn scanning_does_not_depend_on_the_listing_order() {
    let files = |reversed: bool| {
        let mut files = vec![
            listed(Some("a.lesson.json"), Some(lesson("1", "A", None, Some("a.py")))),
            listed(Some("b.lesson.json"), Some(lesson("2", "B", Some(LessonKind::Homework), Some("b.py")))),
            listed(Some("c.lesson.json"), Some(lesson("3", "C", None, Some("c.py")))),
        ];
        if reversed {
            files.reverse();
        }
        Some(files)
    };
    let one = scan_outline(vec![
        entry(Some("02-b"), true, files(false)),
        entry(Some("01-a"), true, files(true)),
    ]);
    let other = scan_outline(vec![
        entry(Some("01-a"), true, files(false)),
        entry(Some("02-b"), true, files(true)),
    ]);
    let shown = |o: &Vec<wolfcode_lessons::outline::ChapterGroup>| {
        o.iter()
            .map(|c| {
                let ids: Vec<Vec<String>> = c
                    .sections
                    .iter()
                    .map(|s| s.items.iter().map(|i| i.id.clone()).collect())
                    .collect();
                (c.slug.clone(), ids)
            })
            .collect::<Vec<_>>()
    };
    assert_eq!(shown(&one), shown(&other));
    assert_eq!(shown(&one)[0].0, "01-a");
    assert_eq!(shown(&one)[0].1, vec![vec!["1", "3"], vec!["2"]]);
}
