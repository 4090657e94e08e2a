use wolfcode_lessons::files::{
    build_run_command, build_test_command, context_with_course_id, derive_lesson_id,
    derive_submission_context, lesson_id_for_status, lesson_id_of_name,
    lesson_id_with_stem_name, lesson_stem,
    next_course_walk, read_course_id, same_path, shown_test_file_of, start_course_walk,
    student_file_of, test_file_of, CourseRoot, CourseWalk, FilePath, Place,
    TestProbe,
};

fn path(text: &str) -> FilePath {
    let cut = text.rfind('/');
    FilePath {
        text: text.to_string(),
        key: text.to_string(),
        name: Some(text[cut.map_or(0, |i| i + 1)..].to_string()),
        exact_name: true,
        parent: Some(text[..cut.unwrap_or(0)].to_string()),
    }
}

fn bare(text: &str) -> FilePath {
    FilePath {
        text: text.to_string(),
        key: text.to_string(),
        name: None,
        exact_name: false,
        parent: None,
    }
}

#[test]
fn run_command_is_one_line_without_arguments() {
    let (label, command, args, cwd) = build_run_command(&path("/c/ch/01-first.py")).unwrap();
    assert_eq!(label, "python 01-first.py");
    assert_eq!(command, "python 01-first.py");
    assert!(args.is_empty());
    assert_eq!(cwd, "/c/ch");
}

#[test]
fn only_python_files_run() {
    assert!(build_run_command(&path("/c/notes.txt")).is_none());
    assert!(build_run_command(&bare("/.py")).is_none());
}

#[test]
fn test_command_has_its_arguments_apart() {
    let probe = TestProbe { file: path("/c/a.test.py"), exists: true };
    let (label, command, args, cwd) = build_test_command(&path("/c/a.py"), &probe).unwrap();
    assert_eq!(label, "python -m pytest a.test.py");
    assert_eq!(command, "python");
    assert_eq!(args, vec!["-m".to_string(), "pytest".to_string(), "a.test.py".to_string()]);
    assert_eq!(cwd, "/c");
    assert_eq!(
        build_test_command(&path("/c/a.test.py"), &probe),
        build_test_command(&path("/c/a.py"), &probe)
    );
}

#[test]
fn no_test_command_without_a_test_file() {
    let probe = TestProbe { file: path("/c/a.test.py"), exists: false };
    assert!(build_test_command(&path("/c/a.py"), &probe).is_none());
    let probe = TestProbe { file: path("/c/a.txt"), exists: true };
    assert!(build_test_command(&path("/c/a.txt"), &probe).is_none());
}

fn at(place: Place) -> Option<String> {
    match place {
        Place::Same => None,
        Place::At(text) => Some(text),
    }
}

#[test]
fn test_file_and_student_file_lead_to_each_other() {
    assert_eq!(test_file_of(&path("/c/a.py")).map(at), Some(Some("/c/a.test.py".to_string())));
    assert_eq!(test_file_of(&path("/c/a.test.py")).map(at), Some(None));
    assert_eq!(test_file_of(&path("/c/a.md")).map(at), None);
    assert_eq!(at(student_file_of(&path("/c/a.test.py"))), Some("/c/a.py".to_string()));
    assert_eq!(at(student_file_of(&path("/c/a.py"))), None);
    assert_eq!(at(student_file_of(&path("/c/a.test.py.test.py"))), Some("/c/a.py".to_string()));
    assert_eq!(at(shown_test_file_of(&path("/c/a.py"))), Some("/c/a.test.py".to_string()));
    assert_eq!(at(shown_test_file_of(&path("/c/a.py.py"))), Some("/c/a.test.py".to_string()));
    assert_eq!(at(shown_test_file_of(&path("/c/a.test.py"))), None);
}

#[test]
fn all_files_of_a_lesson_have_its_id() {
    for name in ["01-x.py", "01-x.test.py", "01-x.lesson.json"] {
        assert_eq!(lesson_id_of_name(name), "01-x");
    }
    assert_eq!(lesson_id_of_name("readme"), "readme");
    assert_eq!(lesson_id_of_name("a.test.test.py"), "a.test");
}

#[test]
fn status_key_is_the_stem_of_the_entry_file() {
    assert_eq!(lesson_id_for_status(&path("/c/01-x.py")), "01-x");
    assert_eq!(lesson_id_for_status(&path("/c/a.test.py")), "a");
    assert_eq!(lesson_id_for_status(&path("/c/a.lesson.json")), "a");
    assert_eq!(lesson_id_for_status(&path("/c/01-x.md")), "01-x.md");
    assert_eq!(lesson_id_for_status(&bare("/")), "");
    let mut replaced = path("/c/\u{fffd}.py");
    replaced.exact_name = false;
    assert_eq!(lesson_id_for_status(&replaced), "");
    for name in ["/c/01-x.py", "/c/a.test.py", "/c/a.lesson.json", "/c/a.md"] {
        let (lesson_id, _, _) = derive_submission_context(&path(name), &None);
        assert_eq!(lesson_id_for_status(&path(name)), lesson_id);
    }
}

#[test]
fn asked_lesson_is_the_stem_of_a_lesson_file() {
    assert_eq!(lesson_stem(&path("/c/01-x.lesson.json")), Some("/c/01-x".to_string()));
    assert_eq!(lesson_stem(&path("/c/01-x.test.py")), Some("/c/01-x".to_string()));
    assert_eq!(lesson_stem(&path("/c/01-x.py")), Some("/c/01-x".to_string()));
    assert_eq!(lesson_stem(&path("/c/01-x.md")), None);
    assert_eq!(derive_lesson_id(&path("/c/01-x.py")), "01-x");
    assert_eq!(derive_lesson_id(&path("01-x.test.py")), "01-x");
    assert_eq!(derive_lesson_id(&path("/c/01-x.lesson.json")), "01-x");
    assert_eq!(derive_lesson_id(&path("/c/01-x.md")), "01-x.md");
    assert_eq!(derive_lesson_id(&path("/c/.py")), "c");
    assert_eq!(derive_lesson_id(&path("/.py")), ".py");
    assert_eq!(derive_lesson_id(&path("/c/./.py")), "c");
    assert_eq!(derive_lesson_id(&path("/c/..py")), "c");
    assert_eq!(derive_lesson_id(&path("/c/...py")), "...py");
    assert_eq!(derive_lesson_id(&path("/c/a:b.py")), "a:b");
    assert_eq!(derive_lesson_id(&bare("/")), "unknown");
    assert_eq!(
        lesson_id_with_stem_name(&path("/c/01-x.py"), Some("01-x".to_string())),
        "01-x"
    );
    assert_eq!(lesson_id_with_stem_name(&path("/c/01-x.py"), None), "01-x.py");
    for name in ["/c/01-x.py", "/c/a.test.py", "/c/a.lesson.json", "/c/a.md"] {
        let (lesson_id, _, _) = derive_submission_context(&path(name), &None);
        assert_eq!(derive_lesson_id(&path(name)), lesson_id);
    }
}

#[test]
fn course_id_comes_from_course_json() {
    assert_eq!(read_course_id(b"{\"id\":\"csc141\",\"n\":1}"), Some("csc141".to_string()));
    assert_eq!(read_course_id(b"{\"id\":7}"), None);
    assert_eq!(read_course_id(b"{\"name\":\"x\"}"), None);
    assert_eq!(read_course_id(b"[1]"), None);
    assert_eq!(read_course_id(b"no json"), None);
}

#[test]
fn context_inside_a_course() {
    let root = CourseRoot {
        course_json: Some(b"{\"id\":\"csc141\"}".to_vec()),
        name: Some("dir".to_string()),
        relative: Some("ch/a.py".to_string()),
    };
    assert_eq!(
        derive_submission_context(&path("/dir/ch/a.py"), &Some(root)),
        ("a".to_string(), "csc141".to_string(), "ch/a.py".to_string())
    );
}

#[test]
fn context_falls_back_to_the_directory_and_the_name() {
    let root = CourseRoot { course_json: None, name: Some("dir".to_string()), relative: None };
    assert_eq!(
        derive_submission_context(&path("/dir/a.test.py"), &Some(root)),
        ("a".to_string(), "dir".to_string(), "a.test.py".to_string())
    );
    let root = CourseRoot { course_json: Some(b"{}".to_vec()), name: None, relative: None };
    assert_eq!(
        derive_submission_context(&path("/a.py"), &Some(root)),
        ("a".to_string(), "unknown".to_string(), "a.py".to_string())
    );
    assert_eq!(
        derive_submission_context(&bare("/"), &None),
        ("unknown".to_string(), "unknown".to_string(), "unknown".to_string())
    );
    assert_eq!(
        context_with_course_id(&path("/a.py"), &None, Some("x".to_string())),
        ("a".to_string(), "unknown".to_string(), "a.py".to_string())
    );
}

#[test]
fn course_search_goes_up_ten_levels() {
    assert_eq!(start_course_walk(false) == CourseWalk::NotFound, true);
    let mut walk = start_course_walk(true);
    let mut looks = 0;
    while let CourseWalk::Look(level) = walk {
        looks += 1;
        walk = next_course_walk(level, false, true);
    }
    assert_eq!(looks, 10);
    assert!(walk == CourseWalk::NotFound);
    assert!(next_course_walk(3, true, true) == CourseWalk::Found(3));
    assert!(next_course_walk(3, false, false) == CourseWalk::NotFound);
    assert!(next_course_walk(3, false, true) == CourseWalk::Look(4));
}

#[test]
fn paths_are_the_same_by_their_components() {
    let mut a = path("/c/./a.py");
    a.key = "/c/a.py".to_string();
    assert!(same_path(&a, &path("/c/a.py")));
    assert!(!same_path(&path("/c/b.py"), &path("/c/a.py")));
    let b = a.clone();
    assert_eq!((b.text, b.key, b.name, b.exact_name, b.parent), (a.text, a.key, a.name, a.exact_name, a.parent));
}
