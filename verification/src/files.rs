//! Lesson files: which file a student runs, which file tests it, which lesson
//! and which course a file belongs to.
//!
//! How a path falls into its parts is the platform's affair, so a path comes
//! here with its parts already taken.

use crate::json::{json_read_bytes, member, read_text_member, text_member, JsonTree};
use crate::text::{
    ends_with, law_endings_come_off, opt_view, same_text, strip_suffix, trim_end_matches, views,
    without_suffix, without_suffixes,
};
use vstd::prelude::*;

verus! {

/// A path and the parts of it that the lesson tools look at. A path need not be
/// Unicode: what is text here is the path or a part of it with what is no
/// Unicode replaced, and what is a key names a path without loss.
pub struct FilePath {
    /// The whole path as text.
    pub text: String,
    /// The key of the path: two paths have the same components exactly where
    /// their keys are equal.
    pub key: String,
    /// The final component, where the path ends in a name.
    pub name: Option<String>,
    /// Whether the name is Unicode as it stands, so that nothing was replaced
    /// to write it as text.
    pub exact_name: bool,
    /// The key of the directory that holds the file, where the path has one.
    pub parent: Option<String>,
}

impl Clone for FilePath {
    fn clone(&self) -> (r: Self)
        ensures
            r == *self,
    {
        FilePath {
            text: self.text.clone(),
            key: self.key.clone(),
            name: match &self.name {
                Some(name) => Some(name.clone()),
                None => None,
            },
            exact_name: self.exact_name,
            parent: match &self.parent {
                Some(parent) => Some(parent.clone()),
                None => None,
            },
        }
    }
}

/// Whether a character may stand right before the final component of a path.
pub open spec fn is_separator(c: char) -> bool {
    c == '/' || c == '\\' || c == ':'
}

/// Whether a text ends in a name: the name is all of it, or stands behind a
/// separator.
pub open spec fn ends_in(text: Seq<char>, name: Seq<char>) -> bool {
    &&& name.is_suffix_of(text)
    &&& text.len() == name.len() || is_separator(text[text.len() - name.len() - 1])
}

/// Whether a path is read alike on every platform: its components are what
/// stands between slashes.
pub open spec fn is_slash_path(text: Seq<char>) -> bool {
    &&& !text.contains('\\') && !text.contains(':')
    &&& !"//"@.is_prefix_of(text)
}

/// What follows the last slash of a text.
pub open spec fn after_slash(text: Seq<char>) -> Seq<char>
    decreases text.len(),
{
    if text.len() == 0 || text.last() == '/' {
        seq![]
    } else {
        after_slash(text.drop_last()).push(text.last())
    }
}

/// The name that a path ends in whose components stand between slashes. Slashes
/// at its end, and dots alone behind a slash, do not count; a path that then
/// ends in two dots ends in no name.
pub open spec fn slash_name(text: Seq<char>) -> Option<Seq<char>>
    decreases text.len(),
{
    if text.len() == 0 || text == "."@ {
        None
    } else if text.last() == '/' || "/."@.is_suffix_of(text) {
        slash_name(text.drop_last())
    } else if after_slash(text) == ".."@ {
        None
    } else {
        Some(after_slash(text))
    }
}

impl FilePath {
    /// What holds of the parts of any path. A path that ends in a name has a
    /// directory, and its text ends in that name, unless separators or dots
    /// follow, which may name the same file.
    pub open spec fn well_formed(self) -> bool {
        &&& is_slash_path(self.text@) ==> opt_view(self.name) == slash_name(self.text@)
        &&& self.exact_name ==> self.name is Some
        &&& self.name matches Some(name) ==> {
            &&& self.parent is Some
            &&& name@.len() > 0
            &&& self.text@.len() > 0
            &&& self.text@.last() != '/' && self.text@.last() != '\\' && self.text@.last() != '.'
                ==> ends_in(self.text@, name@)
        }
    }
}

/// Whether two paths are the same.
pub fn same_path(a: &FilePath, b: &FilePath) -> (r: bool)
    ensures
        r == (a.key@ == b.key@),
{
    same_text(a.key.as_str(), b.key.as_str())
}

// ---------------------------------------------------------------------------
// Lesson ids
// ---------------------------------------------------------------------------

/// The lesson that a file name stands for: the name without `.test.py`,
/// `.lesson.json` or `.py`, whichever of them it ends with first.
pub open spec fn lesson_of_name(name: Seq<char>) -> Seq<char> {
    match without_suffix(name, ".test.py"@) {
        Some(stem) => stem,
        None => match without_suffix(name, ".lesson.json"@) {
            Some(stem) => stem,
            None => match without_suffix(name, ".py"@) {
                Some(stem) => stem,
                None => name,
            },
        },
    }
}

/// The lesson that a file name stands for.
pub fn lesson_id_of_name(name: &str) -> (r: String)
    ensures
        r@ == lesson_of_name(name@),
{
    match strip_suffix(name, ".test.py") {
        Some(stem) => stem,
        None => match strip_suffix(name, ".lesson.json") {
            Some(stem) => stem,
            None => match strip_suffix(name, ".py") {
                Some(stem) => stem,
                None => name.to_string(),
            },
        },
    }
}

/// The key under which the status of a lesson is kept: the lesson that the name
/// of its entry file stands for; empty where the name is missing or is no
/// Unicode.
pub open spec fn status_key(path: FilePath) -> Seq<char> {
    match path.name {
        Some(name) => if path.exact_name {
            lesson_of_name(name@)
        } else {
            seq![]
        },
        None => seq![],
    }
}

/// The key under which the status of the lesson with this entry file is kept.
pub fn lesson_id_for_status(entry_path: &FilePath) -> (r: String)
    ensures
        r@ == status_key(*entry_path),
{
    match &entry_path.name {
        Some(name) => if entry_path.exact_name {
            lesson_id_of_name(name.as_str())
        } else {
            String::new()
        },
        None => String::new(),
    }
}

/// A path text without `.lesson.json`, `.test.py` or `.py`, whichever of them
/// it ends with first.
pub open spec fn stem_of(text: Seq<char>) -> Option<Seq<char>> {
    match without_suffix(text, ".lesson.json"@) {
        Some(stem) => Some(stem),
        None => match without_suffix(text, ".test.py"@) {
            Some(stem) => Some(stem),
            None => without_suffix(text, ".py"@),
        },
    }
}

/// The path text that is left when the ending of a lesson file is taken off;
/// nothing for any other file.
pub fn lesson_stem(path: &FilePath) -> (r: Option<String>)
    ensures
        opt_view(r) == stem_of(path.text@),
{
    match strip_suffix(path.text.as_str(), ".lesson.json") {
        Some(stem) => Some(stem),
        None => match strip_suffix(path.text.as_str(), ".test.py") {
            Some(stem) => Some(stem),
            None => strip_suffix(path.text.as_str(), ".py"),
        },
    }
}

/// The name of a file, or `unknown` for a path that does not end in one.
pub open spec fn name_or_unknown(name: Option<Seq<char>>) -> Seq<char> {
    match name {
        Some(name) => name,
        None => "unknown"@,
    }
}

/// The name of a file, or `unknown` for a path that does not end in one.
fn known_name(path: &FilePath) -> (r: String)
    ensures
        r@ == name_or_unknown(opt_view(path.name)),
{
    match &path.name {
        Some(name) => name.clone(),
        None => "unknown".to_string(),
    }
}

/// The lesson that a question to the tutor is about, given the name in which
/// the stem of the path ends: that name, where the file is a lesson file and
/// its stem ends in a name, and the name of the file otherwise.
pub open spec fn asked_lesson(path: FilePath, stem_name: Option<Seq<char>>) -> Seq<char> {
    match stem_of(path.text@) {
        Some(_) => match stem_name {
            Some(name) => name,
            None => name_or_unknown(opt_view(path.name)),
        },
        None => name_or_unknown(opt_view(path.name)),
    }
}

/// The lesson that a question to the tutor is about, given the final component
/// of the path that `lesson_stem` left.
pub fn lesson_id_with_stem_name(path: &FilePath, stem_name: Option<String>) -> (r: String)
    ensures
        r@ == asked_lesson(*path, opt_view(stem_name)),
{
    match lesson_stem(path) {
        Some(_) => match stem_name {
            Some(name) => name,
            None => known_name(path),
        },
        None => known_name(path),
    }
}

/// Whether `name` can be the final component of the path `text`: a piece of it,
/// and the name behind the last slash where every platform reads the path alike.
pub open spec fn can_be_final(text: Seq<char>, name: Option<Seq<char>>) -> bool {
    &&& is_slash_path(text) ==> name == slash_name(text)
    &&& name matches Some(name) ==> {
        &&& name.len() > 0
        &&& name != ".."@
        &&& exists|i: int|
            0 <= i && i + name.len() <= text.len() && name == #[trigger] text.subrange(
                i,
                i + name.len(),
            )
    }
}

/// `std::path::Path::file_name`, the final component of a path. Where slashes
/// alone can part the path, it is the name behind the last slash; slashes at
/// the end and single dots are passed over, and two dots are no name. A
/// backslash, a colon or two slashes at the start are read differently on
/// different platforms: of a path with these no more is said than that the
/// component is a piece of it.
#[verifier::external_body]
fn final_component(text: &str) -> (r: Option<String>)
    ensures
        can_be_final(text@, opt_view(r)),
{
    match std::path::Path::new(text).file_name() {
        Some(name) => Some(name.to_string_lossy().into_owned()),
        None => None,
    }
}

/// Whether a text can name a file: it is not empty and no dots alone.
pub open spec fn names_a_file(text: Seq<char>) -> bool {
    text.len() > 0 && text != "."@ && text != ".."@
}

/// Whether the text of a path ends in the name of the file, and something that
/// can name a file is left of that name without the ending of a lesson file.
pub open spec fn shows_lesson(path: FilePath) -> bool {
    path.name matches Some(name) && name@.is_suffix_of(path.text@) && names_a_file(
        lesson_of_name(name@),
    )
}

/// The lesson that the name of a file stands for, where the text of the path
/// ends in that name and it stands for one.
fn lesson_shown(path: &FilePath) -> (r: Option<String>)
    ensures
        opt_view(r) == (if shows_lesson(*path) {
            Some(lesson_of_name(path.name->0@))
        } else {
            None
        }),
{
    match &path.name {
        None => None,
        Some(name) => {
            let lesson = lesson_id_of_name(name.as_str());
            proof {
                reveal_strlit("");
                assert(lesson@.len() == 0 ==> lesson@ =~= ""@);
            }
            let is_name = !same_text(lesson.as_str(), "") && !same_text(lesson.as_str(), ".")
                && !same_text(lesson.as_str(), "..");
            if ends_with(path.text.as_str(), name.as_str()) && is_name {
                Some(lesson)
            } else {
                None
            }
        },
    }
}

/// Whether `id` is the lesson that a question to the tutor about a file is
/// about: the lesson that the name of the file stands for, where the path ends
/// in that name and it stands for one. For any other path it is the final
/// component of what is left of a lesson file's path without its ending, or
/// else the name of the file.
pub open spec fn is_asked_lesson(path: FilePath, id: Seq<char>) -> bool {
    if shows_lesson(path) {
        id == lesson_of_name(path.name->0@)
    } else {
        exists|stem_name: Option<Seq<char>>|
            id == #[trigger] asked_lesson(path, stem_name) && (stem_of(path.text@) matches Some(
                stem,
            ) ==> can_be_final(stem, stem_name))
    }
}

/// The lesson that a question to the tutor is about: the final component of
/// what is left of a lesson file's path without its ending, or else the name
/// of the file. Where the path ends in the name of the file, that component is
/// at hand: it is the name without the ending.
pub fn derive_lesson_id(path: &FilePath) -> (r: String)
    ensures
        is_asked_lesson(*path, r@),
{
    if let Some(lesson) = lesson_shown(path) {
        return lesson;
    }
    let stem_name = match lesson_stem(path) {
        Some(stem) => final_component(stem.as_str()),
        None => None,
    };
    let ghost name = opt_view(stem_name);
    let r = lesson_id_with_stem_name(path, stem_name);
    assert(r@ == asked_lesson(*path, name));
    r
}

// ---------------------------------------------------------------------------
// Commands
// ---------------------------------------------------------------------------

/// A command as the student sees it, the program and arguments that carry it
/// out, and the key of the directory to run it in.
pub ghost struct CommandView {
    pub label: Seq<char>,
    pub command: Seq<char>,
    pub args: Seq<Seq<char>>,
    pub cwd: Seq<char>,
}

/// The parts of a command.
pub open spec fn command_view(c: (String, String, Vec<String>, String)) -> CommandView {
    CommandView { label: c.0@, command: c.1@, args: views(c.2@), cwd: c.3@ }
}

/// The parts of an optional command.
pub open spec fn opt_command_view(c: Option<(String, String, Vec<String>, String)>) -> Option<
    CommandView,
> {
    match c {
        Some(c) => Some(command_view(c)),
        None => None,
    }
}

/// The command that runs a Python file: one line, with nothing split off into
/// arguments, so that the terminal shows it whole.
pub open spec fn run_command(path: FilePath) -> Option<CommandView> {
    match (path.name, path.parent) {
        (Some(name), Some(parent)) => if ".py"@.is_suffix_of(path.text@) {
            Some(
                CommandView {
                    label: "python "@ + name@,
                    command: "python "@ + name@,
                    args: seq![],
                    cwd: parent@,
                },
            )
        } else {
            None
        },
        _ => None,
    }
}

/// The command that runs a Python file: label, command, arguments, directory.
pub fn build_run_command(path: &FilePath) -> (r: Option<(String, String, Vec<String>, String)>)
    ensures
        opt_command_view(r) == run_command(*path),
{
    if !ends_with(path.text.as_str(), ".py") {
        return None;
    }
    match (&path.name, &path.parent) {
        (Some(name), Some(parent)) => {
            let full = "python ".to_string().concat(name.as_str());
            let args: Vec<String> = Vec::new();
            let r = (full.clone(), full, args, parent.clone());
            assert(views(r.2@) =~= seq![]);
            Some(r)
        },
        _ => None,
    }
}

/// Where a file is, as seen from another one.
pub enum Place {
    /// It is that very file.
    Same,
    /// It is at the path of this text.
    At(String),
}

/// Where a file is, as seen from another one.
pub ghost enum PlaceView {
    Same,
    At(Seq<char>),
}

impl View for Place {
    type V = PlaceView;

    open spec fn view(&self) -> PlaceView {
        match *self {
            Place::Same => PlaceView::Same,
            Place::At(text) => PlaceView::At(text@),
        }
    }
}

/// The text of the path at a place, as seen from the file of that text.
pub open spec fn text_at(place: PlaceView, text: Seq<char>) -> Seq<char> {
    match place {
        PlaceView::Same => text,
        PlaceView::At(other) => other,
    }
}

/// Whether `file` is the one at a place, as seen from `path`.
pub open spec fn is_at(file: FilePath, place: PlaceView, path: FilePath) -> bool {
    match place {
        PlaceView::Same => file == path,
        PlaceView::At(text) => file.text@ == text,
    }
}

/// Where the file is that tests a Python file: itself, where it is a test
/// file, and else beside it.
pub open spec fn test_place(text: Seq<char>) -> Option<PlaceView> {
    if ".test.py"@.is_suffix_of(text) {
        Some(PlaceView::Same)
    } else {
        match without_suffix(text, ".py"@) {
            Some(stem) => Some(PlaceView::At(stem + ".test.py"@)),
            None => None,
        }
    }
}

/// Where the file is that tests this one; nothing where this is no Python
/// file.
pub fn test_file_of(path: &FilePath) -> (r: Option<Place>)
    ensures
        match test_place(path.text@) {
            Some(place) => r matches Some(found) && found@ == place,
            None => r is None,
        },
{
    if ends_with(path.text.as_str(), ".test.py") {
        return Some(Place::Same);
    }
    match strip_suffix(path.text.as_str(), ".py") {
        Some(stem) => Some(Place::At(stem.concat(".test.py"))),
        None => None,
    }
}

/// What was found at the place where a test file should be.
pub struct TestProbe {
    /// The file that was looked for.
    pub file: FilePath,
    /// Whether there is a file.
    pub exists: bool,
}

/// The command that tests a Python file, given what was found at the place of
/// its test file. The program is started without a shell, so the arguments
/// stand apart.
pub open spec fn test_command(text: Seq<char>, probe: TestProbe) -> Option<CommandView> {
    match (probe.file.name, probe.file.parent) {
        (Some(name), Some(parent)) => if test_place(text) is Some && probe.exists {
            Some(
                CommandView {
                    label: "python -m pytest "@ + name@,
                    command: "python"@,
                    args: seq!["-m"@, "pytest"@, name@],
                    cwd: parent@,
                },
            )
        } else {
            None
        },
        _ => None,
    }
}

/// The command that tests a Python file: label, command, arguments, directory.
/// `probe` tells what is at the place that `test_file_of` gave.
pub fn build_test_command(path: &FilePath, probe: &TestProbe) -> (r: Option<
    (String, String, Vec<String>, String),
>)
    requires
        test_place(path.text@) matches Some(place) ==> is_at(probe.file, place, *path),
    ensures
        opt_command_view(r) == test_command(path.text@, *probe),
{
    if test_file_of(path).is_none() || !probe.exists {
        return None;
    }
    match (&probe.file.name, &probe.file.parent) {
        (Some(name), Some(parent)) => {
            let label = "python -m pytest ".to_string().concat(name.as_str());
            let mut args: Vec<String> = Vec::new();
            args.push("-m".to_string());
            args.push("pytest".to_string());
            args.push(name.clone());
            let r = (label, "python".to_string(), args, parent.clone());
            assert(views(r.2@) =~= seq!["-m"@, "pytest"@, name@]);
            Some(r)
        },
        _ => None,
    }
}

/// Where the student's code is, seen from a lesson's code or test file.
pub open spec fn student_place(text: Seq<char>) -> PlaceView {
    if ".test.py"@.is_suffix_of(text) {
        PlaceView::At(without_suffixes(text, ".test.py"@) + ".py"@)
    } else {
        PlaceView::Same
    }
}

/// Where the student's code is.
pub fn student_file_of(path: &FilePath) -> (r: Place)
    ensures
        r@ == student_place(path.text@),
{
    if ends_with(path.text.as_str(), ".test.py") {
        proof {
            reveal_strlit(".test.py");
        }
        Place::At(trim_end_matches(path.text.as_str(), ".test.py").concat(".py"))
    } else {
        Place::Same
    }
}

/// Where the test file is that is shown along with a failed run.
pub open spec fn shown_test_place(text: Seq<char>) -> PlaceView {
    if ".test.py"@.is_suffix_of(text) {
        PlaceView::Same
    } else {
        PlaceView::At(without_suffixes(text, ".py"@) + ".test.py"@)
    }
}

/// Where the test file is that is shown along with a failed run.
pub fn shown_test_file_of(path: &FilePath) -> (r: Place)
    ensures
        r@ == shown_test_place(path.text@),
{
    if ends_with(path.text.as_str(), ".test.py") {
        Place::Same
    } else {
        proof {
            reveal_strlit(".py");
        }
        Place::At(trim_end_matches(path.text.as_str(), ".py").concat(".test.py"))
    }
}

// ---------------------------------------------------------------------------
// Courses
// ---------------------------------------------------------------------------

/// How many directories are searched for a course, from a file upwards.
pub const COURSE_LEVELS: u8 = 10;

/// The search for the directory of a course, the nearest one above a file that
/// holds a `course.json`. Directories are counted upwards from the one that
/// holds the file.
#[derive(Clone, Copy, PartialEq, Eq, Structural)]
pub enum CourseWalk {
    /// Look for `course.json` in the directory of this number.
    Look(u8),
    /// The directory of this number holds one.
    Found(u8),
    /// There is none within reach.
    NotFound,
}

/// The search before anything was looked at.
pub open spec fn walk_started(has_directory: bool) -> CourseWalk {
    if has_directory {
        CourseWalk::Look(0)
    } else {
        CourseWalk::NotFound
    }
}

/// The search after directory `level` was looked at.
pub open spec fn walk_after(level: u8, holds_course: bool, has_parent: bool) -> CourseWalk {
    if holds_course {
        CourseWalk::Found(level)
    } else if has_parent && level + 1 < COURSE_LEVELS {
        CourseWalk::Look((level + 1) as u8)
    } else {
        CourseWalk::NotFound
    }
}

/// Starts the search above a file that lies in a directory or does not.
pub fn start_course_walk(has_directory: bool) -> (walk: CourseWalk)
    ensures
        walk == walk_started(has_directory),
{
    if has_directory {
        CourseWalk::Look(0)
    } else {
        CourseWalk::NotFound
    }
}

/// Goes on after a look at directory `level`.
pub fn next_course_walk(level: u8, holds_course: bool, has_parent: bool) -> (walk: CourseWalk)
    requires
        level < COURSE_LEVELS,
    ensures
        walk == walk_after(level, holds_course, has_parent),
{
    if holds_course {
        CourseWalk::Found(level)
    } else if has_parent && level + 1 < COURSE_LEVELS {
        CourseWalk::Look(level + 1)
    } else {
        CourseWalk::NotFound
    }
}

/// What is known of the directory of a course.
pub struct CourseRoot {
    /// What its `course.json` holds, where it could be read.
    pub course_json: Option<Vec<u8>>,
    /// The name of the directory.
    pub name: Option<String>,
    /// The path of the file from there, where the file lies below it.
    pub relative: Option<String>,
}

/// The id that a `course.json` gives.
pub fn read_course_id(course_json: &[u8]) -> (r: Option<String>)
    ensures
        opt_view(r) == text_member(json_read_bytes(course_json@), "id"@),
{
    read_text_member(course_json, "id")
}

/// Lesson, course and place of a file that is handed in.
pub ghost struct ContextView {
    pub lesson_id: Seq<char>,
    pub course_id: Seq<char>,
    pub file_path: Seq<char>,
}

/// The parts of a submission context.
pub open spec fn context_view(c: (String, String, String)) -> ContextView {
    ContextView { lesson_id: c.0@, course_id: c.1@, file_path: c.2@ }
}

/// The context of a file of that name, given the directory of its course and
/// the id that the course has there.
pub open spec fn context_of(
    name: Option<Seq<char>>,
    root: Option<CourseRoot>,
    course_id: Option<Seq<char>>,
) -> ContextView {
    let file_name = name_or_unknown(name);
    ContextView {
        lesson_id: lesson_of_name(file_name),
        course_id: match root {
            Some(root) => match course_id {
                Some(id) => id,
                None => name_or_unknown(opt_view(root.name)),
            },
            None => "unknown"@,
        },
        file_path: match root {
            Some(root) => match root.relative {
                Some(relative) => relative@,
                None => file_name,
            },
            None => file_name,
        },
    }
}

/// The id that the `course.json` of a course directory gives.
pub open spec fn root_course_id(root: Option<CourseRoot>) -> Option<Seq<char>> {
    match root {
        Some(root) => match root.course_json {
            Some(bytes) => text_member(json_read_bytes(bytes@), "id"@),
            None => None,
        },
        None => None,
    }
}

/// Lesson, course and place of a file, given the id of its course: the id goes
/// before the name of the course directory, and a file outside any course is
/// placed by its name.
pub fn context_with_course_id(
    path: &FilePath,
    root: &Option<CourseRoot>,
    course_id: Option<String>,
) -> (r: (String, String, String))
    ensures
        context_view(r) == context_of(opt_view(path.name), *root, opt_view(course_id)),
{
    let file_name = known_name(path);
    let lesson_id = lesson_id_of_name(file_name.as_str());
    match root {
        Some(root) => {
            let course = match course_id {
                Some(id) => id,
                None => match &root.name {
                    Some(name) => name.clone(),
                    None => "unknown".to_string(),
                },
            };
            let place = match &root.relative {
                Some(relative) => relative.clone(),
                None => file_name,
            };
            (lesson_id, course, place)
        },
        None => (lesson_id, "unknown".to_string(), file_name),
    }
}

/// Lesson id, course id and place of a file that is handed in, given the
/// directory of its course.
pub fn derive_submission_context(path: &FilePath, root: &Option<CourseRoot>) -> (r: (
    String,
    String,
    String,
))
    ensures
        context_view(r) == context_of(opt_view(path.name), *root, root_course_id(*root)),
{
    let course_id = match root {
        Some(root) => match &root.course_json {
            Some(bytes) => read_course_id(bytes.as_slice()),
            None => None,
        },
        None => None,
    };
    context_with_course_id(path, root, course_id)
}

// ---------------------------------------------------------------------------
// Laws
// ---------------------------------------------------------------------------

/// What was put at the end of a text can be taken off again.
proof fn lemma_suffix_comes_off(stem: Seq<char>, suffix: Seq<char>)
    ensures
        suffix.is_suffix_of(stem + suffix),
        without_suffix(stem + suffix, suffix) == Some(stem),
{
    let s = stem + suffix;
    assert(s.subrange(s.len() - suffix.len(), s.len() as int) =~= suffix);
    assert(s.take(s.len() - suffix.len()) =~= stem);
}

/// A text that ends with `.test.py` is one that ends with `.py` after `.test`.
proof fn lemma_test_ending(stem: Seq<char>)
    ensures
        ".test.py"@.is_suffix_of(stem + ".py"@) <==> ".test"@.is_suffix_of(stem),
{
    reveal_strlit(".test.py");
    reveal_strlit(".test");
    reveal_strlit(".py");
    let s = stem + ".py"@;
    assert(".test.py"@ =~= ".test"@ + ".py"@);
    if ".test"@.is_suffix_of(stem) {
        assert(s.subrange(s.len() - 8, s.len() as int) =~= stem.subrange(
            stem.len() - 5,
            stem.len() as int,
        ) + ".py"@);
    }
    if ".test.py"@.is_suffix_of(s) {
        assert(stem.subrange(stem.len() - 5, stem.len() as int) =~= s.subrange(
            s.len() - 8,
            s.len() as int,
        ).subrange(0, 5));
        assert(".test.py"@.subrange(0, 5) =~= ".test"@);
    }
}

/// The code, the tests and the description of a lesson all stand for that
/// lesson: `x.py`, `x.test.py` and `x.lesson.json` have the id `x`. (Only
/// where `x` itself ends with `.test` is `x.py` taken for a test file.)
pub proof fn law_lesson_files_share_id(stem: Seq<char>)
    ensures
        lesson_of_name(stem + ".test.py"@) == stem,
        lesson_of_name(stem + ".lesson.json"@) == stem,
        !".test"@.is_suffix_of(stem) ==> lesson_of_name(stem + ".py"@) == stem,
{
    reveal_strlit(".test.py");
    reveal_strlit(".lesson.json");
    reveal_strlit(".py");
    lemma_suffix_comes_off(stem, ".test.py"@);
    lemma_suffix_comes_off(stem, ".lesson.json"@);
    lemma_suffix_comes_off(stem, ".py"@);
    let json = stem + ".lesson.json"@;
    if ".test.py"@.is_suffix_of(json) {
        assert(json.subrange(json.len() - 8, json.len() as int)[7] == 'n');
    }
    let py = stem + ".py"@;
    if ".lesson.json"@.is_suffix_of(py) {
        assert(py.subrange(py.len() - 12, py.len() as int)[11] == 'y');
    }
    lemma_test_ending(stem);
}

/// The status of a lesson is kept under the id that is sent when its entry file
/// is run, tested or handed in.
pub proof fn law_status_key_is_submitted_id(path: FilePath, root: Option<CourseRoot>)
    requires
        path.name is Some,
        path.exact_name,
    ensures
        status_key(path) == context_of(
            opt_view(path.name),
            root,
            root_course_id(root),
        ).lesson_id,
{
}

/// The text of the path of the file that tests the one of that text.
pub open spec fn test_path(text: Seq<char>) -> Seq<char> {
    text_at(test_place(text)->0, text)
}

/// The tutor and a submission name the same file's lesson alike, where the text
/// of the path ends in the name of the file and that name stands for a lesson.
pub proof fn law_tutor_and_submission_agree(path: FilePath, id: Seq<char>, root: Option<CourseRoot>)
    requires
        path.name is Some,
        path.name->0@.is_suffix_of(path.text@),
        names_a_file(lesson_of_name(path.name->0@)),
        is_asked_lesson(path, id),
    ensures
        id == context_of(opt_view(path.name), root, root_course_id(root)).lesson_id,
{
}

/// Whether a text has no slash.
spec fn without_slash(s: Seq<char>) -> bool {
    forall|i: int| 0 <= i < s.len() ==> #[trigger] s[i] != '/'
}

/// What follows the last slash is what ends the text, holds no slash and is all
/// of it or stands behind one.
proof fn lemma_after_slash(text: Seq<char>)
    ensures
        ends_in(text, after_slash(text)),
        without_slash(after_slash(text)),
        text.len() == after_slash(text).len() || text[text.len() - after_slash(text).len() - 1]
            == '/',
    decreases text.len(),
{
    let name = after_slash(text);
    if text.len() == 0 || text.last() == '/' {
        assert(name =~= text.subrange(text.len() as int, text.len() as int));
    } else {
        let front = text.drop_last();
        lemma_after_slash(front);
        let n = after_slash(front).len();
        assert(after_slash(front) == front.subrange(front.len() - n, front.len() as int));
        assert(name =~= text.subrange(text.len() - name.len(), text.len() as int));
        if front.len() > n {
            assert(text[text.len() - name.len() - 1] == front[front.len() - n - 1]);
        }
    }
}

/// A name without a slash that is all of a text, or stands behind a slash, is
/// what follows the last slash.
proof fn lemma_after_slash_is(dir: Seq<char>, name: Seq<char>)
    requires
        dir.len() == 0 || dir.last() == '/',
        without_slash(name),
    ensures
        after_slash(dir + name) == name,
    decreases name.len(),
{
    if name.len() == 0 {
        assert(dir + name =~= dir);
    } else {
        assert(without_slash(name.drop_last()));
        lemma_after_slash_is(dir, name.drop_last());
        assert((dir + name).drop_last() =~= dir + name.drop_last());
        assert((dir + name).last() == name.last());
    }
}

/// A path that ends in a name which can name a file has that name.
proof fn lemma_slash_name_is(text: Seq<char>)
    requires
        names_a_file(after_slash(text)),
    ensures
        slash_name(text) == Some(after_slash(text)),
{
    reveal_strlit(".");
    reveal_strlit("/.");
    let name = after_slash(text);
    lemma_after_slash(text);
    assert(name == text.subrange(text.len() - name.len(), text.len() as int));
    assert(name.last() == text.last());
    assert(name[name.len() - 1] != '/');
    if text == "."@ {
        assert(name =~= "."@);
    }
    if "/."@.is_suffix_of(text) {
        let tail = text.subrange(text.len() - 2, text.len() as int);
        assert(tail[0] == '/' && tail[1] == '.');
        if name.len() >= 2 {
            assert(name[name.len() - 2] == tail[0]);
        }
        assert(name =~= "."@);
    }
}

/// What ends a path and holds no slash ends its name, and what is left of the
/// path without it ends in what is left of the name.
proof fn lemma_ending_of_name(text: Seq<char>, ending: Seq<char>)
    requires
        without_slash(ending),
        ending.is_suffix_of(text),
    ensures
        ending.is_suffix_of(after_slash(text)),
        after_slash(without_suffix(text, ending)->0) == without_suffix(after_slash(text), ending)->0,
{
    let name = after_slash(text);
    lemma_after_slash(text);
    let n = name.len();
    let e = ending.len();
    assert(name == text.subrange(text.len() - n, text.len() as int));
    if n < e {
        let at = text.len() - n - 1;
        assert(ending[at - (text.len() - e)] == text[at]);
    }
    assert(name.subrange(n - e, n as int) =~= text.subrange(text.len() - e, text.len() as int));
    let dir = text.take(text.len() - n);
    let short = name.take(n - e);
    assert(without_slash(short)) by {
        assert forall|i: int| 0 <= i < short.len() implies #[trigger] short[i] != '/' by {
            assert(short[i] == name[i]);
        }
    }
    lemma_after_slash_is(dir, short);
    assert(text.take(text.len() - e) =~= dir + short);
}

/// What ends a text that ends a whole ends the whole.
proof fn lemma_ending_of_whole(part: Seq<char>, whole: Seq<char>, ending: Seq<char>)
    requires
        part.is_suffix_of(whole),
    ensures
        ending.is_suffix_of(part) ==> ending.is_suffix_of(whole),
{
    if ending.is_suffix_of(part) {
        assert(part == whole.subrange(whole.len() - part.len(), whole.len() as int));
        assert(whole.subrange(whole.len() - ending.len(), whole.len() as int) =~= part.subrange(
            part.len() - ending.len(),
            part.len() as int,
        ));
    }
}

/// The lesson that the name of a lesson file stands for is the final component
/// of what is left of its path without the ending, wherever every platform
/// reads the path alike.
pub proof fn law_lesson_is_final_component(path: FilePath)
    requires
        path.well_formed(),
        is_slash_path(path.text@),
        path.name is Some,
        stem_of(path.text@) is Some,
        names_a_file(lesson_of_name(path.name->0@)),
    ensures
        shows_lesson(path),
        slash_name(stem_of(path.text@)->0) == Some(lesson_of_name(path.name->0@)),
{
    reveal_strlit(".lesson.json");
    reveal_strlit(".test.py");
    reveal_strlit(".py");
    reveal_strlit(".");
    reveal_strlit("..");
    reveal_strlit("/.");
    let text = path.text@;
    let n = text.len();
    let ending = if ".lesson.json"@.is_suffix_of(text) {
        ".lesson.json"@
    } else if ".test.py"@.is_suffix_of(text) {
        ".test.py"@
    } else {
        ".py"@
    };
    let e = ending.len();
    assert(ending == text.subrange(n - e, n as int));
    assert(text.last() == ending.last());
    assert(text[n - 2] == ending[e - 2]);
    lemma_after_slash(text);
    lemma_ending_of_name(text, ending);
    if "/."@.is_suffix_of(text) {
        assert(text.subrange(n - 2, n as int)[1] == text.last());
    }
    assert(after_slash(text).len() >= 3);
    let name = after_slash(text);
    assert(slash_name(text) == Some(name));
    assert(path.name->0@ == name);
    lemma_ending_of_whole(name, text, ".lesson.json"@);
    lemma_ending_of_whole(name, text, ".test.py"@);
    if ".lesson.json"@.is_suffix_of(name) && ".test.py"@.is_suffix_of(name) {
        assert(name.subrange(name.len() - 12, name.len() as int)[11] == name.last());
        assert(name.subrange(name.len() - 8, name.len() as int)[7] == name.last());
    }
    lemma_slash_name_is(stem_of(text)->0);
}

/// A file whose path ends in `.py` has a name that does, and can be run, unless
/// the path has no name at all.
pub proof fn law_python_files_run(path: FilePath)
    requires
        path.well_formed(),
        path.name is Some,
    ensures
        run_command(path) is Some <==> ".py"@.is_suffix_of(path.text@),
        ".py"@.is_suffix_of(path.text@) ==> ".py"@.is_suffix_of(path.name->0@),
{
    if ".py"@.is_suffix_of(path.text@) {
        reveal_strlit(".py");
        let text = path.text@;
        let name = path.name->0@;
        let tail = text.subrange(text.len() - 3, text.len() as int);
        assert(tail[0] == '.' && tail[1] == 'p' && tail[2] == 'y');
        assert(text[text.len() - 3] == '.' && text[text.len() - 2] == 'p');
        assert(text.last() == 'y');
        assert(name.len() >= 3);
        assert(name == text.subrange(text.len() - name.len(), text.len() as int));
        assert(name.subrange(name.len() - 3, name.len() as int) =~= tail);
    }
}

/// Testing a file and testing its test file come to the same command.
pub proof fn law_test_from_either_file(text: Seq<char>, probe: TestProbe)
    requires
        test_place(text) is Some,
    ensures
        test_place(test_path(text)) == Some(PlaceView::Same),
        test_command(test_path(text), probe) == test_command(text, probe),
{
    if !".test.py"@.is_suffix_of(text) {
        lemma_suffix_comes_off(without_suffix(text, ".py"@)->0, ".test.py"@);
    }
}

/// From a student's file to its tests and back is the student's file again.
/// (A name that ends with `.test.py.py` is the exception.)
pub proof fn law_student_of_test(text: Seq<char>)
    requires
        !".test.py"@.is_suffix_of(text),
        without_suffix(text, ".py"@) matches Some(stem) && !".test.py"@.is_suffix_of(stem),
    ensures
        student_place(text) == PlaceView::Same,
        test_place(text) is Some,
        student_place(test_path(text)) == PlaceView::At(text),
{
    reveal_strlit(".test.py");
    let stem = without_suffix(text, ".py"@)->0;
    let test = stem + ".test.py"@;
    lemma_suffix_comes_off(stem, ".test.py"@);
    assert(test.take(test.len() - 8) =~= stem);
    assert(without_suffixes(test, ".test.py"@) == without_suffixes(stem, ".test.py"@));
    assert(text =~= stem + ".py"@);
}

/// The end of a search that is at `walk`, where `holds[i]` says whether
/// directory `i` holds a `course.json` and there are no directories beyond.
pub open spec fn walk_end(walk: CourseWalk, holds: Seq<bool>) -> CourseWalk
    decreases
            (if walk is Look {
                COURSE_LEVELS - walk->Look_0
            } else {
                0
            }),
{
    match walk {
        CourseWalk::Look(level) => if level < COURSE_LEVELS {
            walk_end(walk_after(level, holds[level as int], level + 1 < holds.len()), holds)
        } else {
            walk
        },
        _ => walk,
    }
}

/// Whether directory `level` is the nearest one with a `course.json`, and
/// within reach.
pub open spec fn nearest_course(holds: Seq<bool>, level: int) -> bool {
    &&& 0 <= level < holds.len()
    &&& level < COURSE_LEVELS
    &&& holds[level]
    &&& forall|i: int| 0 <= i < level ==> !#[trigger] holds[i]
}

/// The search ends at the nearest directory with a `course.json` among the
/// first ten, and comes back empty exactly where there is none.
pub proof fn law_walk_finds_nearest_course(holds: Seq<bool>)
    ensures
        match walk_end(walk_started(holds.len() > 0), holds) {
            CourseWalk::Look(_) => false,
            CourseWalk::Found(level) => nearest_course(holds, level as int),
            CourseWalk::NotFound => forall|i: int|
                0 <= i < holds.len() && i < COURSE_LEVELS ==> !#[trigger] holds[i],
        },
{
    if holds.len() > 0 {
        lemma_walk_from(holds, 0);
    }
}

/// The search goes on rightly from a directory below which nothing was found.
proof fn lemma_walk_from(holds: Seq<bool>, level: u8)
    requires
        level < holds.len(),
        level < COURSE_LEVELS,
        forall|i: int| 0 <= i < level ==> !#[trigger] holds[i],
    ensures
        match walk_end(CourseWalk::Look(level), holds) {
            CourseWalk::Look(_) => false,
            CourseWalk::Found(found) => nearest_course(holds, found as int),
            CourseWalk::NotFound => forall|i: int|
                0 <= i < holds.len() && i < COURSE_LEVELS ==> !#[trigger] holds[i],
        },
    decreases COURSE_LEVELS - level,
{
    reveal_with_fuel(walk_end, 2);
    if !holds[level as int] && level + 1 < holds.len() && level + 1 < COURSE_LEVELS {
        lemma_walk_from(holds, (level + 1) as u8);
    }
}

/// Whether a name has one of the endings of a lesson's files.
pub open spec fn has_lesson_ending(name: Seq<char>) -> bool {
    ".test.py"@.is_suffix_of(name) || ".lesson.json"@.is_suffix_of(name) || ".py"@.is_suffix_of(
        name,
    )
}

/// No name ends like a description and like a test file.
proof fn lemma_endings_exclude(name: Seq<char>)
    requires
        ".lesson.json"@.is_suffix_of(name),
    ensures
        !".test.py"@.is_suffix_of(name),
        !".py"@.is_suffix_of(name),
{
    reveal_strlit(".test.py");
    reveal_strlit(".lesson.json");
    reveal_strlit(".py");
    let n = name.len() as int;
    assert(name.subrange(n - 12, n)[11] == name[n - 1]);
    assert(".lesson.json"@[11] == 'n');
    if ".test.py"@.is_suffix_of(name) {
        assert(name.subrange(n - 8, n)[7] == name[n - 1]);
        assert(".test.py"@[7] == 'y');
    }
    if ".py"@.is_suffix_of(name) {
        assert(name.subrange(n - 3, n)[2] == name[n - 1]);
        assert(".py"@[2] == 'y');
    }
}

/// What is left of a text without an ending, and that ending, are the text.
proof fn lemma_ending_goes_back(name: Seq<char>, ending: Seq<char>)
    requires
        ending.is_suffix_of(name),
    ensures
        without_suffix(name, ending) is Some,
        name == without_suffix(name, ending)->0 + ending,
{
    assert(name =~= name.take(name.len() - ending.len()) + ending);
}

/// A name without any of the endings of a lesson's files stands for itself, and
/// such a path has no stem. Any other name stands for what is left of it, with
/// one of the endings behind it.
pub proof fn law_other_names_stand_for_themselves(name: Seq<char>)
    ensures
        !has_lesson_ending(name) ==> lesson_of_name(name) == name && stem_of(name) is None,
        has_lesson_ending(name) ==> {
            let lesson = lesson_of_name(name);
            &&& stem_of(name) == Some(lesson)
            &&& name == lesson + ".test.py"@ || name == lesson + ".lesson.json"@ || name == lesson
                + ".py"@
            &&& ".test.py"@.is_suffix_of(name) ==> name == lesson + ".test.py"@
        },
{
    if ".lesson.json"@.is_suffix_of(name) {
        lemma_endings_exclude(name);
        lemma_ending_goes_back(name, ".lesson.json"@);
    } else if ".test.py"@.is_suffix_of(name) {
        lemma_ending_goes_back(name, ".test.py"@);
    } else if ".py"@.is_suffix_of(name) {
        lemma_ending_goes_back(name, ".py"@);
    }
}

/// The status of a lesson is kept under what the name of its entry file stands
/// for, and under nothing where there is no name or it is no Unicode.
pub proof fn law_status_is_kept_by_name(path: FilePath, lesson: Seq<char>)
    ensures
        path.exact_name && path.name is Some && path.name->0@ == lesson + ".test.py"@
            ==> status_key(path) == lesson,
        path.exact_name && path.name is Some && path.name->0@ == lesson + ".lesson.json"@
            ==> status_key(path) == lesson,
        path.exact_name && path.name is Some && path.name->0@ == lesson + ".py"@
            && !".test"@.is_suffix_of(lesson) ==> status_key(path) == lesson,
        path.exact_name && path.name is Some && !has_lesson_ending(path.name->0@) ==> status_key(
            path,
        ) == path.name->0@,
        !path.exact_name || path.name is None ==> status_key(path).len() == 0,
{
    law_lesson_files_share_id(lesson);
    if path.name is Some {
        law_other_names_stand_for_themselves(path.name->0@);
    }
}

/// A question about a file that is no lesson's file is about the name of that
/// file, and about `unknown` where the path has none.
pub proof fn law_other_files_are_asked_by_name(path: FilePath, id: Seq<char>)
    requires
        is_asked_lesson(path, id),
        !has_lesson_ending(path.text@),
    ensures
        path.name is None ==> id == "unknown"@,
        path.name is Some && !path.name->0@.is_suffix_of(path.text@) ==> id == path.name->0@,
        path.name is Some && !has_lesson_ending(path.name->0@) ==> id == path.name->0@,
{
    law_other_names_stand_for_themselves(path.text@);
    if path.name is Some {
        law_other_names_stand_for_themselves(path.name->0@);
    }
}

/// A question about a lesson's file whose stem ends in no name is about the name
/// of the file; where the stem ends in one, it is about that name.
pub proof fn law_stem_name_is_asked_about(path: FilePath, name: Seq<char>)
    ensures
        stem_of(path.text@) is Some ==> asked_lesson(path, Some(name)) == name,
        path.name is Some ==> asked_lesson(path, None) == path.name->0@,
        path.name is None ==> asked_lesson(path, None) == "unknown"@,
        stem_of(path.text@) is None ==> asked_lesson(path, Some(name)) == asked_lesson(path, None),
{
}

/// A Python file is run by `python` and its name, on one line, in its directory;
/// no other file is run.
pub proof fn law_run_command(path: FilePath)
    ensures
        run_command(path) is Some <==> ".py"@.is_suffix_of(path.text@) && path.name is Some
            && path.parent is Some,
        run_command(path) matches Some(command) ==> {
            &&& command.label == "python "@ + path.name->0@
            &&& command.command == command.label
            &&& command.args.len() == 0
            &&& command.cwd == path.parent->0@
        },
{
}

/// A test file is a Python file.
proof fn lemma_tests_are_python(text: Seq<char>)
    requires
        ".test.py"@.is_suffix_of(text),
    ensures
        ".py"@.is_suffix_of(text),
{
    reveal_strlit(".test.py");
    reveal_strlit(".py");
    let n = text.len() as int;
    assert(".test.py"@ == text.subrange(n - 8, n));
    assert(".test.py"@.subrange(5, 8) =~= ".py"@);
    assert(text.subrange(n - 3, n) =~= text.subrange(n - 8, n).subrange(5, 8));
}

/// The tests of a Python file stand beside it, with `.test` before the ending; a
/// test file is its own tests, and no other file has any.
pub proof fn law_tests_stand_beside_the_code(stem: Seq<char>, text: Seq<char>)
    ensures
        test_place(stem + ".test.py"@) == Some(PlaceView::Same),
        !".test"@.is_suffix_of(stem) ==> test_place(stem + ".py"@) == Some(
            PlaceView::At(stem + ".test.py"@),
        ),
        !".py"@.is_suffix_of(text) ==> test_place(text) is None,
{
    lemma_suffix_comes_off(stem, ".test.py"@);
    lemma_suffix_comes_off(stem, ".py"@);
    lemma_test_ending(stem);
    if ".test.py"@.is_suffix_of(text) {
        lemma_tests_are_python(text);
    }
}

/// The tests that are shown along with a Python file stand beside it; a test
/// file is shown with itself, and any other file with what would test it.
pub proof fn law_shown_tests_stand_beside_the_code(stem: Seq<char>, text: Seq<char>)
    ensures
        shown_test_place(stem + ".test.py"@) == PlaceView::Same,
        !".test"@.is_suffix_of(stem) && !".py"@.is_suffix_of(stem) ==> shown_test_place(
            stem + ".py"@,
        ) == PlaceView::At(stem + ".test.py"@),
        !".py"@.is_suffix_of(text) ==> shown_test_place(text) == PlaceView::At(text + ".test.py"@),
        !".test"@.is_suffix_of(stem) && ".py"@.is_suffix_of(stem) && !".test.py"@.is_suffix_of(stem)
            ==> shown_test_place(stem + ".py"@) == shown_test_place(stem),
{
    assert(".py"@.len() == 3) by {
        reveal_strlit(".py");
    }
    lemma_suffix_comes_off(stem, ".test.py"@);
    law_endings_come_off(stem, ".py"@);
    law_endings_come_off(text, ".py"@);
    lemma_test_ending(stem);
    if ".test.py"@.is_suffix_of(text) {
        lemma_tests_are_python(text);
    }
}

/// The student's code that a test file tests stands beside it, without `.test`;
/// any other file is the student's code itself.
pub proof fn law_code_stands_beside_the_tests(stem: Seq<char>, text: Seq<char>)
    ensures
        !".test.py"@.is_suffix_of(stem) ==> student_place(stem + ".test.py"@) == PlaceView::At(
            stem + ".py"@,
        ),
        !".test.py"@.is_suffix_of(text) ==> student_place(text) == PlaceView::Same,
        ".test.py"@.is_suffix_of(stem) ==> student_place(stem + ".test.py"@) == student_place(stem),
{
    assert(".test.py"@.len() == 8) by {
        reveal_strlit(".test.py");
    }
    lemma_suffix_comes_off(stem, ".test.py"@);
    law_endings_come_off(stem, ".test.py"@);
}

/// A course is looked for in ten directories, from that of the file upwards: the
/// nearest of them with a `course.json` is found, and none exactly where none of
/// them has one.
pub proof fn law_ten_directories_are_searched(holds: Seq<bool>)
    ensures
        match walk_end(walk_started(holds.len() > 0), holds) {
            CourseWalk::Look(_) => false,
            CourseWalk::Found(level) => {
                &&& level < 10 && level < holds.len()
                &&& holds[level as int]
                &&& forall|i: int| 0 <= i < level ==> !#[trigger] holds[i]
            },
            CourseWalk::NotFound => forall|i: int|
                0 <= i < holds.len() && i < 10 ==> !#[trigger] holds[i],
        },
{
    law_walk_finds_nearest_course(holds);
}

/// One look at a directory: a `course.json` ends the search there; without one
/// it goes on to the directory above, where there is one and it is among the
/// first ten.
pub proof fn law_walk_goes_upwards(level: u8, holds_course: bool, has_parent: bool)
    requires
        level < 10,
    ensures
        holds_course ==> walk_after(level, holds_course, has_parent) == CourseWalk::Found(level),
        !holds_course && has_parent && level < 9 ==> walk_after(level, holds_course, has_parent)
            == CourseWalk::Look((level + 1) as u8),
        !holds_course && (!has_parent || level == 9) ==> walk_after(
            level,
            holds_course,
            has_parent,
        ) == CourseWalk::NotFound,
        walk_started(true) == CourseWalk::Look(0),
        walk_started(false) == CourseWalk::NotFound,
{
}

/// A file belongs to the lesson of its name. Its course is the one whose id the
/// `course.json` gives, or else the directory of the course by its name, or else
/// `unknown`; its place is its path from that directory, or else its name.
pub proof fn law_submission_context(
    name: Seq<char>,
    root: CourseRoot,
    id: Seq<char>,
    bytes: Vec<u8>,
    tree: JsonTree,
)
    ensures
        context_of(Some(name), None, None).lesson_id == lesson_of_name(name),
        context_of(Some(name), None, None).course_id == "unknown"@,
        context_of(Some(name), None, None).file_path == name,
        context_of(None, None, None).file_path == "unknown"@,
        context_of(Some(name), Some(root), Some(id)).lesson_id == lesson_of_name(name),
        context_of(Some(name), Some(root), None).lesson_id == lesson_of_name(name),
        context_of(Some(name), Some(root), Some(id)).course_id == id,
        root.name is Some ==> context_of(Some(name), Some(root), None).course_id == root.name->0@,
        root.name is None ==> context_of(Some(name), Some(root), None).course_id == "unknown"@,
        root.relative is Some ==> context_of(Some(name), Some(root), Some(id)).file_path
            == root.relative->0@,
        root.relative is None ==> context_of(Some(name), Some(root), Some(id)).file_path == name,
        context_of(Some(name), Some(root), None).file_path == context_of(
            Some(name),
            Some(root),
            Some(id),
        ).file_path,
        root.course_json == Some(bytes) && json_read_bytes(bytes@) == Some(tree) && member(
            tree,
            "id"@,
        ) == Some(JsonTree::Text(id)) ==> root_course_id(Some(root)) == Some(id),
        root.course_json == Some(bytes) && json_read_bytes(bytes@) is None ==> root_course_id(
            Some(root),
        ) is None,
        root.course_json == Some(bytes) && json_read_bytes(bytes@) == Some(tree) && (member(
            tree,
            "id"@,
        ) is None || !(member(tree, "id"@)->0 is Text)) ==> root_course_id(Some(root)) is None,
        root.course_json is None ==> root_course_id(Some(root)) is None,
        root_course_id(None) is None,
{
}

/// What can name a file is any text but the empty one, one dot and two dots.
pub proof fn law_dots_name_no_file(text: Seq<char>)
    ensures
        names_a_file(text) <==> text.len() > 0 && text != seq!['.'] && text != seq!['.', '.'],
{
    reveal_strlit(".");
    reveal_strlit("..");
    assert("."@ =~= seq!['.']);
    assert(".."@ =~= seq!['.', '.']);
}

/// A path ends in the name behind its last slash. Slashes behind it and single
/// dots change nothing, and two dots are no name.
pub proof fn law_paths_end_in_names(dir: Seq<char>, name: Seq<char>, path: Seq<char>)
    requires
        dir.len() == 0 || dir.last() == '/',
        !name.contains('/'),
        names_a_file(name),
    ensures
        slash_name(dir + name) == Some(name),
        slash_name(path.push('/')) == slash_name(path),
        path.len() > 0 && path.last() == '/' ==> slash_name(path.push('.')) == slash_name(path),
        slash_name(dir + seq!['.', '.']) is None,
        slash_name(Seq::empty()) is None,
{
    reveal_strlit(".");
    reveal_strlit("..");
    reveal_strlit("/.");
    assert forall|i: int| 0 <= i < name.len() implies #[trigger] name[i] != '/' by {
        assert(name.contains(name[i]));
    }
    lemma_after_slash_is(dir, name);
    lemma_slash_name_is(dir + name);
    assert(path.push('/').drop_last() =~= path);
    assert(path.push('.').drop_last() =~= path);
    if path.len() > 0 && path.last() == '/' {
        let dotted = path.push('.');
        let n = dotted.len() as int;
        assert(dotted.subrange(n - 2, n) =~= "/."@);
        assert(dotted != "."@);
    }
    if path.len() == 0 {
        assert(path.push('/') != "."@) by {
            assert(path.push('/')[0] == '/');
        }
    } else {
        assert(path.push('/').last() == '/');
        assert("."@.last() == '.');
    }
    let up = dir + seq!['.', '.'];
    lemma_after_slash_is(dir, seq!['.', '.']);
    assert(seq!['.', '.'] =~= ".."@);
    assert(up.last() == '.');
    if "/."@.is_suffix_of(up) {
        assert(up.subrange(up.len() - 2, up.len() as int)[0] == '/');
        assert(up[up.len() - 2] == '.');
    }
    assert(up.len() >= 2);
}

/// Where the name of a lesson's file is nothing but its ending, the question is
/// about the final component of what is left of the path, wherever every
/// platform reads that alike, or about the name where there is none.
pub proof fn law_stems_are_asked_by_final_component(path: FilePath, id: Seq<char>)
    requires
        is_asked_lesson(path, id),
        stem_of(path.text@) is Some,
        is_slash_path(stem_of(path.text@)->0),
        path.name is Some,
        !path.name->0@.is_suffix_of(path.text@) || !names_a_file(lesson_of_name(path.name->0@)),
    ensures
        match slash_name(stem_of(path.text@)->0) {
            Some(name) => id == name,
            None => id == path.name->0@,
        },
{
}

/// A file without a name belongs to the lesson `unknown`.
pub proof fn law_nameless_files_are_unknown(root: Option<CourseRoot>, id: Option<Seq<char>>)
    ensures
        context_of(None, root, id).lesson_id == "unknown"@,
{
    reveal_strlit("unknown");
    reveal_strlit(".test.py");
    reveal_strlit(".lesson.json");
    reveal_strlit(".py");
    let name = "unknown"@;
    if ".test.py"@.is_suffix_of(name) {
        assert(".test.py"@.len() == 8);
    }
    if ".py"@.is_suffix_of(name) {
        assert(name.subrange(4, 7)[2] == 'n');
        assert(".py"@[2] == 'y');
    }
    assert(".lesson.json"@.len() == 12);
}

} // verus!
