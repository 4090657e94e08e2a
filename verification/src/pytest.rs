//! Reading the outcome of a test run from what pytest prints.

use crate::text::{
    decimal, ends_line, is_blank, is_digit, is_white, law_decimal_is_read_back,
    lemma_blank_lines, lemma_decimal, lemma_digits_are_no_space, lemma_lines_concat,
    lemma_lines_of_line, lemma_trimmed_blank, lemma_trimmed_text, lemma_words_before_space,
    lemma_words_of_word, lemma_words_of_word_and_rest, lemma_words_push,
    lines, parse_u32, read_u32, same_text, split_lines, split_whitespace, trim, trimmed, views,
    without_return, words,
};
use vstd::prelude::*;

verus! {

/// The summary of a run: the last line that holds more than white space; empty
/// where there is none.
pub open spec fn summary_line(lines: Seq<Seq<char>>) -> Seq<char>
    decreases lines.len(),
{
    if lines.len() == 0 {
        seq![]
    } else if trimmed(lines.last()).len() > 0 {
        lines.last()
    } else {
        summary_line(lines.drop_last())
    }
}

/// Whether a word says that the tests counted before it passed.
pub open spec fn means_passed(word: Seq<char>) -> bool {
    word == "passed"@ || word == "passed,"@
}

/// Whether a word says that the tests counted before it failed or broke.
pub open spec fn means_failed(word: Seq<char>) -> bool {
    ||| word == "failed"@
    ||| word == "failed,"@
    ||| word == "error"@
    ||| word == "errors"@
    ||| word == "error,"@
    ||| word == "errors,"@
}

/// The number that a word writes; zero where it writes none.
pub open spec fn count_of(word: Seq<char>) -> nat {
    match read_u32(word) {
        Some(n) => n as nat,
        None => 0,
    }
}

/// The sum of the numbers in `words` that stand right before a word that means
/// passed.
pub open spec fn count_passed(words: Seq<Seq<char>>) -> nat
    decreases words.len(),
{
    if words.len() < 2 {
        0
    } else {
        count_passed(words.drop_last()) + if means_passed(words.last()) {
            count_of(words[words.len() - 2])
        } else {
            0
        }
    }
}

/// The sum of the numbers in `words` that stand right before a word that means
/// failed.
pub open spec fn count_failed(words: Seq<Seq<char>>) -> nat
    decreases words.len(),
{
    if words.len() < 2 {
        0
    } else {
        count_failed(words.drop_last()) + if means_failed(words.last()) {
            count_of(words[words.len() - 2])
        } else {
            0
        }
    }
}

/// How many tests passed, by the summary of what pytest printed.
pub open spec fn passed_tests(stdout: Seq<char>) -> nat {
    count_passed(words(summary_line(lines(stdout))))
}

/// How many tests failed or broke, by the summary of what pytest printed.
pub open spec fn failed_tests(stdout: Seq<char>) -> nat {
    count_failed(words(summary_line(lines(stdout))))
}

/// The summary among the lines that pytest printed.
fn find_summary(all: &Vec<String>) -> (r: String)
    ensures
        r@ == summary_line(views(all@)),
{
    let mut n: usize = all.len();
    let ghost texts = views(all@);
    assert(texts.take(n as int) =~= texts);
    while n > 0
        invariant
            n <= all.len(),
            texts == views(all@),
            summary_line(texts.take(n as int)) == summary_line(texts),
        decreases n,
    {
        let t = trim(all[n - 1].as_str());
        assert(texts.take(n as int).last() == all@[n - 1]@);
        if !t.as_str().is_empty() {
            return all[n - 1].clone();
        }
        assert(texts.take(n as int).drop_last() =~= texts.take(n - 1));
        n = n - 1;
    }
    String::new()
}

/// Whether a word says that the tests counted before it passed.
fn says_passed(word: &str) -> (r: bool)
    ensures
        r == means_passed(word@),
{
    same_text(word, "passed") || same_text(word, "passed,")
}

/// Whether a word says that the tests counted before it failed or broke.
fn says_failed(word: &str) -> (r: bool)
    ensures
        r == means_failed(word@),
{
    same_text(word, "failed") || same_text(word, "failed,") || same_text(word, "error")
        || same_text(word, "errors") || same_text(word, "error,") || same_text(word, "errors,")
}

/// How many tests passed and how many failed or broke, whatever the numbers.
pub fn pytest_totals(stdout: &str) -> (r: (u128, u128))
    ensures
        r.0 == passed_tests(stdout@),
        r.1 == failed_tests(stdout@),
{
    let summary = find_summary(&split_lines(stdout));
    let tokens = split_whitespace(summary.as_str());
    let ghost texts = views(tokens@);
    if tokens.len() == 0 {
        return (0, 0);
    }
    let mut passed: u128 = 0;
    let mut failed: u128 = 0;
    let mut i: usize = 1;
    while i < tokens.len()
        invariant
            texts == views(tokens@),
            1 <= i <= tokens.len(),
            passed == count_passed(texts.take(i as int)),
            failed == count_failed(texts.take(i as int)),
            passed <= i * 0xffff_ffff,
            failed <= i * 0xffff_ffff,
        decreases tokens.len() - i,
    {
        let ghost pair = texts.take(i + 1);
        assert(pair.drop_last() =~= texts.take(i as int));
        assert(pair.last() == tokens@[i as int]@);
        assert(pair[pair.len() - 2] == tokens@[i - 1]@);
        match parse_u32(tokens[i - 1].as_str()) {
            Some(n) => {
                if says_passed(tokens[i].as_str()) {
                    passed = passed + n as u128;
                }
                if says_failed(tokens[i].as_str()) {
                    failed = failed + n as u128;
                }
            },
            None => {},
        }
        i = i + 1;
    }
    assert(texts.take(i as int) =~= texts);
    (passed, failed)
}

/// How many tests passed and how many failed or broke, by the last line that
/// pytest printed; blank lines after it do not count.
pub fn parse_pytest_summary(stdout: &str) -> (r: (u32, u32))
    requires
        passed_tests(stdout@) <= u32::MAX,
        failed_tests(stdout@) <= u32::MAX,
    ensures
        r.0 == passed_tests(stdout@),
        r.1 == failed_tests(stdout@),
{
    let (passed, failed) = pytest_totals(stdout);
    (passed as u32, failed as u32)
}

// ---------------------------------------------------------------------------
// Laws
// ---------------------------------------------------------------------------

/// Whether a word is a row of equals signs.
pub open spec fn is_rule(word: Seq<char>) -> bool {
    word.len() > 0 && forall|i: int| 0 <= i < word.len() ==> #[trigger] word[i] == '='
}

/// A row of equals signs is neither a number nor a word that counts.
proof fn lemma_rule_says_nothing(rule: Seq<char>)
    requires
        is_rule(rule),
    ensures
        count_of(rule) == 0,
        !means_passed(rule),
        !means_failed(rule),
{
    reveal_strlit("passed");
    reveal_strlit("passed,");
    reveal_strlit("failed");
    reveal_strlit("failed,");
    reveal_strlit("error");
    reveal_strlit("errors");
    reveal_strlit("error,");
    reveal_strlit("errors,");
    assert(rule[0] == '=');
    assert(!is_digit(rule[0]));
}

/// A rule before the words changes no count.
proof fn lemma_rule_before(rule: Seq<char>, list: Seq<Seq<char>>)
    requires
        is_rule(rule),
    ensures
        count_passed(seq![rule] + list) == count_passed(list),
        count_failed(seq![rule] + list) == count_failed(list),
    decreases list.len(),
{
    lemma_rule_says_nothing(rule);
    let all = seq![rule] + list;
    if list.len() > 0 {
        assert(all.drop_last() =~= seq![rule] + list.drop_last());
        lemma_rule_before(rule, list.drop_last());
        if list.len() == 1 {
            assert(count_passed(list.drop_last()) == 0);
            assert(count_failed(list.drop_last()) == 0);
            assert(all[all.len() - 2] == rule);
        } else {
            assert(all[all.len() - 2] == list[list.len() - 2]);
        }
    }
}

/// The rules that pytest draws around its summary on a terminal change
/// nothing of what is read from it.
pub proof fn law_rules_change_nothing(left: Seq<char>, list: Seq<Seq<char>>, right: Seq<char>)
    requires
        is_rule(left),
        is_rule(right),
    ensures
        count_passed(seq![left] + list + seq![right]) == count_passed(list),
        count_failed(seq![left] + list + seq![right]) == count_failed(list),
{
    lemma_rule_says_nothing(right);
    lemma_rule_before(left, list);
    let all = seq![left] + list + seq![right];
    assert(all.drop_last() =~= seq![left] + list);
    assert(all.last() == right);
}

/// Whether a text is a word that says nothing of the outcome, such as the time
/// that a run took.
pub open spec fn is_plain_word(word: Seq<char>) -> bool {
    &&& word.len() > 0
    &&& forall|i: int| 0 <= i < word.len() ==> !is_white(#[trigger] word[i])
    &&& !means_passed(word)
    &&& !means_failed(word)
}

/// The last line of a run in which some tests failed and some passed.
pub open spec fn failed_summary(failed: nat, passed: nat, time: Seq<char>) -> Seq<char> {
    decimal(failed) + " failed, "@ + decimal(passed) + " passed in "@ + time
}

/// The last line of a run in which all tests passed.
pub open spec fn passed_summary(passed: nat, time: Seq<char>) -> Seq<char> {
    decimal(passed) + " passed in "@ + time
}

/// Blank lines are no summary.
proof fn lemma_summary_before_blanks(list: Seq<Seq<char>>, blanks: Seq<Seq<char>>)
    requires
        forall|i: int| 0 <= i < blanks.len() ==> is_blank(#[trigger] blanks[i]),
    ensures
        summary_line(list + blanks) == summary_line(list),
    decreases blanks.len(),
{
    let all = list + blanks;
    if blanks.len() == 0 {
        assert(all =~= list);
    } else {
        assert(is_blank(blanks[blanks.len() - 1]));
        lemma_trimmed_blank(blanks.last());
        assert(all.last() == blanks.last());
        assert(all.drop_last() =~= list + blanks.drop_last());
        assert forall|i: int| 0 <= i < blanks.drop_last().len() implies is_blank(
            #[trigger] blanks.drop_last()[i],
        ) by {
            assert(blanks.drop_last()[i] == blanks[i]);
        }
        lemma_summary_before_blanks(list, blanks.drop_last());
    }
}

/// Only the last line that is not blank counts: whatever was printed before it,
/// by the tests or by the student's code, changes nothing, and neither do blank
/// lines after it.
pub proof fn law_only_last_line_counts(before: Seq<char>, line: Seq<char>, end: Seq<char>)
    requires
        before.len() == 0 || before.last() == '\n',
        trimmed(line).len() > 0,
        forall|i: int| 0 <= i < line.len() ==> #[trigger] line[i] != '\n',
        ends_line(end),
    ensures
        passed_tests(before + line + end) == count_passed(words(line)),
        failed_tests(before + line + end) == count_failed(words(line)),
{
    let stdout = before + line + end;
    assert(stdout =~= before + (line + end));
    if is_blank(line) {
        lemma_trimmed_blank(line);
    }
    let at = choose|at: int| 0 <= at < line.len() && !is_white(#[trigger] line[at]);
    lemma_lines_concat(before, line + end);
    lemma_lines_of_line(line, end);
    let first = lines(before);
    if end.len() == 0 {
        assert(lines(stdout) =~= first.push(line));
        assert(summary_line(lines(stdout)) == line);
    } else {
        let shown = without_return(line);
        let blanks = lines(end.skip(1));
        assert forall|i: int| 0 <= i < end.skip(1).len() implies is_white(
            #[trigger] end.skip(1)[i],
        ) by {
            assert(end.skip(1)[i] == end[i + 1]);
        }
        lemma_blank_lines(end.skip(1));
        assert(lines(stdout) =~= first.push(shown) + blanks);
        lemma_summary_before_blanks(first.push(shown), blanks);
        assert(shown[at] == line[at]);
        lemma_trimmed_text(shown, at);
        assert(summary_line(lines(stdout)) == shown);
        if line.last() == '\r' {
            lemma_words_before_space(shown, '\r');
            assert(shown.push('\r') =~= line);
        }
    }
}

/// A text that ends with `passed in` and a time: its words after the number,
/// and that it is one line.
proof fn lemma_passed_tail(time: Seq<char>)
    requires
        is_plain_word(time),
    ensures
        words("passed in "@ + time) == seq!["passed"@, "in"@, time],
        forall|i: int|
            0 <= i < ("passed in "@ + time).len() ==> #[trigger] ("passed in "@ + time)[i] != '\n',
{
    reveal_strlit("passed in ");
    reveal_strlit("passed");
    reveal_strlit("in");
    let tail = "passed in "@ + time;
    let rest = "in"@ + seq![' '] + time;
    assert(tail =~= "passed"@ + seq![' '] + rest);
    lemma_words_of_word_and_rest("passed"@, ' ', rest);
    lemma_words_of_word_and_rest("in"@, ' ', time);
    lemma_words_of_word(time);
    assert(words(tail) =~= seq!["passed"@, "in"@, time]);
    assert forall|i: int| 0 <= i < tail.len() implies #[trigger] tail[i] != '\n' by {
        if i >= 10 {
            assert(tail[i] == time[i - 10]);
            assert(!is_white(time[i - 10]));
        }
    }
}

/// The words of a number, a white space and a rest.
proof fn lemma_number_and_rest(n: nat, rest: Seq<char>)
    ensures
        words(decimal(n) + seq![' '] + rest) == seq![decimal(n)] + words(rest),
        decimal(n).len() > 0,
        !is_white(decimal(n)[0]),
        !means_passed(decimal(n)),
        !means_failed(decimal(n)),
        forall|i: int| 0 <= i < decimal(n).len() ==> #[trigger] decimal(n)[i] != '\n',
{
    reveal_strlit("passed");
    reveal_strlit("passed,");
    reveal_strlit("failed");
    reveal_strlit("failed,");
    reveal_strlit("error");
    reveal_strlit("errors");
    reveal_strlit("error,");
    reveal_strlit("errors,");
    lemma_decimal(n);
    lemma_digits_are_no_space(decimal(n));
    assert(is_digit(decimal(n)[0]));
    lemma_words_of_word_and_rest(decimal(n), ' ', rest);
}

/// The words that a summary of a wholly passed run is made of, and its counts.
proof fn lemma_passed_summary(passed: u32, time: Seq<char>)
    requires
        is_plain_word(time),
    ensures
        count_passed(words(passed_summary(passed as nat, time))) == passed,
        count_failed(words(passed_summary(passed as nat, time))) == 0,
{
    reveal_strlit(" passed in ");
    reveal_strlit("passed in ");
    let d = decimal(passed as nat);
    let tail = "passed in "@ + time;
    assert(passed_summary(passed as nat, time) =~= d + seq![' '] + tail);
    lemma_passed_tail(time);
    lemma_number_and_rest(passed as nat, tail);
    law_decimal_is_read_back(passed as nat);
    let ws = seq![d, "passed"@, "in"@, time];
    assert(words(passed_summary(passed as nat, time)) =~= ws);
    let w3 = seq![d, "passed"@, "in"@];
    let w2 = seq![d, "passed"@];
    assert(ws.drop_last() =~= w3);
    assert(w3.drop_last() =~= w2);
    assert(w2.drop_last() =~= seq![d]);
    lemma_fixed_words();
    assert(count_passed(seq![d]) == 0 && count_failed(seq![d]) == 0);
    assert(count_passed(w2) == passed && count_failed(w2) == 0);
    assert(count_passed(w3) == passed && count_failed(w3) == 0);
}

/// What the fixed words of a summary mean.
proof fn lemma_fixed_words()
    ensures
        means_passed("passed"@) && !means_failed("passed"@),
        !means_passed("in"@) && !means_failed("in"@),
        !means_passed("failed,"@) && means_failed("failed,"@),
{
    reveal_strlit("passed");
    reveal_strlit("passed,");
    reveal_strlit("failed");
    reveal_strlit("failed,");
    reveal_strlit("error");
    reveal_strlit("errors");
    reveal_strlit("error,");
    reveal_strlit("errors,");
    reveal_strlit("in");
    assert("passed"@[0] == 'p');
    assert("failed,"@[0] == 'f');
    assert("error"@[0] == 'e');
    assert("in"@[0] == 'i');
}

/// The words that a summary of a partly failed run is made of, and its counts.
proof fn lemma_failed_summary(failed: u32, passed: u32, time: Seq<char>)
    requires
        is_plain_word(time),
    ensures
        count_passed(words(failed_summary(failed as nat, passed as nat, time))) == passed,
        count_failed(words(failed_summary(failed as nat, passed as nat, time))) == failed,
{
    reveal_strlit(" failed, ");
    reveal_strlit("failed,");
    reveal_strlit(" passed in ");
    reveal_strlit("passed in ");
    let f = decimal(failed as nat);
    let p = decimal(passed as nat);
    let tail = "passed in "@ + time;
    let second = p + seq![' '] + tail;
    let first = "failed,"@ + seq![' '] + second;
    let line = failed_summary(failed as nat, passed as nat, time);
    assert(line =~= f + seq![' '] + first);
    lemma_passed_tail(time);
    lemma_number_and_rest(passed as nat, tail);
    lemma_words_of_word_and_rest("failed,"@, ' ', second);
    lemma_number_and_rest(failed as nat, first);
    law_decimal_is_read_back(passed as nat);
    law_decimal_is_read_back(failed as nat);
    let ws = seq![f, "failed,"@, p, "passed"@, "in"@, time];
    assert(words(line) =~= ws);
    let w5 = seq![f, "failed,"@, p, "passed"@, "in"@];
    let w4 = seq![f, "failed,"@, p, "passed"@];
    let w3 = seq![f, "failed,"@, p];
    let w2 = seq![f, "failed,"@];
    assert(ws.drop_last() =~= w5);
    assert(w5.drop_last() =~= w4);
    assert(w4.drop_last() =~= w3);
    assert(w3.drop_last() =~= w2);
    assert(w2.drop_last() =~= seq![f]);
    lemma_fixed_words();
    assert(count_passed(seq![f]) == 0 && count_failed(seq![f]) == 0);
    assert(count_passed(w2) == 0 && count_failed(w2) == failed);
    assert(count_passed(w3) == 0 && count_failed(w3) == failed);
    assert(count_passed(w4) == passed && count_failed(w4) == failed);
    assert(count_passed(w5) == passed && count_failed(w5) == failed);
}

/// Whether a text is a line that starts with no white space.
pub open spec fn is_clean_line(line: Seq<char>) -> bool {
    &&& line.len() > 0
    &&& forall|i: int| 0 <= i < line.len() ==> #[trigger] line[i] != '\n'
    &&& !is_white(line[0])
}

/// A clean line with more in front of it is still one.
proof fn lemma_longer_line(head: Seq<char>, line: Seq<char>)
    requires
        is_clean_line(line),
        head.len() > 0 ==> !is_white(head[0]),
        forall|i: int| 0 <= i < head.len() ==> #[trigger] head[i] != '\n',
    ensures
        is_clean_line(head + line),
{
    let all = head + line;
    assert forall|i: int| 0 <= i < all.len() implies #[trigger] all[i] != '\n' by {
        if i < head.len() {
            assert(all[i] == head[i]);
        } else {
            assert(all[i] == line[i - head.len()]);
        }
    }
    if head.len() > 0 {
        assert(all[0] == head[0]);
    } else {
        assert(all =~= line);
    }
}

/// The summaries of pytest are clean lines.
proof fn lemma_summaries_are_clean_lines(failed: u32, passed: u32, time: Seq<char>)
    requires
        is_plain_word(time),
    ensures
        is_clean_line(passed_summary(passed as nat, time)),
        is_clean_line(failed_summary(failed as nat, passed as nat, time)),
{
    reveal_strlit(" failed, ");
    reveal_strlit(" passed in ");
    reveal_strlit("passed in ");
    reveal_strlit("passed");
    let f = decimal(failed as nat);
    let p = decimal(passed as nat);
    lemma_passed_tail(time);
    lemma_number_and_rest(failed as nat, time);
    lemma_number_and_rest(passed as nat, time);
    let tail = "passed in "@ + time;
    assert(!is_white(time[time.len() - 1]));
    assert(tail[0] == 'p');
    assert(tail.last() == time.last());
    assert(is_clean_line(tail));
    let head = p + seq![' '];
    assert forall|i: int| 0 <= i < head.len() implies #[trigger] head[i] != '\n' by {
        if i < p.len() {
            assert(head[i] == p[i]);
        }
    }
    lemma_longer_line(head, tail);
    let short = passed_summary(passed as nat, time);
    assert(short =~= head + tail);
    let front = f + " failed, "@;
    assert forall|i: int| 0 <= i < front.len() implies #[trigger] front[i] != '\n' by {
        if i < f.len() {
            assert(front[i] == f[i]);
        }
    }
    lemma_longer_line(front, short);
    assert(failed_summary(failed as nat, passed as nat, time) =~= front + short);
}

/// What pytest counts on its last line is read from it, whatever was printed
/// before that line.
pub proof fn law_summary_is_read(
    before: Seq<char>,
    failed: u32,
    passed: u32,
    time: Seq<char>,
    end: Seq<char>,
)
    requires
        before.len() == 0 || before.last() == '\n',
        is_plain_word(time),
        ends_line(end),
    ensures
        passed_tests(before + failed_summary(failed as nat, passed as nat, time) + end) == passed,
        failed_tests(before + failed_summary(failed as nat, passed as nat, time) + end) == failed,
        passed_tests(before + passed_summary(passed as nat, time) + end) == passed,
        failed_tests(before + passed_summary(passed as nat, time) + end) == 0,
{
    lemma_failed_summary(failed, passed, time);
    lemma_passed_summary(passed, time);
    lemma_summaries_are_clean_lines(failed, passed, time);
    lemma_trimmed_text(passed_summary(passed as nat, time), 0);
    lemma_trimmed_text(failed_summary(failed as nat, passed as nat, time), 0);
    law_only_last_line_counts(before, passed_summary(passed as nat, time), end);
    law_only_last_line_counts(before, failed_summary(failed as nat, passed as nat, time), end);
}

/// A line between two rules, as pytest writes its summary on a terminal.
pub open spec fn between_rules(left: Seq<char>, line: Seq<char>, right: Seq<char>) -> Seq<char> {
    left + seq![' '] + (line + seq![' '] + right)
}

/// A summary between rules is read like the summary alone.
proof fn lemma_between_rules(
    before: Seq<char>,
    left: Seq<char>,
    line: Seq<char>,
    right: Seq<char>,
    end: Seq<char>,
)
    requires
        before.len() == 0 || before.last() == '\n',
        is_rule(left),
        is_rule(right),
        is_clean_line(line),
        ends_line(end),
    ensures
        passed_tests(before + between_rules(left, line, right) + end) == count_passed(words(line)),
        failed_tests(before + between_rules(left, line, right) + end) == count_failed(words(line)),
{
    assert forall|i: int| 0 <= i < left.len() implies !is_white(#[trigger] left[i]) by {
        assert(left[i] == '=');
    }
    assert forall|i: int| 0 <= i < right.len() implies !is_white(#[trigger] right[i]) by {
        assert(right[i] == '=');
    }
    let inner = line + seq![' '] + right;
    let whole = between_rules(left, line, right);
    lemma_words_push(line, ' ', right);
    lemma_words_of_word_and_rest(left, ' ', inner);
    assert(words(whole) =~= seq![left] + words(line) + seq![right]);
    law_rules_change_nothing(left, words(line), right);

    assert forall|i: int| 0 <= i < inner.len() implies #[trigger] inner[i] != '\n' by {
        if i < line.len() {
            assert(inner[i] == line[i]);
        } else if i > line.len() {
            assert(inner[i] == right[i - line.len() - 1]);
            assert(right[i - line.len() - 1] == '=');
        }
    }
    assert(inner[0] == line[0]);
    assert(is_clean_line(inner));
    let head = left + seq![' '];
    assert forall|i: int| 0 <= i < head.len() implies #[trigger] head[i] != '\n' by {
        if i < left.len() {
            assert(head[i] == left[i]);
            assert(left[i] == '=');
        }
    }
    assert(head[0] == left[0]);
    lemma_longer_line(head, inner);
    assert(whole =~= head + inner);
    lemma_trimmed_text(whole, 0);
    law_only_last_line_counts(before, whole, end);
}

/// On a terminal pytest draws rules around its summary; what it counts is read
/// all the same.
pub proof fn law_ruled_summary_is_read(
    before: Seq<char>,
    left: Seq<char>,
    failed: u32,
    passed: u32,
    time: Seq<char>,
    right: Seq<char>,
    end: Seq<char>,
)
    requires
        before.len() == 0 || before.last() == '\n',
        is_rule(left),
        is_rule(right),
        is_plain_word(time),
        ends_line(end),
    ensures
        ({
            let line = between_rules(
                left,
                failed_summary(failed as nat, passed as nat, time),
                right,
            );
            &&& passed_tests(before + line + end) == passed
            &&& failed_tests(before + line + end) == failed
        }),
        ({
            let line = between_rules(left, passed_summary(passed as nat, time), right);
            &&& passed_tests(before + line + end) == passed
            &&& failed_tests(before + line + end) == 0
        }),
{
    lemma_failed_summary(failed, passed, time);
    lemma_passed_summary(passed, time);
    lemma_summaries_are_clean_lines(failed, passed, time);
    lemma_between_rules(before, left, passed_summary(passed as nat, time), right, end);
    lemma_between_rules(
        before,
        left,
        failed_summary(failed as nat, passed as nat, time),
        right,
        end,
    );
}

/// The words by which pytest counts the tests that passed, those by which it
/// counts the ones that failed or broke, each also with a comma after it.
pub open spec fn counting_words() -> Seq<Seq<char>> {
    seq![
        "passed"@,
        "passed,"@,
        "failed"@,
        "failed,"@,
        "error"@,
        "error,"@,
        "errors"@,
        "errors,"@,
    ]
}

/// A list of numbers and what each of them counts, as pytest writes it, with a
/// comma behind all but the last, and then the rest of the line.
pub open spec fn summary_of(parts: Seq<(u32, Seq<char>)>, tail: Seq<char>) -> Seq<char>
    decreases parts.len(),
{
    if parts.len() == 0 {
        tail
    } else {
        decimal(parts[0].0 as nat) + " "@ + parts[0].1 + (if parts.len() == 1 {
            " "@
        } else {
            ", "@
        }) + summary_of(parts.skip(1), tail)
    }
}

/// The sum of the numbers that count one of these things.
pub open spec fn total_of(parts: Seq<(u32, Seq<char>)>, things: Seq<Seq<char>>) -> nat
    decreases parts.len(),
{
    if parts.len() == 0 {
        0
    } else {
        total_of(parts.skip(1), things) + if things.contains(parts[0].1) {
            parts[0].0 as nat
        } else {
            0
        }
    }
}

/// Whether a text is a single word without a comma.
pub open spec fn is_thing(word: Seq<char>) -> bool {
    &&& word.len() > 0
    &&& forall|i: int| 0 <= i < word.len() ==> !is_white(#[trigger] word[i]) && word[i] != ','
}

/// A word that is none of those that count means nothing.
proof fn lemma_other_word(word: Seq<char>)
    requires
        !counting_words().contains(word),
    ensures
        !means_passed(word),
        !means_failed(word),
{
    let all = counting_words();
    assert(all[0] == "passed"@ && all[1] == "passed,"@);
    assert(all[2] == "failed"@ && all[3] == "failed,"@);
    assert(all[4] == "error"@ && all[5] == "error,"@);
    assert(all[6] == "errors"@ && all[7] == "errors,"@);
}

/// What a word means, with a comma behind it or without.
proof fn lemma_thing_means(word: Seq<char>, shown: Seq<char>)
    requires
        is_thing(word),
        shown == word || shown == word + ","@,
    ensures
        means_passed(shown) <==> seq!["passed"@].contains(word),
        means_failed(shown) <==> seq!["failed"@, "error"@, "errors"@].contains(word),
        !(means_passed(shown) && means_failed(shown)),
        shown.len() > 0,
        forall|i: int| 0 <= i < shown.len() ==> !is_white(#[trigger] shown[i]),
{
    reveal_strlit("passed");
    reveal_strlit("passed,");
    reveal_strlit("failed");
    reveal_strlit("failed,");
    reveal_strlit("error");
    reveal_strlit("errors");
    reveal_strlit("error,");
    reveal_strlit("errors,");
    reveal_strlit(",");
    let failing = seq!["failed"@, "error"@, "errors"@];
    assert(seq!["passed"@][0] == "passed"@);
    assert(failing[0] == "failed"@ && failing[1] == "error"@ && failing[2] == "errors"@);
    assert("passed"@ + ","@ =~= "passed,"@);
    assert("failed"@ + ","@ =~= "failed,"@);
    assert("error"@ + ","@ =~= "error,"@);
    assert("errors"@ + ","@ =~= "errors,"@);
    assert(word[word.len() - 1] != ',');
    if shown == word {
        assert("passed,"@[6] == ',' && "failed,"@[6] == ',');
        assert("error,"@[5] == ',' && "errors,"@[6] == ',');
    } else {
        assert(shown.last() == ',');
        assert(shown.drop_last() =~= word);
        assert("passed,"@.drop_last() =~= "passed"@);
        assert("failed,"@.drop_last() =~= "failed"@);
        assert("error,"@.drop_last() =~= "error"@);
        assert("errors,"@.drop_last() =~= "errors"@);
        assert forall|i: int| 0 <= i < shown.len() implies !is_white(#[trigger] shown[i]) by {
            if i < word.len() {
                assert(shown[i] == word[i]);
            }
        }
    }
    if shown.len() > 0 && means_passed(shown) {
        assert(shown[0] == 'p');
    }
}

/// What is counted in two lists is counted in their concatenation, and beyond
/// that only where the second starts with a word that counts.
proof fn lemma_count_concat(a: Seq<Seq<char>>, b: Seq<Seq<char>>)
    requires
        a.len() > 0,
        b.len() > 0,
        !means_passed(b[0]),
        !means_failed(b[0]),
    ensures
        count_passed(a + b) == count_passed(a) + count_passed(b),
        count_failed(a + b) == count_failed(a) + count_failed(b),
    decreases b.len(),
{
    let all = a + b;
    assert(all.drop_last() =~= a + b.drop_last());
    assert(all.last() == b.last());
    if b.len() == 1 {
        assert(a + b.drop_last() =~= a);
    } else {
        lemma_count_concat(a, b.drop_last());
        assert(all[all.len() - 2] == b[b.len() - 2]);
    }
}

/// Words that do not count come to nothing.
proof fn lemma_nothing_counted(list: Seq<Seq<char>>)
    requires
        forall|i: int| 0 <= i < list.len() ==> !counting_words().contains(#[trigger] list[i]),
    ensures
        count_passed(list) == 0,
        count_failed(list) == 0,
    decreases list.len(),
{
    if list.len() >= 2 {
        assert forall|i: int| 0 <= i < list.drop_last().len() implies !counting_words().contains(
            #[trigger] list.drop_last()[i],
        ) by {
            assert(list.drop_last()[i] == list[i]);
        }
        lemma_nothing_counted(list.drop_last());
        assert(!counting_words().contains(list[list.len() - 1]));
        lemma_other_word(list.last());
    }
}

/// The counts of a summary, and that it is a line.
proof fn lemma_summary_of(parts: Seq<(u32, Seq<char>)>, tail: Seq<char>)
    requires
        forall|i: int| 0 <= i < parts.len() ==> is_thing((#[trigger] parts[i]).1),
        forall|i: int|
            0 <= i < words(tail).len() ==> !counting_words().contains(#[trigger] words(tail)[i]),
        forall|i: int| 0 <= i < tail.len() ==> #[trigger] tail[i] != '\n',
    ensures
        count_passed(words(summary_of(parts, tail))) == total_of(parts, seq!["passed"@]),
        count_failed(words(summary_of(parts, tail))) == total_of(
            parts,
            seq!["failed"@, "error"@, "errors"@],
        ),
        words(summary_of(parts, tail)).len() > 0 ==> !means_passed(
            words(summary_of(parts, tail))[0],
        ) && !means_failed(words(summary_of(parts, tail))[0]),
        forall|i: int|
            0 <= i < summary_of(parts, tail).len() ==> #[trigger] summary_of(parts, tail)[i]
                != '\n',
        parts.len() > 0 ==> is_clean_line(summary_of(parts, tail)),
    decreases parts.len(),
{
    let line = summary_of(parts, tail);
    if parts.len() == 0 {
        lemma_nothing_counted(words(tail));
        if words(tail).len() > 0 {
            lemma_other_word(words(tail)[0]);
        }
    } else {
        reveal_strlit(" ");
        reveal_strlit(", ");
        reveal_strlit(",");
        let n = parts[0].0;
        let word = parts[0].1;
        let rest = summary_of(parts.skip(1), tail);
        assert forall|i: int| 0 <= i < parts.skip(1).len() implies is_thing(
            (#[trigger] parts.skip(1)[i]).1,
        ) by {
            assert(parts.skip(1)[i] == parts[i + 1]);
        }
        lemma_summary_of(parts.skip(1), tail);
        let shown = if parts.len() == 1 {
            word
        } else {
            word + ","@
        };
        assert(is_thing(parts[0].1));
        lemma_thing_means(word, shown);
        let behind = shown + seq![' '] + rest;
        let d = decimal(n as nat);
        assert(line =~= d + seq![' '] + behind);
        lemma_number_and_rest(n as nat, behind);
        lemma_words_of_word_and_rest(shown, ' ', rest);
        law_decimal_is_read_back(n as nat);
        let pair = seq![d, shown];
        assert(words(line) =~= pair + words(rest));
        assert(pair.drop_last() =~= seq![d]);
        assert(count_passed(seq![d]) == 0 && count_failed(seq![d]) == 0);
        assert(pair[0] == d && pair.last() == shown);
        if words(rest).len() > 0 {
            lemma_count_concat(pair, words(rest));
        } else {
            assert(pair + words(rest) =~= pair);
        }
        assert(words(line)[0] == d);
        assert forall|i: int| 0 <= i < line.len() implies #[trigger] line[i] != '\n' by {
            if i < d.len() {
                assert(line[i] == d[i]);
            } else if i > d.len() {
                let j = i - d.len() - 1;
                assert(line[i] == behind[j]);
                if j < shown.len() {
                    assert(behind[j] == shown[j]);
                    assert(!is_white(shown[j]));
                } else if j > shown.len() {
                    assert(behind[j] == rest[j - shown.len() - 1]);
                }
            }
        }
        assert(line[0] == d[0]);
    }
}

/// However many things pytest counts on its last line, and whatever they are:
/// what is read as passed is the number before `passed`, and what is read as
/// failed is the sum of the numbers before `failed`, `error` and `errors`.
/// Nothing else that it counts, such as skipped tests or warnings, changes
/// either, and neither do the rules that it draws around the line.
pub proof fn law_only_failures_count_as_failed(
    before: Seq<char>,
    left: Seq<char>,
    parts: Seq<(u32, Seq<char>)>,
    tail: Seq<char>,
    right: Seq<char>,
    end: Seq<char>,
)
    requires
        before.len() == 0 || before.last() == '\n',
        parts.len() > 0,
        forall|i: int| 0 <= i < parts.len() ==> is_thing((#[trigger] parts[i]).1),
        forall|i: int|
            0 <= i < words(tail).len() ==> !counting_words().contains(#[trigger] words(tail)[i]),
        forall|i: int| 0 <= i < tail.len() ==> #[trigger] tail[i] != '\n',
        is_rule(left),
        is_rule(right),
        ends_line(end),
    ensures
        passed_tests(before + summary_of(parts, tail) + end) == total_of(parts, seq!["passed"@]),
        failed_tests(before + summary_of(parts, tail) + end) == total_of(
            parts,
            seq!["failed"@, "error"@, "errors"@],
        ),
        passed_tests(before + between_rules(left, summary_of(parts, tail), right) + end)
            == total_of(parts, seq!["passed"@]),
        failed_tests(before + between_rules(left, summary_of(parts, tail), right) + end)
            == total_of(parts, seq!["failed"@, "error"@, "errors"@]),
{
    let line = summary_of(parts, tail);
    lemma_summary_of(parts, tail);
    lemma_trimmed_text(line, 0);
    law_only_last_line_counts(before, line, end);
    lemma_between_rules(before, left, line, right, end);
}

/// Skipped tests are no failures: `p passed, k skipped` comes to `p` passed and
/// none failed, whatever `p` and `k` are and however long the run took.
pub proof fn law_skipped_tests_do_not_fail(passed: u32, skipped: u32, time: Seq<char>)
    requires
        time.len() > 0,
        forall|i: int| 0 <= i < time.len() ==> !is_white(#[trigger] time[i]),
        !counting_words().contains(time),
    ensures
        ({
            let line = decimal(passed as nat) + " passed, "@ + decimal(skipped as nat)
                + " skipped in "@ + time;
            passed_tests(line) == passed && failed_tests(line) == 0
        }),
{
    reveal_strlit(" passed, ");
    reveal_strlit(" skipped in ");
    reveal_strlit("passed");
    reveal_strlit("skipped");
    reveal_strlit("failed");
    reveal_strlit("error");
    reveal_strlit("errors");
    reveal_strlit("in ");
    reveal_strlit("in");
    reveal_strlit(" ");
    reveal_strlit(", ");
    let parts = seq![(passed, "passed"@), (skipped, "skipped"@)];
    let tail = "in"@ + seq![' '] + time;
    lemma_words_of_word_and_rest("in"@, ' ', time);
    lemma_words_of_word(time);
    lemma_fixed_words();
    assert(words(tail) =~= seq!["in"@, time]);
    assert(!counting_words().contains("in"@)) by {
        let all = counting_words();
        assert forall|i: int| 0 <= i < all.len() implies #[trigger] all[i] != "in"@ by {
            reveal_strlit("passed,");
            reveal_strlit("failed,");
            reveal_strlit("error,");
            reveal_strlit("errors,");
            assert("in"@.len() == 2);
            assert(all[i].len() >= 5);
        }
    }
    assert forall|i: int| 0 <= i < tail.len() implies #[trigger] tail[i] != '\n' by {
        if i >= 3 {
            assert(tail[i] == time[i - 3]);
            assert(!is_white(time[i - 3]));
        }
    }
    let line = decimal(passed as nat) + " passed, "@ + decimal(skipped as nat) + " skipped in "@
        + time;
    assert(parts.skip(1) =~= seq![(skipped, "skipped"@)]);
    assert(parts.skip(1).skip(1) =~= Seq::<(u32, Seq<char>)>::empty());
    reveal_with_fuel(summary_of, 3);
    reveal_with_fuel(total_of, 3);
    assert(line =~= summary_of(parts, tail));
    lemma_summary_of(parts, tail);
    lemma_trimmed_text(line, 0);
    let none = Seq::<char>::empty();
    law_only_last_line_counts(none, line, none);
    assert(none + line + none =~= line);
    let failing = seq!["failed"@, "error"@, "errors"@];
    assert(seq!["passed"@][0] == "passed"@);
    assert("skipped"@.len() == 7);
    assert("passed"@[0] == 'p' && "failed"@[0] == 'f');
}

/// Where no word of the last line counts tests, or nothing but white space was
/// printed, no tests are read from it.
pub proof fn law_nothing_is_made_up(before: Seq<char>, line: Seq<char>, end: Seq<char>)
    requires
        before.len() == 0 || before.last() == '\n',
        trimmed(line).len() > 0,
        forall|i: int| 0 <= i < line.len() ==> #[trigger] line[i] != '\n',
        forall|i: int|
            0 <= i < words(line).len() ==> !counting_words().contains(#[trigger] words(line)[i]),
        ends_line(end),
    ensures
        passed_tests(before + line + end) == 0,
        failed_tests(before + line + end) == 0,
        passed_tests(end) == 0,
        failed_tests(end) == 0,
{
    law_only_last_line_counts(before, line, end);
    lemma_nothing_counted(words(line));
    assert(is_blank(end));
    lemma_blank_lines(end);
    let none = Seq::<Seq<char>>::empty();
    lemma_summary_before_blanks(none, lines(end));
    assert(none + lines(end) =~= lines(end));
}

/// A number counts exactly where the word right behind it is one that counts;
/// what is no number counts nothing.
pub proof fn law_numbers_count_by_the_word_behind(list: Seq<Seq<char>>, word: Seq<char>)
    requires
        list.len() > 0,
    ensures
        ({
            let n = match read_u32(list.last()) {
                Some(n) => n as nat,
                None => 0,
            };
            &&& count_passed(list.push(word)) == count_passed(list) + (if word == "passed"@ || word
                == "passed,"@ {
                n
            } else {
                0
            })
            &&& count_failed(list.push(word)) == count_failed(list) + (if seq![
                "failed"@,
                "failed,"@,
                "error"@,
                "error,"@,
                "errors"@,
                "errors,"@,
            ].contains(word) {
                n
            } else {
                0
            })
        }),
        count_passed(seq![word]) == 0,
        count_failed(seq![word]) == 0,
{
    let longer = list.push(word);
    assert(longer.drop_last() =~= list);
    assert(longer[longer.len() - 2] == list.last());
    let failing = seq!["failed"@, "failed,"@, "error"@, "error,"@, "errors"@, "errors,"@];
    assert(failing[0] == "failed"@ && failing[1] == "failed,"@ && failing[2] == "error"@);
    assert(failing[3] == "error,"@ && failing[4] == "errors"@ && failing[5] == "errors,"@);
}

} // verus!
