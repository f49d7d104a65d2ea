//! Scaffolding for solutions to LeetCode problems: what a problem is, and
//! how the source file for its solution is made from a template.

use crate::text::push_char;
use vstd::prelude::*;
use vstd::string::*;

verus! {

/// A problem, as it is kept once it was fetched.
#[derive(Debug)]
pub struct Problem {
    pub title: String,
    pub title_slug: String,
    pub content: String,
    pub code_definition: Vec<CodeDefinition>,
    pub sample_test_case: String,
    pub difficulty: String,
    pub question_id: u32,
    pub return_type: String,
}

/// The code a problem starts from, in one language.
#[derive(Debug)]
pub struct CodeDefinition {
    pub value: String,
    pub text: String,
    pub default_code: String,
}

/// The answer to the question for one problem.
#[derive(Debug)]
pub struct RawProblem {
    pub data: Data,
}

/// What the answer holds.
#[derive(Debug)]
pub struct Data {
    pub question: Question,
}

/// A problem as the service describes it.
#[derive(Debug)]
pub struct Question {
    pub content: String,
    pub stats: String,
    pub code_definition: String,
    pub sample_test_case: String,
    pub meta_data: String,
}

/// The figures of one problem.
#[derive(Debug)]
pub struct Stat {
    pub question_id: u32,
    pub question_article_slug: Option<String>,
    pub question_title: Option<String>,
    pub question_title_slug: Option<String>,
    pub question_hide: bool,
    pub total_acs: u32,
    pub total_submitted: u32,
    pub frontend_question_id: u32,
    pub is_new_question: bool,
}

/// How hard a problem is.
#[derive(Clone, Copy, Debug, PartialEq, Eq, Structural)]
pub struct Difficulty {
    pub level: u32,
}

impl Difficulty {
    /// The name of the level.
    pub open spec fn text(&self) -> Seq<char> {
        if self.level == 1 {
            "Easy"@
        } else if self.level == 2 {
            "Medium"@
        } else if self.level == 3 {
            "Hard"@
        } else {
            "Unknown"@
        }
    }

    /// The name of the level: `Easy` for 1, `Medium` for 2, `Hard` for
    /// 3, `Unknown` for any other.
    pub fn to_string(&self) -> (s: String)
        ensures
            s@ == self.text(),
    {
        let text = if self.level == 1 {
            "Easy"
        } else if self.level == 2 {
            "Medium"
        } else if self.level == 3 {
            "Hard"
        } else {
            "Unknown"
        };
        String::from_str(text)
    }
}

/// What the command that sets up a repository is given.
#[derive(Clone, Copy, Debug, PartialEq, Eq, Structural)]
pub struct InitCommand {
    /// Whether what is there is overwritten without asking.
    pub force: bool,
    /// Whether no git repository is made.
    pub no_git: bool,
}

impl InitCommand {
    /// Whether the user is asked before what is there is deleted: they
    /// are, unless the command was told to force.
    pub fn asks_first(&self) -> (b: bool)
        ensures
            b == !self.force,
    {
        !self.force
    }

    /// Whether what is there is deleted, given what the user answered
    /// when asked: it is where the command was told to force, or the
    /// user agreed.
    pub fn proceeds(&self, confirmed: bool) -> (b: bool)
        ensures
            b == (self.force || confirmed),
    {
        self.force || confirmed
    }
}

/// What the command that pulls a problem is given.
#[derive(Clone, Copy, Debug, PartialEq, Eq, Structural)]
pub struct PullCommand {
    /// The number of the problem, if it was given.
    pub id: Option<u32>,
    /// Whether a solution that is there is overwritten.
    pub force: bool,
}

impl PullCommand {
    /// Whether the user is asked for the number of the problem.
    pub fn asks_for_id(&self) -> (b: bool)
        ensures
            b == (self.id is None),
    {
        self.id.is_none()
    }
}

/// Whether the problem with the number is among those that have a
/// solution.
pub fn is_initialized(initialized: &Vec<u32>, id: u32) -> (b: bool)
    ensures
        b == initialized@.contains(id),
{
    let mut i: usize = 0;
    while i < initialized.len()
        invariant
            i <= initialized.len(),
            forall|j: int| 0 <= j < i ==> initialized@[j] != id,
        decreases initialized.len() - i,
    {
        if initialized[i] == id {
            assert(initialized@[i as int] == id);
            return true;
        }
        i += 1;
    }
    false
}

/// The place of the first of the problem's codes that is in Rust, if one
/// is.
pub fn rust_definition(problem: &Problem) -> (at: Option<usize>)
    ensures
        match at {
            Some(at) => at < problem.code_definition@.len() && problem.code_definition@[at as int].value@
                == "rust"@ && forall|j: int|
                0 <= j < at ==> problem.code_definition@[j].value@ != "rust"@,
            None => forall|j: int|
                0 <= j < problem.code_definition@.len() ==> problem.code_definition@[j].value@
                    != "rust"@,
        },
{
    let rust = String::from_str("rust");
    let mut i: usize = 0;
    while i < problem.code_definition.len()
        invariant
            i <= problem.code_definition.len(),
            rust@ == "rust"@,
            forall|j: int| 0 <= j < i ==> problem.code_definition@[j].value@ != "rust"@,
        decreases problem.code_definition.len() - i,
    {
        if problem.code_definition[i].value == rust {
            return Some(i);
        }
        i += 1;
    }
    None
}

/// Whether `needle` stands somewhere in `haystack`.
pub open spec fn is_infix(needle: Seq<char>, haystack: Seq<char>) -> bool {
    exists|i: int|
        0 <= i <= haystack.len() - needle.len() && #[trigger] haystack.subrange(
            i,
            i + needle.len(),
        ) == needle
}

/// `text` with every `from` replaced by `to`, from left to right, where
/// a match begins only behind the match before it.
pub open spec fn replaced(text: Seq<char>, from: Seq<char>, to: Seq<char>) -> Seq<char>
    decreases text.len(),
{
    if from.len() == 0 || text.len() < from.len() {
        text
    } else if text.subrange(0, from.len() as int) == from {
        to + replaced(text.subrange(from.len() as int, text.len() as int), from, to)
    } else {
        seq![text[0]] + replaced(text.drop_first(), from, to)
    }
}

/// What replacing the first match of a pattern gives: `None` where the
/// pattern is no regular expression, else the text with its first
/// match, if it has one, replaced.
pub uninterp spec fn regex_replaced_first(pattern: Seq<char>, text: Seq<char>, with: Seq<char>)
    -> Option<Seq<char>>;

/// The matches of a pattern in a text, from left to right, none
/// overlapping another; `None` where the pattern is no regular
/// expression.
pub uninterp spec fn regex_matches(pattern: Seq<char>, text: Seq<char>) -> Option<Seq<Seq<char>>>;

/// Whether the text is a Rust source file.
pub uninterp spec fn is_rust_file(code: Seq<char>) -> bool;

/// Whether `needle` stands somewhere in `haystack`.
///
/// Wraps `str::contains` with a string as the pattern, which says
/// whether the pattern matches a sub-slice of the string.
#[verifier::external_body]
fn text_contains(haystack: &str, needle: &str) -> (found: bool)
    ensures
        found == is_infix(needle@, haystack@),
{
    haystack.contains(needle)
}

/// `text` with every `from` replaced by `to`.
///
/// Wraps `str::replace` with a string as the pattern, which replaces all
/// matches of the pattern; with a pattern that is not empty the matches
/// are found from left to right and do not overlap.
#[verifier::external_body]
fn replace_all(text: &str, from: &str, to: &str) -> (res: String)
    requires
        from@.len() > 0,
    ensures
        res@ == replaced(text@, from@, to@),
{
    text.replace(from, to)
}

/// The text with the first match of the pattern replaced.
///
/// Wraps `regex::Regex::new` and `Regex::replace`. The first fails on a
/// pattern that is no regular expression. The second replaces the
/// leftmost first match, expanding references to groups in the
/// replacement, and hands back the text unchanged where nothing matches.
/// The result depends on the three texts alone.
#[verifier::external_body]
fn regex_replace_first(pattern: &str, text: &str, with: &str) -> (res: Option<String>)
    ensures
        match res {
            Some(s) => regex_replaced_first(pattern@, text@, with@) == Some(s@),
            None => regex_replaced_first(pattern@, text@, with@) is None,
        },
{
    regex::Regex::new(pattern).ok().map(|re| re.replace(text, with).into_owned())
}

/// The matches of the pattern in the text.
///
/// Wraps `regex::Regex::new` and `Regex::find_iter`. The first fails on
/// a pattern that is no regular expression. The second yields the
/// matches that do not overlap, from left to right. The result depends
/// on the two texts alone.
#[verifier::external_body]
fn regex_find_all(pattern: &str, text: &str) -> (res: Option<Vec<String>>)
    ensures
        match res {
            Some(found) => regex_matches(pattern@, text@) == Some(
                Seq::new(found@.len(), |i: int| found@[i]@),
            ),
            None => regex_matches(pattern@, text@) is None,
        },
{
    regex::Regex::new(pattern).ok().map(
        |re| re.find_iter(text).map(|m| m.as_str().to_string()).collect(),
    )
}

/// Whether the text is a Rust source file.
///
/// Wraps `syn::parse_file`, which parses the text of a source file and
/// fails where it is none. The result depends on the text alone.
#[verifier::external_body]
fn parses_as_rust_file(code: &str) -> (ok: bool)
    ensures
        ok == is_rust_file(code@),
{
    syn::parse_file(code).is_ok()
}

/// The `use` lines for the types that the code declares in comments: one
/// each for `ListNode`, `TreeNode` and `Point`, in this order.
pub open spec fn extra_use_of(code: Seq<char>) -> Seq<char> {
    (if is_infix("pub struct ListNode"@, code) {
        "\nuse crate::util::linked_list::{ListNode, to_list};"@
    } else {
        Seq::empty()
    }) + (if is_infix("pub struct TreeNode"@, code) {
        "\nuse crate::util::tree::{TreeNode, to_tree};"@
    } else {
        Seq::empty()
    }) + (if is_infix("pub struct Point"@, code) {
        "\nuse crate::util::point::Point;"@
    } else {
        Seq::empty()
    })
}

/// The `use` lines that a solution needs for the types its code names.
pub fn parse_extra_use(code: &str) -> (lines: String)
    ensures
        lines@ == extra_use_of(code@),
{
    let mut extra_use_line = String::new();
    if text_contains(code, "pub struct ListNode") {
        extra_use_line.append("\nuse crate::util::linked_list::{ListNode, to_list};");
    }
    if text_contains(code, "pub struct TreeNode") {
        extra_use_line.append("\nuse crate::util::tree::{TreeNode, to_tree};");
    }
    if text_contains(code, "pub struct Point") {
        extra_use_line.append("\nuse crate::util::point::Point;");
    }
    assert(extra_use_line@ =~= extra_use_of(code@));
    extra_use_line
}

/// The address of the problem's page.
pub fn parse_problem_link(problem: &Problem) -> (link: String)
    ensures
        link@ == "https://leetcode.com/problems/"@ + problem.title_slug@ + "/"@,
{
    let mut link = String::from_str("https://leetcode.com/problems/");
    link.append(problem.title_slug.as_str());
    link.append("/");
    link
}

/// The address of the page where the problem is discussed, most voted
/// first.
pub fn parse_discuss_link(problem: &Problem) -> (link: String)
    ensures
        link@ == "https://leetcode.com/problems/"@ + problem.title_slug@
            + "/discuss/?currentPage=1&orderBy=most_votes&query="@,
{
    let mut link = String::from_str("https://leetcode.com/problems/");
    link.append(problem.title_slug.as_str());
    link.append("/discuss/?currentPage=1&orderBy=most_votes&query=");
    link
}

/// The description of a problem as it stands in the comment at the head
/// of a solution: the markup is taken out, the entities are written out,
/// empty lines are dropped, every line after the first begins with an
/// asterisk, and tabs are two spaces.
pub open spec fn desc_of(content: Seq<char>) -> Seq<char> {
    let s0 = replaced(content, "<strong>"@, ""@);
    let s1 = replaced(s0, "</strong>"@, ""@);
    let s2 = replaced(s1, "<em>"@, ""@);
    let s3 = replaced(s2, "</em>"@, ""@);
    let s4 = replaced(s3, "</p>"@, ""@);
    let s5 = replaced(s4, "<p>"@, ""@);
    let s6 = replaced(s5, "<b>"@, ""@);
    let s7 = replaced(s6, "</b>"@, ""@);
    let s8 = replaced(s7, "<pre>"@, ""@);
    let s9 = replaced(s8, "</pre>"@, ""@);
    let s10 = replaced(s9, "<ul>"@, ""@);
    let s11 = replaced(s10, "</ul>"@, ""@);
    let s12 = replaced(s11, "<li>"@, ""@);
    let s13 = replaced(s12, "</li>"@, ""@);
    let s14 = replaced(s13, "<code>"@, ""@);
    let s15 = replaced(s14, "</code>"@, ""@);
    let s16 = replaced(s15, "<i>"@, ""@);
    let s17 = replaced(s16, "</i>"@, ""@);
    let s18 = replaced(s17, "<sub>"@, ""@);
    let s19 = replaced(s18, "</sub>"@, ""@);
    let s20 = replaced(s19, "</sup>"@, ""@);
    let s21 = replaced(s20, "<sup>"@, "^"@);
    let s22 = replaced(s21, "&nbsp;"@, " "@);
    let s23 = replaced(s22, "&gt;"@, ">"@);
    let s24 = replaced(s23, "&lt;"@, "<"@);
    let s25 = replaced(s24, "&quot;"@, "\""@);
    let s26 = replaced(s25, "&minus;"@, "-"@);
    let s27 = replaced(s26, "&#39;"@, "'"@);
    let s28 = replaced(s27, "\n\n"@, "\n"@);
    let s29 = replaced(s28, "\n"@, "\n * "@);
    let s30 = replaced(s29, "\t"@, "  "@);
    s30
}

/// The description of a problem as it stands in the comment at the head
/// of a solution.
pub fn build_desc(content: &str) -> (desc: String)
    ensures
        desc@ == desc_of(content@),
{
    proof {
        reveal_strlit("<strong>");
        reveal_strlit("</strong>");
        reveal_strlit("<em>");
        reveal_strlit("</em>");
        reveal_strlit("</p>");
        reveal_strlit("<p>");
        reveal_strlit("<b>");
        reveal_strlit("</b>");
        reveal_strlit("<pre>");
        reveal_strlit("</pre>");
        reveal_strlit("<ul>");
        reveal_strlit("</ul>");
        reveal_strlit("<li>");
        reveal_strlit("</li>");
        reveal_strlit("<code>");
        reveal_strlit("</code>");
        reveal_strlit("<i>");
        reveal_strlit("</i>");
        reveal_strlit("<sub>");
        reveal_strlit("</sub>");
        reveal_strlit("</sup>");
        reveal_strlit("<sup>");
        reveal_strlit("&nbsp;");
        reveal_strlit("&gt;");
        reveal_strlit("&lt;");
        reveal_strlit("&quot;");
        reveal_strlit("&minus;");
        reveal_strlit("&#39;");
        reveal_strlit("\n\n");
        reveal_strlit("\n");
        reveal_strlit("\t");
    }
    let s0 = replace_all(content, "<strong>", "");
    let s1 = replace_all(s0.as_str(), "</strong>", "");
    let s2 = replace_all(s1.as_str(), "<em>", "");
    let s3 = replace_all(s2.as_str(), "</em>", "");
    let s4 = replace_all(s3.as_str(), "</p>", "");
    let s5 = replace_all(s4.as_str(), "<p>", "");
    let s6 = replace_all(s5.as_str(), "<b>", "");
    let s7 = replace_all(s6.as_str(), "</b>", "");
    let s8 = replace_all(s7.as_str(), "<pre>", "");
    let s9 = replace_all(s8.as_str(), "</pre>", "");
    let s10 = replace_all(s9.as_str(), "<ul>", "");
    let s11 = replace_all(s10.as_str(), "</ul>", "");
    let s12 = replace_all(s11.as_str(), "<li>", "");
    let s13 = replace_all(s12.as_str(), "</li>", "");
    let s14 = replace_all(s13.as_str(), "<code>", "");
    let s15 = replace_all(s14.as_str(), "</code>", "");
    let s16 = replace_all(s15.as_str(), "<i>", "");
    let s17 = replace_all(s16.as_str(), "</i>", "");
    let s18 = replace_all(s17.as_str(), "<sub>", "");
    let s19 = replace_all(s18.as_str(), "</sub>", "");
    let s20 = replace_all(s19.as_str(), "</sup>", "");
    let s21 = replace_all(s20.as_str(), "<sup>", "^");
    let s22 = replace_all(s21.as_str(), "&nbsp;", " ");
    let s23 = replace_all(s22.as_str(), "&gt;", ">");
    let s24 = replace_all(s23.as_str(), "&lt;", "<");
    let s25 = replace_all(s24.as_str(), "&quot;", "\"");
    let s26 = replace_all(s25.as_str(), "&minus;", "-");
    let s27 = replace_all(s26.as_str(), "&#39;", "'");
    let s28 = replace_all(s27.as_str(), "\n\n", "\n");
    let s29 = replace_all(s28.as_str(), "\n", "\n * ");
    let s30 = replace_all(s29.as_str(), "\t", "  ");
    s30
}

/// The pattern of a function body that is empty but for blanks and line
/// breaks.
pub open spec fn empty_body() -> Seq<char> {
    "\\{[ \\n]+}"@
}

/// The body that a function gets whose result has the type: one that
/// returns a value of the type. `None` for a type that has none.
pub open spec fn default_body(return_type: Seq<char>) -> Option<Seq<char>> {
    if return_type == "ListNode"@ {
        Some("{\n        Some(Box::new(ListNode::new(0)))\n    }"@)
    } else if return_type == "ListNode[]"@ {
        Some("{\n        vec![]\n    }"@)
    } else if return_type == "TreeNode"@ {
        Some("{\n        Some(Rc::new(RefCell::new(TreeNode::new(0))))\n    }"@)
    } else if return_type == "boolean"@ {
        Some("{\n        false\n    }"@)
    } else if return_type == "character"@ {
        Some("{\n        '0'\n    }"@)
    } else if return_type == "character[][]"@ {
        Some("{\n        vec![]\n    }"@)
    } else if return_type == "double"@ {
        Some("{\n        0f64\n    }"@)
    } else if return_type == "double[]"@ {
        Some("{\n        vec![]\n    }"@)
    } else if return_type == "int[]"@ {
        Some("{\n        vec![]\n    }"@)
    } else if return_type == "integer"@ {
        Some("{\n        0\n    }"@)
    } else if return_type == "integer[]"@ {
        Some("{\n        vec![]\n    }"@)
    } else if return_type == "integer[][]"@ {
        Some("{\n        vec![]\n    }"@)
    } else if return_type == "list<String>"@ {
        Some("{\n        vec![]\n    }"@)
    } else if return_type == "list<TreeNode>"@ {
        Some("{\n        vec![]\n    }"@)
    } else if return_type == "list<boolean>"@ {
        Some("{\n        vec![]\n    }"@)
    } else if return_type == "list<double>"@ {
        Some("{\n        vec![]\n    }"@)
    } else if return_type == "list<integer>"@ {
        Some("{\n        vec![]\n    }"@)
    } else if return_type == "list<list<integer>>"@ {
        Some("{\n        vec![]\n    }"@)
    } else if return_type == "list<list<string>>"@ {
        Some("{\n        vec![]\n    }"@)
    } else if return_type == "list<string>"@ {
        Some("{\n        vec![]\n    }"@)
    } else if return_type == "string"@ {
        Some("{\n        String::new()\n    }"@)
    } else if return_type == "string[]"@ {
        Some("{\n        vec![]\n    }"@)
    } else {
        None
    }
}

fn is(text: &String, wanted: &str) -> (b: bool)
    ensures
        b == (text@ == wanted@),
{
    let wanted = String::from_str(wanted);
    *text == wanted
}

/// The body that a function gets whose result has the type.
pub fn default_body_for(return_type: &str) -> (body: Option<&'static str>)
    ensures
        match body {
            Some(b) => default_body(return_type@) == Some(b@),
            None => default_body(return_type@) is None,
        },
{
    let return_type = String::from_str(return_type);
    if is(&return_type, "ListNode") {
        Some("{\n        Some(Box::new(ListNode::new(0)))\n    }")
    } else if is(&return_type, "ListNode[]") {
        Some("{\n        vec![]\n    }")
    } else if is(&return_type, "TreeNode") {
        Some("{\n        Some(Rc::new(RefCell::new(TreeNode::new(0))))\n    }")
    } else if is(&return_type, "boolean") {
        Some("{\n        false\n    }")
    } else if is(&return_type, "character") {
        Some("{\n        '0'\n    }")
    } else if is(&return_type, "character[][]") {
        Some("{\n        vec![]\n    }")
    } else if is(&return_type, "double") {
        Some("{\n        0f64\n    }")
    } else if is(&return_type, "double[]") {
        Some("{\n        vec![]\n    }")
    } else if is(&return_type, "int[]") {
        Some("{\n        vec![]\n    }")
    } else if is(&return_type, "integer") {
        Some("{\n        0\n    }")
    } else if is(&return_type, "integer[]") {
        Some("{\n        vec![]\n    }")
    } else if is(&return_type, "integer[][]") {
        Some("{\n        vec![]\n    }")
    } else if is(&return_type, "list<String>") {
        Some("{\n        vec![]\n    }")
    } else if is(&return_type, "list<TreeNode>") {
        Some("{\n        vec![]\n    }")
    } else if is(&return_type, "list<boolean>") {
        Some("{\n        vec![]\n    }")
    } else if is(&return_type, "list<double>") {
        Some("{\n        vec![]\n    }")
    } else if is(&return_type, "list<integer>") {
        Some("{\n        vec![]\n    }")
    } else if is(&return_type, "list<list<integer>>") {
        Some("{\n        vec![]\n    }")
    } else if is(&return_type, "list<list<string>>") {
        Some("{\n        vec![]\n    }")
    } else if is(&return_type, "list<string>") {
        Some("{\n        vec![]\n    }")
    } else if is(&return_type, "string") {
        Some("{\n        String::new()\n    }")
    } else if is(&return_type, "string[]") {
        Some("{\n        vec![]\n    }")
    } else {
        None
    }
}

/// The code with its first empty function body filled so that the code
/// compiles: with the body that goes with the type of the result. Code
/// whose result has a type without such a body stays as it is.
pub open spec fn with_return(return_type: Seq<char>, code: Seq<char>) -> Seq<char> {
    match default_body(return_type) {
        Some(body) => match regex_replaced_first(empty_body(), code, body) {
            Some(filled) => filled,
            None => code,
        },
        None => code,
    }
}

/// The code with its first empty function body filled so that the code
/// compiles.
pub fn insert_return_in_code(return_type: &str, code: &str) -> (filled: String)
    ensures
        filled@ == with_return(return_type@, code@),
{
    match default_body_for(return_type) {
        Some(body) => match regex_replace_first("\\{[ \\n]+}", code, body) {
            Some(filled) => filled,
            None => String::from_str(code),
        },
        None => String::from_str(code),
    }
}

/// The pattern of a function with a result and an empty body.
pub open spec fn typed_empty_fn() -> Seq<char> {
    "\\s+->\\s+([a-zA-Z0-9<>_]+)\\s+\\{[\\s*\\n*.*]*}"@
}

/// Whether the code is a Rust source file that holds a function with a
/// result and an empty body.
pub open spec fn has_typed_empty_fn(code: Seq<char>) -> bool {
    &&& regex_matches(typed_empty_fn(), code) is Some
    &&& regex_matches(typed_empty_fn(), code)->0.len() > 0
    &&& is_rust_file(code)
}

/// The code itself, if it is a Rust source file that holds a function
/// with a result and an empty body.
pub fn insert_return_type(code: &str) -> (res: Option<String>)
    ensures
        has_typed_empty_fn(code@) ==> res is Some && res->0@ == code@,
        !has_typed_empty_fn(code@) ==> res is None,
{
    let found = match regex_find_all("\\s+->\\s+([a-zA-Z0-9<>_]+)\\s+\\{[\\s*\\n*.*]*}", code) {
        Some(found) => found.len() > 0,
        None => false,
    };
    if found && parses_as_rust_file(code) {
        Some(String::from_str(code))
    } else {
        None
    }
}

/// The character of a decimal digit.
pub open spec fn dec_digit(d: int) -> char {
    if d == 0 {
        '0'
    } else if d == 1 {
        '1'
    } else if d == 2 {
        '2'
    } else if d == 3 {
        '3'
    } else if d == 4 {
        '4'
    } else if d == 5 {
        '5'
    } else if d == 6 {
        '6'
    } else if d == 7 {
        '7'
    } else if d == 8 {
        '8'
    } else {
        '9'
    }
}

/// The decimal digits of `n`, without leading zeros.
pub open spec fn decimal(n: nat) -> Seq<char>
    decreases n,
{
    if n < 10 {
        seq![dec_digit(n as int)]
    } else {
        decimal(n / 10).push(dec_digit((n % 10) as int))
    }
}

/// `count` zeros.
pub open spec fn zeros(count: nat) -> Seq<char> {
    Seq::new(count, |i: int| '0')
}

/// The decimal digits of `n`, with zeros in front where they are fewer
/// than `width`.
pub open spec fn padded(n: nat, width: nat) -> Seq<char> {
    if decimal(n).len() >= width {
        decimal(n)
    } else {
        zeros((width - decimal(n).len()) as nat) + decimal(n)
    }
}

fn dec_digit_char(d: u32) -> (c: char)
    requires
        d < 10,
    ensures
        c == dec_digit(d as int),
{
    if d == 0 {
        '0'
    } else if d == 1 {
        '1'
    } else if d == 2 {
        '2'
    } else if d == 3 {
        '3'
    } else if d == 4 {
        '4'
    } else if d == 5 {
        '5'
    } else if d == 6 {
        '6'
    } else if d == 7 {
        '7'
    } else if d == 8 {
        '8'
    } else {
        '9'
    }
}

fn push_decimal(s: &mut String, n: u32)
    ensures
        final(s)@ == old(s)@ + decimal(n as nat),
    decreases n,
{
    if n >= 10 {
        push_decimal(s, n / 10);
    }
    let ghost before = s@;
    push_char(s, dec_digit_char(n % 10));
    if n >= 10 {
        assert(s@ =~= old(s)@ + decimal(n as nat));
    } else {
        assert(s@ =~= old(s)@ + seq![dec_digit(n as int)]);
    }
}

fn decimal_len(n: u32) -> (len: usize)
    ensures
        len == decimal(n as nat).len(),
        1 <= len <= 10,
    decreases n,
{
    if n < 10 {
        1
    } else {
        let shorter = decimal_len(n / 10);
        assert(n / 10 <= 429496729);
        proof {
            lemma_decimal_len_bound((n / 10) as nat);
        }
        shorter + 1
    }
}

proof fn lemma_decimal_len_bound(n: nat)
    requires
        n <= 429496729,
    ensures
        decimal(n).len() <= 9,
{
    reveal_with_fuel(decimal, 10);
}

/// The decimal digits of `n`.
pub fn decimal_string(n: u32) -> (s: String)
    ensures
        s@ == decimal(n as nat),
{
    let mut s = String::new();
    push_decimal(&mut s, n);
    assert(s@ =~= decimal(n as nat));
    s
}

/// The name of the file of a problem's solution, without its extension:
/// `p`, the number of the problem in at least four digits, an
/// underscore, and the slug of the title with underscores for hyphens.
pub open spec fn file_name_of(question_id: u32, title_slug: Seq<char>) -> Seq<char> {
    seq!['p'] + padded(question_id as nat, 4) + seq!['_'] + replaced(title_slug, "-"@, "_"@)
}

/// The name of the file of a problem's solution, without its extension.
pub fn problem_file_name(problem: &Problem) -> (name: String)
    ensures
        name@ == file_name_of(problem.question_id, problem.title_slug@),
{
    let mut name = String::new();
    push_char(&mut name, 'p');
    let len = decimal_len(problem.question_id);
    let mut i: usize = len;
    while i < 4
        invariant
            len <= i,
            i == len || i <= 4,
            len == decimal(problem.question_id as nat).len(),
            name@ == seq!['p'] + zeros((i - len) as nat),
        decreases 4 - i,
    {
        push_char(&mut name, '0');
        i += 1;
        assert(name@ =~= seq!['p'] + zeros((i - len) as nat));
    }
    let ghost front = name@;
    push_decimal(&mut name, problem.question_id);
    push_char(&mut name, '_');
    proof {
        reveal_strlit("-");
    }
    let slug = replace_all(problem.title_slug.as_str(), "-", "_");
    name.append(slug.as_str());
    proof {
        let n = problem.question_id as nat;
        if len >= 4 {
            assert(zeros((i - len) as nat) =~= Seq::<char>::empty());
            assert(front =~= seq!['p']);
        } else {
            assert(i == 4);
        }
        assert(front + decimal(n) =~= seq!['p'] + padded(n, 4));
        assert(name@ =~= file_name_of(problem.question_id, problem.title_slug@));
    }
    name
}

/// The source of a solution: the template with the title, the
/// description, the code, the number, the `use` lines and the two links
/// of the problem in the places that are marked for them.
pub open spec fn filled_template(template: Seq<char>, problem: Problem, code: CodeDefinition) -> Seq<
    char,
> {
    let s0 = replaced(template, "__PROBLEM_TITLE__"@, problem.title@);
    let s1 = replaced(s0, "__PROBLEM_DESC__"@, desc_of(problem.content@));
    let s2 = replaced(
        s1,
        "__PROBLEM_DEFAULT_CODE__"@,
        with_return(problem.return_type@, code.default_code@),
    );
    let s3 = replaced(s2, "__PROBLEM_ID__"@, decimal(problem.question_id as nat));
    let s4 = replaced(s3, "__EXTRA_USE__"@, extra_use_of(code.default_code@));
    let s5 = replaced(
        s4,
        "__PROBLEM_LINK__"@,
        "https://leetcode.com/problems/"@ + problem.title_slug@ + "/"@,
    );
    replaced(
        s5,
        "__DISCUSS_LINK__"@,
        "https://leetcode.com/problems/"@ + problem.title_slug@
            + "/discuss/?currentPage=1&orderBy=most_votes&query="@,
    )
}

/// The source of a solution, made from the template.
pub fn fill_template(template: &str, problem: &Problem, code: &CodeDefinition) -> (source: String)
    ensures
        source@ == filled_template(template@, *problem, *code),
{
    proof {
        reveal_strlit("__PROBLEM_TITLE__");
        reveal_strlit("__PROBLEM_DESC__");
        reveal_strlit("__PROBLEM_DEFAULT_CODE__");
        reveal_strlit("__PROBLEM_ID__");
        reveal_strlit("__EXTRA_USE__");
        reveal_strlit("__PROBLEM_LINK__");
        reveal_strlit("__DISCUSS_LINK__");
    }
    let s0 = replace_all(template, "__PROBLEM_TITLE__", problem.title.as_str());
    let desc = build_desc(problem.content.as_str());
    let s1 = replace_all(s0.as_str(), "__PROBLEM_DESC__", desc.as_str());
    let filled = insert_return_in_code(
        problem.return_type.as_str(),
        code.default_code.as_str(),
    );
    let s2 = replace_all(s1.as_str(), "__PROBLEM_DEFAULT_CODE__", filled.as_str());
    let id = decimal_string(problem.question_id);
    let s3 = replace_all(s2.as_str(), "__PROBLEM_ID__", id.as_str());
    let extra = parse_extra_use(code.default_code.as_str());
    let s4 = replace_all(s3.as_str(), "__EXTRA_USE__", extra.as_str());
    let link = parse_problem_link(problem);
    let s5 = replace_all(s4.as_str(), "__PROBLEM_LINK__", link.as_str());
    let discuss = parse_discuss_link(problem);
    replace_all(s5.as_str(), "__DISCUSS_LINK__", discuss.as_str())
}

/// Whether the text is made of decimal digits alone; the empty text is.
pub open spec fn all_digits(text: Seq<char>) -> bool {
    forall|i: int| 0 <= i < text.len() ==> '0' <= #[trigger] text[i] <= '9'
}

/// Whether what a user typed can be the number of a problem: whether it
/// is made of decimal digits alone.
pub fn is_problem_id(input: &str) -> (ok: bool)
    ensures
        ok == all_digits(input@),
{
    let n = input.unicode_len();
    let mut i: usize = 0;
    while i < n
        invariant
            i <= n,
            n == input@.len(),
            forall|j: int| 0 <= j < i ==> '0' <= #[trigger] input@[j] <= '9',
        decreases n - i,
    {
        let c = input.get_char(i);
        if !('0' <= c && c <= '9') {
            return false;
        }
        i += 1;
    }
    true
}

/// The number that the four characters behind the first of `name` spell,
/// if `name` is `p`, four decimal digits and an underscore.
pub open spec fn id_in(name: Seq<char>) -> Option<u32> {
    if name.len() == 6 && name[0] == 'p' && name[5] == '_' && all_digits(name.subrange(1, 5)) {
        Some(
            ((name[1] as u32 - '0' as u32) * 1000 + (name[2] as u32 - '0' as u32) * 100 + (name[3] as u32
                - '0' as u32) * 10 + (name[4] as u32 - '0' as u32)) as u32,
        )
    } else {
        None
    }
}

/// The pattern of the beginning of the name of a solution's file.
pub open spec fn file_name_head() -> Seq<char> {
    "p[0-9]{4}_"@
}

/// The numbers in `names`, in order, of those that spell one.
pub open spec fn ids_in(names: Seq<Seq<char>>) -> Seq<u32>
    decreases names.len(),
{
    if names.len() == 0 {
        Seq::empty()
    } else {
        match id_in(names.last()) {
            Some(id) => ids_in(names.drop_last()).push(id),
            None => ids_in(names.drop_last()),
        }
    }
}

fn digit_value(c: char) -> (v: Option<u32>)
    ensures
        v == if '0' <= c <= '9' {
            Some((c as u32 - '0' as u32) as u32)
        } else {
            None::<u32>
        },
{
    if '0' <= c && c <= '9' {
        Some(c as u32 - '0' as u32)
    } else {
        None
    }
}

fn id_of_name(name: &str) -> (id: Option<u32>)
    ensures
        id == id_in(name@),
{
    if name.unicode_len() != 6 {
        return None;
    }
    if name.get_char(0) != 'p' || name.get_char(5) != '_' {
        return None;
    }
    let ghost digits = name@.subrange(1, 5);
    let a = digit_value(name.get_char(1));
    let b = digit_value(name.get_char(2));
    let c = digit_value(name.get_char(3));
    let d = digit_value(name.get_char(4));
    match (a, b, c, d) {
        (Some(a), Some(b), Some(c), Some(d)) => {
            assert forall|i: int| 0 <= i < digits.len() implies '0' <= #[trigger] digits[i]
                <= '9' by {
                assert(digits[i] == name@[i + 1]);
            }
            Some(a * 1000 + b * 100 + c * 10 + d)
        },
        _ => {
            proof {
                if all_digits(digits) {
                    assert(digits[0] == name@[1]);
                    assert(digits[1] == name@[2]);
                    assert(digits[2] == name@[3]);
                    assert(digits[3] == name@[4]);
                }
            }
            None
        },
    }
}

/// The numbers of the problems whose solutions the list of modules
/// names: those that stand in it as `p`, four digits and an underscore.
pub fn initialized_problems(modules: &str) -> (ids: Vec<u32>)
    ensures
        ids@ == match regex_matches(file_name_head(), modules@) {
            Some(names) => ids_in(names),
            None => Seq::<u32>::empty(),
        },
{
    let mut ids: Vec<u32> = Vec::new();
    match regex_find_all("p[0-9]{4}_", modules) {
        None => {},
        Some(names) => {
            let ghost all = Seq::new(names@.len(), |i: int| names@[i]@);
            let mut i: usize = 0;
            assert(all.subrange(0, 0) =~= Seq::<Seq<char>>::empty());
            while i < names.len()
                invariant
                    i <= names.len(),
                    all == Seq::new(names@.len(), |i: int| names@[i]@),
                    ids@ == ids_in(all.subrange(0, i as int)),
                decreases names.len() - i,
            {
                proof {
                    let longer = all.subrange(0, i + 1);
                    assert(longer.drop_last() =~= all.subrange(0, i as int));
                    assert(longer.last() == names@[i as int]@);
                }
                match id_of_name(names[i].as_str()) {
                    Some(id) => {
                        ids.push(id);
                    },
                    None => {},
                }
                i += 1;
            }
            assert(all.subrange(0, all.len() as int) =~= all);
        },
    }
    ids
}

} // verus!
