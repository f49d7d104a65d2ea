use quip::graph::{to_graph, GraphNode};
use quip::nested_integer::NestedInteger;
use quip::scaffold::{
    is_initialized, rust_definition, InitCommand, PullCommand,
    build_desc, decimal_string, default_body_for, fill_template, initialized_problems,
    insert_return_in_code, insert_return_type, is_problem_id, parse_discuss_link,
    parse_extra_use, parse_problem_link, problem_file_name, CodeDefinition, Difficulty, Problem,
};

fn two_sum() -> Problem {
    Problem {
        title: "Two Sum".to_string(),
        title_slug: "two-sum".to_string(),
        content: "<p>Given <code>nums</code>&nbsp;and <em>target</em>.</p>\n\n<p>Return&nbsp;<strong>indices</strong>.</p>".to_string(),
        code_definition: vec![],
        sample_test_case: "[2,7,11,15]\n9".to_string(),
        difficulty: "Easy".to_string(),
        question_id: 1,
        return_type: "integer[]".to_string(),
    }
}

const TWO_SUM_CODE: &str = "impl Solution {\n    pub fn two_sum(nums: Vec<i32>, target: i32) -> Vec<i32> {\n        \n    }\n}";

#[test]
fn difficulty_names() {
    assert_eq!(Difficulty { level: 1 }.to_string(), "Easy");
    assert_eq!(Difficulty { level: 2 }.to_string(), "Medium");
    assert_eq!(Difficulty { level: 3 }.to_string(), "Hard");
    assert_eq!(Difficulty { level: 0 }.to_string(), "Unknown");
    assert_eq!(Difficulty { level: 4 }.to_string(), "Unknown");
}

#[test]
fn links() {
    let problem = two_sum();
    assert_eq!(parse_problem_link(&problem), "https://leetcode.com/problems/two-sum/");
    assert_eq!(
        parse_discuss_link(&problem),
        "https://leetcode.com/problems/two-sum/discuss/?currentPage=1&orderBy=most_votes&query="
    );
}

#[test]
fn extra_use_lines() {
    assert_eq!(parse_extra_use("fn main() {}"), "");
    assert_eq!(
        parse_extra_use("// pub struct ListNode {"),
        "\nuse crate::util::linked_list::{ListNode, to_list};"
    );
    assert_eq!(
        parse_extra_use("// pub struct Point\n// pub struct TreeNode\n// pub struct ListNode"),
        "\nuse crate::util::linked_list::{ListNode, to_list};\nuse crate::util::tree::{TreeNode, to_tree};\nuse crate::util::point::Point;"
    );
    assert_eq!(parse_extra_use("pub struct Poin"), "");
}

#[test]
fn description_loses_its_markup() {
    assert_eq!(
        build_desc(&two_sum().content),
        "Given nums and target.\n * Return indices."
    );
    assert_eq!(build_desc("a<sup>2</sup> &lt; b<sub>1</sub>"), "a^2 < b1");
    assert_eq!(build_desc("&quot;x&quot; &minus; &#39;y&#39; &gt; 0"), "\"x\" - 'y' > 0");
    assert_eq!(build_desc("a\n\n\nb\tc"), "a\n * \n * b  c");
    assert_eq!(build_desc("<ul><li>one</li><li>two</li></ul><pre><b><i>x</i></b></pre>"), "onetwox");
    assert_eq!(build_desc(""), "");
}

#[test]
fn empty_body_is_filled_by_return_type() {
    assert_eq!(
        insert_return_in_code("integer[]", TWO_SUM_CODE),
        "impl Solution {\n    pub fn two_sum(nums: Vec<i32>, target: i32) -> Vec<i32> {\n        vec![]\n    }\n}"
    );
    assert_eq!(insert_return_in_code("boolean", "fn f() -> bool {\n }"), "fn f() -> bool {\n        false\n    }");
    assert_eq!(insert_return_in_code("integer", "fn f() -> i32 { }"), "fn f() -> i32 {\n        0\n    }");
    assert_eq!(
        insert_return_in_code("string", "fn f() -> String { \n }"),
        "fn f() -> String {\n        String::new()\n    }"
    );
    assert_eq!(
        insert_return_in_code("ListNode", "fn f() { } fn g() { }"),
        "fn f() {\n        Some(Box::new(ListNode::new(0)))\n    } fn g() { }"
    );
    // A body that is not empty, or a type without a default, leaves the code as it is.
    assert_eq!(insert_return_in_code("integer", "fn f() -> i32 {1}"), "fn f() -> i32 {1}");
    assert_eq!(insert_return_in_code("integer", "fn f() -> i32 {}"), "fn f() -> i32 {}");
    assert_eq!(insert_return_in_code("void", TWO_SUM_CODE), TWO_SUM_CODE);
    assert_eq!(insert_return_in_code("null", TWO_SUM_CODE), TWO_SUM_CODE);
    assert_eq!(insert_return_in_code("Node", TWO_SUM_CODE), TWO_SUM_CODE);
    assert_eq!(insert_return_in_code("NestedInteger", TWO_SUM_CODE), TWO_SUM_CODE);
    assert_eq!(insert_return_in_code("something else", TWO_SUM_CODE), TWO_SUM_CODE);
}

#[test]
fn default_bodies() {
    assert_eq!(default_body_for("double"), Some("{\n        0f64\n    }"));
    assert_eq!(default_body_for("character"), Some("{\n        '0'\n    }"));
    assert_eq!(
        default_body_for("TreeNode"),
        Some("{\n        Some(Rc::new(RefCell::new(TreeNode::new(0))))\n    }")
    );
    for list in [
        "ListNode[]", "character[][]", "double[]", "int[]", "integer[]", "integer[][]",
        "list<String>", "list<TreeNode>", "list<boolean>", "list<double>", "list<integer>",
        "list<list<integer>>", "list<list<string>>", "list<string>", "string[]",
    ] {
        assert_eq!(default_body_for(list), Some("{\n        vec![]\n    }"));
    }
    assert_eq!(default_body_for("void"), None);
    assert_eq!(default_body_for(""), None);
}

#[test]
fn typed_empty_functions_are_recognised() {
    assert_eq!(insert_return_type(TWO_SUM_CODE), Some(TWO_SUM_CODE.to_string()));
    assert_eq!(insert_return_type("fn f() { }"), None);
    assert_eq!(insert_return_type("fn f( -> i32 {\n}"), None);
}

#[test]
fn file_names() {
    assert_eq!(problem_file_name(&two_sum()), "p0001_two_sum");
    let mut problem = two_sum();
    problem.question_id = 1234;
    problem.title_slug = "a-b-c".to_string();
    assert_eq!(problem_file_name(&problem), "p1234_a_b_c");
    problem.question_id = 12345;
    assert_eq!(problem_file_name(&problem), "p12345_a_b_c");
    problem.question_id = 0;
    problem.title_slug = "x".to_string();
    assert_eq!(problem_file_name(&problem), "p0000_x");
    problem.question_id = u32::MAX;
    assert_eq!(problem_file_name(&problem), "p4294967295_x");
}

#[test]
fn decimal_strings() {
    for n in [0u32, 7, 10, 99, 100, 4096, 1_000_000, u32::MAX] {
        assert_eq!(decimal_string(n), format!("{}", n));
    }
}

#[test]
fn template_is_filled() {
    let problem = two_sum();
    let code = CodeDefinition {
        value: "rust".to_string(),
        text: "Rust".to_string(),
        default_code: TWO_SUM_CODE.to_string(),
    };
    let template = "/**\n * [__PROBLEM_ID__] __PROBLEM_TITLE__\n *\n * __PROBLEM_DESC__\n */\n__EXTRA_USE__\n// problem: __PROBLEM_LINK__\n// discuss: __DISCUSS_LINK__\n__PROBLEM_DEFAULT_CODE__\n";
    let source = fill_template(template, &problem, &code);
    assert_eq!(
        source,
        "/**\n * [1] Two Sum\n *\n * Given nums and target.\n * Return indices.\n */\n\n// problem: https://leetcode.com/problems/two-sum/\n// discuss: https://leetcode.com/problems/two-sum/discuss/?currentPage=1&orderBy=most_votes&query=\nimpl Solution {\n    pub fn two_sum(nums: Vec<i32>, target: i32) -> Vec<i32> {\n        vec![]\n    }\n}\n"
    );
}

#[test]
fn problem_ids_are_digits() {
    assert!(is_problem_id("1"));
    assert!(is_problem_id("0042"));
    assert!(is_problem_id(""));
    assert!(!is_problem_id("4a"));
    assert!(!is_problem_id("-1"));
    assert!(!is_problem_id(" 1"));
    assert!(!is_problem_id("١٢"));
}

#[test]
fn initialized_problems_are_read_off_the_module_list() {
    assert_eq!(
        initialized_problems("mod p0001_two_sum;\nmod p0042_trapping_rain_water;\n\nmod p1234_x;\n"),
        vec![1, 42, 1234]
    );
    assert_eq!(initialized_problems(""), Vec::<u32>::new());
    assert_eq!(initialized_problems("mod p12_x; mod q0001_y; mod p00011_z;"), Vec::<u32>::new());
    assert_eq!(initialized_problems("p9999_p0000_"), vec![9999, 0]);
}

#[test]
fn nested_integers() {
    assert_eq!(NestedInteger::new_int(3), NestedInteger::Int(3));
    let list = NestedInteger::new_list(vec![
        NestedInteger::new_int(1),
        NestedInteger::new_list(vec![NestedInteger::new_int(2)]),
    ]);
    assert_eq!(
        list,
        NestedInteger::List(vec![
            NestedInteger::Int(1),
            NestedInteger::List(vec![NestedInteger::Int(2)])
        ])
    );
}

#[test]
fn graph_from_neighbour_lists() {
    let nodes = to_graph(vec![(1, vec![2, 3]), (2, vec![1]), (3, vec![]), (4, vec![4, 9, 1])]);
    assert_eq!(
        nodes,
        vec![
            GraphNode { val: 1, neighbors: vec![1, 2] },
            GraphNode { val: 2, neighbors: vec![0] },
            GraphNode { val: 3, neighbors: vec![] },
            GraphNode { val: 4, neighbors: vec![3, 0] },
        ]
    );
    assert_eq!(to_graph(vec![]), vec![]);
    assert_eq!(GraphNode::new(7), GraphNode { val: 7, neighbors: vec![] });
}

#[test]
fn a_value_names_the_last_node_that_has_it() {
    let nodes = to_graph(vec![(5, vec![6]), (6, vec![5]), (5, vec![5, 6])]);
    assert_eq!(
        nodes,
        vec![
            GraphNode { val: 5, neighbors: vec![] },
            GraphNode { val: 6, neighbors: vec![2] },
            GraphNode { val: 5, neighbors: vec![1, 2, 1] },
        ]
    );
}

#[test]
fn init_asks_unless_forced() {
    let forced = InitCommand { force: true, no_git: false };
    let gentle = InitCommand { force: false, no_git: true };
    assert!(!forced.asks_first());
    assert!(gentle.asks_first());
    assert!(forced.proceeds(false));
    assert!(gentle.proceeds(true));
    assert!(!gentle.proceeds(false));
}

#[test]
fn pull_asks_for_a_missing_id() {
    assert!(PullCommand { id: None, force: false }.asks_for_id());
    assert!(!PullCommand { id: Some(3), force: false }.asks_for_id());
    assert!(is_initialized(&vec![1, 5, 9], 5));
    assert!(!is_initialized(&vec![1, 5, 9], 4));
    assert!(!is_initialized(&vec![], 0));
}

#[test]
fn the_rust_code_of_a_problem_is_found() {
    let mut problem = two_sum();
    assert_eq!(rust_definition(&problem), None);
    for value in ["cpp", "rust", "python", "rust"] {
        problem.code_definition.push(CodeDefinition {
            value: value.to_string(),
            text: value.to_string(),
            default_code: String::new(),
        });
    }
    assert_eq!(rust_definition(&problem), Some(1));
}
