//! The SQL complexity analyzer: normalization, keyword rules, subquery
//! counting, and the coarse cost estimates derived from the assigned tier.

use vstd::prelude::*;

use crate::keywords::{
    contains_keyword, contains_keyword_chars, count_fn_calls, count_fn_calls_chars,
};
use crate::normalize::{normalize_chars, normalize_spec};
use crate::text::{chars_to_string, is_word_char, str_to_chars, upper_chars, upper_seq};

verus! {

/// The complexity tier of a query, ordered `Simple < Medium < Complex`.
#[derive(Debug, Clone, Copy, PartialEq, Eq, Structural)]
pub enum QueryComplexity {
    Simple,
    Medium,
    Complex,
}

impl QueryComplexity {
    /// The tier's place in the total order.
    pub open spec fn rank(self) -> int {
        match self {
            QueryComplexity::Simple => 0,
            QueryComplexity::Medium => 1,
            QueryComplexity::Complex => 2,
        }
    }

    /// The name of the tier.
    pub fn label(&self) -> (r: &'static str)
        ensures
            *self == QueryComplexity::Simple ==> r@ == "Simple"@,
            *self == QueryComplexity::Medium ==> r@ == "Medium"@,
            *self == QueryComplexity::Complex ==> r@ == "Complex"@,
    {
        match self {
            QueryComplexity::Simple => "Simple",
            QueryComplexity::Medium => "Medium",
            QueryComplexity::Complex => "Complex",
        }
    }
}

/// The higher of two tiers.
pub open spec fn tier_max(a: QueryComplexity, b: QueryComplexity) -> QueryComplexity {
    if a.rank() >= b.rank() {
        a
    } else {
        b
    }
}

/// The keyword `SELECT` stands at position `i` of `t` with word boundaries
/// on both sides.
pub open spec fn select_at(t: Seq<char>, i: int) -> bool {
    &&& 0 <= i
    &&& i + 6 <= t.len()
    &&& t.subrange(i, i + 6) == "SELECT"@
    &&& (i == 0 || !is_word_char(t[i - 1]))
    &&& (i + 6 == t.len() || !is_word_char(t[i + 6]))
}

/// The subquery count of the suffix of `t` that starts at `i`, scanned with
/// the given parenthesis depth and `in_subquery` flag.  A parenthesis resets
/// the flag; a word-boundary `SELECT` at positive depth with the flag clear
/// counts one subquery and sets the flag.
pub open spec fn subquery_scan(t: Seq<char>, i: int, depth: int, flag: bool) -> int
    decreases t.len() - i,
{
    if i < 0 || i >= t.len() {
        0
    } else if t[i] == '(' {
        subquery_scan(t, i + 1, depth + 1, false)
    } else if t[i] == ')' {
        subquery_scan(t, i + 1, depth - 1, false)
    } else if depth > 0 && !flag && select_at(t, i) {
        1 + subquery_scan(t, i + 1, depth, true)
    } else {
        subquery_scan(t, i + 1, depth, flag)
    }
}

/// The subquery count of an upper-cased text, from the start.
pub open spec fn subquery_count_spec(t: Seq<char>) -> int {
    subquery_scan(t, 0, 0, false)
}

/// The total number of aggregate-function calls (`COUNT`, `SUM`, `AVG`,
/// `MIN`, `MAX`, each immediately followed by `(`) in an upper-cased text.
pub open spec fn aggregate_calls(t: Seq<char>) -> int {
    count_fn_calls(t, "COUNT"@, t.len() as int) + count_fn_calls(t, "SUM"@, t.len() as int)
        + count_fn_calls(t, "AVG"@, t.len() as int) + count_fn_calls(t, "MIN"@, t.len() as int)
        + count_fn_calls(t, "MAX"@, t.len() as int)
}

/// The tier assigned to a query: the maximum over the triggered rules, each
/// rule judged on the upper-cased normalized text.
pub open spec fn classify_spec(s: Seq<char>) -> QueryComplexity {
    let u = upper_seq(normalize_spec(s));
    let join_rule = if contains_keyword(u, "JOIN"@) {
        QueryComplexity::Medium
    } else {
        QueryComplexity::Simple
    };
    let group_order_rule = if contains_keyword(u, "GROUP BY"@) || contains_keyword(
        u,
        "ORDER BY"@,
    ) {
        QueryComplexity::Medium
    } else {
        QueryComplexity::Simple
    };
    let window_rule = if contains_keyword(u, "WINDOW"@) || contains_keyword(u, "OVER"@) {
        QueryComplexity::Complex
    } else {
        QueryComplexity::Simple
    };
    let subquery_rule = if subquery_count_spec(u) > 2 {
        QueryComplexity::Complex
    } else {
        QueryComplexity::Simple
    };
    let aggregate_rule = if aggregate_calls(u) > 3 {
        QueryComplexity::Medium
    } else {
        QueryComplexity::Simple
    };
    tier_max(
        tier_max(tier_max(tier_max(join_rule, group_order_rule), window_rule), subquery_rule),
        aggregate_rule,
    )
}

/// A triggered rule never loses to a later one: the assigned tier is an
/// upper bound on every rule's tier, so a keyword match can raise the tier
/// but nothing can lower it again.
pub proof fn lemma_classifier_rules_lower_bound(s: Seq<char>)
    ensures
        contains_keyword(upper_seq(normalize_spec(s)), "JOIN"@) ==> classify_spec(s).rank()
            >= QueryComplexity::Medium.rank(),
        contains_keyword(upper_seq(normalize_spec(s)), "GROUP BY"@) || contains_keyword(
            upper_seq(normalize_spec(s)),
            "ORDER BY"@,
        ) ==> classify_spec(s).rank() >= QueryComplexity::Medium.rank(),
        contains_keyword(upper_seq(normalize_spec(s)), "WINDOW"@) || contains_keyword(
            upper_seq(normalize_spec(s)),
            "OVER"@,
        ) ==> classify_spec(s) == QueryComplexity::Complex,
        subquery_count_spec(upper_seq(normalize_spec(s))) > 2 ==> classify_spec(s)
            == QueryComplexity::Complex,
        aggregate_calls(upper_seq(normalize_spec(s))) > 3 ==> classify_spec(s).rank()
            >= QueryComplexity::Medium.rank(),
{
}

/// Bytes budgeted per row for a tier.
pub open spec fn per_row_bytes(c: QueryComplexity) -> int {
    match c {
        QueryComplexity::Simple => 100,
        QueryComplexity::Medium => 200,
        QueryComplexity::Complex => 500,
    }
}

/// Milliseconds budgeted per thousand rows for a tier.
pub open spec fn per_thousand_rows_ms(c: QueryComplexity) -> int {
    match c {
        QueryComplexity::Simple => 1,
        QueryComplexity::Medium => 5,
        QueryComplexity::Complex => 20,
    }
}

/// The estimated execution time: the per-thousand-rows cost of the tier,
/// over the row count rounded up to whole thousands, floored at one.
pub open spec fn estimated_time_ms(c: QueryComplexity, rows: int) -> int {
    let thousands = rows / 1000 + if rows % 1000 == 0 {
        0int
    } else {
        1int
    };
    let t = thousands * per_thousand_rows_ms(c);
    if t < 1 {
        1
    } else {
        t
    }
}

/// The lexical query analyzer.
pub struct QueryAnalyzer;

impl QueryAnalyzer {
    /// The input with string-literal bodies and comments blanked out.
    pub fn remove_comments_and_strings(sql: &str) -> (r: String)
        ensures
            r@ == normalize_spec(sql@),
    {
        let chars = str_to_chars(sql);
        let cleaned = normalize_chars(&chars);
        chars_to_string(&cleaned)
    }

    /// Whether `sql` holds `keyword` with word boundaries on both sides.
    pub fn contains_sql_keyword(sql: &str, keyword: &str) -> (r: bool)
        requires
            keyword@.len() >= 1,
        ensures
            r == contains_keyword(sql@, keyword@),
    {
        let t = str_to_chars(sql);
        let kw = str_to_chars(keyword);
        contains_keyword_chars(&t, &kw)
    }

    /// How many times `function_name` is called in `sql`: a word boundary
    /// before the name and `(` immediately after it.
    pub fn count_sql_function(sql: &str, function_name: &str) -> (r: usize)
        requires
            function_name@.len() >= 1,
        ensures
            r == count_fn_calls(sql@, function_name@, sql@.len() as int),
    {
        let t = str_to_chars(sql);
        let name = str_to_chars(function_name);
        count_fn_calls_chars(&t, &name)
    }

    /// The number of subqueries in `sql`: word-boundary `SELECT` tokens found
    /// inside parentheses, counted once per parenthesis context.  The text is
    /// upper-cased before scanning.
    pub fn count_subqueries(sql: &str) -> (r: usize)
        ensures
            r == subquery_count_spec(upper_seq(sql@)),
    {
        let chars = str_to_chars(sql);
        let u = upper_chars(&chars);
        count_subqueries_chars(&u)
    }

    /// The complexity tier of `sql`, judged on its normalized, upper-cased
    /// text: the maximum over the keyword, subquery and aggregate rules.
    pub fn estimate_complexity(sql: &str) -> (r: QueryComplexity)
        ensures
            r == classify_spec(sql@),
    {
        let chars = str_to_chars(sql);
        let cleaned = normalize_chars(&chars);
        let u = upper_chars(&cleaned);
        let kw_join = str_to_chars("JOIN");
        let kw_group_by = str_to_chars("GROUP BY");
        let kw_order_by = str_to_chars("ORDER BY");
        let kw_window = str_to_chars("WINDOW");
        let kw_over = str_to_chars("OVER");
        proof {
            reveal_strlit("JOIN");
            reveal_strlit("GROUP BY");
            reveal_strlit("ORDER BY");
            reveal_strlit("WINDOW");
            reveal_strlit("OVER");
        }
        let has_join = contains_keyword_chars(&u, &kw_join);
        let has_group_order = contains_keyword_chars(&u, &kw_group_by) || contains_keyword_chars(
            &u,
            &kw_order_by,
        );
        let has_window = contains_keyword_chars(&u, &kw_window) || contains_keyword_chars(
            &u,
            &kw_over,
        );
        let deep_subqueries = count_subqueries_chars(&u) > 2;
        let many_aggregates = has_many_aggregate_calls(&u);
        if has_window || deep_subqueries {
            QueryComplexity::Complex
        } else if has_join || has_group_order || many_aggregates {
            QueryComplexity::Medium
        } else {
            QueryComplexity::Simple
        }
    }

    /// The estimated memory for a query over `estimated_rows` rows: the
    /// tier's per-row byte cost times the row count.
    pub fn estimate_memory_usage(sql: &str, estimated_rows: usize) -> (r: u64)
        requires
            estimated_rows * per_row_bytes(classify_spec(sql@)) <= u64::MAX,
        ensures
            r == estimated_rows * per_row_bytes(classify_spec(sql@)),
    {
        let complexity = Self::estimate_complexity(sql);
        let base_memory_per_row: u64 = match complexity {
            QueryComplexity::Simple => 100,
            QueryComplexity::Medium => 200,
            QueryComplexity::Complex => 500,
        };
        (estimated_rows as u64) * base_memory_per_row
    }

    /// The estimated execution time in milliseconds for a query over
    /// `estimated_rows` rows; see `estimated_time_ms`.
    pub fn estimate_execution_time(sql: &str, estimated_rows: usize) -> (r: u64)
        ensures
            r == estimated_time_ms(classify_spec(sql@), estimated_rows as int),
    {
        let complexity = Self::estimate_complexity(sql);
        let base_time_per_thousand: u64 = match complexity {
            QueryComplexity::Simple => 1,
            QueryComplexity::Medium => 5,
            QueryComplexity::Complex => 20,
        };
        let rows = estimated_rows as u64;
        let thousands: u64 = rows / 1000 + if rows % 1000 == 0 {
            0
        } else {
            1
        };
        proof {
            assert(thousands * base_time_per_thousand <= u64::MAX) by (nonlinear_arith)
                requires
                    thousands <= u64::MAX / 1000 + 1,
                    base_time_per_thousand <= 20,
            ;
        }
        let t = thousands * base_time_per_thousand;
        if t < 1 {
            1
        } else {
            t
        }
    }

}

/// Whether more than three aggregate-function calls occur in `t`.
fn has_many_aggregate_calls(t: &Vec<char>) -> (r: bool)
    ensures
        r == (aggregate_calls(t@) > 3),
{
    let count = str_to_chars("COUNT");
    let sum = str_to_chars("SUM");
    let avg = str_to_chars("AVG");
    let min_name = str_to_chars("MIN");
    let max_name = str_to_chars("MAX");
    proof {
        reveal_strlit("COUNT");
        reveal_strlit("SUM");
        reveal_strlit("AVG");
        reveal_strlit("MIN");
        reveal_strlit("MAX");
    }
    let c1 = count_fn_calls_chars(t, &count);
    let c2 = count_fn_calls_chars(t, &sum);
    let c3 = count_fn_calls_chars(t, &avg);
    let c4 = count_fn_calls_chars(t, &min_name);
    let c5 = count_fn_calls_chars(t, &max_name);
    let total: u128 = c1 as u128 + c2 as u128 + c3 as u128 + c4 as u128 + c5 as u128;
    total > 3
}

/// The subquery count of an already upper-cased character vector.
fn count_subqueries_chars(t: &Vec<char>) -> (r: usize)
    ensures
        r == subquery_count_spec(t@),
{
    let n = t.len();
    let mut count: usize = 0;
    let mut depth: i128 = 0;
    let mut flag: bool = false;
    let mut i: usize = 0;
    while i < n
        invariant
            n == t@.len(),
            i <= n,
            count <= i,
            -(i as int) <= depth <= i as int,
            subquery_count_spec(t@) == count + subquery_scan(t@, i as int, depth as int, flag),
        decreases n - i,
    {
        let c = t[i];
        if c == '(' {
            depth = depth + 1;
            flag = false;
        } else if c == ')' {
            depth = depth - 1;
            flag = false;
        } else if depth > 0 && !flag && select_at_exec(t, i) {
            count = count + 1;
            flag = true;
        }
        i = i + 1;
    }
    count
}

/// Whether a word-boundary `SELECT` starts at position `i` of `t`.
fn select_at_exec(t: &Vec<char>, i: usize) -> (r: bool)
    requires
        i < t@.len(),
    ensures
        r == select_at(t@, i as int),
{
    proof {
        reveal_strlit("SELECT");
    }
    let tn = t.len();
    if 6 > tn - i {
        return false;
    }
    let verbatim = t[i] == 'S' && t[i + 1] == 'E' && t[i + 2] == 'L' && t[i + 3] == 'E' && t[i + 4]
        == 'C' && t[i + 5] == 'T';
    if !verbatim {
        proof {
            if t@.subrange(i as int, i + 6) == "SELECT"@ {
                assert(t@[i as int] == "SELECT"@[0]);
                assert(t@[i + 1] == "SELECT"@[1]);
                assert(t@[i + 2] == "SELECT"@[2]);
                assert(t@[i + 3] == "SELECT"@[3]);
                assert(t@[i + 4] == "SELECT"@[4]);
                assert(t@[i + 5] == "SELECT"@[5]);
            }
        }
        return false;
    }
    proof {
        assert(t@.subrange(i as int, i + 6) =~= "SELECT"@);
    }
    let boundary_before = i == 0 || !crate::text::exec_is_word_char(t[i - 1]);
    let boundary_after = i + 6 == tn || !crate::text::exec_is_word_char(t[i + 6]);
    boundary_before && boundary_after
}

} // verus!
