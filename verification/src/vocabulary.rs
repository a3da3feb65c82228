//! The vocabularies of the query languages are in order, and no function is a keyword.

use vstd::prelude::*;

use crate::completion;
use crate::completion::{ascending, before};
use crate::model::Screen;
use crate::syntax;

verus! {

proof fn lemma_before_at(a: Seq<char>, b: Seq<char>, k: int)
    requires
        0 <= k < b.len(),
        k <= a.len(),
        forall|j: int| 0 <= j < k ==> a[j] == b[j],
        k < a.len() ==> a[k] < b[k],
    ensures
        before(a, b),
    decreases k,
{
    if k > 0 {
        assert(a[0] == b[0]);
        let x = a.drop_first();
        let y = b.drop_first();
        assert forall|j: int| 0 <= j < k - 1 implies x[j] == y[j] by {
            assert(a[j + 1] == b[j + 1]);
        }
        lemma_before_at(x, y, k - 1);
    }
}

proof fn lemma_one_more(names: Seq<Seq<char>>, x: Seq<char>)
    requires
        ascending(names),
        names.len() > 0 ==> before(names.last(), x),
    ensures
        ascending(names.push(x)),
{
    let all = names.push(x);
    assert forall|i: int, j: int| 0 <= i < j < all.len() implies before(#[trigger] all[i], #[trigger] all[j]) by {
        if j == names.len() && i < j - 1 {
            assert(before(names[i], names[j - 1]));
            completion::lemma_before_is_strict(names[i], names.last(), x);
        }
    }
}

proof fn lemma_gap(names: Seq<Seq<char>>, i: int, x: Seq<char>)
    requires
        ascending(names),
        0 <= i <= names.len(),
        i > 0 ==> before(names[i - 1], x),
        i < names.len() ==> before(x, names[i]),
    ensures
        !names.contains(x),
{
    assert forall|j: int| 0 <= j < names.len() implies names[j] != x by {
        if j < i {
            if j < i - 1 {
                assert(before(names[j], names[i - 1]));
            }
            completion::lemma_before_is_strict(names[j], names[i - 1], x);
            completion::lemma_before_is_strict(x, x, x);
        } else {
            if j > i {
                assert(before(names[i], names[j]));
            }
            completion::lemma_before_is_strict(x, names[i], names[j]);
            completion::lemma_before_is_strict(x, x, x);
        }
    }
}

proof fn lemma_metrics_in_order()
    ensures
        ascending(syntax::functions(Screen::Metrics)),
{
    let names = Seq::<Seq<char>>::empty();
    lemma_one_more(names, "abs"@);
    let names = names.push("abs"@);
    assert(before("abs"@, "absent"@)) by {
        reveal_strlit("abs");
        reveal_strlit("absent");
        lemma_before_at("abs"@, "absent"@, 3);
    }
    lemma_one_more(names, "absent"@);
    let names = names.push("absent"@);
    assert(before("absent"@, "absent_over_time"@)) by {
        reveal_strlit("absent");
        reveal_strlit("absent_over_time");
        lemma_before_at("absent"@, "absent_over_time"@, 6);
    }
    lemma_one_more(names, "absent_over_time"@);
    let names = names.push("absent_over_time"@);
    assert(before("absent_over_time"@, "avg"@)) by {
        reveal_strlit("absent_over_time");
        reveal_strlit("avg");
        lemma_before_at("absent_over_time"@, "avg"@, 1);
    }
    lemma_one_more(names, "avg"@);
    let names = names.push("avg"@);
    assert(before("avg"@, "avg_over_time"@)) by {
        reveal_strlit("avg");
        reveal_strlit("avg_over_time");
        lemma_before_at("avg"@, "avg_over_time"@, 3);
    }
    lemma_one_more(names, "avg_over_time"@);
    let names = names.push("avg_over_time"@);
    assert(before("avg_over_time"@, "bottomk"@)) by {
        reveal_strlit("avg_over_time");
        reveal_strlit("bottomk");
        lemma_before_at("avg_over_time"@, "bottomk"@, 0);
    }
    lemma_one_more(names, "bottomk"@);
    let names = names.push("bottomk"@);
    assert(before("bottomk"@, "ceil"@)) by {
        reveal_strlit("bottomk");
        reveal_strlit("ceil");
        lemma_before_at("bottomk"@, "ceil"@, 0);
    }
    lemma_one_more(names, "ceil"@);
    let names = names.push("ceil"@);
    assert(before("ceil"@, "changes"@)) by {
        reveal_strlit("ceil");
        reveal_strlit("changes");
        lemma_before_at("ceil"@, "changes"@, 1);
    }
    lemma_one_more(names, "changes"@);
    let names = names.push("changes"@);
    assert(before("changes"@, "clamp"@)) by {
        reveal_strlit("changes");
        reveal_strlit("clamp");
        lemma_before_at("changes"@, "clamp"@, 1);
    }
    lemma_one_more(names, "clamp"@);
    let names = names.push("clamp"@);
    assert(before("clamp"@, "clamp_max"@)) by {
        reveal_strlit("clamp");
        reveal_strlit("clamp_max");
        lemma_before_at("clamp"@, "clamp_max"@, 5);
    }
    lemma_one_more(names, "clamp_max"@);
    let names = names.push("clamp_max"@);
    assert(before("clamp_max"@, "clamp_min"@)) by {
        reveal_strlit("clamp_max");
        reveal_strlit("clamp_min");
        lemma_before_at("clamp_max"@, "clamp_min"@, 7);
    }
    lemma_one_more(names, "clamp_min"@);
    let names = names.push("clamp_min"@);
    assert(before("clamp_min"@, "count"@)) by {
        reveal_strlit("clamp_min");
        reveal_strlit("count");
        lemma_before_at("clamp_min"@, "count"@, 1);
    }
    lemma_one_more(names, "count"@);
    let names = names.push("count"@);
    assert(before("count"@, "count_over_time"@)) by {
        reveal_strlit("count");
        reveal_strlit("count_over_time");
        lemma_before_at("count"@, "count_over_time"@, 5);
    }
    lemma_one_more(names, "count_over_time"@);
    let names = names.push("count_over_time"@);
    assert(before("count_over_time"@, "count_values"@)) by {
        reveal_strlit("count_over_time");
        reveal_strlit("count_values");
        lemma_before_at("count_over_time"@, "count_values"@, 6);
    }
    lemma_one_more(names, "count_values"@);
    let names = names.push("count_values"@);
    assert(before("count_values"@, "delta"@)) by {
        reveal_strlit("count_values");
        reveal_strlit("delta");
        lemma_before_at("count_values"@, "delta"@, 0);
    }
    lemma_one_more(names, "delta"@);
    let names = names.push("delta"@);
    assert(before("delta"@, "deriv"@)) by {
        reveal_strlit("delta");
        reveal_strlit("deriv");
        lemma_before_at("delta"@, "deriv"@, 2);
    }
    lemma_one_more(names, "deriv"@);
    let names = names.push("deriv"@);
    assert(before("deriv"@, "exp"@)) by {
        reveal_strlit("deriv");
        reveal_strlit("exp");
        lemma_before_at("deriv"@, "exp"@, 0);
    }
    lemma_one_more(names, "exp"@);
    let names = names.push("exp"@);
    assert(before("exp"@, "floor"@)) by {
        reveal_strlit("exp");
        reveal_strlit("floor");
        lemma_before_at("exp"@, "floor"@, 0);
    }
    lemma_one_more(names, "floor"@);
    let names = names.push("floor"@);
    assert(before("floor"@, "histogram_quantile"@)) by {
        reveal_strlit("floor");
        reveal_strlit("histogram_quantile");
        lemma_before_at("floor"@, "histogram_quantile"@, 0);
    }
    lemma_one_more(names, "histogram_quantile"@);
    let names = names.push("histogram_quantile"@);
    assert(before("histogram_quantile"@, "increase"@)) by {
        reveal_strlit("histogram_quantile");
        reveal_strlit("increase");
        lemma_before_at("histogram_quantile"@, "increase"@, 0);
    }
    lemma_one_more(names, "increase"@);
    let names = names.push("increase"@);
    assert(before("increase"@, "irate"@)) by {
        reveal_strlit("increase");
        reveal_strlit("irate");
        lemma_before_at("increase"@, "irate"@, 1);
    }
    lemma_one_more(names, "irate"@);
    let names = names.push("irate"@);
    assert(before("irate"@, "label_join"@)) by {
        reveal_strlit("irate");
        reveal_strlit("label_join");
        lemma_before_at("irate"@, "label_join"@, 0);
    }
    lemma_one_more(names, "label_join"@);
    let names = names.push("label_join"@);
    assert(before("label_join"@, "label_replace"@)) by {
        reveal_strlit("label_join");
        reveal_strlit("label_replace");
        lemma_before_at("label_join"@, "label_replace"@, 6);
    }
    lemma_one_more(names, "label_replace"@);
    let names = names.push("label_replace"@);
    assert(before("label_replace"@, "last_over_time"@)) by {
        reveal_strlit("label_replace");
        reveal_strlit("last_over_time");
        lemma_before_at("label_replace"@, "last_over_time"@, 2);
    }
    lemma_one_more(names, "last_over_time"@);
    let names = names.push("last_over_time"@);
    assert(before("last_over_time"@, "ln"@)) by {
        reveal_strlit("last_over_time");
        reveal_strlit("ln");
        lemma_before_at("last_over_time"@, "ln"@, 1);
    }
    lemma_one_more(names, "ln"@);
    let names = names.push("ln"@);
    assert(before("ln"@, "log10"@)) by {
        reveal_strlit("ln");
        reveal_strlit("log10");
        lemma_before_at("ln"@, "log10"@, 1);
    }
    lemma_one_more(names, "log10"@);
    let names = names.push("log10"@);
    assert(before("log10"@, "log2"@)) by {
        reveal_strlit("log10");
        reveal_strlit("log2");
        lemma_before_at("log10"@, "log2"@, 3);
    }
    lemma_one_more(names, "log2"@);
    let names = names.push("log2"@);
    assert(before("log2"@, "max"@)) by {
        reveal_strlit("log2");
        reveal_strlit("max");
        lemma_before_at("log2"@, "max"@, 0);
    }
    lemma_one_more(names, "max"@);
    let names = names.push("max"@);
    assert(before("max"@, "max_over_time"@)) by {
        reveal_strlit("max");
        reveal_strlit("max_over_time");
        lemma_before_at("max"@, "max_over_time"@, 3);
    }
    lemma_one_more(names, "max_over_time"@);
    let names = names.push("max_over_time"@);
    assert(before("max_over_time"@, "min"@)) by {
        reveal_strlit("max_over_time");
        reveal_strlit("min");
        lemma_before_at("max_over_time"@, "min"@, 1);
    }
    lemma_one_more(names, "min"@);
    let names = names.push("min"@);
    assert(before("min"@, "min_over_time"@)) by {
        reveal_strlit("min");
        reveal_strlit("min_over_time");
        lemma_before_at("min"@, "min_over_time"@, 3);
    }
    lemma_one_more(names, "min_over_time"@);
    let names = names.push("min_over_time"@);
    assert(before("min_over_time"@, "predict_linear"@)) by {
        reveal_strlit("min_over_time");
        reveal_strlit("predict_linear");
        lemma_before_at("min_over_time"@, "predict_linear"@, 0);
    }
    lemma_one_more(names, "predict_linear"@);
    let names = names.push("predict_linear"@);
    assert(before("predict_linear"@, "present_over_time"@)) by {
        reveal_strlit("predict_linear");
        reveal_strlit("present_over_time");
        lemma_before_at("predict_linear"@, "present_over_time"@, 3);
    }
    lemma_one_more(names, "present_over_time"@);
    let names = names.push("present_over_time"@);
    assert(before("present_over_time"@, "quantile"@)) by {
        reveal_strlit("present_over_time");
        reveal_strlit("quantile");
        lemma_before_at("present_over_time"@, "quantile"@, 0);
    }
    lemma_one_more(names, "quantile"@);
    let names = names.push("quantile"@);
    assert(before("quantile"@, "quantile_over_time"@)) by {
        reveal_strlit("quantile");
        reveal_strlit("quantile_over_time");
        lemma_before_at("quantile"@, "quantile_over_time"@, 8);
    }
    lemma_one_more(names, "quantile_over_time"@);
    let names = names.push("quantile_over_time"@);
    assert(before("quantile_over_time"@, "rate"@)) by {
        reveal_strlit("quantile_over_time");
        reveal_strlit("rate");
        lemma_before_at("quantile_over_time"@, "rate"@, 0);
    }
    lemma_one_more(names, "rate"@);
    let names = names.push("rate"@);
    assert(before("rate"@, "resets"@)) by {
        reveal_strlit("rate");
        reveal_strlit("resets");
        lemma_before_at("rate"@, "resets"@, 1);
    }
    lemma_one_more(names, "resets"@);
    let names = names.push("resets"@);
    assert(before("resets"@, "round"@)) by {
        reveal_strlit("resets");
        reveal_strlit("round");
        lemma_before_at("resets"@, "round"@, 1);
    }
    lemma_one_more(names, "round"@);
    let names = names.push("round"@);
    assert(before("round"@, "scalar"@)) by {
        reveal_strlit("round");
        reveal_strlit("scalar");
        lemma_before_at("round"@, "scalar"@, 0);
    }
    lemma_one_more(names, "scalar"@);
    let names = names.push("scalar"@);
    assert(before("scalar"@, "sort"@)) by {
        reveal_strlit("scalar");
        reveal_strlit("sort");
        lemma_before_at("scalar"@, "sort"@, 1);
    }
    lemma_one_more(names, "sort"@);
    let names = names.push("sort"@);
    assert(before("sort"@, "sort_desc"@)) by {
        reveal_strlit("sort");
        reveal_strlit("sort_desc");
        lemma_before_at("sort"@, "sort_desc"@, 4);
    }
    lemma_one_more(names, "sort_desc"@);
    let names = names.push("sort_desc"@);
    assert(before("sort_desc"@, "sqrt"@)) by {
        reveal_strlit("sort_desc");
        reveal_strlit("sqrt");
        lemma_before_at("sort_desc"@, "sqrt"@, 1);
    }
    lemma_one_more(names, "sqrt"@);
    let names = names.push("sqrt"@);
    assert(before("sqrt"@, "stddev"@)) by {
        reveal_strlit("sqrt");
        reveal_strlit("stddev");
        lemma_before_at("sqrt"@, "stddev"@, 1);
    }
    lemma_one_more(names, "stddev"@);
    let names = names.push("stddev"@);
    assert(before("stddev"@, "stddev_over_time"@)) by {
        reveal_strlit("stddev");
        reveal_strlit("stddev_over_time");
        lemma_before_at("stddev"@, "stddev_over_time"@, 6);
    }
    lemma_one_more(names, "stddev_over_time"@);
    let names = names.push("stddev_over_time"@);
    assert(before("stddev_over_time"@, "stdvar"@)) by {
        reveal_strlit("stddev_over_time");
        reveal_strlit("stdvar");
        lemma_before_at("stddev_over_time"@, "stdvar"@, 3);
    }
    lemma_one_more(names, "stdvar"@);
    let names = names.push("stdvar"@);
    assert(before("stdvar"@, "sum"@)) by {
        reveal_strlit("stdvar");
        reveal_strlit("sum");
        lemma_before_at("stdvar"@, "sum"@, 1);
    }
    lemma_one_more(names, "sum"@);
    let names = names.push("sum"@);
    assert(before("sum"@, "sum_over_time"@)) by {
        reveal_strlit("sum");
        reveal_strlit("sum_over_time");
        lemma_before_at("sum"@, "sum_over_time"@, 3);
    }
    lemma_one_more(names, "sum_over_time"@);
    let names = names.push("sum_over_time"@);
    assert(before("sum_over_time"@, "time"@)) by {
        reveal_strlit("sum_over_time");
        reveal_strlit("time");
        lemma_before_at("sum_over_time"@, "time"@, 0);
    }
    lemma_one_more(names, "time"@);
    let names = names.push("time"@);
    assert(before("time"@, "timestamp"@)) by {
        reveal_strlit("time");
        reveal_strlit("timestamp");
        lemma_before_at("time"@, "timestamp"@, 4);
    }
    lemma_one_more(names, "timestamp"@);
    let names = names.push("timestamp"@);
    assert(before("timestamp"@, "topk"@)) by {
        reveal_strlit("timestamp");
        reveal_strlit("topk");
        lemma_before_at("timestamp"@, "topk"@, 1);
    }
    lemma_one_more(names, "topk"@);
    let names = names.push("topk"@);
    assert(before("topk"@, "vector"@)) by {
        reveal_strlit("topk");
        reveal_strlit("vector");
        lemma_before_at("topk"@, "vector"@, 0);
    }
    lemma_one_more(names, "vector"@);
    let names = names.push("vector"@);
    assert(names =~= syntax::functions(Screen::Metrics));
}

proof fn lemma_metrics_apart()
    ensures
        forall|i: int|
            0 <= i < syntax::keywords(Screen::Metrics).len() ==> !syntax::functions(Screen::Metrics).contains(
                #[trigger] syntax::keywords(Screen::Metrics)[i],
            ),
{
    let names = syntax::functions(Screen::Metrics);
    lemma_metrics_in_order();
    assert(!names.contains("by"@)) by {
        assert(before("bottomk"@, "by"@)) by {
            reveal_strlit("bottomk");
            reveal_strlit("by");
            lemma_before_at("bottomk"@, "by"@, 1);
        }
        assert(before("by"@, "ceil"@)) by {
            reveal_strlit("by");
            reveal_strlit("ceil");
            lemma_before_at("by"@, "ceil"@, 0);
        }
        lemma_gap(names, 6, "by"@);
    }
    assert(!names.contains("without"@)) by {
        assert(before("vector"@, "without"@)) by {
            reveal_strlit("vector");
            reveal_strlit("without");
            lemma_before_at("vector"@, "without"@, 0);
        }
        lemma_gap(names, 51, "without"@);
    }
    assert(!names.contains("on"@)) by {
        assert(before("min_over_time"@, "on"@)) by {
            reveal_strlit("min_over_time");
            reveal_strlit("on");
            lemma_before_at("min_over_time"@, "on"@, 0);
        }
        assert(before("on"@, "predict_linear"@)) by {
            reveal_strlit("on");
            reveal_strlit("predict_linear");
            lemma_before_at("on"@, "predict_linear"@, 0);
        }
        lemma_gap(names, 31, "on"@);
    }
    assert(!names.contains("ignoring"@)) by {
        assert(before("histogram_quantile"@, "ignoring"@)) by {
            reveal_strlit("histogram_quantile");
            reveal_strlit("ignoring");
            lemma_before_at("histogram_quantile"@, "ignoring"@, 0);
        }
        assert(before("ignoring"@, "increase"@)) by {
            reveal_strlit("ignoring");
            reveal_strlit("increase");
            lemma_before_at("ignoring"@, "increase"@, 1);
        }
        lemma_gap(names, 19, "ignoring"@);
    }
    assert(!names.contains("group_left"@)) by {
        assert(before("floor"@, "group_left"@)) by {
            reveal_strlit("floor");
            reveal_strlit("group_left");
            lemma_before_at("floor"@, "group_left"@, 0);
        }
        assert(before("group_left"@, "histogram_quantile"@)) by {
            reveal_strlit("group_left");
            reveal_strlit("histogram_quantile");
            lemma_before_at("group_left"@, "histogram_quantile"@, 0);
        }
        lemma_gap(names, 18, "group_left"@);
    }
    assert(!names.contains("group_right"@)) by {
        assert(before("floor"@, "group_right"@)) by {
            reveal_strlit("floor");
            reveal_strlit("group_right");
            lemma_before_at("floor"@, "group_right"@, 0);
        }
        assert(before("group_right"@, "histogram_quantile"@)) by {
            reveal_strlit("group_right");
            reveal_strlit("histogram_quantile");
            lemma_before_at("group_right"@, "histogram_quantile"@, 0);
        }
        lemma_gap(names, 18, "group_right"@);
    }
    assert(!names.contains("offset"@)) by {
        assert(before("min_over_time"@, "offset"@)) by {
            reveal_strlit("min_over_time");
            reveal_strlit("offset");
            lemma_before_at("min_over_time"@, "offset"@, 0);
        }
        assert(before("offset"@, "predict_linear"@)) by {
            reveal_strlit("offset");
            reveal_strlit("predict_linear");
            lemma_before_at("offset"@, "predict_linear"@, 0);
        }
        lemma_gap(names, 31, "offset"@);
    }
    assert(!names.contains("bool"@)) by {
        assert(before("avg_over_time"@, "bool"@)) by {
            reveal_strlit("avg_over_time");
            reveal_strlit("bool");
            lemma_before_at("avg_over_time"@, "bool"@, 0);
        }
        assert(before("bool"@, "bottomk"@)) by {
            reveal_strlit("bool");
            reveal_strlit("bottomk");
            lemma_before_at("bool"@, "bottomk"@, 2);
        }
        lemma_gap(names, 5, "bool"@);
    }
    assert(!names.contains("and"@)) by {
        assert(before("absent_over_time"@, "and"@)) by {
            reveal_strlit("absent_over_time");
            reveal_strlit("and");
            lemma_before_at("absent_over_time"@, "and"@, 1);
        }
        assert(before("and"@, "avg"@)) by {
            reveal_strlit("and");
            reveal_strlit("avg");
            lemma_before_at("and"@, "avg"@, 1);
        }
        lemma_gap(names, 3, "and"@);
    }
    assert(!names.contains("or"@)) by {
        assert(before("min_over_time"@, "or"@)) by {
            reveal_strlit("min_over_time");
            reveal_strlit("or");
            lemma_before_at("min_over_time"@, "or"@, 0);
        }
        assert(before("or"@, "predict_linear"@)) by {
            reveal_strlit("or");
            reveal_strlit("predict_linear");
            lemma_before_at("or"@, "predict_linear"@, 0);
        }
        lemma_gap(names, 31, "or"@);
    }
    assert(!names.contains("unless"@)) by {
        assert(before("topk"@, "unless"@)) by {
            reveal_strlit("topk");
            reveal_strlit("unless");
            lemma_before_at("topk"@, "unless"@, 0);
        }
        assert(before("unless"@, "vector"@)) by {
            reveal_strlit("unless");
            reveal_strlit("vector");
            lemma_before_at("unless"@, "vector"@, 0);
        }
        lemma_gap(names, 50, "unless"@);
    }
    assert(!names.contains("inf"@)) by {
        assert(before("increase"@, "inf"@)) by {
            reveal_strlit("increase");
            reveal_strlit("inf");
            lemma_before_at("increase"@, "inf"@, 2);
        }
        assert(before("inf"@, "irate"@)) by {
            reveal_strlit("inf");
            reveal_strlit("irate");
            lemma_before_at("inf"@, "irate"@, 1);
        }
        lemma_gap(names, 20, "inf"@);
    }
    assert(!names.contains("nan"@)) by {
        assert(before("min_over_time"@, "nan"@)) by {
            reveal_strlit("min_over_time");
            reveal_strlit("nan");
            lemma_before_at("min_over_time"@, "nan"@, 0);
        }
        assert(before("nan"@, "predict_linear"@)) by {
            reveal_strlit("nan");
            reveal_strlit("predict_linear");
            lemma_before_at("nan"@, "predict_linear"@, 0);
        }
        lemma_gap(names, 31, "nan"@);
    }
}

proof fn lemma_logs_in_order()
    ensures
        ascending(syntax::functions(Screen::Logs)),
{
    let names = Seq::<Seq<char>>::empty();
    lemma_one_more(names, "avg"@);
    let names = names.push("avg"@);
    assert(before("avg"@, "avg_over_time"@)) by {
        reveal_strlit("avg");
        reveal_strlit("avg_over_time");
        lemma_before_at("avg"@, "avg_over_time"@, 3);
    }
    lemma_one_more(names, "avg_over_time"@);
    let names = names.push("avg_over_time"@);
    assert(before("avg_over_time"@, "bottomk"@)) by {
        reveal_strlit("avg_over_time");
        reveal_strlit("bottomk");
        lemma_before_at("avg_over_time"@, "bottomk"@, 0);
    }
    lemma_one_more(names, "bottomk"@);
    let names = names.push("bottomk"@);
    assert(before("bottomk"@, "bytes_over_time"@)) by {
        reveal_strlit("bottomk");
        reveal_strlit("bytes_over_time");
        lemma_before_at("bottomk"@, "bytes_over_time"@, 1);
    }
    lemma_one_more(names, "bytes_over_time"@);
    let names = names.push("bytes_over_time"@);
    assert(before("bytes_over_time"@, "bytes_rate"@)) by {
        reveal_strlit("bytes_over_time");
        reveal_strlit("bytes_rate");
        lemma_before_at("bytes_over_time"@, "bytes_rate"@, 6);
    }
    lemma_one_more(names, "bytes_rate"@);
    let names = names.push("bytes_rate"@);
    assert(before("bytes_rate"@, "count"@)) by {
        reveal_strlit("bytes_rate");
        reveal_strlit("count");
        lemma_before_at("bytes_rate"@, "count"@, 0);
    }
    lemma_one_more(names, "count"@);
    let names = names.push("count"@);
    assert(before("count"@, "count_over_time"@)) by {
        reveal_strlit("count");
        reveal_strlit("count_over_time");
        lemma_before_at("count"@, "count_over_time"@, 5);
    }
    lemma_one_more(names, "count_over_time"@);
    let names = names.push("count_over_time"@);
    assert(before("count_over_time"@, "first_over_time"@)) by {
        reveal_strlit("count_over_time");
        reveal_strlit("first_over_time");
        lemma_before_at("count_over_time"@, "first_over_time"@, 0);
    }
    lemma_one_more(names, "first_over_time"@);
    let names = names.push("first_over_time"@);
    assert(before("first_over_time"@, "last_over_time"@)) by {
        reveal_strlit("first_over_time");
        reveal_strlit("last_over_time");
        lemma_before_at("first_over_time"@, "last_over_time"@, 0);
    }
    lemma_one_more(names, "last_over_time"@);
    let names = names.push("last_over_time"@);
    assert(before("last_over_time"@, "max"@)) by {
        reveal_strlit("last_over_time");
        reveal_strlit("max");
        lemma_before_at("last_over_time"@, "max"@, 0);
    }
    lemma_one_more(names, "max"@);
    let names = names.push("max"@);
    assert(before("max"@, "max_over_time"@)) by {
        reveal_strlit("max");
        reveal_strlit("max_over_time");
        lemma_before_at("max"@, "max_over_time"@, 3);
    }
    lemma_one_more(names, "max_over_time"@);
    let names = names.push("max_over_time"@);
    assert(before("max_over_time"@, "min"@)) by {
        reveal_strlit("max_over_time");
        reveal_strlit("min");
        lemma_before_at("max_over_time"@, "min"@, 1);
    }
    lemma_one_more(names, "min"@);
    let names = names.push("min"@);
    assert(before("min"@, "min_over_time"@)) by {
        reveal_strlit("min");
        reveal_strlit("min_over_time");
        lemma_before_at("min"@, "min_over_time"@, 3);
    }
    lemma_one_more(names, "min_over_time"@);
    let names = names.push("min_over_time"@);
    assert(before("min_over_time"@, "quantile_over_time"@)) by {
        reveal_strlit("min_over_time");
        reveal_strlit("quantile_over_time");
        lemma_before_at("min_over_time"@, "quantile_over_time"@, 0);
    }
    lemma_one_more(names, "quantile_over_time"@);
    let names = names.push("quantile_over_time"@);
    assert(before("quantile_over_time"@, "rate"@)) by {
        reveal_strlit("quantile_over_time");
        reveal_strlit("rate");
        lemma_before_at("quantile_over_time"@, "rate"@, 0);
    }
    lemma_one_more(names, "rate"@);
    let names = names.push("rate"@);
    assert(before("rate"@, "stddev_over_time"@)) by {
        reveal_strlit("rate");
        reveal_strlit("stddev_over_time");
        lemma_before_at("rate"@, "stddev_over_time"@, 0);
    }
    lemma_one_more(names, "stddev_over_time"@);
    let names = names.push("stddev_over_time"@);
    assert(before("stddev_over_time"@, "stdvar_over_time"@)) by {
        reveal_strlit("stddev_over_time");
        reveal_strlit("stdvar_over_time");
        lemma_before_at("stddev_over_time"@, "stdvar_over_time"@, 3);
    }
    lemma_one_more(names, "stdvar_over_time"@);
    let names = names.push("stdvar_over_time"@);
    assert(before("stdvar_over_time"@, "sum"@)) by {
        reveal_strlit("stdvar_over_time");
        reveal_strlit("sum");
        lemma_before_at("stdvar_over_time"@, "sum"@, 1);
    }
    lemma_one_more(names, "sum"@);
    let names = names.push("sum"@);
    assert(before("sum"@, "sum_over_time"@)) by {
        reveal_strlit("sum");
        reveal_strlit("sum_over_time");
        lemma_before_at("sum"@, "sum_over_time"@, 3);
    }
    lemma_one_more(names, "sum_over_time"@);
    let names = names.push("sum_over_time"@);
    assert(before("sum_over_time"@, "topk"@)) by {
        reveal_strlit("sum_over_time");
        reveal_strlit("topk");
        lemma_before_at("sum_over_time"@, "topk"@, 0);
    }
    lemma_one_more(names, "topk"@);
    let names = names.push("topk"@);
    assert(names =~= syntax::functions(Screen::Logs));
}

proof fn lemma_logs_apart()
    ensures
        forall|i: int|
            0 <= i < syntax::keywords(Screen::Logs).len() ==> !syntax::functions(Screen::Logs).contains(
                #[trigger] syntax::keywords(Screen::Logs)[i],
            ),
{
    let names = syntax::functions(Screen::Logs);
    lemma_logs_in_order();
    assert(!names.contains("by"@)) by {
        assert(before("bottomk"@, "by"@)) by {
            reveal_strlit("bottomk");
            reveal_strlit("by");
            lemma_before_at("bottomk"@, "by"@, 1);
        }
        assert(before("by"@, "bytes_over_time"@)) by {
            reveal_strlit("by");
            reveal_strlit("bytes_over_time");
            lemma_before_at("by"@, "bytes_over_time"@, 2);
        }
        lemma_gap(names, 3, "by"@);
    }
    assert(!names.contains("without"@)) by {
        assert(before("topk"@, "without"@)) by {
            reveal_strlit("topk");
            reveal_strlit("without");
            lemma_before_at("topk"@, "without"@, 0);
        }
        lemma_gap(names, 20, "without"@);
    }
    assert(!names.contains("unwrap"@)) by {
        assert(before("topk"@, "unwrap"@)) by {
            reveal_strlit("topk");
            reveal_strlit("unwrap");
            lemma_before_at("topk"@, "unwrap"@, 0);
        }
        lemma_gap(names, 20, "unwrap"@);
    }
    assert(!names.contains("json"@)) by {
        assert(before("first_over_time"@, "json"@)) by {
            reveal_strlit("first_over_time");
            reveal_strlit("json");
            lemma_before_at("first_over_time"@, "json"@, 0);
        }
        assert(before("json"@, "last_over_time"@)) by {
            reveal_strlit("json");
            reveal_strlit("last_over_time");
            lemma_before_at("json"@, "last_over_time"@, 0);
        }
        lemma_gap(names, 8, "json"@);
    }
    assert(!names.contains("logfmt"@)) by {
        assert(before("last_over_time"@, "logfmt"@)) by {
            reveal_strlit("last_over_time");
            reveal_strlit("logfmt");
            lemma_before_at("last_over_time"@, "logfmt"@, 1);
        }
        assert(before("logfmt"@, "max"@)) by {
            reveal_strlit("logfmt");
            reveal_strlit("max");
            lemma_before_at("logfmt"@, "max"@, 0);
        }
        lemma_gap(names, 9, "logfmt"@);
    }
    assert(!names.contains("regexp"@)) by {
        assert(before("rate"@, "regexp"@)) by {
            reveal_strlit("rate");
            reveal_strlit("regexp");
            lemma_before_at("rate"@, "regexp"@, 1);
        }
        assert(before("regexp"@, "stddev_over_time"@)) by {
            reveal_strlit("regexp");
            reveal_strlit("stddev_over_time");
            lemma_before_at("regexp"@, "stddev_over_time"@, 0);
        }
        lemma_gap(names, 15, "regexp"@);
    }
    assert(!names.contains("pattern"@)) by {
        assert(before("min_over_time"@, "pattern"@)) by {
            reveal_strlit("min_over_time");
            reveal_strlit("pattern");
            lemma_before_at("min_over_time"@, "pattern"@, 0);
        }
        assert(before("pattern"@, "quantile_over_time"@)) by {
            reveal_strlit("pattern");
            reveal_strlit("quantile_over_time");
            lemma_before_at("pattern"@, "quantile_over_time"@, 0);
        }
        lemma_gap(names, 13, "pattern"@);
    }
    assert(!names.contains("line_format"@)) by {
        assert(before("last_over_time"@, "line_format"@)) by {
            reveal_strlit("last_over_time");
            reveal_strlit("line_format");
            lemma_before_at("last_over_time"@, "line_format"@, 1);
        }
        assert(before("line_format"@, "max"@)) by {
            reveal_strlit("line_format");
            reveal_strlit("max");
            lemma_before_at("line_format"@, "max"@, 0);
        }
        lemma_gap(names, 9, "line_format"@);
    }
    assert(!names.contains("label_format"@)) by {
        assert(before("first_over_time"@, "label_format"@)) by {
            reveal_strlit("first_over_time");
            reveal_strlit("label_format");
            lemma_before_at("first_over_time"@, "label_format"@, 0);
        }
        assert(before("label_format"@, "last_over_time"@)) by {
            reveal_strlit("label_format");
            reveal_strlit("last_over_time");
            lemma_before_at("label_format"@, "last_over_time"@, 2);
        }
        lemma_gap(names, 8, "label_format"@);
    }
    assert(!names.contains("ip"@)) by {
        assert(before("first_over_time"@, "ip"@)) by {
            reveal_strlit("first_over_time");
            reveal_strlit("ip");
            lemma_before_at("first_over_time"@, "ip"@, 0);
        }
        assert(before("ip"@, "last_over_time"@)) by {
            reveal_strlit("ip");
            reveal_strlit("last_over_time");
            lemma_before_at("ip"@, "last_over_time"@, 0);
        }
        lemma_gap(names, 8, "ip"@);
    }
    assert(!names.contains("and"@)) by {
        assert(before("and"@, "avg"@)) by {
            reveal_strlit("and");
            reveal_strlit("avg");
            lemma_before_at("and"@, "avg"@, 1);
        }
        lemma_gap(names, 0, "and"@);
    }
    assert(!names.contains("or"@)) by {
        assert(before("min_over_time"@, "or"@)) by {
            reveal_strlit("min_over_time");
            reveal_strlit("or");
            lemma_before_at("min_over_time"@, "or"@, 0);
        }
        assert(before("or"@, "quantile_over_time"@)) by {
            reveal_strlit("or");
            reveal_strlit("quantile_over_time");
            lemma_before_at("or"@, "quantile_over_time"@, 0);
        }
        lemma_gap(names, 13, "or"@);
    }
}

proof fn lemma_traces_in_order()
    ensures
        ascending(syntax::functions(Screen::Traces)),
{
    let names = Seq::<Seq<char>>::empty();
    lemma_one_more(names, "avg"@);
    let names = names.push("avg"@);
    assert(before("avg"@, "count"@)) by {
        reveal_strlit("avg");
        reveal_strlit("count");
        lemma_before_at("avg"@, "count"@, 0);
    }
    lemma_one_more(names, "count"@);
    let names = names.push("count"@);
    assert(before("count"@, "histogram"@)) by {
        reveal_strlit("count");
        reveal_strlit("histogram");
        lemma_before_at("count"@, "histogram"@, 0);
    }
    lemma_one_more(names, "histogram"@);
    let names = names.push("histogram"@);
    assert(before("histogram"@, "max"@)) by {
        reveal_strlit("histogram");
        reveal_strlit("max");
        lemma_before_at("histogram"@, "max"@, 0);
    }
    lemma_one_more(names, "max"@);
    let names = names.push("max"@);
    assert(before("max"@, "min"@)) by {
        reveal_strlit("max");
        reveal_strlit("min");
        lemma_before_at("max"@, "min"@, 1);
    }
    lemma_one_more(names, "min"@);
    let names = names.push("min"@);
    assert(before("min"@, "quantile"@)) by {
        reveal_strlit("min");
        reveal_strlit("quantile");
        lemma_before_at("min"@, "quantile"@, 0);
    }
    lemma_one_more(names, "quantile"@);
    let names = names.push("quantile"@);
    assert(before("quantile"@, "sum"@)) by {
        reveal_strlit("quantile");
        reveal_strlit("sum");
        lemma_before_at("quantile"@, "sum"@, 0);
    }
    lemma_one_more(names, "sum"@);
    let names = names.push("sum"@);
    assert(names =~= syntax::functions(Screen::Traces));
}

proof fn lemma_traces_apart()
    ensures
        forall|i: int|
            0 <= i < syntax::keywords(Screen::Traces).len() ==> !syntax::functions(Screen::Traces).contains(
                #[trigger] syntax::keywords(Screen::Traces)[i],
            ),
{
    let names = syntax::functions(Screen::Traces);
    lemma_traces_in_order();
    assert(!names.contains("by"@)) by {
        assert(before("avg"@, "by"@)) by {
            reveal_strlit("avg");
            reveal_strlit("by");
            lemma_before_at("avg"@, "by"@, 0);
        }
        assert(before("by"@, "count"@)) by {
            reveal_strlit("by");
            reveal_strlit("count");
            lemma_before_at("by"@, "count"@, 0);
        }
        lemma_gap(names, 1, "by"@);
    }
    assert(!names.contains("select"@)) by {
        assert(before("quantile"@, "select"@)) by {
            reveal_strlit("quantile");
            reveal_strlit("select");
            lemma_before_at("quantile"@, "select"@, 0);
        }
        assert(before("select"@, "sum"@)) by {
            reveal_strlit("select");
            reveal_strlit("sum");
            lemma_before_at("select"@, "sum"@, 1);
        }
        lemma_gap(names, 6, "select"@);
    }
    assert(!names.contains("and"@)) by {
        assert(before("and"@, "avg"@)) by {
            reveal_strlit("and");
            reveal_strlit("avg");
            lemma_before_at("and"@, "avg"@, 1);
        }
        lemma_gap(names, 0, "and"@);
    }
    assert(!names.contains("or"@)) by {
        assert(before("min"@, "or"@)) by {
            reveal_strlit("min");
            reveal_strlit("or");
            lemma_before_at("min"@, "or"@, 0);
        }
        assert(before("or"@, "quantile"@)) by {
            reveal_strlit("or");
            reveal_strlit("quantile");
            lemma_before_at("or"@, "quantile"@, 0);
        }
        lemma_gap(names, 5, "or"@);
    }
    assert(!names.contains("duration"@)) by {
        assert(before("count"@, "duration"@)) by {
            reveal_strlit("count");
            reveal_strlit("duration");
            lemma_before_at("count"@, "duration"@, 0);
        }
        assert(before("duration"@, "histogram"@)) by {
            reveal_strlit("duration");
            reveal_strlit("histogram");
            lemma_before_at("duration"@, "histogram"@, 0);
        }
        lemma_gap(names, 2, "duration"@);
    }
    assert(!names.contains("status"@)) by {
        assert(before("quantile"@, "status"@)) by {
            reveal_strlit("quantile");
            reveal_strlit("status");
            lemma_before_at("quantile"@, "status"@, 0);
        }
        assert(before("status"@, "sum"@)) by {
            reveal_strlit("status");
            reveal_strlit("sum");
            lemma_before_at("status"@, "sum"@, 1);
        }
        lemma_gap(names, 6, "status"@);
    }
    assert(!names.contains("name"@)) by {
        assert(before("min"@, "name"@)) by {
            reveal_strlit("min");
            reveal_strlit("name");
            lemma_before_at("min"@, "name"@, 0);
        }
        assert(before("name"@, "quantile"@)) by {
            reveal_strlit("name");
            reveal_strlit("quantile");
            lemma_before_at("name"@, "quantile"@, 0);
        }
        lemma_gap(names, 5, "name"@);
    }
    assert(!names.contains("kind"@)) by {
        assert(before("histogram"@, "kind"@)) by {
            reveal_strlit("histogram");
            reveal_strlit("kind");
            lemma_before_at("histogram"@, "kind"@, 0);
        }
        assert(before("kind"@, "max"@)) by {
            reveal_strlit("kind");
            reveal_strlit("max");
            lemma_before_at("kind"@, "max"@, 0);
        }
        lemma_gap(names, 3, "kind"@);
    }
    assert(!names.contains("rootName"@)) by {
        assert(before("quantile"@, "rootName"@)) by {
            reveal_strlit("quantile");
            reveal_strlit("rootName");
            lemma_before_at("quantile"@, "rootName"@, 0);
        }
        assert(before("rootName"@, "sum"@)) by {
            reveal_strlit("rootName");
            reveal_strlit("sum");
            lemma_before_at("rootName"@, "sum"@, 0);
        }
        lemma_gap(names, 6, "rootName"@);
    }
    assert(!names.contains("rootServiceName"@)) by {
        assert(before("quantile"@, "rootServiceName"@)) by {
            reveal_strlit("quantile");
            reveal_strlit("rootServiceName");
            lemma_before_at("quantile"@, "rootServiceName"@, 0);
        }
        assert(before("rootServiceName"@, "sum"@)) by {
            reveal_strlit("rootServiceName");
            reveal_strlit("sum");
            lemma_before_at("rootServiceName"@, "sum"@, 0);
        }
        lemma_gap(names, 6, "rootServiceName"@);
    }
}

/// The functions of a query language are in order, so that none is listed twice. Only the Overview has
/// none, and none of them is a keyword of the language.
pub proof fn law_functions_are_in_order_and_no_keywords(screen: Screen)
    ensures
        ascending(syntax::functions(screen)),
        syntax::functions(screen).len() == 0 <==> screen == Screen::Overview,
        forall|i: int|
            0 <= i < syntax::keywords(screen).len() ==> !syntax::functions(screen).contains(
                #[trigger] syntax::keywords(screen)[i],
            ),
{
    match screen {
        Screen::Metrics => {
            lemma_metrics_in_order();
            lemma_metrics_apart();
        },
        Screen::Logs => {
            lemma_logs_in_order();
            lemma_logs_apart();
        },
        Screen::Traces => {
            lemma_traces_in_order();
            lemma_traces_apart();
        },
        Screen::Overview => {},
    }
}

} // verus!
