//! A minimal human-readable encoding of `Result` values.
//!
//! Wire formats are collaborators of this crate rather than its core: they
//! consume the mode contract of [`crate::mode`] to decide how a value is
//! written. This module gives the human-readable side a concrete, fully
//! specified shape: a sequence of `Result` values becomes a JSON array whose
//! objects tag each value as `Ok` or `Err`. Text is emitted verbatim, so
//! callers pass text that needs no escaping.

use vstd::prelude::*;
use vstd::string::StringExecFns;

verus! {

/// The characters of the object encoding one `Result`: an `Ok` text is
/// tagged `"result":"Ok"` and quoted, an `Err` flag is tagged
/// `"result":"Err"` and written as a bare boolean.
pub open spec fn json_result_spec(item: Result<Seq<char>, bool>) -> Seq<char> {
    match item {
        Ok(s) => "{\"result\":\"Ok\",\"value\":\""@ + s + "\"}"@,
        Err(b) => "{\"result\":\"Err\",\"error\":"@ + (if b {
            "true"@
        } else {
            "false"@
        }) + "}"@,
    }
}

/// The comma-separated objects of every item, in order.
pub open spec fn json_items_spec(items: Seq<Result<Seq<char>, bool>>) -> Seq<char>
    decreases items.len(),
{
    if items.len() == 0 {
        Seq::empty()
    } else if items.len() == 1 {
        json_result_spec(items[0])
    } else {
        json_items_spec(items.drop_last()) + ","@ + json_result_spec(items.last())
    }
}

/// The characters of the array holding every item.
pub open spec fn json_results_spec(items: Seq<Result<Seq<char>, bool>>) -> Seq<char> {
    "["@ + json_items_spec(items) + "]"@
}

/// Each result of a vector at the level of characters.
pub open spec fn result_views(items: Seq<Result<String, bool>>) -> Seq<
    Result<Seq<char>, bool>,
> {
    items.map(
        |i: int, r: Result<String, bool>|
            match r {
                Ok(s) => Ok(s@),
                Err(b) => Err(b),
            },
    )
}

/// Encodes the results as a JSON array, exactly as [`json_results_spec`]
/// states it.
pub fn encode_results(items: &Vec<Result<String, bool>>) -> (out: String)
    ensures
        out@ == json_results_spec(result_views(items@)),
{
    let ghost views = result_views(items@);
    let mut out = String::new();
    out.append("[");
    let n = items.len();
    let mut i: usize = 0;
    while i < n
        invariant
            i <= n,
            n == items@.len(),
            views == result_views(items@),
            views.len() == n,
            out@ == "["@ + json_items_spec(views.take(i as int)),
        decreases n - i,
    {
        if i > 0 {
            out.append(",");
        }
        match &items[i] {
            Ok(s) => {
                out.append("{\"result\":\"Ok\",\"value\":\"");
                out.append(s.as_str());
                out.append("\"}");
            },
            Err(b) => {
                out.append("{\"result\":\"Err\",\"error\":");
                if *b {
                    out.append("true");
                } else {
                    out.append("false");
                }
                out.append("}");
            },
        }
        proof {
            let t = views.take(i as int + 1);
            assert(t.drop_last() =~= views.take(i as int));
            assert(t.last() == views[i as int]);
            assert(out@ =~= "["@ + json_items_spec(t));
        }
        i += 1;
    }
    out.append("]");
    proof {
        assert(views.take(n as int) =~= views);
        assert(out@ =~= json_results_spec(views));
    }
    out
}

} // verus!
