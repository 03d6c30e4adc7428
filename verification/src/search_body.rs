//! The words of a body-contains term, asked of the server.
//!
//! Camel hands a folder the words of a body term it cannot answer from the
//! message previews; a message matches when its body contains every one of
//! them. Each word becomes one `body` condition, and several words an AND of
//! them, because a multi-word string is one more thing RFC 8621 lets a server
//! interpret.

use vstd::prelude::*;

use crate::filter::{
    empty_query, filters_view, option_filter_view, EmailQueryFilter, Filter, FilterOperator,
    FilterView, QueryView,
};

verus! {

/// The condition that a message's body contains `word`.
pub open spec fn body_condition(word: Seq<char>) -> FilterView {
    FilterView::Condition(QueryView { body: Some(word), ..empty_query() })
}

/// One body condition for each word of `words` that is not empty, in order.
pub open spec fn body_conditions(words: Seq<Seq<char>>) -> Seq<FilterView>
    decreases words.len(),
{
    if words.len() == 0 {
        Seq::empty()
    } else {
        let rest = body_conditions(words.drop_last());
        if words.last().len() > 0 {
            rest.push(body_condition(words.last()))
        } else {
            rest
        }
    }
}

/// The filter for a body term's words: nothing when no word is left once
/// the empty ones are dropped, the one condition when one is, and an AND of
/// all of them otherwise.
pub open spec fn spec_body_filter(words: Seq<Seq<char>>) -> Option<FilterView> {
    let conditions = body_conditions(words);
    if conditions.len() == 0 {
        None
    } else if conditions.len() == 1 {
        Some(conditions[0])
    } else {
        Some(FilterView::Operator(FilterOperator::And, conditions))
    }
}

/// The strings of `words`.
pub open spec fn words_view(words: Seq<String>) -> Seq<Seq<char>> {
    words.map_values(|w: String| w@)
}

/// The JMAP filter for a body term's `words`, or `None` if there is nothing to
/// ask: a message matches when its body contains every one of them.
///
/// An empty word is dropped rather than asked about. Camel's own substring
/// match treats one as matching everything, so dropping it cannot narrow the
/// answer, while asking a server for it would be a condition whose meaning
/// RFC 8621 does not fix. A term of nothing but empty words is therefore
/// `None`, which is reported as "cannot search" rather than as "matches
/// everything".
pub fn body_filter(words: &[String]) -> (f: Option<Filter>)
    ensures
        option_filter_view(f) == spec_body_filter(words_view(words@)),
{
    let ghost all = words_view(words@);
    let mut conditions: Vec<Filter> = Vec::new();
    let mut i: usize = 0;
    while i < words.len()
        invariant
            i <= words@.len(),
            all == words_view(words@),
            filters_view(conditions@) =~= body_conditions(all.take(i as int)),
        decreases words@.len() - i,
    {
        let word: &str = words[i].as_str();
        proof {
            assert(all.take(i + 1).drop_last() =~= all.take(i as int));
            assert(all.take(i + 1).last() == all[i as int]);
        }
        if !word.is_empty() {
            let f = Filter::condition(EmailQueryFilter::default().body(word));
            let ghost before = conditions@;
            conditions.push(f);
            proof {
                assert(filters_view(conditions@) =~= filters_view(before).push(
                    body_condition(all[i as int]),
                ));
            }
        }
        i = i + 1;
    }
    proof {
        assert(all.take(words@.len() as int) =~= all);
    }
    let n = conditions.len();
    if n == 0 {
        None
    } else if n == 1 {
        let ghost only = conditions@[0];
        let last = conditions.pop();
        proof {
            assert(filters_view(seq![only])[0] == body_conditions(all)[0]);
        }
        last
    } else {
        Some(Filter::and(conditions))
    }
}

} // verus!
