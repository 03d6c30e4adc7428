//! Translating a Camel search expression into a JMAP `Email/query` filter.
//!
//! Evolution's message list, search bar and quick-search all reduce to one
//! string in the e-sexp grammar, wrapped in the message list's own
//! `(match-all ...)`. [`translate`] answers whether that expression means
//! exactly one thing in both grammars, or whether answering it correctly needs
//! Camel's own local search over the summary.
//!
//! The tokenizer is not a general e-sexp parser: it recognises lists, strings
//! and bare tokens, enough to walk `(func "arg" (nested ...))` shapes without
//! evaluating them, and fails — `None`, the same "stay local" answer as an
//! untranslatable function — on anything malformed.
//!
//! Only "contains a substring" has a JMAP equivalent: `header-contains` and
//! `body-contains` translate, `and`, `or`, `not` and `match-all` recurse, and
//! everything else — `header-matches`, `header-starts-with`, `system-flag`,
//! ... — does not. A sub-expression that cannot be translated fails the whole
//! tree rather than being dropped: dropping a child of `and` would ask the
//! server for more than the user did, and dropping one of `or` for less.

use vstd::prelude::*;

use crate::filter::{
    empty_query, filter_view, filters_view, option_filter_view, EmailQueryFilter, Filter,
    FilterOperator, FilterView, QueryView,
};
use crate::text::{
    ascii_lower, chars_of, eq_ignore_ascii_case, is_white_space, same_ignoring_ascii_case, string_of,
    white_space,
};

verus! {

/// One node of the part of e-sexp this module reads.
#[derive(Debug)]
pub enum SExpr {
    List(Vec<SExpr>),
    Ident(Vec<char>),
    Str(Vec<char>),
}

/// An [`SExpr`] as plain values.
pub enum SExprView {
    List(Seq<SExprView>),
    Ident(Seq<char>),
    Str(Seq<char>),
}

/// The value an [`SExpr`] stands for.
pub open spec fn sexpr_view(e: &SExpr) -> SExprView
    decreases e,
{
    match e {
        SExpr::List(v) => SExprView::List(
            Seq::new(
                v@.len(),
                |i: int|
                    if 0 <= i < v@.len() {
                        proof {
                            assert(decreases_to!(v => v@));
                            assert(decreases_to!(v@ => v@[i]));
                        }
                        sexpr_view(&v@[i])
                    } else {
                        SExprView::Ident(Seq::empty())
                    },
            ),
        ),
        SExpr::Ident(v) => SExprView::Ident(v@),
        SExpr::Str(v) => SExprView::Str(v@),
    }
}

/// The values a list of nodes stands for.
pub open spec fn sexprs_view(v: Seq<SExpr>) -> Seq<SExprView> {
    Seq::new(v.len(), |i: int| sexpr_view(&v[i]))
}

/// The value a parse result stands for.
pub open spec fn parsed_view(res: Option<(SExpr, usize)>) -> Option<(SExprView, int)> {
    match res {
        Some((e, r)) => Some((sexpr_view(&e), r as int)),
        None => None,
    }
}

proof fn lemma_list_view(v: Vec<SExpr>)
    ensures
        sexpr_view(&SExpr::List(v)) == SExprView::List(sexprs_view(v@)),
{
    assert(sexpr_view(&SExpr::List(v))->List_0 =~= sexprs_view(v@));
}

// ---------------------------------------------------------------------------
// the grammar, over the characters of the expression and a position in them

/// Past the white space at `pos`.
pub open spec fn skip_space(s: Seq<char>, pos: int) -> int
    decreases s.len() - pos,
{
    if 0 <= pos < s.len() && is_white_space(s[pos]) {
        skip_space(s, pos + 1)
    } else {
        pos
    }
}

/// Just past the next `\n` at or after `pos`, or the end.
pub open spec fn line_end(s: Seq<char>, pos: int) -> int
    decreases s.len() - pos,
{
    if 0 <= pos < s.len() {
        if s[pos] == '\n' {
            pos + 1
        } else {
            line_end(s, pos + 1)
        }
    } else {
        s.len() as int
    }
}

pub proof fn lemma_skip_space_bounds(s: Seq<char>, pos: int)
    requires
        0 <= pos <= s.len(),
    ensures
        pos <= skip_space(s, pos) <= s.len(),
    decreases s.len() - pos,
{
    if pos < s.len() && is_white_space(s[pos]) {
        lemma_skip_space_bounds(s, pos + 1);
    }
}

pub proof fn lemma_line_end_bounds(s: Seq<char>, pos: int)
    requires
        0 <= pos <= s.len(),
    ensures
        pos <= line_end(s, pos) <= s.len(),
        pos < s.len() ==> pos < line_end(s, pos),
    decreases s.len() - pos,
{
    if pos < s.len() && s[pos] != '\n' {
        lemma_line_end_bounds(s, pos + 1);
    }
}

/// Past white space and `;`-to-end-of-line comments at `pos` — e-sexp's
/// ignorable characters.
pub open spec fn spec_skip_ignorable(s: Seq<char>, pos: int) -> int
    decreases s.len() - pos,
{
    let t = skip_space(s, pos);
    if 0 <= pos <= s.len() && t < s.len() && s[t] == ';' {
        proof {
            lemma_skip_space_bounds(s, pos);
            lemma_line_end_bounds(s, t + 1);
        }
        spec_skip_ignorable(s, line_end(s, t + 1))
    } else {
        t
    }
}

pub proof fn lemma_skip_ignorable_bounds(s: Seq<char>, pos: int)
    requires
        0 <= pos <= s.len(),
    ensures
        pos <= spec_skip_ignorable(s, pos) <= s.len(),
    decreases s.len() - pos,
{
    lemma_skip_space_bounds(s, pos);
    let t = skip_space(s, pos);
    if t < s.len() && s[t] == ';' {
        lemma_line_end_bounds(s, t + 1);
        lemma_skip_ignorable_bounds(s, line_end(s, t + 1));
    }
}

proof fn lemma_skip_space_stops(s: Seq<char>, pos: int)
    requires
        0 <= pos <= s.len(),
        skip_space(s, pos) < s.len(),
    ensures
        !is_white_space(s[skip_space(s, pos)]),
    decreases s.len() - pos,
{
    if pos < s.len() && is_white_space(s[pos]) {
        lemma_skip_space_stops(s, pos + 1);
    }
}

/// Where the ignorable characters end, the character is not white space.
proof fn lemma_skip_ignorable_stops(s: Seq<char>, pos: int)
    requires
        0 <= pos <= s.len(),
        spec_skip_ignorable(s, pos) < s.len(),
    ensures
        !is_white_space(s[spec_skip_ignorable(s, pos)]),
    decreases s.len() - pos,
{
    lemma_skip_space_bounds(s, pos);
    let t = skip_space(s, pos);
    if t < s.len() && s[t] == ';' {
        lemma_line_end_bounds(s, t + 1);
        lemma_skip_ignorable_stops(s, line_end(s, t + 1));
    } else {
        lemma_skip_space_stops(s, pos);
    }
}

/// Whether `c` ends a bare token: white space, a parenthesis or a quote.
pub open spec fn ends_token(c: char) -> bool {
    is_white_space(c) || c == '(' || c == ')' || c == '"' || c == '\''
}

/// Where a bare token starting at `pos` ends: at white space, a paren, a
/// quote, or the end of the expression.
pub open spec fn token_end(s: Seq<char>, pos: int) -> int
    decreases s.len() - pos,
{
    if 0 <= pos < s.len() && !ends_token(s[pos]) {
        token_end(s, pos + 1)
    } else {
        pos
    }
}

proof fn lemma_token_end_bounds(s: Seq<char>, pos: int)
    requires
        0 <= pos <= s.len(),
    ensures
        pos <= token_end(s, pos) <= s.len(),
    decreases s.len() - pos,
{
    if pos < s.len() && !ends_token(s[pos]) {
        lemma_token_end_bounds(s, pos + 1);
    }
}

/// The rest of a string whose opening `quote` has been read, with `\` escaping
/// the character after it; `None` if the string is never closed.
pub open spec fn spec_parse_string(s: Seq<char>, pos: int, quote: char, read: Seq<char>) -> Option<
    (SExprView, int),
>
    decreases s.len() - pos,
{
    if 0 <= pos < s.len() {
        let c = s[pos];
        if c == '\\' {
            if pos + 1 < s.len() {
                spec_parse_string(s, pos + 2, quote, read.push(s[pos + 1]))
            } else {
                None
            }
        } else if c == quote {
            Some((SExprView::Str(read), pos + 1))
        } else {
            spec_parse_string(s, pos + 1, quote, read.push(c))
        }
    } else {
        None
    }
}

/// One value — a list, a string or a bare token — at `pos`, and where it
/// ends.
pub open spec fn spec_parse_value(s: Seq<char>, pos: int) -> Option<(SExprView, int)>
    decreases s.len() - pos, 0int,
{
    let p = spec_skip_ignorable(s, pos);
    if 0 <= pos <= s.len() && p < s.len() {
        proof {
            lemma_skip_ignorable_bounds(s, pos);
        }
        let c = s[p];
        if c == '(' {
            spec_parse_list(s, p + 1, Seq::empty())
        } else if c == '"' || c == '\'' {
            spec_parse_string(s, p + 1, c, Seq::empty())
        } else if c == ')' {
            None
        } else {
            Some((SExprView::Ident(s.subrange(p, token_end(s, p))), token_end(s, p)))
        }
    } else {
        None
    }
}

/// The rest of a list whose `(` has been read and whose first items are
/// `items`, up to and including its `)`.
pub open spec fn spec_parse_list(s: Seq<char>, pos: int, items: Seq<SExprView>) -> Option<
    (SExprView, int),
>
    decreases s.len() - pos, 1int,
{
    let p = spec_skip_ignorable(s, pos);
    if 0 <= pos <= s.len() && p < s.len() {
        proof {
            lemma_skip_ignorable_bounds(s, pos);
        }
        if s[p] == ')' {
            Some((SExprView::List(items), p + 1))
        } else {
            match spec_parse_value(s, p) {
                // Every value takes up at least one character, so the list
                // moves forward with each item read.
                Some((item, r)) => if p < r <= s.len() {
                    spec_parse_list(s, r, items.push(item))
                } else {
                    None
                },
                None => None,
            }
        }
    } else {
        None
    }
}

/// Whether everything from `pos` on is white space.
pub open spec fn only_space_after(s: Seq<char>, pos: int) -> bool {
    forall|i: int| pos <= i < s.len() ==> is_white_space(#[trigger] s[i])
}

// ---------------------------------------------------------------------------
// the translation

/// The condition for `value` in the header `header`: a well-known header by
/// its own field, any other by the generic form, and the empty name — Camel's
/// "any header" — not at all.
pub open spec fn spec_header_contains(header: Seq<char>, value: Seq<char>) -> Option<FilterView> {
    if eq_ignore_ascii_case(header, "From"@) {
        Some(FilterView::Condition(QueryView { from: Some(value), ..empty_query() }))
    } else if eq_ignore_ascii_case(header, "To"@) {
        Some(FilterView::Condition(QueryView { to: Some(value), ..empty_query() }))
    } else if eq_ignore_ascii_case(header, "Cc"@) {
        Some(FilterView::Condition(QueryView { cc: Some(value), ..empty_query() }))
    } else if eq_ignore_ascii_case(header, "Bcc"@) {
        Some(FilterView::Condition(QueryView { bcc: Some(value), ..empty_query() }))
    } else if eq_ignore_ascii_case(header, "Subject"@) {
        Some(FilterView::Condition(QueryView { subject: Some(value), ..empty_query() }))
    } else if header.len() == 0 {
        None
    } else {
        Some(FilterView::Condition(QueryView { header: Some((header, value)), ..empty_query() }))
    }
}

/// The filter a boolean-valued node means, if it means one.
pub open spec fn spec_translate_bool(e: SExprView) -> Option<FilterView>
    decreases e,
{
    match e {
        SExprView::List(items) => {
            if items.len() > 0 && items[0] is Ident {
                let func = items[0]->Ident_0;
                if eq_ignore_ascii_case(func, "match-all"@) {
                    if items.len() == 2 {
                        spec_translate_bool(items[1])
                    } else {
                        None
                    }
                } else if eq_ignore_ascii_case(func, "and"@) {
                    proof {
                        assert(decreases_to!(items => items.subrange(1, items.len() as int)));
                    }
                    match spec_translate_all(items.subrange(1, items.len() as int)) {
                        Some(v) => Some(FilterView::Operator(FilterOperator::And, v)),
                        None => None,
                    }
                } else if eq_ignore_ascii_case(func, "or"@) {
                    proof {
                        assert(decreases_to!(items => items.subrange(1, items.len() as int)));
                    }
                    match spec_translate_all(items.subrange(1, items.len() as int)) {
                        Some(v) => Some(FilterView::Operator(FilterOperator::Or, v)),
                        None => None,
                    }
                } else if eq_ignore_ascii_case(func, "not"@) {
                    if items.len() == 2 {
                        match spec_translate_bool(items[1]) {
                            Some(f) => Some(FilterView::Operator(FilterOperator::Not, seq![f])),
                            None => None,
                        }
                    } else {
                        None
                    }
                } else if eq_ignore_ascii_case(func, "header-contains"@) {
                    if items.len() == 3 && items[1] is Str && items[2] is Str {
                        spec_header_contains(items[1]->Str_0, items[2]->Str_0)
                    } else {
                        None
                    }
                } else if eq_ignore_ascii_case(func, "body-contains"@) {
                    if items.len() == 2 && items[1] is Str {
                        Some(
                            FilterView::Condition(
                                QueryView { body: Some(items[1]->Str_0), ..empty_query() },
                            ),
                        )
                    } else {
                        None
                    }
                } else {
                    None
                }
            } else {
                None
            }
        },
        _ => None,
    }
}

/// Every node of `items` translated, or `None` if any one of them is not.
pub open spec fn spec_translate_all(items: Seq<SExprView>) -> Option<Seq<FilterView>>
    decreases items,
{
    if items.len() == 0 {
        Some(Seq::empty())
    } else {
        proof {
            assert(decreases_to!(items => items.drop_last()));
        }
        match spec_translate_all(items.drop_last()) {
            Some(v) => match spec_translate_bool(items.last()) {
                Some(f) => Some(v.push(f)),
                None => None,
            },
            None => None,
        }
    }
}

/// What [`translate`] answers for the characters `s`.
pub open spec fn spec_translate(s: Seq<char>) -> Option<FilterView> {
    match spec_parse_value(s, 0) {
        Some((e, r)) => if only_space_after(s, r) {
            spec_translate_bool(e)
        } else {
            None
        },
        None => None,
    }
}

// ---------------------------------------------------------------------------
// laws

/// A list of nodes translates exactly when each of them does.
pub proof fn lemma_translate_all_some(items: Seq<SExprView>)
    ensures
        spec_translate_all(items) is Some <==> forall|i: int|
            0 <= i < items.len() ==> spec_translate_bool(#[trigger] items[i]) is Some,
        spec_translate_all(items) is Some ==> spec_translate_all(items)->0.len() == items.len(),
        spec_translate_all(items) is Some ==> forall|i: int|
            0 <= i < items.len() ==> Some(spec_translate_all(items)->0[i]) == spec_translate_bool(
                #[trigger] items[i],
            ),
    decreases items.len(),
{
    if items.len() > 0 {
        lemma_translate_all_some(items.drop_last());
        if spec_translate_all(items) is Some {
            let v = spec_translate_all(items)->0;
            assert forall|i: int| 0 <= i < items.len() implies Some(v[i]) == spec_translate_bool(
                #[trigger] items[i],
            ) by {
                if i < items.len() - 1 {
                    assert(items.drop_last()[i] == items[i]);
                }
            }
        }
        if spec_translate_all(items) is Some {
            assert forall|i: int| 0 <= i < items.len() implies spec_translate_bool(
                #[trigger] items[i],
            ) is Some by {
                if i < items.len() - 1 {
                    assert(items.drop_last()[i] == items[i]);
                }
            }
        }
        if forall|i: int| 0 <= i < items.len() ==> spec_translate_bool(#[trigger] items[i]) is Some {
            assert forall|i: int| 0 <= i < items.drop_last().len() implies spec_translate_bool(
                #[trigger] items.drop_last()[i],
            ) is Some by {
                assert(items.drop_last()[i] == items[i]);
            }
            assert(spec_translate_bool(items[items.len() - 1]) is Some);
        }
    }
}

/// One untranslatable child fails the whole `and` or `or`: neither is ever
/// sent to the server with a child missing.
pub proof fn law_and_or_need_every_child(items: Seq<SExprView>)
    requires
        items.len() > 0,
        items[0] is Ident,
        eq_ignore_ascii_case(items[0]->Ident_0, "and"@) || eq_ignore_ascii_case(
            items[0]->Ident_0,
            "or"@,
        ),
    ensures
        spec_translate_bool(SExprView::List(items)) is Some <==> forall|i: int|
            1 <= i < items.len() ==> spec_translate_bool(#[trigger] items[i]) is Some,
{
    let args = items.subrange(1, items.len() as int);
    lemma_translate_all_some(args);
    reveal_strlit("match-all");
    reveal_strlit("and");
    reveal_strlit("or");
    assert(!eq_ignore_ascii_case(items[0]->Ident_0, "match-all"@)) by {
        if eq_ignore_ascii_case(items[0]->Ident_0, "and"@) {
            assert(items[0]->Ident_0.len() == 3);
        } else {
            assert(items[0]->Ident_0.len() == 2);
        }
    }
    if forall|i: int| 1 <= i < items.len() ==> spec_translate_bool(#[trigger] items[i]) is Some {
        assert forall|i: int| 0 <= i < args.len() implies spec_translate_bool(
            #[trigger] args[i],
        ) is Some by {
            assert(args[i] == items[i + 1]);
        }
    }
    if spec_translate_all(args) is Some {
        assert forall|i: int| 1 <= i < items.len() implies spec_translate_bool(
            #[trigger] items[i],
        ) is Some by {
            assert(args[i - 1] == items[i]);
        }
    }
}

/// `and`, `or`, `not` and `match-all` — their names in any ASCII case — are
/// translated child by child: `and` and `or` become the operator over every
/// child's filter, in order, or nothing if any child has none; `not` of one
/// child is the negation of that child's filter; `match-all` of one child is
/// that child's filter.
pub proof fn law_translate_is_structural(func: Seq<char>, args: Seq<SExprView>)
    ensures
        eq_ignore_ascii_case(func, "and"@) ==> spec_translate_bool(
            SExprView::List(seq![SExprView::Ident(func)] + args),
        ) == match spec_translate_all(args) {
            Some(v) => Some(FilterView::Operator(FilterOperator::And, v)),
            None => None,
        },
        eq_ignore_ascii_case(func, "or"@) ==> spec_translate_bool(
            SExprView::List(seq![SExprView::Ident(func)] + args),
        ) == match spec_translate_all(args) {
            Some(v) => Some(FilterView::Operator(FilterOperator::Or, v)),
            None => None,
        },
        eq_ignore_ascii_case(func, "not"@) && args.len() == 1 ==> spec_translate_bool(
            SExprView::List(seq![SExprView::Ident(func)] + args),
        ) == match spec_translate_bool(args[0]) {
            Some(f) => Some(FilterView::Operator(FilterOperator::Not, seq![f])),
            None => None,
        },
        eq_ignore_ascii_case(func, "match-all"@) && args.len() == 1 ==> spec_translate_bool(
            SExprView::List(seq![SExprView::Ident(func)] + args),
        ) == spec_translate_bool(args[0]),
        spec_translate_all(args) is Some <==> forall|i: int|
            0 <= i < args.len() ==> spec_translate_bool(#[trigger] args[i]) is Some,
        spec_translate_all(args) matches Some(v) ==> v.len() == args.len() && forall|i: int|
            0 <= i < args.len() ==> Some(v[i]) == spec_translate_bool(#[trigger] args[i]),
{
    lemma_translate_all_some(args);
    let items = seq![SExprView::Ident(func)] + args;
    assert(items[0] == SExprView::Ident(func));
    assert(items.subrange(1, items.len() as int) =~= args);
    if args.len() == 1 {
        assert(items[1] == args[0]);
    }
    reveal_strlit("match-all");
    reveal_strlit("and");
    reveal_strlit("or");
    reveal_strlit("not");
    if eq_ignore_ascii_case(func, "not"@) {
        assert(ascii_lower(func[0]) == ascii_lower("not"@[0]));
        assert(!eq_ignore_ascii_case(func, "and"@));
    }
}

/// The message list's `(match-all ...)` wrapper is transparent: the wrapped
/// expression is asked of the server exactly as it would be alone.
pub proof fn law_match_all_is_transparent(func: Seq<char>, inner: SExprView)
    requires
        eq_ignore_ascii_case(func, "match-all"@),
    ensures
        spec_translate_bool(SExprView::List(seq![SExprView::Ident(func), inner]))
            == spec_translate_bool(inner),
{
    let items = seq![SExprView::Ident(func), inner];
    assert(items[1] == inner);
}

/// A list whose first item is not a name translates to nothing.
pub proof fn law_only_named_lists_translate(e: SExprView)
    requires
        !(e matches SExprView::List(items) && items.len() > 0 && items[0] is Ident),
    ensures
        spec_translate_bool(e) is None,
{
}

/// Skipping ignorable text twice is skipping it once.
proof fn lemma_skip_ignorable_again(s: Seq<char>, pos: int)
    requires
        0 <= pos <= s.len(),
    ensures
        spec_skip_ignorable(s, spec_skip_ignorable(s, pos)) == spec_skip_ignorable(s, pos),
    decreases s.len() - pos,
{
    lemma_skip_space_bounds(s, pos);
    let t = skip_space(s, pos);
    if t < s.len() && s[t] == ';' {
        lemma_line_end_bounds(s, t + 1);
        lemma_skip_ignorable_again(s, line_end(s, t + 1));
    } else {
        if t < s.len() {
            lemma_skip_space_stops(s, pos);
        }
        assert(skip_space(s, t) == t);
    }
}

/// A string read from `pos` ends past `pos`, within the text.
proof fn lemma_string_ends_later(s: Seq<char>, pos: int, quote: char, read: Seq<char>)
    requires
        0 <= pos,
    ensures
        spec_parse_string(s, pos, quote, read) matches Some((_, r)) ==> pos < r <= s.len(),
    decreases s.len() - pos,
{
    if 0 <= pos < s.len() {
        let c = s[pos];
        if c == '\\' {
            if pos + 1 < s.len() {
                lemma_string_ends_later(s, pos + 2, quote, read.push(s[pos + 1]));
            }
        } else if c != quote {
            lemma_string_ends_later(s, pos + 1, quote, read.push(c));
        }
    }
}

/// The rest of a list read from `pos` ends past `pos`, within the text.
proof fn lemma_list_ends_later(s: Seq<char>, pos: int, items: Seq<SExprView>)
    requires
        0 <= pos <= s.len(),
    ensures
        spec_parse_list(s, pos, items) matches Some((_, r)) ==> pos < r <= s.len(),
    decreases s.len() - pos,
{
    lemma_skip_ignorable_bounds(s, pos);
    let p = spec_skip_ignorable(s, pos);
    if p < s.len() && s[p] != ')' {
        match spec_parse_value(s, p) {
            Some((item, r)) => if p < r <= s.len() {
                lemma_list_ends_later(s, r, items.push(item));
            },
            None => {},
        }
    }
}

/// A value read from `pos` starts after the ignorable text there and takes
/// up at least one character of the text.
proof fn lemma_value_ends_later(s: Seq<char>, pos: int)
    requires
        0 <= pos <= s.len(),
    ensures
        spec_parse_value(s, pos) matches Some((_, r)) ==> spec_skip_ignorable(s, pos) < r
            <= s.len(),
{
    lemma_skip_ignorable_bounds(s, pos);
    let p = spec_skip_ignorable(s, pos);
    if p < s.len() {
        let c = s[p];
        if c == '(' {
            lemma_list_ends_later(s, p + 1, Seq::empty());
        } else if c == '"' || c == '\'' {
            lemma_string_ends_later(s, p + 1, c, Seq::empty());
        } else if c != ')' {
            lemma_skip_ignorable_stops(s, pos);
            lemma_token_end_bounds(s, p + 1);
        }
    }
}

/// The values of a list, read one after another from `starts[k]`, after the
/// first `k` have been read.
proof fn lemma_list_from(s: Seq<char>, starts: Seq<int>, items: Seq<SExprView>, k: int)
    requires
        starts.len() == items.len() + 1,
        forall|i: int|
            0 <= i < items.len() ==> #[trigger] spec_parse_value(s, starts[i]) == Some(
                (items[i], starts[i + 1]),
            ),
        spec_skip_ignorable(s, starts[items.len() as int]) < s.len(),
        s[spec_skip_ignorable(s, starts[items.len() as int])] == ')',
        0 <= k <= items.len(),
        0 <= starts[k] <= s.len(),
    ensures
        spec_parse_list(s, starts[k], items.take(k)) == Some(
            (SExprView::List(items), spec_skip_ignorable(s, starts[items.len() as int]) + 1),
        ),
    decreases items.len() - k,
{
    let q = starts[k];
    lemma_skip_ignorable_bounds(s, q);
    let p = spec_skip_ignorable(s, q);
    if k == items.len() {
        assert(items.take(k) =~= items);
    } else {
        assert(spec_parse_value(s, starts[k]) == Some((items[k], starts[k + 1])));
        lemma_value_ends_later(s, q);
        lemma_skip_ignorable_again(s, q);
        assert(spec_parse_value(s, p) == spec_parse_value(s, q));
        assert(items.take(k).push(items[k]) =~= items.take(k + 1));
        lemma_list_from(s, starts, items, k + 1);
    }
}

/// A list holds every value written in it, in the order written: when the
/// values from `starts[0]` on read as `items[0]`, `items[1]`, ..., each ending
/// where the next starts, and after the last only ignorable text stands before
/// a `)`, the rest of the list read from `starts[0]` is the list of exactly
/// those items, ending just past that `)`. With
/// [`law_translate_is_structural`], `(or e1 ... en)` asks the server for one
/// condition per child.
pub proof fn law_a_list_holds_every_item(s: Seq<char>, starts: Seq<int>, items: Seq<SExprView>)
    requires
        starts.len() == items.len() + 1,
        0 <= starts[0] <= s.len(),
        forall|i: int|
            0 <= i < items.len() ==> #[trigger] spec_parse_value(s, starts[i]) == Some(
                (items[i], starts[i + 1]),
            ),
        spec_skip_ignorable(s, starts[items.len() as int]) < s.len(),
        s[spec_skip_ignorable(s, starts[items.len() as int])] == ')',
    ensures
        spec_parse_list(s, starts[0], Seq::empty()) == Some(
            (SExprView::List(items), spec_skip_ignorable(s, starts[items.len() as int]) + 1),
        ),
{
    assert(items.take(0) =~= Seq::<SExprView>::empty());
    lemma_list_from(s, starts, items, 0);
}

// ---------------------------------------------------------------------------
// the parser

fn skip_space_at(s: &[char], pos: usize) -> (r: usize)
    requires
        pos <= s.len(),
    ensures
        r as int == skip_space(s@, pos as int),
        pos <= r <= s.len(),
{
    let mut i = pos;
    while i < s.len() && white_space(s[i])
        invariant
            pos <= i <= s.len(),
            skip_space(s@, i as int) == skip_space(s@, pos as int),
        decreases s.len() - i,
    {
        i = i + 1;
    }
    i
}

fn line_end_at(s: &[char], pos: usize) -> (r: usize)
    requires
        pos <= s.len(),
    ensures
        r as int == line_end(s@, pos as int),
        pos <= r <= s.len(),
{
    let mut i = pos;
    while i < s.len()
        invariant
            pos <= i <= s.len(),
            line_end(s@, i as int) == line_end(s@, pos as int),
        decreases s.len() - i,
    {
        if s[i] == '\n' {
            return i + 1;
        }
        i = i + 1;
    }
    i
}

pub fn skip_ignorable(s: &[char], pos: usize) -> (r: usize)
    requires
        pos <= s.len(),
    ensures
        r as int == spec_skip_ignorable(s@, pos as int),
        pos <= r <= s.len(),
{
    let mut at = pos;
    loop
        invariant
            pos <= at <= s.len(),
            spec_skip_ignorable(s@, at as int) == spec_skip_ignorable(s@, pos as int),
        decreases s.len() - at,
    {
        let t = skip_space_at(s, at);
        if t < s.len() && s[t] == ';' {
            at = line_end_at(s, t + 1);
        } else {
            return t;
        }
    }
}

fn token_end_at(s: &[char], pos: usize) -> (r: usize)
    requires
        pos <= s.len(),
    ensures
        r as int == token_end(s@, pos as int),
        pos <= r <= s.len(),
{
    let mut i = pos;
    while i < s.len() && !(white_space(s[i]) || s[i] == '(' || s[i] == ')' || s[i] == '"' || s[i]
        == '\'')
        invariant
            pos <= i <= s.len(),
            token_end(s@, i as int) == token_end(s@, pos as int),
        decreases s.len() - i,
    {
        i = i + 1;
    }
    i
}

fn copy_range(s: &[char], from: usize, to: usize) -> (v: Vec<char>)
    requires
        from <= to <= s.len(),
    ensures
        v@ == s@.subrange(from as int, to as int),
{
    let mut v: Vec<char> = Vec::new();
    let mut i = from;
    while i < to
        invariant
            from <= i <= to,
            to <= s.len(),
            v@ == s@.subrange(from as int, i as int),
        decreases to - i,
    {
        v.push(s[i]);
        i = i + 1;
        assert(v@ =~= s@.subrange(from as int, i as int));
    }
    v
}

/// Parses a `"..."` or `'...'` string whose opening quote is just before
/// `pos`.
pub fn parse_string(s: &[char], pos: usize, quote: char) -> (res: Option<(SExpr, usize)>)
    requires
        pos <= s.len(),
    ensures
        parsed_view(res) == spec_parse_string(s@, pos as int, quote, Seq::empty()),
        res matches Some((_, r)) ==> pos < r <= s.len(),
{
    let mut read: Vec<char> = Vec::new();
    let mut i = pos;
    while i < s.len()
        invariant
            pos <= i <= s.len(),
            spec_parse_string(s@, i as int, quote, read@) == spec_parse_string(
                s@,
                pos as int,
                quote,
                Seq::empty(),
            ),
        decreases s.len() - i,
    {
        let c = s[i];
        if c == '\\' {
            if i + 1 < s.len() {
                read.push(s[i + 1]);
                i = i + 2;
            } else {
                return None;
            }
        } else if c == quote {
            return Some((SExpr::Str(read), i + 1));
        } else {
            read.push(c);
            i = i + 1;
        }
    }
    None
}

/// Parses one value off the characters at `pos`, returning it with the
/// position just past it.
pub fn parse_value(s: &[char], pos: usize) -> (res: Option<(SExpr, usize)>)
    requires
        pos <= s.len(),
    ensures
        parsed_view(res) == spec_parse_value(s@, pos as int),
        res matches Some((_, r)) ==> pos < r <= s.len(),
    decreases s.len() - pos, 0int,
{
    let p = skip_ignorable(s, pos);
    if p >= s.len() {
        return None;
    }
    let c = s[p];
    if c == '(' {
        parse_list(s, p + 1)
    } else if c == '"' || c == '\'' {
        parse_string(s, p + 1, c)
    } else if c == ')' {
        None
    } else {
        assert(token_end(s@, p as int) > p) by {
            lemma_skip_ignorable_stops(s@, pos as int);
            lemma_token_end_bounds(s@, p + 1);
        }
        Some(parse_token(s, p))
    }
}

/// Parses a bare token at `pos` — an identifier, a number, `#t` or `#f`:
/// the run of characters up to white space, a parenthesis or a quote —
/// returning it with the position just past it.
pub fn parse_token(s: &[char], pos: usize) -> (res: (SExpr, usize))
    requires
        pos <= s.len(),
    ensures
        sexpr_view(&res.0) == SExprView::Ident(s@.subrange(pos as int, token_end(s@, pos as int))),
        res.1 as int == token_end(s@, pos as int),
        pos <= res.1 <= s.len(),
{
    let end = token_end_at(s, pos);
    (SExpr::Ident(copy_range(s, pos, end)), end)
}

/// The text of a string node, or `None` for any other node.
pub fn as_str(e: &SExpr) -> (text: Option<&Vec<char>>)
    ensures
        match e {
            SExpr::Str(v) => text == Some(v),
            _ => text is None,
        },
{
    match e {
        SExpr::Str(v) => Some(v),
        _ => None,
    }
}

/// Parses the items of a list whose `(` is just before `pos`, up to and
/// including its `)`.
pub fn parse_list(s: &[char], pos: usize) -> (res: Option<(SExpr, usize)>)
    requires
        pos <= s.len(),
    ensures
        parsed_view(res) == spec_parse_list(s@, pos as int, Seq::empty()),
        res matches Some((_, r)) ==> pos < r <= s.len(),
    decreases s.len() - pos, 1int,
{
    let mut items: Vec<SExpr> = Vec::new();
    let mut at = pos;
    assert(sexprs_view(items@) =~= Seq::<SExprView>::empty());
    loop
        invariant
            pos <= at <= s.len(),
            spec_parse_list(s@, at as int, sexprs_view(items@)) == spec_parse_list(
                s@,
                pos as int,
                Seq::empty(),
            ),
        decreases s.len() - at,
    {
        let p = skip_ignorable(s, at);
        if p >= s.len() {
            return None;
        }
        if s[p] == ')' {
            proof {
                lemma_list_view(items);
            }
            return Some((SExpr::List(items), p + 1));
        }
        match parse_value(s, p) {
            Some((item, r)) => {
                let ghost before = items@;
                let ghost item_view = sexpr_view(&item);
                items.push(item);
                assert(sexprs_view(items@) =~= sexprs_view(before).push(item_view));
                at = r;
            },
            None => {
                return None;
            },
        }
    }
}

/// Whether everything from `pos` on is white space.
fn only_space_from(s: &[char], pos: usize) -> (r: bool)
    requires
        pos <= s.len(),
    ensures
        r == only_space_after(s@, pos as int),
{
    let mut i = pos;
    while i < s.len()
        invariant
            pos <= i <= s.len(),
            forall|j: int| pos <= j < i ==> is_white_space(#[trigger] s@[j]),
        decreases s.len() - i,
    {
        if !white_space(s[i]) {
            return false;
        }
        i = i + 1;
    }
    true
}

// ---------------------------------------------------------------------------
// the translator

fn header_contains(header: &[char], value: &[char]) -> (res: Option<Filter>)
    ensures
        option_filter_view(res) == spec_header_contains(header@, value@),
{
    let condition = if same_ignoring_ascii_case(header, "From") {
        EmailQueryFilter { from: Some(string_of(value)), ..EmailQueryFilter::default() }
    } else if same_ignoring_ascii_case(header, "To") {
        EmailQueryFilter { to: Some(string_of(value)), ..EmailQueryFilter::default() }
    } else if same_ignoring_ascii_case(header, "Cc") {
        EmailQueryFilter { cc: Some(string_of(value)), ..EmailQueryFilter::default() }
    } else if same_ignoring_ascii_case(header, "Bcc") {
        EmailQueryFilter { bcc: Some(string_of(value)), ..EmailQueryFilter::default() }
    } else if same_ignoring_ascii_case(header, "Subject") {
        EmailQueryFilter { subject: Some(string_of(value)), ..EmailQueryFilter::default() }
    } else if header.len() == 0 {
        return None;
    } else {
        EmailQueryFilter {
            header: Some((string_of(header), string_of(value))),
            ..EmailQueryFilter::default()
        }
    };
    Some(Filter::condition(condition))
}

proof fn lemma_translate_all_prefix_fails(items: Seq<SExprView>, k: int)
    requires
        0 <= k <= items.len(),
        spec_translate_all(items.subrange(0, k)) is None,
    ensures
        spec_translate_all(items) is None,
    decreases items.len(),
{
    if k < items.len() {
        assert(items.drop_last().subrange(0, k) =~= items.subrange(0, k));
        lemma_translate_all_prefix_fails(items.drop_last(), k);
    } else {
        assert(items.subrange(0, k) =~= items);
    }
}

/// Every item of `items` from the second on, translated.
fn translate_args(items: &Vec<SExpr>) -> (res: Option<Vec<Filter>>)
    requires
        items@.len() > 0,
    ensures
        match res {
            Some(v) => spec_translate_all(sexprs_view(items@).subrange(1, items@.len() as int))
                == Some(filters_view(v@)),
            None => spec_translate_all(sexprs_view(items@).subrange(1, items@.len() as int))
                is None,
        },
    decreases items, 0int,
{
    let ghost all = sexprs_view(items@);
    let ghost args = all.subrange(1, items@.len() as int);
    let mut conditions: Vec<Filter> = Vec::new();
    let mut i: usize = 1;
    assert(args.subrange(0, 0) =~= Seq::<SExprView>::empty());
    assert(filters_view(conditions@) =~= Seq::<FilterView>::empty());
    while i < items.len()
        invariant
            1 <= i <= items@.len(),
            all == sexprs_view(items@),
            args == all.subrange(1, items@.len() as int),
            spec_translate_all(args.subrange(0, i - 1)) == Some(filters_view(conditions@)),
        decreases items@.len() - i,
    {
        assert(decreases_to!(items => items@[i as int]));
        let translated = translate_bool(&items[i]);
        let ghost prefix = args.subrange(0, i as int);
        assert(prefix.drop_last() =~= args.subrange(0, i - 1));
        assert(prefix.last() == all[i as int]);
        match translated {
            Some(f) => {
                let ghost before = conditions@;
                let ghost fv = filter_view(&f);
                conditions.push(f);
                assert(filters_view(conditions@) =~= filters_view(before).push(fv));
            },
            None => {
                proof {
                    lemma_translate_all_prefix_fails(args, i as int);
                }
                return None;
            },
        }
        i = i + 1;
    }
    assert(args.subrange(0, i - 1) =~= args);
    Some(conditions)
}

/// Translates a boolean-valued node, or answers `None` when it has no exact
/// JMAP equivalent.
fn translate_bool(e: &SExpr) -> (res: Option<Filter>)
    ensures
        option_filter_view(res) == spec_translate_bool(sexpr_view(e)),
    decreases e, 1int,
{
    match e {
        SExpr::List(items) => {
            proof {
                lemma_list_view(*items);
            }
            let ghost all = sexprs_view(items@);
            if items.len() == 0 {
                return None;
            }
            let func = match &items[0] {
                SExpr::Ident(func) => func,
                _ => {
                    return None;
                },
            };
            assert(all[0] == SExprView::Ident(func@));
            if same_ignoring_ascii_case(func.as_slice(), "match-all") {
                if items.len() == 2 {
                    assert(decreases_to!(e => items@[1]));
                    translate_bool(&items[1])
                } else {
                    None
                }
            } else if same_ignoring_ascii_case(func.as_slice(), "and") {
                match translate_args(items) {
                    Some(v) => Some(Filter::and(v)),
                    None => None,
                }
            } else if same_ignoring_ascii_case(func.as_slice(), "or") {
                match translate_args(items) {
                    Some(v) => Some(Filter::or(v)),
                    None => None,
                }
            } else if same_ignoring_ascii_case(func.as_slice(), "not") {
                if items.len() == 2 {
                    assert(decreases_to!(e => items@[1]));
                    match translate_bool(&items[1]) {
                        Some(f) => {
                            let ghost fv = filter_view(&f);
                            let mut v: Vec<Filter> = Vec::new();
                            v.push(f);
                            assert(filters_view(v@) =~= seq![fv]);
                            Some(Filter::not(v))
                        },
                        None => None,
                    }
                } else {
                    None
                }
            } else if same_ignoring_ascii_case(func.as_slice(), "header-contains") {
                if items.len() == 3 {
                    match (as_str(&items[1]), as_str(&items[2])) {
                        (Some(header), Some(value)) => header_contains(
                            header.as_slice(),
                            value.as_slice(),
                        ),
                        _ => None,
                    }
                } else {
                    None
                }
            } else if same_ignoring_ascii_case(func.as_slice(), "body-contains") {
                if items.len() == 2 {
                    match as_str(&items[1]) {
                        Some(value) => Some(
                            Filter::condition(
                                EmailQueryFilter {
                                    body: Some(string_of(value.as_slice())),
                                    ..EmailQueryFilter::default()
                                },
                            ),
                        ),
                        _ => None,
                    }
                } else {
                    None
                }
            } else {
                None
            }
        },
        _ => None,
    }
}

/// Parses `expression` and translates it to a JMAP filter tree, or `None` if
/// the expression is malformed or uses anything without an exact JMAP
/// equivalent — in which case the caller searches locally instead.
pub fn translate(expression: &str) -> (res: Option<Filter>)
    ensures
        option_filter_view(res) == spec_translate(expression@),
{
    let s = chars_of(expression);
    match parse_value(s.as_slice(), 0) {
        Some((e, r)) => {
            if only_space_from(s.as_slice(), r) {
                translate_bool(&e)
            } else {
                None
            }
        },
        None => None,
    }
}

} // verus!
