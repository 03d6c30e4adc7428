//! The `Email/query` filter a search is asked of the server with — RFC 8621
//! §4.4.1's `FilterCondition`, to the extent this provider ever fills one in,
//! and RFC 8620 §5.5's `FilterOperator` tree around it.

use vstd::prelude::*;

verus! {

/// The "contains" conditions of an `Email/query` filter this provider uses.
///
/// Each field is a substring the matching messages must contain in that part
/// of the message; `header` is the generic two-element form, a header name and
/// a value to find in it.
#[derive(Debug, PartialEq, Eq)]
pub struct EmailQueryFilter {
    pub from: Option<String>,
    pub to: Option<String>,
    pub cc: Option<String>,
    pub bcc: Option<String>,
    pub subject: Option<String>,
    pub body: Option<String>,
    pub header: Option<(String, String)>,
}

/// An [`EmailQueryFilter`] as the strings it holds.
pub struct QueryView {
    pub from: Option<Seq<char>>,
    pub to: Option<Seq<char>>,
    pub cc: Option<Seq<char>>,
    pub bcc: Option<Seq<char>>,
    pub subject: Option<Seq<char>>,
    pub body: Option<Seq<char>>,
    pub header: Option<(Seq<char>, Seq<char>)>,
}

pub open spec fn text_view(s: Option<String>) -> Option<Seq<char>> {
    match s {
        Some(s) => Some(s@),
        None => None,
    }
}

impl View for EmailQueryFilter {
    type V = QueryView;

    open spec fn view(&self) -> QueryView {
        QueryView {
            from: text_view(self.from),
            to: text_view(self.to),
            cc: text_view(self.cc),
            bcc: text_view(self.bcc),
            subject: text_view(self.subject),
            body: text_view(self.body),
            header: match self.header {
                Some((name, value)) => Some((name@, value@)),
                None => None,
            },
        }
    }
}

/// The condition with nothing in it.
pub open spec fn empty_query() -> QueryView {
    QueryView {
        from: None,
        to: None,
        cc: None,
        bcc: None,
        subject: None,
        body: None,
        header: None,
    }
}

impl Default for EmailQueryFilter {
    fn default() -> (filter: Self)
        ensures
            filter@ == empty_query(),
    {
        EmailQueryFilter {
            from: None,
            to: None,
            cc: None,
            bcc: None,
            subject: None,
            body: None,
            header: None,
        }
    }
}

impl EmailQueryFilter {
    /// The same condition, also asking for `value` in the `From` header.
    pub fn from(self, value: &str) -> (filter: Self)
        ensures
            filter@ == (QueryView { from: Some(value@), ..self@ }),
    {
        EmailQueryFilter { from: Some(value.to_owned()), ..self }
    }

    /// The same condition, also asking for `value` in the `To` header.
    pub fn to(self, value: &str) -> (filter: Self)
        ensures
            filter@ == (QueryView { to: Some(value@), ..self@ }),
    {
        EmailQueryFilter { to: Some(value.to_owned()), ..self }
    }

    /// The same condition, also asking for `value` in the `Cc` header.
    pub fn cc(self, value: &str) -> (filter: Self)
        ensures
            filter@ == (QueryView { cc: Some(value@), ..self@ }),
    {
        EmailQueryFilter { cc: Some(value.to_owned()), ..self }
    }

    /// The same condition, also asking for `value` in the `Bcc` header.
    pub fn bcc(self, value: &str) -> (filter: Self)
        ensures
            filter@ == (QueryView { bcc: Some(value@), ..self@ }),
    {
        EmailQueryFilter { bcc: Some(value.to_owned()), ..self }
    }

    /// The same condition, also asking for `value` in the subject.
    pub fn subject(self, value: &str) -> (filter: Self)
        ensures
            filter@ == (QueryView { subject: Some(value@), ..self@ }),
    {
        EmailQueryFilter { subject: Some(value.to_owned()), ..self }
    }

    /// The same condition, also asking for `value` in the body.
    pub fn body(self, value: &str) -> (filter: Self)
        ensures
            filter@ == (QueryView { body: Some(value@), ..self@ }),
    {
        EmailQueryFilter { body: Some(value.to_owned()), ..self }
    }

    /// The same condition, also asking for `value` in the header `name`.
    pub fn header(self, name: &str, value: &str) -> (filter: Self)
        ensures
            filter@ == (QueryView { header: Some((name@, value@)), ..self@ }),
    {
        EmailQueryFilter { header: Some((name.to_owned(), value.to_owned())), ..self }
    }
}

/// How an operator node combines its conditions.
#[derive(Debug, Clone, Copy, PartialEq, Eq)]
pub enum FilterOperator {
    And,
    Or,
    Not,
}

/// A filter: one condition, or an operator over further filters.
#[derive(Debug, PartialEq, Eq)]
pub enum Filter {
    Condition(EmailQueryFilter),
    Operator(FilterOperator, Vec<Filter>),
}

/// A [`Filter`] as plain values.
pub enum FilterView {
    Condition(QueryView),
    Operator(FilterOperator, Seq<FilterView>),
}

/// The value a [`Filter`] stands for.
pub open spec fn filter_view(f: &Filter) -> FilterView
    decreases f,
{
    match f {
        Filter::Condition(q) => FilterView::Condition(q@),
        Filter::Operator(op, v) => FilterView::Operator(
            *op,
            Seq::new(
                v@.len(),
                |i: int|
                    if 0 <= i < v@.len() {
                        proof {
                            assert(decreases_to!(v => v@));
                            assert(decreases_to!(v@ => v@[i]));
                        }
                        filter_view(&v@[i])
                    } else {
                        FilterView::Condition(empty_query())
                    },
            ),
        ),
    }
}

/// The value a list of filters stands for.
pub open spec fn filters_view(v: Seq<Filter>) -> Seq<FilterView> {
    Seq::new(v.len(), |i: int| filter_view(&v[i]))
}

/// The value an optional filter stands for.
pub open spec fn option_filter_view(f: Option<Filter>) -> Option<FilterView> {
    match f {
        Some(f) => Some(filter_view(&f)),
        None => None,
    }
}

impl View for Filter {
    type V = FilterView;

    open spec fn view(&self) -> FilterView {
        filter_view(self)
    }
}

/// An operator node's view is its operator over its children's views.
pub proof fn lemma_operator_view(op: FilterOperator, v: Vec<Filter>)
    ensures
        filter_view(&Filter::Operator(op, v)) == FilterView::Operator(op, filters_view(v@)),
{
    assert(filter_view(&Filter::Operator(op, v))->Operator_1 =~= filters_view(v@));
}

impl Filter {
    /// One condition.
    pub fn condition(condition: EmailQueryFilter) -> (f: Filter)
        ensures
            f@ == FilterView::Condition(condition@),
    {
        Filter::Condition(condition)
    }

    /// Every one of `conditions`.
    pub fn and(conditions: Vec<Filter>) -> (f: Filter)
        ensures
            f@ == FilterView::Operator(FilterOperator::And, filters_view(conditions@)),
    {
        proof {
            lemma_operator_view(FilterOperator::And, conditions);
        }
        Filter::Operator(FilterOperator::And, conditions)
    }

    /// At least one of `conditions`.
    pub fn or(conditions: Vec<Filter>) -> (f: Filter)
        ensures
            f@ == FilterView::Operator(FilterOperator::Or, filters_view(conditions@)),
    {
        proof {
            lemma_operator_view(FilterOperator::Or, conditions);
        }
        Filter::Operator(FilterOperator::Or, conditions)
    }

    /// None of `conditions`.
    pub fn not(conditions: Vec<Filter>) -> (f: Filter)
        ensures
            f@ == FilterView::Operator(FilterOperator::Not, filters_view(conditions@)),
    {
        proof {
            lemma_operator_view(FilterOperator::Not, conditions);
        }
        Filter::Operator(FilterOperator::Not, conditions)
    }
}

} // verus!
