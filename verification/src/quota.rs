//! How full the account is, as Evolution's folder-properties dialog shows it.
//!
//! RFC 9425 scopes a `Quota` to the account rather than to a mailbox, so every
//! folder of a JMAP account answers from the same list. The list holds every
//! quota the server tracks — Contacts and Calendars among them — and §2.3
//! gives the rule for which describe Mail: one whose `dataTypes` names
//! `"Mail"`, and one whose `dataTypes` is empty, because an empty list means
//! every data type the account has, not none of them.

use vstd::prelude::*;

use crate::connect::StoreError;
use crate::text::same_text;

verus! {

/// The data type RFC 9425 names mail usage with.
pub const MAIL: &'static str = "Mail";

/// One RFC 9425 `Quota` object.
#[derive(Debug, PartialEq, Eq)]
pub struct Quota {
    pub id: String,
    pub name: String,
    pub resource_type: String,
    pub used: u64,
    pub limit: u64,
    pub scope: String,
    /// The data types the quota counts; empty means every one of them.
    pub data_types: Vec<String>,
}

/// One row of the usage Camel shows: a quota's name, what is used of it, and
/// its limit.
#[derive(Debug, PartialEq, Eq)]
pub struct QuotaRow {
    pub name: String,
    pub used: u64,
    pub total: u64,
}

impl Quota {
    /// A quota with the given members, in RFC 9425's order.
    pub fn new(
        id: &str,
        name: &str,
        resource_type: &str,
        used: u64,
        limit: u64,
        scope: &str,
        data_types: Vec<String>,
    ) -> (q: Quota)
        ensures
            q.id@ == id@,
            q.name@ == name@,
            q.resource_type@ == resource_type@,
            q.used == used,
            q.limit == limit,
            q.scope@ == scope@,
            q.data_types == data_types,
    {
        Quota {
            id: id.to_owned(),
            name: name.to_owned(),
            resource_type: resource_type.to_owned(),
            used,
            limit,
            scope: scope.to_owned(),
            data_types,
        }
    }
}

/// Whether a quota counting `data_types` counts mail.
pub open spec fn spec_applies_to_mail(data_types: Seq<String>) -> bool {
    data_types.len() == 0 || exists|i: int|
        0 <= i < data_types.len() && (#[trigger] data_types[i])@ == MAIL@
}

/// Whether `quota` describes Mail usage, per RFC 9425 §2.3: an absent or
/// empty `dataTypes` applies to every data type the account has, so it is a
/// match here as much as one that names `"Mail"` is.
pub fn applies_to_mail(quota: &Quota) -> (r: bool)
    ensures
        r == spec_applies_to_mail(quota.data_types@),
{
    let n = quota.data_types.len();
    if n == 0 {
        return true;
    }
    let mut i: usize = 0;
    while i < n
        invariant
            n == quota.data_types@.len(),
            i <= n,
            forall|j: int| 0 <= j < i ==> (#[trigger] quota.data_types@[j])@ != MAIL@,
        decreases n - i,
    {
        if same_text(quota.data_types[i].as_str(), MAIL) {
            return true;
        }
        i = i + 1;
    }
    false
}

/// The row `q` is shown as.
pub open spec fn row_of(q: Quota) -> QuotaRow {
    QuotaRow { name: q.name, used: q.used, total: q.limit }
}

/// One row per quota of `qs`, in order.
pub open spec fn rows_of(qs: Seq<Quota>) -> Seq<QuotaRow> {
    qs.map_values(|q: Quota| row_of(q))
}

/// One row per quota of `qs` that applies to mail, in order.
pub open spec fn mail_rows(qs: Seq<Quota>) -> Seq<QuotaRow>
    decreases qs.len(),
{
    if qs.len() == 0 {
        Seq::empty()
    } else {
        let rest = mail_rows(qs.drop_last());
        if spec_applies_to_mail(qs.last().data_types@) {
            rest.push(row_of(qs.last()))
        } else {
            rest
        }
    }
}

/// The row `q` is shown as.
fn quota_row(q: &Quota) -> (r: QuotaRow)
    ensures
        r == row_of(*q),
{
    QuotaRow { name: q.name.clone(), used: q.used, total: q.limit }
}

/// The rows Camel's usage list is built from, one per quota in order; `None`
/// for no quotas rather than a list of nothing, because an empty answer has
/// to be told apart from a failure.
pub fn chain(quotas: &[Quota]) -> (rows: Option<Vec<QuotaRow>>)
    ensures
        quotas@.len() == 0 ==> rows is None,
        quotas@.len() > 0 ==> (rows matches Some(v) && v@ == rows_of(quotas@)),
{
    if quotas.len() == 0 {
        return None;
    }
    let mut rows: Vec<QuotaRow> = Vec::new();
    let mut i: usize = 0;
    while i < quotas.len()
        invariant
            i <= quotas@.len(),
            rows@ =~= rows_of(quotas@.take(i as int)),
        decreases quotas@.len() - i,
    {
        rows.push(quota_row(&quotas[i]));
        i = i + 1;
    }
    proof {
        assert(quotas@.take(quotas@.len() as int) =~= quotas@);
    }
    Some(rows)
}

/// What the folder-properties dialog is answered with, out of every quota the
/// account has: a row for each one that applies to mail, in order, or
/// [`StoreError::NoQuota`] when none does — nothing to report, with the error
/// set, as Camel's contract for the call asks.
pub fn quota_info(quotas: &[Quota]) -> (r: Result<Vec<QuotaRow>, StoreError>)
    ensures
        mail_rows(quotas@).len() == 0 ==> r == Err::<Vec<QuotaRow>, StoreError>(
            StoreError::NoQuota,
        ),
        mail_rows(quotas@).len() > 0 ==> (r matches Ok(v) && v@ == mail_rows(quotas@)),
{
    let mut rows: Vec<QuotaRow> = Vec::new();
    let mut i: usize = 0;
    while i < quotas.len()
        invariant
            i <= quotas@.len(),
            rows@ =~= mail_rows(quotas@.take(i as int)),
        decreases quotas@.len() - i,
    {
        proof {
            assert(quotas@.take(i + 1).drop_last() =~= quotas@.take(i as int));
        }
        if applies_to_mail(&quotas[i]) {
            rows.push(quota_row(&quotas[i]));
        }
        i = i + 1;
    }
    proof {
        assert(quotas@.take(quotas@.len() as int) =~= quotas@);
    }
    if rows.len() == 0 {
        Err(StoreError::NoQuota)
    } else {
        Ok(rows)
    }
}

/// Every row the dialog shows is a quota that applies to mail, and none of
/// the account's quotas that applies to mail is left out: the rows are the
/// mail quotas' own, in the account's order.
pub proof fn law_rows_are_the_mail_quotas(qs: Seq<Quota>)
    ensures
        mail_rows(qs).len() <= qs.len(),
        (forall|i: int| 0 <= i < qs.len() ==> spec_applies_to_mail(#[trigger] qs[i].data_types@))
            ==> mail_rows(qs) == rows_of(qs),
        (forall|i: int| 0 <= i < qs.len() ==> !spec_applies_to_mail(#[trigger] qs[i].data_types@))
            ==> mail_rows(qs).len() == 0,
    decreases qs.len(),
{
    if qs.len() > 0 {
        let init = qs.drop_last();
        assert forall|i: int| 0 <= i < init.len() implies #[trigger] init[i] == qs[i] by {}
        law_rows_are_the_mail_quotas(init);
        if forall|i: int| 0 <= i < qs.len() ==> spec_applies_to_mail(#[trigger] qs[i].data_types@) {
            assert(spec_applies_to_mail(qs[qs.len() - 1].data_types@));
            assert(rows_of(qs) =~= rows_of(init).push(row_of(qs.last())));
        }
        if forall|i: int| 0 <= i < qs.len() ==> !spec_applies_to_mail(
            #[trigger] qs[i].data_types@,
        ) {
            assert(!spec_applies_to_mail(qs[qs.len() - 1].data_types@));
        }
    }
}

/// Where `"Mail"` stands among a quota's data types does not matter: a quota
/// naming it anywhere applies to mail, the order the types are listed in
/// changes nothing, naming more types never takes mail out of a list that
/// named it, and a quota naming types, none of them mail, does not apply.
pub proof fn law_mail_counts_wherever_it_is_named(
    a: Seq<String>,
    b: Seq<String>,
    mail: String,
)
    requires
        mail@ == MAIL@,
    ensures
        spec_applies_to_mail(a + seq![mail] + b),
        spec_applies_to_mail(a + b) == spec_applies_to_mail(b + a),
        a.len() > 0 && spec_applies_to_mail(a) ==> spec_applies_to_mail(a + b),
        a.len() > 0 && (forall|i: int| 0 <= i < a.len() ==> (#[trigger] a[i])@ != MAIL@)
            ==> !spec_applies_to_mail(a),
{
    let named = a + seq![mail] + b;
    assert(named[a.len() as int] == mail);
    let ab = a + b;
    let ba = b + a;
    if spec_applies_to_mail(ab) && ab.len() > 0 {
        let i = choose|i: int| 0 <= i < ab.len() && (#[trigger] ab[i])@ == MAIL@;
        if i < a.len() {
            assert(ba[b.len() + i] == ab[i]);
        } else {
            assert(ba[i - a.len()] == ab[i]);
        }
    }
    if spec_applies_to_mail(ba) && ba.len() > 0 {
        let i = choose|i: int| 0 <= i < ba.len() && (#[trigger] ba[i])@ == MAIL@;
        if i < b.len() {
            assert(ab[a.len() + i] == ba[i]);
        } else {
            assert(ab[i - b.len()] == ba[i]);
        }
    }
    if a.len() > 0 && spec_applies_to_mail(a) {
        let i = choose|i: int| 0 <= i < a.len() && (#[trigger] a[i])@ == MAIL@;
        assert(ab[i] == a[i]);
    }
}

} // verus!
