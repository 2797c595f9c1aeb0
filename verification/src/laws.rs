//! Laws that relate the operations of the court store to one another: what a
//! listing shows after an addition, how ownership scopes deletion and update,
//! how pending orders govern deletion, and which invariants the operations
//! preserve.
//!
//! Each law is stated over the outcome predicates that the operations of
//! `CourtStore` promise in their contracts, so it holds of any sequence of
//! calls on a store.

use vstd::prelude::*;

use crate::court::Court;
use crate::court::CourtView;
use crate::court::Order;
use crate::error::CourtError;
use crate::court::add_outcome;
use crate::court::delete_outcome;
use crate::court::update_outcome;
use crate::court::court_view;
use crate::court::courts_of;
use crate::court::has_court;
use crate::court::has_named_court;
use crate::court::has_pending_order;
use crate::court::ids_unique;
use crate::court::names_unique;
use crate::court::other_court_named;

verus! {

/// How many courts of `s` carry the identifier `court_id`.
pub open spec fn count_with_id(s: Seq<CourtView>, court_id: u64) -> nat
    decreases s.len(),
{
    if s.len() == 0 {
        0
    } else {
        count_with_id(s.drop_last(), court_id) + if s.last().court_id == court_id {
            1nat
        } else {
            0nat
        }
    }
}

/// A listing never shows an identifier that no court of the store carries.
proof fn lemma_count_courts_of_absent(s: Seq<CourtView>, admin_id: u64, court_id: u64)
    requires
        forall|k: int| 0 <= k < s.len() ==> s[k].court_id != court_id,
    ensures
        count_with_id(courts_of(s, admin_id), court_id) == 0,
    decreases s.len(),
{
    if s.len() > 0 {
        lemma_count_courts_of_absent(s.drop_last(), admin_id, court_id);
        if s.last().admin_id == admin_id {
            let x = courts_of(s.drop_last(), admin_id);
            assert(x.push(s.last()).drop_last() =~= x);
        }
    }
}

/// A listing is sound: every court it shows is a court of the store, owned
/// by the administrator the listing was asked for.
pub proof fn lemma_listing_sound(s: Seq<CourtView>, admin_id: u64)
    ensures
        forall|k: int|
            0 <= k < courts_of(s, admin_id).len() ==> (#[trigger] courts_of(s, admin_id)[k]).admin_id
                == admin_id && s.contains(courts_of(s, admin_id)[k]),
    decreases s.len(),
{
    if s.len() > 0 {
        let prefix = s.drop_last();
        lemma_listing_sound(prefix, admin_id);
        assert forall|k: int|
            0 <= k < courts_of(s, admin_id).len() implies (#[trigger] courts_of(s, admin_id)[k]).admin_id
            == admin_id && s.contains(courts_of(s, admin_id)[k]) by {
            let x = courts_of(prefix, admin_id);
            if k < x.len() {
                assert(courts_of(s, admin_id)[k] == x[k]);
                let j = choose|j: int| 0 <= j < prefix.len() && prefix[j] == x[k];
                assert(s[j] == x[k]);
            } else {
                assert(courts_of(s, admin_id)[k] == s.last());
                assert(s[s.len() - 1] == s.last());
            }
        }
    }
}

/// A listing is complete: every court of the store owned by the
/// administrator appears in it.
pub proof fn lemma_listing_complete(s: Seq<CourtView>, admin_id: u64, k: int)
    requires
        0 <= k < s.len(),
        s[k].admin_id == admin_id,
    ensures
        courts_of(s, admin_id).contains(s[k]),
    decreases s.len(),
{
    let x = courts_of(s.drop_last(), admin_id);
    if k == s.len() - 1 {
        assert(courts_of(s, admin_id)[x.len() as int] == s.last());
    } else {
        lemma_listing_complete(s.drop_last(), admin_id, k);
        let j = choose|j: int| 0 <= j < x.len() && x[j] == s.drop_last()[k];
        assert(courts_of(s, admin_id)[j] == s[k]);
    }
}

/// Adding a court and then listing the administrator's courts shows the new
/// court, and shows its identifier exactly once.
pub proof fn lemma_added_court_listed_once(
    pre: Seq<CourtView>,
    post: Seq<CourtView>,
    admin_id: u64,
    name: Seq<char>,
    location: Seq<char>,
    label: Seq<char>,
    price_per_hour: u64,
    c: Court,
)
    requires
        add_outcome(pre, post, admin_id, name, location, label, price_per_hour, Ok(c)),
    ensures
        courts_of(post, admin_id).contains(c@),
        count_with_id(courts_of(post, admin_id), c@.court_id) == 1,
{
    let cv = c@;
    assert(post.drop_last() =~= pre);
    let x = courts_of(pre, admin_id);
    assert(courts_of(post, admin_id) == x.push(cv));
    assert(x.push(cv)[x.len() as int] == cv);
    assert(x.push(cv).drop_last() =~= x);
    assert(forall|k: int| 0 <= k < pre.len() ==> pre[k].court_id != cv.court_id);
    lemma_count_courts_of_absent(pre, admin_id, cv.court_id);
}

/// Adding a second court of the same name under the same administrator fails
/// with the duplicate-name conflict and leaves the store unchanged.
pub proof fn lemma_duplicate_add_conflicts(
    pre: Seq<CourtView>,
    mid: Seq<CourtView>,
    post: Seq<CourtView>,
    admin_id: u64,
    name: Seq<char>,
    location1: Seq<char>,
    label1: Seq<char>,
    price1: u64,
    c: Court,
    location2: Seq<char>,
    label2: Seq<char>,
    price2: u64,
    r2: Result<Court, CourtError>,
)
    requires
        add_outcome(pre, mid, admin_id, name, location1, label1, price1, Ok(c)),
        add_outcome(mid, post, admin_id, name, location2, label2, price2, r2),
    ensures
        r2 matches Err(e) && e is DuplicateName,
        post == mid,
{
    assert(mid[mid.len() - 1] == c@);
    assert(has_named_court(mid, admin_id, name));
}

/// Adding courts of the same name under two different administrators
/// succeeds for both.
pub proof fn lemma_distinct_admins_both_add(
    pre: Seq<CourtView>,
    mid: Seq<CourtView>,
    post: Seq<CourtView>,
    admin_a: u64,
    admin_b: u64,
    name: Seq<char>,
    location1: Seq<char>,
    label1: Seq<char>,
    price1: u64,
    c: Court,
    location2: Seq<char>,
    label2: Seq<char>,
    price2: u64,
    r2: Result<Court, CourtError>,
)
    requires
        admin_a != admin_b,
        !has_named_court(pre, admin_b, name),
        add_outcome(pre, mid, admin_a, name, location1, label1, price1, Ok(c)),
        add_outcome(mid, post, admin_b, name, location2, label2, price2, r2),
    ensures
        r2 is Ok,
{
    assert(!has_named_court(mid, admin_b, name)) by {
        assert forall|i: int|
            0 <= i < mid.len() implies !(mid[i].admin_id == admin_b && mid[i].court_name
            == name) by {
            if i < pre.len() {
                assert(mid[i] == pre[i]);
                if pre[i].admin_id == admin_b && pre[i].court_name == name {
                    assert(has_named_court(pre, admin_b, name));
                }
            } else {
                assert(mid[i] == c@);
            }
        }
    }
}

/// An order that ends at the given instant or later blocks the deletion of
/// its court, whoever asks, and leaves the store unchanged.
pub proof fn lemma_delete_blocked_by_pending_order(
    pre: Seq<CourtView>,
    post: Seq<CourtView>,
    orders: Seq<Order>,
    admin_id: u64,
    court_id: u64,
    now: i64,
    j: int,
    r: Result<(), CourtError>,
)
    requires
        0 <= j < orders.len(),
        orders[j].court_id == court_id,
        orders[j].end_time >= now,
        delete_outcome(pre, post, orders, admin_id, court_id, now, r),
    ensures
        r matches Err(e) && e is PendingOrders,
        post == pre,
{
    assert(has_pending_order(orders, court_id, now));
}

/// Once every order of the court has ended before the given instant,
/// deleting a court the administrator owns succeeds.
pub proof fn lemma_delete_after_orders_passed(
    pre: Seq<CourtView>,
    post: Seq<CourtView>,
    orders: Seq<Order>,
    admin_id: u64,
    court_id: u64,
    now: i64,
    r: Result<(), CourtError>,
)
    requires
        forall|j: int|
            0 <= j < orders.len() && orders[j].court_id == court_id ==> orders[j].end_time
                < now,
        has_court(pre, admin_id, court_id),
        delete_outcome(pre, post, orders, admin_id, court_id, now, r),
    ensures
        r is Ok,
{
    assert(!has_pending_order(orders, court_id, now));
}

/// Deletion is scoped to the owner: an administrator who does not own the
/// court is told `NotFound`, and the store keeps the court.
pub proof fn lemma_delete_ownership_scoped(
    pre: Seq<CourtView>,
    post: Seq<CourtView>,
    orders: Seq<Order>,
    owner: u64,
    caller: u64,
    court_id: u64,
    now: i64,
    r: Result<(), CourtError>,
)
    requires
        ids_unique(pre),
        owner != caller,
        has_court(pre, owner, court_id),
        !has_pending_order(orders, court_id, now),
        delete_outcome(pre, post, orders, caller, court_id, now, r),
    ensures
        r matches Err(e) && e is NotFound,
        post == pre,
{
    lemma_one_owner(pre, owner, caller, court_id);
}

/// Update is scoped to the owner in the same way: an administrator who does
/// not own the court is told `NotFound`, and the court keeps its fields.
pub proof fn lemma_update_ownership_scoped(
    pre: Seq<CourtView>,
    post: Seq<CourtView>,
    owner: u64,
    caller: u64,
    court_id: u64,
    name: Seq<char>,
    location: Seq<char>,
    label: Seq<char>,
    price_per_hour: u64,
    r: Result<Court, CourtError>,
)
    requires
        ids_unique(pre),
        owner != caller,
        has_court(pre, owner, court_id),
        update_outcome(pre, post, caller, court_id, name, location, label, price_per_hour, r),
    ensures
        r matches Err(e) && e is NotFound,
        post == pre,
{
    lemma_one_owner(pre, owner, caller, court_id);
}

/// While identifiers are unique, a court identifier cannot be owned by two
/// administrators at once.
proof fn lemma_one_owner(pre: Seq<CourtView>, owner: u64, caller: u64, court_id: u64)
    requires
        ids_unique(pre),
        owner != caller,
        has_court(pre, owner, court_id),
    ensures
        !has_court(pre, caller, court_id),
{
    if has_court(pre, caller, court_id) {
        let i = choose|i: int|
            0 <= i < pre.len() && pre[i].admin_id == caller && pre[i].court_id == court_id;
        let k = choose|k: int|
            0 <= k < pre.len() && pre[k].admin_id == owner && pre[k].court_id == court_id;
        assert(i != k);
        assert(pre[i].court_id != pre[k].court_id);
    }
}

/// A successful update replaces every mutable field: afterwards the one
/// court of the store that carries the identifier reads exactly the new
/// name, location, label and price, under the same owner.
pub proof fn lemma_update_replaces_fields(
    pre: Seq<CourtView>,
    post: Seq<CourtView>,
    admin_id: u64,
    court_id: u64,
    name: Seq<char>,
    location: Seq<char>,
    label: Seq<char>,
    price_per_hour: u64,
    c: Court,
)
    requires
        ids_unique(pre),
        update_outcome(pre, post, admin_id, court_id, name, location, label, price_per_hour, Ok(c)),
    ensures
        c@ == court_view(court_id, admin_id, name, location, label, price_per_hour),
        has_court(post, admin_id, court_id),
        forall|k: int|
            0 <= k < post.len() && post[k].court_id == court_id ==> post[k] == (court_view(
                court_id,
                admin_id,
                name,
                location,
                label,
                price_per_hour,
            )),
{
    let v = court_view(court_id, admin_id, name, location, label, price_per_hour);
    let i = choose|i: int|
        0 <= i < pre.len() && pre[i].admin_id == admin_id && pre[i].court_id == court_id
            && post == pre.update(i, v);
    assert(post[i] == v);
    assert(has_court(post, admin_id, court_id));
    assert forall|k: int|
        0 <= k < post.len() && post[k].court_id == court_id implies post[k] == v by {
        if k != i {
            assert(post[k] == pre[k]);
            assert(pre[k].court_id != pre[i].court_id);
        }
    }
}

/// Adding preserves the invariant that no administrator has two courts of
/// one name: the store refuses exactly the addition that would break it.
pub proof fn lemma_add_preserves_unique_names(
    pre: Seq<CourtView>,
    post: Seq<CourtView>,
    admin_id: u64,
    name: Seq<char>,
    location: Seq<char>,
    label: Seq<char>,
    price_per_hour: u64,
    r: Result<Court, CourtError>,
)
    requires
        names_unique(pre),
        add_outcome(pre, post, admin_id, name, location, label, price_per_hour, r),
    ensures
        names_unique(post),
{
    if !has_named_court(pre, admin_id, name) {
        let cv = r->Ok_0@;
        assert forall|a: int, b: int|
            0 <= a < post.len() && 0 <= b < post.len() && a != b implies !(post[a].admin_id
            == post[b].admin_id && post[a].court_name == post[b].court_name) by {
            if a == pre.len() && 0 <= b < pre.len() {
                if pre[b].admin_id == admin_id && pre[b].court_name == name {
                    assert(has_named_court(pre, admin_id, name));
                }
            } else if b == pre.len() && 0 <= a < pre.len() {
                if pre[a].admin_id == admin_id && pre[a].court_name == name {
                    assert(has_named_court(pre, admin_id, name));
                }
            }
        }
    }
}

/// Updating preserves that invariant too: the store refuses exactly the
/// rename that would give the administrator a second court of one name.
pub proof fn lemma_update_preserves_unique_names(
    pre: Seq<CourtView>,
    post: Seq<CourtView>,
    admin_id: u64,
    court_id: u64,
    name: Seq<char>,
    location: Seq<char>,
    label: Seq<char>,
    price_per_hour: u64,
    r: Result<Court, CourtError>,
)
    requires
        ids_unique(pre),
        names_unique(pre),
        update_outcome(pre, post, admin_id, court_id, name, location, label, price_per_hour, r),
    ensures
        names_unique(post),
{
    if has_court(pre, admin_id, court_id) && !other_court_named(pre, admin_id, court_id, name) {
        let v = court_view(court_id, admin_id, name, location, label, price_per_hour);
        let i = choose|i: int|
            0 <= i < pre.len() && pre[i].admin_id == admin_id && pre[i].court_id == court_id
                && post == pre.update(i, v);
        assert forall|a: int, b: int|
            0 <= a < post.len() && 0 <= b < post.len() && a != b implies !(post[a].admin_id
            == post[b].admin_id && post[a].court_name == post[b].court_name) by {
            if a == i {
                if post[b].admin_id == admin_id && post[b].court_name == name {
                    assert(pre[b].court_id != pre[i].court_id);
                    assert(other_court_named(pre, admin_id, court_id, name));
                }
            } else if b == i {
                if post[a].admin_id == admin_id && post[a].court_name == name {
                    assert(pre[a].court_id != pre[i].court_id);
                    assert(other_court_named(pre, admin_id, court_id, name));
                }
            } else {
                assert(post[a] == pre[a] && post[b] == pre[b]);
            }
        }
    }
}

} // verus!

