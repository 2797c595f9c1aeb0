//! The court store: the set of court records the service manages, with the
//! four operations an administrator may perform on it.

use vstd::prelude::*;

use crate::error::CourtError;

verus! {

/// One bookable court, owned by exactly one administrator.
pub struct Court {
    /// Store-assigned identifier, unique across the store.
    pub court_id: u64,
    /// The owning administrator. Immutable once the court is created.
    pub admin_id: u64,
    /// Display name, unique per administrator.
    pub court_name: String,
    pub location: String,
    pub label: String,
    /// Hourly price in the smallest currency unit.
    pub price_per_hour: u64,
}

/// The mathematical image of a `Court`: the same fields, with the strings
/// read as character sequences.
pub ghost struct CourtView {
    pub court_id: u64,
    pub admin_id: u64,
    pub court_name: Seq<char>,
    pub location: Seq<char>,
    pub label: Seq<char>,
    pub price_per_hour: u64,
}

impl View for Court {
    type V = CourtView;

    open spec fn view(&self) -> CourtView {
        CourtView {
            court_id: self.court_id,
            admin_id: self.admin_id,
            court_name: self.court_name@,
            location: self.location@,
            label: self.label@,
            price_per_hour: self.price_per_hour,
        }
    }
}

impl Court {
    /// A copy of this court, field for field.
    pub fn duplicate(&self) -> (r: Court)
        ensures
            r@ == self@,
    {
        Court {
            court_id: self.court_id,
            admin_id: self.admin_id,
            court_name: self.court_name.clone(),
            location: self.location.clone(),
            label: self.label.clone(),
            price_per_hour: self.price_per_hour,
        }
    }
}

/// A booking record, read-only from this component's perspective: it is
/// consulted only to refuse the deletion of a court that still has an order
/// whose end time has not passed. The end time is in seconds since the Unix
/// epoch, as the rest of the booking system reports it. Every order carries
/// an end time: open-ended bookings without one are outside this component's
/// scope, so no such order can block a deletion forever.
#[derive(PartialEq, Eq, Structural, Clone, Copy, Debug)]
pub struct Order {
    pub court_id: u64,
    pub end_time: i64,
}

/// The views of a sequence of courts, element for element.
pub open spec fn views_of(courts: Seq<Court>) -> Seq<CourtView> {
    courts.map_values(|c: Court| c@)
}

/// The court view with the given fields.
pub open spec fn court_view(
    court_id: u64,
    admin_id: u64,
    court_name: Seq<char>,
    location: Seq<char>,
    label: Seq<char>,
    price_per_hour: u64,
) -> CourtView {
    CourtView { court_id, admin_id, court_name, location, label, price_per_hour }
}

/// No two courts of `s` share an identifier.
pub open spec fn ids_unique(s: Seq<CourtView>) -> bool {
    forall|i: int, j: int|
        0 <= i < s.len() && 0 <= j < s.len() && i != j ==> s[i].court_id != s[j].court_id
}

/// No two courts of `s` share both owner and name.
pub open spec fn names_unique(s: Seq<CourtView>) -> bool {
    forall|i: int, j: int|
        0 <= i < s.len() && 0 <= j < s.len() && i != j ==> !(s[i].admin_id == s[j].admin_id
            && s[i].court_name == s[j].court_name)
}

/// Some court of `s` is owned by `admin_id` and named `name`.
pub open spec fn has_named_court(s: Seq<CourtView>, admin_id: u64, name: Seq<char>) -> bool {
    exists|i: int|
        0 <= i < s.len() && s[i].admin_id == admin_id && s[i].court_name == name
}

/// Some court of `s` other than the one under `court_id` is owned by
/// `admin_id` and named `name` — the court that a rename of `court_id` to
/// `name` would collide with.
pub open spec fn other_court_named(
    s: Seq<CourtView>,
    admin_id: u64,
    court_id: u64,
    name: Seq<char>,
) -> bool {
    exists|i: int|
        0 <= i < s.len() && s[i].admin_id == admin_id && s[i].court_name == name
            && s[i].court_id != court_id
}

/// Some court of `s` is owned by `admin_id` and has identifier `court_id`.
pub open spec fn has_court(s: Seq<CourtView>, admin_id: u64, court_id: u64) -> bool {
    exists|i: int|
        0 <= i < s.len() && s[i].admin_id == admin_id && s[i].court_id == court_id
}

/// Some court of `s` has identifier `court_id`, whoever owns it.
pub open spec fn has_court_id(s: Seq<CourtView>, court_id: u64) -> bool {
    exists|i: int| 0 <= i < s.len() && s[i].court_id == court_id
}

/// Some order of `orders` references `court_id` and ends at `now` or later.
pub open spec fn has_pending_order(orders: Seq<Order>, court_id: u64, now: i64) -> bool {
    exists|i: int|
        0 <= i < orders.len() && orders[i].court_id == court_id && orders[i].end_time >= now
}

/// The courts of `s` owned by `admin_id`, in store order.
pub open spec fn courts_of(s: Seq<CourtView>, admin_id: u64) -> Seq<CourtView>
    decreases s.len(),
{
    if s.len() == 0 {
        Seq::empty()
    } else if s.last().admin_id == admin_id {
        courts_of(s.drop_last(), admin_id).push(s.last())
    } else {
        courts_of(s.drop_last(), admin_id)
    }
}

/// The outcome `add` owes: if the administrator already has a court of that
/// name the call fails with `DuplicateName` and the store is unchanged;
/// otherwise a court with the requested fields and a fresh identifier is
/// appended and echoed back.
pub open spec fn add_outcome(
    pre: Seq<CourtView>,
    post: Seq<CourtView>,
    admin_id: u64,
    name: Seq<char>,
    location: Seq<char>,
    label: Seq<char>,
    price_per_hour: u64,
    r: Result<Court, CourtError>,
) -> bool {
    if has_named_court(pre, admin_id, name) {
        &&& r matches Err(e) && e is DuplicateName
        &&& post == pre
    } else {
        &&& r matches Ok(c) && c@ == (CourtView {
            court_id: c@.court_id,
            admin_id,
            court_name: name,
            location,
            label,
            price_per_hour,
        }) && !has_court_id(pre, c@.court_id) && post == pre.push(c@)
    }
}

/// The outcome `delete` owes: a pending order blocks the deletion with
/// `PendingOrders`; failing that, a court the administrator does not own is
/// reported `NotFound`; otherwise that one court is removed.
pub open spec fn delete_outcome(
    pre: Seq<CourtView>,
    post: Seq<CourtView>,
    orders: Seq<Order>,
    admin_id: u64,
    court_id: u64,
    now: i64,
    r: Result<(), CourtError>,
) -> bool {
    if has_pending_order(orders, court_id, now) {
        &&& r matches Err(e) && e is PendingOrders
        &&& post == pre
    } else if !has_court(pre, admin_id, court_id) {
        &&& r matches Err(e) && e is NotFound
        &&& post == pre
    } else {
        &&& r is Ok
        &&& exists|i: int|
            0 <= i < pre.len() && pre[i].admin_id == admin_id && pre[i].court_id == court_id
                && post == pre.remove(i)
    }
}

/// The outcome `update` owes: a court the administrator does not own is
/// reported `NotFound`; a new name that another of the administrator's
/// courts already carries is refused with `DuplicateName`, keeping the
/// per-administrator name uniqueness of the data model; otherwise every
/// mutable field of that one court is replaced, identifier and owner kept,
/// and the updated court is echoed back.
pub open spec fn update_outcome(
    pre: Seq<CourtView>,
    post: Seq<CourtView>,
    admin_id: u64,
    court_id: u64,
    name: Seq<char>,
    location: Seq<char>,
    label: Seq<char>,
    price_per_hour: u64,
    r: Result<Court, CourtError>,
) -> bool {
    if !has_court(pre, admin_id, court_id) {
        &&& r matches Err(e) && e is NotFound
        &&& post == pre
    } else if other_court_named(pre, admin_id, court_id, name) {
        &&& r matches Err(e) && e is DuplicateName
        &&& post == pre
    } else {
        &&& r matches Ok(c) && c@ == court_view(
            court_id,
            admin_id,
            name,
            location,
            label,
            price_per_hour,
        )
        &&& exists|i: int|
            0 <= i < pre.len() && pre[i].admin_id == admin_id && pre[i].court_id == court_id
                && post == pre.update(
                i,
                court_view(court_id, admin_id, name, location, label, price_per_hour),
            )
    }
}

/// The set of courts the service manages, backed by a vector. The store is
/// the authority the specification calls for: identifiers are assigned by it
/// and never reused while it lives.
pub struct CourtStore {
    courts: Vec<Court>,
    next_id: u64,
}

impl View for CourtStore {
    type V = Seq<CourtView>;

    closed spec fn view(&self) -> Seq<CourtView> {
        views_of(self.courts@)
    }
}

impl CourtStore {
    /// Identifiers are unique and every assigned identifier is below
    /// `next_id`, so `next_id` is always fresh.
    #[verifier::type_invariant]
    spec fn wf(&self) -> bool {
        &&& ids_unique(self@)
        &&& forall|i: int| 0 <= i < self@.len() ==> self@[i].court_id < self.next_id
    }

    /// Whether the store can still assign a fresh identifier.
    pub closed spec fn can_assign_id(&self) -> bool {
        self.next_id < u64::MAX
    }

    /// An empty store.
    pub fn new() -> (r: CourtStore)
        ensures
            r@ == Seq::<CourtView>::empty(),
            r.can_assign_id(),
    {
        let r = CourtStore { courts: Vec::new(), next_id: 1 };
        proof {
            assert(r@ =~= Seq::<CourtView>::empty());
        }
        r
    }

    /// Whether the store can still assign a fresh identifier. True until
    /// the identifier space is exhausted.
    pub fn has_capacity(&self) -> (r: bool)
        ensures
            r == self.can_assign_id(),
    {
        self.next_id < u64::MAX
    }

    /// Whether `admin_id` already owns a court named `name`.
    fn find_named(&self, admin_id: u64, name: &String) -> (r: bool)
        ensures
            r == has_named_court(self@, admin_id, name@),
    {
        let mut i: usize = 0;
        while i < self.courts.len()
            invariant
                i <= self.courts.len(),
                self@.len() == self.courts.len(),
                forall|k: int|
                    0 <= k < i ==> !(self@[k].admin_id == admin_id && self@[k].court_name
                        == name@),
            decreases self.courts.len() - i,
        {
            if self.courts[i].admin_id == admin_id && self.courts[i].court_name == *name {
                assert(self@[i as int].admin_id == admin_id && self@[i as int].court_name
                    == name@);
                return true;
            }
            i += 1;
        }
        false
    }

    /// Whether `admin_id` owns a court named `name` under an identifier
    /// other than `court_id`.
    fn find_other_named(&self, admin_id: u64, court_id: u64, name: &String) -> (r: bool)
        ensures
            r == other_court_named(self@, admin_id, court_id, name@),
    {
        let mut i: usize = 0;
        while i < self.courts.len()
            invariant
                i <= self.courts.len(),
                self@.len() == self.courts.len(),
                forall|k: int|
                    0 <= k < i ==> !(self@[k].admin_id == admin_id && self@[k].court_name
                        == name@ && self@[k].court_id != court_id),
            decreases self.courts.len() - i,
        {
            if self.courts[i].admin_id == admin_id && self.courts[i].court_id != court_id
                && self.courts[i].court_name == *name {
                assert(self@[i as int].admin_id == admin_id && self@[i as int].court_name
                    == name@ && self@[i as int].court_id != court_id);
                return true;
            }
            i += 1;
        }
        false
    }

    /// The position of the court `admin_id` owns under `court_id`, if any.
    fn find_index(&self, admin_id: u64, court_id: u64) -> (r: Option<usize>)
        ensures
            match r {
                Some(i) => i < self@.len() && self@[i as int].admin_id == admin_id
                    && self@[i as int].court_id == court_id,
                None => !has_court(self@, admin_id, court_id),
            },
    {
        let mut i: usize = 0;
        while i < self.courts.len()
            invariant
                i <= self.courts.len(),
                self@.len() == self.courts.len(),
                forall|k: int|
                    0 <= k < i ==> !(self@[k].admin_id == admin_id && self@[k].court_id
                        == court_id),
            decreases self.courts.len() - i,
        {
            if self.courts[i].admin_id == admin_id && self.courts[i].court_id == court_id {
                return Some(i);
            }
            i += 1;
        }
        None
    }

    /// Adds a court for `admin_id` with the given fields. Refused with
    /// `DuplicateName` when the administrator already has a court of that
    /// name; otherwise the store assigns a fresh identifier, persists the
    /// court and echoes it back.
    ///
    /// The store must still have identifiers to assign; `has_capacity`
    /// reports whether it does.
    pub fn add_court(
        &mut self,
        admin_id: u64,
        court_name: String,
        location: String,
        label: String,
        price_per_hour: u64,
    ) -> (r: Result<Court, CourtError>)
        requires
            old(self).can_assign_id(),
        ensures
            ids_unique(old(self)@),
            ids_unique(final(self)@),
            add_outcome(
                old(self)@,
                final(self)@,
                admin_id,
                court_name@,
                location@,
                label@,
                price_per_hour,
                r,
            ),
    {
        proof {
            use_type_invariant(&*self);
        }
        if self.find_named(admin_id, &court_name) {
            return Err(CourtError::DuplicateName);
        }
        let id = self.next_id;
        self.next_id = id + 1;
        let court = Court { court_id: id, admin_id, court_name, location, label, price_per_hour };
        let echo = court.duplicate();
        let ghost cv = court@;
        let ghost pre = self@;
        proof {
            assert(!has_court_id(pre, id)) by {
                assert(forall|k: int| 0 <= k < pre.len() ==> #[trigger] pre[k].court_id < id);
            }
        }
        let mut courts: Vec<Court> = Vec::new();
        core::mem::swap(&mut courts, &mut self.courts);
        courts.push(court);
        proof {
            let s2 = pre.push(cv);
            assert(views_of(courts@) =~= s2);
            assert forall|a: int, b: int|
                0 <= a < s2.len() && 0 <= b < s2.len() && a != b implies s2[a].court_id
                != s2[b].court_id by {
                if a == pre.len() {
                    assert(pre[b].court_id < id);
                } else if b == pre.len() {
                    assert(pre[a].court_id < id);
                }
            }
            assert(forall|k: int| 0 <= k < s2.len() ==> #[trigger] s2[k].court_id < id + 1);
        }
        self.courts = courts;
        Ok(echo)
    }

    /// Deletes the court `admin_id` owns under `court_id`, judging pending
    /// orders against the instant `now`. Refused with `PendingOrders` while
    /// some order for the court ends at `now` or later, and with `NotFound`
    /// when the administrator owns no such court — in particular when the
    /// court belongs to another administrator.
    pub fn delete_court(
        &mut self,
        admin_id: u64,
        court_id: u64,
        orders: &Vec<Order>,
        now: i64,
    ) -> (r: Result<(), CourtError>)
        ensures
            ids_unique(old(self)@),
            ids_unique(final(self)@),
            delete_outcome(old(self)@, final(self)@, orders@, admin_id, court_id, now, r),
    {
        proof {
            use_type_invariant(&*self);
        }
        if orders_pending(orders, court_id, now) {
            return Err(CourtError::PendingOrders);
        }
        match self.find_index(admin_id, court_id) {
            None => Err(CourtError::NotFound),
            Some(i) => {
                let ghost pre = self@;
                let mut courts: Vec<Court> = Vec::new();
                core::mem::swap(&mut courts, &mut self.courts);
                courts.remove(i);
                proof {
                    assert(views_of(courts@) =~= pre.remove(i as int));
                }
                self.courts = courts;
                Ok(())
            },
        }
    }

    /// Replaces every mutable field of the court `admin_id` owns under
    /// `court_id` — name, location, label and price — keeping identifier and
    /// owner, and echoes the updated court back. Refused with `NotFound`
    /// when the administrator owns no such court, and with `DuplicateName`
    /// when another of the administrator's courts already carries the new
    /// name, so that names stay unique per administrator.
    pub fn update_court(
        &mut self,
        admin_id: u64,
        court_id: u64,
        court_name: String,
        location: String,
        label: String,
        price_per_hour: u64,
    ) -> (r: Result<Court, CourtError>)
        ensures
            ids_unique(old(self)@),
            ids_unique(final(self)@),
            update_outcome(
                old(self)@,
                final(self)@,
                admin_id,
                court_id,
                court_name@,
                location@,
                label@,
                price_per_hour,
                r,
            ),
    {
        proof {
            use_type_invariant(&*self);
        }
        match self.find_index(admin_id, court_id) {
            None => Err(CourtError::NotFound),
            Some(i) => {
                if self.find_other_named(admin_id, court_id, &court_name) {
                    return Err(CourtError::DuplicateName);
                }
                let updated = Court {
                    court_id,
                    admin_id,
                    court_name,
                    location,
                    label,
                    price_per_hour,
                };
                let echo = updated.duplicate();
                let ghost uv = updated@;
                let ghost pre = self@;
                let mut courts: Vec<Court> = Vec::new();
                core::mem::swap(&mut courts, &mut self.courts);
                courts.remove(i);
                courts.insert(i, updated);
                proof {
                    let s2 = pre.update(i as int, uv);
                    assert(views_of(courts@) =~= s2);
                    assert forall|a: int, b: int|
                        0 <= a < s2.len() && 0 <= b < s2.len() && a != b implies s2[a].court_id
                        != s2[b].court_id by {
                        assert(pre[a].court_id != pre[b].court_id);
                    }
                    assert(forall|k: int|
                        0 <= k < s2.len() ==> #[trigger] s2[k].court_id == pre[k].court_id);
                    let iv = i as int;
                    assert(0 <= iv < pre.len() && pre[iv].admin_id == admin_id
                        && pre[iv].court_id == court_id && s2 == pre.update(
                        iv,
                        court_view(court_id, admin_id, uv.court_name, uv.location, uv.label,
                        uv.price_per_hour),
                    ));
                }
                self.courts = courts;
                Ok(echo)
            },
        }
    }

    /// All courts owned by `admin_id`, in store order.
    pub fn list_courts(&self, admin_id: u64) -> (r: Vec<Court>)
        ensures
            views_of(r@) == courts_of(self@, admin_id),
    {
        let mut out: Vec<Court> = Vec::new();
        let mut i: usize = 0;
        proof {
            assert(views_of(out@) =~= courts_of(self@.take(0), admin_id));
        }
        while i < self.courts.len()
            invariant
                i <= self.courts.len(),
                self@.len() == self.courts.len(),
                views_of(out@) == courts_of(self@.take(i as int), admin_id),
            decreases self.courts.len() - i,
        {
            let ghost prefix = self@.take(i as int);
            let ghost listed = views_of(out@);
            if self.courts[i].admin_id == admin_id {
                let c = self.courts[i].duplicate();
                let ghost cv = c@;
                out.push(c);
                proof {
                    assert(views_of(out@) =~= listed.push(cv));
                }
            }
            proof {
                let next = self@.take(i + 1 as int);
                assert(next.drop_last() =~= prefix);
                assert(next.last() == self@[i as int]);
            }
            i += 1;
        }
        proof {
            assert(self@.take(self.courts.len() as int) =~= self@);
        }
        out
    }

    /// The court `admin_id` owns under `court_id`, if any, copied out of the
    /// store.
    pub fn find_court(&self, admin_id: u64, court_id: u64) -> (r: Option<Court>)
        ensures
            match r {
                Some(c) => self@.contains(c@) && c@.admin_id == admin_id && c@.court_id
                    == court_id,
                None => !has_court(self@, admin_id, court_id),
            },
            r is Some == has_court(self@, admin_id, court_id),
    {
        match self.find_index(admin_id, court_id) {
            None => None,
            Some(i) => {
                let c = self.courts[i].duplicate();
                proof {
                    assert(self@[i as int] == c@);
                }
                Some(c)
            },
        }
    }

    /// Deletes as `delete_court` does, judging pending orders against the
    /// clock at the moment of the call. The outcome is the one `delete_court`
    /// owes for the instant the clock returned.
    pub fn delete_court_at_current_time(
        &mut self,
        admin_id: u64,
        court_id: u64,
        orders: &Vec<Order>,
    ) -> (r: Result<(), CourtError>)
        ensures
            ids_unique(old(self)@),
            ids_unique(final(self)@),
            exists|now: i64|
                delete_outcome(old(self)@, final(self)@, orders@, admin_id, court_id, now, r),
    {
        let now = current_unix_seconds();
        self.delete_court(admin_id, court_id, orders, now)
    }
}

/// Whether some order of `orders` references `court_id` and ends at `now` or
/// later.
fn orders_pending(orders: &Vec<Order>, court_id: u64, now: i64) -> (r: bool)
    ensures
        r == has_pending_order(orders@, court_id, now),
{
    let mut i: usize = 0;
    while i < orders.len()
        invariant
            i <= orders.len(),
            forall|k: int|
                0 <= k < i ==> !(orders@[k].court_id == court_id && orders@[k].end_time >= now),
        decreases orders.len() - i,
    {
        if orders[i].court_id == court_id && orders[i].end_time >= now {
            return true;
        }
        i += 1;
    }
    false
}

/// Relies on `chrono::Utc::now` and `chrono::DateTime::timestamp`: the
/// current instant, in whole seconds since the Unix epoch. The value depends
/// on the clock, so nothing is claimed of it.
#[verifier::external_body]
fn current_unix_seconds() -> i64 {
    chrono::Utc::now().timestamp()
}

} // verus!
