use vstd::prelude::*;

use crate::errors::Error;
use crate::text::{owned, same_text, text_of};
use crate::time::{
    clock_reading, date_weeks_after, day_weeks_after, now_utc, weeks_after_in_range, Date, DateTime,
    UNIX_EPOCH_DAY,
};

verus! {

/// A role that a user can be granted, on its own or over one resource.
#[derive(Debug, Clone, PartialEq)]
pub enum Role {
    Root,
    Admin,
    Manager,
    Member,
    By(String),
}

/// The mathematical value of a `Role`: the same variants, with the text of a
/// custom role as a sequence of characters.
pub enum RoleView {
    Root,
    Admin,
    Manager,
    Member,
    By(Seq<char>),
}

impl View for Role {
    type V = RoleView;

    open spec fn view(&self) -> RoleView {
        match self {
            Role::Root => RoleView::Root,
            Role::Admin => RoleView::Admin,
            Role::Manager => RoleView::Manager,
            Role::Member => RoleView::Member,
            Role::By(n) => RoleView::By(n@),
        }
    }
}

/// The names of the four built-in roles.
pub open spec fn is_builtin_role_name(s: Seq<char>) -> bool {
    s == "root"@ || s == "admin"@ || s == "manager"@ || s == "member"@
}

impl RoleView {
    /// The name under which a role is stored: the built-in roles by their
    /// fixed names, a custom role by its own text.
    pub open spec fn name(self) -> Seq<char> {
        match self {
            RoleView::Root => "root"@,
            RoleView::Admin => "admin"@,
            RoleView::Manager => "manager"@,
            RoleView::Member => "member"@,
            RoleView::By(n) => n,
        }
    }

    /// The role stored under the name `s`: a built-in role for its name,
    /// otherwise the custom role of that text.
    pub open spec fn parse(s: Seq<char>) -> RoleView {
        if s == "root"@ {
            RoleView::Root
        } else if s == "admin"@ {
            RoleView::Admin
        } else if s == "manager"@ {
            RoleView::Manager
        } else if s == "member"@ {
            RoleView::Member
        } else {
            RoleView::By(s)
        }
    }
}

impl Role {
    /// The name under which the role is stored.
    pub fn to_string(&self) -> (r: String)
        ensures
            r@ == self@.name(),
    {
        match self {
            Role::Root => owned("root"),
            Role::Admin => owned("admin"),
            Role::Manager => owned("manager"),
            Role::Member => owned("member"),
            Role::By(n) => n.clone(),
        }
    }

    /// Reads a role from its stored name. Every text names a role, so this
    /// never fails.
    pub fn from_str(s: &str) -> (r: Result<Role, Error>)
        ensures
            r matches Ok(role) && role@ == RoleView::parse(s@),
    {
        if same_text(s, "root") {
            Ok(Role::Root)
        } else if same_text(s, "admin") {
            Ok(Role::Admin)
        } else if same_text(s, "manager") {
            Ok(Role::Manager)
        } else if same_text(s, "member") {
            Ok(Role::Member)
        } else {
            Ok(Role::By(owned(s)))
        }
    }
}

/// Writing the role read from any text gives that text back.
pub proof fn lemma_role_name_of_read(s: Seq<char>)
    ensures
        RoleView::parse(s).name() == s,
{
}

/// Reading the name of a role gives the role back, unless it is a custom
/// role whose text is the name of a built-in role.
pub proof fn lemma_role_read_of_name(role: RoleView)
    requires
        !(role matches RoleView::By(n) && is_builtin_role_name(n)),
    ensures
        RoleView::parse(role.name()) == role,
{
    reveal_strlit("root");
    reveal_strlit("admin");
    reveal_strlit("manager");
    reveal_strlit("member");
    assert("root"@.len() == 4 && "admin"@.len() == 5);
    assert("manager"@.len() == 7 && "member"@.len() == 6);
}

/// A stored grant: `user_id` holds `role` (over `resource`, or over
/// everything when there is none) on the days from `nbf` to `exp`.
#[derive(Debug, Clone, PartialEq)]
pub struct Item {
    pub id: i64,
    pub user_id: i64,
    pub role: String,
    pub resource: Option<String>,
    pub nbf: Date,
    pub exp: Date,
    pub created_at: DateTime,
    pub updated_at: DateTime,
}

impl Item {
    /// The grant is in force on `today`: not before `nbf`, not after `exp`.
    pub open spec fn enabled_on(self, today: Date) -> bool {
        self.nbf.days <= today.days <= self.exp.days
    }

    /// The grant is the one stored under `key`.
    pub open spec fn matches(self, key: PolicyKey) -> bool {
        &&& self.user_id == key.user_id
        &&& self.role@ == key.role@
        &&& text_of(self.resource) == text_of(key.resource)
    }

    /// Whether the grant is in force on `today`.
    pub fn enable_on(&self, today: Date) -> (r: bool)
        ensures
            r == self.enabled_on(today),
    {
        self.nbf.days <= today.days && today.days <= self.exp.days
    }

    /// Whether the grant is in force today (UTC); none when the clock cannot
    /// be read. Whatever the clock reads, the answer is the one for the day
    /// of some moment the clock can give.
    pub fn enable(&self) -> (r: Option<bool>)
        ensures
            r matches Some(b) ==> exists|now: DateTime|
                clock_reading(now) && b == self.enabled_on(now.date),
            r == Some(true) ==> self.nbf.days <= self.exp.days,
    {
        match now_utc() {
            Some(now) => Some(self.enable_on(now.date)),
            None => None,
        }
    }

    /// The validity window of a grant made at `now` for `d` weeks: from the
    /// day of `now` to the day `d` weeks later; none when that day falls
    /// outside chrono's calendar, where adding the weeks would fail.
    pub fn weeks_at(now: DateTime, d: i64) -> (r: Option<(Date, Date)>)
        requires
            now.wf(),
        ensures
            r == if weeks_after_in_range(now, d as int) {
                Some((now.date, Date { days: day_weeks_after(now, d as int) as i32 }))
            } else {
                None
            },
    {
        match date_weeks_after(now, d) {
            Some(exp) => Some((now.date, exp)),
            None => None,
        }
    }

    /// The validity window of a grant made now for `d` weeks. `None` when the
    /// clock cannot be read, or when the end of the window would fall outside
    /// chrono's calendar, where adding the weeks would fail. The clock is
    /// never read within a leap second, so the window is `7 * d` days long.
    pub fn weeks(d: i64) -> (r: Option<(Date, Date)>)
        ensures
            r is None || exists|now: DateTime|
                {
                    &&& clock_reading(now)
                    &&& r == if weeks_after_in_range(now, d as int) {
                        Some((now.date, Date { days: (now.date.days + 7 * d) as i32 }))
                    } else {
                        None
                    }
                },
            r matches Some(w) ==> w.1.days == w.0.days + 7 * d,
    {
        match now_utc() {
            Some(now) => Item::weeks_at(now, d),
            None => None,
        }
    }
}

/// A window of `d` weeks ends `7 * d` days after it starts, unless it
/// starts within a leap second and `d` is negative.
pub proof fn lemma_weeks_window_length(now: DateTime, d: i64)
    requires
        now.wf(),
        !now.in_leap_second() || d >= 0,
    ensures
        day_weeks_after(now, d as int) == now.date.days + 7 * d,
{
}

/// A grant made now for a window of `d >= 0` weeks is in force today: its
/// window starts on the day it is made and does not end before it.
pub proof fn lemma_weeks_window_starts_today(it: Item, now: DateTime, d: i64)
    requires
        now.wf(),
        d >= 0,
        it.nbf == now.date,
        it.exp.days == day_weeks_after(now, d as int),
    ensures
        it.enabled_on(now.date),
{
}

/// How a grant is looked up, revoked and overwritten: by user, by the
/// role's stored name and by resource, a missing resource matching only
/// grants without one.
#[derive(Debug, Clone, PartialEq)]
pub struct PolicyKey {
    pub user_id: i64,
    pub role: String,
    pub resource: Option<String>,
}

impl PolicyKey {
    /// The key of `role` over `resource` for `user`.
    pub fn new(user: i64, role: &Role, resource: &Option<String>) -> (k: PolicyKey)
        ensures
            k.user_id == user,
            k.role@ == role@.name(),
            k.resource == *resource,
    {
        let resource = match resource {
            Some(r) => Some(r.clone()),
            None => None,
        };
        PolicyKey { user_id: user, role: role.to_string(), resource }
    }
}

/// A grant to be stored.
#[derive(Debug, Clone, PartialEq)]
pub struct New {
    pub user_id: i64,
    pub role: String,
    pub resource: Option<String>,
    pub nbf: Date,
    pub exp: Date,
    pub updated_at: DateTime,
}

/// What granting a role writes: a new validity window on the grant that is
/// already stored, or a new grant.
#[derive(Debug, Clone, PartialEq)]
pub enum Write {
    Update { id: i64, nbf: Date, exp: Date, updated_at: DateTime },
    Insert(New),
}

/// What granting the role of `key` from `nbf` to `exp` at `now` writes,
/// given the grant `found` under that key, if any.
pub open spec fn apply_write(
    found: Option<Item>,
    key: PolicyKey,
    nbf: Date,
    exp: Date,
    now: DateTime,
) -> Write {
    match found {
        Some(it) => Write::Update { id: it.id, nbf, exp, updated_at: now },
        None => Write::Insert(
            New {
                user_id: key.user_id,
                role: key.role,
                resource: key.resource,
                nbf,
                exp,
                updated_at: now,
            },
        ),
    }
}

/// Decides what granting the role of `key` from `nbf` to `exp` at `now`
/// writes: the grant `found` under the key gets the new window, and when
/// none was found (or the lookup failed) a new grant is stored.
pub fn plan_apply(found: &Option<Item>, key: PolicyKey, nbf: Date, exp: Date, now: DateTime) -> (w:
    Write)
    ensures
        w == apply_write(*found, key, nbf, exp, now),
{
    match found {
        Some(it) => Write::Update { id: it.id, nbf, exp, updated_at: now },
        None => Write::Insert(
            New {
                user_id: key.user_id,
                role: key.role,
                resource: key.resource,
                nbf,
                exp,
                updated_at: now,
            },
        ),
    }
}

/// As `plan_apply`, stamped with the current time; none when the clock
/// cannot be read.
pub fn plan_apply_now(found: &Option<Item>, key: PolicyKey, nbf: Date, exp: Date) -> (r: Option<
    Write,
>)
    ensures
        r matches Some(w) ==> exists|now: DateTime|
            clock_reading(now) && w == apply_write(*found, key, nbf, exp, now),
{
    match now_utc() {
        Some(now) => Some(plan_apply(found, key, nbf, exp, now)),
        None => None,
    }
}

/// Whether the grant `found` by a lookup (none when the lookup found
/// nothing or failed) lets its holder act on `today`.
pub open spec fn granted_on_spec(found: Option<Item>, today: Date) -> bool {
    match found {
        Some(it) => it.enabled_on(today),
        None => false,
    }
}

/// Whether the grant `found` by a lookup lets its holder act on `today`.
pub fn granted_on(found: &Option<Item>, today: Date) -> (r: bool)
    ensures
        r == granted_on_spec(*found, today),
{
    match found {
        Some(it) => it.enable_on(today),
        None => false,
    }
}

/// Whether the grant `found` by a lookup lets its holder act today (UTC).
/// The clock is read only when a grant was found; none when it cannot be
/// read.
pub fn granted(found: &Option<Item>) -> (r: Option<bool>)
    ensures
        r matches Some(b) ==> exists|now: DateTime|
            clock_reading(now) && b == granted_on_spec(*found, now.date),
        found is None ==> r == Some(false),
{
    match found {
        None => {
            proof {
                let witness = DateTime { date: Date { days: UNIX_EPOCH_DAY }, secs: 0, nanos: 0 };
                assert(clock_reading(witness));
            }
            Some(false)
        },
        Some(_) => match now_utc() {
            Some(now) => Some(granted_on(found, now.date)),
            None => None,
        },
    }
}

/// The role and resource of a grant as they are handed out.
pub open spec fn grant_view(g: (Role, Option<String>)) -> (RoleView, Option<Seq<char>>) {
    (g.0@, text_of(g.1))
}

/// The roles and resources of those of `items` in force on `today`, in
/// their order.
pub open spec fn grants_on(items: Seq<Item>, today: Date) -> Seq<(RoleView, Option<Seq<char>>)>
    decreases items.len(),
{
    if items.len() == 0 {
        seq![]
    } else {
        let rest = grants_on(items.drop_last(), today);
        let it = items.last();
        if it.enabled_on(today) {
            rest.push((RoleView::parse(it.role@), text_of(it.resource)))
        } else {
            rest
        }
    }
}

/// A listed grant: the role read from the stored name, whatever the
/// resource, with the resource's text.
pub open spec fn listed(it: Item) -> (RoleView, Option<Seq<char>>) {
    (RoleView::parse(it.role@), text_of(it.resource))
}

/// Listing the grants in force on `today` keeps exactly the grants in force,
/// in their order, and lists each with the role that its stored name reads
/// as (the role `Role::from_str` gives for it) and its resource.
pub proof fn lemma_listing_is_grants_in_force(items: Seq<Item>, today: Date)
    ensures
        grants_on(items, today) == items.filter(|it: Item| it.enabled_on(today)).map_values(
            |it: Item| listed(it),
        ),
    decreases items.len(),
{
    let pred = |it: Item| it.enabled_on(today);
    reveal_with_fuel(Seq::<Item>::filter, 1);
    if items.len() > 0 {
        lemma_listing_is_grants_in_force(items.drop_last(), today);
        let rest = items.drop_last().filter(pred);
        if pred(items.last()) {
            assert(items.filter(pred) == rest.push(items.last()));
            assert(rest.push(items.last()).map_values(|it: Item| listed(it)) =~= rest.map_values(
                |it: Item| listed(it),
            ).push(listed(items.last())));
        } else {
            assert(items.filter(pred) == rest);
        }
    } else {
        assert(items.filter(pred) =~= items);
        assert(items.map_values(|it: Item| listed(it)) =~= Seq::<(RoleView, Option<Seq<char>>)>::empty());
    }
}

/// The roles, with their resources, that the grants `items` of a user give
/// on `today`.
pub fn enabled_grants_on(items: &Vec<Item>, today: Date) -> (r: Vec<(Role, Option<String>)>)
    ensures
        r@.map_values(|g: (Role, Option<String>)| grant_view(g)) == grants_on(items@, today),
        r@.map_values(|g: (Role, Option<String>)| grant_view(g)) == items@.filter(
            |it: Item| it.enabled_on(today),
        ).map_values(|it: Item| listed(it)),
{
    proof {
        lemma_listing_is_grants_in_force(items@, today);
    }
    let mut out: Vec<(Role, Option<String>)> = Vec::new();
    let mut i: usize = 0;
    while i < items.len()
        invariant
            i <= items.len(),
            out@.map_values(|g: (Role, Option<String>)| grant_view(g)) == grants_on(
                items@.take(i as int),
                today,
            ),
        decreases items.len() - i,
    {
        let it = &items[i];
        proof {
            assert(items@.take(i + 1).drop_last() =~= items@.take(i as int));
            assert(items@.take(i + 1).last() == items@[i as int]);
        }
        if it.enable_on(today) {
            let role = match Role::from_str(it.role.as_str()) {
                Ok(role) => role,
                Err(_) => Role::By(it.role.clone()),
            };
            let resource = match &it.resource {
                Some(v) => Some(v.clone()),
                None => None,
            };
            let ghost before = out@;
            out.push((role, resource));
            proof {
                assert(out@.map_values(|g: (Role, Option<String>)| grant_view(g)) =~= before.map_values(
                    |g: (Role, Option<String>)| grant_view(g),
                ).push(grant_view((role, resource))));
            }
        }
        i = i + 1;
    }
    proof {
        assert(items@.take(items.len() as int) =~= items@);
    }
    out
}

/// The roles, with their resources, that the grants `items` of a user give
/// today (UTC). The clock is read only when there are grants; none when it
/// cannot be read.
pub fn enabled_grants(items: &Vec<Item>) -> (r: Option<Vec<(Role, Option<String>)>>)
    ensures
        r matches Some(v) ==> exists|now: DateTime|
            clock_reading(now) && v@.map_values(|g: (Role, Option<String>)| grant_view(g))
                == grants_on(items@, now.date),
        items@.len() == 0 ==> (r matches Some(v) && v@.len() == 0),
{
    if items.len() == 0 {
        let none: Vec<(Role, Option<String>)> = Vec::new();
        proof {
            assert(none@.map_values(|g: (Role, Option<String>)| grant_view(g)) =~= grants_on(
                items@,
                Date { days: UNIX_EPOCH_DAY },
            ));
            let witness = DateTime { date: Date { days: UNIX_EPOCH_DAY }, secs: 0, nanos: 0 };
            assert(clock_reading(witness));
        }
        return Some(none);
    }
    match now_utc() {
        Some(now) => Some(enabled_grants_on(items, now.date)),
        None => None,
    }
}

/// The stored grants of `rows` that lie under `key`, in their order.
pub open spec fn rows_under(rows: Seq<Item>, key: PolicyKey) -> Seq<Item>
    decreases rows.len(),
{
    if rows.len() == 0 {
        seq![]
    } else {
        let rest = rows_under(rows.drop_last(), key);
        if rows.last().matches(key) {
            rest.push(rows.last())
        } else {
            rest
        }
    }
}

/// What a lookup under `key` finds among `rows`: the first grant under it.
pub open spec fn lookup(rows: Seq<Item>, key: PolicyKey) -> Option<Item> {
    let found = rows_under(rows, key);
    if found.len() == 0 {
        None
    } else {
        Some(found[0])
    }
}

/// `rows` with the grant `id` given the window `nbf`..`exp`, stamped `at`.
pub open spec fn rows_updated(rows: Seq<Item>, id: i64, nbf: Date, exp: Date, at: DateTime) -> Seq<
    Item,
>
    decreases rows.len(),
{
    if rows.len() == 0 {
        seq![]
    } else {
        let rest = rows_updated(rows.drop_last(), id, nbf, exp, at);
        let it = rows.last();
        if it.id == id {
            rest.push(Item { nbf, exp, updated_at: at, ..it })
        } else {
            rest.push(it)
        }
    }
}

/// The grant that storing `n` adds, under the identifier `id` and creation
/// time `created_at` that the store gives it.
pub open spec fn inserted(n: New, id: i64, created_at: DateTime) -> Item {
    Item {
        id,
        user_id: n.user_id,
        role: n.role,
        resource: n.resource,
        nbf: n.nbf,
        exp: n.exp,
        created_at,
        updated_at: n.updated_at,
    }
}

/// The stored grants after the write `w`; an inserted grant gets `new_id`
/// and `created_at`.
pub open spec fn rows_written(rows: Seq<Item>, w: Write, new_id: i64, created_at: DateTime) -> Seq<
    Item,
> {
    match w {
        Write::Update { id, nbf, exp, updated_at } => rows_updated(rows, id, nbf, exp, updated_at),
        Write::Insert(n) => rows.push(inserted(n, new_id, created_at)),
    }
}

/// The stored grants after revoking everything under `key`.
pub open spec fn rows_revoked(rows: Seq<Item>, key: PolicyKey) -> Seq<Item>
    decreases rows.len(),
{
    if rows.len() == 0 {
        seq![]
    } else {
        let rest = rows_revoked(rows.drop_last(), key);
        if rows.last().matches(key) {
            rest
        } else {
            rest.push(rows.last())
        }
    }
}

proof fn lemma_update_keeps_key_rows(
    rows: Seq<Item>,
    key: PolicyKey,
    id: i64,
    nbf: Date,
    exp: Date,
    at: DateTime,
)
    ensures
        rows_under(rows_updated(rows, id, nbf, exp, at), key) == rows_updated(
            rows_under(rows, key),
            id,
            nbf,
            exp,
            at,
        ),
    decreases rows.len(),
{
    if rows.len() > 0 {
        lemma_update_keeps_key_rows(rows.drop_last(), key, id, nbf, exp, at);
        let upd = rows_updated(rows, id, nbf, exp, at);
        assert(upd.drop_last() =~= rows_updated(rows.drop_last(), id, nbf, exp, at));
        let under = rows_under(rows, key);
        if rows.last().matches(key) {
            assert(under.drop_last() =~= rows_under(rows.drop_last(), key));
        } else {
            assert(under =~= rows_under(rows.drop_last(), key));
        }
    }
}

proof fn lemma_revoked_has_none_under(rows: Seq<Item>, key: PolicyKey)
    ensures
        rows_under(rows_revoked(rows, key), key) == Seq::<Item>::empty(),
    decreases rows.len(),
{
    if rows.len() > 0 {
        lemma_revoked_has_none_under(rows.drop_last(), key);
        let rev = rows_revoked(rows, key);
        if !rows.last().matches(key) {
            assert(rev.drop_last() =~= rows_revoked(rows.drop_last(), key));
        }
    }
}

/// Granting a role, then checking it: when at most one grant is stored
/// under the key and the lookup before the write found it, then after the
/// write exactly one grant lies under the key, and a later check on any day
/// allows the holder exactly when that day is within the new window.
pub proof fn lemma_apply_then_check(
    rows: Seq<Item>,
    key: PolicyKey,
    nbf: Date,
    exp: Date,
    now: DateTime,
    new_id: i64,
    created_at: DateTime,
    today: Date,
)
    requires
        rows_under(rows, key).len() <= 1,
    ensures
        ({
            let after = rows_written(
                rows,
                apply_write(lookup(rows, key), key, nbf, exp, now),
                new_id,
                created_at,
            );
            &&& rows_under(after, key).len() == 1
            &&& lookup(after, key) matches Some(it) && it.nbf == nbf && it.exp == exp
            &&& granted_on_spec(lookup(after, key), today) == (nbf.days <= today.days <= exp.days)
        }),
{
    let under = rows_under(rows, key);
    match lookup(rows, key) {
        Some(it) => {
            lemma_update_keeps_key_rows(rows, key, it.id, nbf, exp, now);
            assert(under =~= seq![it]);
            let single = rows_updated(under, it.id, nbf, exp, now);
            assert(under.drop_last() =~= Seq::<Item>::empty());
            assert(rows_updated(under.drop_last(), it.id, nbf, exp, now) =~= Seq::<Item>::empty());
            assert(under.last() == it);
            assert(single =~= seq![Item { nbf, exp, updated_at: now, ..it }]);
        },
        None => {
            let n = New {
                user_id: key.user_id,
                role: key.role,
                resource: key.resource,
                nbf,
                exp,
                updated_at: now,
            };
            let after = rows.push(inserted(n, new_id, created_at));
            assert(after.drop_last() =~= rows);
            assert(rows_under(after, key) =~= seq![inserted(n, new_id, created_at)]);
        },
    }
}

/// Revoking a role, then checking it: after everything under the key is
/// removed, a lookup under the key finds nothing and no day is allowed.
pub proof fn lemma_deny_then_check(rows: Seq<Item>, key: PolicyKey, today: Date)
    ensures
        lookup(rows_revoked(rows, key), key) is None,
        !granted_on_spec(lookup(rows_revoked(rows, key), key), today),
{
    lemma_revoked_has_none_under(rows, key);
}

/// Revoking leaves every grant under another key in place.
pub proof fn lemma_deny_keeps_other_keys(rows: Seq<Item>, key: PolicyKey, other: PolicyKey)
    requires
        forall|it: Item| it.matches(other) ==> !it.matches(key),
    ensures
        rows_under(rows_revoked(rows, key), other) == rows_under(rows, other),
    decreases rows.len(),
{
    if rows.len() > 0 {
        lemma_deny_keeps_other_keys(rows.drop_last(), key, other);
        let rev = rows_revoked(rows, key);
        if !rows.last().matches(key) {
            assert(rev.drop_last() =~= rows_revoked(rows.drop_last(), key));
        }
    }
}

/// Each key holds at most one grant among `rows`.
pub open spec fn one_grant_per_key(rows: Seq<Item>) -> bool {
    forall|key: PolicyKey| #[trigger] rows_under(rows, key).len() <= 1
}

proof fn lemma_updated_len(rows: Seq<Item>, id: i64, nbf: Date, exp: Date, at: DateTime)
    ensures
        rows_updated(rows, id, nbf, exp, at).len() == rows.len(),
    decreases rows.len(),
{
    if rows.len() > 0 {
        lemma_updated_len(rows.drop_last(), id, nbf, exp, at);
    }
}

proof fn lemma_same_key_same_rows(rows: Seq<Item>, key: PolicyKey, other: PolicyKey)
    requires
        key.user_id == other.user_id,
        key.role@ == other.role@,
        text_of(key.resource) == text_of(other.resource),
    ensures
        rows_under(rows, key) == rows_under(rows, other),
    decreases rows.len(),
{
    if rows.len() > 0 {
        lemma_same_key_same_rows(rows.drop_last(), key, other);
    }
}

proof fn lemma_revoked_under_shrinks(rows: Seq<Item>, key: PolicyKey, other: PolicyKey)
    ensures
        rows_under(rows_revoked(rows, key), other).len() <= rows_under(rows, other).len(),
    decreases rows.len(),
{
    if rows.len() > 0 {
        lemma_revoked_under_shrinks(rows.drop_last(), key, other);
        let rev = rows_revoked(rows, key);
        if !rows.last().matches(key) {
            assert(rev.drop_last() =~= rows_revoked(rows.drop_last(), key));
        }
    }
}

/// Granting a role keeps at most one grant under every key: the write
/// either changes the window of the one grant found under its key or adds
/// the first grant under it.
pub proof fn lemma_apply_keeps_one_grant_per_key(
    rows: Seq<Item>,
    key: PolicyKey,
    nbf: Date,
    exp: Date,
    now: DateTime,
    new_id: i64,
    created_at: DateTime,
)
    requires
        one_grant_per_key(rows),
    ensures
        one_grant_per_key(
            rows_written(
                rows,
                apply_write(lookup(rows, key), key, nbf, exp, now),
                new_id,
                created_at,
            ),
        ),
{
    let after = rows_written(
        rows,
        apply_write(lookup(rows, key), key, nbf, exp, now),
        new_id,
        created_at,
    );
    assert forall|other: PolicyKey| #[trigger] rows_under(after, other).len() <= 1 by {
        assert(rows_under(rows, other).len() <= 1);
        assert(rows_under(rows, key).len() <= 1);
        match lookup(rows, key) {
            Some(it) => {
                lemma_update_keeps_key_rows(rows, other, it.id, nbf, exp, now);
                lemma_updated_len(rows_under(rows, other), it.id, nbf, exp, now);
            },
            None => {
                let n = New {
                    user_id: key.user_id,
                    role: key.role,
                    resource: key.resource,
                    nbf,
                    exp,
                    updated_at: now,
                };
                let row = inserted(n, new_id, created_at);
                assert(after.drop_last() =~= rows);
                assert(after.last() == row);
                if row.matches(other) {
                    lemma_same_key_same_rows(rows, key, other);
                }
            },
        }
    }
}

/// Revoking a role keeps at most one grant under every key.
pub proof fn lemma_deny_keeps_one_grant_per_key(rows: Seq<Item>, key: PolicyKey)
    requires
        one_grant_per_key(rows),
    ensures
        one_grant_per_key(rows_revoked(rows, key)),
{
    assert forall|other: PolicyKey| #[trigger]
        rows_under(rows_revoked(rows, key), other).len() <= 1 by {
        assert(rows_under(rows, other).len() <= 1);
        lemma_revoked_under_shrinks(rows, key, other);
    }
}

/// No two stored grants share an identifier.
pub open spec fn ids_unique(rows: Seq<Item>) -> bool {
    forall|i: int, j: int|
        0 <= i < rows.len() && 0 <= j < rows.len() && i != j ==> #[trigger] rows[i].id
            != #[trigger] rows[j].id
}

/// No stored grant has the identifier `id`.
pub open spec fn id_fresh(rows: Seq<Item>, id: i64) -> bool {
    forall|i: int| 0 <= i < rows.len() ==> #[trigger] rows[i].id != id
}

proof fn lemma_updated_at(
    rows: Seq<Item>,
    id: i64,
    nbf: Date,
    exp: Date,
    at: DateTime,
    i: int,
)
    requires
        0 <= i < rows.len(),
    ensures
        rows_updated(rows, id, nbf, exp, at).len() == rows.len(),
        rows_updated(rows, id, nbf, exp, at)[i] == if rows[i].id == id {
            Item { nbf, exp, updated_at: at, ..rows[i] }
        } else {
            rows[i]
        },
    decreases rows.len(),
{
    lemma_updated_len(rows, id, nbf, exp, at);
    if i < rows.len() - 1 {
        lemma_updated_at(rows.drop_last(), id, nbf, exp, at, i);
    }
}

proof fn lemma_under_members(rows: Seq<Item>, key: PolicyKey)
    ensures
        forall|j: int|
            0 <= j < rows_under(rows, key).len() ==> (exists|i: int|
                0 <= i < rows.len() && rows[i] == #[trigger] rows_under(rows, key)[j]),
        forall|j: int|
            0 <= j < rows_under(rows, key).len() ==> #[trigger] rows_under(rows, key)[j].matches(
                key,
            ),
        forall|i: int|
            0 <= i < rows.len() && #[trigger] rows[i].matches(key) ==> exists|j: int|
                0 <= j < rows_under(rows, key).len() && rows_under(rows, key)[j] == rows[i],
    decreases rows.len(),
{
    if rows.len() > 0 {
        let rest = rows.drop_last();
        lemma_under_members(rest, key);
        let under = rows_under(rows, key);
        let under_rest = rows_under(rest, key);
        assert forall|j: int| 0 <= j < under.len() implies (exists|i: int|
            0 <= i < rows.len() && rows[i] == #[trigger] under[j]) by {
            if j < under_rest.len() {
                let i = choose|i: int| 0 <= i < rest.len() && rest[i] == under_rest[j];
                assert(rows[i] == under[j]);
            } else {
                assert(rows[rows.len() - 1] == under[j]);
            }
        }
        assert forall|i: int| 0 <= i < rows.len() && #[trigger] rows[i].matches(key) implies exists|
            j: int,
        | 0 <= j < under.len() && under[j] == rows[i] by {
            if i < rows.len() - 1 {
                assert(rest[i] == rows[i]);
                let j = choose|j: int| 0 <= j < under_rest.len() && under_rest[j] == rest[i];
                assert(under[j] == rows[i]);
            } else {
                assert(under[under.len() - 1] == rows[i]);
            }
        }
    }
}

/// Granting the same window again: once a grant under `key` holds the
/// window `nbf`..`exp`, the only grant under it, among grants with distinct
/// identifiers, granting that window again at `now` changes nothing but the
/// time stamp of that grant.
pub proof fn lemma_reapply_only_stamps(rows: Seq<Item>, key: PolicyKey, nbf: Date, exp: Date, now: DateTime, new_id: i64, created_at: DateTime)
    requires
        ids_unique(rows),
        rows_under(rows, key).len() == 1,
        rows_under(rows, key)[0].nbf == nbf,
        rows_under(rows, key)[0].exp == exp,
    ensures
        ({
            let after = rows_written(rows, apply_write(lookup(rows, key), key, nbf, exp, now), new_id, created_at);
            &&& after.len() == rows.len()
            &&& forall|i: int| 0 <= i < rows.len() ==> #[trigger] after[i] == if rows[i].matches(key) {
                Item { updated_at: now, ..rows[i] }
            } else {
                rows[i]
            }
        }),
{
    let it = rows_under(rows, key)[0];
    let after = rows_written(rows, apply_write(lookup(rows, key), key, nbf, exp, now), new_id, created_at);
    lemma_under_members(rows, key);
    lemma_updated_len(rows, it.id, nbf, exp, now);
    let k = choose|i: int| 0 <= i < rows.len() && rows[i] == rows_under(rows, key)[0];
    assert forall|i: int| 0 <= i < rows.len() implies #[trigger] after[i] == if rows[i].matches(key) {
        Item { updated_at: now, ..rows[i] }
    } else {
        rows[i]
    } by {
        lemma_updated_at(rows, it.id, nbf, exp, now, i);
        if rows[i].matches(key) {
            let j = choose|j: int| 0 <= j < rows_under(rows, key).len() && rows_under(rows, key)[j] == rows[i];
            assert(j == 0);
        } else if rows[i].id == it.id {
            assert(i != k ==> rows[i].id != rows[k].id);
            assert(rows[k].matches(key));
        }
    }
}

/// Granting the same window twice: starting from grants with distinct
/// identifiers and at most one grant per key, a grant at `now1` followed by
/// the same grant at `now2` gives the table of the first grant with only the
/// time stamp of the grant under the key set to `now2`.
pub proof fn lemma_apply_twice_only_stamps(
    rows: Seq<Item>,
    key: PolicyKey,
    nbf: Date,
    exp: Date,
    now1: DateTime,
    now2: DateTime,
    id1: i64,
    created1: DateTime,
    id2: i64,
    created2: DateTime,
)
    requires
        ids_unique(rows),
        id_fresh(rows, id1),
        rows_under(rows, key).len() <= 1,
    ensures
        ({
            let first = rows_written(rows, apply_write(lookup(rows, key), key, nbf, exp, now1), id1, created1);
            let second = rows_written(first, apply_write(lookup(first, key), key, nbf, exp, now2), id2, created2);
            &&& second.len() == first.len()
            &&& forall|i: int| 0 <= i < first.len() ==> #[trigger] second[i] == if first[i].matches(key) {
                Item { updated_at: now2, ..first[i] }
            } else {
                first[i]
            }
        }),
{
    let first = rows_written(rows, apply_write(lookup(rows, key), key, nbf, exp, now1), id1, created1);
    lemma_apply_then_check(rows, key, nbf, exp, now1, id1, created1, nbf);
    match lookup(rows, key) {
        Some(it) => {
            lemma_updated_len(rows, it.id, nbf, exp, now1);
            assert forall|i: int, j: int|
                0 <= i < first.len() && 0 <= j < first.len() && i != j implies #[trigger] first[i].id
                    != #[trigger] first[j].id by {
                lemma_updated_at(rows, it.id, nbf, exp, now1, i);
                lemma_updated_at(rows, it.id, nbf, exp, now1, j);
            }
        },
        None => {
            assert forall|i: int, j: int|
                0 <= i < first.len() && 0 <= j < first.len() && i != j implies #[trigger] first[i].id
                    != #[trigger] first[j].id by {
                if i < rows.len() && j < rows.len() {
                    assert(first[i] == rows[i] && first[j] == rows[j]);
                } else if i < rows.len() {
                    assert(first[i] == rows[i]);
                } else {
                    assert(first[j] == rows[j]);
                }
            }
        },
    }
    lemma_reapply_only_stamps(first, key, nbf, exp, now2, id2, created2);
}

proof fn lemma_revoke_nothing_under(rows: Seq<Item>, key: PolicyKey)
    requires
        rows_under(rows, key).len() == 0,
    ensures
        rows_revoked(rows, key) == rows,
    decreases rows.len(),
{
    if rows.len() > 0 {
        let rest = rows.drop_last();
        if rows.last().matches(key) {
            assert(rows_under(rows, key).len() > 0);
        }
        lemma_revoke_nothing_under(rest, key);
        assert(rows_revoked(rows, key) =~= rows);
    }
}

/// Granting under a key that holds no grant and then revoking it gives the
/// table back as it was.
pub proof fn lemma_apply_then_deny_restores(
    rows: Seq<Item>,
    key: PolicyKey,
    nbf: Date,
    exp: Date,
    now: DateTime,
    new_id: i64,
    created_at: DateTime,
)
    requires
        rows_under(rows, key).len() == 0,
    ensures
        rows_revoked(
            rows_written(rows, apply_write(lookup(rows, key), key, nbf, exp, now), new_id, created_at),
            key,
        ) == rows,
{
    let n = New {
        user_id: key.user_id,
        role: key.role,
        resource: key.resource,
        nbf,
        exp,
        updated_at: now,
    };
    let after = rows.push(inserted(n, new_id, created_at));
    assert(after.drop_last() =~= rows);
    lemma_revoke_nothing_under(rows, key);
}

/// The stored grants of `user`, in their order: what listing a user's
/// grants loads.
pub open spec fn rows_of_user(rows: Seq<Item>, user: i64) -> Seq<Item>
    decreases rows.len(),
{
    if rows.len() == 0 {
        seq![]
    } else {
        let rest = rows_of_user(rows.drop_last(), user);
        if rows.last().user_id == user {
            rest.push(rows.last())
        } else {
            rest
        }
    }
}

/// `grants` lists the role named `role` over `resource`.
pub open spec fn lists_grant(
    grants: Seq<(RoleView, Option<Seq<char>>)>,
    role: Seq<char>,
    resource: Option<Seq<char>>,
) -> bool {
    exists|j: int| 0 <= j < grants.len() && #[trigger] grants[j].0.name() == role && grants[j].1 == resource
}

/// Some grant of `rows` is in force on `today`.
pub open spec fn some_in_force(rows: Seq<Item>, today: Date) -> bool {
    exists|i: int| 0 <= i < rows.len() && #[trigger] rows[i].enabled_on(today)
}

proof fn lemma_listed_iff_in_force(rows: Seq<Item>, key: PolicyKey, today: Date)
    ensures
        lists_grant(grants_on(rows_of_user(rows, key.user_id), today), key.role@, text_of(key.resource))
            == some_in_force(rows_under(rows, key), today),
    decreases rows.len(),
{
    if rows.len() > 0 {
        let rest = rows.drop_last();
        let l = rows.last();
        lemma_listed_iff_in_force(rest, key, today);
        let mine_rest = rows_of_user(rest, key.user_id);
        let mine = rows_of_user(rows, key.user_id);
        let g_rest = grants_on(mine_rest, today);
        let g = grants_on(mine, today);
        let u_rest = rows_under(rest, key);
        let u = rows_under(rows, key);
        let entry = (RoleView::parse(l.role@), text_of(l.resource));
        lemma_role_name_of_read(l.role@);
        if l.user_id == key.user_id {
            assert(mine.drop_last() =~= mine_rest);
            if l.enabled_on(today) {
                assert(g =~= g_rest.push(entry));
            } else {
                assert(g =~= g_rest);
            }
        } else {
            assert(g =~= g_rest);
        }
        if l.matches(key) {
            assert(u.drop_last() =~= u_rest);
        }
        // the listing gained the entry of `l` exactly when `u` gained `l` in force
        if lists_grant(g, key.role@, text_of(key.resource)) {
            let j = choose|j: int|
                0 <= j < g.len() && #[trigger] g[j].0.name() == key.role@ && g[j].1 == text_of(
                    key.resource,
                );
            if j < g_rest.len() {
                assert(g[j] == g_rest[j]);
                assert(g_rest[j].0.name() == key.role@);
                assert(lists_grant(g_rest, key.role@, text_of(key.resource)));
                let i = choose|i: int| 0 <= i < u_rest.len() && #[trigger] u_rest[i].enabled_on(today);
                assert(u[i] == u_rest[i]);
            } else {
                assert(l.user_id == key.user_id && l.enabled_on(today));
                assert(g[j] == entry);
                assert(l.matches(key));
                assert(u[u.len() - 1] == l);
                assert(u[u.len() - 1].enabled_on(today));
            }
        }
        if some_in_force(u, today) {
            let i = choose|i: int| 0 <= i < u.len() && #[trigger] u[i].enabled_on(today);
            if i < u_rest.len() {
                assert(u_rest[i] == u[i]);
                assert(some_in_force(u_rest, today));
                let j = choose|j: int|
                    0 <= j < g_rest.len() && #[trigger] g_rest[j].0.name() == key.role@ && g_rest[j].1
                        == text_of(key.resource);
                assert(g[j] == g_rest[j]);
                assert(g[j].0.name() == key.role@);
            } else {
                assert(l.matches(key));
                assert(u[i] == l);
                assert(g[g.len() - 1] == entry);
                assert(g[g.len() - 1].0.name() == key.role@);
            }
        }
    }
}

/// Listing a user's grants agrees with checking one of them: when at most
/// one grant is stored under `key`, the grants in force on `today` among
/// those of the key's user list the key's role over its resource exactly
/// when a check under the key on `today` allows it.
pub proof fn lemma_list_agrees_with_check(rows: Seq<Item>, key: PolicyKey, today: Date)
    requires
        rows_under(rows, key).len() <= 1,
    ensures
        lists_grant(grants_on(rows_of_user(rows, key.user_id), today), key.role@, text_of(key.resource))
            == granted_on_spec(lookup(rows, key), today),
{
    lemma_listed_iff_in_force(rows, key, today);
    let u = rows_under(rows, key);
    if u.len() == 1 {
        if some_in_force(u, today) {
            let i = choose|i: int| 0 <= i < u.len() && #[trigger] u[i].enabled_on(today);
            assert(i == 0);
        }
        if u[0].enabled_on(today) {
            assert(some_in_force(u, today));
        }
    }
}

} // verus!
