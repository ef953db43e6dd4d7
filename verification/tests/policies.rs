use chrono::{Datelike, NaiveDate, Timelike};
use nut::policy::{
    enabled_grants, enabled_grants_on, granted, granted_on, plan_apply, plan_apply_now, Item,
    New, PolicyKey, Role, Write,
};
use nut::time::{moment_of_reading, Date, DateTime, MAX_DAY, MIN_DAY};

fn day(y: i32, m: u32, d: u32) -> Date {
    Date { days: NaiveDate::from_ymd_opt(y, m, d).unwrap().num_days_from_ce() }
}

fn noon(date: Date) -> DateTime {
    DateTime { date, secs: 12 * 3600, nanos: 0 }
}

fn item(id: i64, role: &str, resource: Option<&str>, nbf: Date, exp: Date) -> Item {
    Item {
        id,
        user_id: 7,
        role: role.to_string(),
        resource: resource.map(|r| r.to_string()),
        nbf,
        exp,
        created_at: noon(nbf),
        updated_at: noon(nbf),
    }
}

#[test]
fn role_names() {
    assert_eq!(Role::Root.to_string(), "root");
    assert_eq!(Role::Admin.to_string(), "admin");
    assert_eq!(Role::Manager.to_string(), "manager");
    assert_eq!(Role::Member.to_string(), "member");
    assert_eq!(Role::By("editor".to_string()).to_string(), "editor");
}

#[test]
fn role_reading_never_fails() {
    assert_eq!(Role::from_str("root"), Ok(Role::Root));
    assert_eq!(Role::from_str("admin"), Ok(Role::Admin));
    assert_eq!(Role::from_str("manager"), Ok(Role::Manager));
    assert_eq!(Role::from_str("member"), Ok(Role::Member));
    assert_eq!(Role::from_str("editor"), Ok(Role::By("editor".to_string())));
    assert_eq!(Role::from_str(""), Ok(Role::By(String::new())));
    assert_eq!(Role::from_str("Root"), Ok(Role::By("Root".to_string())));
}

#[test]
fn role_round_trips() {
    for s in ["root", "admin", "manager", "member", "editor", ""] {
        assert_eq!(Role::from_str(s).unwrap().to_string(), s);
    }
    for r in [Role::Root, Role::Admin, Role::Manager, Role::Member, Role::By("x".to_string())] {
        assert_eq!(Role::from_str(&r.to_string()), Ok(r.clone()));
    }
    // a custom role spelled like a built-in one reads back as the built-in one
    assert_eq!(Role::from_str(&Role::By("admin".to_string()).to_string()), Ok(Role::Admin));
}

#[test]
fn grant_in_force_between_its_days() {
    let it = item(1, "admin", None, day(2019, 1, 1), day(2019, 1, 31));
    assert!(!it.enable_on(day(2018, 12, 31)));
    assert!(it.enable_on(day(2019, 1, 1)));
    assert!(it.enable_on(day(2019, 1, 15)));
    assert!(it.enable_on(day(2019, 1, 31)));
    assert!(!it.enable_on(day(2019, 2, 1)));
}

#[test]
fn grant_in_force_today() {
    let always = item(1, "admin", None, Date { days: MIN_DAY }, Date { days: MAX_DAY });
    assert_eq!(always.enable(), Some(true));
    let over = item(2, "admin", None, day(2000, 1, 1), day(2000, 1, 2));
    assert_eq!(over.enable(), Some(false));
    assert_eq!(granted(&Some(always)), Some(true));
    assert_eq!(granted(&Some(over)), Some(false));
    assert_eq!(granted(&None), Some(false));
}

#[test]
fn weeks_window_from_a_moment() {
    let start = day(2019, 3, 1);
    let (nbf, exp) = Item::weeks_at(noon(start), 2).unwrap();
    assert_eq!(nbf, start);
    assert_eq!(exp, day(2019, 3, 15));
    let (nbf, exp) = Item::weeks_at(noon(start), -1).unwrap();
    assert_eq!(nbf, start);
    assert_eq!(exp, day(2019, 2, 22));
    let (_, exp) = Item::weeks_at(noon(start), 0).unwrap();
    assert_eq!(exp, start);
}

#[test]
fn weeks_window_from_a_leap_second() {
    let start = day(2016, 12, 31);
    let leap = DateTime { date: start, secs: 86399, nanos: 1_500_000_000 };
    assert_eq!(Item::weeks_at(leap, 1).unwrap().1, day(2017, 1, 7));
    assert_eq!(Item::weeks_at(leap, -1).unwrap().1, day(2016, 12, 25));
    assert_eq!(Item::weeks_at(leap, 0).unwrap().1, start);
    let minute_leap = DateTime { date: start, secs: 59, nanos: 1_000_000_000 };
    assert_eq!(Item::weeks_at(minute_leap, -1).unwrap().1, day(2016, 12, 24));
}

#[test]
fn weeks_window_at_the_calendar_edges() {
    let (_, exp) = Item::weeks_at(noon(Date { days: MAX_DAY - 7 }), 1).unwrap();
    assert_eq!(exp, Date { days: MAX_DAY });
    assert_eq!(NaiveDate::MAX.num_days_from_ce(), MAX_DAY);
    let (_, exp) = Item::weeks_at(noon(Date { days: MIN_DAY + 7 }), -1).unwrap();
    assert_eq!(exp, Date { days: MIN_DAY });
    assert_eq!(NaiveDate::MIN.num_days_from_ce(), MIN_DAY);
}

#[test]
fn weeks_window_from_now() {
    let today = chrono::Utc::now().naive_utc().date().num_days_from_ce();
    let (nbf, exp) = Item::weeks(3).unwrap();
    assert!(nbf.days == today || nbf.days == today + 1);
    assert_eq!(exp.days - nbf.days, 21);
    assert_eq!(Item::weeks(i64::MAX), None);
    assert_eq!(Item::weeks(20_000_000), None);
    assert_eq!(Item::weeks(-20_000_000), None);
    let now = chrono::Utc::now().naive_utc();
    assert!(now.time().num_seconds_from_midnight() < 86400);
}

#[test]
fn key_of_a_grant() {
    let key = PolicyKey::new(7, &Role::Manager, &Some("blog".to_string()));
    assert_eq!(
        key,
        PolicyKey { user_id: 7, role: "manager".to_string(), resource: Some("blog".to_string()) }
    );
    let key = PolicyKey::new(3, &Role::By("editor".to_string()), &None);
    assert_eq!(key, PolicyKey { user_id: 3, role: "editor".to_string(), resource: None });
}

#[test]
fn apply_updates_a_found_grant() {
    let found = Some(item(42, "admin", None, day(2019, 1, 1), day(2019, 1, 2)));
    let key = PolicyKey::new(7, &Role::Admin, &None);
    let now = noon(day(2019, 6, 1));
    let w = plan_apply(&found, key, day(2019, 6, 1), day(2019, 7, 1), now);
    assert_eq!(
        w,
        Write::Update { id: 42, nbf: day(2019, 6, 1), exp: day(2019, 7, 1), updated_at: now }
    );
}

#[test]
fn apply_inserts_when_nothing_found() {
    let key = PolicyKey::new(7, &Role::Member, &Some("forum".to_string()));
    let now = noon(day(2019, 6, 1));
    let w = plan_apply(&None, key, day(2019, 6, 1), day(2019, 7, 1), now);
    assert_eq!(
        w,
        Write::Insert(New {
            user_id: 7,
            role: "member".to_string(),
            resource: Some("forum".to_string()),
            nbf: day(2019, 6, 1),
            exp: day(2019, 7, 1),
            updated_at: now,
        })
    );
}

#[test]
fn apply_now_is_stamped_with_the_clock() {
    let key = PolicyKey::new(7, &Role::Root, &None);
    match plan_apply_now(&None, key, day(2019, 6, 1), day(2019, 7, 1)).unwrap() {
        Write::Insert(n) => {
            let today = chrono::Utc::now().naive_utc().date().num_days_from_ce();
            assert!(n.updated_at.date.days == today || n.updated_at.date.days + 1 == today);
            assert_eq!(n.role, "root");
        }
        other => panic!("unexpected {:?}", other),
    }
}

#[test]
fn grant_found_or_not() {
    let it = item(1, "admin", None, day(2019, 1, 1), day(2019, 1, 31));
    assert!(granted_on(&Some(it.clone()), day(2019, 1, 10)));
    assert!(!granted_on(&Some(it), day(2019, 2, 10)));
    assert!(!granted_on(&None, day(2019, 1, 10)));
}

#[test]
fn grants_in_force_keep_their_order() {
    let items = vec![
        item(1, "admin", None, day(2019, 1, 1), day(2019, 12, 31)),
        item(2, "manager", Some("blog"), day(2020, 1, 1), day(2020, 12, 31)),
        item(3, "editor", Some("wiki"), day(2019, 6, 1), day(2019, 6, 30)),
        item(4, "member", None, day(2018, 1, 1), day(2018, 12, 31)),
    ];
    let got = enabled_grants_on(&items, day(2019, 6, 15));
    assert_eq!(
        got,
        vec![(Role::Admin, None), (Role::By("editor".to_string()), Some("wiki".to_string()))]
    );
    assert_eq!(enabled_grants_on(&items, day(2021, 1, 1)), vec![]);
    assert_eq!(enabled_grants_on(&vec![], day(2021, 1, 1)), vec![]);
}

#[test]
fn grants_in_force_today() {
    let items = vec![
        item(1, "admin", None, Date { days: MIN_DAY }, Date { days: MAX_DAY }),
        item(2, "member", None, day(2000, 1, 1), day(2000, 1, 2)),
    ];
    assert_eq!(enabled_grants(&items), Some(vec![(Role::Admin, None)]));
}

/// A grant, checked after it is applied and after it is revoked, in a table
/// kept in memory the way the store keeps it.
#[test]
fn apply_then_check_then_deny() {
    let mut rows: Vec<Item> = vec![item(1, "editor", Some("wiki"), day(2019, 1, 1), day(2019, 1, 2))];
    let key = PolicyKey::new(7, &Role::Admin, &None);
    let lookup = |rows: &Vec<Item>, key: &PolicyKey| {
        rows.iter()
            .find(|r| r.user_id == key.user_id && r.role == key.role && r.resource == key.resource)
            .cloned()
    };
    let found = lookup(&rows, &key);
    assert_eq!(found, None);
    let now = noon(day(2019, 6, 1));
    match plan_apply(&found, key.clone(), day(2019, 6, 1), day(2019, 6, 30), now) {
        Write::Insert(n) => rows.push(Item {
            id: 2,
            user_id: n.user_id,
            role: n.role,
            resource: n.resource,
            nbf: n.nbf,
            exp: n.exp,
            created_at: now,
            updated_at: n.updated_at,
        }),
        other => panic!("unexpected {:?}", other),
    }
    assert!(granted_on(&lookup(&rows, &key), day(2019, 6, 15)));
    assert!(!granted_on(&lookup(&rows, &key), day(2019, 7, 1)));
    let found = lookup(&rows, &key);
    match plan_apply(&found, key.clone(), day(2019, 7, 1), day(2019, 7, 31), now) {
        Write::Update { id, nbf, exp, updated_at } => {
            assert_eq!(id, 2);
            for r in rows.iter_mut().filter(|r| r.id == id) {
                r.nbf = nbf;
                r.exp = exp;
                r.updated_at = updated_at;
            }
        }
        other => panic!("unexpected {:?}", other),
    }
    assert!(granted_on(&lookup(&rows, &key), day(2019, 7, 1)));
    assert!(!granted_on(&lookup(&rows, &key), day(2019, 6, 15)));
    rows.retain(|r| !(r.user_id == key.user_id && r.role == key.role && r.resource == key.resource));
    assert!(!granted_on(&lookup(&rows, &key), day(2019, 7, 1)));
    assert_eq!(rows.len(), 1);
}

fn write(rows: &mut Vec<Item>, w: Write, new_id: i64, created_at: DateTime) {
    match w {
        Write::Insert(n) => rows.push(Item {
            id: new_id,
            user_id: n.user_id,
            role: n.role,
            resource: n.resource,
            nbf: n.nbf,
            exp: n.exp,
            created_at,
            updated_at: n.updated_at,
        }),
        Write::Update { id, nbf, exp, updated_at } => {
            for r in rows.iter_mut().filter(|r| r.id == id) {
                r.nbf = nbf;
                r.exp = exp;
                r.updated_at = updated_at;
            }
        }
    }
}

fn find(rows: &Vec<Item>, key: &PolicyKey) -> Option<Item> {
    rows.iter()
        .find(|r| r.user_id == key.user_id && r.role == key.role && r.resource == key.resource)
        .cloned()
}

#[test]
fn apply_twice_changes_only_the_stamp() {
    let mut rows = vec![item(1, "editor", Some("wiki"), day(2019, 1, 1), day(2019, 1, 2))];
    let key = PolicyKey::new(7, &Role::Admin, &None);
    let now1 = noon(day(2019, 6, 1));
    let now2 = noon(day(2019, 6, 2));
    let w = plan_apply(&find(&rows, &key), key.clone(), day(2019, 6, 1), day(2019, 6, 30), now1);
    write(&mut rows, w, 2, now1);
    let first = rows.clone();
    let w = plan_apply(&find(&rows, &key), key.clone(), day(2019, 6, 1), day(2019, 6, 30), now2);
    write(&mut rows, w, 3, now2);
    assert_eq!(rows.len(), first.len());
    assert_eq!(rows[0], first[0]);
    assert_eq!(rows[1], Item { updated_at: now2, ..first[1].clone() });
}

#[test]
fn apply_then_deny_restores_the_table() {
    let mut rows = vec![item(1, "editor", Some("wiki"), day(2019, 1, 1), day(2019, 1, 2))];
    let before = rows.clone();
    let key = PolicyKey::new(7, &Role::Manager, &Some("blog".to_string()));
    let now = noon(day(2019, 6, 1));
    let w = plan_apply(&find(&rows, &key), key.clone(), day(2019, 6, 1), day(2019, 6, 30), now);
    write(&mut rows, w, 2, now);
    assert_eq!(rows.len(), 2);
    rows.retain(|r| !(r.user_id == key.user_id && r.role == key.role && r.resource == key.resource));
    assert_eq!(rows, before);
}

#[test]
fn listing_agrees_with_checking() {
    let rows = vec![
        item(1, "admin", None, day(2019, 1, 1), day(2019, 12, 31)),
        item(2, "editor", Some("wiki"), day(2019, 6, 1), day(2019, 6, 30)),
        item(3, "member", None, day(2018, 1, 1), day(2018, 12, 31)),
    ];
    let today = day(2019, 6, 15);
    let listed = enabled_grants_on(&rows, today);
    for (role, resource) in [
        (Role::Admin, None),
        (Role::By("editor".to_string()), Some("wiki".to_string())),
        (Role::Member, None),
        (Role::Root, None),
        (Role::By("editor".to_string()), None),
    ] {
        let key = PolicyKey::new(7, &role, &resource);
        let checked = granted_on(&find(&rows, &key), today);
        let in_list = listed
            .iter()
            .any(|(y, r)| y.to_string() == role.to_string() && *r == resource);
        assert_eq!(checked, in_list);
    }
}

#[test]
fn clock_reading_is_today_and_after_1970() {
    let today = chrono::Utc::now().naive_utc().date().num_days_from_ce();
    let (nbf, _) = Item::weeks(0).unwrap();
    assert!(nbf.days == today || nbf.days == today + 1);
    assert!(nbf.days >= nut::time::UNIX_EPOCH_DAY);
    assert_eq!(
        NaiveDate::from_ymd_opt(1970, 1, 1).unwrap().num_days_from_ce(),
        nut::time::UNIX_EPOCH_DAY
    );
}

#[test]
fn weeks_window_past_the_calendar_is_none() {
    assert_eq!(Item::weeks_at(noon(Date { days: MAX_DAY - 6 }), 1), None);
    assert_eq!(Item::weeks_at(noon(Date { days: MIN_DAY + 6 }), -1), None);
    assert_eq!(Item::weeks_at(noon(day(2019, 1, 1)), i64::MAX), None);
    assert_eq!(Item::weeks_at(noon(day(2019, 1, 1)), i64::MIN), None);
}

#[test]
fn moment_of_a_clock_reading() {
    assert_eq!(
        moment_of_reading(0, 0),
        Some(DateTime { date: Date { days: nut::time::UNIX_EPOCH_DAY }, secs: 0, nanos: 0 })
    );
    // 2019-06-01 12:34:56.789 UTC
    assert_eq!(
        moment_of_reading(1_559_392_496, 789_000_000),
        Some(DateTime { date: day(2019, 6, 1), secs: 45_296, nanos: 789_000_000 })
    );
    assert_eq!(moment_of_reading(u64::MAX, 0), None);
    assert_eq!(moment_of_reading(i64::MAX as u64, 0), None);
}

#[test]
fn no_grant_needs_no_clock() {
    assert_eq!(granted(&None), Some(false));
    assert_eq!(enabled_grants(&vec![]), Some(vec![]));
}
