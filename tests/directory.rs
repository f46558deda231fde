use prospect_backend::{
    group_by_university, Registry, RegistryError, SubscribeDetail, OPER_SUBSCRIBE, OPER_UNSUBSCRIBE,
};

fn sub(u: u32, d: u32) -> SubscribeDetail {
    SubscribeDetail { school_code: u, department_code: d, oper: OPER_SUBSCRIBE }
}

fn unsub(u: u32, d: u32) -> SubscribeDetail {
    SubscribeDetail { school_code: u, department_code: d, oper: OPER_UNSUBSCRIBE }
}

fn sorted(mut v: Vec<String>) -> Vec<String> {
    v.sort();
    v
}

#[test]
fn add_university_and_department() {
    let mut reg = Registry::new();
    let t = reg.add_university("tongji", "Tongji University").unwrap();
    let p = reg.add_university("pku", "Peking University").unwrap();
    assert_ne!(t, p);
    let cs = reg.add_department(t, "cs", "Computer Science").unwrap();
    let unis = reg.wechat_get_university();
    assert_eq!(unis.len(), 2);
    assert!(unis.contains(&(t, "Tongji University".to_string())));
    assert!(unis.contains(&(p, "Peking University".to_string())));
    assert_eq!(reg.wechat_get_department(t).unwrap(), vec![(cs, "Computer Science".to_string())]);
    assert_eq!(reg.wechat_get_department(p).unwrap(), vec![]);
}

#[test]
fn duplicate_slugs_are_refused() {
    let mut reg = Registry::new();
    let t = reg.add_university("tongji", "Tongji University").unwrap();
    assert_eq!(reg.add_university("tongji", "Another"), Err(RegistryError::AlreadyExists));
    reg.add_department(t, "cs", "Computer Science").unwrap();
    assert_eq!(reg.add_department(t, "cs", "Other"), Err(RegistryError::AlreadyExists));
    let p = reg.add_university("pku", "Peking University").unwrap();
    assert!(reg.add_department(p, "cs", "Computer Science").is_ok());
    assert_eq!(reg.wechat_get_university().len(), 2);
}

#[test]
fn missing_university_is_refused() {
    let mut reg = Registry::new();
    assert_eq!(reg.add_department(7, "cs", "Computer Science"), Err(RegistryError::UniversityNotFound));
    assert_eq!(reg.wechat_get_department(7), Err(RegistryError::UniversityNotFound));
    assert_eq!(reg.get_users(7, 1), Err(RegistryError::UniversityNotFound));
    assert_eq!(reg.remove_university(7), Err(RegistryError::UniversityNotFound));
    assert_eq!(reg.remove_department(7, 1), Err(RegistryError::UniversityNotFound));
}

#[test]
fn missing_department_is_refused() {
    let mut reg = Registry::new();
    let t = reg.add_university("tongji", "Tongji University").unwrap();
    assert_eq!(reg.get_users(t, 99), Err(RegistryError::DepartmentNotFound));
    assert_eq!(reg.remove_department(t, 99), Err(RegistryError::DepartmentNotFound));
    let u1 = "u1".to_string();
    assert_eq!(reg.subscribe_user(&u1, &vec![sub(t, 99)]), Err(RegistryError::DepartmentNotFound));
    assert_eq!(reg.subscribe_user(&u1, &vec![sub(t + 100, 99)]), Err(RegistryError::UniversityNotFound));
}

#[test]
fn batch_is_all_or_nothing() {
    let mut reg = Registry::new();
    let t = reg.add_university("tongji", "Tongji University").unwrap();
    let cs = reg.add_department(t, "cs", "Computer Science").unwrap();
    let u1 = "u1".to_string();
    let bad = SubscribeDetail { school_code: t, department_code: cs, oper: 7 };
    assert_eq!(reg.subscribe_user(&u1, &vec![sub(t, cs), bad]), Err(RegistryError::InvalidOperation));
    assert!(reg.wechat_get_subscribe(&u1).is_empty());
    assert!(reg.get_users(t, cs).unwrap().is_empty());
    // the first refused entry decides the error
    assert_eq!(
        reg.subscribe_user(&u1, &vec![sub(t, cs + 50), sub(t + 50, cs)]),
        Err(RegistryError::DepartmentNotFound)
    );
}

#[test]
fn subscribe_twice_is_same_as_once() {
    let mut once = Registry::new();
    let mut twice = Registry::new();
    for reg in [&mut once, &mut twice] {
        let t = reg.add_university("tongji", "Tongji University").unwrap();
        reg.add_department(t, "cs", "Computer Science").unwrap();
    }
    let t = once.wechat_get_university()[0].0;
    let cs = once.wechat_get_department(t).unwrap()[0].0;
    let u1 = "u1".to_string();
    once.subscribe_user(&u1, &vec![sub(t, cs)]).unwrap();
    twice.subscribe_user(&u1, &vec![sub(t, cs)]).unwrap();
    twice.subscribe_user(&u1, &vec![sub(t, cs)]).unwrap();
    twice.subscribe_user(&u1, &vec![sub(t, cs), sub(t, cs)]).unwrap();
    assert_eq!(once.wechat_get_subscribe(&u1), twice.wechat_get_subscribe(&u1));
    assert_eq!(once.get_users(t, cs), twice.get_users(t, cs));
    assert_eq!(twice.get_users(t, cs).unwrap(), vec!["u1".to_string()]);
}

#[test]
fn unsubscribe_absent_is_no_op() {
    let mut reg = Registry::new();
    let t = reg.add_university("tongji", "Tongji University").unwrap();
    let cs = reg.add_department(t, "cs", "Computer Science").unwrap();
    let u1 = "u1".to_string();
    assert_eq!(reg.subscribe_user(&u1, &vec![unsub(t, cs)]), Ok(()));
    assert!(reg.wechat_get_subscribe(&u1).is_empty());
    // the last entry on a department decides
    reg.subscribe_user(&u1, &vec![sub(t, cs), unsub(t, cs)]).unwrap();
    assert!(reg.wechat_get_subscribe(&u1).is_empty());
    reg.subscribe_user(&u1, &vec![unsub(t, cs), sub(t, cs)]).unwrap();
    assert_eq!(reg.wechat_get_subscribe(&u1), vec![(t, cs)]);
}

#[test]
fn index_and_subscriber_sets_agree() {
    let mut reg = Registry::new();
    let t = reg.add_university("tongji", "Tongji University").unwrap();
    let cs = reg.add_department(t, "cs", "Computer Science").unwrap();
    let ee = reg.add_department(t, "ee", "Electrical Engineering").unwrap();
    let a = "a".to_string();
    let b = "b".to_string();
    reg.subscribe_user(&a, &vec![sub(t, cs), sub(t, ee)]).unwrap();
    reg.subscribe_user(&b, &vec![sub(t, cs)]).unwrap();
    reg.subscribe_user(&a, &vec![unsub(t, ee)]).unwrap();
    for (d, users) in [(cs, vec!["a", "b"]), (ee, vec![])] {
        let set = sorted(reg.get_users(t, d).unwrap());
        assert_eq!(set, users.iter().map(|s| s.to_string()).collect::<Vec<_>>());
        for user in [&a, &b] {
            let in_index = reg.wechat_get_subscribe(user).contains(&(t, d));
            assert_eq!(in_index, set.contains(user));
        }
    }
}

#[test]
fn remove_department_cascades() {
    let mut reg = Registry::new();
    let t = reg.add_university("tongji", "Tongji University").unwrap();
    let cs = reg.add_department(t, "cs", "Computer Science").unwrap();
    let ee = reg.add_department(t, "ee", "Electrical Engineering").unwrap();
    let a = "a".to_string();
    reg.subscribe_user(&a, &vec![sub(t, cs), sub(t, ee)]).unwrap();
    assert_eq!(reg.remove_department(t, cs), Ok(()));
    assert_eq!(reg.get_users(t, cs), Err(RegistryError::DepartmentNotFound));
    assert_eq!(reg.wechat_get_subscribe(&a), vec![(t, ee)]);
    assert_eq!(reg.wechat_get_department(t).unwrap(), vec![(ee, "Electrical Engineering".to_string())]);
    // the slug is free again
    assert!(reg.add_department(t, "cs", "Computer Science").is_ok());
}

#[test]
fn remove_university_cascades() {
    let mut reg = Registry::new();
    let t = reg.add_university("tongji", "Tongji University").unwrap();
    let p = reg.add_university("pku", "Peking University").unwrap();
    let cs = reg.add_department(t, "cs", "Computer Science").unwrap();
    let math = reg.add_department(p, "math", "Mathematics").unwrap();
    let a = "a".to_string();
    reg.subscribe_user(&a, &vec![sub(t, cs), sub(p, math)]).unwrap();
    assert_eq!(reg.remove_university(t), Ok(()));
    assert_eq!(reg.get_users(t, cs), Err(RegistryError::UniversityNotFound));
    assert_eq!(reg.wechat_get_subscribe(&a), vec![(p, math)]);
    assert_eq!(reg.wechat_get_university(), vec![(p, "Peking University".to_string())]);
    assert!(reg.add_university("tongji", "Tongji University").is_ok());
}

#[test]
fn retire_subscription_removes_one_pair() {
    let mut reg = Registry::new();
    let t = reg.add_university("tongji", "Tongji University").unwrap();
    let cs = reg.add_department(t, "cs", "Computer Science").unwrap();
    let a = "a".to_string();
    let b = "b".to_string();
    reg.subscribe_user(&a, &vec![sub(t, cs)]).unwrap();
    reg.subscribe_user(&b, &vec![sub(t, cs)]).unwrap();
    reg.retire_subscription(&a, t, cs);
    assert_eq!(reg.get_users(t, cs).unwrap(), vec!["b".to_string()]);
    reg.retire_subscription(&a, t, cs);
    assert_eq!(reg.get_users(t, cs).unwrap(), vec!["b".to_string()]);
}

#[test]
fn grouping_by_university() {
    let m = group_by_university(&vec![(1, 10), (2, 20), (1, 11)]);
    assert_eq!(m.len(), 2);
    assert_eq!(m[&1], vec![10, 11]);
    assert_eq!(m[&2], vec![20]);
    assert!(group_by_university(&vec![]).is_empty());
}

#[test]
fn names_of_department() {
    let mut reg = Registry::new();
    let t = reg.add_university("tongji", "Tongji University").unwrap();
    let cs = reg.add_department(t, "cs", "Computer Science").unwrap();
    let c = reg.names_of(t, cs).unwrap();
    assert_eq!((c.university_id, c.department_id), (t, cs));
    assert_eq!(c.university_name, "Tongji University");
    assert_eq!(c.department_name, "Computer Science");
    assert!(matches!(reg.names_of(t, cs + 1), Err(RegistryError::DepartmentNotFound)));
    assert!(matches!(reg.names_of(t + 9, cs), Err(RegistryError::UniversityNotFound)));
}
