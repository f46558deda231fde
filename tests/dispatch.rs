use prospect_backend::{
    classify_response, AttemptOutcome, Dispatch, FailureReason, PermanentReason, Registry, RegistryError,
    SendMessage, SubscribeDetail, SubscribeTemplate, ATTEMPT_BUDGET, NOTIFY_TEMPLATE_ID, OPER_SUBSCRIBE,
};

fn setup(users: &[&str]) -> (Registry, u32, u32) {
    let mut reg = Registry::new();
    let org = reg.add_university("tongji", "Tongji University").unwrap();
    let unit = reg.add_department(org, "cs", "Computer Science").unwrap();
    for u in users {
        let detail = SubscribeDetail { school_code: org, department_code: unit, oper: OPER_SUBSCRIBE };
        reg.subscribe_user(&u.to_string(), &vec![detail]).unwrap();
    }
    (reg, org, unit)
}

/// Runs a dispatch to the end, answering each attempt with `answer(user,
/// attempt number)`; returns how many attempts each user had.
fn run(
    reg: &mut Registry,
    dsp: &mut Dispatch,
    answer: impl Fn(&str, u32) -> (bool, Option<i32>),
) -> Vec<(String, u32)> {
    let mut attempts: Vec<(String, u32)> = Vec::new();
    while let Some(user) = dsp.next_recipient() {
        let n = match attempts.iter_mut().find(|(u, _)| *u == user) {
            Some(entry) => {
                entry.1 += 1;
                entry.1
            }
            None => {
                attempts.push((user.clone(), 1));
                1
            }
        };
        let (ok, code) = answer(&user, n);
        dsp.record(reg, classify_response(ok, code));
    }
    attempts
}

#[test]
fn delivered_recipient_is_retired() {
    let (mut reg, org, unit) = setup(&["u1"]);
    let mut dsp = Dispatch::start(&reg, org, unit).unwrap();
    let attempts = run(&mut reg, &mut dsp, |_, _| (true, Some(0)));
    let report = dsp.report();
    assert_eq!(report.succeeded, 1);
    assert!(report.failures.is_empty());
    assert!(!report.cut_short);
    assert_eq!(attempts, vec![("u1".to_string(), 1)]);
    assert!(reg.wechat_get_subscribe(&"u1".to_string()).is_empty());
    assert!(reg.get_users(org, unit).unwrap().is_empty());
}

#[test]
fn rejected_recipient_is_not_retried() {
    let (mut reg, org, unit) = setup(&["u1"]);
    let mut dsp = Dispatch::start(&reg, org, unit).unwrap();
    let attempts = run(&mut reg, &mut dsp, |_, _| (true, Some(45011)));
    let report = dsp.report();
    assert_eq!(report.succeeded, 0);
    assert_eq!(report.failures, vec![("u1".to_string(), FailureReason::Rejected(45011))]);
    assert_eq!(attempts, vec![("u1".to_string(), 1)]);
    assert_eq!(reg.wechat_get_subscribe(&"u1".to_string()), vec![(org, unit)]);
}

#[test]
fn unreachable_after_budget() {
    let (mut reg, org, unit) = setup(&["bad", "good"]);
    let mut dsp = Dispatch::start(&reg, org, unit).unwrap();
    let attempts = run(&mut reg, &mut dsp, |u, _| if u == "bad" { (false, None) } else { (true, Some(0)) });
    let report = dsp.report();
    assert_eq!(report.succeeded, 1);
    assert_eq!(report.failures, vec![("bad".to_string(), FailureReason::Unreachable)]);
    assert!(attempts.contains(&("bad".to_string(), ATTEMPT_BUDGET)));
    assert!(attempts.contains(&("good".to_string(), 1)));
    assert_eq!(ATTEMPT_BUDGET, 5);
    assert_eq!(reg.get_users(org, unit).unwrap(), vec!["bad".to_string()]);
}

#[test]
fn transient_then_delivered() {
    let (mut reg, org, unit) = setup(&["u1"]);
    let mut dsp = Dispatch::start(&reg, org, unit).unwrap();
    let attempts = run(&mut reg, &mut dsp, |_, n| if n < 5 { (false, None) } else { (true, Some(0)) });
    assert_eq!(attempts, vec![("u1".to_string(), 5)]);
    assert_eq!(dsp.report().succeeded, 1);
}

#[test]
fn malformed_answer_is_permanent() {
    let (mut reg, org, unit) = setup(&["u1"]);
    let mut dsp = Dispatch::start(&reg, org, unit).unwrap();
    let attempts = run(&mut reg, &mut dsp, |_, _| (true, None));
    assert_eq!(attempts, vec![("u1".to_string(), 1)]);
    assert_eq!(dsp.report().failures, vec![("u1".to_string(), FailureReason::MalformedResponse)]);
}

#[test]
fn empty_department_gives_empty_report() {
    let (reg, org, unit) = setup(&[]);
    let dsp = Dispatch::start(&reg, org, unit).unwrap();
    assert!(dsp.is_finished());
    assert_eq!(dsp.next_recipient(), None);
    let report = dsp.report();
    assert_eq!(report.succeeded, 0);
    assert!(report.failures.is_empty());
}

#[test]
fn dispatch_to_missing_department_is_refused() {
    let (reg, org, _) = setup(&[]);
    assert!(matches!(Dispatch::start(&reg, org, 999), Err(RegistryError::DepartmentNotFound)));
    assert!(matches!(Dispatch::start(&reg, 999, 1), Err(RegistryError::UniversityNotFound)));
}

#[test]
fn cancel_marks_the_rest_not_attempted() {
    let (mut reg, org, unit) = setup(&["a", "b"]);
    let mut dsp = Dispatch::start(&reg, org, unit).unwrap();
    let first = dsp.next_recipient().unwrap();
    dsp.record(&mut reg, AttemptOutcome::Delivered);
    dsp.cancel();
    assert!(dsp.is_finished());
    let report = dsp.report();
    assert!(report.cut_short);
    assert_eq!(report.succeeded, 1);
    let other = if first == "a" { "b" } else { "a" };
    assert_eq!(report.failures, vec![(other.to_string(), FailureReason::NotAttempted)]);
}

#[test]
fn classify_each_answer() {
    assert_eq!(classify_response(false, Some(0)), AttemptOutcome::RetryableFailure);
    assert_eq!(classify_response(true, Some(0)), AttemptOutcome::Delivered);
    assert_eq!(
        classify_response(true, Some(43101)),
        AttemptOutcome::PermanentFailure(PermanentReason::Rejected(43101))
    );
    assert_eq!(
        classify_response(true, None),
        AttemptOutcome::PermanentFailure(PermanentReason::MalformedResponse)
    );
}

#[test]
fn notification_message_fields() {
    let data = SubscribeTemplate::new("Tongji".to_string(), "CS".to_string(), "2020-01-01 00:00:00".to_string());
    let m = SendMessage::notification("u1".to_string(), data);
    assert_eq!(m.template_id, NOTIFY_TEMPLATE_ID);
    assert_eq!(m.touser, "u1");
    assert_eq!(m.data.thing1.value, "Tongji");
    assert_eq!(m.data.thing2.value, "CS");
    assert_eq!(m.data.time3.value, "2020-01-01 00:00:00");
    assert_eq!(m.miniprogram_state, "developer");
    assert_eq!(m.lang, "zh_CN");
}
