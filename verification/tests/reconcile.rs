use boinkrs::args::{Arguments, Command};
use boinkrs::codec::{encode, parse_u32, target_replicas, DecodeError};
use boinkrs::engine::{decide, reconcile_plan, reconcile_step, Action, ScaleDecision};
use boinkrs::outcome::{batch_succeeded, OutcomeError, WorkloadOutcome};
use boinkrs::workload::{current_replicas, Annotations, Workload};

const KEY: &str = "bal.io/target-replicas";

fn annotations(entries: &[(&str, &str)]) -> Annotations {
    let mut a = Annotations::new();
    for (k, v) in entries {
        a.push(String::from(*k), String::from(*v));
    }
    a
}

fn workload(name: &str, replicas: Option<i32>, entries: &[(&str, &str)]) -> Workload {
    Workload {
        name: String::from(name),
        replicas,
        annotations: annotations(entries),
    }
}

#[test]
fn encode_renders_canonical_decimal() {
    assert_eq!(encode(0), "0");
    assert_eq!(encode(7), "7");
    assert_eq!(encode(10), "10");
    assert_eq!(encode(80), "80");
    assert_eq!(encode(4294967295), "4294967295");
}

#[test]
fn parse_accepts_plain_decimal() {
    assert_eq!(parse_u32("0"), Ok(0));
    assert_eq!(parse_u32("5"), Ok(5));
    assert_eq!(parse_u32("007"), Ok(7));
    assert_eq!(parse_u32("4294967295"), Ok(4294967295));
}

#[test]
fn parse_rejects_non_decimal() {
    assert_eq!(parse_u32("abc"), Err(DecodeError));
    assert_eq!(parse_u32(""), Err(DecodeError));
    assert_eq!(parse_u32("-1"), Err(DecodeError));
    assert_eq!(parse_u32("+5"), Err(DecodeError));
    assert_eq!(parse_u32("1a"), Err(DecodeError));
    assert_eq!(parse_u32(" 5"), Err(DecodeError));
}

#[test]
fn parse_rejects_overflow() {
    assert_eq!(parse_u32("4294967296"), Err(DecodeError));
    assert_eq!(parse_u32("99999999999999999999"), Err(DecodeError));
}

#[test]
fn target_replicas_absent_key_reads_zero() {
    assert_eq!(target_replicas(&annotations(&[])), Ok(0));
    assert_eq!(target_replicas(&annotations(&[("kube-rs", "test")])), Ok(0));
}

#[test]
fn target_replicas_reads_the_fixed_key() {
    let a = annotations(&[("kube-rs", "test"), (KEY, "5"), ("app", "nginx")]);
    assert_eq!(target_replicas(&a), Ok(5));
}

#[test]
fn target_replicas_surfaces_decode_error() {
    let a = annotations(&[(KEY, "abc")]);
    assert_eq!(target_replicas(&a), Err(DecodeError));
}

#[test]
fn current_replicas_treats_absent_as_zero() {
    assert_eq!(current_replicas(&workload("web", None, &[])), 0);
    assert_eq!(current_replicas(&workload("web", Some(3), &[])), 3);
}

#[test]
fn suspend_records_current_and_targets_zero() {
    let w = workload("web", Some(5), &[]);
    let d = decide(Action::Suspend, &w).unwrap();
    assert_eq!(
        d,
        ScaleDecision {
            target_replicas: 0,
            must_update_spec: true,
            remembered_replicas: 5,
        }
    );
    let p = reconcile_step(Action::Suspend, &w).unwrap();
    assert_eq!(p.annotation_value, "5");
    assert_eq!(p.replicas, Some(0));
    assert_eq!(
        p.render_json(),
        "{\"apiVersion\":\"apps/v1\",\"kind\":\"Deployment\",\"metadata\":{\"annotations\":{\"bal.io/target-replicas\":\"5\"}},\"spec\":{\"replicas\":0}}"
    );
}

#[test]
fn suspend_at_zero_resets_memory_to_zero() {
    let w = workload("web", Some(0), &[(KEY, "5")]);
    let d = decide(Action::Suspend, &w).unwrap();
    assert_eq!(
        d,
        ScaleDecision {
            target_replicas: 0,
            must_update_spec: true,
            remembered_replicas: 0,
        }
    );
    let p = reconcile_step(Action::Suspend, &w).unwrap();
    assert_eq!(p.annotation_value, "0");
    assert_eq!(p.replicas, Some(0));
}

#[test]
fn suspend_without_declared_replicas_remembers_zero() {
    let w = workload("web", None, &[]);
    let p = reconcile_step(Action::Suspend, &w).unwrap();
    assert_eq!(p.annotation_value, "0");
    assert_eq!(p.replicas, Some(0));
}

#[test]
fn resume_restores_remembered_count() {
    let w = workload("web", Some(0), &[(KEY, "5")]);
    let d = decide(Action::Resume, &w).unwrap();
    assert_eq!(
        d,
        ScaleDecision {
            target_replicas: 5,
            must_update_spec: true,
            remembered_replicas: 5,
        }
    );
    let p = reconcile_step(Action::Resume, &w).unwrap();
    assert_eq!(p.annotation_value, "5");
    assert_eq!(p.replicas, Some(5));
    assert_eq!(
        p.render_json(),
        "{\"apiVersion\":\"apps/v1\",\"kind\":\"Deployment\",\"metadata\":{\"annotations\":{\"bal.io/target-replicas\":\"5\"}},\"spec\":{\"replicas\":5}}"
    );
}

#[test]
fn resume_without_memory_is_metadata_only() {
    let w = workload("api", Some(0), &[]);
    let d = decide(Action::Resume, &w).unwrap();
    assert_eq!(
        d,
        ScaleDecision {
            target_replicas: 0,
            must_update_spec: false,
            remembered_replicas: 0,
        }
    );
    let p = reconcile_step(Action::Resume, &w).unwrap();
    assert_eq!(p.annotation_value, "0");
    assert_eq!(p.replicas, None);
    assert_eq!(
        p.render_json(),
        "{\"apiVersion\":\"apps/v1\",\"kind\":\"Deployment\",\"metadata\":{\"annotations\":{\"bal.io/target-replicas\":\"0\"}}}"
    );
}

#[test]
fn resume_with_zero_annotation_keeps_replicas() {
    let w = workload("web", Some(3), &[(KEY, "0")]);
    let p = reconcile_step(Action::Resume, &w).unwrap();
    assert_eq!(p.annotation_value, "0");
    assert_eq!(p.replicas, None);
}

#[test]
fn resume_with_unparsable_memory_leaves_workload_unpatched() {
    let w = workload("web", Some(0), &[(KEY, "abc")]);
    assert_eq!(decide(Action::Resume, &w), Err(DecodeError));
    assert!(reconcile_step(Action::Resume, &w).is_err());
}

#[test]
fn resume_rejects_memory_beyond_replica_range() {
    let w = workload("web", Some(0), &[(KEY, "3000000000")]);
    assert_eq!(decide(Action::Resume, &w), Err(DecodeError));
}

#[test]
fn suspend_then_resume_restores_replicas() {
    let w = workload("web", Some(5), &[("app", "nginx")]);
    let suspend_patch = reconcile_step(Action::Suspend, &w).unwrap();
    assert_eq!(suspend_patch.replicas, Some(0));
    let suspended = workload(
        "web",
        Some(suspend_patch.replicas.unwrap() as i32),
        &[("app", "nginx"), (KEY, suspend_patch.annotation_value.as_str())],
    );
    let resume_patch = reconcile_step(Action::Resume, &suspended).unwrap();
    assert_eq!(resume_patch.replicas, Some(5));
}

#[test]
fn plan_treats_each_workload_independently() {
    let ws = vec![
        workload("web", Some(5), &[]),
        workload("api", Some(0), &[(KEY, "3")]),
        workload("bad", Some(0), &[(KEY, "abc")]),
    ];
    let plan = reconcile_plan(Action::Resume, &ws);
    assert_eq!(plan.len(), 3);
    let p0 = plan[0].as_ref().unwrap();
    assert_eq!(p0.annotation_value, "0");
    assert_eq!(p0.replicas, None);
    let p1 = plan[1].as_ref().unwrap();
    assert_eq!(p1.annotation_value, "3");
    assert_eq!(p1.replicas, Some(3));
    assert!(plan[2].is_err());
}

#[test]
fn arguments_report_action_and_namespace() {
    let start = Arguments {
        label: String::from("app=nginx"),
        cmd: Command::Start {
            namespace: String::from("default"),
        },
    };
    assert!(!start.is_stop_action());
    assert_eq!(start.get_namespace().as_str(), "default");
    assert_eq!(start.action(), Action::Resume);

    let stop = Arguments {
        label: String::from("app=nginx"),
        cmd: Command::Stop {
            namespace: String::from("prod"),
        },
    };
    assert!(stop.is_stop_action());
    assert_eq!(stop.get_namespace().as_str(), "prod");
    assert_eq!(stop.action(), Action::Suspend);
}

#[test]
fn batch_succeeds_only_without_errors() {
    let ok = WorkloadOutcome {
        workload_name: String::from("web"),
        applied: true,
        error: None,
    };
    let failed = WorkloadOutcome {
        workload_name: String::from("api"),
        applied: false,
        error: Some(OutcomeError::NotFound),
    };
    assert!(batch_succeeded(&Vec::new()));
    assert!(batch_succeeded(&vec![
        WorkloadOutcome {
            workload_name: String::from("web"),
            applied: true,
            error: None,
        },
        ok,
    ]));
    assert!(!batch_succeeded(&vec![failed]));
}
