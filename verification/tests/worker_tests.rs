use consumerd::config::DaemonConfig;
use consumerd::config::DaemonContext;
use consumerd::config::MagentoConsumerConfig;
use consumerd::worker::ProcessStatus;
use consumerd::worker::WorkerProcess;
use consumerd::worker::applicable_consumers;
use consumerd::worker::parse_consumer_list;
use consumerd::worker::run_worker_plan;
use consumerd::worker::u32_to_string;

fn context(multiple_processes: Vec<(String, i32)>) -> DaemonContext {
    let daemon = DaemonConfig { magento_dir: "/var/www/magento".to_string(), rabbitmq_configured: true };
    let consumer = MagentoConsumerConfig {
        cron_run: false,
        max_messages: 10000,
        consumers: Vec::new(),
        multiple_processes,
    };
    DaemonContext { daemon_config: daemon, consumer_config: consumer }
}

#[test]
fn u32_to_string_prints_decimal() {
    assert_eq!(u32_to_string(0), "0");
    assert_eq!(u32_to_string(7), "7");
    assert_eq!(u32_to_string(240), "240");
    assert_eq!(u32_to_string(10000), "10000");
    assert_eq!(u32_to_string(u32::MAX), "4294967295");
}

#[test]
fn plan_single_instance_uses_single_thread_marker() {
    let ctx = context(Vec::new());
    let cmds = run_worker_plan(&ctx, &"email.sender".to_string());
    assert_eq!(cmds.len(), 1);
    assert_eq!(cmds[0].program, "bin/magento");
    assert_eq!(cmds[0].current_dir, "/var/www/magento");
    assert_eq!(
        cmds[0].args,
        vec![
            "queue:consumers:start".to_string(),
            "email.sender".to_string(),
            "--max-messages".to_string(),
            "10000".to_string(),
            "--single-thread".to_string(),
        ]
    );
}

#[test]
fn plan_multi_instance_partitions_work() {
    let ctx = context(vec![("fanout".to_string(), 3)]);
    let cmds = run_worker_plan(&ctx, &"fanout".to_string());
    assert_eq!(cmds.len(), 3);
    for (i, cmd) in cmds.iter().enumerate() {
        assert_eq!(
            cmd.args,
            vec![
                "queue:consumers:start".to_string(),
                "fanout".to_string(),
                "--max-messages".to_string(),
                "10000".to_string(),
                "--multi-process".to_string(),
                i.to_string(),
            ]
        );
    }
}

#[test]
fn plan_zero_or_negative_count_launches_nothing() {
    let ctx = context(vec![("none".to_string(), 0), ("bad".to_string(), -2)]);
    assert_eq!(run_worker_plan(&ctx, &"none".to_string()).len(), 0);
    assert_eq!(run_worker_plan(&ctx, &"bad".to_string()).len(), 0);
}

#[test]
fn parse_consumer_list_splits_and_drops_empty_lines() {
    let out = b"alpha\nbeta\n\ngamma\n".to_vec();
    let names = parse_consumer_list(&out, true);
    assert_eq!(names, vec!["alpha".to_string(), "beta".to_string(), "gamma".to_string()]);
}

#[test]
fn parse_consumer_list_filters_broker_consumer_without_rabbitmq() {
    let out = b"alpha\nasync.operations.all\nbeta\n".to_vec();
    let without = parse_consumer_list(&out, false);
    assert_eq!(without, vec!["alpha".to_string(), "beta".to_string()]);
    let with = parse_consumer_list(&out, true);
    assert_eq!(
        with,
        vec!["alpha".to_string(), "async.operations.all".to_string(), "beta".to_string()]
    );
}

#[test]
fn parse_consumer_list_skips_undecodable_lines() {
    let mut out = b"alpha\n".to_vec();
    out.push(0xff);
    out.push(0xfe);
    out.push(b'\n');
    out.extend_from_slice(b"beta\n");
    let names = parse_consumer_list(&out, true);
    assert_eq!(names, vec!["alpha".to_string(), "beta".to_string()]);
}

#[test]
fn parse_consumer_list_of_empty_output_is_empty() {
    let names = parse_consumer_list(&Vec::new(), false);
    assert!(names.is_empty());
}

#[test]
fn applicable_consumers_keeps_all_when_no_list_is_configured() {
    let all = vec!["a".to_string(), "b".to_string()];
    let chosen = applicable_consumers(&all, &Vec::new());
    assert_eq!(chosen, all);
}

#[test]
fn applicable_consumers_keeps_only_configured_names() {
    let all = vec!["a".to_string(), "b".to_string(), "c".to_string()];
    let allowed = vec!["c".to_string(), "a".to_string()];
    let chosen = applicable_consumers(&all, &allowed);
    assert_eq!(chosen, vec!["a".to_string(), "c".to_string()]);
}

#[test]
fn from_spawned_tracks_each_instance_as_alive() {
    let unit = WorkerProcess::from_spawned("w".to_string(), vec![5, 6, 7]);
    assert_eq!(unit.consumer, "w");
    assert_eq!(unit.processes.len(), 3);
    for (i, handle) in unit.processes.iter().enumerate() {
        assert_eq!(handle.pid, [5u64, 6, 7][i]);
        assert!(handle.alive);
        assert!(!handle.reaped);
    }
    assert!(unit.is_healthy());
}

#[test]
fn instance_count_follows_configuration() {
    let ctx = context(vec![("fanout".to_string(), 3), ("none".to_string(), 0), ("bad".to_string(), -2)]);
    let cfg = &ctx.consumer_config;
    assert_eq!(cfg.instance_count(&"fanout".to_string()), 3);
    assert_eq!(cfg.instance_count(&"none".to_string()), 0);
    assert_eq!(cfg.instance_count(&"bad".to_string()), 0);
    assert_eq!(cfg.instance_count(&"unlisted".to_string()), 1);
}

#[test]
fn needs_restart_when_an_instance_exited() {
    let mut unit = WorkerProcess::from_spawned("w".to_string(), vec![5, 6]);
    assert!(!unit.needs_restart(2));
    unit.record_poll(0, ProcessStatus::Exited(Some(0)));
    assert!(unit.needs_restart(2));
}

#[test]
fn needs_restart_when_the_unit_is_short_of_instances() {
    // A restart whose spawns failed leaves the unit with no handles; the
    // next tick must still see it as due for a restart.
    let unit = WorkerProcess::from_spawned("w".to_string(), Vec::new());
    assert!(unit.is_healthy());
    assert!(unit.needs_restart(2));
    assert!(!unit.needs_restart(0));
    let short = WorkerProcess::from_spawned("w".to_string(), vec![5]);
    assert!(short.needs_restart(2));
}

#[test]
fn rabbitmq_flag_accepts_only_the_affirmative_output() {
    assert!(consumerd::worker::rabbitmq_flag(&b"bool(true)\n".to_vec()));
    assert!(!consumerd::worker::rabbitmq_flag(&b"bool(false)\n".to_vec()));
    assert!(!consumerd::worker::rabbitmq_flag(&b"bool(true)".to_vec()));
    assert!(!consumerd::worker::rabbitmq_flag(&b"bool(true)\n\n".to_vec()));
    assert!(!consumerd::worker::rabbitmq_flag(&Vec::new()));
}

#[test]
fn one_exited_instance_makes_the_unit_unhealthy() {
    let mut unit = WorkerProcess::from_spawned("w".to_string(), vec![5, 6, 7]);
    unit.record_poll(1, ProcessStatus::Exited(Some(0)));
    assert!(!unit.is_healthy());
    unit.record_poll(1, ProcessStatus::Alive);
    assert!(unit.is_healthy());
    unit.record_poll(2, ProcessStatus::PollError);
    assert!(!unit.is_healthy());
}
