use consumerd::config::DaemonConfig;
use consumerd::config::DaemonContext;
use consumerd::config::MagentoConsumerConfig;
use consumerd::config::default_cron_run;
use consumerd::config::default_max_messages;

fn consumer_config(cron_run: bool, multiple_processes: Vec<(String, i32)>) -> MagentoConsumerConfig {
    MagentoConsumerConfig {
        cron_run,
        max_messages: default_max_messages(),
        consumers: Vec::new(),
        multiple_processes,
    }
}

#[test]
fn defaults_match_provider_contract() {
    assert_eq!(default_cron_run(), true);
    assert_eq!(default_max_messages(), 10000);
}

#[test]
fn daemon_validate_reports_missing_directory() {
    let config = DaemonConfig { magento_dir: "/m".to_string(), rabbitmq_configured: false };
    let err = config.validate(false, false).err().unwrap();
    assert_eq!(err.message, "Magento directory not found");
    let err = config.validate(false, true).err().unwrap();
    assert_eq!(err.message, "Magento directory not found");
}

#[test]
fn daemon_validate_reports_missing_bin() {
    let config = DaemonConfig { magento_dir: "/m".to_string(), rabbitmq_configured: false };
    let err = config.validate(true, false).err().unwrap();
    assert_eq!(err.message, "Magento bin not found");
}

#[test]
fn daemon_validate_accepts_complete_installation() {
    let config = DaemonConfig { magento_dir: "/m".to_string(), rabbitmq_configured: true };
    assert!(config.validate(true, true).is_ok());
}

#[test]
fn consumer_validate_rejects_cron_run() {
    let config = consumer_config(true, Vec::new());
    let err = config.validate().err().unwrap();
    assert_eq!(
        err.message,
        "Magento cron worker is enabled. Please see https://experienceleague.adobe.com/docs/commerce-operations/configuration-guide/message-queues/manage-message-queues.html#configuration to see how to disable the cron_run variable."
    );
}

#[test]
fn consumer_validate_rejects_negative_instance_count() {
    let config = consumer_config(false, vec![("a".to_string(), 2), ("b".to_string(), -1)]);
    let err = config.validate().err().unwrap();
    assert_eq!(
        err.message,
        "Magento consumer multiple_processes values must be greater than zero"
    );
}

#[test]
fn consumer_validate_rejects_zero_instance_count() {
    let config = consumer_config(false, vec![("a".to_string(), 0), ("b".to_string(), 7)]);
    let err = config.validate().err().unwrap();
    assert_eq!(
        err.message,
        "Magento consumer multiple_processes values must be greater than zero"
    );
}

#[test]
fn consumer_validate_accepts_positive_counts() {
    let config = consumer_config(false, vec![("a".to_string(), 1), ("b".to_string(), 7)]);
    assert!(config.validate().is_ok());
}

#[test]
fn context_new_packs_validated_configuration() {
    let daemon = DaemonConfig { magento_dir: "/m".to_string(), rabbitmq_configured: true };
    let consumer = consumer_config(false, vec![("a".to_string(), 2)]);
    let context = DaemonContext::new(daemon, true, true, consumer).ok().unwrap();
    assert_eq!(context.daemon_config.magento_dir, "/m");
    assert!(context.daemon_config.rabbitmq_configured);
    assert_eq!(context.consumer_config.multiple_processes[0].1, 2);
}

#[test]
fn context_new_reports_daemon_error_first() {
    let daemon = DaemonConfig { magento_dir: "/m".to_string(), rabbitmq_configured: false };
    let consumer = consumer_config(true, Vec::new());
    let err = DaemonContext::new(daemon, false, true, consumer).err().unwrap();
    assert_eq!(err.message, "Magento directory not found");
}

#[test]
fn context_new_reports_consumer_error_when_daemon_is_fine() {
    let daemon = DaemonConfig { magento_dir: "/m".to_string(), rabbitmq_configured: false };
    let consumer = consumer_config(false, vec![("a".to_string(), -3)]);
    let err = DaemonContext::new(daemon, true, true, consumer).err().unwrap();
    assert_eq!(
        err.message,
        "Magento consumer multiple_processes values must be greater than zero"
    );
}
