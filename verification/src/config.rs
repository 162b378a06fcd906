//! Daemon and consumer configuration, with the start-up validation rules.
//!
//! The values themselves are resolved by the surrounding binary (command
//! line, working directory, the Magento installation's own configuration);
//! this module states and checks the rules they must satisfy before the
//! supervision loop may start.

use vstd::prelude::*;
use vstd::string::*;

verus! {

/// Reported when the runtime environment fails a start-up validation check.
/// Start-up validation failures are fatal: the caller reports the message
/// and exits before any worker is launched.
pub struct EnvironmentError {
    pub message: String,
}

/// Top-level daemon settings: the Magento installation directory and whether
/// that installation has a RabbitMQ message broker configured.
pub struct DaemonConfig {
    pub magento_dir: String,
    pub rabbitmq_configured: bool,
}

/// Per-installation consumer settings, as the configuration provider reports
/// them. `multiple_processes` maps a consumer name to the number of parallel
/// instances it should run with; it is resolved from a map, so a well-formed
/// value holds at most one entry per name (see
/// [`crate::worker::lemma_lookup_unique_keys`]); a consumer without an entry
/// runs as a single instance.
pub struct MagentoConsumerConfig {
    pub cron_run: bool,
    pub max_messages: u32,
    pub consumers: Vec<String>,
    pub multiple_processes: Vec<(String, i32)>,
}

/// Everything the supervision loop needs, resolved once at start-up.
pub struct DaemonContext {
    pub daemon_config: DaemonConfig,
    pub consumer_config: MagentoConsumerConfig,
}

/// Fallback when the installation does not state `cron_run` itself.
pub fn default_cron_run() -> (b: bool)
    ensures
        b == true,
{
    true
}

/// Fallback cap on messages a worker instance handles before it self-exits.
pub fn default_max_messages() -> (n: u32)
    ensures
        n == 10000,
{
    10000
}

pub open spec fn dir_missing_message() -> Seq<char> {
    "Magento directory not found"@
}

pub open spec fn bin_missing_message() -> Seq<char> {
    "Magento bin not found"@
}

pub open spec fn cron_enabled_message() -> Seq<char> {
    "Magento cron worker is enabled. Please see https://experienceleague.adobe.com/docs/commerce-operations/configuration-guide/message-queues/manage-message-queues.html#configuration to see how to disable the cron_run variable."@
}

pub open spec fn negative_processes_message() -> Seq<char> {
    "Magento consumer multiple_processes values must be greater than zero"@
}

impl DaemonConfig {
    /// Checks the installation layout. The two flags are the caller's
    /// observations of the file system: whether the Magento directory and
    /// its `bin/magento` entry point exist.
    pub fn validate(&self, magento_dir_exists: bool, magento_bin_exists: bool) -> (r: Result<
        (),
        EnvironmentError,
    >)
        ensures
            r is Ok <==> magento_dir_exists && magento_bin_exists,
            !magento_dir_exists ==> (r matches Err(e) && e.message@ == dir_missing_message()),
            magento_dir_exists && !magento_bin_exists ==> (r matches Err(e) && e.message@
                == bin_missing_message()),
    {
        if !magento_dir_exists {
            return Err(
                EnvironmentError { message: String::from_str("Magento directory not found") },
            );
        }
        if !magento_bin_exists {
            return Err(EnvironmentError { message: String::from_str("Magento bin not found") });
        }
        Ok(())
    }
}

impl MagentoConsumerConfig {
    /// Some `multiple_processes` entry asks for an instance count that is
    /// not positive: a consumer that would run no instances at all.
    pub open spec fn spec_has_nonpositive(&self) -> bool {
        exists|i: int|
            0 <= i < self.multiple_processes@.len() && self.multiple_processes@[i].1 < 1
    }

    /// The configuration is acceptable: Magento's own cron-driven consumer
    /// runner is off, and every configured instance count is positive.
    pub open spec fn spec_is_valid(&self) -> bool {
        !self.cron_run && !self.spec_has_nonpositive()
    }

    /// Rejects a configuration under which the daemon cannot supervise
    /// consumers itself: either Magento's cron runner would compete with it,
    /// or an instance count is meaningless.
    pub fn validate(&self) -> (r: Result<(), EnvironmentError>)
        ensures
            r is Ok <==> self.spec_is_valid(),
            self.cron_run ==> (r matches Err(e) && e.message@ == cron_enabled_message()),
            !self.cron_run && self.spec_has_nonpositive() ==> (r matches Err(e) && e.message@
                == negative_processes_message()),
    {
        if self.cron_run {
            return Err(
                EnvironmentError {
                    message: String::from_str(
                        "Magento cron worker is enabled. Please see https://experienceleague.adobe.com/docs/commerce-operations/configuration-guide/message-queues/manage-message-queues.html#configuration to see how to disable the cron_run variable.",
                    ),
                },
            );
        }
        let mut i: usize = 0;
        while i < self.multiple_processes.len()
            invariant
                !self.cron_run,
                0 <= i <= self.multiple_processes@.len(),
                forall|j: int| 0 <= j < i ==> self.multiple_processes@[j].1 >= 1,
            decreases self.multiple_processes@.len() - i,
        {
            if self.multiple_processes[i].1 < 1 {
                return Err(
                    EnvironmentError {
                        message: String::from_str(
                            "Magento consumer multiple_processes values must be greater than zero",
                        ),
                    },
                );
            }
            i += 1;
        }
        Ok(())
    }
}

impl DaemonContext {
    /// Packs the resolved configuration after validating both halves, the
    /// daemon settings first. The two flags are the caller's observations of
    /// the file system, as in [`DaemonConfig::validate`].
    pub fn new(
        daemon_config: DaemonConfig,
        magento_dir_exists: bool,
        magento_bin_exists: bool,
        consumer_config: MagentoConsumerConfig,
    ) -> (r: Result<DaemonContext, EnvironmentError>)
        ensures
            r is Ok <==> magento_dir_exists && magento_bin_exists
                && consumer_config.spec_is_valid(),
            r matches Ok(c) ==> c.daemon_config == daemon_config && c.consumer_config
                == consumer_config,
            !magento_dir_exists ==> (r matches Err(e) && e.message@ == dir_missing_message()),
            magento_dir_exists && !magento_bin_exists ==> (r matches Err(e) && e.message@
                == bin_missing_message()),
            magento_dir_exists && magento_bin_exists && consumer_config.cron_run ==> (r matches Err(
                e,
            ) && e.message@ == cron_enabled_message()),
            magento_dir_exists && magento_bin_exists && !consumer_config.cron_run
                && consumer_config.spec_has_nonpositive() ==> (r matches Err(e) && e.message@
                == negative_processes_message()),
    {
        match daemon_config.validate(magento_dir_exists, magento_bin_exists) {
            Ok(()) => {},
            Err(e) => {
                return Err(e);
            },
        }
        match consumer_config.validate() {
            Ok(()) => {},
            Err(e) => {
                return Err(e);
            },
        }
        Ok(DaemonContext { daemon_config, consumer_config })
    }
}

} // verus!
