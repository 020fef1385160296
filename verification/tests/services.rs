use omicron::clickhouse_generator::{generate_clickhose_server_config, ClickhouseHost};
use omicron::dispatch::{
    exec, log_path, open_error, stderr_env_drain, Command, EnvVar, StderrFilter, WithStderr,
};
use omicron::metrics_producer_gc::{GcReport, MetricProducerGc, PruneFailure, PrunedProducers};
use omicron::net::{SocketAddr, SocketAddrV4, SocketAddrV6};
use omicron::producer::{
    collect, register, server_result, start, Error, ProducerEndpoint, ProducerKind, StartEvent,
    StartStep,
};
use omicron::sysconf::{
    online_processor_count, usable_physical_pages, usable_physical_ram_bytes, Error as SysconfError,
};
use omicron::time::{Duration, Timestamp};

fn v6(ip: u128, port: u16) -> SocketAddrV6 {
    SocketAddrV6 { ip, port, flowinfo: 0, scope_id: 0 }
}

#[test]
fn a_clickhouse_server_is_configured_at_its_admin_address() {
    let request =
        generate_clickhose_server_config("/data".to_string(), v6(0xfd00 << 112 | 5, 8888));
    assert_eq!(request.admin_url, "http://[fd00::5]:8888");
    assert_eq!(request.settings.generation, 1);
    let settings = request.settings.settings;
    assert_eq!(settings.id, 1);
    assert_eq!(settings.config_dir, "");
    assert_eq!(settings.listen_addr, 0xfd00 << 112 | 5);
    assert_eq!(settings.datastore_path, "/data");
    assert_eq!(settings.keepers, vec![ClickhouseHost::Ipv6(1)]);
    assert_eq!(settings.remote_servers, vec![ClickhouseHost::Ipv6(1)]);
}

#[test]
fn the_log_path_has_a_default() {
    assert_eq!(log_path(EnvVar::Present("/var/log".to_string())), Ok("/var/log".to_string()));
    assert_eq!(log_path(EnvVar::NotPresent), Ok("/tmp/wicket.log".to_string()));
    assert_eq!(log_path(EnvVar::NotUnicode), Err("WICKET_LOG_PATH is not valid unicode"));
    assert_eq!(open_error("/x"), "error opening log file /x");
}

#[test]
fn the_stderr_filter_has_a_default() {
    let drain = stderr_env_drain(EnvVar::Present("debug".to_string()));
    assert!(matches!(drain, StderrFilter::Parse(filter) if filter == "debug"));
    assert!(matches!(stderr_env_drain(EnvVar::NotPresent), StderrFilter::Info));
    assert!(matches!(stderr_env_drain(EnvVar::NotUnicode), StderrFilter::Info));
}

#[test]
fn shell_commands_are_dispatched() {
    let cli = exec(EnvVar::Present("upload".to_string()), EnvVar::NotPresent).unwrap();
    assert!(matches!(cli.command, Command::Cli { args } if args == "upload"));
    assert_eq!(cli.with_stderr, WithStderr::Yes);
    assert_eq!(cli.wicketd_addr, v6(1, 12226));
    assert_eq!(cli.log_path, "/tmp/wicket.log");
    let tui = exec(EnvVar::NotPresent, EnvVar::Present("/log".to_string())).unwrap();
    assert!(matches!(tui.command, Command::Tui));
    assert_eq!(tui.with_stderr, WithStderr::No);
    assert_eq!(tui.log_path, "/log");
    assert!(exec(EnvVar::NotPresent, EnvVar::NotUnicode).is_err());
}

#[test]
fn leases_expire_after_their_duration() {
    let now = Timestamp { secs: 1_000_000, nanos: 250_000_000 };
    let gc = MetricProducerGc::new(Duration { secs: 600, nanos: 500_000_000 });
    assert_eq!(
        gc.expiration_at(now).unwrap(),
        Timestamp { secs: 999_399, nanos: 750_000_000 }
    );
    // A lease of no time expires now.
    let gc = MetricProducerGc::new(Duration { secs: 0, nanos: 0 });
    assert_eq!(gc.expiration_at(now).unwrap(), now);
    let expiration = gc.expiration().unwrap();
    assert!(expiration.secs > 1_700_000_000);
}

#[test]
fn a_lease_duration_can_be_out_of_bounds() {
    let lease_duration = Duration { secs: u64::MAX, nanos: 0 };
    let gc = MetricProducerGc::new(lease_duration);
    let report = gc.expiration_at(Timestamp { secs: 0, nanos: 0 }).unwrap_err();
    assert_eq!(report.error(), Some("out of bounds lease duration"));
    assert_eq!(report.fields(), vec!["error", "lease_duration"]);
    assert!(matches!(report, GcReport::OutOfBounds { lease_duration: d } if d == lease_duration));
    // This can be told, but it lies before the earliest time.
    let gc = MetricProducerGc::new(Duration { secs: 9_000_000_000_000, nanos: 0 });
    assert!(gc.expiration_at(Timestamp { secs: 0, nanos: 0 }).is_err());
}

#[test]
fn pruning_is_reported() {
    let expiration = Timestamp { secs: 5, nanos: 0 };
    let report = MetricProducerGc::report(expiration, Err("no database".to_string()));
    assert_eq!(report.error(), Some("no database"));
    assert_eq!(report.fields(), vec!["error"]);
    let pruned = PrunedProducers { successes: vec![1, 2], failures: Vec::new() };
    let report = MetricProducerGc::report(expiration, Ok(pruned));
    assert_eq!(report.error(), None);
    assert_eq!(report.fields(), vec!["expiration", "pruned"]);
    assert!(matches!(report, GcReport::Complete { pruned, .. } if pruned == vec![1, 2]));
    let pruned = PrunedProducers {
        successes: vec![1],
        failures: vec![PruneFailure { producer_id: 2, error: "locked".to_string() }],
    };
    let report = MetricProducerGc::report(expiration, Ok(pruned));
    assert_eq!(report.fields(), vec!["expiration", "pruned", "errors"]);
    assert!(matches!(
        report,
        GcReport::CompleteWithErrors { expiration: e, pruned, errors }
            if e == expiration && pruned == vec![1] && errors[0].producer_id == 2
    ));
}

fn endpoint(address: SocketAddr) -> ProducerEndpoint {
    ProducerEndpoint {
        id: 7,
        kind: ProducerKind::Service,
        address,
        interval: Duration { secs: 10, nanos: 0 },
    }
}

#[test]
fn a_producer_registers_the_address_it_bound() {
    let info = endpoint(SocketAddr::V6(v6(1, 0)));
    let nexus = SocketAddr::V4(SocketAddrV4 { ip: 0x7f00_0001, port: 12221 });
    let next = |event| start(&info, nexus, event);
    assert!(matches!(next(StartEvent::Logger(Ok(()))), Ok(StartStep::RegisterProbes)));
    assert!(matches!(
        next(StartEvent::Probes(Ok(()))),
        Ok(StartStep::StartServer { producer_id: 7 })
    ));
    let bound = SocketAddr::V6(v6(1, 4567));
    match next(StartEvent::Server(Ok(bound))) {
        Ok(StartStep::Register { url, server_info }) => {
            assert_eq!(url, "http://127.0.0.1:12221");
            assert_eq!(server_info, endpoint(bound));
        }
        other => panic!("{other:?}"),
    }
    assert!(matches!(next(StartEvent::Registration(Ok(()))), Ok(StartStep::Done)));
}

#[test]
fn starting_a_producer_can_fail() {
    let info = endpoint(SocketAddr::V6(v6(1, 0)));
    let failure = |event| start(&info, info.address, event).unwrap_err().to_text();
    assert_eq!(
        failure(StartEvent::Logger(Err("disk".to_string()))),
        "Error running producer HTTP server: disk"
    );
    assert_eq!(
        failure(StartEvent::Probes(Err("dtrace".to_string()))),
        "Error running producer HTTP server: failed to register DTrace probes: dtrace"
    );
    assert_eq!(
        failure(StartEvent::Server(Err("port".to_string()))),
        "Error running producer HTTP server: port"
    );
    assert_eq!(
        failure(StartEvent::Registration(register(Err("gone".to_string())))),
        "Error registering as metric producer: gone"
    );
    assert!(register(Ok(())).is_ok());
    assert!(matches!(register(Err("x".to_string())), Err(Error::RegistrationError(_))));
    assert!(server_result(Ok(())).is_ok());
    assert!(matches!(server_result(Err("x".to_string())), Err(Error::Server(_))));
}

#[test]
fn metrics_are_collected_for_the_right_producer() {
    assert!(collect(3, 3).is_ok());
    let error = collect(3, 4).unwrap_err();
    assert_eq!(error.status_code, 404);
    assert_eq!(
        error.message,
        "Producer ID 00000000-0000-0000-0000-000000000004 is not valid, expected \
         00000000-0000-0000-0000-000000000003"
    );
}

#[test]
fn sysconf_values_are_bounded() {
    assert_eq!(online_processor_count(Ok(64)).unwrap(), 64);
    assert_eq!(online_processor_count(Ok(u32::MAX as i64)).unwrap(), u32::MAX);
    let error = online_processor_count(Ok(u32::MAX as i64 + 1)).unwrap_err();
    assert!(matches!(error, SysconfError::Integer));
    assert_eq!(
        error.to_text(),
        "Integer conversion error: out of range integral type conversion attempted"
    );
    assert!(online_processor_count(Ok(-1)).is_err());
    assert_eq!(
        usable_physical_pages(Err("EINVAL".to_string())).unwrap_err().to_text(),
        "sysconf failed accessing physical pages: EINVAL"
    );
    assert_eq!(usable_physical_pages(Ok(1 << 40)).unwrap(), 1 << 40);
    assert!(usable_physical_pages(Ok(-2)).is_err());
}

#[test]
fn ram_is_counted_in_pages() {
    assert_eq!(usable_physical_ram_bytes(Ok(4096), Ok(1000)).unwrap(), 4_096_000);
    assert_eq!(
        usable_physical_ram_bytes(Err("a".to_string()), Err("b".to_string())).unwrap_err().to_text(),
        "sysconf failed accessing physical page size: a"
    );
    assert_eq!(
        usable_physical_ram_bytes(Ok(4096), Err("b".to_string())).unwrap_err().to_text(),
        "sysconf failed accessing physical pages: b"
    );
}
