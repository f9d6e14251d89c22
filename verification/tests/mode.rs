use qps_bench::mode::{
    configure, mode_name, needs_prepared_key, operation_name, parse_mode, plan, unknown_mode_message,
    ConfigError, Mode, Operation, Plan, RunConfig,
};

const MODES: [Mode; 6] =
    [Mode::Stat, Mode::ReadSmall, Mode::WriteSmall, Mode::Delete, Mode::List, Mode::ReadWrite];

#[test]
fn mode_names_are_read() {
    assert_eq!(parse_mode("stat"), Some(Mode::Stat));
    assert_eq!(parse_mode("read_small"), Some(Mode::ReadSmall));
    assert_eq!(parse_mode("write_small"), Some(Mode::WriteSmall));
    assert_eq!(parse_mode("delete"), Some(Mode::Delete));
    assert_eq!(parse_mode("list"), Some(Mode::List));
    assert_eq!(parse_mode("read_write"), Some(Mode::ReadWrite));
}

#[test]
fn unknown_mode_names_are_refused() {
    for name in ["", "Stat", "stat ", " stat", "read", "write", "read-write", "readwrite", "lists", "statt"] {
        assert_eq!(parse_mode(name), None, "{name:?}");
    }
}

#[test]
fn every_mode_is_read_back_from_its_name() {
    for mode in MODES {
        assert_eq!(parse_mode(mode_name(mode)), Some(mode));
    }
}

#[test]
fn operations_are_reported_under_mode_names() {
    assert_eq!(operation_name(Operation::Stat), "stat");
    assert_eq!(operation_name(Operation::Read), "read_small");
    assert_eq!(operation_name(Operation::Write), "write_small");
    assert_eq!(operation_name(Operation::Delete), "delete");
    assert_eq!(operation_name(Operation::List), "list");
}

#[test]
fn operations_on_prepared_keys() {
    assert!(needs_prepared_key(Operation::Stat));
    assert!(needs_prepared_key(Operation::Read));
    assert!(needs_prepared_key(Operation::Delete));
    assert!(!needs_prepared_key(Operation::Write));
    assert!(!needs_prepared_key(Operation::List));
}

#[test]
fn plans_of_the_modes() {
    let one = |first| Plan { populate: true, first, second: None, cleanup: true };
    assert_eq!(plan(Mode::Stat, true), one(Operation::Stat));
    assert_eq!(plan(Mode::ReadSmall, true), one(Operation::Read));
    assert_eq!(plan(Mode::Delete, true), one(Operation::Delete));
    assert_eq!(plan(Mode::List, true), one(Operation::List));
    assert_eq!(
        plan(Mode::WriteSmall, true),
        Plan { populate: false, first: Operation::Write, second: None, cleanup: false }
    );
    assert_eq!(
        plan(Mode::ReadWrite, true),
        Plan { populate: true, first: Operation::Read, second: Some(Operation::Write), cleanup: true }
    );
}

#[test]
fn no_cleanup_unless_asked_for() {
    for mode in MODES {
        let asked = plan(mode, true);
        let not_asked = plan(mode, false);
        assert!(!not_asked.cleanup);
        assert_eq!(asked.cleanup, asked.populate);
        assert_eq!(asked.populate, not_asked.populate);
        assert_eq!(asked.first, not_asked.first);
        assert_eq!(asked.second, not_asked.second);
    }
}

#[test]
fn configure_keeps_what_it_is_given() {
    assert_eq!(
        configure("read_write", 10_000, 1024, 64, 60, true),
        Ok(RunConfig {
            mode: Mode::ReadWrite,
            objects: 10_000,
            object_size: 1024,
            concurrency: 64,
            duration_seconds: 60,
            cleanup: true,
        })
    );
}

#[test]
fn configure_refuses_an_unknown_mode() {
    assert_eq!(configure("scan", 1, 1, 1, 1, false), Err(ConfigError::UnknownMode));
    assert_eq!(configure("scan", 1, 1, 0, 1, false), Err(ConfigError::UnknownMode));
}

#[test]
fn configure_refuses_zero_concurrency() {
    assert_eq!(configure("stat", 1, 1, 0, 1, false), Err(ConfigError::ZeroConcurrency));
}

#[test]
fn unknown_mode_message_names_the_modes() {
    assert_eq!(
        unknown_mode_message("scan"),
        "Unknown mode: scan. Supported modes: stat, read_small, write_small, delete, list, read_write"
    );
}
