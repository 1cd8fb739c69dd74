use oxbar::cpu::Cpu;
use oxbar::errors::BlockError;
use oxbar::errors::ConfigError;

#[test]
fn fresh_collector_two_readings() {
    // idle_total rises by 50 and the total by 200, so the second reading
    // reports 75.0 percent.
    let mut cpu = Cpu::new("{percent}", 5, 0x00ff00);
    let first = "cpu 100 0 0 50 0\ncpu0 100 0 0 50 0\n";
    assert_eq!(cpu.content(first).unwrap(), "66.7");
    let second = "cpu 250 0 0 100 0\ncpu0 250 0 0 100 0\n";
    assert_eq!(cpu.content(second).unwrap(), "75.0");
}

#[test]
fn no_counter_advance_reports_zero() {
    let mut cpu = Cpu::new("{percent}", 5, 0);
    let stat = "cpu 250 0 0 100 0\n";
    cpu.content(stat).unwrap();
    assert_eq!(cpu.content(stat).unwrap(), "0.0");
}

#[test]
fn counter_decrease_saturates_to_zero() {
    let mut cpu = Cpu::new("{} {percent}", 5, 0);
    cpu.content("cpu 250 0 0 100 0\n").unwrap();
    assert_eq!(cpu.content("cpu 10 0 0 5 0\n").unwrap(), "0 0.0");
}

#[test]
fn all_three_tokens_substituted() {
    let mut cpu = Cpu::new("<{}|{percent}|{usage}>", 5, 0);
    cpu.content("cpu 100 0 0 50 0\n").unwrap();
    assert_eq!(cpu.content("cpu 250 0 0 100 0\n").unwrap(), "<75|75.0|75>");
}

#[test]
fn missing_cpu_line_is_an_io_error() {
    let mut cpu = Cpu::new("{}", 5, 0);
    match cpu.content("intr 12345\nctxt 6789\n") {
        Err(BlockError::Io(m)) => assert_eq!(m, "CPU line not found in /proc/stat"),
        _ => panic!("expected the I/O error"),
    }
}

#[test]
fn short_cpu_line_is_invalid() {
    let mut cpu = Cpu::new("{}", 5, 0);
    match cpu.content("cpu 1 2 3\n") {
        Err(BlockError::Io(m)) => assert_eq!(m, "Invalid CPU values in /proc/stat"),
        _ => panic!("expected the invalid-values error"),
    }
}

#[test]
fn non_numeric_fields_are_dropped() {
    // the second field does not parse, so the remaining five make the line valid
    let r = oxbar::cpu::parse_stat("cpu 10 x 20 30 40 50\n").unwrap();
    assert_eq!(r, (90, 150)); // idle 40 + iowait 50, total 10+20+30+40+50
}

#[test]
fn parse_stat_reads_idle_and_total() {
    // user nice system idle iowait irq softirq
    let r = oxbar::cpu::parse_stat("cpu 100 5 20 300 25 3 2\n").unwrap();
    assert_eq!(r, (325, 455));
}

#[test]
fn parse_stat_without_iowait_defaults_to_zero() {
    let r = oxbar::cpu::parse_stat("cpu 10 20 30 40\n").unwrap();
    assert_eq!(r, (40, 100));
}

#[test]
fn collector_getters_are_fixed() {
    let cpu = Cpu::new("{}", 7, 0xaabbcc);
    assert_eq!(cpu.interval(), 7);
    assert_eq!(cpu.color(), 0xaabbcc);
}

#[test]
fn usage_helpers_round_half_up() {
    assert_eq!(oxbar::cpu::usage_percent_whole(150, 200), 75);
    assert_eq!(oxbar::cpu::usage_percent_tenths(150, 200), 750);
    assert_eq!(oxbar::cpu::usage_percent_whole(0, 0), 0);
    assert_eq!(oxbar::cpu::usage_percent_whole(1, 3), 33);
    assert_eq!(oxbar::cpu::usage_percent_tenths(1, 3), 333);
}

#[test]
fn block_error_messages() {
    assert_eq!(
        BlockError::Io("x".to_string()).message(),
        "Block I/O error: x"
    );
    assert_eq!(
        BlockError::ParseInt("y".to_string()).message(),
        "Block parse error: y"
    );
    assert_eq!(
        BlockError::MissingFile("/sys/f".to_string()).message(),
        "Block missing file: /sys/f"
    );
    assert_eq!(
        BlockError::InvalidData("bad".to_string()).message(),
        "Block invalid data: bad"
    );
    assert_eq!(
        BlockError::CommandFailed("iw".to_string()).message(),
        "Block command failed: iw"
    );
}

#[test]
fn config_error_messages() {
    assert_eq!(ConfigError::LuaError("boom".to_string()).message(), "boom");
    assert_eq!(
        ConfigError::MissingCommandArg {
            command: "spawn".to_string(),
            field: "argument".to_string()
        }
        .message(),
        "spawn command requires argument"
    );
    assert_eq!(
        ConfigError::NoConfigAtPath.message(),
        "Could not find config file, has it been moved?"
    );
    assert_eq!(
        ConfigError::CouldNotReadConfig("denied".to_string()).message(),
        "Could not read config: denied"
    );
}
