use ps2iidx_controller::cli::{
    apply_launch, require_port, resolve_map_path, resolve_settings, CliArgs, EnvDefaults,
};
use ps2iidx_controller::launcher::LauncherResult;

fn some(s: &str) -> Option<String> {
    Some(s.to_string())
}

#[test]
fn defaults_hold_when_nothing_is_given() {
    let settings = resolve_settings(&CliArgs::default(), &EnvDefaults::default());

    assert_eq!(settings.port, None);
    assert_eq!(settings.baud_rate, 115200);
    assert_eq!(settings.offset_ms, 0);
    assert_eq!(settings.mode, "iidx");
    assert_eq!(settings.map_path, None);
    assert!(!settings.debug);
    assert!(settings.launch);
}

#[test]
fn environment_stands_in_for_arguments() {
    let env = EnvDefaults {
        mode: some("popn"),
        port: some("COM7"),
        baud: some("9600"),
        offset: some("12"),
        debug: some("1"),
        map: some("my.json"),
    };
    let settings = resolve_settings(&CliArgs::default(), &env);

    assert_eq!(settings.port, some("COM7"));
    assert_eq!(settings.baud_rate, 9600);
    assert_eq!(settings.offset_ms, 12);
    assert_eq!(settings.mode, "popn");
    assert_eq!(settings.map_path, some("my.json"));
    assert!(settings.debug);
    assert!(!settings.launch);
}

#[test]
fn arguments_win_over_the_environment() {
    let args = CliArgs {
        port: some("COM1"),
        baud: Some(57600),
        offset: Some(3),
        mode: some("x360"),
        map: some("arg.json"),
        launcher: false,
        debug: false,
    };
    let env = EnvDefaults {
        mode: some("popn"),
        port: some("COM7"),
        baud: some("9600"),
        offset: some("12"),
        debug: some("0"),
        map: some("my.json"),
    };
    let settings = resolve_settings(&args, &env);

    assert_eq!(settings.port, some("COM1"));
    assert_eq!(settings.baud_rate, 57600);
    assert_eq!(settings.offset_ms, 3);
    assert_eq!(settings.mode, "x360");
    assert_eq!(settings.map_path, some("arg.json"));
    assert!(!settings.debug);
    assert!(!settings.launch);
}

#[test]
fn empty_variables_count_as_unset() {
    let env = EnvDefaults {
        mode: some(""),
        port: some(""),
        baud: some(""),
        offset: some(""),
        debug: some(""),
        map: some(""),
    };
    let settings = resolve_settings(&CliArgs::default(), &env);

    assert_eq!(settings.port, None);
    assert_eq!(settings.baud_rate, 115200);
    assert_eq!(settings.offset_ms, 0);
    assert_eq!(settings.mode, "iidx");
    assert_eq!(settings.map_path, None);
    assert!(!settings.debug);
    assert!(settings.launch);
}

#[test]
fn variables_that_hold_no_number_fall_back() {
    let env = EnvDefaults {
        baud: some("fast"),
        offset: some("-1"),
        ..EnvDefaults::default()
    };
    let settings = resolve_settings(&CliArgs::default(), &env);
    assert_eq!(settings.baud_rate, 115200);
    assert_eq!(settings.offset_ms, 0);

    let env = EnvDefaults {
        baud: some("4294967296"),
        offset: some("18446744073709551616"),
        ..EnvDefaults::default()
    };
    let settings = resolve_settings(&CliArgs::default(), &env);
    assert_eq!(settings.baud_rate, 115200);
    assert_eq!(settings.offset_ms, 0);

    let env = EnvDefaults {
        baud: some("4294967295"),
        offset: some("18446744073709551615"),
        ..EnvDefaults::default()
    };
    let settings = resolve_settings(&CliArgs::default(), &env);
    assert_eq!(settings.baud_rate, u32::MAX);
    assert_eq!(settings.offset_ms, u64::MAX);
}

#[test]
fn debug_variable_must_be_exactly_one() {
    for (value, expected) in [("1", true), ("0", false), ("true", false), (" 1", false), ("01", false)] {
        let env = EnvDefaults {
            debug: some(value),
            ..EnvDefaults::default()
        };
        assert_eq!(
            resolve_settings(&CliArgs::default(), &env).debug,
            expected,
            "{:?}",
            value
        );
    }
    let args = CliArgs {
        debug: true,
        ..CliArgs::default()
    };
    assert!(resolve_settings(&args, &EnvDefaults::default()).debug);
}

#[test]
fn launcher_runs_on_request_and_without_a_port() {
    let args = CliArgs {
        port: some("COM1"),
        launcher: true,
        ..CliArgs::default()
    };
    assert!(resolve_settings(&args, &EnvDefaults::default()).launch);

    let args = CliArgs {
        port: some("COM1"),
        ..CliArgs::default()
    };
    assert!(!resolve_settings(&args, &EnvDefaults::default()).launch);
}

#[test]
fn launcher_result_goes_into_the_settings() {
    let env = EnvDefaults {
        map: some("env.json"),
        offset: some("4"),
        ..EnvDefaults::default()
    };
    let settings = resolve_settings(&CliArgs::default(), &env);
    let result = LauncherResult {
        port: "COM9".to_string(),
        baud_rate: 19200,
        mode: "popn".to_string(),
        map_path: None,
    };
    let settings = apply_launch(settings, result);

    assert_eq!(settings.port, some("COM9"));
    assert_eq!(settings.baud_rate, 19200);
    assert_eq!(settings.mode, "popn");
    assert_eq!(settings.map_path, some("env.json"));
    assert_eq!(settings.offset_ms, 4);

    let result = LauncherResult {
        port: "COM9".to_string(),
        baud_rate: 19200,
        mode: "custom".to_string(),
        map_path: some("typed.json"),
    };
    let settings = apply_launch(settings, result);
    assert_eq!(settings.map_path, some("typed.json"));
    assert_eq!(settings.mode, "custom");
}

#[test]
fn port_is_required() {
    let settings = resolve_settings(&CliArgs::default(), &EnvDefaults::default());
    assert_eq!(
        require_port(&settings),
        Err("Error: COM port must be specified (or use --launcher / DEFAULT_PORT).".to_string())
    );

    let args = CliArgs {
        port: some("/dev/ttyACM0"),
        ..CliArgs::default()
    };
    let settings = resolve_settings(&args, &EnvDefaults::default());
    assert_eq!(require_port(&settings), Ok("/dev/ttyACM0".to_string()));
}

#[test]
fn built_in_modes_have_their_files() {
    assert_eq!(
        resolve_map_path("iidx", None),
        Ok("mapping/iidx.keyboard.json".to_string())
    );
    assert_eq!(
        resolve_map_path("popn", None),
        Ok("mapping/popn.keyboard.json".to_string())
    );
    assert_eq!(
        resolve_map_path("x360", None),
        Ok("mapping/x360.pad.json".to_string())
    );
}

#[test]
fn custom_path_wins_over_the_mode() {
    assert_eq!(
        resolve_map_path("iidx", Some("my/map.json")),
        Ok("my/map.json".to_string())
    );
    assert_eq!(
        resolve_map_path("nonsense", Some("my/map.json")),
        Ok("my/map.json".to_string())
    );
}

#[test]
fn unknown_mode_lists_the_known_ones() {
    assert_eq!(
        resolve_map_path("ddr", None),
        Err("Unknown mode \"ddr\". Available: iidx, popn, x360".to_string())
    );
    assert_eq!(
        resolve_map_path("custom", None),
        Err("Unknown mode \"custom\". Available: iidx, popn, x360".to_string())
    );
    assert_eq!(
        resolve_map_path("IIDX", None),
        Err("Unknown mode \"IIDX\". Available: iidx, popn, x360".to_string())
    );
}
