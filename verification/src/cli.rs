//! The settings of a run: what the command line gives, what the
//! environment gives in its place, and what holds when neither does.

use crate::launcher::{LauncherResult, LauncherResultView};
use crate::mapping::{default_map_table, default_maps, pair_texts};
use crate::text::{chars_of, parse_decimal, parse_unsigned, same_text};
use crate::types::text_of;
use vstd::prelude::*;
use vstd::string::*;

verus! {

/// The arguments of the command line.
#[derive(Debug, Clone, Default)]
pub struct CliArgs {
    /// The serial port, such as `COM10` or `/dev/ttyACM0`.
    pub port: Option<String>,
    pub baud: Option<u32>,
    /// The injection offset in milliseconds.
    pub offset: Option<u64>,
    /// The mapping mode: `iidx`, `popn` or `x360`.
    pub mode: Option<String>,
    /// The path of a custom mapping.
    pub map: Option<String>,
    /// Whether to start the interactive launcher.
    pub launcher: bool,
    pub debug: bool,
}

/// The variables of the environment that stand in for arguments, each as
/// it is set. `None` stands for a variable that is not set.
#[derive(Debug, Clone, Default)]
pub struct EnvDefaults {
    pub mode: Option<String>,
    pub port: Option<String>,
    pub baud: Option<String>,
    pub offset: Option<String>,
    pub debug: Option<String>,
    pub map: Option<String>,
}

/// The settings of a run.
#[derive(Debug, Clone)]
pub struct Settings {
    pub port: Option<String>,
    pub baud_rate: u32,
    pub offset_ms: u64,
    pub mode: String,
    pub map_path: Option<String>,
    pub debug: bool,
    /// Whether the launcher is to run before anything else.
    pub launch: bool,
}

/// The settings of a run as a mathematical value.
pub struct SettingsView {
    pub port: Option<Seq<char>>,
    pub baud_rate: u32,
    pub offset_ms: u64,
    pub mode: Seq<char>,
    pub map_path: Option<Seq<char>>,
    pub debug: bool,
    pub launch: bool,
}

impl View for Settings {
    type V = SettingsView;

    open spec fn view(&self) -> SettingsView {
        SettingsView {
            port: text_of(self.port),
            baud_rate: self.baud_rate,
            offset_ms: self.offset_ms,
            mode: self.mode@,
            map_path: text_of(self.map_path),
            debug: self.debug,
            launch: self.launch,
        }
    }
}

/// The baud rate of a run that is given none.
pub const DEFAULT_BAUD_RATE: u32 = 115200;

/// The argument, or in its place the variable where that is set and not
/// empty.
pub open spec fn text_setting(argument: Option<Seq<char>>, variable: Option<Seq<char>>) -> Option<
    Seq<char>,
> {
    match argument {
        Some(text) => Some(text),
        None => match variable {
            Some(text) => if text.len() > 0 {
                Some(text)
            } else {
                None
            },
            None => None,
        },
    }
}

/// The argument, or in its place the number that the variable holds, or
/// `fallback` where the variable is not set or holds no number of at most
/// `max`.
pub open spec fn number_setting(
    argument: Option<nat>,
    variable: Option<Seq<char>>,
    max: nat,
    fallback: nat,
) -> nat {
    match argument {
        Some(number) => number,
        None => match variable {
            Some(text) => match parse_unsigned(text, max) {
                Some(number) => number,
                None => fallback,
            },
            None => fallback,
        },
    }
}

/// The settings that the arguments and the environment give. The mode is
/// `iidx` where none is given. Debugging is on with the flag, or with the
/// variable set to `1`. The launcher runs where it is asked for and where
/// no port is given.
pub open spec fn settings_of(args: CliArgs, env: EnvDefaults) -> SettingsView {
    let port = text_setting(text_of(args.port), text_of(env.port));
    SettingsView {
        port,
        baud_rate: number_setting(
            match args.baud {
                Some(baud) => Some(baud as nat),
                None => None,
            },
            text_of(env.baud),
            u32::MAX as nat,
            DEFAULT_BAUD_RATE as nat,
        ) as u32,
        offset_ms: number_setting(
            match args.offset {
                Some(offset) => Some(offset as nat),
                None => None,
            },
            text_of(env.offset),
            u64::MAX as nat,
            0,
        ) as u64,
        mode: match text_setting(text_of(args.mode), text_of(env.mode)) {
            Some(mode) => mode,
            None => "iidx"@,
        },
        map_path: text_setting(text_of(args.map), text_of(env.map)),
        debug: args.debug || text_of(env.debug) == Some("1"@),
        launch: args.launcher || port is None,
    }
}

fn choose_text(argument: &Option<String>, variable: &Option<String>) -> (r: Option<String>)
    ensures
        text_of(r) == text_setting(text_of(*argument), text_of(*variable)),
{
    match argument {
        Some(text) => Some(text.clone()),
        None => match variable {
            Some(text) => {
                if chars_of(text.as_str()).len() > 0 {
                    Some(text.clone())
                } else {
                    None
                }
            },
            None => None,
        },
    }
}

fn choose_number(variable: &Option<String>, max: u64, fallback: u64) -> (r: u64)
    requires
        fallback <= max,
    ensures
        r == number_setting(None, text_of(*variable), max as nat, fallback as nat),
        r <= max,
{
    match variable {
        Some(text) => match parse_decimal(text.as_str(), max) {
            Some(number) => number,
            None => fallback,
        },
        None => fallback,
    }
}

/// Works out the settings of a run from the arguments of the command line
/// and the variables of the environment.
pub fn resolve_settings(args: &CliArgs, env: &EnvDefaults) -> (settings: Settings)
    ensures
        settings@ == settings_of(*args, *env),
{
    let port = choose_text(&args.port, &env.port);
    let baud_rate: u32 = match args.baud {
        Some(baud) => baud,
        None => choose_number(&env.baud, 0xFFFF_FFFF, 115200) as u32,
    };
    let offset_ms: u64 = match args.offset {
        Some(offset) => offset,
        None => choose_number(&env.offset, 0xFFFF_FFFF_FFFF_FFFF, 0),
    };
    let mode = match choose_text(&args.mode, &env.mode) {
        Some(mode) => mode,
        None => "iidx".to_owned(),
    };
    let map_path = choose_text(&args.map, &env.map);
    let debug = args.debug || match &env.debug {
        Some(text) => same_text(text.as_str(), "1"),
        None => false,
    };
    let launch = args.launcher || port.is_none();
    Settings { port, baud_rate, offset_ms, mode, map_path, debug, launch }
}

/// The settings after the launcher has run: its port, baud rate and mode
/// hold, and its mapping path where it gives one.
pub open spec fn with_launch(settings: SettingsView, result: LauncherResultView) -> SettingsView {
    SettingsView {
        port: Some(result.port),
        baud_rate: result.baud_rate,
        mode: result.mode,
        map_path: match result.map_path {
            Some(path) => Some(path),
            None => settings.map_path,
        },
        ..settings
    }
}

/// Takes what the launcher has chosen into the settings.
pub fn apply_launch(settings: Settings, result: LauncherResult) -> (r: Settings)
    ensures
        r@ == with_launch(settings@, result@),
{
    let map_path = match result.map_path {
        Some(path) => Some(path),
        None => settings.map_path,
    };
    Settings {
        port: Some(result.port),
        baud_rate: result.baud_rate,
        offset_ms: settings.offset_ms,
        mode: result.mode,
        map_path,
        debug: settings.debug,
        launch: settings.launch,
    }
}

/// The port of the run, or the message that asks for one.
pub fn require_port(settings: &Settings) -> (r: Result<String, String>)
    ensures
        match r {
            Ok(port) => settings@.port == Some(port@),
            Err(message) => settings@.port is None && message@
                == "Error: COM port must be specified (or use --launcher / DEFAULT_PORT)."@,
        },
{
    match &settings.port {
        Some(port) => Ok(port.clone()),
        None => Err(
            "Error: COM port must be specified (or use --launcher / DEFAULT_PORT).".to_owned(),
        ),
    }
}

/// The path of the mapping file of a built-in mode.
pub open spec fn built_in_path(table: Seq<(Seq<char>, Seq<char>)>, mode: Seq<char>) -> Option<
    Seq<char>,
>
    decreases table.len(),
{
    if table.len() == 0 {
        None
    } else if table.first().0 == mode {
        Some(table.first().1)
    } else {
        built_in_path(table.drop_first(), mode)
    }
}

/// The names of the modes of `table`, with a comma and a space between
/// them.
pub open spec fn mode_list(table: Seq<(Seq<char>, Seq<char>)>) -> Seq<char>
    decreases table.len(),
{
    if table.len() == 0 {
        Seq::empty()
    } else if table.len() == 1 {
        table.first().0
    } else {
        mode_list(table.drop_last()) + ", "@ + table.last().0
    }
}

/// The path of the mapping of a run: the custom path where one is given,
/// else the file of the mode, which must be a built-in one.
pub open spec fn map_path_of(mode: Seq<char>, map_path: Option<Seq<char>>) -> Result<
    Seq<char>,
    Seq<char>,
> {
    match map_path {
        Some(path) => Ok(path),
        None => match built_in_path(default_map_table(), mode) {
            Some(path) => Ok(path),
            None => Err(
                "Unknown mode \""@ + mode + "\". Available: "@ + mode_list(default_map_table()),
            ),
        },
    }
}

/// Works out the path of the mapping of a run. A custom path is returned
/// as it is given.
pub fn resolve_map_path(mode: &str, map_path: Option<&str>) -> (r: Result<String, String>)
    ensures
        match r {
            Ok(path) => map_path_of(
                mode@,
                match map_path {
                    Some(path) => Some(path@),
                    None => None,
                },
            ) == Ok::<Seq<char>, Seq<char>>(path@),
            Err(message) => map_path_of(
                mode@,
                match map_path {
                    Some(path) => Some(path@),
                    None => None,
                },
            ) == Err::<Seq<char>, Seq<char>>(message@),
        },
{
    match map_path {
        Some(path) => {
            return Ok(path.to_owned());
        },
        None => {},
    }
    let maps = default_maps();
    let ghost table = pair_texts(maps@);
    let n = maps.len();
    let mut i: usize = 0;
    assert(table.skip(0) == table);
    while i < n
        invariant
            i <= n,
            n == maps@.len(),
            table == pair_texts(maps@),
            table == default_map_table(),
            map_path is None,
            built_in_path(table, mode@) == built_in_path(table.skip(i as int), mode@),
        decreases n - i,
    {
        assert(table.skip(i as int).drop_first() == table.skip(i + 1));
        assert(table[i as int] == (maps@[i as int].0@, maps@[i as int].1@));
        if same_text(maps[i].0, mode) {
            return Ok(maps[i].1.to_owned());
        }
        i += 1;
    }
    let mut message = "Unknown mode \"".to_owned();
    message.append(mode);
    message.append("\". Available: ");
    let mut j: usize = 0;
    let ghost head = message@;
    assert(table.take(0) == Seq::<(Seq<char>, Seq<char>)>::empty());
    while j < n
        invariant
            j <= n,
            n == maps@.len(),
            table == pair_texts(maps@),
            message@ == head + mode_list(table.take(j as int)),
        decreases n - j,
    {
        proof {
            assert(table.take(j + 1).drop_last() == table.take(j as int));
            assert(table.take(j + 1).last() == (maps@[j as int].0@, maps@[j as int].1@));
            if j > 0 {
                assert(head + (mode_list(table.take(j as int)) + ", "@ + maps@[j as int].0@)
                    == head + mode_list(table.take(j as int)) + ", "@ + maps@[j as int].0@);
            } else {
                assert(mode_list(table.take(0)) == Seq::<char>::empty());
                assert(table.take(1).first() == table.take(1).last());
            }
        }
        if j > 0 {
            message.append(", ");
        }
        message.append(maps[j].0);
        j += 1;
    }
    assert(table.take(n as int) == table);
    Err(message)
}

} // verus!
