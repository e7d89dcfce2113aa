//! The decisions of the interactive launcher: which port, baud rate and
//! mode a run gets from what the user selects and types.

use crate::text::{chars_of, parse_decimal, parse_unsigned, same_text, trim, trim_text};
use crate::types::names_of;
use vstd::prelude::*;
use vstd::string::*;

verus! {

/// What the launcher offers when the user just presses enter.
pub struct LauncherDefaults {
    pub port: Option<String>,
    pub baud_rate: u32,
    pub mode: String,
}

/// What the user has chosen.
pub struct LauncherResult {
    pub port: String,
    pub baud_rate: u32,
    pub mode: String,
    pub map_path: Option<String>,
}

/// The mode that takes its mapping from a path that the user types.
pub open spec fn custom_mode() -> Seq<char> {
    "custom"@
}

/// Whether `place` is the first place of `port` among `ports`.
pub open spec fn is_first_place(ports: Seq<Seq<char>>, port: Seq<char>, place: int) -> bool {
    &&& 0 <= place < ports.len()
    &&& ports[place] == port
    &&& forall|j: int| 0 <= j < place ==> ports[j] != port
}

/// The place among the ports to start the selection at: the first place
/// of the default port, where there is a default and the list holds it.
pub fn default_index(ports: &Vec<String>, default_port: Option<&str>) -> (r: Option<usize>)
    ensures
        match default_port {
            Some(port) => match r {
                Some(place) => is_first_place(names_of(ports@), port@, place as int),
                None => !names_of(ports@).contains(port@),
            },
            None => r is None,
        },
{
    match default_port {
        None => None,
        Some(port) => {
            let n = ports.len();
            let mut i: usize = 0;
            while i < n
                invariant
                    i <= n,
                    n == ports@.len(),
                    default_port == Some(port),
                    forall|j: int| 0 <= j < i ==> names_of(ports@)[j] != port@,
                decreases n - i,
            {
                if same_text(ports[i].as_str(), port) {
                    assert(names_of(ports@)[i as int] == port@);
                    return Some(i);
                }
                i += 1;
            }
            None
        },
    }
}

/// A key of the port selector.
#[derive(Debug, Clone, Copy, PartialEq, Eq, Structural)]
pub enum SelectorKey {
    Up,
    Down,
    Enter,
    /// Escape, `q`, or control-C.
    Cancel,
    Other,
}

/// What the port selector does on a key.
#[derive(Debug, Clone, Copy, PartialEq, Eq, Structural)]
pub enum SelectorStep {
    /// Show the list again with this place selected.
    Show(usize),
    /// The port at this place is chosen.
    Chosen(usize),
    /// No port is chosen.
    Cancelled,
}

/// The step of the port selector on `key`, with `selected` the place that
/// is selected among `count` ports. Up and down move by one place and
/// wrap around at the ends.
pub open spec fn selector_step_spec(selected: usize, count: usize, key: SelectorKey)
    -> SelectorStep {
    match key {
        SelectorKey::Up => SelectorStep::Show(
            if selected == 0 {
                (count - 1) as usize
            } else {
                (selected - 1) as usize
            },
        ),
        SelectorKey::Down => SelectorStep::Show(
            if selected + 1 == count {
                0
            } else {
                (selected + 1) as usize
            },
        ),
        SelectorKey::Enter => SelectorStep::Chosen(selected),
        SelectorKey::Cancel => SelectorStep::Cancelled,
        SelectorKey::Other => SelectorStep::Show(selected),
    }
}

/// Decides what the port selector does on `key`.
pub fn selector_step(selected: usize, count: usize, key: SelectorKey) -> (step: SelectorStep)
    requires
        selected < count,
    ensures
        step == selector_step_spec(selected, count, key),
        step matches SelectorStep::Show(place) ==> place < count,
        step matches SelectorStep::Chosen(place) ==> place < count,
{
    match key {
        SelectorKey::Up => SelectorStep::Show(
            if selected == 0 {
                count - 1
            } else {
                selected - 1
            },
        ),
        SelectorKey::Down => SelectorStep::Show(
            if selected + 1 == count {
                0
            } else {
                selected + 1
            },
        ),
        SelectorKey::Enter => SelectorStep::Chosen(selected),
        SelectorKey::Cancel => SelectorStep::Cancelled,
        SelectorKey::Other => SelectorStep::Show(selected),
    }
}

/// The line that the port selector shows for the port at `place`.
pub open spec fn selector_line_spec(
    port: Seq<char>,
    place: usize,
    selected: usize,
    default: Option<usize>,
) -> Seq<char> {
    let marked = (if place == selected {
        "> "@
    } else {
        "  "@
    }) + port;
    if default == Some(place) {
        marked + " [default]"@
    } else {
        marked
    }
}

/// The line that the port selector shows for the port at `place`: a
/// marker where the place is selected, the port, and a label where the
/// place is that of the default port.
pub fn selector_line(port: &str, place: usize, selected: usize, default: Option<usize>) -> (line:
    String)
    ensures
        line@ == selector_line_spec(port@, place, selected, default),
{
    let mut line = if place == selected {
        "> ".to_owned()
    } else {
        "  ".to_owned()
    };
    line.append(port);
    let is_default = match default {
        Some(d) => d == place,
        None => false,
    };
    if is_default {
        line.append(" [default]");
    }
    line
}

/// The prompt for the port, which quotes the default where there is one.
pub open spec fn port_prompt_spec(default_port: Option<Seq<char>>) -> Seq<char> {
    match default_port {
        Some(port) => "Port"@ + " ["@ + port + "]"@ + ": "@,
        None => "Port"@ + ": "@,
    }
}

/// The prompt for the port.
pub fn port_prompt(default_port: &Option<String>) -> (prompt: String)
    ensures
        prompt@ == port_prompt_spec(crate::types::text_of(*default_port)),
{
    let mut prompt = "Port".to_owned();
    match default_port {
        Some(port) => {
            prompt.append(" [");
            prompt.append(port.as_str());
            prompt.append("]");
        },
        None => {},
    }
    prompt.append(": ");
    prompt
}

/// The port of the run: the one selected; else what was typed, trimmed;
/// else, where nothing was typed, the default port; else the first port
/// found. With none of these there is no port.
pub open spec fn chosen_port(
    selected: Option<Seq<char>>,
    input: Seq<char>,
    default_port: Option<Seq<char>>,
    ports: Seq<Seq<char>>,
) -> Result<Seq<char>, Seq<char>> {
    match selected {
        Some(port) => Ok(port),
        None => if trim(input).len() > 0 {
            Ok(trim(input))
        } else {
            match default_port {
                Some(port) => Ok(port),
                None => if ports.len() > 0 {
                    Ok(ports.first())
                } else {
                    Err("Port is required to continue."@)
                },
            }
        },
    }
}

/// Decides the port of the run. `input` is what the user typed at the
/// prompt for the port, and plays no part where a port was selected.
pub fn choose_port(
    selected: Option<String>,
    input: &str,
    default_port: &Option<String>,
    ports: &Vec<String>,
) -> (r: Result<String, String>)
    ensures
        match r {
            Ok(port) => chosen_port(
                crate::types::text_of(selected),
                input@,
                crate::types::text_of(*default_port),
                names_of(ports@),
            ) == Ok::<Seq<char>, Seq<char>>(port@),
            Err(message) => chosen_port(
                crate::types::text_of(selected),
                input@,
                crate::types::text_of(*default_port),
                names_of(ports@),
            ) == Err::<Seq<char>, Seq<char>>(message@),
        },
{
    match selected {
        Some(port) => {
            return Ok(port);
        },
        None => {},
    }
    let typed = trim_text(input);
    if chars_of(typed).len() > 0 {
        return Ok(typed.to_owned());
    }
    match default_port {
        Some(port) => Ok(port.clone()),
        None => {
            if ports.len() > 0 {
                assert(names_of(ports@).first() == ports@[0]@);
                Ok(ports[0].clone())
            } else {
                Err("Port is required to continue.".to_owned())
            }
        },
    }
}

/// The baud rate of the run: the default where nothing was typed, else
/// the number typed, which must be an unsigned number of 32 bits.
pub open spec fn chosen_baud(input: Seq<char>, default: u32) -> Result<u32, Seq<char>> {
    if trim(input).len() == 0 {
        Ok(default)
    } else {
        match parse_unsigned(trim(input), u32::MAX as nat) {
            Some(baud) => Ok(baud as u32),
            None => Err("Invalid baud rate."@),
        }
    }
}

/// Decides the baud rate of the run from what the user typed.
pub fn choose_baud(input: &str, default: u32) -> (r: Result<u32, String>)
    ensures
        match r {
            Ok(baud) => chosen_baud(input@, default) == Ok::<u32, Seq<char>>(baud),
            Err(message) => chosen_baud(input@, default) == Err::<u32, Seq<char>>(message@),
        },
{
    let typed = trim_text(input);
    if chars_of(typed).len() == 0 {
        return Ok(default);
    }
    match parse_decimal(typed, 0xFFFF_FFFF) {
        Some(baud) => Ok(baud as u32),
        None => Err("Invalid baud rate.".to_owned()),
    }
}

/// The mode of the run: the default where nothing was typed, else what
/// was typed, trimmed.
pub open spec fn chosen_mode(input: Seq<char>, default: Seq<char>) -> Seq<char> {
    if trim(input).len() == 0 {
        default
    } else {
        trim(input)
    }
}

/// Decides the mode of the run from what the user typed.
pub fn choose_mode(input: &str, default: &str) -> (mode: String)
    ensures
        mode@ == chosen_mode(input@, default@),
{
    let typed = trim_text(input);
    if chars_of(typed).len() == 0 {
        default.to_owned()
    } else {
        typed.to_owned()
    }
}

/// Whether the launcher must ask for the path of a mapping.
pub fn needs_map_path(mode: &str) -> (r: bool)
    ensures
        r == (mode@ == custom_mode()),
{
    same_text(mode, "custom")
}

/// The launcher's result as a mathematical value.
pub struct LauncherResultView {
    pub port: Seq<char>,
    pub baud_rate: u32,
    pub mode: Seq<char>,
    pub map_path: Option<Seq<char>>,
}

impl View for LauncherResult {
    type V = LauncherResultView;

    open spec fn view(&self) -> LauncherResultView {
        LauncherResultView {
            port: self.port@,
            baud_rate: self.baud_rate,
            mode: self.mode@,
            map_path: crate::types::text_of(self.map_path),
        }
    }
}

/// The result of the launcher. The custom mode takes the path that was
/// typed, trimmed, and fails without one; any other mode takes no path.
pub open spec fn launched(port: Seq<char>, baud_rate: u32, mode: Seq<char>, path_input: Seq<char>)
    -> Result<LauncherResultView, Seq<char>> {
    if mode == custom_mode() {
        if trim(path_input).len() == 0 {
            Err("Mapping path is required for custom mode."@)
        } else {
            Ok(LauncherResultView { port, baud_rate, mode, map_path: Some(trim(path_input)) })
        }
    } else {
        Ok(LauncherResultView { port, baud_rate, mode, map_path: None })
    }
}

/// Puts the choices together. `path_input` is what the user typed at the
/// prompt for the mapping path, which is shown for the custom mode only.
pub fn finish_launch(port: String, baud_rate: u32, mode: String, path_input: &str) -> (r: Result<
    LauncherResult,
    String,
>)
    ensures
        match r {
            Ok(result) => launched(port@, baud_rate, mode@, path_input@) == Ok::<
                LauncherResultView,
                Seq<char>,
            >(result@),
            Err(message) => launched(port@, baud_rate, mode@, path_input@) == Err::<
                LauncherResultView,
                Seq<char>,
            >(message@),
        },
{
    if needs_map_path(mode.as_str()) {
        let typed = trim_text(path_input);
        if chars_of(typed).len() == 0 {
            return Err("Mapping path is required for custom mode.".to_owned());
        }
        Ok(LauncherResult { port, baud_rate, mode, map_path: Some(typed.to_owned()) })
    } else {
        Ok(LauncherResult { port, baud_rate, mode, map_path: None })
    }
}

} // verus!
