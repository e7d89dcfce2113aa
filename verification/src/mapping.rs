//! The mapping configuration: the built-in mapping files and the reading of
//! a mapping document.
//!
//! A document is an object with `output`, either `"keyboard"` or `"x360"`,
//! an optional `name`, and `buttons`, an object from button id to entry.
//! A keyboard mapping may hold `special`, the policy keys.

use crate::json::{collect_texts, json_of, parse_json, text_items, Json};
use crate::text::same_text;
use crate::types::{
    ButtonTable, DpadDirection, KeyboardButtonEntry, KeyboardMapping, KeyboardMappingView,
    KeyboardSpecialConfig, MappingConfig, MappingView, OutputType, SpecialView, TriggerName,
    X360ButtonEntry, X360ButtonName, X360Mapping, X360MappingView,
};
use vstd::prelude::*;
use vstd::string::*;

verus! {

/// The texts of a list of pairs of string slices.
pub open spec fn pair_texts(pairs: Seq<(&'static str, &'static str)>) -> Seq<
    (Seq<char>, Seq<char>),
> {
    pairs.map_values(|pair: (&'static str, &'static str)| (pair.0@, pair.1@))
}

/// The built-in modes, each with the path of its mapping file.
pub open spec fn default_map_table() -> Seq<(Seq<char>, Seq<char>)> {
    seq![
        ("iidx"@, "mapping/iidx.keyboard.json"@),
        ("popn"@, "mapping/popn.keyboard.json"@),
        ("x360"@, "mapping/x360.pad.json"@),
    ]
}

/// The built-in modes, each with the path of its mapping file.
pub fn default_maps() -> (maps: Vec<(&'static str, &'static str)>)
    ensures
        pair_texts(maps@) == default_map_table(),
{
    let mut maps: Vec<(&'static str, &'static str)> = Vec::new();
    maps.push(("iidx", "mapping/iidx.keyboard.json"));
    maps.push(("popn", "mapping/popn.keyboard.json"));
    maps.push(("x360", "mapping/x360.pad.json"));
    assert(pair_texts(maps@) =~= default_map_table());
    maps
}

/// `detail`, then the place of the document between parentheses.
pub open spec fn located(detail: Seq<char>, path: Seq<char>) -> Seq<char> {
    detail + " ("@ + path + ")"@
}

fn located_message(detail: &str, path: &str) -> (message: String)
    ensures
        message@ == located(detail@, path@),
{
    let mut message = detail.to_owned();
    message.append(" (");
    message.append(path);
    message.append(")");
    message
}

/// The logical key name of an entry of a keyboard mapping: the entry is
/// the name itself, or an object whose `key` is the name.
pub open spec fn keyboard_entry(value: Json, id: Seq<char>) -> Result<Seq<char>, Seq<char>> {
    match value {
        Json::Text(key) => Ok(key@),
        _ => match value.text_member("key"@) {
            Some(key) => Ok(key),
            None => Err("Invalid keyboard mapping entry for button "@ + id),
        },
    }
}

/// The table that the members of `buttons` make, each decoded by `decode`.
/// The first member that fails to decode fails the whole.
pub open spec fn decode_all<T>(
    members: Seq<(String, Json)>,
    decode: spec_fn(Json, Seq<char>) -> Result<T, Seq<char>>,
) -> Result<Map<Seq<char>, T>, Seq<char>>
    decreases members.len(),
{
    if members.len() == 0 {
        Ok(Map::empty())
    } else {
        match decode_all(members.drop_last(), decode) {
            Ok(table) => match decode(members.last().1, members.last().0@) {
                Ok(entry) => Ok(table.insert(members.last().0@, entry)),
                Err(message) => Err(message),
            },
            Err(message) => Err(message),
        }
    }
}

/// Once a member fails to decode, the members after it play no part.
proof fn lemma_decode_all_fails_early<T>(
    members: Seq<(String, Json)>,
    decode: spec_fn(Json, Seq<char>) -> Result<T, Seq<char>>,
    k: int,
)
    requires
        0 <= k <= members.len(),
        decode_all(members.take(k), decode) is Err,
    ensures
        decode_all(members, decode) == decode_all(members.take(k), decode),
    decreases members.len(),
{
    if k == members.len() {
        assert(members.take(k) == members);
    } else {
        assert(members.drop_last().take(k) == members.take(k));
        lemma_decode_all_fails_early(members.drop_last(), decode, k);
    }
}

/// The texts of the member `key` where that is a list; items of the list
/// that are no texts are passed over.
pub open spec fn list_member(value: Json, key: Seq<char>) -> Option<Seq<Seq<char>>> {
    match value.member(key) {
        Some(Json::List(items)) => Some(text_items(items@)),
        _ => None,
    }
}

/// The unsigned integer of the member `key`, where it is one.
pub open spec fn count_member(value: Json, key: Seq<char>) -> Option<u64> {
    match value.member(key) {
        Some(Json::Number(count)) => count,
        _ => None,
    }
}

/// The policy keys that `special` holds. A key that is absent, or whose
/// value is of another kind than expected, counts as not given.
pub open spec fn keyboard_special(value: Json) -> Result<SpecialView, Seq<char>> {
    if value is Object {
        Ok(
            SpecialView {
                ignore_key: value.text_member("ignoreKey"@),
                tap_keys: list_member(value, "tapKeys"@),
                tap_duration_ms: count_member(value, "tapDurationMs"@),
                release_on_ignore: list_member(value, "releaseOnIgnore"@),
            },
        )
    } else {
        Err("\"special\" must be an object"@)
    }
}

/// The controller button that a name of a mapping document stands for.
pub open spec fn button_named(name: Seq<char>) -> Option<X360ButtonName> {
    if name == "START"@ {
        Some(X360ButtonName::Start)
    } else if name == "BACK"@ {
        Some(X360ButtonName::Back)
    } else if name == "LEFT_THUMB"@ {
        Some(X360ButtonName::LeftThumb)
    } else if name == "RIGHT_THUMB"@ {
        Some(X360ButtonName::RightThumb)
    } else if name == "LEFT_SHOULDER"@ {
        Some(X360ButtonName::LeftShoulder)
    } else if name == "RIGHT_SHOULDER"@ {
        Some(X360ButtonName::RightShoulder)
    } else if name == "GUIDE"@ {
        Some(X360ButtonName::Guide)
    } else if name == "A"@ {
        Some(X360ButtonName::A)
    } else if name == "B"@ {
        Some(X360ButtonName::B)
    } else if name == "X"@ {
        Some(X360ButtonName::X)
    } else if name == "Y"@ {
        Some(X360ButtonName::Y)
    } else {
        None
    }
}

/// The D-pad direction that a name of a mapping document stands for.
pub open spec fn direction_named(name: Seq<char>) -> Option<DpadDirection> {
    if name == "up"@ {
        Some(DpadDirection::Up)
    } else if name == "down"@ {
        Some(DpadDirection::Down)
    } else if name == "left"@ {
        Some(DpadDirection::Left)
    } else if name == "right"@ {
        Some(DpadDirection::Right)
    } else {
        None
    }
}

/// The trigger that a name of a mapping document stands for.
pub open spec fn trigger_named(name: Seq<char>) -> Option<TriggerName> {
    if name == "left"@ {
        Some(TriggerName::Left)
    } else if name == "right"@ {
        Some(TriggerName::Right)
    } else {
        None
    }
}

/// What an entry of a gamepad mapping drives, or why it is no entry. An
/// entry is an object whose `type` is `button`, `dpad` or `trigger`, with
/// the button in `name`, the direction in `direction`, or the trigger in
/// `trigger`. Other members are not looked at.
pub open spec fn x360_entry(value: Json) -> Result<X360ButtonEntry, Seq<char>> {
    if !(value is Object) {
        Err("expected an object"@)
    } else {
        match value.text_member("type"@) {
            None => Err("missing field `type`"@),
            Some(kind) => if kind == "button"@ {
                match value.text_member("name"@) {
                    None => Err("missing field `name`"@),
                    Some(name) => match button_named(name) {
                        Some(name) => Ok(X360ButtonEntry::Button { name }),
                        None => Err("unknown button name"@),
                    },
                }
            } else if kind == "dpad"@ {
                match value.text_member("direction"@) {
                    None => Err("missing field `direction`"@),
                    Some(name) => match direction_named(name) {
                        Some(direction) => Ok(X360ButtonEntry::Dpad { direction }),
                        None => Err("unknown direction"@),
                    },
                }
            } else if kind == "trigger"@ {
                match value.text_member("trigger"@) {
                    None => Err("missing field `trigger`"@),
                    Some(name) => match trigger_named(name) {
                        Some(trigger) => Ok(X360ButtonEntry::Trigger { trigger }),
                        None => Err("unknown trigger"@),
                    },
                }
            } else {
                Err("unknown entry type"@)
            },
        }
    }
}

/// What the entry of button `id` of a gamepad mapping drives, or the
/// message that rejects it.
pub open spec fn x360_entry_for(value: Json, id: Seq<char>) -> Result<X360ButtonEntry, Seq<char>> {
    match x360_entry(value) {
        Ok(entry) => Ok(entry),
        Err(reason) => Err("Invalid x360 mapping entry for button "@ + id + ": "@ + reason),
    }
}

/// The keyboard mapping that a document with these parts holds.
pub open spec fn keyboard_mapping_of(
    doc: Json,
    name: Option<Seq<char>>,
    buttons: Seq<(String, Json)>,
) -> Result<MappingView, Seq<char>> {
    match decode_all(buttons, |value: Json, id: Seq<char>| keyboard_entry(value, id)) {
        Err(message) => Err(message),
        Ok(table) => match doc.member("special"@) {
            None => Ok(
                MappingView::Keyboard(
                    KeyboardMappingView {
                        name,
                        output: OutputType::Keyboard,
                        buttons: table,
                        special: None,
                    },
                ),
            ),
            Some(value) => match keyboard_special(value) {
                Err(message) => Err(message),
                Ok(special) => Ok(
                    MappingView::Keyboard(
                        KeyboardMappingView {
                            name,
                            output: OutputType::Keyboard,
                            buttons: table,
                            special: Some(special),
                        },
                    ),
                ),
            },
        },
    }
}

/// The gamepad mapping that a document with these parts holds.
pub open spec fn x360_mapping_of(name: Option<Seq<char>>, buttons: Seq<(String, Json)>) -> Result<
    MappingView,
    Seq<char>,
> {
    match decode_all(buttons, |value: Json, id: Seq<char>| x360_entry_for(value, id)) {
        Err(message) => Err(message),
        Ok(table) => Ok(
            MappingView::X360(X360MappingView { name, output: OutputType::X360, buttons: table }),
        ),
    }
}

/// The mapping that the document `doc`, read from `path`, holds, or the
/// message that rejects the document. The checks are made in this order:
/// the document is an object; `output` is a text; `buttons` is there; it
/// is an object; `output` names a kind of mapping; every entry of
/// `buttons` is of that kind; `special`, where a keyboard mapping has it,
/// is an object.
pub open spec fn mapping_of(doc: Json, path: Seq<char>) -> Result<MappingView, Seq<char>> {
    if !(doc is Object) {
        Err(located("Mapping JSON must be an object"@, path))
    } else {
        match doc.text_member("output"@) {
            None => Err(located("Mapping must have \"output\" field"@, path)),
            Some(output) => match doc.member("buttons"@) {
                None => Err(located("Mapping must have \"buttons\" field"@, path)),
                Some(Json::Object(buttons)) => {
                    let name = doc.text_member("name"@);
                    if output == "keyboard"@ {
                        keyboard_mapping_of(doc, name, buttons@)
                    } else if output == "x360"@ {
                        x360_mapping_of(name, buttons@)
                    } else {
                        Err(
                            located(
                                "Mapping output must be \"keyboard\" or \"x360\", got \""@ + output
                                    + "\""@,
                                path,
                            ),
                        )
                    }
                },
                Some(_) => Err(located("\"buttons\" must be an object"@, path)),
            },
        }
    }
}

/// The mapping that the JSON text `text`, read from `path`, holds, or the
/// message that rejects it.
pub open spec fn mapping_of_text(text: Seq<char>, path: Seq<char>) -> Result<
    MappingView,
    Seq<char>,
> {
    match json_of(text) {
        Ok(doc) => mapping_of(doc, path),
        Err(message) => Err("Failed to parse mapping JSON at "@ + path + ": "@ + message),
    }
}

/// Reads an entry of a keyboard mapping.
pub fn normalize_keyboard_entry(value: &Json, key_id: &str) -> (r: Result<
    KeyboardButtonEntry,
    String,
>)
    ensures
        match r {
            Ok(entry) => keyboard_entry(*value, key_id@) == Ok::<Seq<char>, Seq<char>>(entry.key@),
            Err(message) => keyboard_entry(*value, key_id@) == Err::<Seq<char>, Seq<char>>(
                message@,
            ),
        },
{
    match value.as_text() {
        Some(key) => {
            return Ok(KeyboardButtonEntry { key: key.to_owned() });
        },
        None => {},
    }
    match value.get_text("key") {
        Some(key) => Ok(KeyboardButtonEntry { key: key.to_owned() }),
        None => {
            let mut message = "Invalid keyboard mapping entry for button ".to_owned();
            message.append(key_id);
            Err(message)
        },
    }
}

/// The texts of the member `key` of `value`, where that is a list.
fn get_text_list(value: &Json, key: &str) -> (r: Option<Vec<String>>)
    ensures
        crate::types::texts_of(r) == list_member(*value, key@),
{
    match value.get(key) {
        Some(member) => match member.as_array() {
            Some(items) => Some(collect_texts(items)),
            None => None,
        },
        None => None,
    }
}

/// Reads the policy keys of a keyboard mapping.
pub fn parse_keyboard_special(value: &Json) -> (r: Result<KeyboardSpecialConfig, String>)
    ensures
        match r {
            Ok(special) => keyboard_special(*value) == Ok::<SpecialView, Seq<char>>(special@),
            Err(message) => keyboard_special(*value) == Err::<SpecialView, Seq<char>>(message@),
        },
{
    if value.as_object().is_none() {
        return Err("\"special\" must be an object".to_owned());
    }
    let ignore_key = match value.get_text("ignoreKey") {
        Some(key) => Some(key.to_owned()),
        None => None,
    };
    let tap_keys = get_text_list(value, "tapKeys");
    let tap_duration_ms = match value.get("tapDurationMs") {
        Some(member) => member.as_u64(),
        None => None,
    };
    let release_on_ignore = get_text_list(value, "releaseOnIgnore");
    Ok(KeyboardSpecialConfig { ignore_key, tap_keys, tap_duration_ms, release_on_ignore })
}

fn button_by_name(name: &str) -> (r: Option<X360ButtonName>)
    ensures
        r == button_named(name@),
{
    if same_text(name, "START") {
        Some(X360ButtonName::Start)
    } else if same_text(name, "BACK") {
        Some(X360ButtonName::Back)
    } else if same_text(name, "LEFT_THUMB") {
        Some(X360ButtonName::LeftThumb)
    } else if same_text(name, "RIGHT_THUMB") {
        Some(X360ButtonName::RightThumb)
    } else if same_text(name, "LEFT_SHOULDER") {
        Some(X360ButtonName::LeftShoulder)
    } else if same_text(name, "RIGHT_SHOULDER") {
        Some(X360ButtonName::RightShoulder)
    } else if same_text(name, "GUIDE") {
        Some(X360ButtonName::Guide)
    } else if same_text(name, "A") {
        Some(X360ButtonName::A)
    } else if same_text(name, "B") {
        Some(X360ButtonName::B)
    } else if same_text(name, "X") {
        Some(X360ButtonName::X)
    } else if same_text(name, "Y") {
        Some(X360ButtonName::Y)
    } else {
        None
    }
}

fn direction_by_name(name: &str) -> (r: Option<DpadDirection>)
    ensures
        r == direction_named(name@),
{
    if same_text(name, "up") {
        Some(DpadDirection::Up)
    } else if same_text(name, "down") {
        Some(DpadDirection::Down)
    } else if same_text(name, "left") {
        Some(DpadDirection::Left)
    } else if same_text(name, "right") {
        Some(DpadDirection::Right)
    } else {
        None
    }
}

fn trigger_by_name(name: &str) -> (r: Option<TriggerName>)
    ensures
        r == trigger_named(name@),
{
    if same_text(name, "left") {
        Some(TriggerName::Left)
    } else if same_text(name, "right") {
        Some(TriggerName::Right)
    } else {
        None
    }
}

/// Reads an entry of a gamepad mapping. The error says why the value is
/// no entry.
pub fn parse_x360_entry(value: &Json) -> (r: Result<X360ButtonEntry, String>)
    ensures
        match r {
            Ok(entry) => x360_entry(*value) == Ok::<X360ButtonEntry, Seq<char>>(entry),
            Err(reason) => x360_entry(*value) == Err::<X360ButtonEntry, Seq<char>>(reason@),
        },
{
    if value.as_object().is_none() {
        return Err("expected an object".to_owned());
    }
    let kind = match value.get_text("type") {
        Some(kind) => kind,
        None => {
            return Err("missing field `type`".to_owned());
        },
    };
    if same_text(kind, "button") {
        match value.get_text("name") {
            None => Err("missing field `name`".to_owned()),
            Some(name) => match button_by_name(name) {
                Some(name) => Ok(X360ButtonEntry::Button { name }),
                None => Err("unknown button name".to_owned()),
            },
        }
    } else if same_text(kind, "dpad") {
        match value.get_text("direction") {
            None => Err("missing field `direction`".to_owned()),
            Some(name) => match direction_by_name(name) {
                Some(direction) => Ok(X360ButtonEntry::Dpad { direction }),
                None => Err("unknown direction".to_owned()),
            },
        }
    } else if same_text(kind, "trigger") {
        match value.get_text("trigger") {
            None => Err("missing field `trigger`".to_owned()),
            Some(name) => match trigger_by_name(name) {
                Some(trigger) => Ok(X360ButtonEntry::Trigger { trigger }),
                None => Err("unknown trigger".to_owned()),
            },
        }
    } else {
        Err("unknown entry type".to_owned())
    }
}

/// Reads the buttons of a keyboard mapping.
fn keyboard_table(members: &Vec<(String, Json)>) -> (r: Result<
    ButtonTable<KeyboardButtonEntry>,
    String,
>)
    ensures
        match r {
            Ok(table) => decode_all(
                members@,
                |value: Json, id: Seq<char>| keyboard_entry(value, id),
            ) == Ok::<Map<Seq<char>, Seq<char>>, Seq<char>>(
                table@.map_values(|entry: KeyboardButtonEntry| entry.key@),
            ),
            Err(message) => decode_all(
                members@,
                |value: Json, id: Seq<char>| keyboard_entry(value, id),
            ) == Err::<Map<Seq<char>, Seq<char>>, Seq<char>>(message@),
        },
{
    let ghost decode = |value: Json, id: Seq<char>| keyboard_entry(value, id);
    let ghost key_of = |entry: KeyboardButtonEntry| entry.key@;
    let mut table: ButtonTable<KeyboardButtonEntry> = ButtonTable::new();
    let n = members.len();
    let mut i: usize = 0;
    assert(members@.take(0) == Seq::<(String, Json)>::empty());
    assert(table@.map_values(key_of) == Map::<Seq<char>, Seq<char>>::empty());
    while i < n
        invariant
            i <= n,
            n == members@.len(),
            decode == (|value: Json, id: Seq<char>| keyboard_entry(value, id)),
            key_of == (|entry: KeyboardButtonEntry| entry.key@),
            decode_all(members@.take(i as int), decode) == Ok::<
                Map<Seq<char>, Seq<char>>,
                Seq<char>,
            >(table@.map_values(key_of)),
        decreases n - i,
    {
        let ghost before = table@;
        proof {
            assert(members@.take(i + 1).drop_last() == members@.take(i as int));
            assert(members@.take(i + 1).last() == members@[i as int]);
        }
        match normalize_keyboard_entry(&members[i].1, members[i].0.as_str()) {
            Ok(entry) => {
                let id = members[i].0.clone();
                proof {
                    assert(before.insert(id@, entry).map_values(key_of) == before.map_values(
                        key_of,
                    ).insert(id@, entry.key@));
                }
                table.insert(id, entry);
            },
            Err(message) => {
                proof {
                    lemma_decode_all_fails_early(members@, decode, i + 1);
                }
                return Err(message);
            },
        }
        i += 1;
    }
    assert(members@.take(n as int) == members@);
    Ok(table)
}

/// Reads the buttons of a gamepad mapping.
fn x360_table(members: &Vec<(String, Json)>) -> (r: Result<ButtonTable<X360ButtonEntry>, String>)
    ensures
        match r {
            Ok(table) => decode_all(
                members@,
                |value: Json, id: Seq<char>| x360_entry_for(value, id),
            ) == Ok::<Map<Seq<char>, X360ButtonEntry>, Seq<char>>(table@),
            Err(message) => decode_all(
                members@,
                |value: Json, id: Seq<char>| x360_entry_for(value, id),
            ) == Err::<Map<Seq<char>, X360ButtonEntry>, Seq<char>>(message@),
        },
{
    let ghost decode = |value: Json, id: Seq<char>| x360_entry_for(value, id);
    let mut table: ButtonTable<X360ButtonEntry> = ButtonTable::new();
    let n = members.len();
    let mut i: usize = 0;
    assert(members@.take(0) == Seq::<(String, Json)>::empty());
    while i < n
        invariant
            i <= n,
            n == members@.len(),
            decode == (|value: Json, id: Seq<char>| x360_entry_for(value, id)),
            decode_all(members@.take(i as int), decode) == Ok::<
                Map<Seq<char>, X360ButtonEntry>,
                Seq<char>,
            >(table@),
        decreases n - i,
    {
        proof {
            assert(members@.take(i + 1).drop_last() == members@.take(i as int));
            assert(members@.take(i + 1).last() == members@[i as int]);
        }
        match parse_x360_entry(&members[i].1) {
            Ok(entry) => {
                table.insert(members[i].0.clone(), entry);
            },
            Err(reason) => {
                let mut message = "Invalid x360 mapping entry for button ".to_owned();
                message.append(members[i].0.as_str());
                message.append(": ");
                message.append(reason.as_str());
                proof {
                    lemma_decode_all_fails_early(members@, decode, i + 1);
                }
                return Err(message);
            },
        }
        i += 1;
    }
    assert(members@.take(n as int) == members@);
    Ok(table)
}

/// Reads the mapping that the document `doc` holds. `path` is the place
/// that the document was read from; the error messages quote it.
pub fn parse_mapping(doc: &Json, path: &str) -> (r: Result<MappingConfig, String>)
    ensures
        match r {
            Ok(mapping) => mapping_of(*doc, path@) == Ok::<MappingView, Seq<char>>(mapping@),
            Err(message) => mapping_of(*doc, path@) == Err::<MappingView, Seq<char>>(message@),
        },
{
    if doc.as_object().is_none() {
        return Err(located_message("Mapping JSON must be an object", path));
    }
    let output = match doc.get_text("output") {
        Some(output) => output,
        None => {
            return Err(located_message("Mapping must have \"output\" field", path));
        },
    };
    let buttons_value = match doc.get("buttons") {
        Some(value) => value,
        None => {
            return Err(located_message("Mapping must have \"buttons\" field", path));
        },
    };
    let buttons = match buttons_value.as_object() {
        Some(members) => members,
        None => {
            return Err(located_message("\"buttons\" must be an object", path));
        },
    };
    let name = match doc.get_text("name") {
        Some(name) => Some(name.to_owned()),
        None => None,
    };
    if same_text(output, "keyboard") {
        let table = match keyboard_table(buttons) {
            Ok(table) => table,
            Err(message) => {
                return Err(message);
            },
        };
        let special = match doc.get("special") {
            Some(value) => match parse_keyboard_special(value) {
                Ok(special) => Some(special),
                Err(message) => {
                    return Err(message);
                },
            },
            None => None,
        };
        Ok(
            MappingConfig::Keyboard(
                KeyboardMapping { name, output: OutputType::Keyboard, buttons: table, special },
            ),
        )
    } else if same_text(output, "x360") {
        match x360_table(buttons) {
            Ok(table) => Ok(
                MappingConfig::X360(X360Mapping { name, output: OutputType::X360, buttons: table }),
            ),
            Err(message) => Err(message),
        }
    } else {
        let mut detail = "Mapping output must be \"keyboard\" or \"x360\", got \"".to_owned();
        detail.append(output);
        detail.append("\"");
        Err(located_message(detail.as_str(), path))
    }
}

/// Reads the mapping that the JSON text `text` holds. `path` is the place
/// that the text was read from; the error messages quote it.
pub fn load_mapping(text: &str, path: &str) -> (r: Result<MappingConfig, String>)
    ensures
        match r {
            Ok(mapping) => mapping_of_text(text@, path@) == Ok::<MappingView, Seq<char>>(mapping@),
            Err(message) => mapping_of_text(text@, path@) == Err::<MappingView, Seq<char>>(
                message@,
            ),
        },
{
    match parse_json(text) {
        Ok(doc) => parse_mapping(&doc, path),
        Err(detail) => {
            let mut message = "Failed to parse mapping JSON at ".to_owned();
            message.append(path);
            message.append(": ");
            message.append(detail.as_str());
            Err(message)
        },
    }
}

} // verus!
