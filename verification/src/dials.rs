//! Laws of the console: what its keys turn, and what it makes of what it is
//! told.

use vstd::prelude::*;
use crate::console::{lifecycle, logged, recorded, request_name, Key, KeyEffect, Screen};
use crate::json::{json_elements, json_member, json_string, json_text, json_unsigned, json_with};
use crate::protocol::{Change, Rule};

verus! {

/// Whether keys turn the setting under a key of the selected rule in steps of
/// a size, from what it is now and up to a maximum.
pub open spec fn turns_in_steps(
    screen: Screen,
    shift: bool,
    key: Seq<char>,
    now: int,
    step: int,
    maximum: int,
) -> bool {
    let taken = if shift {
        10 * step
    } else {
        step
    };
    let up = if now + taken <= maximum {
        now + taken
    } else {
        maximum
    };
    let down = if taken <= now {
        now - taken
    } else {
        0
    };
    &&& turns_to(screen, Key::Right, shift, key, now, up)
    &&& turns_to(screen, Key::Char('l'), shift, key, now, up)
    &&& turns_to(screen, Key::Left, shift, key, now, down)
    &&& turns_to(screen, Key::Char('h'), shift, key, now, down)
}

/// Whether a press writes a number under a key of the selected rule and asks
/// for the rules to be replaced, or does nothing where the number stands there
/// already or cannot be written.
pub open spec fn turns_to(
    screen: Screen,
    press: Key,
    shift: bool,
    key: Seq<char>,
    now: int,
    next: int,
) -> bool {
    match json_with(screen.rules[screen.selected_rule], key, next as u64) {
        Some(rule) => screen.with_key(press, shift) == if next == now {
            (screen, KeyEffect::Nothing)
        } else {
            (
                Screen { rules: screen.rules.update(screen.selected_rule, rule), ..screen },
                KeyEffect::ReplaceRules,
            )
        },
        None => screen.with_key(press, shift) == (screen, KeyEffect::Nothing),
    }
}

/// What the selected rule says under a key; what it leaves out counts as 0.
pub open spec fn stands_at(screen: Screen, key: Seq<char>, now: int) -> bool {
    match json_unsigned(screen.rules[screen.selected_rule], key) {
        Some(value) => now == value,
        None => now == 0,
    }
}

/// The arrows and their letters turn the selected setting. Shares move by a
/// quarter of a percent, times by a millisecond and the bandwidth by a megabit,
/// or by ten of these with shift. A setting neither falls below 0 nor rises
/// above 100 %, a second, half a second of jitter or a gigabit.
pub proof fn settings_turn_in_steps(screen: Screen, shift: bool, now: int)
    requires
        screen.wf(),
        0 <= screen.selected_rule < screen.rules.len(),
    ensures
        screen.selected_parameter == 0 && stands_at(screen, "drop_permyriad"@, now)
            ==> turns_in_steps(screen, shift, "drop_permyriad"@, now, 25, 10_000),
        screen.selected_parameter == 1 && stands_at(screen, "duplicate_permyriad"@, now)
            ==> turns_in_steps(screen, shift, "duplicate_permyriad"@, now, 25, 10_000),
        screen.selected_parameter == 2 && stands_at(screen, "reorder_permyriad"@, now)
            ==> turns_in_steps(screen, shift, "reorder_permyriad"@, now, 25, 10_000),
        screen.selected_parameter == 3 && stands_at(screen, "delay_ns"@, now)
            ==> turns_in_steps(screen, shift, "delay_ns"@, now, 1_000_000, 1_000_000_000),
        screen.selected_parameter == 4 && stands_at(screen, "jitter_ns"@, now)
            ==> turns_in_steps(screen, shift, "jitter_ns"@, now, 1_000_000, 500_000_000),
        screen.selected_parameter == 5 && stands_at(screen, "bandwidth_bps"@, now)
            ==> turns_in_steps(screen, shift, "bandwidth_bps"@, now, 1_000_000, 1_000_000_000),
{
}

/// The key for nothing writes 0 into the selected setting of the selected rule
/// and asks for the rules to be replaced, also where it was 0 before.
pub proof fn settings_are_cleared(screen: Screen, shift: bool, key: Seq<char>)
    requires
        screen.wf(),
        0 <= screen.selected_rule,
        screen.selected_parameter == 0 ==> key == "drop_permyriad"@,
        screen.selected_parameter == 1 ==> key == "duplicate_permyriad"@,
        screen.selected_parameter == 2 ==> key == "reorder_permyriad"@,
        screen.selected_parameter == 3 ==> key == "delay_ns"@,
        screen.selected_parameter == 4 ==> key == "jitter_ns"@,
        screen.selected_parameter == 5 ==> key == "bandwidth_bps"@,
    ensures
        screen.selected_rule < screen.rules.len() ==> match json_with(
            screen.rules[screen.selected_rule],
            key,
            0,
        ) {
            Some(rule) => screen.with_key(Key::Char('0'), shift) == (
                Screen { rules: screen.rules.update(screen.selected_rule, rule), ..screen },
                KeyEffect::ReplaceRules,
            ),
            None => screen.with_key(Key::Char('0'), shift) == (screen, KeyEffect::Nothing),
        },
        screen.rules.len() == 0 ==> screen.with_key(Key::Char('0'), shift) == (
            screen,
            KeyEffect::Nothing,
        ),
{
}

/// The arrows choose among six settings and the page keys among the rules, one
/// step at a time, and stay at either end. Letters stand for each of them, and
/// nothing is asked for.
pub proof fn choices_move_by_one(screen: Screen, shift: bool)
    requires
        screen.wf(),
        0 <= screen.selected_rule,
    ensures
        ({
            let (moved, effect) = screen.with_key(Key::Up, shift);
            &&& moved == Screen { selected_parameter: moved.selected_parameter, ..screen }
            &&& effect == KeyEffect::Nothing
            &&& screen.selected_parameter > 0 ==> moved.selected_parameter + 1
                == screen.selected_parameter
            &&& screen.selected_parameter == 0 ==> moved == screen
            &&& screen.with_key(Key::Char('k'), shift) == (moved, effect)
        }),
        ({
            let (moved, effect) = screen.with_key(Key::Down, shift);
            &&& moved == Screen { selected_parameter: moved.selected_parameter, ..screen }
            &&& effect == KeyEffect::Nothing
            &&& screen.selected_parameter < 5 ==> moved.selected_parameter
                == screen.selected_parameter + 1
            &&& screen.selected_parameter >= 5 ==> moved == screen
            &&& screen.with_key(Key::Char('j'), shift) == (moved, effect)
        }),
        ({
            let (moved, effect) = screen.with_key(Key::PageUp, shift);
            &&& moved == Screen { selected_rule: moved.selected_rule, ..screen }
            &&& effect == KeyEffect::Nothing
            &&& screen.selected_rule > 0 ==> moved.selected_rule + 1 == screen.selected_rule
            &&& screen.selected_rule == 0 ==> moved == screen
            &&& screen.with_key(Key::Char('['), shift) == (moved, effect)
        }),
        ({
            let (moved, effect) = screen.with_key(Key::PageDown, shift);
            &&& moved == Screen { selected_rule: moved.selected_rule, ..screen }
            &&& effect == KeyEffect::Nothing
            &&& screen.selected_rule + 1 < screen.rules.len() ==> moved.selected_rule
                == screen.selected_rule + 1
            &&& screen.selected_rule + 1 >= screen.rules.len() ==> moved == screen
            &&& screen.with_key(Key::Char(']'), shift) == (moved, effect)
        }),
{
}

/// Leaving, stopping and asking anew each have their keys and change nothing on
/// the screen; every other key is passed over.
pub proof fn other_keys_change_nothing(screen: Screen, shift: bool, c: char)
    ensures
        screen.with_key(Key::Escape, shift) == (screen, KeyEffect::Quit),
        screen.with_key(Key::Char('q'), shift) == (screen, KeyEffect::Quit),
        screen.with_key(Key::Char('x'), shift) == (screen, KeyEffect::Stop),
        screen.with_key(Key::Char('r'), shift) == (screen, KeyEffect::GetState),
        screen.with_key(Key::Tab, shift) == (screen, KeyEffect::Nothing),
        screen.with_key(Key::BackTab, shift) == (screen, KeyEffect::Nothing),
        screen.with_key(Key::Backspace, shift) == (screen, KeyEffect::Nothing),
        screen.with_key(Key::Other, shift) == (screen, KeyEffect::Nothing),
        !"qxrkj[]hl0"@.contains(c) ==> screen.with_key(Key::Char(c), shift) == (
            screen,
            KeyEffect::Nothing,
        ),
{
    reveal_strlit("qxrkj[]hl0");
    let keys = "qxrkj[]hl0"@;
    assert(keys[0] == 'q' && keys[1] == 'x' && keys[2] == 'r' && keys[3] == 'k' && keys[4] == 'j');
    assert(keys[5] == '[' && keys[6] == ']' && keys[7] == 'h' && keys[8] == 'l' && keys[9] == '0');
}

/// Without a rule there is nothing to turn.
pub proof fn no_rule_turns_nothing(screen: Screen, shift: bool)
    requires
        screen.wf(),
        screen.rules.len() == 0,
    ensures
        screen.with_key(Key::Left, shift) == (screen, KeyEffect::Nothing),
        screen.with_key(Key::Right, shift) == (screen, KeyEffect::Nothing),
        screen.with_key(Key::Char('h'), shift) == (screen, KeyEffect::Nothing),
        screen.with_key(Key::Char('l'), shift) == (screen, KeyEffect::Nothing),
{
}

/// A message goes in front of the log, every other one moves on by one place,
/// and the log holds the last eight.
pub proof fn logs_hold_the_last_eight(events: Seq<Seq<char>>, event: Seq<char>)
    requires
        events.len() <= 8,
    ensures
        logged(events, event).len() == if events.len() < 8 {
            events.len() + 1
        } else {
            8
        },
        logged(events, event)[0] == event,
        forall|i: int|
            0 < i < logged(events, event).len() ==> #[trigger] logged(events, event)[i] == events[i
                - 1],
{
}

/// Rules that are told, as a state or with an acknowledgement, take the place
/// of those on the screen. The selected rule stays selected by its place, or
/// the last one is where there are fewer. The status and the log name what came
/// and its number; counters, settings and the request number stay.
pub proof fn told_rules_are_shown(
    screen: Screen,
    line: Seq<char>,
    kind: Seq<char>,
    rules: Seq<Seq<char>>,
    parsed: Option<Seq<Rule>>,
    elapsed_ms: u64,
)
    requires
        screen.wf(),
        0 <= screen.selected_rule,
        json_text(line) is Ok,
        kind == "state"@ || kind == "applied"@,
        json_string(line, "type"@) == Some(kind),
        json_elements(line, "/state/rules"@) == Some(rules),
    ensures
        ({
            let shown = screen.with_message(line, parsed, elapsed_ms);
            &&& shown.rules == rules
            &&& screen.selected_rule < rules.len() ==> shown.selected_rule == screen.selected_rule
            &&& screen.selected_rule >= rules.len() > 0 ==> shown.selected_rule == rules.len() - 1
            &&& rules.len() == 0 ==> shown.selected_rule == 0
            &&& json_member(line, "id"@) matches Some(id) ==> shown.status == kind + " #"@ + id
            &&& json_member(line, "id"@) is None ==> shown.status == kind + " #"@ + "null"@
            &&& shown.events == logged(screen.events, shown.status)
            &&& shown.stats == screen.stats
            &&& shown.diagnostics == screen.diagnostics
            &&& shown.selected_parameter == screen.selected_parameter
            &&& shown.next_id == screen.next_id
            &&& shown.phase == screen.phase
            &&& shown.traffic == screen.traffic
            &&& match (screen.tape, parsed) {
                (Some(tape), Some(list)) => {
                    &&& shown.tape matches Some(after)
                    &&& after.path == tape.path
                    &&& after.timeline.events == recorded(tape.timeline.events, list, elapsed_ms)
                    &&& after.timeline.version == tape.timeline.version
                    &&& after.timeline.kind == tape.timeline.kind
                    &&& after.timeline.name == tape.timeline.name
                    &&& after.timeline.target == tape.timeline.target
                    &&& after.timeline.duration_ms == tape.timeline.duration_ms
                },
                _ => shown.tape == screen.tape,
            }
        }),
{
}

/// Counters and misses take their places whole and are not logged; an error is
/// shown and logged with its message; anything else is logged alone.
pub proof fn other_messages_are_shown(
    screen: Screen,
    line: Seq<char>,
    text: Seq<char>,
    kind: Seq<char>,
    parsed: Option<Seq<Rule>>,
    elapsed_ms: u64,
)
    ensures
        ({
            let shown = screen.with_message(line, parsed, elapsed_ms);
            &&& json_text(line) is Err ==> shown == (Screen {
                events: logged(screen.events, "invalid event: "@ + line),
                ..screen
            })
            &&& json_text(line) is Ok && json_string(line, "type"@) is None ==> shown == (Screen {
                events: logged(screen.events, "event: "@ + line),
                ..screen
            })
            &&& json_text(line) == Ok::<Seq<char>, Seq<char>>(text) && json_string(line, "type"@)
                == Some(kind) ==> {
                &&& kind == "stats"@ ==> shown == (Screen { stats: text, ..screen })
                &&& kind == "diagnostics"@ ==> shown == (Screen { diagnostics: text, ..screen })
                &&& kind == "error"@ ==> ({
                    let status = "ERROR: "@ + match json_string(line, "message"@) {
                        Some(message) => message,
                        None => "unknown"@,
                    };
                    shown == (Screen { status, events: logged(screen.events, status), ..screen })
                })
                &&& kind != "state"@ && kind != "applied"@ && kind != "stats"@ && kind
                    != "diagnostics"@ && kind != "error"@ ==> shown == (Screen {
                    events: logged(screen.events, kind + ": "@ + line),
                    ..screen
                })
            }
        }),
{
    kinds_of_messages_differ();
}

/// What a message is called tells the kinds apart.
proof fn kinds_of_messages_differ()
    ensures
        "stats"@ != "state"@,
        "stats"@ != "applied"@,
        "diagnostics"@ != "state"@,
        "diagnostics"@ != "applied"@,
        "diagnostics"@ != "stats"@,
        "error"@ != "state"@,
        "error"@ != "applied"@,
        "error"@ != "stats"@,
        "error"@ != "diagnostics"@,
{
    reveal_strlit("stats");
    reveal_strlit("state");
    reveal_strlit("applied");
    reveal_strlit("diagnostics");
    reveal_strlit("error");
    assert("stats"@[4] == 's' && "state"@[4] == 'e');
    assert("diagnostics"@[0] == 'd' && "applied"@[0] == 'a');
    assert("error"@[0] == 'e' && "stats"@[0] == 's' && "state"@[0] == 's');
}

/// A recording starts at time 0, takes up rules that differ from the last ones
/// at the time at which they are told, and passes over rules that it holds.
pub proof fn recordings_keep_time(events: Seq<Change>, rules: Seq<Rule>, elapsed_ms: u64)
    ensures
        events.len() == 0 ==> recorded(events, rules, elapsed_ms) == seq![
            Change { at_ms: 0, rules },
        ],
        events.len() > 0 && events.last().rules == rules ==> recorded(events, rules, elapsed_ms)
            == events,
        events.len() > 0 && events.last().rules != rules ==> recorded(events, rules, elapsed_ms)
            == events.push(Change { at_ms: elapsed_ms, rules }),
{
    assert(events.len() == 0 ==> recorded(events, rules, elapsed_ms) =~= seq![
        Change { at_ms: 0, rules },
    ]);
}

/// Each request goes by its own name, and the line of phases marks those that
/// are done and the one that runs.
pub proof fn requests_and_phases_bear_their_names(phase: Seq<char>)
    ensures
        request_name(KeyEffect::GetState) == "get_state"@,
        request_name(KeyEffect::ReplaceRules) == "replace_rules"@,
        request_name(KeyEffect::Stop) == "stop"@,
        phase == "Connect"@ ==> lifecycle(phase) == "✓ Provision → ● Connect → Impair → Observe"@,
        phase == "Impair"@ ==> lifecycle(phase) == "✓ Provision → ✓ Connect → ● Impair → Observe"@,
        phase == "Observe"@ ==> lifecycle(phase)
            == "✓ Provision → ✓ Connect → ✓ Impair → ● Observe"@,
        phase != "Connect"@ && phase != "Impair"@ && phase != "Observe"@ ==> lifecycle(phase)
            == "● Provision → Connect → Impair → Observe"@,
{
    reveal_strlit("Connect");
    reveal_strlit("Impair");
    reveal_strlit("Observe");
    assert("Connect"@[0] == 'C' && "Impair"@[0] == 'I' && "Observe"@[0] == 'O');
}

} // verus!
