//! Parsing of a command line into a `CliCommand`.
use super::{CliCommand, CliCommandView};
use crate::text::{
    push_all, string_of,
    all_ws, chars_eq, chars_of, is_prefix, lemma_join_spaced_empty, lemma_no_words_iff_all_ws,
    lemma_words_shape, split_words, starts_with, ends_with, is_suffix, join_spaced, owned, parse_unsigned, parse_unsigned_chars,
    trim_end_all, trim_end_matches, words, decimal, is_digit, is_ws, lemma_decimal_digits, lemma_parse_decimal,
    lemma_words_push_word, lemma_words_single,
};
use vstd::prelude::*;

verus! {

pub struct CommandParser;

impl Default for CommandParser {
    fn default() -> (res: Self)
        ensures
            res == CommandParser,
    {
        CommandParser
    }
}

/// The command names, in the order the parser lists them.
pub open spec fn command_names() -> Seq<Seq<char>> {
    seq![
        "help"@,
        "version"@,
        "status"@,
        "uptime"@,
        "clear"@,
        "reset"@,
        "echo"@,
        "led_on"@,
        "led_off"@,
        "led_pulse"@,
        "led_status"@,
        "led_blink"@,
        "wifi_connect"@,
        "wifi_reconnect"@,
        "wifi_status"@,
        "wifi_scan"@,
        "mqtt_status"@,
        "mqtt_enable"@,
        "mqtt_disable"@,
        "mqtt_publish"@,
    ]
}

/// The value, in microseconds, that a duration text denotes before it is
/// checked against `u32`: a number with the unit `us`/`μs`, `ms` or `s`,
/// or without a unit (then values from 1000 up are taken as milliseconds).
/// Every trailing repetition of the unit is dropped before the number is
/// read.  `None` when the number is not a valid `u32`.
pub open spec fn scaled_duration(s: Seq<char>) -> Option<int> {
    let max = u32::MAX as nat;
    if is_suffix("us"@, s) || is_suffix("μs"@, s) {
        match parse_unsigned(trim_end_all(trim_end_all(s, "us"@), "μs"@), max) {
            Some(v) => Some(v as int),
            None => None,
        }
    } else if is_suffix("ms"@, s) {
        match parse_unsigned(trim_end_all(s, "ms"@), max) {
            Some(v) => Some((v * 1000) as int),
            None => None,
        }
    } else if is_suffix("s"@, s) {
        match parse_unsigned(trim_end_all(s, "s"@), max) {
            Some(v) => Some((v * 1_000_000) as int),
            None => None,
        }
    } else {
        match parse_unsigned(s, max) {
            Some(v) => if v >= 1000 {
                Some((v * 1000) as int)
            } else {
                Some(v as int)
            },
            None => None,
        }
    }
}

/// The value, in microseconds, of a duration text; `None` when the text
/// is no valid number or the value does not fit in a `u32`.
pub open spec fn duration_value(s: Seq<char>) -> Option<int> {
    match scaled_duration(s) {
        Some(v) => if v <= u32::MAX {
            Some(v)
        } else {
            None
        },
        None => None,
    }
}

/// The brightness argument of `led_pulse`: absent (75%), or a `u8` of at
/// most 100; `None` when it is present and not such a number.
pub open spec fn pulse_brightness(ws: Seq<Seq<char>>) -> Option<u8> {
    if ws.len() >= 4 {
        match parse_unsigned(ws[3], 255) {
            Some(b) => if b <= 100 {
                Some(b as u8)
            } else {
                None
            },
            None => None,
        }
    } else {
        Some(75)
    }
}

pub open spec fn led_pulse_command(ws: Seq<Seq<char>>) -> CliCommandView {
    match pulse_brightness(ws) {
        None => CliCommandView::InvalidSyntax("brightness must be 0-100%"@),
        Some(b) => if ws.len() >= 3 {
            match (duration_value(ws[1]), duration_value(ws[2])) {
                (Some(d), Some(p)) => CliCommandView::LedPulse(d as u32, p as u32, b),
                (None, _) => CliCommandView::InvalidSyntax(
                    "invalid duration: "@ + "invalid number"@,
                ),
                (_, None) => CliCommandView::InvalidSyntax("invalid period: "@ + "invalid number"@),
            }
        } else {
            CliCommandView::InvalidSyntax(
                "requires <duration> <period> [brightness_%]\r\nExamples: 500us 5ms, 10ms 1s, 100 5000"@,
            )
        },
    }
}

pub open spec fn led_blink_command(ws: Seq<Seq<char>>) -> CliCommandView {
    if ws.len() >= 2 {
        match parse_unsigned(ws[1], u32::MAX as nat) {
            Some(f) => if 1 <= f <= 10 {
                CliCommandView::LedBlink(f as u32)
            } else {
                CliCommandView::InvalidSyntax("frequency must be 1-10 Hz"@)
            },
            None => CliCommandView::InvalidSyntax("invalid frequency value"@),
        }
    } else {
        CliCommandView::InvalidSyntax("frequency (Hz) required"@)
    }
}

pub open spec fn word_at(ws: Seq<Seq<char>>, i: int) -> Option<Seq<char>> {
    if 0 <= i < ws.len() {
        Some(ws[i])
    } else {
        None
    }
}

pub open spec fn mqtt_publish_command(ws: Seq<Seq<char>>) -> CliCommandView {
    let topic = if ws.len() >= 2 {
        ws[1]
    } else {
        seq![]
    };
    let message = if ws.len() >= 2 {
        join_spaced(ws.skip(2))
    } else {
        seq![]
    };
    if topic.len() == 0 {
        CliCommandView::InvalidSyntax("mqtt_publish: topic required"@)
    } else if message.len() == 0 {
        CliCommandView::InvalidSyntax("mqtt_publish: message required"@)
    } else {
        CliCommandView::MqttPublish(topic, message)
    }
}

/// The command a line denotes: its first word names the command, the
/// following words are its arguments.
pub open spec fn command_of_words(ws: Seq<Seq<char>>) -> CliCommandView {
    if ws.len() == 0 {
        CliCommandView::Empty
    } else {
        let cmd = ws[0];
        if cmd == "help"@ {
            CliCommandView::Help
        } else if cmd == "version"@ {
            CliCommandView::Version
        } else if cmd == "status"@ {
            CliCommandView::Status
        } else if cmd == "uptime"@ {
            CliCommandView::Uptime
        } else if cmd == "clear"@ {
            CliCommandView::Clear
        } else if cmd == "reset"@ {
            CliCommandView::Reset
        } else if cmd == "led_on"@ {
            CliCommandView::LedOn
        } else if cmd == "led_off"@ {
            CliCommandView::LedOff
        } else if cmd == "led_pulse"@ {
            led_pulse_command(ws)
        } else if cmd == "led_status"@ {
            CliCommandView::LedStatus
        } else if cmd == "led_blink"@ {
            led_blink_command(ws)
        } else if cmd == "echo"@ {
            CliCommandView::Echo(join_spaced(ws.skip(1)))
        } else if cmd == "wifi_connect"@ {
            CliCommandView::WifiConnect(word_at(ws, 1), word_at(ws, 2))
        } else if cmd == "wifi_reconnect"@ {
            CliCommandView::WifiReconnect
        } else if cmd == "wifi_status"@ {
            CliCommandView::WifiStatus
        } else if cmd == "wifi_scan"@ {
            CliCommandView::WifiScan
        } else if cmd == "mqtt_status"@ {
            CliCommandView::MqttStatus
        } else if cmd == "mqtt_enable"@ {
            CliCommandView::MqttEnable
        } else if cmd == "mqtt_disable"@ {
            CliCommandView::MqttDisable
        } else if cmd == "mqtt_publish"@ {
            mqtt_publish_command(ws)
        } else {
            CliCommandView::Unknown(cmd)
        }
    }
}

/// The command a line of input denotes.
pub open spec fn parsed_command(input: Seq<char>) -> CliCommandView {
    command_of_words(words(input))
}

/// `led_blink` followed by a frequency in decimal is a blink command for
/// 1 to 10 Hz and a syntax error for any other frequency.
pub proof fn lemma_blink_command_parses(f: u32)
    ensures
        parsed_command("led_blink"@ + seq![' '] + decimal(f as nat)) == if 1 <= f <= 10 {
            CliCommandView::LedBlink(f)
        } else {
            CliCommandView::InvalidSyntax("frequency must be 1-10 Hz"@)
        },
{
    reveal_strlit("led_blink");
    let name = "led_blink"@;
    assert forall|i: int| 0 <= i < name.len() implies !is_ws(#[trigger] name[i]) by {}
    lemma_words_single(name);
    lemma_decimal_digits(f as nat);
    lemma_words_push_word(name, decimal(f as nat));
    lemma_parse_decimal(f as nat, u32::MAX as nat);
    let ws = words(name + seq![' '] + decimal(f as nat));
    assert(ws =~= seq![name, decimal(f as nat)]);
    reveal_strlit("help");
    reveal_strlit("version");
    reveal_strlit("status");
    reveal_strlit("uptime");
    reveal_strlit("clear");
    reveal_strlit("reset");
    reveal_strlit("led_on");
    reveal_strlit("led_off");
    reveal_strlit("led_pulse");
    reveal_strlit("led_status");
    assert(name != "led_pulse"@) by {
        assert(name[4] != "led_pulse"@[4]);
    }
    assert(name != "led_status"@) by {
        assert(name.len() != "led_status"@.len());
    }
}

/// A decimal number ends in a digit, so it carries no unit suffix.
proof fn lemma_decimal_has_no_unit(v: nat)
    ensures
        !is_suffix("us"@, decimal(v)),
        !is_suffix("μs"@, decimal(v)),
        !is_suffix("ms"@, decimal(v)),
        !is_suffix("s"@, decimal(v)),
{
    lemma_decimal_digits(v);
    let d = decimal(v);
    assert(is_digit(d[d.len() - 1]));
    reveal_strlit("us");
    reveal_strlit("μs");
    reveal_strlit("ms");
    reveal_strlit("s");
    let units = seq!["us"@, "μs"@, "ms"@, "s"@];
    assert forall|k: int| 0 <= k < 4 implies !is_suffix(#[trigger] units[k], d) by {
        let u = units[k];
        if is_suffix(u, d) {
            assert(d.skip(d.len() - u.len())[u.len() - 1] == d[d.len() - 1]);
            assert(u[u.len() - 1] == 's');
        }
    }
    assert(units[0] == "us"@);
    assert(units[1] == "μs"@);
    assert(units[2] == "ms"@);
    assert(units[3] == "s"@);
}

/// A duration written as a bare number is read as microseconds below
/// 1000 and as milliseconds from 1000 up (so `5000` is five seconds), as
/// long as the microseconds fit in a `u32`; from 4294968 up it is refused.
pub proof fn lemma_bare_number_duration(v: nat)
    requires
        v <= u32::MAX,
    ensures
        v < 1000 ==> duration_value(decimal(v)) == Some(v as int),
        1000 <= v <= 4294967 ==> duration_value(decimal(v)) == Some((v * 1000) as int),
        v >= 4294968 ==> duration_value(decimal(v)) is None,
{
    lemma_decimal_has_no_unit(v);
    lemma_parse_decimal(v, u32::MAX as nat);
}

/// The command names are short non-empty runs of non-whitespace.
pub proof fn lemma_names_are_words()
    ensures
        forall|i: int|
            0 <= i < command_names().len() ==> {
                &&& command_names()[i].len() > 0
                &&& command_names()[i].len() <= 14
                &&& forall|k: int|
                    0 <= k < command_names()[i].len() ==> !is_ws(#[trigger] command_names()[i][k])
            },
{
    reveal_strlit("help");
    reveal_strlit("version");
    reveal_strlit("status");
    reveal_strlit("uptime");
    reveal_strlit("clear");
    reveal_strlit("reset");
    reveal_strlit("echo");
    reveal_strlit("led_on");
    reveal_strlit("led_off");
    reveal_strlit("led_pulse");
    reveal_strlit("led_status");
    reveal_strlit("led_blink");
    reveal_strlit("wifi_connect");
    reveal_strlit("wifi_reconnect");
    reveal_strlit("wifi_status");
    reveal_strlit("wifi_scan");
    reveal_strlit("mqtt_status");
    reveal_strlit("mqtt_enable");
    reveal_strlit("mqtt_disable");
    reveal_strlit("mqtt_publish");
}

/// Every command in the list parses as that command, never as an unknown
/// one.
pub proof fn lemma_listed_commands_known(i: int)
    requires
        0 <= i < command_names().len(),
    ensures
        !(parsed_command(command_names()[i]) is Unknown),
{
    lemma_names_are_words();
    lemma_words_single(command_names()[i]);
    assert(words(command_names()[i]) =~= seq![command_names()[i]]);
}

/// A line whose first word is not in the list is an unknown command that
/// carries that word.
pub proof fn lemma_unlisted_is_unknown(input: Seq<char>)
    requires
        words(input).len() > 0,
        !command_names().contains(words(input)[0]),
    ensures
        parsed_command(input) == CliCommandView::Unknown(words(input)[0]),
{
    let w = words(input)[0];
    assert forall|k: int| 0 <= k < command_names().len() implies command_names()[k] != w by {
        if command_names()[k] == w {
            assert(command_names().contains(w));
        }
    }
    assert(command_names()[0] != w);
    assert(command_names()[1] != w);
    assert(command_names()[2] != w);
    assert(command_names()[3] != w);
    assert(command_names()[4] != w);
    assert(command_names()[5] != w);
    assert(command_names()[6] != w);
    assert(command_names()[7] != w);
    assert(command_names()[8] != w);
    assert(command_names()[9] != w);
    assert(command_names()[10] != w);
    assert(command_names()[11] != w);
    assert(command_names()[12] != w);
    assert(command_names()[13] != w);
    assert(command_names()[14] != w);
    assert(command_names()[15] != w);
    assert(command_names()[16] != w);
    assert(command_names()[17] != w);
    assert(command_names()[18] != w);
    assert(command_names()[19] != w);
}

/// The value in microseconds of a duration text, computed without overflow.
fn duration_micros(s: &Vec<char>) -> (res: Option<u64>)
    ensures
        match res {
            Some(v) => scaled_duration(s@) == Some(v as int),
            None => scaled_duration(s@) is None,
        },
{
    let us = chars_of("us");
    let mu = chars_of("μs");
    let ms = chars_of("ms");
    let sec = chars_of("s");
    if ends_with(s, &us) || ends_with(s, &mu) {
        let num = trim_end_matches(&trim_end_matches(s, &us), &mu);
        parse_unsigned_chars(&num, 0xffff_ffff)
    } else if ends_with(s, &ms) {
        let num = trim_end_matches(s, &ms);
        match parse_unsigned_chars(&num, 0xffff_ffff) {
            Some(v) => Some(v * 1000),
            None => None,
        }
    } else if ends_with(s, &sec) {
        let num = trim_end_matches(s, &sec);
        match parse_unsigned_chars(&num, 0xffff_ffff) {
            Some(v) => Some(v * 1_000_000),
            None => None,
        }
    } else {
        match parse_unsigned_chars(s, 0xffff_ffff) {
            Some(v) => if v >= 1000 {
                Some(v * 1000)
            } else {
                Some(v)
            },
            None => None,
        }
    }
}

fn duration_of(s: &Vec<char>) -> (res: Result<u32, String>)
    ensures
        match res {
            Ok(v) => duration_value(s@) == Some(v as int),
            Err(e) => duration_value(s@) is None && e@ == "invalid number"@,
        },
{
    match duration_micros(s) {
        Some(v) => if v <= 0xffff_ffff {
            Ok(v as u32)
        } else {
            Err(owned("invalid number"))
        },
        None => Err(owned("invalid number")),
    }
}

fn brightness_of(ws: &Vec<Vec<char>>, Ghost(wv): Ghost<Seq<Seq<char>>>) -> (res: Option<u8>)
    requires
        wv.len() == ws@.len(),
        forall|k: int| 0 <= k < ws@.len() ==> (#[trigger] ws@[k])@ == wv[k],
    ensures
        res == pulse_brightness(wv),
{
    if ws.len() >= 4 {
        match parse_unsigned_chars(&ws[3], 255) {
            Some(val) => if val <= 100 {
                Some(val as u8)
            } else {
                None
            },
            None => None,
        }
    } else {
        Some(75)
    }
}

/// Joins `ws[from..]` with single spaces.
fn join_words(ws: &Vec<Vec<char>>, from: usize, Ghost(wv): Ghost<Seq<Seq<char>>>) -> (res: String)
    requires
        from <= ws@.len(),
        wv.len() == ws@.len(),
        forall|k: int| 0 <= k < ws@.len() ==> (#[trigger] ws@[k])@ == wv[k],
    ensures
        res@ == join_spaced(wv.skip(from as int)),
{
    let mut res = String::new();
    let mut k = from;
    while k < ws.len()
        invariant
            from <= k <= ws@.len(),
            wv.len() == ws@.len(),
            forall|j: int| 0 <= j < ws@.len() ==> (#[trigger] ws@[j])@ == wv[j],
            res@ == join_spaced(wv.subrange(from as int, k as int)),
        decreases ws@.len() - k,
    {
        let ghost before = res@;
        if k > from {
            res.push(' ');
        }
        let w = &ws[k];
        let mut i: usize = 0;
        let ghost mid = res@;
        while i < w.len()
            invariant
                i <= w@.len(),
                res@ == mid + w@.take(i as int),
            decreases w@.len() - i,
        {
            res.push(w[i]);
            i = i + 1;
            assert(res@ =~= mid + w@.take(i as int));
        }
        assert(w@.take(i as int) =~= w@);
        let ghost sub = wv.subrange(from as int, k + 1);
        assert(sub.drop_last() =~= wv.subrange(from as int, k as int));
        assert(sub.last() == wv[k as int]);
        k = k + 1;
        assert(res@ =~= join_spaced(wv.subrange(from as int, k as int)));
    }
    assert(wv.subrange(from as int, k as int) =~= wv.skip(from as int));
    res
}

impl CommandParser {
    pub fn new() -> (res: Self) {
        CommandParser
    }

    /// Parse duration string with optional unit suffix (us, ms, s)
    /// Returns duration in microseconds
    /// Examples: "500" -> 500μs, "500us" -> 500μs, "10ms" -> 10000μs, "1s" -> 1000000μs
    pub fn parse_duration(s: &str) -> (res: Result<u32, String>)
        ensures
            match res {
                Ok(v) => duration_value(s@) == Some(v as int),
                Err(e) => duration_value(s@) is None && e@ == "invalid number"@,
            },
    {
        duration_of(&chars_of(s))
    }

    pub fn get_available_commands() -> (res: &'static [&'static str])
        ensures
            res@.len() == command_names().len(),
            forall|i: int| 0 <= i < res@.len() ==> (#[trigger] res@[i])@ == command_names()[i],
    {
        let names: &'static [&'static str] = &[
            "help",
            "version",
            "status",
            "uptime",
            "clear",
            "reset",
            "echo",
            "led_on",
            "led_off",
            "led_pulse",
            "led_status",
            "led_blink",
            "wifi_connect",
            "wifi_reconnect",
            "wifi_status",
            "wifi_scan",
            "mqtt_status",
            "mqtt_enable",
            "mqtt_disable",
            "mqtt_publish",
        ];
        names
    }
    /// The commands whose name starts with `partial`, in list order.
    pub fn autocomplete(partial: &str) -> (res: Vec<&'static str>)
        ensures
            res@.map_values(|c: &str| c@) == command_names().filter(
                |c: Seq<char>| is_prefix(partial@, c),
            ),
    {
        Self::matching_commands(&chars_of(partial))
    }

    /// The commands whose name starts with the characters `p`.
    pub fn matching_commands(p: &Vec<char>) -> (res: Vec<&'static str>)
        ensures
            res@.map_values(|c: &str| c@) == command_names().filter(
                |c: Seq<char>| is_prefix(p@, c),
            ),
    {
        let commands = Self::get_available_commands();
        let ghost pred = |c: Seq<char>| is_prefix(p@, c);
        let mut res: Vec<&'static str> = Vec::new();
        let mut i: usize = 0;
        while i < commands.len()
            invariant
                i <= commands@.len(),
                commands@.len() == command_names().len(),
                forall|j: int|
                    0 <= j < commands@.len() ==> (#[trigger] commands@[j])@ == command_names()[j],
                pred == (|c: Seq<char>| is_prefix(p@, c)),
                res@.map_values(|c: &str| c@) == command_names().take(i as int).filter(pred),
            decreases commands@.len() - i,
        {
            reveal_with_fuel(Seq::<_>::filter, 1);
            let cmd = commands[i];
            let ghost before = res@;
            let ghost t = command_names().take(i + 1);
            assert(t.drop_last() =~= command_names().take(i as int));
            assert(t.last() == cmd@);
            if starts_with(&chars_of(cmd), p) {
                assert(pred(cmd@));
                res.push(cmd);
                assert(res@.map_values(|c: &str| c@) =~= before.map_values(|c: &str| c@).push(
                    cmd@,
                ));
            } else {
                assert(!pred(cmd@));
            }
            assert(t.filter(pred) == command_names().take(i as int).filter(pred) + (if pred(cmd@) {
                seq![cmd@]
            } else {
                seq![]
            }));
            i = i + 1;
        }
        assert(command_names().take(i as int) =~= command_names());
        res
    }

    /// Parse a command line; an all-whitespace line is the empty command.
    pub fn parse_command(input: &str) -> (cmd: CliCommand)
        ensures
            cmd@ == parsed_command(input@),
            (cmd@ is Empty) <==> all_ws(input@),
    {
        let chars = chars_of(input);
        let ws = split_words(&chars);
        let ghost wv = words(input@);
        proof {
            lemma_no_words_iff_all_ws(input@);
            lemma_words_shape(input@);
        }
        if ws.len() == 0 {
            return CliCommand::Empty;
        }
        let cmd = &ws[0];
        if chars_eq(cmd, "help") {
            CliCommand::Help
        } else if chars_eq(cmd, "version") {
            CliCommand::Version
        } else if chars_eq(cmd, "status") {
            CliCommand::Status
        } else if chars_eq(cmd, "uptime") {
            CliCommand::Uptime
        } else if chars_eq(cmd, "clear") {
            CliCommand::Clear
        } else if chars_eq(cmd, "reset") {
            CliCommand::Reset
        } else if chars_eq(cmd, "led_on") {
            CliCommand::LedOn
        } else if chars_eq(cmd, "led_off") {
            CliCommand::LedOff
        } else if chars_eq(cmd, "led_pulse") {
            Self::parse_led_pulse(&ws, Ghost(wv))
        } else if chars_eq(cmd, "led_status") {
            CliCommand::LedStatus
        } else if chars_eq(cmd, "led_blink") {
            Self::parse_led_blink(&ws, Ghost(wv))
        } else if chars_eq(cmd, "echo") {
            CliCommand::Echo(join_words(&ws, 1, Ghost(wv)))
        } else if chars_eq(cmd, "wifi_connect") {
            let ssid = if ws.len() >= 2 {
                Some(string_of(&ws[1]))
            } else {
                None
            };
            let password = if ws.len() >= 3 {
                Some(string_of(&ws[2]))
            } else {
                None
            };
            CliCommand::WifiConnect(ssid, password)
        } else if chars_eq(cmd, "wifi_reconnect") {
            CliCommand::WifiReconnect
        } else if chars_eq(cmd, "wifi_status") {
            CliCommand::WifiStatus
        } else if chars_eq(cmd, "wifi_scan") {
            CliCommand::WifiScan
        } else if chars_eq(cmd, "mqtt_status") {
            CliCommand::MqttStatus
        } else if chars_eq(cmd, "mqtt_enable") {
            CliCommand::MqttEnable
        } else if chars_eq(cmd, "mqtt_disable") {
            CliCommand::MqttDisable
        } else if chars_eq(cmd, "mqtt_publish") {
            Self::parse_mqtt_publish(&ws, Ghost(wv))
        } else {
            CliCommand::Unknown(string_of(cmd))
        }
    }

    fn parse_led_pulse(ws: &Vec<Vec<char>>, Ghost(wv): Ghost<Seq<Seq<char>>>) -> (cmd: CliCommand)
        requires
            wv.len() == ws@.len(),
            forall|k: int| 0 <= k < ws@.len() ==> (#[trigger] ws@[k])@ == wv[k],
        ensures
            cmd@ == led_pulse_command(wv),
    {
        let brightness_percent = match brightness_of(ws, Ghost(wv)) {
            Some(b) => b,
            None => return CliCommand::InvalidSyntax(owned("brightness must be 0-100%")),
        };
        if ws.len() >= 3 {
            let d = duration_of(&ws[1]);
            let p = duration_of(&ws[2]);
            match (d, p) {
                (Ok(duration_us), Ok(period_us)) => CliCommand::LedPulse(
                    duration_us,
                    period_us,
                    brightness_percent,
                ),
                (Err(e), _) => {
                    let mut msg = owned("invalid duration: ");
                    push_all(&mut msg, e.as_str());
                    CliCommand::InvalidSyntax(msg)
                },
                (_, Err(e)) => {
                    let mut msg = owned("invalid period: ");
                    push_all(&mut msg, e.as_str());
                    CliCommand::InvalidSyntax(msg)
                },
            }
        } else {
            CliCommand::InvalidSyntax(
                owned(
                    "requires <duration> <period> [brightness_%]\r\nExamples: 500us 5ms, 10ms 1s, 100 5000",
                ),
            )
        }
    }

    fn parse_led_blink(ws: &Vec<Vec<char>>, Ghost(wv): Ghost<Seq<Seq<char>>>) -> (cmd: CliCommand)
        requires
            wv.len() == ws@.len(),
            forall|k: int| 0 <= k < ws@.len() ==> (#[trigger] ws@[k])@ == wv[k],
        ensures
            cmd@ == led_blink_command(wv),
    {
        if ws.len() >= 2 {
            match parse_unsigned_chars(&ws[1], 0xffff_ffff) {
                Some(f) => if 1 <= f && f <= 10 {
                    CliCommand::LedBlink(f as u32)
                } else {
                    CliCommand::InvalidSyntax(owned("frequency must be 1-10 Hz"))
                },
                None => CliCommand::InvalidSyntax(owned("invalid frequency value")),
            }
        } else {
            CliCommand::InvalidSyntax(owned("frequency (Hz) required"))
        }
    }

    fn parse_mqtt_publish(ws: &Vec<Vec<char>>, Ghost(wv): Ghost<Seq<Seq<char>>>) -> (cmd:
        CliCommand)
        requires
            wv.len() == ws@.len(),
            forall|k: int| 0 <= k < ws@.len() ==> (#[trigger] ws@[k])@ == wv[k],
            forall|k: int| 0 <= k < wv.len() ==> (#[trigger] wv[k]).len() > 0,
        ensures
            cmd@ == mqtt_publish_command(wv),
    {
        let topic = if ws.len() >= 2 {
            string_of(&ws[1])
        } else {
            String::new()
        };
        let message = if ws.len() >= 2 {
            join_words(ws, 2, Ghost(wv))
        } else {
            String::new()
        };
        if topic.as_str().is_empty() {
            CliCommand::InvalidSyntax(owned("mqtt_publish: topic required"))
        } else if message.as_str().is_empty() {
            CliCommand::InvalidSyntax(owned("mqtt_publish: message required"))
        } else {
            CliCommand::MqttPublish(topic, message)
        }
    }
}


} // verus!
