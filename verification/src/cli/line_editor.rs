//! The interactive line editor behind the serial and the TCP terminals:
//! each received byte moves the editor to its next state and yields the
//! bytes to echo back and, on Enter, the finished command line.
use super::parser::{command_names, lemma_names_are_words, CommandParser};
use super::{CLI_BUFFER_SIZE, MAX_HISTORY_SIZE};
use crate::text::{
    chars_of, is_prefix, is_ws, lemma_words_shape, lemma_words_single, split_words, string_of, words,
};
use vstd::prelude::*;

verus! {

/// Telnet "interpret as command".
pub const IAC: u8 = 0xFF;

pub const DONT: u8 = 0xFE;

pub const DO: u8 = 0xFD;

pub const WONT: u8 = 0xFC;

pub const WILL: u8 = 0xFB;

/// The prompt the terminals print before each line.
pub const PROMPT: &'static str = "ESP32 CLI> ";

/// Clears the screen and homes the cursor.
pub const CLEAR_SCREEN: &'static str = "\x1b[2J\x1b[H";

/// The help the terminal shows, one command per line.
pub const TERMINAL_HELP_TEXT: &'static str = "Available commands:\r\n  help        - Show this help\r\n  version     - Show firmware version\r\n  status      - Show system status\r\n  uptime      - Show system uptime\r\n  clear       - Clear terminal\r\n  reset       - Reset system\r\n  echo <text> - Echo text back\r\n  mtu_start [dur] - Start MTU operation (default 30s)\r\n  mtu_stop    - Stop MTU operation\r\n  mtu_status  - Show MTU status\r\n  mtu_baud <rate> - Set MTU baud rate (1-115200, default 1200)\r\n  mtu_format <fmt> - Set UART format (7E1, 7E2, 8N1, 8E1, 7O1, 8N2)\r\n  mtu_reset   - Reset MTU statistics\r\n  wifi_connect [ssid] [password] - Connect to WiFi (no args = default)\r\n  wifi_reconnect - Quick reconnect to default WiFi\r\n  wifi_status - Show WiFi connection status\r\n  wifi_scan   - Scan for available WiFi networks\r\n  mqtt_connect <broker_url> - Connect to MQTT broker\r\n  mqtt_status - Show MQTT connection status\r\n  mqtt_publish <topic> <message> - Publish MQTT message\r\n\r\nUse TAB to autocomplete commands\r\nUse UP/DOWN arrows to navigate command history\r\nUse LEFT/RIGHT arrows to move cursor and edit\r\n";

/// The help of the meter simulator's terminal.
pub const METER_HELP_TEXT: &'static str = "Available commands:\r\n  help        - Show this help\r\n  version     - Show firmware version\r\n  status      - Show meter status and statistics\r\n  uptime      - Show system uptime\r\n  clear       - Clear terminal\r\n  reset       - Reset system\r\n  enable      - Enable meter response to clock signals\r\n  disable     - Disable meter response\r\n  type <sensus|neptune> - Set meter type (7E1 or 7E2)\r\n  format <fmt> - Set UART format (7E1, 7E2, 8N1, 8E1, 7O1, 8N2)\r\n  message <text> - Set response message (\\r added automatically)\r\n\r\nUse TAB to autocomplete commands\r\nUse UP/DOWN arrows to navigate command history\r\nUse LEFT/RIGHT arrows to move cursor and edit\r\n";

/// Where the editor is within an escape sequence.
#[derive(Clone, Copy, PartialEq, Eq, Structural, Debug)]
pub enum EscapeState {
    Normal,
    /// After ESC.
    Escape,
    /// After ESC `[`.
    Csi,
    /// After a telnet IAC; holds the option verb once it has come (0 before).
    Iac(u8),
}

pub struct LineEditor {
    line_buffer: Vec<char>,
    cursor_pos: usize,
    command_history: Vec<Vec<char>>,
    history_index: Option<usize>,
    escape_state: EscapeState,
    telnet: bool,
}

pub struct LineEditorView {
    pub line: Seq<char>,
    pub cursor: nat,
    pub history: Seq<Seq<char>>,
    pub history_index: Option<nat>,
    pub escape: EscapeState,
    pub telnet: bool,
}

/// What one byte of input produces.
pub struct EditorStep {
    /// Bytes to write back to the terminal, in order.
    pub output: Vec<u8>,
    /// The finished line, when the byte was Enter.
    pub command: Option<String>,
}

pub open spec fn bytes_of(s: Seq<char>) -> Seq<u8> {
    s.map_values(|c: char| c as u8)
}

/// `s` repeated `n` times.
pub open spec fn repeat(s: Seq<u8>, n: nat) -> Seq<u8>
    decreases n,
{
    if n == 0 {
        seq![]
    } else {
        repeat(s, (n - 1) as nat) + s
    }
}

/// Backspace, space, backspace: erases the character left of the cursor.
pub open spec fn erase_seq() -> Seq<u8> {
    seq![8u8, 32u8, 8u8]
}

/// ESC `[` `D`: cursor left.
pub open spec fn left_seq() -> Seq<u8> {
    seq![27u8, 91u8, 68u8]
}

/// ESC `[` `C`: cursor right.
pub open spec fn right_seq() -> Seq<u8> {
    seq![27u8, 91u8, 67u8]
}

pub open spec fn min_nat(a: nat, b: nat) -> nat {
    if a <= b {
        a
    } else {
        b
    }
}

/// Longest line the buffer holds.
pub open spec fn max_line() -> nat {
    (CLI_BUFFER_SIZE - 1) as nat
}

/// The editor's invariant: the cursor lies within the line, the line fits
/// the buffer, the history holds at most `MAX_HISTORY_SIZE` non-empty
/// lines that fit the buffer, no line twice in a row, and the history
/// position, when set, points into it.
pub open spec fn editor_wf(v: LineEditorView) -> bool {
    &&& v.cursor <= v.line.len() <= max_line()
    &&& v.history.len() <= MAX_HISTORY_SIZE
    &&& forall|i: int|
        0 <= i < v.history.len() ==> 0 < (#[trigger] v.history[i]).len() <= max_line()
    &&& forall|i: int| 0 <= i < v.history.len() - 1 ==> #[trigger] v.history[i] != v.history[i + 1]
    &&& match v.history_index {
        Some(i) => i < v.history.len(),
        None => true,
    }
}

/// Enter: the line is returned and, unless empty or equal to the newest
/// history entry, appended to the history (dropping the oldest when full).
pub open spec fn enter_step(v: LineEditorView) -> (LineEditorView, Seq<u8>, Option<Seq<char>>) {
    let cmd = v.line;
    let history = if cmd.len() > 0 && (v.history.len() == 0 || v.history.last() != cmd) {
        (if v.history.len() >= MAX_HISTORY_SIZE {
            v.history.drop_first()
        } else {
            v.history
        }).push(cmd)
    } else {
        v.history
    };
    (
        LineEditorView { line: seq![], cursor: 0, history, history_index: None, ..v },
        seq![13u8, 10u8],
        Some(cmd),
    )
}

/// Deletes the character left of the cursor and redraws the rest of the line.
pub open spec fn delete_step(v: LineEditorView) -> (LineEditorView, Seq<u8>) {
    if v.cursor == v.line.len() {
        (
            LineEditorView { line: v.line.drop_last(), cursor: (v.cursor - 1) as nat, ..v },
            erase_seq(),
        )
    } else {
        let line = v.line.remove(v.cursor - 1);
        let cursor = (v.cursor - 1) as nat;
        let tail = line.skip(cursor as int);
        (
            LineEditorView { line, cursor, ..v },
            left_seq() + bytes_of(tail) + seq![32u8] + repeat(left_seq(), tail.len() + 1),
        )
    }
}

/// Inserts a character at the cursor and redraws the rest of the line.
pub open spec fn insert_step(v: LineEditorView, c: char) -> (LineEditorView, Seq<u8>) {
    if v.cursor == v.line.len() {
        (LineEditorView { line: v.line.push(c), cursor: v.cursor + 1, ..v }, seq![c as u8])
    } else {
        let line = v.line.insert(v.cursor as int, c);
        let cursor = v.cursor + 1;
        let tail = line.skip(v.cursor as int);
        (
            LineEditorView { line, cursor, ..v },
            bytes_of(tail) + repeat(left_seq(), (tail.len() - 1) as nat),
        )
    }
}

/// Erases the shown line and shows `new_line` in its place.
pub open spec fn replace_step(v: LineEditorView, new_line: Seq<char>) -> (LineEditorView, Seq<u8>) {
    (
        LineEditorView { line: new_line, cursor: new_line.len(), ..v },
        repeat(erase_seq(), v.cursor) + bytes_of(new_line),
    )
}

/// Up arrow: the previous (older) history entry.
pub open spec fn history_up_step(v: LineEditorView) -> (LineEditorView, Seq<u8>) {
    if v.history.len() == 0 {
        (v, seq![])
    } else {
        match v.history_index {
            Some(i) => if i == 0 {
                (v, seq![])
            } else {
                replace_step(
                    LineEditorView { history_index: Some((i - 1) as nat), ..v },
                    v.history[i - 1],
                )
            },
            None => replace_step(
                LineEditorView { history_index: Some((v.history.len() - 1) as nat), ..v },
                v.history.last(),
            ),
        }
    }
}

/// Down arrow: the next (newer) history entry, or an empty line after the newest.
pub open spec fn history_down_step(v: LineEditorView) -> (LineEditorView, Seq<u8>) {
    match v.history_index {
        None => (v, seq![]),
        Some(i) => if i + 1 < v.history.len() {
            replace_step(LineEditorView { history_index: Some(i + 1), ..v }, v.history[i + 1 as int])
        } else {
            replace_step(LineEditorView { history_index: None, ..v }, seq![])
        },
    }
}

pub open spec fn cursor_right_step(v: LineEditorView) -> (LineEditorView, Seq<u8>) {
    if v.cursor < v.line.len() {
        (LineEditorView { cursor: v.cursor + 1, ..v }, right_seq())
    } else {
        (v, seq![])
    }
}

pub open spec fn cursor_left_step(v: LineEditorView) -> (LineEditorView, Seq<u8>) {
    if v.cursor > 0 {
        (LineEditorView { cursor: (v.cursor - 1) as nat, ..v }, left_seq())
    } else {
        (v, seq![])
    }
}

/// Command names separated by two spaces.
pub open spec fn join_two_spaces(ms: Seq<Seq<char>>) -> Seq<char>
    decreases ms.len(),
{
    if ms.len() == 0 {
        seq![]
    } else if ms.len() == 1 {
        ms[0]
    } else {
        join_two_spaces(ms.drop_last()) + seq![' ', ' '] + ms.last()
    }
}

/// The command name that completes a one-word line.
pub open spec fn completion_partial(v: LineEditorView) -> Option<Seq<char>> {
    let ws = words(v.line);
    if ws.len() == 0 {
        Some(seq![])
    } else if !(v.line.len() > 0 && v.line.last() == ' ') && ws.len() == 1 {
        Some(ws[0])
    } else {
        None
    }
}

/// Tab: completes the first word when exactly one command starts with it
/// (erasing the typed part and appending the name and a space, as far as
/// the buffer allows), lists the candidates when several do.
pub open spec fn tab_step(v: LineEditorView) -> (LineEditorView, Seq<u8>) {
    match completion_partial(v) {
        None => (v, seq![]),
        Some(partial) => {
            let ms = command_names().filter(|c: Seq<char>| is_prefix(partial, c));
            if ms.len() == 0 {
                (v, seq![])
            } else if ms.len() == 1 {
                let k = min_nat(partial.len(), v.cursor);
                let line1 = v.line.take(v.line.len() - k);
                let n = min_nat(ms[0].len(), (max_line() - line1.len()) as nat);
                let line2 = line1 + ms[0].take(n as int);
                let sp = if line2.len() < max_line() {
                    seq![' ']
                } else {
                    seq![]
                };
                (
                    LineEditorView {
                        line: line2 + sp,
                        cursor: (v.cursor - k + n + sp.len()) as nat,
                        ..v
                    },
                    repeat(erase_seq(), k) + bytes_of(ms[0].take(n as int) + sp),
                )
            } else {
                (
                    v,
                    bytes_of(
                        seq!['\r', '\n'] + join_two_spaces(ms) + seq!['\r', '\n'] + PROMPT@ + v.line,
                    ),
                )
            }
        },
    }
}

/// A telnet option negotiation answered with a refusal.
pub open spec fn iac_step(v: LineEditorView, verb: u8, ch: u8) -> (LineEditorView, Seq<u8>) {
    if verb == 0 {
        if ch == WILL || ch == WONT || ch == DO || ch == DONT {
            (LineEditorView { escape: EscapeState::Iac(ch), ..v }, seq![])
        } else {
            (LineEditorView { escape: EscapeState::Normal, ..v }, seq![])
        }
    } else {
        (
            LineEditorView { escape: EscapeState::Normal, ..v },
            seq![
                IAC,
                if verb == WILL {
                    DONT
                } else {
                    WONT
                },
                ch,
            ],
        )
    }
}

pub open spec fn no_command(r: (LineEditorView, Seq<u8>)) -> (
    LineEditorView,
    Seq<u8>,
    Option<Seq<char>>,
) {
    (r.0, r.1, None)
}

/// The editor's response to one input byte: its next state, the bytes to
/// echo, and the finished line on Enter.
pub open spec fn editor_step(v: LineEditorView, ch: u8) -> (
    LineEditorView,
    Seq<u8>,
    Option<Seq<char>>,
) {
    match v.escape {
        EscapeState::Normal => if ch == 13 || ch == 10 {
            enter_step(v)
        } else if ch == 27 {
            (LineEditorView { escape: EscapeState::Escape, ..v }, seq![], None)
        } else if ch == 8 || ch == 127 {
            if v.line.len() > 0 && v.cursor > 0 {
                no_command(delete_step(v))
            } else {
                (v, seq![], None)
            }
        } else if ch == 9 {
            no_command(tab_step(v))
        } else if v.telnet && ch == IAC {
            (LineEditorView { escape: EscapeState::Iac(0), ..v }, seq![], None)
        } else if 0x20 <= ch <= 0x7e {
            if v.line.len() < max_line() {
                no_command(insert_step(v, ch as char))
            } else {
                (v, seq![], None)
            }
        } else {
            (v, seq![], None)
        },
        EscapeState::Escape => if ch == 91 {
            (LineEditorView { escape: EscapeState::Csi, ..v }, seq![], None)
        } else {
            (LineEditorView { escape: EscapeState::Normal, ..v }, seq![], None)
        },
        EscapeState::Csi => {
            let n = LineEditorView { escape: EscapeState::Normal, ..v };
            if ch == 65 {
                no_command(history_up_step(n))
            } else if ch == 66 {
                no_command(history_down_step(n))
            } else if ch == 67 {
                no_command(cursor_right_step(n))
            } else if ch == 68 {
                no_command(cursor_left_step(n))
            } else {
                (n, seq![], None)
            }
        },
        EscapeState::Iac(verb) => no_command(iac_step(v, verb, ch)),
    }
}

/// The editor's state after it was fed `input`, byte by byte.
pub open spec fn feed_state(v: LineEditorView, input: Seq<u8>) -> LineEditorView
    decreases input.len(),
{
    if input.len() == 0 {
        v
    } else {
        editor_step(feed_state(v, input.drop_last()), input.last()).0
    }
}

/// The bytes the editor writes back while it is fed `input`.
pub open spec fn feed_output(v: LineEditorView, input: Seq<u8>) -> Seq<u8>
    decreases input.len(),
{
    if input.len() == 0 {
        seq![]
    } else {
        feed_output(v, input.drop_last()) + editor_step(
            feed_state(v, input.drop_last()),
            input.last(),
        ).1
    }
}

/// Printable ASCII bytes.
pub open spec fn printable(input: Seq<u8>) -> bool {
    forall|i: int| 0 <= i < input.len() ==> 0x20 <= #[trigger] input[i] <= 0x7e
}

/// The characters of ASCII bytes.
pub open spec fn chars_of_bytes(input: Seq<u8>) -> Seq<char> {
    input.map_values(|b: u8| b as char)
}

/// Printable characters typed at the end of the line (as long as the line
/// has room for them) are echoed as typed and appended to the line, and
/// Enter then gives back the whole line.
pub proof fn lemma_typed_line_returned(v: LineEditorView, typed: Seq<u8>)
    requires
        editor_wf(v),
        v.escape == EscapeState::Normal,
        v.cursor == v.line.len(),
        printable(typed),
        v.line.len() + typed.len() <= max_line(),
    ensures
        feed_state(v, typed).line == v.line + chars_of_bytes(typed),
        feed_state(v, typed).cursor == feed_state(v, typed).line.len(),
        feed_state(v, typed).history == v.history,
        feed_output(v, typed) == typed,
        editor_step(feed_state(v, typed), 13u8).2 == Some(v.line + chars_of_bytes(typed)),
        editor_step(feed_state(v, typed), 13u8).1 == seq![13u8, 10u8],
    decreases typed.len(),
{
    if typed.len() > 0 {
        let init = typed.drop_last();
        assert(printable(init)) by {
            assert forall|i: int| 0 <= i < init.len() implies 0x20 <= #[trigger] init[i] <= 0x7e by {
                assert(init[i] == typed[i]);
            }
        }
        lemma_typed_line_returned(v, init);
        let b = typed.last();
        assert(0x20 <= typed[typed.len() - 1] <= 0x7e);
        let w = feed_state(v, init);
        assert(w.escape == EscapeState::Normal) by {
            lemma_typing_keeps_normal(v, init);
        }
        assert((b as char) as u8 == b);
        assert(chars_of_bytes(typed) =~= chars_of_bytes(init).push(b as char));
        assert(typed =~= init.push(b));
    } else {
        assert(chars_of_bytes(typed) =~= seq![]);
        assert(v.line + seq![] =~= v.line);
    }
}

/// Backspace (or delete) with the cursor inside or at the end of the line
/// removes exactly the character left of the cursor: the text before it
/// and the text from the cursor on are kept, joined, and the cursor moves
/// back by one.  Nothing is finished and the history is untouched.
pub proof fn lemma_backspace_removes_left_char(v: LineEditorView, key: u8)
    requires
        editor_wf(v),
        v.escape == EscapeState::Normal,
        0 < v.cursor,
        key == 8 || key == 127,
    ensures
        editor_step(v, key).0.line == v.line.take(v.cursor - 1) + v.line.skip(v.cursor as int),
        editor_step(v, key).0.line.len() == v.line.len() - 1,
        editor_step(v, key).0.cursor == v.cursor - 1,
        editor_step(v, key).0.history == v.history,
        editor_step(v, key).2 is None,
{
    let line = v.line;
    let c = v.cursor as int;
    if v.cursor == v.line.len() {
        assert(line.drop_last() =~= line.take(c - 1) + line.skip(c));
    } else {
        assert(line.remove(c - 1) =~= line.take(c - 1) + line.skip(c));
    }
}

/// After a non-empty line is entered, the up arrow brings it back.
pub proof fn lemma_up_recalls_entered_line(v: LineEditorView)
    requires
        editor_wf(v),
        v.escape == EscapeState::Normal,
        v.line.len() > 0,
    ensures
        feed_state(editor_step(v, 13u8).0, seq![27u8, 91u8, 65u8]).line == v.line,
{
    reveal_with_fuel(feed_state, 4);
    let w = editor_step(v, 13u8).0;
    let up = seq![27u8, 91u8, 65u8];
    assert(up.drop_last() =~= seq![27u8, 91u8]);
    assert(up.drop_last().drop_last() =~= seq![27u8]);
    assert(up.drop_last().drop_last().drop_last() =~= Seq::<u8>::empty());
    assert(w.history.last() == v.line);
}

/// The commands whose name starts with `p`, in list order.
pub open spec fn completions(p: Seq<char>) -> Seq<Seq<char>> {
    command_names().filter(|c: Seq<char>| is_prefix(p, c))
}

/// Tab on a line that holds only a partly typed command name `p` (or
/// nothing), with the cursor at its end: when exactly one command starts
/// with `p` the line becomes that command and a space, with the cursor at
/// its end, so that Enter then gives that line; when none does nothing
/// happens; when several do the line stays and the candidates are listed,
/// two spaces apart, followed by the prompt and the line again.
pub proof fn lemma_tab_completion(v: LineEditorView, p: Seq<char>)
    requires
        editor_wf(v),
        v.line == p,
        v.cursor == p.len(),
        forall|i: int| 0 <= i < p.len() ==> !is_ws(#[trigger] p[i]),
    ensures
        completions(p).len() == 1 ==> {
            &&& tab_step(v).0.line == completions(p)[0] + seq![' ']
            &&& tab_step(v).0.cursor == completions(p)[0].len() + 1
            &&& enter_step(tab_step(v).0).2 == Some(completions(p)[0] + seq![' '])
        },
        completions(p).len() == 0 ==> tab_step(v) == (v, Seq::<u8>::empty()),
        completions(p).len() >= 2 ==> tab_step(v) == (
            v,
            bytes_of(
                seq!['\r', '\n'] + join_two_spaces(completions(p)) + seq!['\r', '\n'] + PROMPT@
                    + p,
            ),
        ),
{
    if p.len() == 0 {
        assert(p =~= Seq::<char>::empty());
    } else {
        lemma_words_single(p);
        assert(!is_ws(p[p.len() - 1]));
        assert(is_ws(' '));
    }
    assert(completion_partial(v) == Some(p));
    let ms = completions(p);
    if ms.len() == 1 {
        let pred = |c: Seq<char>| is_prefix(p, c);
        assert(ms.contains(ms[0]));
        command_names().lemma_filter_contains_rev(pred, ms[0]);
        lemma_names_are_words();
        let k = choose|k: int| 0 <= k < command_names().len() && command_names()[k] == ms[0];
        assert(ms[0].len() <= 14);
        assert(v.line.take(0) =~= Seq::<char>::empty());
        assert(Seq::<char>::empty() + ms[0].take(ms[0].len() as int) =~= ms[0]);
    }
}

/// On a telnet connection, an option offer (IAC WILL x) is refused with
/// IAC DONT x and an option request (IAC DO x) with IAC WONT x; none of
/// the three bytes finishes a line, and the editor is left as it was.
pub proof fn lemma_telnet_refusal(v: LineEditorView, verb: u8, x: u8)
    requires
        v.telnet,
        v.escape == EscapeState::Normal,
        verb == WILL || verb == DO,
    ensures
        editor_step(v, IAC).2 is None,
        editor_step(editor_step(v, IAC).0, verb).2 is None,
        editor_step(editor_step(editor_step(v, IAC).0, verb).0, x).2 is None,
        feed_state(v, seq![IAC, verb, x]) == v,
        feed_output(v, seq![IAC, verb, x]) == seq![
            IAC,
            if verb == WILL {
                DONT
            } else {
                WONT
            },
            x,
        ],
{
    reveal_with_fuel(feed_state, 4);
    reveal_with_fuel(feed_output, 4);
    let input = seq![IAC, verb, x];
    assert(input.drop_last() =~= seq![IAC, verb]);
    assert(input.drop_last().drop_last() =~= seq![IAC]);
    assert(input.drop_last().drop_last().drop_last() =~= Seq::<u8>::empty());
    assert(feed_output(v, input) =~= seq![
        IAC,
        if verb == WILL {
            DONT
        } else {
            WONT
        },
        x,
    ]);
}

/// Typing printable characters at the end of the line leaves the editor
/// outside any escape sequence.
proof fn lemma_typing_keeps_normal(v: LineEditorView, typed: Seq<u8>)
    requires
        v.escape == EscapeState::Normal,
        v.cursor == v.line.len(),
        printable(typed),
        v.line.len() + typed.len() <= max_line(),
    ensures
        feed_state(v, typed).escape == EscapeState::Normal,
        feed_state(v, typed).cursor == feed_state(v, typed).line.len(),
        feed_state(v, typed).line.len() == v.line.len() + typed.len(),
    decreases typed.len(),
{
    if typed.len() > 0 {
        let init = typed.drop_last();
        assert(printable(init)) by {
            assert forall|i: int| 0 <= i < init.len() implies 0x20 <= #[trigger] init[i] <= 0x7e by {
                assert(init[i] == typed[i]);
            }
        }
        lemma_typing_keeps_normal(v, init);
        assert(0x20 <= typed[typed.len() - 1] <= 0x7e);
    }
}

fn push_repeat(out: &mut Vec<u8>, a: u8, b: u8, c: u8, n: usize)
    ensures
        final(out)@ == old(out)@ + repeat(seq![a, b, c], n as nat),
{
    let mut i: usize = 0;
    while i < n
        invariant
            i <= n,
            out@ == old(out)@ + repeat(seq![a, b, c], i as nat),
        decreases n - i,
    {
        out.push(a);
        out.push(b);
        out.push(c);
        i = i + 1;
        assert(out@ =~= old(out)@ + repeat(seq![a, b, c], i as nat));
    }
}

/// Appends the bytes of `s[from..]`.
fn push_chars(out: &mut Vec<u8>, s: &Vec<char>, from: usize)
    requires
        from <= s@.len(),
    ensures
        final(out)@ == old(out)@ + bytes_of(s@.skip(from as int)),
{
    let mut i = from;
    while i < s.len()
        invariant
            from <= i <= s@.len(),
            out@ == old(out)@ + bytes_of(s@.subrange(from as int, i as int)),
        decreases s@.len() - i,
    {
        out.push(s[i] as u8);
        i = i + 1;
        assert(out@ =~= old(out)@ + bytes_of(s@.subrange(from as int, i as int)));
    }
    assert(s@.subrange(from as int, i as int) =~= s@.skip(from as int));
}

impl LineEditor {
    pub closed spec fn view(&self) -> LineEditorView {
        LineEditorView {
            line: self.line_buffer@,
            cursor: self.cursor_pos as nat,
            history: self.command_history@.map_values(|h: Vec<char>| h@),
            history_index: match self.history_index {
                Some(i) => Some(i as nat),
                None => None,
            },
            escape: self.escape_state,
            telnet: self.telnet,
        }
    }

    pub open spec fn wf(&self) -> bool {
        editor_wf(self.view())
    }

    /// An empty editor; `telnet` makes it answer telnet option negotiation.
    pub fn new(telnet: bool) -> (res: Self)
        ensures
            res.wf(),
            res.view() == (LineEditorView {
                line: seq![],
                cursor: 0,
                history: seq![],
                history_index: None,
                escape: EscapeState::Normal,
                telnet,
            }),
    {
        let res = LineEditor {
            line_buffer: Vec::new(),
            cursor_pos: 0,
            command_history: Vec::new(),
            history_index: None,
            escape_state: EscapeState::Normal,
            telnet,
        };
        assert(res.view().history =~= seq![]);
        res
    }

    /// The line being edited.
    pub fn line(&self) -> (res: String)
        ensures
            res@ == self.view().line,
    {
        string_of(&self.line_buffer)
    }

    pub fn cursor(&self) -> (res: usize)
        ensures
            res == self.view().cursor,
    {
        self.cursor_pos
    }

    /// Handles one received byte.
    pub fn handle_char(&mut self, ch: u8) -> (res: EditorStep)
        requires
            old(self).wf(),
        ensures
            final(self).wf(),
            editor_step(old(self).view(), ch) == (final(self).view(), res.output@, match res.command {
                Some(c) => Some(c@),
                None => None,
            }),
    {
        let mut output: Vec<u8> = Vec::new();
        let mut command: Option<String> = None;
        match self.escape_state {
            EscapeState::Normal => {
                if ch == 13 || ch == 10 {
                    command = Some(self.enter(&mut output));
                } else if ch == 27 {
                    self.escape_state = EscapeState::Escape;
                } else if ch == 8 || ch == 127 {
                    if self.line_buffer.len() > 0 && self.cursor_pos > 0 {
                        self.delete_char_before_cursor(&mut output);
                    }
                } else if ch == 9 {
                    self.handle_tab_completion(&mut output);
                } else if self.telnet && ch == IAC {
                    self.escape_state = EscapeState::Iac(0);
                } else if 0x20 <= ch && ch <= 0x7e {
                    if self.line_buffer.len() < CLI_BUFFER_SIZE - 1 {
                        self.insert_char_at_cursor(ch as char, &mut output);
                    }
                }
            },
            EscapeState::Escape => {
                if ch == 91 {
                    self.escape_state = EscapeState::Csi;
                } else {
                    self.escape_state = EscapeState::Normal;
                }
            },
            EscapeState::Csi => {
                self.escape_state = EscapeState::Normal;
                if ch == 65 {
                    self.handle_history_up(&mut output);
                } else if ch == 66 {
                    self.handle_history_down(&mut output);
                } else if ch == 67 {
                    self.handle_cursor_right(&mut output);
                } else if ch == 68 {
                    self.handle_cursor_left(&mut output);
                }
            },
            EscapeState::Iac(verb) => {
                if verb == 0 {
                    if ch == WILL || ch == WONT || ch == DO || ch == DONT {
                        self.escape_state = EscapeState::Iac(ch);
                    } else {
                        self.escape_state = EscapeState::Normal;
                    }
                } else {
                    let response_verb = if verb == WILL {
                        DONT
                    } else {
                        WONT
                    };
                    output.push(IAC);
                    output.push(response_verb);
                    output.push(ch);
                    self.escape_state = EscapeState::Normal;
                }
            },
        }
        assert(output@ =~= editor_step(old(self).view(), ch).1);
        EditorStep { output, command }
    }

    fn enter(&mut self, output: &mut Vec<u8>) -> (res: String)
        requires
            old(self).wf(),
            old(output)@ == Seq::<u8>::empty(),
        ensures
            final(self).wf(),
            enter_step(old(self).view()) == (final(self).view(), final(output)@, Some(res@)),
    {
        output.push(13);
        output.push(10);
        let command = self.line_buffer.clone();
        let ghost hv = self.command_history@.map_values(|h: Vec<char>| h@);
        let n = self.command_history.len();
        let should_add = command.len() > 0 && (n == 0 || !vec_chars_eq(
            &self.command_history[n - 1],
            &command,
        ));
        if should_add {
            if n >= MAX_HISTORY_SIZE {
                self.command_history.remove(0);
            }
            self.command_history.push(command.clone());
        }
        let res = string_of(&command);
        self.line_buffer = Vec::new();
        self.cursor_pos = 0;
        self.history_index = None;
        proof {
            let nv = self.view();
            let expect = enter_step(old(self).view()).0;
            if should_add {
                if n >= MAX_HISTORY_SIZE {
                    assert(nv.history =~= hv.drop_first().push(command@));
                } else {
                    assert(nv.history =~= hv.push(command@));
                }
            } else {
                assert(nv.history =~= hv);
            }
            assert(nv.line =~= expect.line);
            assert(output@ =~= seq![13u8, 10u8]);
        }
        res
    }

    fn delete_char_before_cursor(&mut self, output: &mut Vec<u8>)
        requires
            old(self).wf(),
            old(self).view().cursor > 0,
            old(self).view().line.len() > 0,
            old(output)@ == Seq::<u8>::empty(),
        ensures
            final(self).wf(),
            (final(self).view(), final(output)@) == delete_step(old(self).view()),
    {
        let ghost out0 = output@;
        if self.cursor_pos == self.line_buffer.len() {
            self.line_buffer.pop();
            self.cursor_pos = self.cursor_pos - 1;
            output.push(8);
            output.push(32);
            output.push(8);
            assert(output@.skip(out0.len() as int) =~= erase_seq());
        } else {
            self.line_buffer.remove(self.cursor_pos - 1);
            self.cursor_pos = self.cursor_pos - 1;
            output.push(27);
            output.push(91);
            output.push(68);
            let cur = self.cursor_pos;
            let tail_len = self.line_buffer.len() - cur;
            push_chars(output, &self.line_buffer, cur);
            output.push(32);
            push_repeat(output, 27, 91, 68, tail_len + 1);
            assert(output@.skip(out0.len() as int) =~= left_seq() + bytes_of(
                self.line_buffer@.skip(cur as int),
            ) + seq![32u8] + repeat(left_seq(), (tail_len + 1) as nat));
        }
        assert(self.view().line =~= delete_step(old(self).view()).0.line);
    }

    fn insert_char_at_cursor(&mut self, c: char, output: &mut Vec<u8>)
        requires
            old(self).wf(),
            old(self).view().line.len() < max_line(),
            old(output)@ == Seq::<u8>::empty(),
        ensures
            final(self).wf(),
            (final(self).view(), final(output)@) == insert_step(old(self).view(), c),
    {
        let ghost out0 = output@;
        if self.cursor_pos == self.line_buffer.len() {
            self.line_buffer.push(c);
            self.cursor_pos = self.cursor_pos + 1;
            output.push(c as u8);
            assert(output@.skip(out0.len() as int) =~= seq![c as u8]);
        } else {
            self.line_buffer.insert(self.cursor_pos, c);
            self.cursor_pos = self.cursor_pos + 1;
            let from = self.cursor_pos - 1;
            let tail_len = self.line_buffer.len() - from;
            push_chars(output, &self.line_buffer, from);
            push_repeat(output, 27, 91, 68, tail_len - 1);
            assert(output@.skip(out0.len() as int) =~= bytes_of(
                self.line_buffer@.skip(from as int),
            ) + repeat(left_seq(), (tail_len - 1) as nat));
        }
        assert(self.view().line =~= insert_step(old(self).view(), c).0.line);
    }
    fn replace_current_line(&mut self, new_line: Vec<char>, output: &mut Vec<u8>)
        requires
            old(output)@ == Seq::<u8>::empty(),
        ensures
            (final(self).view(), final(output)@) == replace_step(old(self).view(), new_line@),
    {
        push_repeat(output, 8, 32, 8, self.cursor_pos);
        push_chars(output, &new_line, 0);
        assert(new_line@.skip(0) =~= new_line@);
        self.cursor_pos = new_line.len();
        self.line_buffer = new_line;
        assert(output@ =~= repeat(erase_seq(), old(self).view().cursor) + bytes_of(
            self.line_buffer@,
        ));
    }

    fn handle_history_up(&mut self, output: &mut Vec<u8>)
        requires
            old(self).wf(),
            old(output)@ == Seq::<u8>::empty(),
        ensures
            final(self).wf(),
            (final(self).view(), final(output)@) == history_up_step(old(self).view()),
    {
        let n = self.command_history.len();
        if n == 0 {
            return ;
        }
        let new_index = match self.history_index {
            None => n - 1,
            Some(current) => if current > 0 {
                current - 1
            } else {
                return ;
            },
        };
        self.history_index = Some(new_index);
        let line = self.command_history[new_index].clone();
        assert(line@ == old(self).view().history[new_index as int]);
        let ghost mid = self.view();
        self.replace_current_line(line, output);
        assert(mid == (LineEditorView {
            history_index: Some(new_index as nat),
            ..old(self).view()
        }));
    }

    fn handle_history_down(&mut self, output: &mut Vec<u8>)
        requires
            old(self).wf(),
            old(output)@ == Seq::<u8>::empty(),
        ensures
            final(self).wf(),
            (final(self).view(), final(output)@) == history_down_step(old(self).view()),
    {
        let current = match self.history_index {
            None => {
                return ;
            },
            Some(c) => c,
        };
        if current + 1 < self.command_history.len() {
            self.history_index = Some(current + 1);
            let line = self.command_history[current + 1].clone();
            assert(line@ == old(self).view().history[current + 1 as int]);
            self.replace_current_line(line, output);
        } else {
            self.history_index = None;
            self.replace_current_line(Vec::new(), output);
        }
    }

    fn handle_cursor_right(&mut self, output: &mut Vec<u8>)
        requires
            old(self).wf(),
            old(output)@ == Seq::<u8>::empty(),
        ensures
            final(self).wf(),
            (final(self).view(), final(output)@) == cursor_right_step(old(self).view()),
    {
        if self.cursor_pos < self.line_buffer.len() {
            self.cursor_pos = self.cursor_pos + 1;
            output.push(27);
            output.push(91);
            output.push(67);
            assert(output@ =~= right_seq());
        }
    }

    fn handle_cursor_left(&mut self, output: &mut Vec<u8>)
        requires
            old(self).wf(),
            old(output)@ == Seq::<u8>::empty(),
        ensures
            final(self).wf(),
            (final(self).view(), final(output)@) == cursor_left_step(old(self).view()),
    {
        if self.cursor_pos > 0 {
            self.cursor_pos = self.cursor_pos - 1;
            output.push(27);
            output.push(91);
            output.push(68);
            assert(output@ =~= left_seq());
        }
    }

    /// Spec of the single-match completion.
    pub open spec fn complete_single_spec(v: LineEditorView, partial_len: nat, comp: Seq<char>) -> (
        LineEditorView,
        Seq<u8>,
    ) {
        let k = min_nat(partial_len, v.cursor);
        let line1 = v.line.take(v.line.len() - k);
        let n = min_nat(comp.len(), (max_line() - line1.len()) as nat);
        let line2 = line1 + comp.take(n as int);
        let sp = if line2.len() < max_line() {
            seq![' ']
        } else {
            seq![]
        };
        (
            LineEditorView { line: line2 + sp, cursor: (v.cursor - k + n + sp.len()) as nat, ..v },
            repeat(erase_seq(), k) + bytes_of(comp.take(n as int) + sp),
        )
    }

    fn complete_single(&mut self, partial_len: usize, completion: Vec<char>, output: &mut Vec<u8>)
        requires
            old(self).wf(),
            old(output)@ == Seq::<u8>::empty(),
        ensures
            final(self).wf(),
            (final(self).view(), final(output)@) == Self::complete_single_spec(
                old(self).view(),
                partial_len as nat,
                completion@,
            ),
    {
        let ghost v0 = old(self).view();
        let mut i: usize = 0;
        while i < partial_len
            invariant
                v0 == old(self).view(),
                editor_wf(v0),
                i <= partial_len,
                self.line_buffer@ == v0.line.take(v0.line.len() - min_nat(i as nat, v0.cursor)),
                self.cursor_pos == v0.cursor - min_nat(i as nat, v0.cursor),
                output@ == repeat(erase_seq(), min_nat(i as nat, v0.cursor)),
                self.command_history == old(self).command_history,
                self.history_index == old(self).history_index,
                self.escape_state == old(self).escape_state,
                self.telnet == old(self).telnet,
            decreases partial_len - i,
        {
            if self.cursor_pos > 0 {
                self.line_buffer.pop();
                self.cursor_pos = self.cursor_pos - 1;
                output.push(8);
                output.push(32);
                output.push(8);
                assert(self.line_buffer@ =~= v0.line.take(
                    v0.line.len() - min_nat((i + 1) as nat, v0.cursor),
                ));
                assert(output@ =~= repeat(erase_seq(), min_nat((i + 1) as nat, v0.cursor)));
            }
            i = i + 1;
        }
        let ghost line1 = self.line_buffer@;
        let ghost cur1 = self.cursor_pos;
        let ghost out1 = output@;
        let ghost room = (max_line() - line1.len()) as nat;
        let mut j: usize = 0;
        while j < completion.len()
            invariant
                j <= completion@.len(),
                line1.len() <= max_line(),
                room == max_line() - line1.len(),
                self.line_buffer@ == line1 + completion@.take(min_nat(j as nat, room) as int),
                self.cursor_pos == cur1 + min_nat(j as nat, room),
                cur1 <= line1.len(),
                output@ == out1 + bytes_of(completion@.take(min_nat(j as nat, room) as int)),
                self.command_history == old(self).command_history,
                self.history_index == old(self).history_index,
                self.escape_state == old(self).escape_state,
                self.telnet == old(self).telnet,
            decreases completion@.len() - j,
        {
            if self.line_buffer.len() < CLI_BUFFER_SIZE - 1 {
                let c = completion[j];
                self.line_buffer.push(c);
                self.cursor_pos = self.cursor_pos + 1;
                output.push(c as u8);
                assert(completion@.take(min_nat((j + 1) as nat, room) as int) =~= completion@.take(
                    min_nat(j as nat, room) as int,
                ).push(c));
            }
            j = j + 1;
            assert(self.line_buffer@ =~= line1 + completion@.take(min_nat(j as nat, room) as int));
            assert(output@ =~= out1 + bytes_of(completion@.take(min_nat(j as nat, room) as int)));
        }
        let ghost line2 = self.line_buffer@;
        if self.line_buffer.len() < CLI_BUFFER_SIZE - 1 {
            self.line_buffer.push(' ');
            self.cursor_pos = self.cursor_pos + 1;
            output.push(32);
        }
        proof {
            let n = min_nat(completion@.len(), room);
            let sp: Seq<char> = if line2.len() < max_line() {
                seq![' ']
            } else {
                seq![]
            };
            assert(self.line_buffer@ =~= line2 + sp);
            assert(bytes_of(completion@.take(n as int) + sp) =~= bytes_of(
                completion@.take(n as int),
            ) + bytes_of(sp));
            assert(output@ =~= out1 + bytes_of(completion@.take(n as int) + sp));
            assert(self.view().history == v0.history);
        }
    }

    fn list_matches(&self, matches: &Vec<&'static str>, Ghost(ms): Ghost<Seq<Seq<char>>>, output: &mut Vec<u8>)
        requires
            old(output)@ == Seq::<u8>::empty(),
            matches@.map_values(|c: &str| c@) == ms,
        ensures
            final(output)@ == bytes_of(
                seq!['\r', '\n'] + join_two_spaces(ms) + seq!['\r', '\n'] + PROMPT@ + self.view().line,
            ),
    {
        assert(matches@.len() == ms.len());
        output.push(13);
        output.push(10);
        assert(output@ =~= bytes_of(seq!['\r', '\n'] + join_two_spaces(ms.take(0))));
        let mut k: usize = 0;
        while k < matches.len()
            invariant
                k <= matches@.len(),
                matches@.map_values(|c: &str| c@) == ms,
                matches@.len() == ms.len(),
                output@ == bytes_of(seq!['\r', '\n'] + join_two_spaces(ms.take(k as int))),
            decreases matches@.len() - k,
        {
            if k > 0 {
                output.push(32);
                output.push(32);
            }
            let name = chars_of(matches[k]);
            assert(name@ == ms[k as int]);
            push_chars(output, &name, 0);
            assert(name@.skip(0) =~= name@);
            let ghost t = ms.take(k + 1);
            assert(t.drop_last() =~= ms.take(k as int));
            assert(t.last() == ms[k as int]);
            k = k + 1;
            assert(output@ =~= bytes_of(seq!['\r', '\n'] + join_two_spaces(ms.take(k as int))));
        }
        assert(ms.take(k as int) =~= ms);
        output.push(13);
        output.push(10);
        let prompt = chars_of(PROMPT);
        push_chars(output, &prompt, 0);
        push_chars(output, &self.line_buffer, 0);
        assert(prompt@.skip(0) =~= prompt@);
        assert(self.line_buffer@.skip(0) =~= self.line_buffer@);
        assert(output@ =~= bytes_of(
            seq!['\r', '\n'] + join_two_spaces(ms) + seq!['\r', '\n'] + PROMPT@ + self.view().line,
        ));
    }

    fn handle_tab_completion(&mut self, output: &mut Vec<u8>)
        requires
            old(self).wf(),
            old(output)@ == Seq::<u8>::empty(),
        ensures
            final(self).wf(),
            (final(self).view(), final(output)@) == tab_step(old(self).view()),
    {
        let ws = split_words(&self.line_buffer);
        let len = self.line_buffer.len();
        let ends_space = len > 0 && self.line_buffer[len - 1] == ' ';
        if !(ws.len() == 0 || (!ends_space && ws.len() == 1)) {
            return ;
        }
        let partial: Vec<char> = if ws.len() == 0 {
            Vec::new()
        } else {
            ws[0].clone()
        };
        assert(completion_partial(old(self).view()) == Some(partial@));
        let matches = CommandParser::matching_commands(&partial);
        let ghost ms = command_names().filter(|c: Seq<char>| is_prefix(partial@, c));
        assert(matches@.map_values(|c: &str| c@) == ms);
        assert(matches@.len() == ms.len());
        if matches.len() == 0 {
        } else if matches.len() == 1 {
            let completion = chars_of(matches[0]);
            assert(completion@ == ms[0]);
            self.complete_single(partial.len(), completion, output);
        } else {
            self.list_matches(&matches, Ghost(ms), output);
        }
    }
}


fn vec_chars_eq(a: &Vec<char>, b: &Vec<char>) -> (res: bool)
    ensures
        res == (a@ == b@),
{
    if a.len() != b.len() {
        return false;
    }
    let mut i: usize = 0;
    while i < a.len()
        invariant
            i <= a@.len() == b@.len(),
            forall|j: int| 0 <= j < i ==> a@[j] == b@[j],
        decreases a@.len() - i,
    {
        if a[i] != b[i] {
            return false;
        }
        i = i + 1;
    }
    assert(a@ =~= b@);
    true
}

} // verus!
