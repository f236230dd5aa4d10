//! Commands that arrive as lines of text.
use crate::utils::keyboard::{Action, ActionModel};
use crate::utils::text;
use std::collections::VecDeque;
use vstd::prelude::*;

verus! {

/// A signed number that fits a fragment's number.
pub open spec fn file_number(s: Seq<char>) -> Option<i32> {
    match text::signed(s) {
        Some(n) => if i32::MIN <= n <= i32::MAX {
            Some(n as i32)
        } else {
            None
        },
        None => None,
    }
}

/// The seconds that follow `record:`, if they are a number.
pub open spec fn stated_seconds(line: Seq<char>) -> Option<u64> {
    let parts = text::split(line, ':');
    if parts.len() < 2 {
        None
    } else {
        match text::unsigned(text::trimmed(parts[1])) {
            Some(n) => if n <= u64::MAX {
                Some(n as u64)
            } else {
                None
            },
            None => None,
        }
    }
}

/// A command that is one word.
pub open spec fn plain_command(lower: Seq<char>) -> Option<ActionModel> {
    if lower == "record"@ || lower == "r"@ {
        Some(ActionModel::Record { duration_secs: None })
    } else if lower == "ok"@ || lower == "e"@ {
        Some(ActionModel::Accept)
    } else if lower == "stop"@ || lower == "d"@ {
        Some(ActionModel::Stop)
    } else if lower == "prev"@ || lower == "a"@ {
        Some(ActionModel::Prev)
    } else if lower == "next"@ || lower == "f"@ {
        Some(ActionModel::Next)
    } else if lower == "prev_sect"@ {
        Some(ActionModel::PrevSect)
    } else if lower == "next_sect"@ {
        Some(ActionModel::NextSect)
    } else if lower == "play"@ || lower == "s"@ {
        Some(ActionModel::Play)
    } else if lower == "mode_update"@ || lower == "u"@ {
        Some(ActionModel::ModeUpdate)
    } else if lower == "mode_insert"@ || lower == "i"@ {
        Some(ActionModel::ModeInsert)
    } else if lower == "compile"@ {
        Some(ActionModel::Compile)
    } else if lower == "shutdown"@ || lower == "quit"@ || lower == "exit"@ {
        Some(ActionModel::Shutdown)
    } else {
        None
    }
}

/// The command in a line without surrounding white space. `lower` is the line
/// in lower case; arguments keep their case.
pub open spec fn command(line: Seq<char>, lower: Seq<char>) -> Option<ActionModel> {
    let w = text::words(line);
    if text::has_prefix(lower, "record:"@) {
        Some(ActionModel::Record { duration_secs: stated_seconds(line) })
    } else if text::has_prefix(lower, "goto"@) {
        Some(
            ActionModel::Goto {
                index: if w.len() > 1 {
                    file_number(w[1])
                } else {
                    Some(-1i32)
                },
                play: w.len() > 2 && (w[2] == "p"@ || w[2] == "play"@),
            },
        )
    } else if text::has_prefix(lower, "m_add"@) {
        if w.len() >= 3 && file_number(w[1]) is Some {
            Some(ActionModel::AddMarkers { file_index: file_number(w[1])->0, markers: w.skip(2) })
        } else {
            None
        }
    } else if text::has_prefix(lower, "m_del"@) {
        if w.len() >= 3 && file_number(w[1]) is Some {
            Some(
                ActionModel::RemoveMarkers { file_index: file_number(w[1])->0, markers: w.skip(2) },
            )
        } else {
            None
        }
    } else if text::has_prefix(lower, "m_set"@) {
        if w.len() >= 2 && file_number(w[1]) is Some {
            Some(ActionModel::SetMarkers { file_index: file_number(w[1])->0, markers: w.skip(2) })
        } else {
            None
        }
    } else if text::has_prefix(lower, "trans"@) {
        if w.len() >= 2 && file_number(w[1]) is Some {
            Some(ActionModel::Transcribe { file_index: file_number(w[1])->0 })
        } else {
            None
        }
    } else {
        plain_command(lower)
    }
}

/// The view of a parsed line.
pub open spec fn parsed(r: Option<Action>) -> Option<ActionModel> {
    match r {
        Some(action) => Some(action@),
        None => None,
    }
}

fn plain(lower: &str) -> (r: Option<Action>)
    ensures
        parsed(r) == plain_command(lower@),
{
    if text::same_text(lower, "record") || text::same_text(lower, "r") {
        Some(Action::Record { duration_secs: None })
    } else if text::same_text(lower, "ok") || text::same_text(lower, "e") {
        Some(Action::Accept)
    } else if text::same_text(lower, "stop") || text::same_text(lower, "d") {
        Some(Action::Stop)
    } else if text::same_text(lower, "prev") || text::same_text(lower, "a") {
        Some(Action::Prev)
    } else if text::same_text(lower, "next") || text::same_text(lower, "f") {
        Some(Action::Next)
    } else if text::same_text(lower, "prev_sect") {
        Some(Action::PrevSect)
    } else if text::same_text(lower, "next_sect") {
        Some(Action::NextSect)
    } else if text::same_text(lower, "play") || text::same_text(lower, "s") {
        Some(Action::Play)
    } else if text::same_text(lower, "mode_update") || text::same_text(lower, "u") {
        Some(Action::ModeUpdate)
    } else if text::same_text(lower, "mode_insert") || text::same_text(lower, "i") {
        Some(Action::ModeInsert)
    } else if text::same_text(lower, "compile") {
        Some(Action::Compile)
    } else if text::same_text(lower, "shutdown") || text::same_text(lower, "quit") || text::same_text(lower, "exit") {
        Some(Action::Shutdown)
    } else {
        None
    }
}

/// The words after the first two, as a list of markers.
fn marker_words(words: &Vec<String>) -> (r: Vec<String>)
    requires
        words@.len() >= 2,
    ensures
        text::texts(r@) == text::texts(words@).skip(2),
{
    let mut out: Vec<String> = Vec::new();
    let mut i: usize = 2;
    while i < words.len()
        invariant
            2 <= i <= words.len(),
            out@.len() == i - 2,
            forall|k: int| 0 <= k < out@.len() ==> (#[trigger] out@[k])@ == words@[k + 2]@,
        decreases words.len() - i,
    {
        out.push(words[i].clone());
        i = i + 1;
    }
    assert(text::texts(out@) =~= text::texts(words@).skip(2));
    out
}

/// Reads a command from a line and its form in lower case.
pub fn parse_command(line: &str, lower: &str) -> (r: Option<Action>)
    ensures
        parsed(r) == command(line@, lower@),
{
    let words = text::split_words(line);
    let ghost w = text::words(line@);
    assert(w.len() == words@.len());
    assert(forall|k: int| 0 <= k < w.len() ==> #[trigger] w[k] == words@[k]@);
    if text::starts_with(lower, "record:") {
        let parts = text::split_text(line, ':');
        let duration_secs: Option<u64> = if parts.len() < 2 {
            None
        } else {
            assert(text::split(line@, ':')[1] == parts@[1]@);
            let stated = text::trim(parts[1].as_str());
            text::parse_unsigned(stated.as_str(), u64::MAX)
        };
        return Some(Action::Record { duration_secs });
    }
    let number: Option<i32> = if words.len() > 1 {
        text::parse_i32(words[1].as_str())
    } else {
        None
    };
    if text::starts_with(lower, "goto") {
        let index: Option<i32> = if words.len() > 1 {
            number
        } else {
            Some(-1)
        };
        let play = words.len() > 2 && (text::same_text(words[2].as_str(), "p") || text::same_text(
            words[2].as_str(),
            "play",
        ));
        return Some(Action::Goto { index, play });
    }
    if text::starts_with(lower, "m_add") {
        return match number {
            Some(file_index) => if words.len() >= 3 {
                Some(Action::AddMarkers { file_index, markers: marker_words(&words) })
            } else {
                None
            },
            None => None,
        };
    }
    if text::starts_with(lower, "m_del") {
        return match number {
            Some(file_index) => if words.len() >= 3 {
                Some(Action::RemoveMarkers { file_index, markers: marker_words(&words) })
            } else {
                None
            },
            None => None,
        };
    }
    if text::starts_with(lower, "m_set") {
        return match number {
            Some(file_index) => {
                Some(Action::SetMarkers { file_index, markers: marker_words(&words) })
            },
            None => None,
        };
    }
    if text::starts_with(lower, "trans") {
        return match number {
            Some(file_index) => Some(Action::Transcribe { file_index }),
            None => None,
        };
    }
    plain(lower)
}

/// The command in a line, whatever the case of its name.
pub open spec fn line_command(line: Seq<char>) -> Option<ActionModel> {
    let t = text::trimmed(line);
    if t.len() == 0 {
        None
    } else {
        command(t, text::lowercase(t))
    }
}

/// Reads a command from a line.
pub fn parse_line(line: &str) -> (r: Option<Action>)
    ensures
        parsed(r) == line_command(line@),
{
    let t = text::trim(line);
    if t.as_str().is_empty() {
        return None;
    }
    let lower = text::to_lowercase(t.as_str());
    parse_command(t.as_str(), lower.as_str())
}

/// The command channel has no sender any more.
#[derive(Clone, Copy, Debug, PartialEq, Eq, Structural)]
pub struct Disconnected;

impl Disconnected {
    pub fn message(&self) -> (text: &'static str)
        ensures
            text@ == "FIFO command channel disconnected"@,
    {
        "FIFO command channel disconnected"
    }
}

/// Commands that wait to be taken, the first one first.
pub struct FifoHandler {
    queue: VecDeque<Action>,
    connected: bool,
}

impl FifoHandler {
    /// The commands that wait.
    pub closed spec fn waiting(&self) -> Seq<ActionModel> {
        self.queue@.map_values(|a: Action| a@)
    }

    /// Whether more commands can arrive.
    pub closed spec fn is_connected(&self) -> bool {
        self.connected
    }

    pub fn new() -> (r: Self)
        ensures
            r.waiting() == Seq::<ActionModel>::empty(),
            r.is_connected(),
    {
        let r = FifoHandler { queue: VecDeque::new(), connected: true };
        assert(r.waiting() =~= Seq::empty());
        r
    }

    /// Takes in a line. A line without a command changes nothing and gives `false`.
    pub fn accept_line(&mut self, line: &str) -> (known: bool)
        ensures
            known == line_command(line@) is Some,
            final(self).is_connected() == old(self).is_connected(),
            final(self).waiting() == (match line_command(line@) {
                Some(action) => old(self).waiting().push(action),
                None => old(self).waiting(),
            }),
    {
        match parse_line(line) {
            Some(action) => {
                self.queue.push_back(action);
                assert(self.waiting() =~= old(self).waiting().push(action@));
                true
            },
            None => false,
        }
    }

    /// No more lines will arrive.
    pub fn disconnect(&mut self)
        ensures
            !final(self).is_connected(),
            final(self).waiting() == old(self).waiting(),
    {
        self.connected = false;
    }

    /// Takes the first command that waits. What waits is still handed out after
    /// the last sender is gone.
    pub fn try_recv(&mut self) -> (r: Result<Option<Action>, Disconnected>)
        ensures
            final(self).is_connected() == old(self).is_connected(),
            match r {
                Ok(Some(action)) => {
                    &&& old(self).waiting().len() > 0
                    &&& action@ == old(self).waiting()[0]
                    &&& final(self).waiting() == old(self).waiting().drop_first()
                },
                Ok(None) => {
                    &&& old(self).waiting().len() == 0
                    &&& old(self).is_connected()
                    &&& final(self).waiting() == old(self).waiting()
                },
                Err(_) => {
                    &&& old(self).waiting().len() == 0
                    &&& !old(self).is_connected()
                    &&& final(self).waiting() == old(self).waiting()
                },
            },
    {
        match self.queue.pop_front() {
            Some(action) => {
                assert(self.waiting() =~= old(self).waiting().drop_first());
                Ok(Some(action))
            },
            None => if self.connected {
                Ok(None)
            } else {
                Err(Disconnected)
            },
        }
    }
}

proof fn words_differ()
    ensures
        "record"@ != "r"@,
        "record"@ != "ok"@,
        "record"@ != "e"@,
        "record"@ != "stop"@,
        "record"@ != "d"@,
        "record"@ != "prev"@,
        "record"@ != "a"@,
        "record"@ != "next"@,
        "record"@ != "f"@,
        "record"@ != "prev_sect"@,
        "record"@ != "next_sect"@,
        "record"@ != "play"@,
        "record"@ != "s"@,
        "record"@ != "mode_update"@,
        "record"@ != "u"@,
        "record"@ != "mode_insert"@,
        "record"@ != "i"@,
        "record"@ != "compile"@,
        "record"@ != "shutdown"@,
        "record"@ != "quit"@,
        "record"@ != "exit"@,
        "r"@ != "ok"@,
        "r"@ != "e"@,
        "r"@ != "stop"@,
        "r"@ != "d"@,
        "r"@ != "prev"@,
        "r"@ != "a"@,
        "r"@ != "next"@,
        "r"@ != "f"@,
        "r"@ != "prev_sect"@,
        "r"@ != "next_sect"@,
        "r"@ != "play"@,
        "r"@ != "s"@,
        "r"@ != "mode_update"@,
        "r"@ != "u"@,
        "r"@ != "mode_insert"@,
        "r"@ != "i"@,
        "r"@ != "compile"@,
        "r"@ != "shutdown"@,
        "r"@ != "quit"@,
        "r"@ != "exit"@,
        "ok"@ != "e"@,
        "ok"@ != "stop"@,
        "ok"@ != "d"@,
        "ok"@ != "prev"@,
        "ok"@ != "a"@,
        "ok"@ != "next"@,
        "ok"@ != "f"@,
        "ok"@ != "prev_sect"@,
        "ok"@ != "next_sect"@,
        "ok"@ != "play"@,
        "ok"@ != "s"@,
        "ok"@ != "mode_update"@,
        "ok"@ != "u"@,
        "ok"@ != "mode_insert"@,
        "ok"@ != "i"@,
        "ok"@ != "compile"@,
        "ok"@ != "shutdown"@,
        "ok"@ != "quit"@,
        "ok"@ != "exit"@,
        "e"@ != "stop"@,
        "e"@ != "d"@,
        "e"@ != "prev"@,
        "e"@ != "a"@,
        "e"@ != "next"@,
        "e"@ != "f"@,
        "e"@ != "prev_sect"@,
        "e"@ != "next_sect"@,
        "e"@ != "play"@,
        "e"@ != "s"@,
        "e"@ != "mode_update"@,
        "e"@ != "u"@,
        "e"@ != "mode_insert"@,
        "e"@ != "i"@,
        "e"@ != "compile"@,
        "e"@ != "shutdown"@,
        "e"@ != "quit"@,
        "e"@ != "exit"@,
        "stop"@ != "d"@,
        "stop"@ != "prev"@,
        "stop"@ != "a"@,
        "stop"@ != "next"@,
        "stop"@ != "f"@,
        "stop"@ != "prev_sect"@,
        "stop"@ != "next_sect"@,
        "stop"@ != "play"@,
        "stop"@ != "s"@,
        "stop"@ != "mode_update"@,
        "stop"@ != "u"@,
        "stop"@ != "mode_insert"@,
        "stop"@ != "i"@,
        "stop"@ != "compile"@,
        "stop"@ != "shutdown"@,
        "stop"@ != "quit"@,
        "stop"@ != "exit"@,
        "d"@ != "prev"@,
        "d"@ != "a"@,
        "d"@ != "next"@,
        "d"@ != "f"@,
        "d"@ != "prev_sect"@,
        "d"@ != "next_sect"@,
        "d"@ != "play"@,
        "d"@ != "s"@,
        "d"@ != "mode_update"@,
        "d"@ != "u"@,
        "d"@ != "mode_insert"@,
        "d"@ != "i"@,
        "d"@ != "compile"@,
        "d"@ != "shutdown"@,
        "d"@ != "quit"@,
        "d"@ != "exit"@,
        "prev"@ != "a"@,
        "prev"@ != "next"@,
        "prev"@ != "f"@,
        "prev"@ != "prev_sect"@,
        "prev"@ != "next_sect"@,
        "prev"@ != "play"@,
        "prev"@ != "s"@,
        "prev"@ != "mode_update"@,
        "prev"@ != "u"@,
        "prev"@ != "mode_insert"@,
        "prev"@ != "i"@,
        "prev"@ != "compile"@,
        "prev"@ != "shutdown"@,
        "prev"@ != "quit"@,
        "prev"@ != "exit"@,
        "a"@ != "next"@,
        "a"@ != "f"@,
        "a"@ != "prev_sect"@,
        "a"@ != "next_sect"@,
        "a"@ != "play"@,
        "a"@ != "s"@,
        "a"@ != "mode_update"@,
        "a"@ != "u"@,
        "a"@ != "mode_insert"@,
        "a"@ != "i"@,
        "a"@ != "compile"@,
        "a"@ != "shutdown"@,
        "a"@ != "quit"@,
        "a"@ != "exit"@,
        "next"@ != "f"@,
        "next"@ != "prev_sect"@,
        "next"@ != "next_sect"@,
        "next"@ != "play"@,
        "next"@ != "s"@,
        "next"@ != "mode_update"@,
        "next"@ != "u"@,
        "next"@ != "mode_insert"@,
        "next"@ != "i"@,
        "next"@ != "compile"@,
        "next"@ != "shutdown"@,
        "next"@ != "quit"@,
        "next"@ != "exit"@,
        "f"@ != "prev_sect"@,
        "f"@ != "next_sect"@,
        "f"@ != "play"@,
        "f"@ != "s"@,
        "f"@ != "mode_update"@,
        "f"@ != "u"@,
        "f"@ != "mode_insert"@,
        "f"@ != "i"@,
        "f"@ != "compile"@,
        "f"@ != "shutdown"@,
        "f"@ != "quit"@,
        "f"@ != "exit"@,
        "prev_sect"@ != "next_sect"@,
        "prev_sect"@ != "play"@,
        "prev_sect"@ != "s"@,
        "prev_sect"@ != "mode_update"@,
        "prev_sect"@ != "u"@,
        "prev_sect"@ != "mode_insert"@,
        "prev_sect"@ != "i"@,
        "prev_sect"@ != "compile"@,
        "prev_sect"@ != "shutdown"@,
        "prev_sect"@ != "quit"@,
        "prev_sect"@ != "exit"@,
        "next_sect"@ != "play"@,
        "next_sect"@ != "s"@,
        "next_sect"@ != "mode_update"@,
        "next_sect"@ != "u"@,
        "next_sect"@ != "mode_insert"@,
        "next_sect"@ != "i"@,
        "next_sect"@ != "compile"@,
        "next_sect"@ != "shutdown"@,
        "next_sect"@ != "quit"@,
        "next_sect"@ != "exit"@,
        "play"@ != "s"@,
        "play"@ != "mode_update"@,
        "play"@ != "u"@,
        "play"@ != "mode_insert"@,
        "play"@ != "i"@,
        "play"@ != "compile"@,
        "play"@ != "shutdown"@,
        "play"@ != "quit"@,
        "play"@ != "exit"@,
        "s"@ != "mode_update"@,
        "s"@ != "u"@,
        "s"@ != "mode_insert"@,
        "s"@ != "i"@,
        "s"@ != "compile"@,
        "s"@ != "shutdown"@,
        "s"@ != "quit"@,
        "s"@ != "exit"@,
        "mode_update"@ != "u"@,
        "mode_update"@ != "mode_insert"@,
        "mode_update"@ != "i"@,
        "mode_update"@ != "compile"@,
        "mode_update"@ != "shutdown"@,
        "mode_update"@ != "quit"@,
        "mode_update"@ != "exit"@,
        "u"@ != "mode_insert"@,
        "u"@ != "i"@,
        "u"@ != "compile"@,
        "u"@ != "shutdown"@,
        "u"@ != "quit"@,
        "u"@ != "exit"@,
        "mode_insert"@ != "i"@,
        "mode_insert"@ != "compile"@,
        "mode_insert"@ != "shutdown"@,
        "mode_insert"@ != "quit"@,
        "mode_insert"@ != "exit"@,
        "i"@ != "compile"@,
        "i"@ != "shutdown"@,
        "i"@ != "quit"@,
        "i"@ != "exit"@,
        "compile"@ != "shutdown"@,
        "compile"@ != "quit"@,
        "compile"@ != "exit"@,
        "shutdown"@ != "quit"@,
        "shutdown"@ != "exit"@,
        "quit"@ != "exit"@,
{
    reveal_strlit("record");
    reveal_strlit("r");
    reveal_strlit("ok");
    reveal_strlit("e");
    reveal_strlit("stop");
    reveal_strlit("d");
    reveal_strlit("prev");
    reveal_strlit("a");
    reveal_strlit("next");
    reveal_strlit("f");
    reveal_strlit("prev_sect");
    reveal_strlit("next_sect");
    reveal_strlit("play");
    reveal_strlit("s");
    reveal_strlit("mode_update");
    reveal_strlit("u");
    reveal_strlit("mode_insert");
    reveal_strlit("i");
    reveal_strlit("compile");
    reveal_strlit("shutdown");
    reveal_strlit("quit");
    reveal_strlit("exit");
    assert("record"@.len() == 6);
    assert("record"@[0] == 'r');
    assert("r"@.len() == 1);
    assert("r"@[0] == 'r');
    assert("ok"@.len() == 2);
    assert("ok"@[0] == 'o');
    assert("e"@.len() == 1);
    assert("e"@[0] == 'e');
    assert("stop"@.len() == 4);
    assert("stop"@[0] == 's');
    assert("d"@.len() == 1);
    assert("d"@[0] == 'd');
    assert("prev"@.len() == 4);
    assert("prev"@[0] == 'p');
    assert("a"@.len() == 1);
    assert("a"@[0] == 'a');
    assert("next"@.len() == 4);
    assert("next"@[0] == 'n');
    assert("f"@.len() == 1);
    assert("f"@[0] == 'f');
    assert("prev_sect"@.len() == 9);
    assert("prev_sect"@[0] == 'p');
    assert("next_sect"@.len() == 9);
    assert("next_sect"@[0] == 'n');
    assert("play"@.len() == 4);
    assert("play"@[0] == 'p');
    assert("s"@.len() == 1);
    assert("s"@[0] == 's');
    assert("mode_update"@.len() == 11);
    assert("mode_update"@[0] == 'm');
    assert("u"@.len() == 1);
    assert("u"@[0] == 'u');
    assert("mode_insert"@.len() == 11);
    assert("mode_insert"@[0] == 'm');
    assert("i"@.len() == 1);
    assert("i"@[0] == 'i');
    assert("compile"@.len() == 7);
    assert("compile"@[0] == 'c');
    assert("shutdown"@.len() == 8);
    assert("shutdown"@[0] == 's');
    assert("quit"@.len() == 4);
    assert("quit"@[0] == 'q');
    assert("exit"@.len() == 4);
    assert("exit"@[0] == 'e');
    assert("prev"@[1] == 'r');
    assert("play"@[1] == 'l');
    assert("mode_update"@[5] == 'u');
    assert("mode_insert"@[5] == 'i');
}

/// Each command has its word, and the frequent ones a short one.
pub proof fn commands_have_their_words()
    ensures
        plain_command("record"@) == Some(ActionModel::Record { duration_secs: None }),
        plain_command("r"@) == plain_command("record"@),
        plain_command("ok"@) == Some(ActionModel::Accept),
        plain_command("e"@) == plain_command("ok"@),
        plain_command("stop"@) == Some(ActionModel::Stop),
        plain_command("d"@) == plain_command("stop"@),
        plain_command("prev"@) == Some(ActionModel::Prev),
        plain_command("a"@) == plain_command("prev"@),
        plain_command("next"@) == Some(ActionModel::Next),
        plain_command("f"@) == plain_command("next"@),
        plain_command("prev_sect"@) == Some(ActionModel::PrevSect),
        plain_command("next_sect"@) == Some(ActionModel::NextSect),
        plain_command("play"@) == Some(ActionModel::Play),
        plain_command("s"@) == plain_command("play"@),
        plain_command("mode_update"@) == Some(ActionModel::ModeUpdate),
        plain_command("u"@) == plain_command("mode_update"@),
        plain_command("mode_insert"@) == Some(ActionModel::ModeInsert),
        plain_command("i"@) == plain_command("mode_insert"@),
        plain_command("compile"@) == Some(ActionModel::Compile),
        plain_command("shutdown"@) == Some(ActionModel::Shutdown),
        plain_command("quit"@) == plain_command("shutdown"@),
        plain_command("exit"@) == Some(ActionModel::Shutdown),
{
    words_differ();
}

/// A command about markers has the number of a fragment as its second word and the markers
/// as the words behind it; without a number, or without a marker where one is needed, there
/// is no command. Arguments keep their case.
pub proof fn marker_commands_have_a_number_and_names(
    line: Seq<char>,
    lower: Seq<char>,
    n: i32,
)
    requires
        text::words(line).len() >= 2,
        text::signed(text::words(line)[1]) == Some(n as int),
        !text::has_prefix(lower, "record:"@),
        !text::has_prefix(lower, "goto"@),
    ensures
        ({
            let w = text::words(line);
            let rest = Seq::new((w.len() - 2) as nat, |k: int| w[k + 2]);
            &&& text::has_prefix(lower, "m_add"@) && rest.len() > 0 ==> command(line, lower) == Some(
                ActionModel::AddMarkers { file_index: n, markers: rest },
            )
            &&& text::has_prefix(lower, "m_add"@) && rest.len() == 0 ==> command(
                line,
                lower,
            ) is None
            &&& text::has_prefix(lower, "m_del"@) && rest.len() > 0 ==> command(line, lower) == Some(
                ActionModel::RemoveMarkers { file_index: n, markers: rest },
            )
            &&& text::has_prefix(lower, "m_del"@) && rest.len() == 0 ==> command(
                line,
                lower,
            ) is None
            &&& text::has_prefix(lower, "m_set"@) ==> command(line, lower) == Some(
                ActionModel::SetMarkers { file_index: n, markers: rest },
            )
            &&& text::has_prefix(lower, "trans"@) ==> command(line, lower) == Some(
                ActionModel::Transcribe { file_index: n },
            )
        }),
{
    let w = text::words(line);
    let rest = Seq::new((w.len() - 2) as nat, |k: int| w[k + 2]);
    assert(w.skip(2) =~= rest);
    reveal_strlit("m_add");
    reveal_strlit("m_del");
    reveal_strlit("m_set");
    reveal_strlit("trans");
    if text::has_prefix(lower, "m_add"@) {
        assert(lower[2] == "m_add"@[2]);
        assert(lower[0] == "m_add"@[0]);
    }
    if text::has_prefix(lower, "m_del"@) {
        assert(lower[2] == "m_del"@[2]);
        assert(lower[0] == "m_del"@[0]);
    }
    if text::has_prefix(lower, "m_set"@) {
        assert(lower[2] == "m_set"@[2]);
        assert(lower[0] == "m_set"@[0]);
    }
    if text::has_prefix(lower, "trans"@) {
        assert(lower[0] == "trans"@[0]);
    }
}

/// A move has the place in the list as its second word, which is the newest fragment where
/// it is left out, and plays where the third word says so.
pub proof fn moves_have_a_place(line: Seq<char>, lower: Seq<char>, n: i32)
    requires
        text::has_prefix(lower, "goto"@),
    ensures
        text::words(line).len() < 2 ==> command(line, lower) == Some(
            ActionModel::Goto { index: Some(-1i32), play: false },
        ),
        text::words(line).len() == 2 && text::signed(text::words(line)[1]) == Some(n as int)
            ==> command(line, lower) == Some(ActionModel::Goto { index: Some(n), play: false }),
        text::words(line).len() > 2 && text::signed(text::words(line)[1]) == Some(n as int) && (
        text::words(line)[2] == "p"@ || text::words(line)[2] == "play"@) ==> command(line, lower)
            == Some(ActionModel::Goto { index: Some(n), play: true }),
{
    reveal_strlit("goto");
    reveal_strlit("record:");
    assert(lower[0] == "goto"@[0]);
    if text::has_prefix(lower, "record:"@) {
        assert(lower[0] == "record:"@[0]);
    }
}

} // verus!
