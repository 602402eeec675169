//! A log of messages and the commands that can be typed into it.

use crate::action::Action;
use crate::game::Game;
use crate::pile::PileId;
use vstd::prelude::*;
use vstd::string::{StrSliceExecFns, StringExecFns};

verus! {

/// Whether the character is white space in the sense of Unicode.
pub open spec fn is_space(c: char) -> bool {
    let u = c as u32;
    (0x09 <= u <= 0x0D) || u == 0x20 || u == 0x85 || u == 0xA0 || u == 0x1680 || (0x2000 <= u
        <= 0x200A) || u == 0x2028 || u == 0x2029 || u == 0x202F || u == 0x205F || u == 0x3000
}

/// Whether the character is white space in the sense of Unicode.
pub fn is_whitespace(c: char) -> (b: bool)
    ensures
        b == is_space(c),
{
    let u: u32 = c as u32;
    (0x09 <= u && u <= 0x0D) || u == 0x20 || u == 0x85 || u == 0xA0 || u == 0x1680 || (0x2000 <= u
        && u <= 0x200A) || u == 0x2028 || u == 0x2029 || u == 0x202F || u == 0x205F || u == 0x3000
}

/// Reading the first `upto` characters of the text from the left: the words
/// that have ended, and where the word that has not ended begins.
pub open spec fn scan(text: Seq<char>, upto: int) -> (Seq<Seq<char>>, int)
    decreases upto,
{
    if upto <= 0 {
        (Seq::empty(), 0)
    } else {
        let (done, start) = scan(text, upto - 1);
        if is_space(text[upto - 1]) {
            (
                if start < upto - 1 {
                    done.push(text.subrange(start, upto - 1))
                } else {
                    done
                },
                upto,
            )
        } else {
            (done, start)
        }
    }
}

/// The words of the text: its longest stretches without white space, from
/// left to right.
pub open spec fn words(text: Seq<char>) -> Seq<Seq<char>> {
    let (done, start) = scan(text, text.len() as int);
    if start < text.len() {
        done.push(text.subrange(start, text.len() as int))
    } else {
        done
    }
}

/// The value of a decimal digit.
pub open spec fn digit_of(c: char) -> Option<nat> {
    if '0' <= c <= '9' {
        Some((c as u32 - '0' as u32) as nat)
    } else {
        None
    }
}

/// The number that the digits spell, if the text is made of one or more
/// decimal digits and nothing else.
pub open spec fn number(text: Seq<char>) -> Option<nat>
    decreases text.len(),
{
    if text.len() == 0 {
        None
    } else if text.len() == 1 {
        digit_of(text[0])
    } else {
        match (number(text.drop_last()), digit_of(text.last())) {
            (Some(v), Some(d)) => Some(v * 10 + d),
            _ => None,
        }
    }
}

/// The number that the text spells in decimal digits, with or without a plus
/// sign in front, if it is no larger than `max`.
pub open spec fn unsigned(text: Seq<char>, max: nat) -> Option<nat> {
    let digits = if text.len() > 0 && text[0] == '+' {
        text.subrange(1, text.len() as int)
    } else {
        text
    };
    match number(digits) {
        Some(v) => if v <= max {
            Some(v)
        } else {
            None
        },
        None => None,
    }
}

/// A number does not get smaller by a further digit.
proof fn lemma_number_grows(text: Seq<char>, k: int)
    requires
        1 <= k <= text.len(),
        number(text) is Some,
    ensures
        number(text.subrange(0, k)) matches Some(v) && v <= number(text)->Some_0,
    decreases text.len(),
{
    if k == text.len() {
        assert(text.subrange(0, k) =~= text);
    } else {
        assert(text.drop_last().subrange(0, k) =~= text.subrange(0, k));
        lemma_number_grows(text.drop_last(), k);
    }
}

/// Reads a number of at most `max` from the characters of `text` from place
/// `from` on.
fn parse_unsigned(text: &str, from: usize, max: usize) -> (r: Option<usize>)
    requires
        from <= text@.len(),
    ensures
        r matches Some(v) ==> unsigned(text@.subrange(from as int, text@.len() as int), max as nat)
            == Some(v as nat),
        r is None ==> unsigned(text@.subrange(from as int, text@.len() as int), max as nat) is None,
{
    let n = text.unicode_len();
    let ghost whole = text@.subrange(from as int, n as int);
    let mut i = from;
    if i < n && text.get_char(i) == '+' {
        i = i + 1;
    }
    let first = i;
    let ghost digits = text@.subrange(first as int, n as int);
    proof {
        if first > from {
            assert(whole[0] == '+');
            assert(whole.subrange(1, whole.len() as int) =~= digits);
        } else {
            assert(whole =~= digits);
        }
        assert(unsigned(whole, max as nat) == (match number(digits) {
            Some(v) => if v <= max {
                Some(v)
            } else {
                None
            },
            None => None,
        }));
    }
    if first >= n {
        return None;
    }
    let mut value: usize = 0;
    while i < n
        invariant
            first <= i <= n,
            first < n,
            n == text@.len(),
            digits == text@.subrange(first as int, n as int),
            i > first ==> number(digits.subrange(0, i - first)) == Some(value as nat),
            i == first ==> value == 0,
            value <= max,
            unsigned(text@.subrange(from as int, text@.len() as int), max as nat) == (match number(
                digits,
            ) {
                Some(v) => if v <= max {
                    Some(v)
                } else {
                    None
                },
                None => None,
            }),
        decreases n - i,
    {
        let c = text.get_char(i);
        let ghost prefix = digits.subrange(0, i + 1 - first);
        proof {
            assert(prefix.last() == c);
            assert(prefix.drop_last() =~= digits.subrange(0, i - first));
        }
        if !('0' <= c && c <= '9') {
            proof {
                assert(digit_of(c) is None);
                assert(number(prefix) is None);
                if number(digits) is Some {
                    lemma_number_grows(digits, i + 1 - first);
                }
            }
            return None;
        }
        let d = (c as u32 - '0' as u32) as usize;
        proof {
            assert(digit_of(c) == Some(d as nat));
            assert(d <= 9);
        }
        if d > max || value > (max - d) / 10 {
            proof {
                assert(value * 10 + d > max) by (nonlinear_arith)
                    requires
                        d > max || value > (max - d) / 10,
                        0 <= d <= 9,
                        max >= 0,
                        value >= 0,
                ;
                assert(number(prefix) matches Some(v) && v > max);
                if number(digits) is Some {
                    lemma_number_grows(digits, i + 1 - first);
                }
            }
            return None;
        }
        proof {
            assert(value * 10 + d <= max) by (nonlinear_arith)
                requires
                    value <= (max - d) / 10,
                    d <= max,
                    value >= 0,
            ;
        }
        value = value * 10 + d;
        i = i + 1;
    }
    proof {
        assert(digits.subrange(0, n - first) =~= digits);
    }
    Some(value)
}

/// The pile that a token of a command names: `s` the stock, `w` the waste,
/// `c` and a number a column, `f` and a number a foundation.
pub open spec fn pile_of(token: Seq<char>) -> Option<PileId> {
    if token == seq!['s'] {
        Some(PileId::Stock)
    } else if token == seq!['w'] {
        Some(PileId::Waste)
    } else if token.len() > 0 && token[0] == 'c' {
        match unsigned(token.subrange(1, token.len() as int), 255) {
            Some(n) => Some(PileId::Column(n as u8)),
            None => None,
        }
    } else if token.len() > 0 && token[0] == 'f' {
        match unsigned(token.subrange(1, token.len() as int), 255) {
            Some(n) => Some(PileId::Foundation(n as u8)),
            None => None,
        }
    } else {
        None
    }
}

/// Reads the name of a pile.
pub fn parse_pile(token: &str) -> (r: Option<PileId>)
    ensures
        r == pile_of(token@),
{
    let n = token.unicode_len();
    if n == 0 {
        return None;
    }
    let first = token.get_char(0);
    if n == 1 && first == 's' {
        proof {
            assert(token@ =~= seq!['s']);
        }
        return Some(PileId::Stock);
    }
    if n == 1 && first == 'w' {
        proof {
            assert(token@ =~= seq!['w']);
        }
        return Some(PileId::Waste);
    }
    if first == 'c' {
        return match parse_unsigned(token, 1, 255) {
            Some(v) => Some(PileId::Column(v as u8)),
            None => None,
        };
    }
    if first == 'f' {
        return match parse_unsigned(token, 1, 255) {
            Some(v) => Some(PileId::Foundation(v as u8)),
            None => None,
        };
    }
    None
}

/// The commands that the log explains.
#[derive(Debug, Clone, Copy, PartialEq, Eq, Structural)]
pub enum Command {
    Help,
    Draw,
    Recycle,
    Move,
}

/// How a draw is asked for.
pub open spec fn draw_usage() -> Seq<char> {
    "draw - draws card from stock to waste"@
}

/// How a recycle is asked for.
pub open spec fn recycle_usage() -> Seq<char> {
    "recycle - recycles cards from waste into stock"@
}

/// How a move is asked for.
pub open spec fn move_usage() -> Seq<char> {
    "move <n> <from> <to> - moves <n> cards from <from> to <to>\ns-stock,w-waste,fx-foundation(x=0..=3),cx-column(x=0..=6)"@
}

impl Command {
    /// How the command is used, in words. The help lists the other three.
    pub open spec fn text(self) -> Seq<char> {
        match self {
            Command::Help => "Commands\n"@ + draw_usage() + "\n"@ + recycle_usage() + "\n"@
                + move_usage(),
            Command::Draw => draw_usage(),
            Command::Recycle => recycle_usage(),
            Command::Move => move_usage(),
        }
    }

    /// How the command is used, in words.
    pub fn instructions(&self) -> (text: String)
        ensures
            text@ == self.text(),
    {
        match self {
            Self::Help => {
                let mut text = String::from_str("Commands\n");
                text.append("draw - draws card from stock to waste");
                text.append("\n");
                text.append("recycle - recycles cards from waste into stock");
                text.append("\n");
                text.append(
                    "move <n> <from> <to> - moves <n> cards from <from> to <to>\ns-stock,w-waste,fx-foundation(x=0..=3),cx-column(x=0..=6)",
                );
                text
            },
            Self::Draw => String::from_str("draw - draws card from stock to waste"),
            Self::Recycle => String::from_str("recycle - recycles cards from waste into stock"),
            Self::Move => String::from_str(
                "move <n> <from> <to> - moves <n> cards from <from> to <to>\ns-stock,w-waste,fx-foundation(x=0..=3),cx-column(x=0..=6)",
            ),
        }
    }
}

/// What a line typed into the log asks for.
#[derive(Debug, PartialEq, Eq, Structural)]
pub enum Request {
    /// The line holds no word.
    Nothing,
    /// The help text.
    Help,
    /// An action on the game.
    Act(Action),
    /// A move with too few or too many words.
    MoveUsage,
    /// A move whose number of cards cannot be read.
    InvalidNumber,
    /// A move whose source cannot be read.
    InvalidFrom,
    /// A move whose target cannot be read.
    InvalidTo,
    /// A line whose first word is no command.
    Unknown,
}

/// What the words of a line ask for.
pub open spec fn request_of(parts: Seq<Seq<char>>) -> Request {
    if parts.len() == 0 {
        Request::Nothing
    } else if parts[0] == "h"@ || parts[0] == "help"@ {
        Request::Help
    } else if parts[0] == "draw"@ {
        Request::Act(Action::Draw)
    } else if parts[0] == "recycle"@ {
        Request::Act(Action::Recycle)
    } else if parts[0] == "move"@ {
        if parts.len() != 4 {
            Request::MoveUsage
        } else {
            match unsigned(parts[1], usize::MAX as nat) {
                None => Request::InvalidNumber,
                Some(n) => match pile_of(parts[2]) {
                    None => Request::InvalidFrom,
                    Some(from) => match pile_of(parts[3]) {
                        None => Request::InvalidTo,
                        Some(to) => Request::Act(Action::Move { num_cards: n as usize, from, to }),
                    },
                },
            }
        }
    } else {
        Request::Unknown
    }
}

/// Whether two texts are the same.
fn same_text(a: &str, b: &str) -> (same: bool)
    ensures
        same == (a@ == b@),
{
    let n = a.unicode_len();
    if n != b.unicode_len() {
        return false;
    }
    let mut i: usize = 0;
    while i < n
        invariant
            i <= n,
            n == a@.len(),
            n == b@.len(),
            forall|j: int| 0 <= j < i ==> a@[j] == b@[j],
        decreases n - i,
    {
        if a.get_char(i) != b.get_char(i) {
            return false;
        }
        i = i + 1;
    }
    proof {
        assert(a@ =~= b@);
    }
    true
}

/// The message for a request that is no action.
pub open spec fn reply(request: Request) -> Seq<char> {
    match request {
        Request::Help => Command::Help.text(),
        Request::MoveUsage => Command::Move.text(),
        Request::InvalidNumber => "Invalid number of cards"@,
        Request::InvalidFrom => "Invalid 'from' pile"@,
        Request::InvalidTo => "Invalid 'to' pile"@,
        Request::Unknown => "Unknown command"@,
        _ => Seq::empty(),
    }
}

/// Splits a line into its words.
pub fn split_words(line: &str) -> (parts: Vec<&str>)
    ensures
        parts@.len() == words(line@).len(),
        forall|i: int| 0 <= i < parts@.len() ==> (#[trigger] parts@[i])@ == words(line@)[i],
{
    let n = line.unicode_len();
    let mut parts: Vec<&str> = Vec::new();
    let mut start: usize = 0;
    let mut i: usize = 0;
    while i < n
        invariant
            start <= i <= n,
            n == line@.len(),
            start == scan(line@, i as int).1,
            parts@.len() == scan(line@, i as int).0.len(),
            forall|j: int| 0 <= j < parts@.len() ==> (#[trigger] parts@[j])@ == scan(line@, i as int).0[j],
        decreases n - i,
    {
        let c = line.get_char(i);
        if is_whitespace(c) {
            if start < i {
                parts.push(line.substring_char(start, i));
            }
            start = i + 1;
        }
        i = i + 1;
    }
    if start < n {
        parts.push(line.substring_char(start, n));
    }
    parts
}

/// Reads what a line asks for.
pub fn parse_command(line: &str) -> (request: Request)
    ensures
        request == request_of(words(line@)),
{
    let parts = split_words(line);
    if parts.len() == 0 {
        return Request::Nothing;
    }
    let head = parts[0];
    if same_text(head, "h") || same_text(head, "help") {
        Request::Help
    } else if same_text(head, "draw") {
        Request::Act(Action::Draw)
    } else if same_text(head, "recycle") {
        Request::Act(Action::Recycle)
    } else if same_text(head, "move") {
        if parts.len() != 4 {
            return Request::MoveUsage;
        }
        let n = match parse_unsigned(parts[1], 0, usize::MAX) {
            Some(n) => n,
            None => {
                proof {
                    assert(parts@[1]@.subrange(0, parts@[1]@.len() as int) =~= parts@[1]@);
                }
                return Request::InvalidNumber;
            },
        };
        proof {
            assert(parts@[1]@.subrange(0, parts@[1]@.len() as int) =~= parts@[1]@);
        }
        let from = match parse_pile(parts[2]) {
            Some(pile) => pile,
            None => {
                return Request::InvalidFrom;
            },
        };
        let to = match parse_pile(parts[3]) {
            Some(pile) => pile,
            None => {
                return Request::InvalidTo;
            },
        };
        Request::Act(Action::Move { num_cards: n, from, to })
    } else {
        Request::Unknown
    }
}

/// A log of messages with a line of input.
#[derive(Default)]
pub struct GuiLogger {
    pub input: String,
    pub log: Vec<String>,
}

impl GuiLogger {
    /// Appends a message.
    pub fn add<E: Into<String>>(&mut self, entry: E)
        ensures
            final(self).log@.len() == old(self).log@.len() + 1,
            final(self).log@.drop_last() == old(self).log@,
            call_ensures(<E as Into<String>>::into, (entry,), final(self).log@.last()),
            final(self).input == old(self).input,
    {
        self.log.push(entry.into());
        proof {
            assert(self.log@.drop_last() =~= old(self).log@);
        }
    }

    /// Removes all messages.
    pub fn clear(&mut self)
        ensures
            final(self).log@ == Seq::<String>::empty(),
            final(self).input == old(self).input,
    {
        self.log.clear();
    }

    /// Carries out the command in `cmd` on the game and logs what came of
    /// it: the report of the action, the error in words, or a hint on how to
    /// write the command. A line without a word does nothing.
    pub fn execute_command(&mut self, cmd: String, game: &mut Game)
        ensures
            final(self).input == old(self).input,
            match request_of(words(cmd@)) {
                Request::Nothing => final(self).log@ == old(self).log@ && final(game)@ == old(game)@,
                Request::Act(action) => {
                    &&& final(self).log@.len() == old(self).log@.len() + 1
                    &&& final(self).log@.drop_last() == old(self).log@
                    &&& match old(game)@.handle(action) {
                        Ok(next) => final(game)@ == next && final(self).log@.last()@
                            == action.text(),
                        Err(e) => final(game)@ == old(game)@ && final(self).log@.last()@
                            == e.text(),
                    }
                },
                other => {
                    &&& final(game)@ == old(game)@
                    &&& final(self).log@.len() == old(self).log@.len() + 1
                    &&& final(self).log@.drop_last() == old(self).log@
                    &&& final(self).log@.last()@ == reply(other)
                },
            },
    {
        let request = parse_command(cmd.as_str());
        let entry = match request {
            Request::Nothing => {
                return ;
            },
            Request::Help => Command::Help.instructions(),
            Request::Act(action) => match game.handle_action(action) {
                Ok(text) => text,
                Err(e) => e.to_string(),
            },
            Request::MoveUsage => Command::Move.instructions(),
            Request::InvalidNumber => String::from_str("Invalid number of cards"),
            Request::InvalidFrom => String::from_str("Invalid 'from' pile"),
            Request::InvalidTo => String::from_str("Invalid 'to' pile"),
            Request::Unknown => String::from_str("Unknown command"),
        };
        self.log.push(entry);
        proof {
            assert(self.log@.drop_last() =~= old(self).log@);
        }
    }
}

} // verus!
