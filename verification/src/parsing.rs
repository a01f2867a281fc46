//! The chat lines that change the lobby, and the reader that recognises them.
//!
//! Four sentences of the chat matter. Each is looked for anywhere in the
//! line, and where a sentence stands more than once its leftmost place
//! counts. The sentences are tried in a fixed order and the first that is
//! found decides the event.

use vstd::prelude::*;
use crate::text::{
    chars_of, find_from, has_at, index_from, lemma_index_from_bounds, occurs_at, pieces,
    position_of, split_text, string_of, texts,
};

verus! {

/// What one line of the log says about the lobby.
#[derive(Debug)]
pub enum ParsedLine {
    JoinedLobby { username: String },
    LeftLobby { username: String },
    LobbyList { usernames: Vec<String> },
    GameStart,
    Nothing,
}

/// The mathematical value of a [`ParsedLine`].
pub enum LineEvent {
    JoinedLobby { username: Seq<char> },
    LeftLobby { username: Seq<char> },
    LobbyList { usernames: Seq<Seq<char>> },
    GameStart,
    Nothing,
}

impl View for ParsedLine {
    type V = LineEvent;

    open spec fn view(&self) -> LineEvent {
        match self {
            ParsedLine::JoinedLobby { username } => LineEvent::JoinedLobby { username: username@ },
            ParsedLine::LeftLobby { username } => LineEvent::LeftLobby { username: username@ },
            ParsedLine::LobbyList { usernames } => LineEvent::LobbyList {
                usernames: texts(usernames@),
            },
            ParsedLine::GameStart => LineEvent::GameStart,
            ParsedLine::Nothing => LineEvent::Nothing,
        }
    }
}

/// The four sentences, in the order in which they are tried.
#[derive(Clone, Copy, Debug, PartialEq, Eq, Structural)]
pub enum Sentence {
    Joined,
    Left,
    List,
    Start,
}

/// The mark that opens every chat message.
pub open spec fn chat_tag() -> Seq<char> {
    "[CHAT] "@
}

/// What follows the name of a player who came in.
pub open spec fn joined_tail() -> Seq<char> {
    " has joined"@
}

/// What follows the name of a player who went away.
pub open spec fn left_tail() -> Seq<char> {
    " has quit"@
}

/// What opens the list of the players who are in the lobby.
pub open spec fn list_head() -> Seq<char> {
    "[CHAT] ONLINE: "@
}

/// What stands between two names of that list.
pub open spec fn list_comma() -> Seq<char> {
    ", "@
}

/// The last tick of the countdown.
pub open spec fn start_text() -> Seq<char> {
    "[CHAT] The game starts in 1 seconds!"@
}

/// The name in a sentence about one player that begins at `i`: what stands
/// between the chat mark and the next blank.
pub open spec fn actor_name(line: Seq<char>, i: int) -> Seq<char> {
    let from = i + chat_tag().len();
    line.subrange(from, index_from(line, ' ', from))
}

/// A sentence about one player begins at `i`: the chat mark, a name of at
/// least one character and without a blank, and `tail`.
pub open spec fn actor_at(line: Seq<char>, i: int, tail: Seq<char>) -> bool {
    let from = i + chat_tag().len();
    let end = index_from(line, ' ', from);
    &&& occurs_at(line, i, chat_tag())
    &&& from < end
    &&& occurs_at(line, end, tail)
}

/// The names, still in one piece, of a list that begins at `i`: what follows
/// the head of the list up to the end of the line.
pub open spec fn list_body(line: Seq<char>, i: int) -> Seq<char> {
    let from = i + list_head().len();
    line.subrange(from, index_from(line, '\n', from))
}

/// A list of players begins at `i`: its head and at least one more character
/// on the same line.
pub open spec fn list_at(line: Seq<char>, i: int) -> bool {
    let from = i + list_head().len();
    &&& occurs_at(line, i, list_head())
    &&& from < line.len()
    &&& line[from] != '\n'
}

/// The sentence `which` begins at position `i` of `line`.
pub open spec fn sentence_at(line: Seq<char>, which: Sentence, i: int) -> bool {
    match which {
        Sentence::Joined => actor_at(line, i, joined_tail()),
        Sentence::Left => actor_at(line, i, left_tail()),
        Sentence::List => list_at(line, i),
        Sentence::Start => occurs_at(line, i, start_text()),
    }
}

/// The leftmost position at or after `from` where the sentence begins.
pub open spec fn first_place(line: Seq<char>, which: Sentence, from: int) -> Option<int>
    decreases line.len() + 1 - from,
{
    if from < 0 || from > line.len() {
        None
    } else if sentence_at(line, which, from) {
        Some(from)
    } else {
        first_place(line, which, from + 1)
    }
}

/// The line holds the sentence somewhere.
pub open spec fn holds(line: Seq<char>, which: Sentence) -> bool {
    first_place(line, which, 0) is Some
}

/// The event that a line stands for.
pub open spec fn event_of(line: Seq<char>) -> LineEvent {
    if let Some(i) = first_place(line, Sentence::Joined, 0) {
        LineEvent::JoinedLobby { username: actor_name(line, i) }
    } else if let Some(i) = first_place(line, Sentence::Left, 0) {
        LineEvent::LeftLobby { username: actor_name(line, i) }
    } else if let Some(i) = first_place(line, Sentence::List, 0) {
        LineEvent::LobbyList { usernames: pieces(list_body(line, i), list_comma()) }
    } else if holds(line, Sentence::Start) {
        LineEvent::GameStart
    } else {
        LineEvent::Nothing
    }
}

/// The events of a batch of lines, one for each line and in their order.
pub open spec fn events_of(lines: Seq<Seq<char>>) -> Seq<LineEvent> {
    lines.map_values(|line: Seq<char>| event_of(line))
}

/// The views of a list of events.
pub open spec fn event_views(events: Seq<ParsedLine>) -> Seq<LineEvent> {
    events.map_values(|e: ParsedLine| e@)
}

/// The fixed texts of the grammar, ready for matching.
struct Phrases {
    tag: Vec<char>,
    joined: Vec<char>,
    left: Vec<char>,
    list: Vec<char>,
    start: Vec<char>,
}

impl Phrases {
    spec fn wf(&self) -> bool {
        &&& self.tag@ == chat_tag()
        &&& self.joined@ == joined_tail()
        &&& self.left@ == left_tail()
        &&& self.list@ == list_head()
        &&& self.start@ == start_text()
    }

    fn new() -> (p: Phrases)
        ensures
            p.wf(),
    {
        Phrases {
            tag: chars_of("[CHAT] "),
            joined: chars_of(" has joined"),
            left: chars_of(" has quit"),
            list: chars_of("[CHAT] ONLINE: "),
            start: chars_of("[CHAT] The game starts in 1 seconds!"),
        }
    }

    /// Whether a sentence about one player, ending in `tail`, begins at `i`.
    fn actor_begins(&self, line: &Vec<char>, i: usize, tail: &Vec<char>) -> (b: bool)
        requires
            self.wf(),
        ensures
            b == actor_at(line@, i as int, tail@),
    {
        if !has_at(line, i, &self.tag) {
            return false;
        }
        let from: usize = i + self.tag.len();
        let end = position_of(line, ' ', from);
        from < end && has_at(line, end, tail)
    }

    /// Whether the sentence begins at position `i` of `line`.
    fn begins(&self, line: &Vec<char>, which: Sentence, i: usize) -> (b: bool)
        requires
            self.wf(),
        ensures
            b == sentence_at(line@, which, i as int),
    {
        match which {
            Sentence::Joined => self.actor_begins(line, i, &self.joined),
            Sentence::Left => self.actor_begins(line, i, &self.left),
            Sentence::List => {
                if !has_at(line, i, &self.list) {
                    return false;
                }
                let from: usize = i + self.list.len();
                from < line.len() && line[from] != '\n'
            },
            Sentence::Start => has_at(line, i, &self.start),
        }
    }

    /// The leftmost position of `line` where the sentence begins.
    fn find(&self, line: &Vec<char>, which: Sentence) -> (r: Option<usize>)
        requires
            self.wf(),
        ensures
            r matches Some(i) ==> first_place(line@, which, 0) == Some(i as int) && sentence_at(
                line@,
                which,
                i as int,
            ),
            r is None ==> first_place(line@, which, 0) is None,
    {
        let mut i: usize = 0;
        while i < line.len()
            invariant
                i <= line.len(),
                self.wf(),
                first_place(line@, which, 0) == first_place(line@, which, i as int),
            decreases line.len() - i,
        {
            if self.begins(line, which, i) {
                return Some(i);
            }
            i += 1;
        }
        if self.begins(line, which, i) {
            return Some(i);
        }
        assert(first_place(line@, which, i + 1) is None);
        None
    }

    /// The name in the sentence about one player that begins at `i`.
    fn name_at(&self, line: &Vec<char>, i: usize) -> (name: String)
        requires
            self.wf(),
            occurs_at(line@, i as int, chat_tag()),
        ensures
            name@ == actor_name(line@, i as int),
    {
        assert(i + self.tag.len() <= line.len());
        let from: usize = i + self.tag.len();
        string_of(line, from, position_of(line, ' ', from))
    }

    /// The names of the list that begins at `i`.
    fn names_at(&self, line: &Vec<char>, i: usize) -> (names: Vec<String>)
        requires
            self.wf(),
            occurs_at(line@, i as int, list_head()),
        ensures
            texts(names@) == pieces(list_body(line@, i as int), list_comma()),
    {
        assert(i + self.list.len() <= line.len());
        let from: usize = i + self.list.len();
        let body = string_of(line, from, position_of(line, '\n', from));
        split_text(body.as_str(), ", ")
    }

    /// Reads one line that is already cut into characters.
    fn read(&self, line: &Vec<char>) -> (event: ParsedLine)
        requires
            self.wf(),
        ensures
            event@ == event_of(line@),
    {
        if let Some(i) = self.find(line, Sentence::Joined) {
            ParsedLine::JoinedLobby { username: self.name_at(line, i) }
        } else if let Some(i) = self.find(line, Sentence::Left) {
            ParsedLine::LeftLobby { username: self.name_at(line, i) }
        } else if let Some(i) = self.find(line, Sentence::List) {
            ParsedLine::LobbyList { usernames: self.names_at(line, i) }
        } else if self.find(line, Sentence::Start).is_some() {
            ParsedLine::GameStart
        } else {
            ParsedLine::Nothing
        }
    }
}

/// Reads one line of the log.
pub fn parse_line(line: &str) -> (event: ParsedLine)
    ensures
        event@ == event_of(line@),
{
    let phrases = Phrases::new();
    let chars = chars_of(line);
    phrases.read(&chars)
}

/// Reads a batch of lines, in their order.
pub fn parse_lines(lines: &Vec<String>) -> (events: Vec<ParsedLine>)
    ensures
        event_views(events@) == events_of(texts(lines@)),
{
    let phrases = Phrases::new();
    let mut events: Vec<ParsedLine> = Vec::new();
    let mut i: usize = 0;
    while i < lines.len()
        invariant
            i <= lines.len(),
            phrases.wf(),
            event_views(events@) == events_of(texts(lines@.take(i as int))),
        decreases lines.len() - i,
    {
        let chars = chars_of(lines[i].as_str());
        let event = phrases.read(&chars);
        proof {
            assert(lines@.take(i + 1) =~= lines@.take(i as int).push(lines@[i as int]));
            assert(event_views(events@.push(event)) =~= event_views(events@).push(event@));
            assert(events_of(texts(lines@.take(i as int).push(lines@[i as int]))) =~= events_of(
                texts(lines@.take(i as int)),
            ).push(event_of(lines@[i as int]@)));
        }
        events.push(event);
        i += 1;
    }
    assert(lines@.take(i as int) =~= lines@);
    events
}

/// The leftmost place of a sentence is a place where it begins, and it
/// begins nowhere before; where there is no such place, it begins nowhere.
pub proof fn lemma_first_place(line: Seq<char>, which: Sentence, from: int)
    requires
        0 <= from,
    ensures
        match first_place(line, which, from) {
            Some(i) => from <= i <= line.len() && sentence_at(line, which, i) && forall|k: int|
                from <= k < i ==> !sentence_at(line, which, k),
            None => forall|k: int| from <= k <= line.len() ==> !sentence_at(line, which, k),
        },
    decreases line.len() + 1 - from,
{
    if from <= line.len() && !sentence_at(line, which, from) {
        lemma_first_place(line, which, from + 1);
    }
}

/// A sentence about one player says the same as its plain description: the
/// chat mark, then a name that runs to some position `end` and holds no
/// blank, then the tail. The tail has to begin with a blank, as both tails of
/// the grammar do.
pub proof fn lemma_actor_sentence(line: Seq<char>, i: int, tail: Seq<char>)
    requires
        tail.len() > 0,
        tail[0] == ' ',
    ensures
        actor_at(line, i, tail) <==> exists|end: int|
            {
                &&& occurs_at(line, i, chat_tag())
                &&& i + chat_tag().len() < end
                &&& forall|k: int| i + chat_tag().len() <= k < end ==> line[k] != ' '
                &&& #[trigger] occurs_at(line, end, tail)
            },
{
    let from = i + chat_tag().len();
    if occurs_at(line, i, chat_tag()) {
        lemma_index_from_bounds(line, ' ', from);
        let first = index_from(line, ' ', from);
        if actor_at(line, i, tail) {
            assert(occurs_at(line, first, tail));
        }
        assert forall|end: int|
            from < end && (forall|k: int| from <= k < end ==> line[k] != ' ') && occurs_at(
                line,
                end,
                tail,
            ) implies end == first by {
            assert(line.subrange(end, end + tail.len())[0] == tail[0]);
            assert(line[end] == ' ');
            if first < end {
                assert(line[first] == ' ');
            }
        }
    }
}

/// A line stands for no event exactly when none of the four sentences begins
/// anywhere in it.
pub proof fn lemma_nothing_when_no_sentence(line: Seq<char>)
    ensures
        event_of(line) is Nothing <==> forall|which: Sentence, i: int|
            0 <= i <= line.len() ==> !sentence_at(line, which, i),
{
    lemma_first_place(line, Sentence::Joined, 0);
    lemma_first_place(line, Sentence::Left, 0);
    lemma_first_place(line, Sentence::List, 0);
    lemma_first_place(line, Sentence::Start, 0);
    if event_of(line) is Nothing {
        assert forall|which: Sentence, i: int| 0 <= i <= line.len() implies !sentence_at(
            line,
            which,
            i,
        ) by {
            match which {
                Sentence::Joined => {},
                Sentence::Left => {},
                Sentence::List => {},
                Sentence::Start => {},
            }
        }
    }
}

} // verus!
