//! Random chord sheets for guitar practice, and the player that walks them.

use crate::decimal::{decimal_text, push_decimal};
use crate::text::{chars_of, string_of};
use rand::Rng;
use vstd::prelude::*;
use vstd::string::*;

verus! {

/// The twelve roots, from A flat up to G.
#[derive(Debug, Clone, Copy, PartialEq, Eq)]
pub enum RootNote {
    Ab,
    A,
    Bb,
    B,
    C,
    Db,
    D,
    Eb,
    E,
    F,
    Gb,
    G,
}

/// A chord on a root.
#[derive(Debug, Clone, Copy, PartialEq, Eq)]
pub enum Chord {
    Major(RootNote),
    Minor(RootNote),
    Seven(RootNote),
}

/// A chord rooted on the sixth or on the fifth string.
#[derive(Debug, Clone, Copy, PartialEq, Eq)]
pub enum RootString {
    Six(Chord),
    Five(Chord),
}

/// A run of chords.
pub struct Line(pub Vec<RootString>);

/// Lines to practise.
pub struct Sheet(pub Vec<Line>);

/// What to do after a command.
#[derive(Debug, Clone, Copy, PartialEq, Eq)]
pub enum SheetPlayerOption {
    Play,
    Exit,
}

/// A sheet, the line that is up, and the tempo.
pub struct SheetPlayer {
    sheet: Sheet,
    index: usize,
    bpm: u32,
}

/// What the user asks of the player.
pub enum PlayerCommand {
    Repeat,
    Next,
    Previous,
    SelectIndex,
    ChangeBpm,
    GenerateLine,
    Exit,
}

/// The octave in which every root is played.
pub const OCTAVE: u64 = 2;

/// The tempo that a new player starts with.
pub const STARTING_BPM: u32 = 300;

/// Draws a number from 0 to `max` with `rand::Rng::gen_range` on the thread's
/// generator. Which number comes is left open.
#[verifier::external_body]
fn random_up_to(max: u8) -> (n: u8)
    ensures
        n <= max,
{
    rand::thread_rng().gen_range(0..=max)
}

impl RootNote {
    /// The root that a drawn number stands for: the roots in order from 0,
    /// and G for every number from 11 on.
    pub open spec fn at(index: int) -> RootNote {
        if index == 0 {
            RootNote::Ab
        } else if index == 1 {
            RootNote::A
        } else if index == 2 {
            RootNote::Bb
        } else if index == 3 {
            RootNote::B
        } else if index == 4 {
            RootNote::C
        } else if index == 5 {
            RootNote::Db
        } else if index == 6 {
            RootNote::D
        } else if index == 7 {
            RootNote::Eb
        } else if index == 8 {
            RootNote::E
        } else if index == 9 {
            RootNote::F
        } else if index == 10 {
            RootNote::Gb
        } else {
            RootNote::G
        }
    }

    /// The root's name in letters.
    pub open spec fn name(self) -> Seq<char> {
        match self {
            RootNote::Ab => "Ab"@,
            RootNote::A => "A"@,
            RootNote::Bb => "Bb"@,
            RootNote::B => "B"@,
            RootNote::C => "C"@,
            RootNote::Db => "Db"@,
            RootNote::D => "D"@,
            RootNote::Eb => "Eb"@,
            RootNote::E => "E"@,
            RootNote::F => "F"@,
            RootNote::Gb => "Gb"@,
            RootNote::G => "G"@,
        }
    }

    /// The root that a drawn number stands for.
    pub fn from_index(index: u8) -> (note: RootNote)
        ensures
            note == RootNote::at(index as int),
    {
        match index {
            0 => RootNote::Ab,
            1 => RootNote::A,
            2 => RootNote::Bb,
            3 => RootNote::B,
            4 => RootNote::C,
            5 => RootNote::Db,
            6 => RootNote::D,
            7 => RootNote::Eb,
            8 => RootNote::E,
            9 => RootNote::F,
            10 => RootNote::Gb,
            _ => RootNote::G,
        }
    }

    /// The root's name in letters.
    pub fn letters(&self) -> (name: &'static str)
        ensures
            name@ == self.name(),
    {
        match self {
            RootNote::Ab => "Ab",
            RootNote::A => "A",
            RootNote::Bb => "Bb",
            RootNote::B => "B",
            RootNote::C => "C",
            RootNote::Db => "Db",
            RootNote::D => "D",
            RootNote::Eb => "Eb",
            RootNote::E => "E",
            RootNote::F => "F",
            RootNote::Gb => "Gb",
            RootNote::G => "G",
        }
    }

    /// A root drawn at random.
    pub fn random() -> RootNote {
        RootNote::from_index(random_up_to(11))
    }
}

impl Chord {
    /// The chord that a drawn number makes of a root: major for 0, minor for
    /// 1, seven for every other number.
    pub open spec fn at(kind: int, root: RootNote) -> Chord {
        if kind == 0 {
            Chord::Major(root)
        } else if kind == 1 {
            Chord::Minor(root)
        } else {
            Chord::Seven(root)
        }
    }

    /// The root that the chord stands on.
    pub open spec fn root_note(self) -> RootNote {
        match self {
            Chord::Major(root) => root,
            Chord::Minor(root) => root,
            Chord::Seven(root) => root,
        }
    }

    /// The chord that a drawn number makes of a root.
    pub fn from_index(kind: u8, root: RootNote) -> (chord: Chord)
        ensures
            chord == Chord::at(kind as int, root),
    {
        match kind {
            0 => Chord::Major(root),
            1 => Chord::Minor(root),
            _ => Chord::Seven(root),
        }
    }

    /// The root that the chord stands on.
    pub fn root(&self) -> (root: RootNote)
        ensures
            root == self.root_note(),
    {
        match self {
            Chord::Major(root) => *root,
            Chord::Minor(root) => *root,
            Chord::Seven(root) => *root,
        }
    }

    /// A chord drawn at random.
    pub fn random() -> Chord {
        let kind = random_up_to(2);
        Chord::from_index(kind, RootNote::random())
    }
}

impl RootString {
    /// The string that a drawn number puts a chord on: the sixth for 0, the
    /// fifth for every other number.
    pub open spec fn at(string: int, chord: Chord) -> RootString {
        if string == 0 {
            RootString::Six(chord)
        } else {
            RootString::Five(chord)
        }
    }

    /// The chord that is played.
    pub open spec fn chord_of(self) -> Chord {
        match self {
            RootString::Six(chord) => chord,
            RootString::Five(chord) => chord,
        }
    }

    /// The pitch of the root in scientific notation: the root's letters, then
    /// the octave.
    pub open spec fn pitch_text(self) -> Seq<char> {
        self.chord_of().root_note().name() + decimal_text(OCTAVE as nat)
    }

    /// The string that a drawn number puts a chord on.
    pub fn from_index(string: u8, chord: Chord) -> (rooted: RootString)
        ensures
            rooted == RootString::at(string as int, chord),
    {
        match string {
            0 => RootString::Six(chord),
            _ => RootString::Five(chord),
        }
    }

    /// The chord that is played.
    pub fn chord(&self) -> (chord: Chord)
        ensures
            chord == self.chord_of(),
    {
        match self {
            RootString::Six(chord) => *chord,
            RootString::Five(chord) => *chord,
        }
    }

    /// The pitch of the root in scientific notation.
    pub fn pitch(&self) -> (text: String)
        ensures
            text@ == self.pitch_text(),
    {
        let mut out = chars_of(self.chord().root().letters());
        push_decimal(&mut out, OCTAVE);
        string_of(&out)
    }

    /// A chord on a string, drawn at random.
    pub fn random() -> RootString {
        let string = random_up_to(1);
        RootString::from_index(string, Chord::random())
    }
}

impl Line {
    /// A line of `length` chords drawn at random.
    pub fn random(length: usize) -> (line: Line)
        ensures
            line.0@.len() == length,
    {
        let mut chords: Vec<RootString> = Vec::new();
        let mut i: usize = 0;
        while i < length
            invariant
                i <= length,
                chords@.len() == i,
            decreases length - i,
        {
            chords.push(RootString::random());
            i = i + 1;
        }
        Line(chords)
    }

    /// The pitches of the line's roots, in order.
    pub fn pitches(&self) -> (pitches: Vec<String>)
        ensures
            pitches@.len() == self.0@.len(),
            forall|i: int|
                0 <= i < pitches@.len() ==> (#[trigger] pitches@[i])@ == self.0@[i].pitch_text(),
    {
        let mut pitches: Vec<String> = Vec::new();
        let mut i: usize = 0;
        while i < self.0.len()
            invariant
                i <= self.0@.len(),
                pitches@.len() == i,
                forall|k: int|
                    0 <= k < i ==> (#[trigger] pitches@[k])@ == self.0@[k].pitch_text(),
            decreases self.0@.len() - i,
        {
            pitches.push(self.0[i].pitch());
            i = i + 1;
        }
        pitches
    }
}

impl Sheet {
    /// Whether the sheet has `total` lines of `length` chords each.
    pub open spec fn has_shape(&self, total: nat, length: nat) -> bool {
        &&& self.0@.len() == total
        &&& forall|i: int| 0 <= i < total ==> (#[trigger] self.0@[i]).0@.len() == length
    }
}

impl From<(usize, usize)> for Sheet {
    /// A sheet of `total` lines of `length` chords each, drawn at random.
    fn from(shape: (usize, usize)) -> (sheet: Sheet)
        ensures
            sheet.has_shape(shape.0 as nat, shape.1 as nat),
    {
        let (total, length) = shape;
        let mut lines: Vec<Line> = Vec::new();
        let mut i: usize = 0;
        while i < total
            invariant
                i <= total,
                lines@.len() == i,
                forall|k: int| 0 <= k < i ==> (#[trigger] lines@[k]).0@.len() == length,
            decreases total - i,
        {
            lines.push(Line::random(length));
            i = i + 1;
        }
        Sheet(lines)
    }
}

impl vstd::std_specs::convert::FromSpecImpl<(usize, usize)> for Sheet {
    /// The chords are drawn at random, so the sheet is no function of its shape.
    open spec fn obeys_from_spec() -> bool {
        false
    }

    open spec fn from_spec(shape: (usize, usize)) -> Sheet {
        arbitrary()
    }
}

impl From<Sheet> for SheetPlayer {
    /// A player on the sheet's first line, at the starting tempo.
    fn from(sheet: Sheet) -> (player: SheetPlayer)
        ensures
            player.lines() == sheet.0@,
            player.position() == 0,
            player.tempo() == STARTING_BPM,
    {
        SheetPlayer { sheet, index: 0, bpm: STARTING_BPM }
    }
}

impl vstd::std_specs::convert::FromSpecImpl<Sheet> for SheetPlayer {
    open spec fn obeys_from_spec() -> bool {
        true
    }

    closed spec fn from_spec(sheet: Sheet) -> SheetPlayer {
        SheetPlayer { sheet, index: 0, bpm: STARTING_BPM }
    }
}

/// What a rejected position has to say.
pub open spec fn invalid_index_text(index: nat) -> Seq<char> {
    "Invalid index: "@ + decimal_text(index)
}

/// What an unknown command has to say.
pub open spec fn invalid_input_text(input: Seq<char>) -> Seq<char> {
    "Invalid input!: "@ + input
}

/// The command that a letter stands for, if any.
pub open spec fn command_for(input: Seq<char>) -> Option<PlayerCommand> {
    if input == seq!['r'] {
        Some(PlayerCommand::Repeat)
    } else if input == seq!['n'] {
        Some(PlayerCommand::Next)
    } else if input == seq!['p'] {
        Some(PlayerCommand::Previous)
    } else if input == seq!['i'] {
        Some(PlayerCommand::SelectIndex)
    } else if input == seq!['s'] {
        Some(PlayerCommand::ChangeBpm)
    } else if input == seq!['g'] {
        Some(PlayerCommand::GenerateLine)
    } else if input == seq!['e'] {
        Some(PlayerCommand::Exit)
    } else {
        None
    }
}

impl SheetPlayer {
    /// The lines of the sheet.
    pub closed spec fn lines(&self) -> Seq<Line> {
        self.sheet.0@
    }

    /// The position of the line that is up, counted from 0.
    pub closed spec fn position(&self) -> nat {
        self.index as nat
    }

    /// The tempo in beats per minute.
    pub closed spec fn tempo(&self) -> nat {
        self.bpm as nat
    }

    /// The sheet that is played.
    pub fn sheet(&self) -> (sheet: &Sheet)
        ensures
            sheet.0@ == self.lines(),
    {
        &self.sheet
    }

    /// The position of the line that is up, counted from 0.
    pub fn index(&self) -> (index: usize)
        ensures
            index == self.position(),
    {
        self.index
    }

    /// The tempo in beats per minute.
    pub fn bpm(&self) -> (bpm: u32)
        ensures
            bpm == self.tempo(),
    {
        self.bpm
    }

    /// Reads a command from a line of input without the white space around it.
    pub fn command(input: &str) -> (r: Result<PlayerCommand, String>)
        ensures
            match command_for(input@) {
                Some(command) => r == Ok::<PlayerCommand, String>(command),
                None => r matches Err(text) && text@ == invalid_input_text(input@),
            },
    {
        let chars = chars_of(input);
        if chars.len() == 1 {
            let c = chars[0];
            assert(chars@ == seq![c]);
            if c == 'r' {
                return Ok(PlayerCommand::Repeat);
            } else if c == 'n' {
                return Ok(PlayerCommand::Next);
            } else if c == 'p' {
                return Ok(PlayerCommand::Previous);
            } else if c == 'i' {
                return Ok(PlayerCommand::SelectIndex);
            } else if c == 's' {
                return Ok(PlayerCommand::ChangeBpm);
            } else if c == 'g' {
                return Ok(PlayerCommand::GenerateLine);
            } else if c == 'e' {
                return Ok(PlayerCommand::Exit);
            }
            assert(chars@[0] == c);
        }
        let mut text = String::from_str("Invalid input!: ");
        text.append(input);
        Err(text)
    }

    /// Moves to the next line, and from the last line to the first.
    pub fn next(&mut self) -> (option: SheetPlayerOption)
        requires
            old(self).lines().len() > 0,
        ensures
            option == SheetPlayerOption::Play,
            final(self).lines() == old(self).lines(),
            final(self).tempo() == old(self).tempo(),
            final(self).position() == if old(self).position() < old(self).lines().len() - 1 {
                old(self).position() + 1
            } else {
                0
            },
    {
        if self.index < self.sheet.0.len() - 1 {
            self.index += 1;
        } else {
            self.index = 0;
        }
        SheetPlayerOption::Play
    }

    /// Moves to the line before, and from the first line to the last.
    pub fn previous(&mut self) -> (option: SheetPlayerOption)
        requires
            old(self).lines().len() > 0,
        ensures
            option == SheetPlayerOption::Play,
            final(self).lines() == old(self).lines(),
            final(self).tempo() == old(self).tempo(),
            final(self).position() == if old(self).position() > 0 {
                old(self).position() - 1
            } else {
                old(self).lines().len() - 1
            },
    {
        if self.index > 0 {
            self.index -= 1;
        } else {
            self.index = self.sheet.0.len() - 1;
        }
        SheetPlayerOption::Play
    }

    /// Moves to the line at `index`, counted from 1, where the sheet has one;
    /// refuses every other position and then changes nothing.
    pub fn select(&mut self, index: usize) -> (r: Result<SheetPlayerOption, String>)
        ensures
            final(self).lines() == old(self).lines(),
            final(self).tempo() == old(self).tempo(),
            0 < index <= old(self).lines().len() ==> r == Ok::<SheetPlayerOption, String>(
                SheetPlayerOption::Play,
            ) && final(self).position() == index - 1,
            !(0 < index <= old(self).lines().len()) ==> final(self).position() == old(
                self,
            ).position() && (r matches Err(text) && text@ == invalid_index_text(index as nat)),
    {
        if index > 0 && index <= self.sheet.0.len() {
            self.index = index - 1;
            Ok(SheetPlayerOption::Play)
        } else {
            let mut digits: Vec<char> = Vec::new();
            push_decimal(&mut digits, index as u64);
            let mut text = String::from_str("Invalid index: ");
            text.append(string_of(&digits).as_str());
            Err(text)
        }
    }

    /// Sets the tempo.
    pub fn change_bpm(&mut self, bpm: u32) -> (option: SheetPlayerOption)
        ensures
            option == SheetPlayerOption::Play,
            final(self).lines() == old(self).lines(),
            final(self).position() == old(self).position(),
            final(self).tempo() == bpm,
    {
        self.bpm = bpm;
        SheetPlayerOption::Play
    }

    /// Puts a line at the end of the sheet and moves to it.
    pub fn add_line(&mut self, line: Line) -> (option: SheetPlayerOption)
        ensures
            option == SheetPlayerOption::Play,
            final(self).lines() == old(self).lines().push(line),
            final(self).position() == old(self).lines().len(),
            final(self).tempo() == old(self).tempo(),
    {
        self.sheet.0.push(line);
        self.index = self.sheet.0.len() - 1;
        SheetPlayerOption::Play
    }

    /// Draws a line of `length` chords, puts it at the end of the sheet and
    /// moves to it.
    pub fn generate_line(&mut self, length: usize) -> (option: SheetPlayerOption)
        ensures
            option == SheetPlayerOption::Play,
            final(self).lines().len() == old(self).lines().len() + 1,
            final(self).lines().drop_last() == old(self).lines(),
            final(self).lines().last().0@.len() == length,
            final(self).position() == old(self).lines().len(),
            final(self).tempo() == old(self).tempo(),
    {
        let line = Line::random(length);
        let option = self.add_line(line);
        assert(final(self).lines().drop_last() == old(self).lines());
        option
    }
}

} // verus!
