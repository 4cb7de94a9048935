//! The score hierarchy (movement, bar, channel, marking) and a cursor that
//! addresses a marking by index, without holding a reference into the score.
use crate::fraction::Fraction;
use crate::note::{
    marking_text, parse_marking, MalformedMarking, Note, NoteHead, PitchClass, PitchOctave,
};
use vstd::prelude::*;

verus! {

/// Cursor pointing to a marking: a measure, a channel and a marking index,
/// all in the first movement.
#[derive(Clone, Copy, Default, Debug, PartialEq, Eq, Structural)]
pub struct Cursor {
    /// Measure number at cursor
    pub measure: usize,
    /// Channel number at cursor
    pub chan: usize,
    /// Marking number within measure
    pub marking: usize,
}

/// A dynamic.
#[derive(Clone, Copy, Debug, PartialEq, Eq, Structural)]
pub enum Dynamic {
    PPPPPP,
    PPPPP,
    PPPP,
    PPP,
    PP,
    P,
    MP,
    MF,
    F,
    FF,
    FFF,
    FFFF,
    FFFFF,
    FFFFFF,
    N,
    SF,
    SFZ,
    FP,
    SFP,
}

/// A marking.
#[derive(Debug)]
pub enum Marking {
    /// Change intensity of sound.
    Dynamic(Dynamic),
    /// Grace Note into
    GraceInto(Note),
    /// Grace Note from
    GraceOutOf(Note),
    /// Note
    Note(Note),
    /// Breath
    Breath,
    /// Short grand pause for all instruments
    CaesuraShort,
    /// Long grand pause for all instruments
    CaesuraLong,
    /// Increase intensity
    Cresc,
    /// Decrease intensity
    Dim,
    /// Pizzicato (pluck)
    Pizz,
    /// Arco (bowed)
    Arco,
    /// Standard Mute [con sordino]
    Mute,
    /// Open (no mute) [senza sordino]
    Open,
    /// Repeat
    Repeat,
}

impl Marking {
    /// Reads a marking's text; only notes have a text form.
    pub fn parse(s: &str) -> (r: Result<Marking, MalformedMarking>)
        ensures
            match r {
                Ok(m) => m matches Marking::Note(n) && parse_marking(s@) == Ok::<
                    NoteHead,
                    MalformedMarking,
                >((n.pitch, n.duration)),
                Err(e) => parse_marking(s@) == Err::<NoteHead, MalformedMarking>(e),
            },
    {
        match Note::parse(s) {
            Ok(n) => Ok(Marking::Note(n)),
            Err(e) => Err(e),
        }
    }
}

/// A repeat marking for a measure.
#[derive(Clone, Copy, Debug, PartialEq, Eq, Structural)]
pub enum Repeat {
    /// Repeat sign open ||:
    Open,
    /// Repeat sign close :||
    Close,
    /// Sign (to jump backwards to).
    Segno,
    /// Jump back to beginning.
    DC,
    /// Jump back to sign.
    DS,
    /// The marks the beginning of the coda.
    Coda,
    /// Jump forward to the coda.
    ToCoda,
    /// End here (after jumping backwards to the sign).
    Fine,
    /// Numbered ending.
    Ending(u8),
}

/// A waveform.
pub struct Waveform {
    /// True: Signed 16-bit integer, False: Signed 8-bit integer.
    pub si16: bool,
    /// True: Waveform doesn't loop, False: Waveform loops.
    pub once: bool,
    /// Hexadecimal string representation of waveform.
    pub wave: String,
}

/// Reverb & other effect settings.
#[derive(Debug, PartialEq, Eq, Structural)]
pub struct Effect {}

/// A signature.
#[derive(Debug, Default, PartialEq, Eq)]
pub struct Sig {
    /// The key signature (0-23 quarter steps above C, 24+ reserved for middle
    /// eastern and Indian key signatures).
    pub key: u8,
    /// Time signature (num_beats/note_len), 4/4 is common.
    pub time: String,
    /// BPM (beats per minute), 120 is common.
    pub tempo: u16,
    /// % Swing.
    pub swing: Option<u8>,
}

/// Channel information for a specific bar of music.
#[derive(Debug, PartialEq, Eq)]
pub struct Chan {
    /// Notes for a channel, as marking texts.
    pub notes: Vec<String>,
    /// Lyrics for a channel.
    pub lyric: Vec<String>,
}

/// A bar (or measure) of music.
#[derive(Debug, PartialEq, Eq)]
pub struct Bar {
    /// Signature index
    pub sig: Option<u32>,
    /// All of the channels in this piece.
    pub chan: Vec<Chan>,
    /// Repeat symbols for this measure.
    pub repeat: Vec<String>,
}

/// A movement in the score.
#[derive(Debug, PartialEq, Eq)]
pub struct Movement {
    /// A list of key signatures used in this movement.
    pub sig: Vec<Sig>,
    /// Each measure of the movement in order.
    pub bar: Vec<Bar>,
}

/// An instrument in the soundfont for this score.
#[derive(Debug, PartialEq, Eq)]
pub struct Instrument {
    /// Default waveform for instrument.
    pub waveform: String,
    /// Straight or Palm mute depending on instrument.
    pub mute: Option<String>,
    /// Cup mute.
    pub cup_mute: Option<String>,
    /// Wah-wah mute.
    pub harmon_mute: Option<String>,
    /// Plunger mute.
    pub plunger_mute: Option<String>,
    /// Harmonic (for guitar)
    pub harmonic: Option<String>,
    /// Use different waveform for this dynamic
    pub ppp: Option<String>,
    /// Use different waveform for this dynamic
    pub pp: Option<String>,
    /// Use different waveform for this dynamic
    pub p: Option<String>,
    /// Use different waveform for this dynamic
    pub mp: Option<String>,
    /// Use different waveform for this dynamic
    pub mf: Option<String>,
    /// Use different waveform for this dynamic
    pub f: Option<String>,
    /// Use different waveform for this dynamic
    pub ff: Option<String>,
    /// Use different waveform for this dynamic
    pub fff: Option<String>,
}

/// Signature Style.
#[derive(Debug, PartialEq, Eq)]
pub struct SigStyle {
    /// Text that should show up.  Default="beat = BPM" marking.
    pub tempo: Option<String>,
    /// Whether or not the time signature should use a special symbol
    /// (C for 4/4).
    pub time_symbol: bool,
    /// Text that should show up rather than default.
    /// Default="1/8 1/8 = 1/6 1/12"
    pub swing_text: Option<String>,
}

/// Style file.
#[derive(Debug, PartialEq, Eq)]
pub struct Style {
    pub sig: Vec<SigStyle>,
}

/// Arranger & Ensemble
#[derive(Debug, PartialEq, Eq)]
pub struct Arranger {
    pub name: String,
    pub ensemble: Option<String>,
}

/// Score metadata.
#[derive(Debug, PartialEq, Eq)]
pub struct Meta {
    /// Who wrote the original music "{}"
    pub composer: String,
    /// The subtitle of the piece.
    pub subtitle: Option<String>,
    /// Work number.
    pub number: Option<u32>,
    /// Who wrote the lyrics to the music "Words by {}"
    pub lyricist: Option<String>,
    /// Who translated the lyrics "Translated by {}"
    pub translator: Option<String>,
    /// Who performed the music "Performed by {}"
    pub performers: Option<String>,
    /// List of people who arranged & rearranged the music in order
    /// "Arranged for {} by {}".
    pub arranger: Vec<Arranger>,
    /// List of people who revised the score "Revised by {}".
    pub revised: Vec<String>,
    /// License information
    pub licenses: Vec<String>,
    /// Playing level (how hard it is to play times 2 - to allow grade 1.5 etc.).
    pub grade: Option<u8>,
    /// List of the movements in order.
    pub movement: Vec<String>,
}

/// The score: title, cover, metadata, style, instruments and movements.
/// Synthesis settings are kept beside it by the application.
#[derive(PartialEq, Eq)]
pub struct Scof {
    /// The title of the piece.  When the zip file's name is
    /// "My Score \ Symphony No. 1.scof" => "My Score / Symphony No. 1".
    /// Maximum of 64 characters.
    pub title: String,
    /// Bytes for an RVG file (Vector(SVG), Pixel(PNG) or Picture(JPG)).
    pub cover: Option<Vec<u8>>,
    /// Metadata for the piece.
    pub meta: Meta,
    /// Rendering style.
    pub style: Style,
    /// Instruments.
    pub soundfont: Vec<Instrument>,
    /// Movements for the piece.
    pub movement: Vec<Movement>,
}

/// The texts that a channel's markings hold.
pub open spec fn texts(notes: Seq<String>) -> Seq<Seq<char>> {
    notes.map_values(|s: String| s@)
}

/// How many markings at the start of a channel read as notes.
pub open spec fn parsed_run(ts: Seq<Seq<char>>) -> nat
    decreases ts.len(),
{
    if ts.len() == 0 || parse_marking(ts[0]) is Err {
        0
    } else {
        1 + parsed_run(ts.drop_first())
    }
}

/// A run of readable markings that ends where they stop has the run's
/// length.
pub proof fn lemma_parsed_run(ts: Seq<Seq<char>>, i: int)
    requires
        0 <= i <= ts.len(),
        forall|k: int| 0 <= k < i ==> #[trigger] parse_marking(ts[k]) is Ok,
        i == ts.len() || parse_marking(ts[i]) is Err,
    ensures
        parsed_run(ts) == i,
    decreases i,
{
    if i > 0 {
        assert forall|k: int| 0 <= k < i - 1 implies #[trigger] parse_marking(ts.drop_first()[k]) is Ok by {
            assert(ts.drop_first()[k] == ts[k + 1]);
        }
        lemma_parsed_run(ts.drop_first(), i - 1);
    }
}

impl Scof {
    /// The channel that a cursor addresses in movement `mv`, if it exists.
    pub open spec fn chan_at(&self, mv: int, c: Cursor) -> Option<Chan> {
        if 0 <= mv < self.movement@.len() && c.measure < self.movement@[mv].bar@.len() && c.chan
            < self.movement@[mv].bar@[c.measure as int].chan@.len() {
            Some(self.movement@[mv].bar@[c.measure as int].chan@[c.chan as int])
        } else {
            None
        }
    }

    /// The marking texts of the channel that a cursor addresses in the
    /// first movement, if it exists.
    pub open spec fn channel(&self, c: Cursor) -> Option<Seq<Seq<char>>> {
        match self.chan_at(0, c) {
            Some(ch) => Some(texts(ch.notes@)),
            None => None,
        }
    }

    /// The text of the marking that a cursor addresses, if it exists.
    pub open spec fn text_at(&self, c: Cursor) -> Option<Seq<char>> {
        match self.channel(c) {
            Some(ts) => if c.marking < ts.len() {
                Some(ts[c.marking as int])
            } else {
                None
            },
            None => None,
        }
    }

    /// What the marking at a cursor reads as, if it exists and reads.
    pub open spec fn head_at(&self, c: Cursor) -> Option<NoteHead> {
        match self.text_at(c) {
            Some(t) => match parse_marking(t) {
                Ok(h) => Some(h),
                Err(_) => None,
            },
            None => None,
        }
    }

    /// The count of markings in the cursor's channel: how many, from the
    /// first, read as notes. Zero where the channel does not exist.
    pub open spec fn spec_marking_len(&self, c: Cursor) -> nat {
        match self.channel(c) {
            Some(ts) => parsed_run(ts),
            None => 0,
        }
    }

    /// `new` is this score with the channel that `c` addresses in the first
    /// movement holding the marking texts `ts`, and nothing else changed.
    pub open spec fn with_channel(&self, new: Scof, c: Cursor, ts: Seq<Seq<char>>) -> bool {
        let m = c.measure as int;
        let k = c.chan as int;
        &&& self.chan_at(0, c) is Some
        &&& new.title == self.title
        &&& new.cover == self.cover
        &&& new.meta == self.meta
        &&& new.style == self.style
        &&& new.soundfont == self.soundfont
        &&& new.movement@.len() == self.movement@.len()
        &&& forall|j: int|
            1 <= j < new.movement@.len() ==> #[trigger] new.movement@[j] == self.movement@[j]
        &&& new.movement@[0].sig == self.movement@[0].sig
        &&& new.movement@[0].bar@.len() == self.movement@[0].bar@.len()
        &&& forall|j: int|
            0 <= j < new.movement@[0].bar@.len() && j != m ==> #[trigger] new.movement@[0].bar@[j]
                == self.movement@[0].bar@[j]
        &&& new.movement@[0].bar@[m].sig == self.movement@[0].bar@[m].sig
        &&& new.movement@[0].bar@[m].repeat == self.movement@[0].bar@[m].repeat
        &&& new.movement@[0].bar@[m].chan@.len() == self.movement@[0].bar@[m].chan@.len()
        &&& forall|j: int|
            0 <= j < new.movement@[0].bar@[m].chan@.len() && j != k
                ==> #[trigger] new.movement@[0].bar@[m].chan@[j] == self.movement@[0].bar@[m].chan@[j]
        &&& new.movement@[0].bar@[m].chan@[k].lyric == self.movement@[0].bar@[m].chan@[k].lyric
        &&& texts(new.movement@[0].bar@[m].chan@[k].notes@) == ts
    }

    /// Lookup a marking at a cursor position
    fn marking_str(&self, movement: usize, cursor: &Cursor) -> (r: Option<&String>)
        ensures
            match self.chan_at(movement as int, *cursor) {
                Some(ch) => if cursor.marking < ch.notes@.len() {
                    r == Some(&ch.notes@[cursor.marking as int])
                } else {
                    r is None
                },
                None => r is None,
            },
    {
        if movement >= self.movement.len() {
            return None;
        }
        let mv = &self.movement[movement];
        if cursor.measure >= mv.bar.len() {
            return None;
        }
        let bar = &mv.bar[cursor.measure];
        if cursor.chan >= bar.chan.len() {
            return None;
        }
        let ch = &bar.chan[cursor.chan];
        if cursor.marking >= ch.notes.len() {
            return None;
        }
        Some(&ch.notes[cursor.marking])
    }

    /// Whether the channel that a cursor addresses exists, and how many
    /// marking texts it holds.
    fn chan_len(&self, movement: usize, cursor: &Cursor) -> (r: Option<usize>)
        ensures
            match self.chan_at(movement as int, *cursor) {
                Some(ch) => r matches Some(k) && k == ch.notes@.len(),
                None => r is None,
            },
    {
        if movement >= self.movement.len() {
            return None;
        }
        let mv = &self.movement[movement];
        if cursor.measure >= mv.bar.len() {
            return None;
        }
        let bar = &mv.bar[cursor.measure];
        if cursor.chan >= bar.chan.len() {
            return None;
        }
        Some(bar.chan[cursor.chan].notes.len())
    }

    /// Get the marking at cursor: the note that its text reads as.
    pub fn marking(&self, cursor: &Cursor) -> (r: Option<Marking>)
        ensures
            r is Some <==> self.head_at(*cursor) is Some,
            r matches Some(m) ==> m matches Marking::Note(n) && self.head_at(*cursor) == Some(
                (n.pitch, n.duration),
            ),
    {
        match self.note(cursor) {
            Some(n) => Some(Marking::Note(n)),
            None => None,
        }
    }

    /// Get the note at cursor.
    pub fn note(&self, cursor: &Cursor) -> (r: Option<Note>)
        ensures
            r is Some <==> self.head_at(*cursor) is Some,
            r matches Some(n) ==> self.head_at(*cursor) == Some((n.pitch, n.duration))
                && n.articulation@.len() == 0,
    {
        let string = match self.marking_str(0, cursor) {
            Some(s) => s,
            None => {
                return None;
            },
        };
        match Note::parse(string.as_str()) {
            Ok(n) => Some(n),
            Err(_) => None,
        }
    }

    /// Get the count of markings in a measure: how many markings of the
    /// cursor's channel, from the first, read as notes.
    pub fn marking_len(&self, cursor: &Cursor) -> (r: usize)
        ensures
            r == self.spec_marking_len(*cursor),
    {
        let mut curs = *cursor;
        curs.marking = 0;
        let n = match self.chan_len(0, cursor) {
            Some(n) => n,
            None => {
                return 0;
            },
        };
        let ghost ts = self.channel(*cursor).unwrap();
        assert(ts.len() == self.chan_at(0, *cursor).unwrap().notes@.len());
        while curs.marking < n && self.marking(&curs).is_some()
            invariant
                curs.measure == cursor.measure,
                curs.chan == cursor.chan,
                self.channel(*cursor) == Some(ts),
                self.channel(curs) == Some(ts),
                n == ts.len(),
                curs.marking <= n,
                forall|k: int| 0 <= k < curs.marking ==> #[trigger] parse_marking(ts[k]) is Ok,
            decreases n - curs.marking,
        {
            curs.marking = curs.marking + 1;
        }
        proof {
            lemma_parsed_run(ts, curs.marking as int);
        }
        curs.marking
    }
}

impl Scof {
    /// Insert a note after the cursor: its text goes in at the next marking
    /// index of the cursor's channel. Nothing happens where the channel does
    /// not exist or the cursor is past its end.
    pub fn insert_after(&mut self, cursor: &Cursor, marking: Note) -> (r: Option<()>)
        ensures
            r is Some <==> old(self).channel(*cursor) is Some
                && cursor.marking < old(self).channel(*cursor).unwrap().len(),
            r is Some ==> old(self).with_channel(
                *final(self),
                *cursor,
                old(self).channel(*cursor).unwrap().insert(
                    cursor.marking + 1,
                    marking_text(marking.pitch, marking.duration),
                ),
            ),
            r is None ==> *final(self) == *old(self),
    {
        let n = match self.chan_len(0, cursor) {
            Some(n) => n,
            None => {
                return None;
            },
        };
        if cursor.marking >= n {
            return None;
        }
        let text = marking.to_string();
        let ghost before = self.movement@[0].bar@[cursor.measure as int].chan@[cursor.chan as int].notes@;
        self.movement[0].bar[cursor.measure].chan[cursor.chan].notes.insert(cursor.marking + 1, text);
        proof {
            let after = self.movement@[0].bar@[cursor.measure as int].chan@[cursor.chan as int].notes@;
            assert(texts(after) =~= texts(before).insert(cursor.marking + 1, text@));
        }
        Some(())
    }

    /// Remove the note after the cursor: the marking at the next index of
    /// the cursor's channel. Returns the note that its text read as, if it
    /// read; nothing happens where there is no such marking.
    pub fn remove_after(&mut self, cursor: &Cursor) -> (r: Option<Note>)
        ensures
            ({
                let removes = old(self).channel(*cursor) is Some
                    && cursor.marking + 1 < old(self).channel(*cursor).unwrap().len();
                let ts = old(self).channel(*cursor).unwrap();
                &&& removes ==> old(self).with_channel(
                    *final(self),
                    *cursor,
                    ts.remove(cursor.marking + 1),
                )
                &&& !removes ==> *final(self) == *old(self) && r is None
                &&& r is Some <==> removes && parse_marking(ts[cursor.marking + 1]) is Ok
                &&& r matches Some(n) ==> parse_marking(ts[cursor.marking + 1]) == Ok::<
                    NoteHead,
                    MalformedMarking,
                >((n.pitch, n.duration))
            }),
    {
        let n = match self.chan_len(0, cursor) {
            Some(n) => n,
            None => {
                return None;
            },
        };
        if n == 0 || cursor.marking >= n - 1 {
            return None;
        }
        let ghost before = self.movement@[0].bar@[cursor.measure as int].chan@[cursor.chan as int].notes@;
        let string = self.movement[0].bar[cursor.measure].chan[cursor.chan].notes.remove(
            cursor.marking + 1,
        );
        proof {
            let after = self.movement@[0].bar@[cursor.measure as int].chan@[cursor.chan as int].notes@;
            assert(texts(after) =~= texts(before).remove(cursor.marking + 1));
            assert(texts(before)[cursor.marking + 1] == string@);
        }
        match Note::parse(string.as_str()) {
            Ok(n) => Some(n),
            Err(_) => None,
        }
    }

    /// Overwrites the text of the marking at a cursor that is known to exist.
    fn put_marking(&mut self, cursor: &Cursor, text: String)
        requires
            old(self).text_at(*cursor) is Some,
        ensures
            old(self).with_channel(
                *final(self),
                *cursor,
                old(self).channel(*cursor).unwrap().update(cursor.marking as int, text@),
            ),
    {
        let ghost before = self.movement@[0].bar@[cursor.measure as int].chan@[cursor.chan as int].notes@;
        self.movement[0].bar[cursor.measure].chan[cursor.chan].notes.set(cursor.marking, text);
        proof {
            let after = self.movement@[0].bar@[cursor.measure as int].chan@[cursor.chan as int].notes@;
            assert(texts(after) =~= texts(before).update(cursor.marking as int, text@));
        }
    }

    /// Set pitch class and octave of the note at a cursor: its text is read,
    /// given the pitch, and written back. Nothing happens where there is no
    /// marking at the cursor or it does not read as a note.
    pub fn set_pitch(
        &mut self,
        cursor: &Cursor,
        pitch: (PitchClass, PitchOctave),
    ) -> (r: Option<()>)
        ensures
            r is Some <==> old(self).head_at(*cursor) is Some,
            r is Some ==> old(self).with_channel(
                *final(self),
                *cursor,
                old(self).channel(*cursor).unwrap().update(
                    cursor.marking as int,
                    marking_text(Some(pitch), old(self).head_at(*cursor).unwrap().1),
                ),
            ),
            r is None ==> *final(self) == *old(self),
    {
        let mut note = match self.note(cursor) {
            Some(n) => n,
            None => {
                return None;
            },
        };
        note.set_pitch(pitch);
        let text = note.to_string();
        self.put_marking(cursor, text);
        Some(())
    }

    /// Set duration of the note at a cursor: its text is read, given the
    /// duration, and written back. Nothing happens where there is no marking
    /// at the cursor or it does not read as a note.
    pub fn set_duration(&mut self, cursor: &Cursor, dur: Fraction) -> (r: Option<()>)
        ensures
            r is Some <==> old(self).head_at(*cursor) is Some,
            r is Some ==> old(self).with_channel(
                *final(self),
                *cursor,
                old(self).channel(*cursor).unwrap().update(
                    cursor.marking as int,
                    marking_text(old(self).head_at(*cursor).unwrap().0, dur),
                ),
            ),
            r is None ==> *final(self) == *old(self),
    {
        let mut note = match self.note(cursor) {
            Some(n) => n,
            None => {
                return None;
            },
        };
        note.set_duration(dur);
        let text = note.to_string();
        self.put_marking(cursor, text);
        Some(())
    }
}

impl Scof {
    /// Get the last measure of a movement
    fn last_measure(&self, movement: usize) -> (r: Option<&Bar>)
        ensures
            movement < self.movement@.len() && self.movement@[movement as int].bar@.len() > 0 ==> r
                == Some(&self.movement@[movement as int].bar@.last()),
            !(movement < self.movement@.len() && self.movement@[movement as int].bar@.len() > 0)
                ==> r is None,
    {
        if movement >= self.movement.len() {
            return None;
        }
        let bars = &self.movement[movement].bar;
        if bars.len() == 0 {
            return None;
        }
        Some(&bars[bars.len() - 1])
    }

    /// Push a measure at end of movement
    fn push_measure(&mut self, movement: usize, bar: Bar)
        requires
            movement < old(self).movement@.len(),
        ensures
            final(self).title == old(self).title,
            final(self).cover == old(self).cover,
            final(self).meta == old(self).meta,
            final(self).style == old(self).style,
            final(self).soundfont == old(self).soundfont,
            final(self).movement@ == old(self).movement@.update(
                movement as int,
                Movement {
                    bar: final(self).movement@[movement as int].bar,
                    ..old(self).movement@[movement as int]
                },
            ),
            final(self).movement@[movement as int].bar@ == old(self).movement@[movement as int].bar@.push(bar),
    {
        self.movement[movement].bar.push(bar);
    }

    /// Add a new measure at the end of the first movement, with as many
    /// channels as its last measure, each holding a whole rest. Nothing
    /// happens where the first movement has no measure.
    pub fn new_measure(&mut self)
        ensures
            old(self).movement@.len() > 0 && old(self).movement@[0].bar@.len() > 0 ==> {
                let mv = old(self).movement@[0];
                let nb = final(self).movement@[0].bar@.last();
                &&& final(self).title == old(self).title
                &&& final(self).cover == old(self).cover
                &&& final(self).meta == old(self).meta
                &&& final(self).style == old(self).style
                &&& final(self).soundfont == old(self).soundfont
                &&& final(self).movement@ == old(self).movement@.update(
                    0,
                    Movement { bar: final(self).movement@[0].bar, ..mv },
                )
                &&& final(self).movement@[0].bar@.len() == mv.bar@.len() + 1
                &&& final(self).movement@[0].bar@.drop_last() == mv.bar@
                &&& nb.sig is None
                &&& nb.repeat@.len() == 0
                &&& nb.chan@.len() == mv.bar@.last().chan@.len()
                &&& forall|j: int|
                    0 <= j < nb.chan@.len() ==> texts(#[trigger] nb.chan@[j].notes@) == seq![
                        seq!['R'],
                    ] && nb.chan@[j].lyric@.len() == 0
            },
            !(old(self).movement@.len() > 0 && old(self).movement@[0].bar@.len() > 0)
                ==> *final(self) == *old(self),
    {
        let n = match self.last_measure(0) {
            Some(last_bar) => last_bar.chan.len(),
            None => {
                return;
            },
        };
        let mut chan: Vec<Chan> = Vec::new();
        let mut i: usize = 0;
        while i < n
            invariant
                i <= n,
                chan@.len() == i,
                forall|j: int|
                    0 <= j < i ==> texts(#[trigger] chan@[j].notes@) == seq![seq!['R']]
                        && chan@[j].lyric@.len() == 0,
            decreases n - i,
        {
            chan.push(Chan::default());
            i = i + 1;
        }
        let ghost before = self.movement@[0].bar@;
        self.push_measure(0, Bar { sig: None, chan, repeat: Vec::new() });
        assert(self.movement@[0].bar@.drop_last() =~= before);
    }
}

/// Whether the time signature shows a symbol by default: it does not.
pub fn default_symtime() -> (r: bool)
    ensures
        !r,
{
    false
}

/// The composer of a score that names none.
pub fn default_composer() -> (r: String)
    ensures
        r@ == seq!['A', 'n', 'o', 'n', 'y', 'm', 'o', 'u', 's'],
{
    let r = String::from_str("Anonymous");
    proof {
        reveal_strlit("Anonymous");
    }
    r
}

impl Default for Chan {
    /// A channel holding one whole measure rest, and no lyrics.
    fn default() -> (r: Self)
        ensures
            texts(r.notes@) == seq![seq!['R']],
            r.lyric@.len() == 0,
    {
        let rest = String::from_str("R");
        proof {
            reveal_strlit("R");
            assert(rest@ =~= seq!['R']);
        }
        let mut notes: Vec<String> = Vec::new();
        notes.push(rest);
        assert(texts(notes@) =~= seq![seq!['R']]);
        Chan { notes, lyric: Vec::new() }
    }
}

impl Default for Movement {
    /// A movement with no signatures and no measures.
    fn default() -> (r: Self)
        ensures
            r.sig@.len() == 0,
            r.bar@.len() == 0,
    {
        Movement { sig: Vec::new(), bar: Vec::new() }
    }
}

impl Default for Style {
    /// A style with no signature styles.
    fn default() -> (r: Self)
        ensures
            r.sig@.len() == 0,
    {
        Style { sig: Vec::new() }
    }
}

impl Default for Instrument {
    /// An instrument with an empty waveform name and no variants.
    fn default() -> (r: Self)
        ensures
            r.waveform@.len() == 0,
            r.mute is None && r.cup_mute is None && r.harmon_mute is None,
            r.plunger_mute is None && r.harmonic is None,
            r.ppp is None && r.pp is None && r.p is None && r.mp is None,
            r.mf is None && r.f is None && r.ff is None && r.fff is None,
    {
        Instrument {
            waveform: String::new(),
            mute: None,
            cup_mute: None,
            harmon_mute: None,
            plunger_mute: None,
            harmonic: None,
            ppp: None,
            pp: None,
            p: None,
            mp: None,
            mf: None,
            f: None,
            ff: None,
            fff: None,
        }
    }
}

impl Default for Meta {
    /// Metadata naming an anonymous composer, and nothing else.
    fn default() -> (r: Self)
        ensures
            r.composer@ == seq!['A', 'n', 'o', 'n', 'y', 'm', 'o', 'u', 's'],
            r.subtitle is None && r.number is None && r.lyricist is None,
            r.translator is None && r.performers is None && r.grade is None,
            r.arranger@.len() == 0 && r.revised@.len() == 0,
            r.licenses@.len() == 0 && r.movement@.len() == 0,
    {
        Meta {
            subtitle: None,
            number: None,
            composer: default_composer(),
            lyricist: None,
            translator: None,
            performers: None,
            arranger: Vec::new(),
            revised: Vec::new(),
            licenses: Vec::new(),
            grade: None,
            movement: Vec::new(),
        }
    }
}

impl Default for Scof {
    /// An untitled score with default metadata and style, one default
    /// instrument, and one empty movement.
    fn default() -> (r: Self)
        ensures
            r.title@ == seq![
                'U', 'n', 't', 'i', 't', 'l', 'e', 'd', ' ', 'S', 'c', 'o', 'r', 'e',
            ],
            r.cover is None,
            r.meta.composer@ == seq!['A', 'n', 'o', 'n', 'y', 'm', 'o', 'u', 's'],
            r.style.sig@.len() == 0,
            r.soundfont@.len() == 1,
            r.movement@.len() == 1,
            r.movement@[0].bar@.len() == 0,
    {
        let title = String::from_str("Untitled Score");
        proof {
            reveal_strlit("Untitled Score");
            assert(title@ =~= seq![
                'U', 'n', 't', 'i', 't', 'l', 'e', 'd', ' ', 'S', 'c', 'o', 'r', 'e',
            ]);
        }
        let mut movement: Vec<Movement> = Vec::new();
        movement.push(Movement::default());
        let mut soundfont: Vec<Instrument> = Vec::new();
        soundfont.push(Instrument::default());
        Scof {
            title,
            cover: None,
            meta: Meta::default(),
            style: Style::default(),
            soundfont,
            movement,
        }
    }
}

impl Cursor {
    /// Create a new cursor
    pub fn new(measure: usize, chan: usize, marking: usize) -> (r: Self)
        ensures
            r == (Cursor { measure, chan, marking }),
    {
        Cursor { measure, chan, marking }
    }

    /// Create a cursor from the first marking
    pub fn first_marking(&self) -> (r: Self)
        ensures
            r == (Cursor { marking: 0, ..*self }),
    {
        Cursor { measure: self.measure, chan: self.chan, marking: 0 }
    }

    /// Move cursor left: to the previous marking, or to the last marking of
    /// the previous measure; at the first marking of the first measure it
    /// stays.
    pub fn left(&mut self, scof: &Scof)
        ensures
            old(self).marking > 0 ==> *final(self) == (Cursor {
                marking: (old(self).marking - 1) as usize,
                ..*old(self)
            }),
            old(self).marking == 0 && old(self).measure > 0 ==> {
                let prev = Cursor { measure: (old(self).measure - 1) as usize, ..*old(self) };
                let len = scof.spec_marking_len(prev);
                *final(self) == (Cursor {
                    marking: if len > 0 {
                        (len - 1) as usize
                    } else {
                        0
                    },
                    ..prev
                })
            },
            old(self).marking == 0 && old(self).measure == 0 ==> *final(self) == *old(self),
    {
        if self.marking > 0 {
            self.marking = self.marking - 1;
        } else if self.measure != 0 {
            self.measure = self.measure - 1;
            let here = *self;
            let len = scof.marking_len(&here);
            self.marking = if len > 0 {
                len - 1
            } else {
                0
            };
        }
    }

    /// Move cursor right: to the next marking, or past the end of the
    /// measure to the first marking of the next one (which may not exist).
    pub fn right(&mut self, scof: &Scof)
        requires
            old(self).measure < usize::MAX,
        ensures
            old(self).marking + 1 < scof.spec_marking_len(*old(self)) ==> *final(self) == (Cursor {
                marking: (old(self).marking + 1) as usize,
                ..*old(self)
            }),
            old(self).marking + 1 >= scof.spec_marking_len(*old(self)) ==> *final(self) == (Cursor {
                measure: (old(self).measure + 1) as usize,
                marking: 0,
                ..*old(self)
            }),
    {
        let here = *self;
        let len = scof.marking_len(&here);
        if len > 0 && self.marking < len - 1 {
            self.marking = self.marking + 1;
        } else {
            self.measure = self.measure + 1;
            self.marking = 0;
        }
    }

    /// Move cursor to the next marking, without looking at the score.
    pub fn right_unchecked(&mut self) -> (r: Self)
        requires
            old(self).marking < usize::MAX,
        ensures
            *final(self) == (Cursor { marking: (old(self).marking + 1) as usize, ..*old(self) }),
            r == *final(self),
    {
        self.marking = self.marking + 1;
        *self
    }

    /// Returns true if it's the first bar of music.
    pub fn is_first_bar(&self) -> (r: bool)
        ensures
            r == (self.measure == 0),
    {
        self.measure == 0
    }
}

} // verus!
