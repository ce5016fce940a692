//! Naming detected pitches.

use vstd::prelude::*;

verus! {

/// The twelve chromatic note names, from C.
pub open spec fn note_names() -> Seq<Seq<char>> {
    seq!["C"@, "C#"@, "D"@, "D#"@, "E"@, "F"@, "F#"@, "G"@, "G#"@, "A"@, "A#"@, "B"@]
}

/// The pitch class (0 for C … 11 for B) of a MIDI note number; negative
/// numbers wrap around like the others.
pub open spec fn pitch_class(midi_note: int) -> int {
    midi_note % 12
}

fn note_name_at(i: u32) -> (n: &'static str)
    requires
        i < 12,
    ensures
        n@ == note_names()[i as int],
{
    match i {
        0 => "C",
        1 => "C#",
        2 => "D",
        3 => "D#",
        4 => "E",
        5 => "F",
        6 => "F#",
        7 => "G",
        8 => "G#",
        9 => "A",
        10 => "A#",
        _ => "B",
    }
}

/// The name of the note with MIDI number `midi_note` (69 is A), octave left out.
pub fn note_name(midi_note: i32) -> (n: String)
    ensures
        n@ == note_names()[pitch_class(midi_note as int)],
{
    let r = midi_note % 12;
    let class: i32 = if r < 0 {
        r + 12
    } else {
        r
    };
    assert(class as int == pitch_class(midi_note as int));
    String::from_str(note_name_at(class as u32))
}

} // verus!
