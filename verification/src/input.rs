//! Decoding of raw input bytes into interaction events.
//!
//! One packet of input data is either one key of a small fixed table or
//! nothing at all. Decoding never fails: whatever is not in the table is
//! dropped without an event.

use vstd::prelude::*;

verus! {

/// The ESC control byte, alone a key and also the first byte of an arrow key.
pub const ESC: u8 = 27;

/// `[`, the second byte of an arrow key sequence.
pub const BRACKET: u8 = 91;

/// The carriage return that the enter key sends.
pub const CR: u8 = 13;

/// The space bar's byte.
pub const SPACE: u8 = 0x20;

/// `?`
pub const QUESTION_MARK: u8 = 0x3f;

/// `h`
pub const LOWER_H: u8 = 0x68;

/// `j`
pub const LOWER_J: u8 = 0x6a;

/// `k`
pub const LOWER_K: u8 = 0x6b;

/// `l`
pub const LOWER_L: u8 = 0x6c;

/// `o`
pub const LOWER_O: u8 = 0x6f;

/// `q`
pub const LOWER_Q: u8 = 0x71;

/// `A`, the last byte of the up arrow's sequence.
pub const UPPER_A: u8 = 0x41;

/// `B`, the last byte of the down arrow's sequence.
pub const UPPER_B: u8 = 0x42;

/// `C`, the last byte of the right arrow's sequence.
pub const UPPER_C: u8 = 0x43;

/// `D`, the last byte of the left arrow's sequence.
pub const UPPER_D: u8 = 0x44;

/// An abstract interaction, independent of the bytes that produced it.
#[derive(Clone, Copy, Debug, PartialEq, Eq, Structural)]
pub enum KeyboardEvent {
    Left,
    Right,
    Up,
    Down,
    Back,
    Enter,
    Space,
    Open,
    Help,
}

/// An item of a session's event queue, as far as the runtime tells them apart.
#[derive(Clone, Copy, Debug, PartialEq, Eq, Structural)]
pub enum Event {
    /// The redraw timer fired.
    Tick,
    /// The user pressed a key.
    Keyboard(KeyboardEvent),
    /// Anything the embedded application sent to itself, such as loaded content.
    Application,
}

/// The packet that consists of the single byte `key`.
pub open spec fn single(key: u8) -> Seq<u8> {
    seq![key]
}

/// The three-byte packet ESC `[` `last`, as terminals send it for an arrow key.
pub open spec fn escape_sequence(last: u8) -> Seq<u8> {
    seq![ESC, BRACKET, last]
}

/// The decoding table. Matching is exact in length and in case.
pub open spec fn spec_decode(bytes: Seq<u8>) -> Option<KeyboardEvent> {
    if bytes == single(LOWER_H) || bytes == escape_sequence(UPPER_D) {
        Some(KeyboardEvent::Left)
    } else if bytes == single(LOWER_L) || bytes == escape_sequence(UPPER_C) {
        Some(KeyboardEvent::Right)
    } else if bytes == single(LOWER_K) || bytes == escape_sequence(UPPER_A) {
        Some(KeyboardEvent::Up)
    } else if bytes == single(LOWER_J) || bytes == escape_sequence(UPPER_B) {
        Some(KeyboardEvent::Down)
    } else if bytes == single(LOWER_Q) || bytes == single(ESC) {
        Some(KeyboardEvent::Back)
    } else if bytes == single(CR) {
        Some(KeyboardEvent::Enter)
    } else if bytes == single(SPACE) {
        Some(KeyboardEvent::Space)
    } else if bytes == single(LOWER_O) {
        Some(KeyboardEvent::Open)
    } else if bytes == single(QUESTION_MARK) {
        Some(KeyboardEvent::Help)
    } else {
        None
    }
}

/// The packets that stand in the decoding table.
pub open spec fn recognised() -> Set<Seq<u8>> {
    set![
        single(LOWER_H),
        single(LOWER_L),
        single(LOWER_K),
        single(LOWER_J),
        single(LOWER_Q),
        single(ESC),
        single(CR),
        single(SPACE),
        single(LOWER_O),
        single(QUESTION_MARK),
        escape_sequence(UPPER_A),
        escape_sequence(UPPER_B),
        escape_sequence(UPPER_C),
        escape_sequence(UPPER_D)
    ]
}

/// A one-byte packet with a known length and first byte is `single` of that byte.
proof fn lemma_single(bytes: Seq<u8>)
    requires
        bytes.len() == 1,
    ensures
        bytes == single(bytes[0]),
        forall|key: u8| bytes == single(key) <==> bytes[0] == key,
{
    assert(bytes =~= single(bytes[0]));
    assert forall|key: u8| bytes == single(key) implies bytes[0] == key by {
        assert(single(key)[0] == key);
    }
}

/// A three-byte packet that starts with ESC `[` is `escape_sequence` of its last byte.
proof fn lemma_escape_sequence(bytes: Seq<u8>)
    requires
        bytes.len() == 3,
        bytes[0] == ESC,
        bytes[1] == BRACKET,
    ensures
        bytes == escape_sequence(bytes[2]),
        forall|last: u8| bytes == escape_sequence(last) <==> bytes[2] == last,
{
    assert(bytes =~= escape_sequence(bytes[2]));
    assert forall|last: u8| bytes == escape_sequence(last) implies bytes[2] == last by {
        assert(escape_sequence(last)[2] == last);
    }
}

/// Maps one packet of input bytes to the interaction it stands for, if any.
pub fn decode(data: &[u8]) -> (event: Option<KeyboardEvent>)
    ensures
        event == spec_decode(data@),
        event is Some <==> recognised().contains(data@),
{
    let n: usize = data.len();
    proof {
        assert forall|key: u8| #[trigger] single(key).len() == 1 by {}
        assert forall|last: u8|
            {
                &&& (#[trigger] escape_sequence(last)).len() == 3
                &&& escape_sequence(last)[0] == ESC
                &&& escape_sequence(last)[1] == BRACKET
            } by {}
    }
    if n == 3 {
        if data[0] == ESC && data[1] == BRACKET {
            proof {
                lemma_escape_sequence(data@);
            }
            match data[2] {
                UPPER_D => Some(KeyboardEvent::Left),
                UPPER_C => Some(KeyboardEvent::Right),
                UPPER_A => Some(KeyboardEvent::Up),
                UPPER_B => Some(KeyboardEvent::Down),
                _ => None,
            }
        } else {
            None
        }
    } else if n == 1 {
        proof {
            lemma_single(data@);
        }
        match data[0] {
            LOWER_H => Some(KeyboardEvent::Left),
            LOWER_L => Some(KeyboardEvent::Right),
            LOWER_K => Some(KeyboardEvent::Up),
            LOWER_J => Some(KeyboardEvent::Down),
            LOWER_Q | ESC => Some(KeyboardEvent::Back),
            CR => Some(KeyboardEvent::Enter),
            SPACE => Some(KeyboardEvent::Space),
            LOWER_O => Some(KeyboardEvent::Open),
            QUESTION_MARK => Some(KeyboardEvent::Help),
            _ => None,
        }
    } else {
        None
    }
}

/// The direction that the arrow key with final byte `last` stands for.
pub open spec fn arrow(last: u8) -> KeyboardEvent
    recommends
        UPPER_A <= last <= UPPER_D,
{
    if last == UPPER_A {
        KeyboardEvent::Up
    } else if last == UPPER_B {
        KeyboardEvent::Down
    } else if last == UPPER_C {
        KeyboardEvent::Right
    } else {
        KeyboardEvent::Left
    }
}

/// A packet outside the decoding table gives no event, and only such a packet
/// gives none.
pub proof fn lemma_unrecognised_gives_no_event(bytes: Seq<u8>)
    ensures
        spec_decode(bytes) is None <==> !recognised().contains(bytes),
{
}

/// Each arrow key sequence ESC `[` `A`..`D` decodes as a whole to its own
/// direction. Its leading ESC, which alone means `Back`, never shows through.
pub proof fn lemma_arrow_keys_decode_whole(last: u8)
    requires
        UPPER_A <= last <= UPPER_D,
    ensures
        spec_decode(escape_sequence(last)) == Some(arrow(last)),
        spec_decode(escape_sequence(last)) != Some(KeyboardEvent::Back),
        spec_decode(single(ESC)) == Some(KeyboardEvent::Back),
{
    assert(escape_sequence(last).len() == 3);
    assert(escape_sequence(last)[2] == last);
    assert forall|key: u8| escape_sequence(last) != single(key) by {
        assert(single(key).len() == 1);
    }
    assert forall|other: u8| other != last implies escape_sequence(last) != escape_sequence(
        other,
    ) by {
        assert(escape_sequence(other)[2] == other);
    }
    assert(single(ESC)[0] == ESC);
    assert forall|key: u8| key != ESC implies single(ESC) != #[trigger] single(key) by {
        assert(single(key)[0] == key);
    }
    assert forall|other: u8| single(ESC) != #[trigger] escape_sequence(other) by {
        assert(escape_sequence(other).len() == 3);
    }
}

} // verus!
