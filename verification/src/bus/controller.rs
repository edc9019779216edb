use vstd::prelude::*;
use crate::bits::{lemma_u8_bits, lemma_u8_select};
use crate::savestate::{bool_byte, byte_at, data_appended, fits, read_here, Save, SaveStateError, Section};

verus! {

/// The buttons of a standard controller, in the order the controller
/// reports them.
#[derive(Clone, Copy, PartialEq, Eq, Structural, Hash, Debug)]
pub enum JoypadStatus {
    A,
    B,
    SELECT,
    START,
    UP,
    DOWN,
    LEFT,
    RIGHT,
}

/// The bit a button occupies in the controller's status byte.
pub open spec fn button_bit(b: JoypadStatus) -> u8 {
    match b {
        JoypadStatus::A => 0b0000_0001,
        JoypadStatus::B => 0b0000_0010,
        JoypadStatus::SELECT => 0b0000_0100,
        JoypadStatus::START => 0b0000_1000,
        JoypadStatus::UP => 0b0001_0000,
        JoypadStatus::DOWN => 0b0010_0000,
        JoypadStatus::LEFT => 0b0100_0000,
        JoypadStatus::RIGHT => 0b1000_0000,
    }
}

impl JoypadStatus {
    pub fn bits(&self) -> (b: u8)
        ensures
            b == button_bit(*self),
    {
        match self {
            JoypadStatus::A => 0b0000_0001,
            JoypadStatus::B => 0b0000_0010,
            JoypadStatus::SELECT => 0b0000_0100,
            JoypadStatus::START => 0b0000_1000,
            JoypadStatus::UP => 0b0001_0000,
            JoypadStatus::DOWN => 0b0010_0000,
            JoypadStatus::LEFT => 0b0100_0000,
            JoypadStatus::RIGHT => 0b1000_0000,
        }
    }
}

/// A standard controller as the CPU sees it at $4016: a strobe latch and a
/// shift position over the eight button bits.
pub struct Joypad {
    pub strobe: bool,
    pub index: u8,
    pub status: u8,
}

/// What a read gives and the controller after it: once all eight buttons
/// have been reported, reads give 1; otherwise the button at the current
/// position, advancing the position unless the strobe is held.
pub open spec fn joypad_read(j: Joypad) -> (u8, Joypad) {
    if j.index > 7 {
        (1, j)
    } else {
        let pressed = (j.status >> j.index) & 1;
        (pressed, if !j.strobe {
            Joypad { index: (j.index + 1) as u8, ..j }
        } else {
            j
        })
    }
}

/// The values of `n` successive reads.
pub open spec fn joypad_reads(j: Joypad, n: nat) -> Seq<u8>
    decreases n,
{
    if n == 0 {
        seq![]
    } else {
        seq![joypad_read(j).0] + joypad_reads(joypad_read(j).1, (n - 1) as nat)
    }
}

impl Joypad {
    pub fn new() -> (j: Joypad)
        ensures
            !j.strobe && j.index == 0 && j.status == 0,
    {
        Joypad { strobe: false, index: 0, status: 0 }
    }

    pub fn reset(&mut self)
        ensures
            !final(self).strobe && final(self).index == 0 && final(self).status == 0,
    {
        self.strobe = false;
        self.index = 0;
        self.status = 0;
    }

    pub fn read(&mut self) -> (v: u8)
        ensures
            (v, *final(self)) == joypad_read(*old(self)),
    {
        if self.index > 7 {
            return 1;
        }
        let index = self.index;
        let status = self.status;
        let pressed = status & (1 << index) != 0;
        proof {
            lemma_u8_select(status, index);
        }
        if !self.strobe && self.index <= 7 {
            self.index += 1;
        }
        if pressed {
            1
        } else {
            0
        }
    }

    /// Writing to $4016: bit 0 sets the strobe, which rewinds the shift
    /// position while it is high.
    pub fn write(&mut self, val: u8)
        ensures
            final(self).strobe == (val & 1 == 1),
            final(self).index == if val & 1 == 1 {
                0
            } else {
                old(self).index
            },
            final(self).status == old(self).status,
    {
        self.strobe = val & 1 == 1;
        if self.strobe {
            self.index = 0;
        }
    }

    pub fn update_button_state(&mut self, button: JoypadStatus, pressed: bool)
        ensures
            final(self).status == if pressed {
                old(self).status | button_bit(button)
            } else {
                old(self).status & !button_bit(button)
            },
            final(self).strobe == old(self).strobe,
            final(self).index == old(self).index,
    {
        let bit = button.bits();
        if pressed {
            self.status = self.status | bit;
        } else {
            self.status = self.status & !bit;
        }
    }

    /// Sets all eight buttons at once.
    pub fn update(&mut self, val: u8)
        ensures
            *final(self) == (Joypad { status: val, ..*old(self) }),
    {
        self.status = val;
    }
}

/// After the strobe is raised and lowered, eight reads report the buttons
/// in order (A, B, Select, Start, Up, Down, Left, Right), and further reads
/// report 1.
pub proof fn law_joypad_report(j: Joypad)
    requires
        !j.strobe,
        j.index == 0,
    ensures
        joypad_reads(j, 9) == seq![
            j.status & 1,
            (j.status >> 1) & 1,
            (j.status >> 2) & 1,
            (j.status >> 3) & 1,
            (j.status >> 4) & 1,
            (j.status >> 5) & 1,
            (j.status >> 6) & 1,
            (j.status >> 7) & 1,
            1u8,
        ],
{
    let s = j.status;
    lemma_u8_bits(s);
    reveal_with_fuel(joypad_reads, 10);
}


impl Save for Joypad {
    /// The strobe flag, the report index and the button state, written to
    /// the parent's own buffer.
    open spec fn saved(&self, before: Section, after: Section) -> bool {
        data_appended(before, after, seq![bool_byte(self.strobe), self.index, self.status])
    }

    /// Each field is read back in turn from the parent's buffer as long as
    /// its byte is there.
    open spec fn loaded(
        &self,
        before: Section,
        r: Result<(), SaveStateError>,
        value: Joypad,
        after: Section,
    ) -> bool {
        &&& value.strobe == if fits(before, 1) { byte_at(before, 0) != 0 } else { self.strobe }
        &&& value.index == if fits(before, 2) { byte_at(before, 1) } else { self.index }
        &&& value.status == if fits(before, 3) { byte_at(before, 2) } else { self.status }
        &&& read_here(before, 3, r, after)
    }

    fn save(&self, parent: &mut Section) {
        parent.data.write_bool(self.strobe);
        parent.data.write_u8(self.index);
        parent.data.write_u8(self.status);
        assert(parent.data.data@ == old(parent).data.data@ + seq![
            bool_byte(self.strobe),
            self.index,
            self.status,
        ]);
    }

    fn load(&mut self, parent: &mut Section) -> (r: Result<(), SaveStateError>) {
        self.strobe = match parent.data.read_bool() {
            Ok(v) => v,
            Err(e) => return Err(e),
        };
        self.index = match parent.data.read_u8() {
            Ok(v) => v,
            Err(e) => return Err(e),
        };
        match parent.data.read_u8() {
            Ok(v) => self.update(v),
            Err(e) => return Err(e),
        }
        Ok(())
    }
}

/// Loading a controller from a section whose cursor stands where saving one
/// began writing gives that controller back.
pub proof fn law_joypad_save_load(
    t: Joypad,
    u: Joypad,
    p: Section,
    q: Section,
    r: Result<(), SaveStateError>,
    v: Joypad,
    q2: Section,
)
    requires
        p.data.read_index == p.data.data@.len(),
        t.saved(p, q),
        u.loaded(q, r, v, q2),
    ensures
        r is Ok,
        v == t,
{
}

} // verus!
