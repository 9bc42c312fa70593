use vstd::prelude::*;

verus! {

// Keysyms of the keys that steer the strip.
pub const XK_BACKSPACE: u32 = 0xFF08;
pub const XK_RETURN: u32 = 0xFF0D;
pub const XK_ESCAPE: u32 = 0xFF1B;
pub const XK_LEFT: u32 = 0xFF51;
pub const XK_RIGHT: u32 = 0xFF53;

// Keysyms of the keys that type a character.
pub const XK_SPACE: u32 = 0x020;
pub const XK_0: u32 = 0x030;
pub const XK_1: u32 = 0x031;
pub const XK_2: u32 = 0x032;
pub const XK_3: u32 = 0x033;
pub const XK_4: u32 = 0x034;
pub const XK_5: u32 = 0x035;
pub const XK_6: u32 = 0x036;
pub const XK_7: u32 = 0x037;
pub const XK_8: u32 = 0x038;
pub const XK_9: u32 = 0x039;
pub const XK_UPPER_A: u32 = 0x041;
pub const XK_UPPER_B: u32 = 0x042;
pub const XK_UPPER_C: u32 = 0x043;
pub const XK_UPPER_D: u32 = 0x044;
pub const XK_UPPER_E: u32 = 0x045;
pub const XK_UPPER_F: u32 = 0x046;
pub const XK_UPPER_G: u32 = 0x047;
pub const XK_UPPER_H: u32 = 0x048;
pub const XK_UPPER_I: u32 = 0x049;
pub const XK_UPPER_J: u32 = 0x04a;
pub const XK_UPPER_K: u32 = 0x04b;
pub const XK_UPPER_L: u32 = 0x04c;
pub const XK_UPPER_M: u32 = 0x04d;
pub const XK_UPPER_N: u32 = 0x04e;
pub const XK_UPPER_O: u32 = 0x04f;
pub const XK_UPPER_P: u32 = 0x050;
pub const XK_UPPER_Q: u32 = 0x051;
pub const XK_UPPER_R: u32 = 0x052;
pub const XK_UPPER_S: u32 = 0x053;
pub const XK_UPPER_T: u32 = 0x054;
pub const XK_UPPER_U: u32 = 0x055;
pub const XK_UPPER_V: u32 = 0x056;
pub const XK_UPPER_W: u32 = 0x057;
pub const XK_UPPER_X: u32 = 0x058;
pub const XK_UPPER_Y: u32 = 0x059;
pub const XK_UPPER_Z: u32 = 0x05a;
pub const XK_LOWER_A: u32 = 0x061;
pub const XK_LOWER_B: u32 = 0x062;
pub const XK_LOWER_C: u32 = 0x063;
pub const XK_LOWER_D: u32 = 0x064;
pub const XK_LOWER_E: u32 = 0x065;
pub const XK_LOWER_F: u32 = 0x066;
pub const XK_LOWER_G: u32 = 0x067;
pub const XK_LOWER_H: u32 = 0x068;
pub const XK_LOWER_I: u32 = 0x069;
pub const XK_LOWER_J: u32 = 0x06a;
pub const XK_LOWER_K: u32 = 0x06b;
pub const XK_LOWER_L: u32 = 0x06c;
pub const XK_LOWER_M: u32 = 0x06d;
pub const XK_LOWER_N: u32 = 0x06e;
pub const XK_LOWER_O: u32 = 0x06f;
pub const XK_LOWER_P: u32 = 0x070;
pub const XK_LOWER_Q: u32 = 0x071;
pub const XK_LOWER_R: u32 = 0x072;
pub const XK_LOWER_S: u32 = 0x073;
pub const XK_LOWER_T: u32 = 0x074;
pub const XK_LOWER_U: u32 = 0x075;
pub const XK_LOWER_V: u32 = 0x076;
pub const XK_LOWER_W: u32 = 0x077;
pub const XK_LOWER_X: u32 = 0x078;
pub const XK_LOWER_Y: u32 = 0x079;
pub const XK_LOWER_Z: u32 = 0x07a;

/// The keyboard mapping of an X server: for each keycode from `min_keycode`
/// upwards, `keysyms_per_keycode` consecutive keysyms, one per modifier
/// column.
pub struct Keymap {
    keysyms: Vec<u32>,
    keysyms_per_keycode: u8,
    min_keycode: u8,
}

/// Whether `keysym` stands for a key that types itself: the space bar, a
/// digit or an ASCII letter.
pub open spec fn is_typed_key(keysym: u32) -> bool {
    ||| keysym == 0x20
    ||| 0x30 <= keysym <= 0x39
    ||| 0x41 <= keysym <= 0x5a
    ||| 0x61 <= keysym <= 0x7a
}

/// The text that a keysym types: the one character whose code point is the
/// keysym where the key types itself, and nothing for every other keysym.
pub open spec fn key_text(keysym: u32) -> Seq<char> {
    if is_typed_key(keysym) {
        seq![keysym as char]
    } else {
        Seq::empty()
    }
}

impl Keymap {
    /// Where the keysym of `keycode` in modifier column `state` stands in
    /// the table.
    pub open spec fn slot(self, keycode: u8, state: u16) -> int {
        state + (keycode - self.min_keycode()) * self.keysyms_per_keycode()
    }

    /// The table of keysyms.
    pub closed spec fn keysyms(self) -> Seq<u32> {
        self.keysyms@
    }

    /// The number of columns that the table has for each keycode.
    pub closed spec fn keysyms_per_keycode(self) -> u8 {
        self.keysyms_per_keycode
    }

    /// The keycode with which the table begins.
    pub closed spec fn min_keycode(self) -> u8 {
        self.min_keycode
    }

    /// The mapping with the given table.
    pub fn new(keysyms: Vec<u32>, keysyms_per_keycode: u8, min_keycode: u8) -> (r: Self)
        ensures
            r.keysyms() == keysyms@,
            r.keysyms_per_keycode() == keysyms_per_keycode,
            r.min_keycode() == min_keycode,
    {
        Self { keysyms, keysyms_per_keycode, min_keycode }
    }

    /// Whether the table holds a keysym for `keycode` in column `state`.
    pub open spec fn covers(self, keycode: u8, state: u16) -> bool {
        &&& self.min_keycode() <= keycode
        &&& self.slot(keycode, state) < self.keysyms().len()
    }

    /// The keysym of `keycode` in column `state`, which the table holds.
    pub fn get_keysym(&self, keycode: u8, state: u16) -> (r: u32)
        requires
            self.covers(keycode, state),
        ensures
            r == self.keysyms()[self.slot(keycode, state)],
    {
        let row: usize = (keycode - self.min_keycode) as usize;
        assert(row * (self.keysyms_per_keycode as usize) <= 255 * 255) by (nonlinear_arith)
            requires
                row <= 255,
                self.keysyms_per_keycode <= 255,
        ;
        self.keysyms[state as usize + row * self.keysyms_per_keycode as usize]
    }

    /// The keysym of `keycode` in column `state`, or `None` where the table
    /// holds none.
    pub fn lookup(&self, keycode: u8, state: u16) -> (r: Option<u32>)
        ensures
            r == if self.covers(keycode, state) {
                Some(self.keysyms()[self.slot(keycode, state)])
            } else {
                None
            },
    {
        if keycode < self.min_keycode {
            return None;
        }
        let row: usize = (keycode - self.min_keycode) as usize;
        assert(row * (self.keysyms_per_keycode as usize) <= 255 * 255) by (nonlinear_arith)
            requires
                row <= 255,
                self.keysyms_per_keycode <= 255,
        ;
        let at: usize = state as usize + row * self.keysyms_per_keycode as usize;
        if at < self.keysyms.len() {
            Some(self.keysyms[at])
        } else {
            None
        }
    }

    /// The text that the key with this keysym types.
    pub fn get_key(&self, keysym: u32) -> (r: &'static str)
        ensures
            r@ =~= key_text(keysym),
    {
        match keysym {
            XK_SPACE => {
                proof {
                    reveal_strlit(" ");
                }
                " "
            },
            XK_0 => {
                proof {
                    reveal_strlit("0");
                }
                "0"
            },
            XK_1 => {
                proof {
                    reveal_strlit("1");
                }
                "1"
            },
            XK_2 => {
                proof {
                    reveal_strlit("2");
                }
                "2"
            },
            XK_3 => {
                proof {
                    reveal_strlit("3");
                }
                "3"
            },
            XK_4 => {
                proof {
                    reveal_strlit("4");
                }
                "4"
            },
            XK_5 => {
                proof {
                    reveal_strlit("5");
                }
                "5"
            },
            XK_6 => {
                proof {
                    reveal_strlit("6");
                }
                "6"
            },
            XK_7 => {
                proof {
                    reveal_strlit("7");
                }
                "7"
            },
            XK_8 => {
                proof {
                    reveal_strlit("8");
                }
                "8"
            },
            XK_9 => {
                proof {
                    reveal_strlit("9");
                }
                "9"
            },
            XK_UPPER_A => {
                proof {
                    reveal_strlit("A");
                }
                "A"
            },
            XK_UPPER_B => {
                proof {
                    reveal_strlit("B");
                }
                "B"
            },
            XK_UPPER_C => {
                proof {
                    reveal_strlit("C");
                }
                "C"
            },
            XK_UPPER_D => {
                proof {
                    reveal_strlit("D");
                }
                "D"
            },
            XK_UPPER_E => {
                proof {
                    reveal_strlit("E");
                }
                "E"
            },
            XK_UPPER_F => {
                proof {
                    reveal_strlit("F");
                }
                "F"
            },
            XK_UPPER_G => {
                proof {
                    reveal_strlit("G");
                }
                "G"
            },
            XK_UPPER_H => {
                proof {
                    reveal_strlit("H");
                }
                "H"
            },
            XK_UPPER_I => {
                proof {
                    reveal_strlit("I");
                }
                "I"
            },
            XK_UPPER_J => {
                proof {
                    reveal_strlit("J");
                }
                "J"
            },
            XK_UPPER_K => {
                proof {
                    reveal_strlit("K");
                }
                "K"
            },
            XK_UPPER_L => {
                proof {
                    reveal_strlit("L");
                }
                "L"
            },
            XK_UPPER_M => {
                proof {
                    reveal_strlit("M");
                }
                "M"
            },
            XK_UPPER_N => {
                proof {
                    reveal_strlit("N");
                }
                "N"
            },
            XK_UPPER_O => {
                proof {
                    reveal_strlit("O");
                }
                "O"
            },
            XK_UPPER_P => {
                proof {
                    reveal_strlit("P");
                }
                "P"
            },
            XK_UPPER_Q => {
                proof {
                    reveal_strlit("Q");
                }
                "Q"
            },
            XK_UPPER_R => {
                proof {
                    reveal_strlit("R");
                }
                "R"
            },
            XK_UPPER_S => {
                proof {
                    reveal_strlit("S");
                }
                "S"
            },
            XK_UPPER_T => {
                proof {
                    reveal_strlit("T");
                }
                "T"
            },
            XK_UPPER_U => {
                proof {
                    reveal_strlit("U");
                }
                "U"
            },
            XK_UPPER_V => {
                proof {
                    reveal_strlit("V");
                }
                "V"
            },
            XK_UPPER_W => {
                proof {
                    reveal_strlit("W");
                }
                "W"
            },
            XK_UPPER_X => {
                proof {
                    reveal_strlit("X");
                }
                "X"
            },
            XK_UPPER_Y => {
                proof {
                    reveal_strlit("Y");
                }
                "Y"
            },
            XK_UPPER_Z => {
                proof {
                    reveal_strlit("Z");
                }
                "Z"
            },
            XK_LOWER_A => {
                proof {
                    reveal_strlit("a");
                }
                "a"
            },
            XK_LOWER_B => {
                proof {
                    reveal_strlit("b");
                }
                "b"
            },
            XK_LOWER_C => {
                proof {
                    reveal_strlit("c");
                }
                "c"
            },
            XK_LOWER_D => {
                proof {
                    reveal_strlit("d");
                }
                "d"
            },
            XK_LOWER_E => {
                proof {
                    reveal_strlit("e");
                }
                "e"
            },
            XK_LOWER_F => {
                proof {
                    reveal_strlit("f");
                }
                "f"
            },
            XK_LOWER_G => {
                proof {
                    reveal_strlit("g");
                }
                "g"
            },
            XK_LOWER_H => {
                proof {
                    reveal_strlit("h");
                }
                "h"
            },
            XK_LOWER_I => {
                proof {
                    reveal_strlit("i");
                }
                "i"
            },
            XK_LOWER_J => {
                proof {
                    reveal_strlit("j");
                }
                "j"
            },
            XK_LOWER_K => {
                proof {
                    reveal_strlit("k");
                }
                "k"
            },
            XK_LOWER_L => {
                proof {
                    reveal_strlit("l");
                }
                "l"
            },
            XK_LOWER_M => {
                proof {
                    reveal_strlit("m");
                }
                "m"
            },
            XK_LOWER_N => {
                proof {
                    reveal_strlit("n");
                }
                "n"
            },
            XK_LOWER_O => {
                proof {
                    reveal_strlit("o");
                }
                "o"
            },
            XK_LOWER_P => {
                proof {
                    reveal_strlit("p");
                }
                "p"
            },
            XK_LOWER_Q => {
                proof {
                    reveal_strlit("q");
                }
                "q"
            },
            XK_LOWER_R => {
                proof {
                    reveal_strlit("r");
                }
                "r"
            },
            XK_LOWER_S => {
                proof {
                    reveal_strlit("s");
                }
                "s"
            },
            XK_LOWER_T => {
                proof {
                    reveal_strlit("t");
                }
                "t"
            },
            XK_LOWER_U => {
                proof {
                    reveal_strlit("u");
                }
                "u"
            },
            XK_LOWER_V => {
                proof {
                    reveal_strlit("v");
                }
                "v"
            },
            XK_LOWER_W => {
                proof {
                    reveal_strlit("w");
                }
                "w"
            },
            XK_LOWER_X => {
                proof {
                    reveal_strlit("x");
                }
                "x"
            },
            XK_LOWER_Y => {
                proof {
                    reveal_strlit("y");
                }
                "y"
            },
            XK_LOWER_Z => {
                proof {
                    reveal_strlit("z");
                }
                "z"
            },
            _ => {
                proof {
                    reveal_strlit("");
                }
                ""
            },
        }
    }
}

/// Whether `keysym` is that of the Escape key.
pub fn is_escape(keysym: u32) -> (r: bool)
    ensures
        r == (keysym == XK_ESCAPE),
{
    XK_ESCAPE == keysym
}

/// Whether `keysym` is that of the Return key.
pub fn is_return(keysym: u32) -> (r: bool)
    ensures
        r == (keysym == XK_RETURN),
{
    XK_RETURN == keysym
}

/// Whether `keysym` is that of the BackSpace key.
pub fn is_backspace(keysym: u32) -> (r: bool)
    ensures
        r == (keysym == XK_BACKSPACE),
{
    XK_BACKSPACE == keysym
}

/// Whether `keysym` is that of the Left arrow key.
pub fn is_left(keysym: u32) -> (r: bool)
    ensures
        r == (keysym == XK_LEFT),
{
    XK_LEFT == keysym
}

/// Whether `keysym` is that of the Right arrow key.
pub fn is_right(keysym: u32) -> (r: bool)
    ensures
        r == (keysym == XK_RIGHT),
{
    XK_RIGHT == keysym
}

} // verus!
