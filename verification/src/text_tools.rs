//! Small text formatters for the terminal readout: direction glyphs,
//! gauges, bit masks, and fixed-point numbers rendered by hand.
//!
//! Each formatter's contract states the exact character sequence it
//! yields, over ghost mirrors of the same composition.

use vstd::prelude::*;
use rand::seq::IteratorRandom;

verus! {

use vstd::math::abs;
use crate::functions::tdiv;
use crate::functions::clamped;
use crate::functions::clamp_i64;
use crate::functions::div_trunc;
use crate::functions::lemma_tdiv_magnitude;
use crate::zgicabra::Direction;
use crate::zgicabra::Joystick;
use crate::zgicabra::Wand;
use crate::hydra::ControllerFrame;

//
// Ghost mirrors
//

/// The three-character glyph of a direction.
pub open spec fn dir_chars(d: Direction) -> Seq<char> {
    match d {
        Direction::Neutral => "(·)"@,
        Direction::Up => "(↑)"@,
        Direction::UpRight => "(↗)"@,
        Direction::Right => "(→)"@,
        Direction::DownRight => "(↘)"@,
        Direction::Down => "(↓)"@,
        Direction::DownLeft => "(↙)"@,
        Direction::Left => "(←)"@,
        Direction::UpLeft => "(↖)"@,
    }
}

/// The glyph of a joystick: a filled dot while clicked, the octant
/// arrow otherwise.
pub open spec fn stick_chars(stick: Joystick) -> Seq<char> {
    if stick.clicked {
        "(⬤)"@
    } else {
        dir_chars(stick.octant)
    }
}

/// The one-character gauge of a unit-interval fixed-point level,
/// bucketed into eighths.
pub open spec fn gauge_chars(x: int) -> Seq<char> {
    let y = clamped(tdiv(x * 8, 1000), 0, 255);
    if y == 0 {
        " "@
    } else if y == 1 {
        "▁"@
    } else if y == 2 {
        "▂"@
    } else if y == 3 {
        "▃"@
    } else if y == 4 {
        "▄"@
    } else if y == 5 {
        "▅"@
    } else if y == 6 {
        "▆"@
    } else if y == 7 {
        "▇"@
    } else if y == 8 {
        "█"@
    } else {
        "X"@
    }
}

/// The `n`-character bar of a unit-interval fixed-point level: cell
/// `i` is filled while `x` exceeds `i / n`.
pub open spec fn bar_chars(x: int, n: int) -> Seq<char> {
    Seq::new(
        n as nat,
        |i: int|
            if x * n > 1000 * i {
                '█'
            } else {
                '░'
            },
    )
}

/// The eight-character readout of the low byte of a button mask.
pub open spec fn mask_chars(x: u32) -> Seq<char> {
    Seq::new(
        8,
        |i: int|
            if x & (1u32 << (i as u32)) != 0 {
                '•'
            } else {
                '◦'
            },
    )
}

/// The character of one decimal digit.
pub open spec fn digit_char(d: int) -> char {
    if d == 0 {
        '0'
    } else if d == 1 {
        '1'
    } else if d == 2 {
        '2'
    } else if d == 3 {
        '3'
    } else if d == 4 {
        '4'
    } else if d == 5 {
        '5'
    } else if d == 6 {
        '6'
    } else if d == 7 {
        '7'
    } else if d == 8 {
        '8'
    } else {
        '9'
    }
}

/// The decimal digits of a nonnegative integer, most significant
/// first.
pub open spec fn dec_chars(n: int) -> Seq<char>
    decreases n,
{
    if n < 10 {
        seq![digit_char(n)]
    } else {
        dec_chars(n / 10).push(digit_char(n % 10))
    }
}

/// A fixed-point milli-unit value rendered as a signed decimal with
/// three fractional digits.
pub open spec fn fixed_chars(v: int) -> Seq<char> {
    let m = (abs(v) % 1000) as int;
    (if v < 0 {
        "-"@
    } else {
        Seq::<char>::empty()
    }) + dec_chars((abs(v) / 1000) as int) + "."@ + seq![
        digit_char(m / 100),
        digit_char((m / 10) % 10),
        digit_char(m % 10),
    ]
}

//
// Executable formatters
//

/// The glyph of a direction.
pub fn minidir(d: Direction) -> (s: String)
    ensures
        s@ == dir_chars(d),
{
    match d {
        Direction::Neutral => String::from_str("(·)"),
        Direction::Up => String::from_str("(↑)"),
        Direction::UpRight => String::from_str("(↗)"),
        Direction::Right => String::from_str("(→)"),
        Direction::DownRight => String::from_str("(↘)"),
        Direction::Down => String::from_str("(↓)"),
        Direction::DownLeft => String::from_str("(↙)"),
        Direction::Left => String::from_str("(←)"),
        Direction::UpLeft => String::from_str("(↖)"),
    }
}

/// The glyph of a joystick.
pub fn ministick(stick: Joystick) -> (s: String)
    ensures
        s@ == stick_chars(stick),
{
    if stick.clicked {
        String::from_str("(⬤)")
    } else {
        minidir(stick.octant)
    }
}

/// The one-character gauge of a fixed-point level.
pub fn minigauge(x: i64) -> (s: String)
    requires
        -1_000_000_000_000 <= x <= 1_000_000_000_000,
    ensures
        s@ == gauge_chars(x as int),
{
    proof {
        lemma_tdiv_magnitude(x * 8, 1000);
    }
    let y = clamp_i64(div_trunc(x * 8, 1000), 0, 255);
    if y == 0 {
        String::from_str(" ")
    } else if y == 1 {
        String::from_str("▁")
    } else if y == 2 {
        String::from_str("▂")
    } else if y == 3 {
        String::from_str("▃")
    } else if y == 4 {
        String::from_str("▄")
    } else if y == 5 {
        String::from_str("▅")
    } else if y == 6 {
        String::from_str("▆")
    } else if y == 7 {
        String::from_str("▇")
    } else if y == 8 {
        String::from_str("█")
    } else {
        String::from_str("X")
    }
}

/// The `n`-cell bar of a fixed-point level.
pub fn minibar(x: i64, n: u8) -> (s: String)
    requires
        -1_000_000_000 <= x <= 1_000_000_000,
    ensures
        s@ == bar_chars(x as int, n as int),
{
    let mut s = String::from_str("");
    proof {
        reveal_strlit("");
        assert(s@ =~= bar_chars(x as int, n as int).take(0));
    }
    let mut i: u8 = 0;
    while i < n
        invariant
            i <= n,
            -1_000_000_000 <= x <= 1_000_000_000,
            s@ == bar_chars(x as int, n as int).take(i as int),
        decreases n - i,
    {
        proof {
            assert(-255_000_000_000 <= x * (n as i64) <= 255_000_000_000) by (nonlinear_arith)
                requires
                    -1_000_000_000 <= x <= 1_000_000_000,
                    0 <= n <= 255,
            ;
        }
        if x * (n as i64) > 1000 * (i as i64) {
            s.append("█");
            proof {
                reveal_strlit("█");
                assert("█"@ =~= seq!['█']);
            }
        } else {
            s.append("░");
            proof {
                reveal_strlit("░");
                assert("░"@ =~= seq!['░']);
            }
        }
        proof {
            assert(s@ =~= bar_chars(x as int, n as int).take(i + 1));
        }
        i += 1;
    }
    proof {
        assert(bar_chars(x as int, n as int).take(n as int) =~= bar_chars(x as int, n as int));
    }
    s
}

/// The eight-character readout of a button mask's low byte.
pub fn minimask(x: u32) -> (s: String)
    ensures
        s@ == mask_chars(x),
{
    let mut s = String::from_str("");
    proof {
        reveal_strlit("");
        assert(s@ =~= mask_chars(x).take(0));
    }
    let mut i: u32 = 0;
    while i < 8
        invariant
            i <= 8,
            s@ == mask_chars(x).take(i as int),
        decreases 8 - i,
    {
        if x & (1u32 << i) != 0 {
            s.append("•");
            proof {
                reveal_strlit("•");
                assert("•"@ =~= seq!['•']);
            }
        } else {
            s.append("◦");
            proof {
                reveal_strlit("◦");
                assert("◦"@ =~= seq!['◦']);
            }
        }
        proof {
            assert(s@ =~= mask_chars(x).take(i + 1));
        }
        i += 1;
    }
    proof {
        assert(mask_chars(x).take(8) =~= mask_chars(x));
    }
    s
}

/// Append one decimal digit's character.
fn append_digit(s: &mut String, d: u64)
    requires
        d < 10,
    ensures
        final(s)@ == old(s)@ + seq![digit_char(d as int)],
{
    if d == 0 {
        s.append("0");
        proof {
            reveal_strlit("0");
            assert("0"@ =~= seq!['0']);
        }
    } else if d == 1 {
        s.append("1");
        proof {
            reveal_strlit("1");
            assert("1"@ =~= seq!['1']);
        }
    } else if d == 2 {
        s.append("2");
        proof {
            reveal_strlit("2");
            assert("2"@ =~= seq!['2']);
        }
    } else if d == 3 {
        s.append("3");
        proof {
            reveal_strlit("3");
            assert("3"@ =~= seq!['3']);
        }
    } else if d == 4 {
        s.append("4");
        proof {
            reveal_strlit("4");
            assert("4"@ =~= seq!['4']);
        }
    } else if d == 5 {
        s.append("5");
        proof {
            reveal_strlit("5");
            assert("5"@ =~= seq!['5']);
        }
    } else if d == 6 {
        s.append("6");
        proof {
            reveal_strlit("6");
            assert("6"@ =~= seq!['6']);
        }
    } else if d == 7 {
        s.append("7");
        proof {
            reveal_strlit("7");
            assert("7"@ =~= seq!['7']);
        }
    } else if d == 8 {
        s.append("8");
        proof {
            reveal_strlit("8");
            assert("8"@ =~= seq!['8']);
        }
    } else {
        s.append("9");
        proof {
            reveal_strlit("9");
            assert("9"@ =~= seq!['9']);
        }
    }
}

/// Append the decimal digits of `n`, most significant first.
fn append_dec(s: &mut String, n: u64)
    ensures
        final(s)@ == old(s)@ + dec_chars(n as int),
    decreases n,
{
    if n < 10 {
        append_digit(s, n);
    } else {
        proof {
            vstd::arithmetic::div_mod::lemma_div_decreases(n as int, 10);
            vstd::arithmetic::div_mod::lemma_div_pos_is_pos(n as int, 10);
        }
        append_dec(s, n / 10);
        append_digit(s, n % 10);
        proof {
            assert(old(s)@ + dec_chars((n / 10) as int) + seq![digit_char((n % 10) as int)] =~= old(
                s,
            )@ + dec_chars(n as int));
        }
    }
}

/// Append a fixed-point milli-unit value as a signed decimal with
/// three fractional digits.
fn append_fixed(s: &mut String, v: i64)
    requires
        -1_000_000_000_000 <= v <= 1_000_000_000_000,
    ensures
        final(s)@ == old(s)@ + fixed_chars(v as int),
{
    let ghost s0 = s@;
    let a: u64 = if v < 0 {
        s.append("-");
        proof {
            reveal_strlit("-");
            assert("-"@ =~= seq!['-']);
        }
        (-v) as u64
    } else {
        (v) as u64
    };
    proof {
        assert(a == abs(v as int));
    }
    append_dec(s, a / 1000);
    s.append(".");
    proof {
        reveal_strlit(".");
        assert("."@ =~= seq!['.']);
    }
    let m = a % 1000;
    append_digit(s, m / 100);
    append_digit(s, (m / 10) % 10);
    append_digit(s, m % 10);
    proof {
        assert(s@ =~= s0 + fixed_chars(v as int));
    }
}

/// The full one-line readout of one frame.
pub open spec fn frame_chars(f: ControllerFrame) -> Seq<char> {
    bar_chars(f.joystick_x as int, 4) + "/"@ + bar_chars(f.joystick_y as int, 4) + ":|"@
        + mask_chars(f.buttons) + "|:"@ + gauge_chars(f.trigger as int) + ":[ "@ + fixed_chars(
        f.pos.x as int,
    ) + " "@ + fixed_chars(f.pos.y as int) + " "@ + fixed_chars(f.pos.z as int) + " | "@
        + fixed_chars(f.rot_quat.x as int) + " "@ + fixed_chars(f.rot_quat.y as int) + " "@
        + fixed_chars(f.rot_quat.z as int) + " "@ + fixed_chars(f.rot_quat.w as int) + " ]"@
}

/// Format a frame, or note that none has arrived yet.
pub fn format_frame(maybe_frame: Option<&ControllerFrame>) -> (s: String)
    requires
        maybe_frame matches Some(f) ==> crate::hydra::frame_wf(*f),
    ensures
        match maybe_frame {
            None => s@ == "No Data"@,
            Some(f) => s@ == frame_chars(*f),
        },
{
    match maybe_frame {
        None => String::from_str("No Data"),
        Some(frame) => {
            let mut s = minibar(frame.joystick_x, 4);
            s.append("/");
            let b2 = minibar(frame.joystick_y, 4);
            s.append(b2.as_str());
            s.append(":|");
            let mk = minimask(frame.buttons);
            s.append(mk.as_str());
            s.append("|:");
            let g = minigauge(frame.trigger);
            s.append(g.as_str());
            s.append(":[ ");
            append_fixed(&mut s, frame.pos.x);
            s.append(" ");
            append_fixed(&mut s, frame.pos.y);
            s.append(" ");
            append_fixed(&mut s, frame.pos.z);
            s.append(" | ");
            append_fixed(&mut s, frame.rot_quat.x);
            s.append(" ");
            append_fixed(&mut s, frame.rot_quat.y);
            s.append(" ");
            append_fixed(&mut s, frame.rot_quat.z);
            s.append(" ");
            append_fixed(&mut s, frame.rot_quat.w);
            s.append(" ]");
            proof {
                assert(s@ =~= frame_chars(*frame));
            }
            s
        },
    }
}

/// The full one-line readout of one wand.
pub open spec fn wand_chars(w: Wand) -> Seq<char> {
    stick_chars(w.stick) + "▕"@ + gauge_chars(w.trigger as int) + "▏]"@ + (if w.bumper {
        "█"@
    } else {
        "░"@
    }) + "[ -"@ + (if w.home {
        "H"@
    } else {
        "░"@
    }) + "-"@ + (if w.buttons.b0 {
        "1"@
    } else {
        "░"@
    }) + (if w.buttons.b1 {
        "2"@
    } else {
        "░"@
    }) + (if w.buttons.b2 {
        "3"@
    } else {
        "░"@
    }) + (if w.buttons.b3 {
        "4"@
    } else {
        "░"@
    }) + "-"@
}

/// Format a wand's glyph line: stick, trigger gauge, bumper, home and
/// the four logical buttons.
pub fn format_wand(wand: &Wand) -> (s: String)
    requires
        -1_000_000_000_000 <= wand.trigger <= 1_000_000_000_000,
    ensures
        s@ == wand_chars(*wand),
{
    let mut s = ministick(wand.stick);
    s.append("▕");
    let g = minigauge(wand.trigger);
    s.append(g.as_str());
    s.append("▏]");
    s.append(if wand.bumper {
        "█"
    } else {
        "░"
    });
    s.append("[ -");
    s.append(if wand.home {
        "H"
    } else {
        "░"
    });
    s.append("-");
    s.append(if wand.buttons.b0 {
        "1"
    } else {
        "░"
    });
    s.append(if wand.buttons.b1 {
        "2"
    } else {
        "░"
    });
    s.append(if wand.buttons.b2 {
        "3"
    } else {
        "░"
    });
    s.append(if wand.buttons.b3 {
        "4"
    } else {
        "░"
    });
    s.append("-");
    proof {
        assert(s@ =~= wand_chars(*wand));
    }
    s
}

/// The two-character name of a pitch class, sharps included.
pub open spec fn note_name_chars(pc: int) -> Seq<char> {
    if pc == 0 {
        "C "@
    } else if pc == 1 {
        "C#"@
    } else if pc == 2 {
        "D "@
    } else if pc == 3 {
        "D#"@
    } else if pc == 4 {
        "E "@
    } else if pc == 5 {
        "F "@
    } else if pc == 6 {
        "F#"@
    } else if pc == 7 {
        "G "@
    } else if pc == 8 {
        "G#"@
    } else if pc == 9 {
        "A "@
    } else if pc == 10 {
        "A#"@
    } else {
        "B "@
    }
}

/// A note number with its pitch-class name, as `60 [C ]`.
pub fn format_note(n: u8) -> (s: String)
    ensures
        s@ == dec_chars(n as int) + " ["@ + note_name_chars((n as int) % 12) + "]"@,
{
    let ghost goal = dec_chars(n as int) + " ["@ + note_name_chars((n as int) % 12) + "]"@;
    let mut s = String::from_str("");
    proof {
        reveal_strlit("");
        assert(s@ =~= Seq::<char>::empty());
    }
    append_dec(&mut s, n as u64);
    s.append(" [");
    let pc = n % 12;
    s.append(
        if pc == 0 {
            "C "
        } else if pc == 1 {
            "C#"
        } else if pc == 2 {
            "D "
        } else if pc == 3 {
            "D#"
        } else if pc == 4 {
            "E "
        } else if pc == 5 {
            "F "
        } else if pc == 6 {
            "F#"
        } else if pc == 7 {
            "G "
        } else if pc == 8 {
            "G#"
        } else if pc == 9 {
            "A "
        } else if pc == 10 {
            "A#"
        } else {
            "B "
        },
    );
    s.append("]");
    proof {
        assert(s@ =~= goal);
    }
    s
}

//
// Barcode decoration
//

/// Whether a character belongs to the barcode alphabet.
pub open spec fn barcode_char(c: char) -> bool {
    ||| c == ' '
    ||| c == '│'
    ||| c == '║'
    ||| c == '┃'
    ||| c == '▌'
    ||| c == '▐'
    ||| c == '▕'
    ||| c == '█'
    ||| c == '▊'
    ||| c == '▋'
    ||| c == '▍'
    ||| c == '▎'
    ||| c == '▏'
}

/// Relies on rand's `rng` and `IteratorRandom::choose`: choosing from
/// a nonempty array always yields one of its elements, so every
/// outcome is a one-character glyph of the fixed barcode alphabet;
/// the solid variant is always the full block.
#[verifier::external_body]
fn rand_barcode_char_as_str(solid: bool) -> (c: &'static str)
    ensures
        c@.len() == 1,
        barcode_char(c@[0]),
        solid ==> c@[0] == '█',
{
    if !solid {
        let glyphs = [" ", "│", "║", "┃", "▌", "▐", "▕", "█", "▊", "▋", "▌", "▍", "▎", "▏"];
        glyphs.iter().choose(&mut rand::rng()).copied().unwrap_or("█")
    } else {
        "█"
    }
}

/// A decorative barcode line of `len` glyphs: random bars, or solid
/// blocks.
pub fn barcode_string(len: usize, solid: bool) -> (s: String)
    ensures
        s@.len() == len,
        forall|i: int| 0 <= i < len ==> barcode_char(#[trigger] s@[i]),
        solid ==> forall|i: int| 0 <= i < len ==> s@[i] == '█',
{
    let mut s = String::from_str("");
    proof {
        reveal_strlit("");
        assert(s@.len() == 0);
    }
    let mut i: usize = 0;
    while i < len
        invariant
            i <= len,
            s@.len() == i,
            forall|k: int| 0 <= k < i ==> barcode_char(#[trigger] s@[k]),
            solid ==> forall|k: int| 0 <= k < i ==> s@[k] == '█',
        decreases len - i,
    {
        s.append(rand_barcode_char_as_str(solid));
        i += 1;
    }
    s
}

} // verus!
