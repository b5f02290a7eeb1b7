//! The on-screen keyboard's logic: the key layout of each layer, the
//! shift / caps-latch / layer state machine, and the SHIFT LED.
//!
//! The layout is the typewriter staircase: the letter rows step right by a
//! quarter key; SHIFT and the layer key below it form a flush-left rail;
//! BKSP tops the number row and ↵ ends the home row at the right wall; the
//! space bar sits centered in the span right of the layer key. All metrics
//! are whole logical pixels.

use crate::text::push_char;
use vstd::prelude::*;

verus! {

/// What the deck hands to the application.
#[derive(Debug, Clone, Copy, PartialEq, Eq, Structural)]
pub enum OskEvent {
    Char(char),
    Backspace,
    Enter,
}

#[derive(Debug, Clone, Copy, PartialEq, Eq, Structural)]
pub enum KeyKind {
    Normal,
    Modifier,
    Space,
}

#[derive(Debug, Clone, Copy, PartialEq, Eq, Structural)]
pub enum KeyAction {
    Char(char),
    Backspace,
    Enter,
    ToggleShift,
    ToggleLayer,
}

/// One keycap: its legend, position and width (logical px), kind and action.
#[derive(Debug)]
pub struct KeyDef {
    pub label: String,
    pub x: u32,
    pub y: u32,
    pub w: u32,
    pub kind: KeyKind,
    pub action: KeyAction,
}

pub struct SpecKeyDef {
    pub label: Seq<char>,
    pub x: int,
    pub y: int,
    pub w: int,
    pub kind: KeyKind,
    pub action: KeyAction,
}

impl View for KeyDef {
    type V = SpecKeyDef;

    open spec fn view(&self) -> SpecKeyDef {
        SpecKeyDef {
            label: self.label@,
            x: self.x as int,
            y: self.y as int,
            w: self.w as int,
            kind: self.kind,
            action: self.action,
        }
    }
}

pub const KEY_W: u32 = 66;

pub const KEY_H: u32 = 62;

pub const GAP: u32 = 6;

/// BKSP and the layer key.
pub const MOD_W: u32 = 96;

/// SHIFT: wider than a letter, narrow enough that Z lands in the A–S gap.
pub const SHIFT_W: u32 = 78;

pub const ENTER_W: u32 = 140;

pub const SPACE_W: u32 = 480;

/// Chassis padding around the key field.
pub const PAD: u32 = 10;

/// How far the Q row and the home row start right of the number row.
pub const STAGGER_Q: u32 = 18;

pub const STAGGER_A: u32 = 36;

/// The characters of the number row and of the three letter rows, per
/// layer. The symbols layer (with the shifted number row) covers every
/// printable ASCII special the base layer cannot type.
pub open spec fn row_chars(sym: bool, row: int) -> Seq<char> {
    if !sym {
        if row == 0 {
            seq!['1', '2', '3', '4', '5', '6', '7', '8', '9', '0']
        } else if row == 1 {
            seq!['q', 'w', 'e', 'r', 't', 'y', 'u', 'i', 'o', 'p']
        } else if row == 2 {
            seq!['a', 's', 'd', 'f', 'g', 'h', 'j', 'k', 'l', ';']
        } else {
            seq!['z', 'x', 'c', 'v', 'b', 'n', 'm', ',', '.', '/']
        }
    } else {
        if row == 0 {
            seq!['!', '@', '#', '$', '%', '^', '&', '*', '(', ')']
        } else if row == 1 {
            seq!['{', '}', '[', ']', '(', ')', '<', '>', '/', '\\']
        } else if row == 2 {
            seq!['-', '_', '+', '=', ':', ';', '"', '\'', '?', '!']
        } else {
            seq!['@', '#', '$', '%', '^', '&', '*', '`', '~', '|']
        }
    }
}

fn row_chars_exec(sym: bool, row: usize) -> (r: Vec<char>)
    requires
        row < 4,
    ensures
        r@ == row_chars(sym, row as int),
{
    if !sym {
        if row == 0 {
            vec!['1', '2', '3', '4', '5', '6', '7', '8', '9', '0']
        } else if row == 1 {
            vec!['q', 'w', 'e', 'r', 't', 'y', 'u', 'i', 'o', 'p']
        } else if row == 2 {
            vec!['a', 's', 'd', 'f', 'g', 'h', 'j', 'k', 'l', ';']
        } else {
            vec!['z', 'x', 'c', 'v', 'b', 'n', 'm', ',', '.', '/']
        }
    } else {
        if row == 0 {
            vec!['!', '@', '#', '$', '%', '^', '&', '*', '(', ')']
        } else if row == 1 {
            vec!['{', '}', '[', ']', '(', ')', '<', '>', '/', '\\']
        } else if row == 2 {
            vec!['-', '_', '+', '=', ':', ';', '"', '\'', '?', '!']
        } else {
            vec!['@', '#', '$', '%', '^', '&', '*', '`', '~', '|']
        }
    }
}

/// Every character is ASCII.
pub open spec fn all_ascii(s: Seq<char>) -> bool {
    forall|i: int| 0 <= i < s.len() ==> (s[i] as u32) < 128
}

/// The legend of a character key: the character uppercased (every key
/// character is ASCII).
pub open spec fn ascii_upper(c: char) -> char {
    if 'a' <= c && c <= 'z' {
        ((c as u32) - 32) as char
    } else {
        c
    }
}

fn ascii_upper_exec(c: char) -> (r: char)
    ensures
        r == ascii_upper(c),
{
    if 'a' <= c && c <= 'z' {
        let b: u8 = (c as u32 - 32) as u8;
        b as char
    } else {
        c
    }
}

pub open spec fn char_key(c: char, x: int, y: int) -> SpecKeyDef {
    SpecKeyDef {
        label: seq![ascii_upper(c)],
        x: x,
        y: y,
        w: KEY_W as int,
        kind: KeyKind::Normal,
        action: KeyAction::Char(c),
    }
}

/// Rows sit a key height and a gap (68px) apart; keys in a row advance by
/// a key width and a gap (72px).
pub open spec fn row_y(row: int) -> int {
    PAD + 68 * row
}

/// The deck's width: the widest row (the home row with ↵) plus padding.
pub open spec fn deck_w() -> int {
    PAD + STAGGER_A + 10 * 72 + ENTER_W + PAD
}

/// The deck's height: five rows plus padding.
pub open spec fn deck_h() -> int {
    5 * KEY_H + 4 * GAP + 2 * PAD
}

/// How many keys each row holds.
pub open spec fn row_len(row: int) -> int {
    if row == 4 {
        2
    } else if row == 1 {
        10
    } else {
        11
    }
}

/// Key `j` of row `row` on a layer.
pub open spec fn spec_key(sym: bool, row: int, j: int) -> SpecKeyDef {
    let y = row_y(row);
    if row == 0 {
        if j < 10 {
            char_key(row_chars(sym, 0)[j], PAD + 72 * j, y)
        } else {
            SpecKeyDef {
                label: "BKSP"@,
                x: deck_w() - PAD - ENTER_W,
                y: y,
                w: ENTER_W as int,
                kind: KeyKind::Modifier,
                action: KeyAction::Backspace,
            }
        }
    } else if row == 1 {
        char_key(row_chars(sym, 1)[j], PAD + STAGGER_Q + 72 * j, y)
    } else if row == 2 {
        if j < 10 {
            char_key(row_chars(sym, 2)[j], PAD + STAGGER_A + 72 * j, y)
        } else {
            SpecKeyDef {
                label: "↵"@,
                x: PAD + STAGGER_A + 10 * 72,
                y: y,
                w: ENTER_W as int,
                kind: KeyKind::Modifier,
                action: KeyAction::Enter,
            }
        }
    } else if row == 3 {
        if j == 0 {
            SpecKeyDef {
                label: "SHIFT"@,
                x: PAD as int,
                y: y,
                w: SHIFT_W as int,
                kind: KeyKind::Modifier,
                action: KeyAction::ToggleShift,
            }
        } else {
            char_key(row_chars(sym, 3)[j - 1], PAD + SHIFT_W + GAP + 72 * (j - 1), y)
        }
    } else {
        if j == 0 {
            SpecKeyDef {
                label: if sym {
                    "ABC"@
                } else {
                    "?123"@
                },
                x: PAD as int,
                y: y,
                w: MOD_W as int,
                kind: KeyKind::Modifier,
                action: KeyAction::ToggleLayer,
            }
        } else {
            SpecKeyDef {
                label: "SPACE"@,
                x: PAD + MOD_W + GAP + (deck_w() - 2 * PAD - MOD_W - GAP - SPACE_W) / 2,
                y: y,
                w: SPACE_W as int,
                kind: KeyKind::Space,
                action: KeyAction::Char(' '),
            }
        }
    }
}

/// The layout of a layer matches [`spec_key`] key for key.
pub open spec fn layout_is(rows: Seq<Seq<SpecKeyDef>>, sym: bool) -> bool {
    &&& rows.len() == 5
    &&& forall|i: int| 0 <= i < 5 ==> (#[trigger] rows[i]).len() == row_len(i)
    &&& forall|i: int, j: int|
        0 <= i < 5 && 0 <= j < row_len(i) ==> #[trigger] rows[i][j] == spec_key(sym, i, j)
}

pub open spec fn rows_view(v: Seq<Vec<KeyDef>>) -> Seq<Seq<SpecKeyDef>> {
    v.map_values(|r: Vec<KeyDef>| r@.map_values(|k: KeyDef| k@))
}

fn char_key_exec(c: char, x: u32, y: u32) -> (r: KeyDef)
    ensures
        r@ == char_key(c, x as int, y as int),
{
    let mut label = String::new();
    push_char(&mut label, ascii_upper_exec(c));
    assert(label@ =~= seq![ascii_upper(c)]);
    KeyDef { label, x, y, w: KEY_W, kind: KeyKind::Normal, action: KeyAction::Char(c) }
}

/// Ten character keys from `x0`, a key width and a gap apart.
fn char_row(sym: bool, row: usize, x0: u32, y: u32) -> (r: Vec<KeyDef>)
    requires
        row < 4,
        x0 <= 200,
    ensures
        r@.len() == 10,
        forall|j: int|
            0 <= j < 10 ==> (#[trigger] r@[j])@ == char_key(
                row_chars(sym, row as int)[j],
                x0 + 72 * j,
                y as int,
            ),
{
    let cs = row_chars_exec(sym, row);
    let mut out: Vec<KeyDef> = Vec::new();
    let mut j: usize = 0;
    let mut x: u32 = x0;
    while j < 10
        invariant
            j <= 10,
            x0 <= 200,
            x == x0 + 72 * j,
            cs@ == row_chars(sym, row as int),
            cs@.len() == 10,
            out@.len() == j,
            forall|k: int|
                0 <= k < j ==> (#[trigger] out@[k])@ == char_key(
                    cs@[k],
                    x0 + 72 * k,
                    y as int,
                ),
        decreases 10 - j,
    {
        out.push(char_key_exec(cs[j], x, y));
        x = x + (KEY_W + GAP);
        j += 1;
    }
    out
}

/// The right edge of a row, measured from the chassis padding.
fn row_extent(r: &Vec<KeyDef>) -> (w: u32)
    requires
        r@.len() > 0,
        PAD <= r@.last().x,
        r@.last().x + r@.last().w <= 10000,
    ensures
        w == r@.last().x + r@.last().w - PAD,
{
    let k = &r[r.len() - 1];
    k.x + k.w - PAD
}

/// The key layout of a layer and the deck's (width, height): five rows,
/// every key as [`spec_key`] places it.
pub fn layout_rows(sym_layer: bool) -> (r: (Vec<Vec<KeyDef>>, (u32, u32)))
    ensures
        layout_is(rows_view(r.0@), sym_layer),
        r.1.0 == deck_w(),
        r.1.1 == deck_h(),
{
    let step = KEY_W + GAP;
    // number row; BKSP goes to the right wall once the deck width is known
    let mut r0 = char_row(sym_layer, 0, PAD, PAD);
    r0.push(
        KeyDef {
            label: "BKSP".to_string(),
            x: PAD + 10 * step,
            y: PAD,
            w: ENTER_W,
            kind: KeyKind::Modifier,
            action: KeyAction::Backspace,
        },
    );
    // Q row
    let r1 = char_row(sym_layer, 1, PAD + STAGGER_Q, PAD + (KEY_H + GAP));
    // home row, ↵ at its right end
    let y2 = PAD + 2 * (KEY_H + GAP);
    let mut r2 = char_row(sym_layer, 2, PAD + STAGGER_A, y2);
    r2.push(
        KeyDef {
            label: "↵".to_string(),
            x: PAD + STAGGER_A + 10 * step,
            y: y2,
            w: ENTER_W,
            kind: KeyKind::Modifier,
            action: KeyAction::Enter,
        },
    );
    // SHIFT on the left rail, then the bottom letter row
    let y3 = PAD + 3 * (KEY_H + GAP);
    let mut r3: Vec<KeyDef> = Vec::new();
    r3.push(
        KeyDef {
            label: "SHIFT".to_string(),
            x: PAD,
            y: y3,
            w: SHIFT_W,
            kind: KeyKind::Modifier,
            action: KeyAction::ToggleShift,
        },
    );
    let mut letters = char_row(sym_layer, 3, PAD + SHIFT_W + GAP, y3);
    r3.append(&mut letters);
    // layer key under SHIFT, the space bar to its right
    let y4 = PAD + 4 * (KEY_H + GAP);
    let mut r4: Vec<KeyDef> = Vec::new();
    r4.push(
        KeyDef {
            label: if sym_layer {
                "ABC".to_string()
            } else {
                "?123".to_string()
            },
            x: PAD,
            y: y4,
            w: MOD_W,
            kind: KeyKind::Modifier,
            action: KeyAction::ToggleLayer,
        },
    );
    r4.push(
        KeyDef {
            label: "SPACE".to_string(),
            x: PAD + MOD_W + GAP,
            y: y4,
            w: SPACE_W,
            kind: KeyKind::Space,
            action: KeyAction::Char(' '),
        },
    );
    // the deck is as wide as its widest row
    let mut content_w = row_extent(&r0);
    let w1 = row_extent(&r1);
    let w2 = row_extent(&r2);
    let w3 = row_extent(&r3);
    let w4 = row_extent(&r4);
    if w1 > content_w {
        content_w = w1;
    }
    if w2 > content_w {
        content_w = w2;
    }
    if w3 > content_w {
        content_w = w3;
    }
    if w4 > content_w {
        content_w = w4;
    }
    // the space bar centered in the span right of the layer key
    let mut space = r4.pop().unwrap();
    space.x = space.x + (content_w - MOD_W - GAP - SPACE_W) / 2;
    r4.push(space);
    // BKSP pinned to the right wall at ↵'s width
    let mut bksp = r0.pop().unwrap();
    bksp.x = PAD + content_w - ENTER_W;
    r0.push(bksp);
    let total = (content_w + 2 * PAD, 5 * KEY_H + 4 * GAP + 2 * PAD);
    assert(content_w == deck_w() - 2 * PAD);
    assert forall|j: int| 0 <= j < 11 implies (#[trigger] r0@[j])@ == spec_key(sym_layer, 0, j) by {}
    assert forall|j: int| 0 <= j < 10 implies (#[trigger] r1@[j])@ == spec_key(sym_layer, 1, j) by {}
    assert forall|j: int| 0 <= j < 11 implies (#[trigger] r2@[j])@ == spec_key(sym_layer, 2, j) by {}
    assert forall|j: int| 0 <= j < 11 implies (#[trigger] r3@[j])@ == spec_key(sym_layer, 3, j) by {}
    assert forall|j: int| 0 <= j < 2 implies (#[trigger] r4@[j])@ == spec_key(sym_layer, 4, j) by {}
    let mut rows: Vec<Vec<KeyDef>> = Vec::new();
    rows.push(r0);
    rows.push(r1);
    rows.push(r2);
    rows.push(r3);
    rows.push(r4);
    proof {
        let v = rows_view(rows@);
        assert(v.len() == 5);
        assert forall|i: int| 0 <= i < 5 implies (#[trigger] v[i]).len() == row_len(i) by {}
        assert forall|i: int, j: int| 0 <= i < 5 && 0 <= j < row_len(i) implies #[trigger] v[i][j]
            == spec_key(sym_layer, i, j) by {}
    }
    (rows, total)
}

/// The deck's layout laws: every key lies inside the deck; BKSP and ↵ are
/// ↵-wide and flush with the right wall; SHIFT and the layer key share the
/// left rail with the number row; the letter rows cascade right (1, Q, A,
/// Z) with Z inside the A–S gap; the space bar has equal air on both sides.
pub proof fn law_layout_geometry(sym: bool)
    ensures
        forall|i: int, j: int|
            0 <= i < 5 && 0 <= j < row_len(i) ==> {
                let k = #[trigger] spec_key(sym, i, j);
                &&& 0 <= k.x
                &&& k.x + k.w <= deck_w()
                &&& k.y + KEY_H <= deck_h()
            },
        spec_key(sym, 0, 10).x + spec_key(sym, 0, 10).w == deck_w() - PAD,
        spec_key(sym, 2, 10).x + spec_key(sym, 2, 10).w == deck_w() - PAD,
        spec_key(sym, 0, 10).w == ENTER_W && spec_key(sym, 2, 10).w == ENTER_W,
        spec_key(sym, 3, 0).x == spec_key(sym, 0, 0).x,
        spec_key(sym, 4, 0).x == spec_key(sym, 3, 0).x,
        spec_key(sym, 0, 0).x < spec_key(sym, 1, 0).x < spec_key(sym, 2, 0).x < spec_key(
            sym,
            3,
            1,
        ).x < spec_key(sym, 2, 1).x,
        spec_key(sym, 3, 1).x - spec_key(sym, 2, 0).x < KEY_W,
        spec_key(sym, 4, 1).x - (spec_key(sym, 4, 0).x + spec_key(sym, 4, 0).w + GAP) == (
        deck_w() - PAD) - (spec_key(sym, 4, 1).x + spec_key(sym, 4, 1).w),
{
}

/// Where a letter or digit sits on the letters layer (row, key index).
spec fn qwerty_slot(c: char) -> (int, int) {
    if c == '1' {
        (0, 0)
    } else if c == '2' {
        (0, 1)
    } else if c == '3' {
        (0, 2)
    } else if c == '4' {
        (0, 3)
    } else if c == '5' {
        (0, 4)
    } else if c == '6' {
        (0, 5)
    } else if c == '7' {
        (0, 6)
    } else if c == '8' {
        (0, 7)
    } else if c == '9' {
        (0, 8)
    } else if c == '0' {
        (0, 9)
    } else if c == 'q' {
        (1, 0)
    } else if c == 'w' {
        (1, 1)
    } else if c == 'e' {
        (1, 2)
    } else if c == 'r' {
        (1, 3)
    } else if c == 't' {
        (1, 4)
    } else if c == 'y' {
        (1, 5)
    } else if c == 'u' {
        (1, 6)
    } else if c == 'i' {
        (1, 7)
    } else if c == 'o' {
        (1, 8)
    } else if c == 'p' {
        (1, 9)
    } else if c == 'a' {
        (2, 0)
    } else if c == 's' {
        (2, 1)
    } else if c == 'd' {
        (2, 2)
    } else if c == 'f' {
        (2, 3)
    } else if c == 'g' {
        (2, 4)
    } else if c == 'h' {
        (2, 5)
    } else if c == 'j' {
        (2, 6)
    } else if c == 'k' {
        (2, 7)
    } else if c == 'l' {
        (2, 8)
    } else if c == 'z' {
        (3, 1)
    } else if c == 'x' {
        (3, 2)
    } else if c == 'c' {
        (3, 3)
    } else if c == 'v' {
        (3, 4)
    } else if c == 'b' {
        (3, 5)
    } else if c == 'n' {
        (3, 6)
    } else if c == 'm' {
        (3, 7)
    } else {
        (-1, -1)
    }
}

/// A character that the letters layer types from its own keys.
pub open spec fn is_alnum_lower(c: char) -> bool {
    ('a' <= c && c <= 'z') || ('0' <= c && c <= '9')
}

/// The letters layer types every lowercase letter and every digit, each
/// from exactly one key, whose legend is the character in upper case.
pub proof fn law_letters_layer_covers_alnum()
    ensures
        forall|c: char|
            #![trigger is_alnum_lower(c)]
            is_alnum_lower(c) ==> exists|i: int, j: int|
                0 <= i < 5 && 0 <= j < row_len(i) && #[trigger] spec_key(false, i, j).action
                    == KeyAction::Char(c) && spec_key(false, i, j).label == seq![ascii_upper(c)],
        forall|i1: int, j1: int, i2: int, j2: int|
            0 <= i1 < 5 && 0 <= j1 < row_len(i1) && 0 <= i2 < 5 && 0 <= j2 < row_len(i2)
                && #[trigger] spec_key(false, i1, j1).action == #[trigger] spec_key(
                false,
                i2,
                j2,
            ).action && (spec_key(false, i1, j1).action matches KeyAction::Char(c)
                && is_alnum_lower(c)) ==> i1 == i2 && j1 == j2,
{
    assert forall|c: char| is_alnum_lower(c) implies exists|i: int, j: int|
        0 <= i < 5 && 0 <= j < row_len(i) && #[trigger] spec_key(false, i, j).action
            == KeyAction::Char(c) && spec_key(false, i, j).label == seq![ascii_upper(c)] by {
        let (i, j) = qwerty_slot(c);
        assert(spec_key(false, i, j).action == KeyAction::Char(c));
    }
}

/// Where a printable ASCII special sits: layer, row, key index.
spec fn special_slot(c: char) -> (bool, int, int) {
    if c == '!' {
        (true, 0, 0)
    } else if c == '"' {
        (true, 2, 6)
    } else if c == '#' {
        (true, 0, 2)
    } else if c == '$' {
        (true, 0, 3)
    } else if c == '%' {
        (true, 0, 4)
    } else if c == '&' {
        (true, 0, 6)
    } else if c == '\'' {
        (true, 2, 7)
    } else if c == '(' {
        (true, 0, 8)
    } else if c == ')' {
        (true, 0, 9)
    } else if c == '*' {
        (true, 0, 7)
    } else if c == '+' {
        (true, 2, 2)
    } else if c == ',' {
        (false, 3, 8)
    } else if c == '-' {
        (true, 2, 0)
    } else if c == '.' {
        (false, 3, 9)
    } else if c == '/' {
        (false, 3, 10)
    } else if c == ':' {
        (true, 2, 4)
    } else if c == ';' {
        (false, 2, 9)
    } else if c == '<' {
        (true, 1, 6)
    } else if c == '=' {
        (true, 2, 3)
    } else if c == '>' {
        (true, 1, 7)
    } else if c == '?' {
        (true, 2, 8)
    } else if c == '@' {
        (true, 0, 1)
    } else if c == '[' {
        (true, 1, 2)
    } else if c == '\\' {
        (true, 1, 9)
    } else if c == ']' {
        (true, 1, 3)
    } else if c == '^' {
        (true, 0, 5)
    } else if c == '_' {
        (true, 2, 1)
    } else if c == '`' {
        (true, 3, 8)
    } else if c == '{' {
        (true, 1, 0)
    } else if c == '|' {
        (true, 3, 10)
    } else if c == '}' {
        (true, 1, 1)
    } else if c == '~' {
        (true, 3, 9)
    } else {
        (false, -1, -1)
    }
}

/// A printable ASCII character that is neither a letter, a digit nor the
/// space.
pub open spec fn is_ascii_special(c: char) -> bool {
    '!' <= c && c <= '~' && !is_alnum_lower(c) && !('A' <= c && c <= 'Z')
}

/// Between them the two layers type every printable ASCII special from a
/// key of its own, so every character a password may hold can be typed
/// on the deck (capitals through SHIFT).
pub proof fn law_layers_cover_ascii_specials()
    ensures
        forall|c: char|
            #![trigger is_ascii_special(c)]
            is_ascii_special(c) ==> exists|sym: bool, i: int, j: int|
                0 <= i < 5 && 0 <= j < row_len(i) && #[trigger] spec_key(sym, i, j).action
                    == KeyAction::Char(c),
{
    assert forall|c: char| is_ascii_special(c) implies exists|sym: bool, i: int, j: int|
        0 <= i < 5 && 0 <= j < row_len(i) && #[trigger] spec_key(sym, i, j).action
            == KeyAction::Char(c) by {
        let (sym, i, j) = special_slot(c);
        assert(spec_key(sym, i, j).action == KeyAction::Char(c));
    }
}

/// SHIFT's LED: bright while the caps latch holds, dim on a one-shot
/// shift, dark otherwise.
#[derive(Debug, Clone, Copy, PartialEq, Eq, Structural)]
pub enum LedState {
    Off,
    Once,
    Latched,
}

pub open spec fn spec_shift_led(shifted: bool, latched: bool) -> LedState {
    if latched {
        LedState::Latched
    } else if shifted {
        LedState::Once
    } else {
        LedState::Off
    }
}

pub fn shift_led(shifted: bool, latched: bool) -> (r: LedState)
    ensures
        r == spec_shift_led(shifted, latched),
{
    if latched {
        LedState::Latched
    } else if shifted {
        LedState::Once
    } else {
        LedState::Off
    }
}

/// The dock tab's glyph: up while the deck is stowed ("raise"), down while
/// it shows ("stow").
pub fn tab_glyph(shown: bool) -> (r: &'static str)
    ensures
        r@ == (if shown {
            "▼"@
        } else {
            "▲"@
        }),
{
    if shown {
        "▼"
    } else {
        "▲"
    }
}

/// The first character of `char::to_uppercase` of `c`.
pub uninterp spec fn char_uppercase(c: char) -> char;

/// `char::to_uppercase`, first character (it always yields one). For an
/// ASCII character this is the ASCII uppercase; other characters follow
/// the Unicode tables, which this contract only names.
#[verifier::external_body]
fn to_uppercase_first(c: char) -> (r: char)
    ensures
        r == char_uppercase(c),
        (c as u32) < 128 ==> r == ascii_upper(c),
{
    c.to_uppercase().next().unwrap_or(c)
}

/// The deck's modifier state: one-shot shift, caps latch, symbols layer.
#[derive(Debug, Clone, Copy, PartialEq, Eq, Structural)]
pub struct DeckState {
    pub shifted: bool,
    /// caps latch: shift pressed twice stays engaged until pressed again
    pub shift_latched: bool,
    pub sym_layer: bool,
}

/// The state and what a key press does: the event it emits (if any) and
/// whether the layout must be rebuilt (a layer switch).
pub open spec fn spec_apply(st: DeckState, a: KeyAction) -> (DeckState, Option<OskEvent>, bool) {
    match a {
        KeyAction::Char(c) => {
            let out = if st.shifted || st.shift_latched {
                char_uppercase(c)
            } else {
                c
            };
            (DeckState { shifted: false, ..st }, Some(OskEvent::Char(out)), false)
        },
        KeyAction::Backspace => (st, Some(OskEvent::Backspace), false),
        KeyAction::Enter => (st, Some(OskEvent::Enter), false),
        KeyAction::ToggleShift => {
            // tap 1: one-shot · tap 2: latch · tap 3: release
            if st.shift_latched {
                (DeckState { shift_latched: false, ..st }, None, false)
            } else if st.shifted {
                (DeckState { shifted: false, shift_latched: true, ..st }, None, false)
            } else {
                (DeckState { shifted: true, ..st }, None, false)
            }
        },
        KeyAction::ToggleLayer => (DeckState { sym_layer: !st.sym_layer, ..st }, None, true),
    }
}

/// A reachable state never has the one-shot and the latch on together.
pub open spec fn deck_wf(st: DeckState) -> bool {
    !(st.shifted && st.shift_latched)
}

impl DeckState {
    /// Fresh deck: no shift, no latch, letters layer.
    pub fn new() -> (r: DeckState)
        ensures
            r == (DeckState { shifted: false, shift_latched: false, sym_layer: false }),
    {
        DeckState { shifted: false, shift_latched: false, sym_layer: false }
    }

    /// Applies a key action: returns the event to emit and whether the
    /// layout must be rebuilt.
    pub fn apply(&mut self, a: KeyAction) -> (r: (Option<OskEvent>, bool))
        ensures
            (*final(self), r.0, r.1) == spec_apply(*old(self), a),
    {
        match a {
            KeyAction::Char(c) => {
                let out = if self.shifted || self.shift_latched {
                    to_uppercase_first(c)
                } else {
                    c
                };
                if self.shifted {
                    self.shifted = false;
                }
                (Some(OskEvent::Char(out)), false)
            },
            KeyAction::Backspace => (Some(OskEvent::Backspace), false),
            KeyAction::Enter => (Some(OskEvent::Enter), false),
            KeyAction::ToggleShift => {
                if self.shift_latched {
                    self.shift_latched = false;
                } else if self.shifted {
                    self.shifted = false;
                    self.shift_latched = true;
                } else {
                    self.shifted = true;
                }
                (None, false)
            },
            KeyAction::ToggleLayer => {
                self.sym_layer = !self.sym_layer;
                (None, true)
            },
        }
    }

    /// A release on key `(ri, ki)` of `layout`: applies its action; a
    /// position outside the layout does nothing.
    pub fn press(&mut self, layout: &Vec<Vec<KeyDef>>, ri: usize, ki: usize) -> (r: (
        Option<OskEvent>,
        bool,
    ))
        ensures
            ri < layout@.len() && ki < layout@[ri as int]@.len() ==> (*final(self), r.0, r.1)
                == spec_apply(*old(self), layout@[ri as int]@[ki as int].action),
            !(ri < layout@.len() && ki < layout@[ri as int]@.len()) ==> *final(self) == *old(
                self,
            ) && r == (None::<OskEvent>, false),
    {
        if ri < layout.len() && ki < layout[ri].len() {
            let a = layout[ri][ki].action;
            self.apply(a)
        } else {
            (None, false)
        }
    }
}

/// Every key press keeps the one-shot and the latch exclusive.
pub proof fn law_apply_keeps_wf(st: DeckState, a: KeyAction)
    requires
        deck_wf(st),
    ensures
        deck_wf(spec_apply(st, a).0),
{
}

/// Three SHIFT taps bring any reachable state back (one-shot, latch,
/// release); two layer taps bring the layer back, each asking for a
/// rebuild.
pub proof fn law_shift_and_layer_cycle(st: DeckState)
    requires
        deck_wf(st),
    ensures
        spec_apply(
            spec_apply(spec_apply(st, KeyAction::ToggleShift).0, KeyAction::ToggleShift).0,
            KeyAction::ToggleShift,
        ).0 == st,
        spec_apply(spec_apply(st, KeyAction::ToggleLayer).0, KeyAction::ToggleLayer).0 == st,
        spec_apply(st, KeyAction::ToggleLayer).2,
{
}

/// A one-shot shift uppercases exactly the next character; the caps latch
/// uppercases every character until released; unshifted keys emit their
/// own character.
pub proof fn law_one_shot_and_latch(c: char, layer: bool)
    ensures
        ({
            let st = DeckState { shifted: true, shift_latched: false, sym_layer: layer };
            let (s1, e1, _) = spec_apply(st, KeyAction::Char(c));
            let (_, e2, _) = spec_apply(s1, KeyAction::Char(c));
            e1 == Some(OskEvent::Char(char_uppercase(c))) && e2 == Some(OskEvent::Char(c))
        }),
        ({
            let st = DeckState { shifted: false, shift_latched: true, sym_layer: layer };
            let (s1, e1, _) = spec_apply(st, KeyAction::Char(c));
            s1 == st && e1 == Some(OskEvent::Char(char_uppercase(c)))
        }),
{
}

/// Which palette colour a keycap's face (and its side) takes.
#[derive(Debug, Clone, Copy, PartialEq, Eq, Structural)]
pub enum CapFace {
    /// held down: flat, face and side both the pressed colour
    Pressed,
    /// a latched modifier
    Latched,
    /// an ordinary character key
    Cap,
    /// a modifier or the space bar
    Mod,
}

/// Which palette colour a keycap's legend takes.
#[derive(Debug, Clone, Copy, PartialEq, Eq, Structural)]
pub enum CapLegend {
    Pressed,
    Latched,
    Bright,
    Dim,
}

/// Which font a keycap's legend is set in.
#[derive(Debug, Clone, Copy, PartialEq, Eq, Structural)]
pub enum CapFont {
    /// character keys: bold, large
    CharBold,
    /// the enter key's arrow: larger still
    EnterGlyph,
    /// other modifiers: small monospace
    ModSmall,
}

/// How one keycap is drawn: face, legend colour and font.
pub open spec fn spec_keycap_style(pressed: bool, latched: bool, kind: KeyKind, action: KeyAction) -> (
    CapFace,
    CapLegend,
    CapFont,
) {
    let face = if pressed {
        CapFace::Pressed
    } else if latched {
        CapFace::Latched
    } else if kind == KeyKind::Normal {
        CapFace::Cap
    } else {
        CapFace::Mod
    };
    let is_enter = action == KeyAction::Enter;
    let legend = if pressed {
        CapLegend::Pressed
    } else if latched {
        CapLegend::Latched
    } else if kind == KeyKind::Normal || is_enter {
        CapLegend::Bright
    } else {
        CapLegend::Dim
    };
    let font = if kind == KeyKind::Normal {
        CapFont::CharBold
    } else if is_enter {
        CapFont::EnterGlyph
    } else {
        CapFont::ModSmall
    };
    (face, legend, font)
}

/// The style of a keycap from its state and kind (see [`spec_keycap_style`]).
pub fn keycap_style(pressed: bool, latched: bool, kind: KeyKind, action: KeyAction) -> (r: (
    CapFace,
    CapLegend,
    CapFont,
))
    ensures
        r == spec_keycap_style(pressed, latched, kind, action),
{
    let is_normal = match kind {
        KeyKind::Normal => true,
        _ => false,
    };
    let is_enter = match action {
        KeyAction::Enter => true,
        _ => false,
    };
    let face = if pressed {
        CapFace::Pressed
    } else if latched {
        CapFace::Latched
    } else if is_normal {
        CapFace::Cap
    } else {
        CapFace::Mod
    };
    let legend = if pressed {
        CapLegend::Pressed
    } else if latched {
        CapLegend::Latched
    } else if is_normal || is_enter {
        CapLegend::Bright
    } else {
        CapLegend::Dim
    };
    let font = if is_normal {
        CapFont::CharBold
    } else if is_enter {
        CapFont::EnterGlyph
    } else {
        CapFont::ModSmall
    };
    (face, legend, font)
}

} // verus!
