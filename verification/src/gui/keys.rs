//! Linux keycodes to characters and calculator keys; decimal rendering.
use vstd::prelude::*;

verus! {

/// The bottom letter row, which is not a contiguous run of keycodes.
pub open spec fn bottom_row(i: int) -> char {
    if i == 0 {
        'z'
    } else if i == 1 {
        'x'
    } else if i == 2 {
        'c'
    } else if i == 3 {
        'v'
    } else if i == 4 {
        'b'
    } else if i == 5 {
        'n'
    } else {
        'm'
    }
}

/// The printable character of a key press, for the keys the client handles.
pub open spec fn key_char_spec(code: u8) -> Option<char> {
    if 2 <= code <= 10 {
        Some((('1' as u8) + code - 2) as char)
    } else if code == 11 {
        Some('0')
    } else if 16 <= code <= 25 {
        Some(qwerty_top(code - 16))
    } else if 30 <= code <= 38 {
        Some(qwerty_middle(code - 30))
    } else if 44 <= code <= 50 {
        Some(bottom_row(code - 44))
    } else if code == 57 {
        Some(' ')
    } else {
        None
    }
}

/// The top letter row: keycodes 16..=25 are q w e r t y u i o p.
pub open spec fn qwerty_top(i: int) -> char {
    if i == 0 { 'q' } else if i == 1 { 'w' } else if i == 2 { 'e' } else if i == 3 { 'r' }
    else if i == 4 { 't' } else if i == 5 { 'y' } else if i == 6 { 'u' } else if i == 7 { 'i' }
    else if i == 8 { 'o' } else { 'p' }
}

/// The middle letter row: keycodes 30..=38 are a s d f g h j k l.
pub open spec fn qwerty_middle(i: int) -> char {
    if i == 0 { 'a' } else if i == 1 { 's' } else if i == 2 { 'd' } else if i == 3 { 'f' }
    else if i == 4 { 'g' } else if i == 5 { 'h' } else if i == 6 { 'j' } else if i == 7 { 'k' }
    else { 'l' }
}

/// Linux keycode to printable character.
pub fn key_char(code: u8) -> (c: Option<char>)
    ensures
        c == key_char_spec(code),
{
    if 2 <= code && code <= 10 {
        let digit = ('1' as u8) + code - 2;
        Some(digit as char)
    } else if code == 11 {
        Some('0')
    } else if 16 <= code && code <= 25 {
        let letters: [char; 10] = ['q', 'w', 'e', 'r', 't', 'y', 'u', 'i', 'o', 'p'];
        Some(letters[(code - 16) as usize])
    } else if 30 <= code && code <= 38 {
        let letters: [char; 9] = ['a', 's', 'd', 'f', 'g', 'h', 'j', 'k', 'l'];
        Some(letters[(code - 30) as usize])
    } else if 44 <= code && code <= 50 {
        let letters: [char; 7] = ['z', 'x', 'c', 'v', 'b', 'n', 'm'];
        Some(letters[(code - 44) as usize])
    } else if code == 57 {
        Some(' ')
    } else {
        None
    }
}

/// Keypad scancodes to calculator keys.
pub open spec fn keypad_spec(code: u64) -> Option<u8> {
    if code == 71 { Some('7' as u8) } else if code == 72 { Some('8' as u8) }
    else if code == 73 { Some('9' as u8) } else if code == 74 { Some('-' as u8) }
    else if code == 75 { Some('4' as u8) } else if code == 76 { Some('5' as u8) }
    else if code == 77 { Some('6' as u8) } else if code == 78 { Some('+' as u8) }
    else if code == 79 { Some('1' as u8) } else if code == 80 { Some('2' as u8) }
    else if code == 81 { Some('3' as u8) } else if code == 82 { Some('0' as u8) }
    else if code == 83 { Some('.' as u8) } else if code == 96 { Some('=' as u8) }
    else { None }
}

pub fn keypad(code: u64) -> (key: Option<u8>)
    ensures
        key == keypad_spec(code),
{
    match code {
        71 => Some(('7' as u8)),
        72 => Some(('8' as u8)),
        73 => Some(('9' as u8)),
        74 => Some(('-' as u8)),
        75 => Some(('4' as u8)),
        76 => Some(('5' as u8)),
        77 => Some(('6' as u8)),
        78 => Some(('+' as u8)),
        79 => Some(('1' as u8)),
        80 => Some(('2' as u8)),
        81 => Some(('3' as u8)),
        82 => Some(('0' as u8)),
        83 => Some(('.' as u8)),
        96 => Some(('=' as u8)),
        _ => None,
    }
}

/// Main-row digit keys.
pub fn digit_char(code: u64) -> (key: Option<u8>)
    ensures
        key == (if 2 <= code <= 10 {
            Some(('1' as u8 + code - 2) as u8)
        } else if code == 11 {
            Some('0' as u8)
        } else {
            None
        }),
{
    if 2 <= code && code <= 10 {
        Some(('1' as u8) + (code - 2) as u8)
    } else if code == 11 {
        Some(('0' as u8))
    } else {
        None
    }
}

/// The decimal digits of `v`, most significant first, with no leading zero
/// (`0` is the single digit `0`).
pub open spec fn decimal(v: nat) -> Seq<u8>
    decreases v,
{
    if v < 10 {
        seq![('0' as u8 + v) as u8]
    } else {
        decimal(v / 10).push(('0' as u8 + v % 10) as u8)
    }
}

/// Render `value` in decimal.
pub fn u32_to_str(value: u32) -> (digits: Vec<u8>)
    ensures
        digits@ == decimal(value as nat),
{
    let mut rest = value;
    let mut reversed: Vec<u8> = Vec::new();
    // digits of `value` collected least significant first
    loop
        invariant_except_break
            rest > 0 || reversed@.len() == 0,
            decimal(value as nat) == decimal(rest as nat) + reversed@.reverse(),
        ensures
            decimal(value as nat) == reversed@.reverse(),
        decreases rest,
    {
        if rest < 10 {
            reversed.push(('0' as u8) + rest as u8);
            proof {
                assert(reversed@.reverse() =~= decimal(rest as nat) + reversed@.drop_last().reverse());
            }
            break;
        }
        let digit = ('0' as u8) + (rest % 10) as u8;
        reversed.push(digit);
        proof {
            assert(decimal(rest as nat) == decimal((rest / 10) as nat).push(digit));
            assert(reversed@.reverse() =~= seq![digit] + reversed@.drop_last().reverse());
            assert(decimal(rest as nat) + reversed@.drop_last().reverse() =~= decimal((rest / 10) as nat) + reversed@.reverse());
        }
        rest = rest / 10;
    }
    let mut digits: Vec<u8> = Vec::new();
    let mut i: usize = reversed.len();
    while i > 0
        invariant
            i <= reversed@.len(),
            digits@ == reversed@.reverse().take((reversed@.len() - i) as int),
        decreases i,
    {
        i = i - 1;
        digits.push(reversed[i]);
        assert(digits@ =~= reversed@.reverse().take((reversed@.len() - i) as int));
    }
    assert(digits@ =~= reversed@.reverse());
    digits
}

} // verus!
