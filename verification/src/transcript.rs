//! The transcript encoder: the extracted note sequence rendered as two
//! ASCII texts. The letter text maps each playable key to an upper-case
//! letter and follows every note with a separator chosen from the note's
//! delay (`" - "` past 50 ms up to 700 ms, `" / "` past 700 ms up to
//! 2000 ms, a blank line past 2000 ms). The phone text is the lower-case
//! letter transcription passed through a fixed character substitution
//! table that turns each letter into a signed digit.

use vstd::prelude::*;

use crate::events::Event;

verus! {

/// The lower-case letter for a key, or nothing for a key outside the
/// table.
pub open spec fn letter_of(p: int) -> Seq<char> {
    if p == 24 || p == 36 || p == 48 {
        seq!['z']
    } else if p == 26 || p == 38 || p == 50 {
        seq!['x']
    } else if p == 28 || p == 40 || p == 52 {
        seq!['c']
    } else if p == 29 || p == 41 || p == 53 {
        seq!['v']
    } else if p == 31 || p == 43 || p == 55 {
        seq!['b']
    } else if p == 33 || p == 45 || p == 57 {
        seq!['n']
    } else if p == 35 || p == 47 || p == 59 {
        seq!['m']
    } else if p == 60 {
        seq!['a']
    } else if p == 62 {
        seq!['s']
    } else if p == 64 {
        seq!['d']
    } else if p == 65 {
        seq!['f']
    } else if p == 67 {
        seq!['g']
    } else if p == 69 {
        seq!['h']
    } else if p == 71 {
        seq!['j']
    } else if p == 72 || p == 84 {
        seq!['q']
    } else if p == 74 || p == 86 {
        seq!['w']
    } else if p == 76 || p == 88 {
        seq!['e']
    } else if p == 77 || p == 89 {
        seq!['r']
    } else if p == 79 || p == 91 {
        seq!['t']
    } else if p == 81 || p == 93 {
        seq!['y']
    } else if p == 83 || p == 95 {
        seq!['u']
    } else {
        Seq::empty()
    }
}

/// Upper-casing of the transcript's characters: each letter of the
/// table to its capital, everything else unchanged.
pub open spec fn to_upper(b: char) -> char {
    if b == 'z' {
        'Z'
    } else if b == 'x' {
        'X'
    } else if b == 'c' {
        'C'
    } else if b == 'v' {
        'V'
    } else if b == 'b' {
        'B'
    } else if b == 'n' {
        'N'
    } else if b == 'm' {
        'M'
    } else if b == 'a' {
        'A'
    } else if b == 's' {
        'S'
    } else if b == 'd' {
        'D'
    } else if b == 'f' {
        'F'
    } else if b == 'g' {
        'G'
    } else if b == 'h' {
        'H'
    } else if b == 'j' {
        'J'
    } else if b == 'q' {
        'Q'
    } else if b == 'w' {
        'W'
    } else if b == 'e' {
        'E'
    } else if b == 'r' {
        'R'
    } else if b == 't' {
        'T'
    } else if b == 'y' {
        'Y'
    } else if b == 'u' {
        'U'
    } else {
        b
    }
}

/// The separator that follows a note, picked from the note's delay:
/// thresholds are 50 ms, 700 ms and 2000 ms, in microseconds.
pub open spec fn sep_of(delay_us: u64) -> Seq<char> {
    if delay_us > 50000 && delay_us <= 700000 {
        seq![' ', '-', ' ']
    } else if delay_us > 700000 && delay_us <= 2000000 {
        seq![' ', '/', ' ']
    } else if delay_us > 2000000 {
        seq!['\n', '\n']
    } else {
        Seq::empty()
    }
}

/// The lower-case letter transcription of the first `i` events: each
/// event's letter (if any), then its separator (if any).
pub open spec fn lower_transcript(events: Seq<Event>, i: int) -> Seq<char>
    decreases i,
{
    if i <= 0 {
        Seq::empty()
    } else {
        lower_transcript(events, i - 1) + letter_of(events[i - 1].press as int) + sep_of(
            events[i - 1].delay_us,
        )
    }
}

/// The substitution table of the phone transcription: each letter
/// becomes a signed digit, every other character stays itself.
pub open spec fn phone_char(b: char) -> Seq<char> {
    if b == 'q' {
        seq!['+', '1']
    } else if b == 'w' {
        seq!['+', '2']
    } else if b == 'e' {
        seq!['+', '3']
    } else if b == 'r' {
        seq!['+', '4']
    } else if b == 't' {
        seq!['+', '5']
    } else if b == 'y' {
        seq!['+', '6']
    } else if b == 'u' {
        seq!['+', '7']
    } else if b == 'a' {
        seq!['1']
    } else if b == 's' {
        seq!['2']
    } else if b == 'd' {
        seq!['3']
    } else if b == 'f' {
        seq!['4']
    } else if b == 'g' {
        seq!['5']
    } else if b == 'h' {
        seq!['6']
    } else if b == 'j' {
        seq!['7']
    } else if b == 'z' {
        seq!['-', '1']
    } else if b == 'x' {
        seq!['-', '2']
    } else if b == 'c' {
        seq!['-', '3']
    } else if b == 'v' {
        seq!['-', '4']
    } else if b == 'b' {
        seq!['-', '5']
    } else if b == 'n' {
        seq!['-', '6']
    } else if b == 'm' {
        seq!['-', '7']
    } else {
        seq![b]
    }
}

/// The substitution table applied to a whole text.
pub open spec fn phone_map(s: Seq<char>) -> Seq<char>
    decreases s.len(),
{
    if s.len() == 0 {
        Seq::empty()
    } else {
        phone_map(s.drop_last()) + phone_char(s.last())
    }
}

/// The letter transcription, upper-cased: what the letter text file
/// holds.
pub fn transcript_letters(events: &Vec<Event>) -> (r: Vec<char>)
    ensures
        r@ == lower_transcript(events@, events@.len() as int).map_values(|b: char| to_upper(b)),
{
    let mut r: Vec<char> = Vec::new();
    let mut i: usize = 0;
    assert(lower_transcript(events@, 0).map_values(|b: char| to_upper(b)) =~= Seq::<char>::empty());
    while i < events.len()
        invariant
            0 <= i <= events@.len(),
            r@ == lower_transcript(events@, i as int).map_values(|b: char| to_upper(b)),
        decreases events@.len() - i,
    {
        push_letter(&mut r, events[i].press, true);
        push_sep(&mut r, events[i].delay_us);
        assert(r@ =~= lower_transcript(events@, i + 1).map_values(|b: char| to_upper(b)));
        i = i + 1;
    }
    r
}

/// The phone transcription: the lower-case letter transcription passed
/// through the substitution table.
pub fn transcript_phone(events: &Vec<Event>) -> (r: Vec<char>)
    ensures
        r@ == phone_map(lower_transcript(events@, events@.len() as int)),
{
    let mut r: Vec<char> = Vec::new();
    let mut i: usize = 0;
    while i < events.len()
        invariant
            0 <= i <= events@.len(),
            r@ == phone_map(lower_transcript(events@, i as int)),
        decreases events@.len() - i,
    {
        let ghost before = lower_transcript(events@, i as int);
        let ghost letter = letter_of(events@[i as int].press as int);
        let ghost sep = sep_of(events@[i as int].delay_us);
        push_phone_letter(&mut r, events[i].press);
        push_sep(&mut r, events[i].delay_us);
        proof {
            lemma_phone_map_concat(before + letter, sep);
            lemma_phone_map_concat(before, letter);
            assert(lower_transcript(events@, i + 1) =~= (before + letter) + sep);
            assert(r@ =~= phone_map(lower_transcript(events@, i + 1)));
        }
        i = i + 1;
    }
    r
}

/// Append one key's letter, lower- or upper-case.
fn push_letter(out: &mut Vec<char>, press: i32, upper: bool)
    ensures
        upper ==> final(out)@ == old(out)@ + letter_of(press as int).map_values(
            |b: char| to_upper(b),
        ),
        !upper ==> final(out)@ == old(out)@ + letter_of(press as int),
{
    let b: Option<(char, char)> = match press {
        24 | 36 | 48 => Some(('z', 'Z')),
        26 | 38 | 50 => Some(('x', 'X')),
        28 | 40 | 52 => Some(('c', 'C')),
        29 | 41 | 53 => Some(('v', 'V')),
        31 | 43 | 55 => Some(('b', 'B')),
        33 | 45 | 57 => Some(('n', 'N')),
        35 | 47 | 59 => Some(('m', 'M')),
        60 => Some(('a', 'A')),
        62 => Some(('s', 'S')),
        64 => Some(('d', 'D')),
        65 => Some(('f', 'F')),
        67 => Some(('g', 'G')),
        69 => Some(('h', 'H')),
        71 => Some(('j', 'J')),
        72 | 84 => Some(('q', 'Q')),
        74 | 86 => Some(('w', 'W')),
        76 | 88 => Some(('e', 'E')),
        77 | 89 => Some(('r', 'R')),
        79 | 91 => Some(('t', 'T')),
        81 | 93 => Some(('y', 'Y')),
        83 | 95 => Some(('u', 'U')),
        _ => None,
    };
    match b {
        Some(c) => {
            if upper {
                out.push(c.1);
            } else {
                out.push(c.0);
            }
        },
        None => {},
    }
    assert(out@ =~= if upper {
        old(out)@ + letter_of(press as int).map_values(|b: char| to_upper(b))
    } else {
        old(out)@ + letter_of(press as int)
    });
}

/// Append one delay's separator.
fn push_sep(out: &mut Vec<char>, delay_us: u64)
    ensures
        final(out)@ == old(out)@ + sep_of(delay_us),
        final(out)@ == old(out)@ + sep_of(delay_us).map_values(|b: char| to_upper(b)),
        final(out)@ == old(out)@ + phone_map(sep_of(delay_us)),
{
    if delay_us > 50000 && delay_us <= 700000 {
        out.push(' ');
        out.push('-');
        out.push(' ');
    } else if delay_us > 700000 && delay_us <= 2000000 {
        out.push(' ');
        out.push('/');
        out.push(' ');
    } else if delay_us > 2000000 {
        out.push('\n');
        out.push('\n');
    }
    assert(out@ =~= old(out)@ + sep_of(delay_us));
    assert(out@ =~= old(out)@ + sep_of(delay_us).map_values(|b: char| to_upper(b)));
    proof {
        lemma_phone_of_sep(delay_us);
    }
}

/// Append one key's phone code: the substitution table applied to the
/// key's letter.
fn push_phone_letter(out: &mut Vec<char>, press: i32)
    ensures
        final(out)@ == old(out)@ + phone_map(letter_of(press as int)),
{
    match press {
        24 | 36 | 48 => {
            out.push('-');
            out.push('1');
        },
        26 | 38 | 50 => {
            out.push('-');
            out.push('2');
        },
        28 | 40 | 52 => {
            out.push('-');
            out.push('3');
        },
        29 | 41 | 53 => {
            out.push('-');
            out.push('4');
        },
        31 | 43 | 55 => {
            out.push('-');
            out.push('5');
        },
        33 | 45 | 57 => {
            out.push('-');
            out.push('6');
        },
        35 | 47 | 59 => {
            out.push('-');
            out.push('7');
        },
        60 => {
            out.push('1');
        },
        62 => {
            out.push('2');
        },
        64 => {
            out.push('3');
        },
        65 => {
            out.push('4');
        },
        67 => {
            out.push('5');
        },
        69 => {
            out.push('6');
        },
        71 => {
            out.push('7');
        },
        72 | 84 => {
            out.push('+');
            out.push('1');
        },
        74 | 86 => {
            out.push('+');
            out.push('2');
        },
        76 | 88 => {
            out.push('+');
            out.push('3');
        },
        77 | 89 => {
            out.push('+');
            out.push('4');
        },
        79 | 91 => {
            out.push('+');
            out.push('5');
        },
        81 | 93 => {
            out.push('+');
            out.push('6');
        },
        83 | 95 => {
            out.push('+');
            out.push('7');
        },
        _ => {},
    }
    proof {
        reveal_with_fuel(phone_map, 3);
    }
    assert(out@ =~= old(out)@ + phone_map(letter_of(press as int)));
}

/// The substitution table distributes over concatenation.
pub proof fn lemma_phone_map_concat(a: Seq<char>, b: Seq<char>)
    ensures
        phone_map(a + b) == phone_map(a) + phone_map(b),
    decreases b.len(),
{
    if b.len() == 0 {
        assert(a + b =~= a);
        assert(phone_map(a) + phone_map(b) =~= phone_map(a));
    } else {
        assert((a + b).drop_last() =~= a + b.drop_last());
        assert((a + b).last() == b.last());
        lemma_phone_map_concat(a, b.drop_last());
        assert(phone_map(a) + phone_map(b.drop_last()) + phone_char(b.last()) =~= phone_map(a)
            + phone_map(b));
    }
}

/// Separator characters pass through the substitution table unchanged.
proof fn lemma_phone_of_sep(delay_us: u64)
    ensures
        phone_map(sep_of(delay_us)) == sep_of(delay_us),
{
    reveal_with_fuel(phone_map, 5);
    let s = sep_of(delay_us);
    if s.len() == 3 {
        assert(phone_map(s) =~= s);
    } else if s.len() == 2 {
        assert(phone_map(s) =~= s);
    } else {
        assert(phone_map(s) =~= s);
    }
}

} // verus!
