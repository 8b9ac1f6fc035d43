//! Letters as the matcher folds them: which small letters it folds to others
//! only some of the time, and which letters count as the same one.

use vstd::prelude::*;

verus! {

/// The number of the character a small letter is read as, where the matcher
/// folds it to another one only some of the time: the letter it is folded to.
/// The long s is read as one with a dot, which is not ASCII either, and the
/// iota below a letter as another mark. Every other character is read as it is.
pub open spec fn settled_code(n: u32) -> u32 {
    if n == 0xb5 {
        0x3bc
    } else if n == 0x17f || n == 0x1e9b {
        0x1e61
    } else if n == 0x345 {
        0x301
    } else if n == 0x3c2 {
        0x3c3
    } else if n == 0x3d0 {
        0x3b2
    } else if n == 0x3d1 {
        0x3b8
    } else if n == 0x3d5 {
        0x3c6
    } else if n == 0x3d6 {
        0x3c0
    } else if n == 0x3f0 {
        0x3ba
    } else if n == 0x3f1 {
        0x3c1
    } else if n == 0x3f5 {
        0x3b5
    } else if 0x13f8 <= n <= 0x13fd {
        (n - 8) as u32
    } else if n == 0x1c80 {
        0x432
    } else if n == 0x1c81 {
        0x434
    } else if n == 0x1c82 {
        0x43e
    } else if n == 0x1c83 {
        0x441
    } else if n == 0x1c84 || n == 0x1c85 {
        0x442
    } else if n == 0x1c86 {
        0x44a
    } else if n == 0x1c87 {
        0x463
    } else if n == 0x1c88 {
        0xa64b
    } else if n == 0x1fbe {
        0x3b9
    } else if 0xab70 <= n <= 0xabbf {
        (n - 0x97d0) as u32
    } else {
        n
    }
}

fn settle_code(n: u32) -> (res: u32)
    ensures
        res == settled_code(n),
{
    match n {
        0xb5 => 0x3bc,
        0x17f | 0x1e9b => 0x1e61,
        0x345 => 0x301,
        0x3c2 => 0x3c3,
        0x3d0 => 0x3b2,
        0x3d1 => 0x3b8,
        0x3d5 => 0x3c6,
        0x3d6 => 0x3c0,
        0x3f0 => 0x3ba,
        0x3f1 => 0x3c1,
        0x3f5 => 0x3b5,
        0x1c80 => 0x432,
        0x1c81 => 0x434,
        0x1c82 => 0x43e,
        0x1c83 => 0x441,
        0x1c84 | 0x1c85 => 0x442,
        0x1c86 => 0x44a,
        0x1c87 => 0x463,
        0x1c88 => 0xa64b,
        0x1fbe => 0x3b9,
        _ => if 0x13f8 <= n && n <= 0x13fd {
            n - 8
        } else if 0xab70 <= n && n <= 0xabbf {
            n - 0x97d0
        } else {
            n
        },
    }
}

/// The character a character is read as.
pub open spec fn settled(c: char) -> char {
    settled_code(c as u32) as char
}

pub fn settle(c: char) -> (res: char)
    ensures
        res == settled(c),
{
    let code: u32 = settle_code(c as u32);
    match char::from_u32(code) {
        Some(s) => s,
        None => {
            assert(code == c as u32);
            c
        },
    }
}

/// What a character is read as is read as itself.
pub proof fn settled_stays(c: char)
    ensures
        settled(settled(c)) == settled(c),
{
    assert((c as u32) as char == c);
    let code = settled_code(c as u32);
    assert(settled_code(code) == code);
    assert((code as char) as u32 == code);
}

/// Whether every character is ASCII.
pub open spec fn plain(text: Seq<char>) -> bool {
    forall|i: int| 0 <= i < text.len() ==> (#[trigger] text[i] as u32) < 128
}

/// Whether the matcher folds a letter only some of the time.
pub open spec fn wavers(c: char) -> bool {
    settled(c) != c
}

/// Whether every character is read as it is.
pub open spec fn is_settled(text: Seq<char>) -> bool {
    forall|i: int| 0 <= i < text.len() ==> settled(#[trigger] text[i]) == text[i]
}

pub fn is_plain(text: &Vec<char>) -> (res: bool)
    ensures
        res == plain(text@),
{
    let mut i: usize = 0;
    while i < text.len()
        invariant
            i <= text@.len(),
            forall|k: int| 0 <= k < i ==> (#[trigger] text@[k] as u32) < 128,
        decreases text@.len() - i,
    {
        if text[i] as u32 >= 128 {
            return false;
        }
        i += 1;
    }
    true
}

/// The number of the letter that one of those letters is folded to, or one of
/// the capitals folded to the same. Every other number stays.
pub open spec fn folded_code(n: u32) -> u32 {
    if n == 0x53 || n == 0x17f {
        0x73
    } else if n == 0xb5 || n == 0x39c {
        0x3bc
    } else if n == 0x345 || n == 0x399 {
        0x3b9
    } else if n == 0x392 {
        0x3b2
    } else if n == 0x395 {
        0x3b5
    } else if n == 0x398 || n == 0x3f4 {
        0x3b8
    } else if n == 0x39a {
        0x3ba
    } else if n == 0x3a0 {
        0x3c0
    } else if n == 0x3a1 {
        0x3c1
    } else if n == 0x3a3 {
        0x3c3
    } else if n == 0x3a6 {
        0x3c6
    } else if n == 0x412 {
        0x432
    } else if n == 0x414 {
        0x434
    } else if n == 0x41e {
        0x43e
    } else if n == 0x421 {
        0x441
    } else if n == 0x422 {
        0x442
    } else if n == 0x42a {
        0x44a
    } else if n == 0x462 {
        0x463
    } else if n == 0x1e60 {
        0x1e61
    } else if n == 0xa64a {
        0xa64b
    } else {
        settled_code(n)
    }
}

fn fold_code(n: u32) -> (res: u32)
    ensures
        res == folded_code(n),
{
    match n {
        0x53 | 0x17f => 0x73,
        0xb5 | 0x39c => 0x3bc,
        0x345 | 0x399 => 0x3b9,
        0x392 => 0x3b2,
        0x395 => 0x3b5,
        0x398 | 0x3f4 => 0x3b8,
        0x39a => 0x3ba,
        0x3a0 => 0x3c0,
        0x3a1 => 0x3c1,
        0x3a3 => 0x3c3,
        0x3a6 => 0x3c6,
        0x412 => 0x432,
        0x414 => 0x434,
        0x41e => 0x43e,
        0x421 => 0x441,
        0x422 => 0x442,
        0x42a => 0x44a,
        0x462 => 0x463,
        0x1e60 => 0x1e61,
        0xa64a => 0xa64b,
        _ => settle_code(n),
    }
}

/// Whether two characters are the same letter once folded, where one of them is
/// a letter that is folded only some of the time.
pub open spec fn same_letter(a: char, b: char) -> bool {
    folded_code(a as u32) == folded_code(b as u32)
}

pub fn is_same_letter(a: char, b: char) -> (res: bool)
    ensures
        res == same_letter(a, b),
{
    fold_code(a as u32) == fold_code(b as u32)
}

/// Whether a character takes the one after it into its cluster, so that a letter
/// there is none of its own to the matcher.
pub open spec fn joins(c: char) -> bool {
    let n = c as u32;
    ||| 0x600 <= n <= 0x605
    ||| n == 0x6dd
    ||| n == 0x70f
    ||| 0x890 <= n <= 0x891
    ||| n == 0x8e2
    ||| n == 0xd4e
    ||| n == 0x110bd
    ||| n == 0x110cd
    ||| 0x111c2 <= n <= 0x111c3
    ||| n == 0x113d1
    ||| n == 0x1193f
    ||| n == 0x11941
    ||| 0x11a84 <= n <= 0x11a89
    ||| n == 0x11d46
    ||| n == 0x11f02
}

pub fn is_joining(c: char) -> (res: bool)
    ensures
        res == joins(c),
{
    match c as u32 {
        0x600..=0x605 | 0x6dd | 0x70f | 0x890..=0x891 | 0x8e2 | 0xd4e => true,
        0x110bd | 0x110cd | 0x111c2..=0x111c3 | 0x113d1 | 0x1193f | 0x11941 => true,
        0x11a84..=0x11a89 | 0x11d46 | 0x11f02 => true,
        _ => false,
    }
}

/// Whether a letter is among those that the matcher may read without their
/// accents: the blocks of Latin letters beyond ASCII. A word with such a letter
/// may be matched with its accents, and only some letters folded.
pub open spec fn accented(c: char) -> bool {
    let n = c as u32;
    ||| 0xc0 <= n <= 0x2ae
    ||| 0x363 <= n <= 0x36f
    ||| 0x1d00 <= n <= 0x1d65
    ||| 0x1e00 <= n <= 0x1ef7
    ||| 0x2071 <= n <= 0x209c
    ||| n == 0x212b
    ||| 0x2183 <= n <= 0x2184
    ||| 0x2c62 <= n <= 0x2c7f
    ||| 0xa78d <= n <= 0xa7c5
}

pub fn has_accents(word: &Vec<char>) -> (res: bool)
    ensures
        res == exists|i: int| 0 <= i < word@.len() && accented(#[trigger] word@[i]),
{
    let mut i: usize = 0;
    while i < word.len()
        invariant
            i <= word@.len(),
            forall|k: int| 0 <= k < i ==> !accented(#[trigger] word@[k]),
        decreases word@.len() - i,
    {
        let n: u32 = word[i] as u32;
        if (0xc0 <= n && n <= 0x2ae) || (0x363 <= n && n <= 0x36f) || (0x1d00 <= n && n <= 0x1d65)
            || (0x1e00 <= n && n <= 0x1ef7) || (0x2071 <= n && n <= 0x209c) || n == 0x212b || (0x2183
            <= n && n <= 0x2184) || (0x2c62 <= n && n <= 0x2c7f) || (0xa78d <= n && n <= 0xa7c5) {
            assert(accented(word@[i as int]));
            return true;
        }
        i += 1;
    }
    false
}

} // verus!
