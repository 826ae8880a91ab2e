//! The colours of the user interface, as 0xRRGGBB.

use vstd::prelude::*;
use vstd::string::*;
use vstd::utf8::*;

verus! {

pub fn bg() -> (r: u32)
    ensures
        r == 0x1e1e1e,
{
    0x1e1e1e
}

pub fn panel() -> (r: u32)
    ensures
        r == 0x252526,
{
    0x252526
}

pub fn border() -> (r: u32)
    ensures
        r == 0x3c3c3c,
{
    0x3c3c3c
}

pub fn text() -> (r: u32)
    ensures
        r == 0xd4d4d4,
{
    0xd4d4d4
}

pub fn dim() -> (r: u32)
    ensures
        r == 0x8a8a8a,
{
    0x8a8a8a
}

pub fn faint() -> (r: u32)
    ensures
        r == 0x6e7681,
{
    0x6e7681
}

pub fn accent() -> (r: u32)
    ensures
        r == 0x0e93d8,
{
    0x0e93d8
}

pub fn running() -> (r: u32)
    ensures
        r == 0x3fb950,
{
    0x3fb950
}

pub fn danger() -> (r: u32)
    ensures
        r == 0xf14c4c,
{
    0xf14c4c
}

pub fn selected() -> (r: u32)
    ensures
        r == 0x37373d,
{
    0x37373d
}

pub fn hover() -> (r: u32)
    ensures
        r == 0x2d2d2e,
{
    0x2d2d2e
}

/// The colour of the dot that tells a running machine from a stopped one.
pub fn status_dot(is_running: bool) -> (r: u32)
    ensures
        r == (if is_running {
            0x3fb950u32
        } else {
            0x6e7681u32
        }),
{
    if is_running {
        running()
    } else {
        faint()
    }
}

/// The colours that projects are told apart by.
pub open spec fn palette_color(i: int) -> u32 {
    if i == 0 {
        0x5b9bd5
    } else if i == 1 {
        0x57a773
    } else if i == 2 {
        0xd08770
    } else if i == 3 {
        0xb48ead
    } else if i == 4 {
        0xd6a44c
    } else if i == 5 {
        0xc9737e
    } else if i == 6 {
        0x4fb0c6
    } else {
        0x9aa0a6
    }
}

/// The number that a project's name is turned into: its bytes as the digits of
/// a number to the base 31.
pub open spec fn name_hash(bytes: Seq<u8>) -> nat
    decreases bytes.len(),
{
    if bytes.len() == 0 {
        0
    } else {
        name_hash(bytes.drop_last()) * 31 + bytes.last() as nat
    }
}

/// The colour of a project.
pub open spec fn group_color(project: Seq<char>) -> u32 {
    palette_color((name_hash(encode_utf8(project)) % 8) as int)
}

/// The colour of a project. It depends on the name alone, so a group keeps it
/// across restarts and whatever the order of its tabs.
pub fn group(project: &str) -> (r: u32)
    ensures
        r == group_color(project@),
{
    let bytes: &[u8] = project.as_bytes();
    let mut hash: usize = 0;
    let mut i: usize = 0;
    assert(bytes@.take(0) =~= Seq::empty());
    while i < bytes.len()
        invariant
            i <= bytes@.len(),
            hash < 8,
            hash == name_hash(bytes@.take(i as int)) % 8,
        decreases bytes@.len() - i,
    {
        let ghost before = name_hash(bytes@.take(i as int));
        assert(bytes@.take(i + 1).drop_last() =~= bytes@.take(i as int));
        let byte: u8 = bytes[i];
        assert((before * 31 + byte) % 8 == ((before % 8) * 31 + byte) % 8) by (nonlinear_arith);
        hash = (hash * 31 + byte as usize) % 8;
        i += 1;
    }
    assert(bytes@.take(i as int) =~= bytes@);
    if hash == 0 {
        0x5b9bd5
    } else if hash == 1 {
        0x57a773
    } else if hash == 2 {
        0xd08770
    } else if hash == 3 {
        0xb48ead
    } else if hash == 4 {
        0xd6a44c
    } else if hash == 5 {
        0xc9737e
    } else if hash == 6 {
        0x4fb0c6
    } else {
        0x9aa0a6
    }
}

/// The eight colours are different ones.
pub proof fn colours_are_told_apart(i: int, j: int)
    requires
        0 <= i < j < 8,
    ensures
        palette_color(i) != palette_color(j),
{
}

/// The colour of a project goes by every byte of its name: names that differ only
/// in the last byte, by less than eight, have different colours.
pub proof fn neighbouring_names_differ_in_colour(name: Seq<u8>, a: u8, b: u8)
    requires
        a < b < a + 8,
    ensures
        palette_color((name_hash(name.push(a)) % 8) as int) != palette_color(
            (name_hash(name.push(b)) % 8) as int,
        ),
{
    let h = name_hash(name);
    assert(name.push(a).drop_last() =~= name);
    assert(name.push(b).drop_last() =~= name);
    let x = (h * 31 + a) % 8;
    let y = (h * 31 + b) % 8;
    assert(x != y) by (nonlinear_arith)
        requires
            x == (h * 31 + a) % 8,
            y == (h * 31 + b) % 8,
            a < b < a + 8,
    ;
    colours_are_told_apart(
        if x < y {
            x as int
        } else {
            y as int
        },
        if x < y {
            y as int
        } else {
            x as int
        },
    );
}

/// A name of one byte has the colour of that byte's remainder by eight, and with
/// one byte more the number before it counts thirty-one times.
pub proof fn names_are_hashed_byte_by_byte(name: Seq<u8>, byte: u8)
    ensures
        name_hash(Seq::empty()) == 0,
        name_hash(name.push(byte)) == 31 * name_hash(name) + byte,
{
    assert(name.push(byte).drop_last() =~= name);
}

} // verus!
