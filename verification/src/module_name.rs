//! The name under which the game's executable module is looked up: the file
//! name of its path, NUL-terminated, as a NUL-terminated UTF-16 string.

use vstd::prelude::*;

verus! {

/// What follows the last `\` of a Windows path (all of it if it has none).
pub open spec fn file_name(p: Seq<char>) -> Seq<char>
    decreases p.len(),
{
    if p.len() == 0 {
        p
    } else if p.last() == '\\' {
        Seq::empty()
    } else {
        file_name(p.drop_last()).push(p.last())
    }
}

/// The UTF-16 code units of `c`: one below U+10000, else a surrogate pair.
pub open spec fn utf16_units(c: char) -> Seq<u16> {
    let u = c as u32;
    if u < 0x10000 {
        seq![u as u16]
    } else {
        let v = u - 0x10000;
        seq![(0xD800 + v / 0x400) as u16, (0xDC00 + v % 0x400) as u16]
    }
}

/// The UTF-16 encoding of `s`.
pub open spec fn utf16(s: Seq<char>) -> Seq<u16>
    decreases s.len(),
{
    if s.len() == 0 {
        Seq::empty()
    } else {
        utf16(s.drop_last()) + utf16_units(s.last())
    }
}

/// The file name of a Windows path (see `file_name`).
pub fn exe_file_name(path: &str) -> (res: &str)
    ensures
        res@ == file_name(path@),
{
    let n = path.unicode_len();
    let mut j: usize = n;
    assert(path@.subrange(0, n as int) =~= path@);
    assert(path@.subrange(n as int, n as int) =~= Seq::<char>::empty());
    while j > 0 && path.get_char(j - 1) != '\\'
        invariant
            n == path@.len(),
            j <= n,
            file_name(path@) == file_name(path@.subrange(0, j as int)) + path@.subrange(
                j as int,
                n as int,
            ),
        decreases j,
    {
        let ghost pre = path@.subrange(0, j as int);
        assert(pre.drop_last() =~= path@.subrange(0, j - 1));
        assert(file_name(pre) == file_name(pre.drop_last()).push(pre.last()));
        assert(file_name(pre.drop_last()).push(pre.last()) + path@.subrange(j as int, n as int)
            =~= file_name(path@.subrange(0, j - 1)) + path@.subrange(j - 1, n as int));
        j = j - 1;
    }
    if j == 0 {
        assert(file_name(path@.subrange(0, 0)) =~= Seq::<char>::empty());
    }
    path.substring_char(j, n)
}

/// The UTF-16 units of one character.
fn encode_char(c: char, out: &mut Vec<u16>)
    ensures
        final(out)@ == old(out)@ + utf16_units(c),
{
    let u = c as u32;
    if u < 0x10000 {
        out.push(u as u16);
    } else {
        let v = u - 0x10000;
        out.push((0xD800 + v / 0x400) as u16);
        out.push((0xDC00 + v % 0x400) as u16);
    }
}

/// The wide module name of the executable at `path`: its file name and a NUL
/// in UTF-16, followed by one more NUL unit.
pub fn module_name_wide(path: &str) -> (res: Vec<u16>)
    ensures
        res@ == utf16(file_name(path@).push('\0')) + seq![0u16],
{
    let name = exe_file_name(path);
    let n = name.unicode_len();
    let mut out: Vec<u16> = Vec::new();
    let mut i: usize = 0;
    while i < n
        invariant
            n == name@.len(),
            i <= n,
            out@ == utf16(name@.subrange(0, i as int)),
        decreases n - i,
    {
        let c = name.get_char(i);
        encode_char(c, &mut out);
        assert(name@.subrange(0, i + 1).drop_last() =~= name@.subrange(0, i as int));
        i = i + 1;
    }
    assert(name@.subrange(0, n as int) =~= name@);
    encode_char('\0', &mut out);
    assert(name@.push('\0').drop_last() =~= name@);
    out.push(0);
    out
}

} // verus!
