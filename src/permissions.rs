use crate::entry::{get_file_type_char, kind_char, FileKind};
use crate::text::push_char;
use vstd::prelude::*;

verus! {

/// `c` where the bit `b` of `mode` is set, `-` otherwise.
pub open spec fn flag_char(mode: u32, b: u32, c: char) -> char {
    if mode & b != 0 {
        c
    } else {
        '-'
    }
}

/// An execute position: `x` or `-` by the execute bit `x`; where the special
/// bit `sp` is set, `lower` over an execute bit and `upper` without one.
pub open spec fn exec_char(mode: u32, x: u32, sp: u32, lower: char, upper: char) -> char {
    if mode & x != 0 {
        if mode & sp != 0 {
            lower
        } else {
            'x'
        }
    } else {
        if mode & sp != 0 {
            upper
        } else {
            '-'
        }
    }
}

/// The ten characters of a long listing's first column: the kind's tag, then
/// read, write and execute for owner, group and others, with setuid, setgid
/// and the sticky bit shown in the execute positions.
pub open spec fn mode_string(kind: FileKind, mode: u32) -> Seq<char> {
    seq![
        kind_char(kind),
        flag_char(mode, 0o400, 'r'),
        flag_char(mode, 0o200, 'w'),
        exec_char(mode, 0o100, 0o4000, 's', 'S'),
        flag_char(mode, 0o040, 'r'),
        flag_char(mode, 0o020, 'w'),
        exec_char(mode, 0o010, 0o2000, 's', 'S'),
        flag_char(mode, 0o004, 'r'),
        flag_char(mode, 0o002, 'w'),
        exec_char(mode, 0o001, 0o1000, 't', 'T'),
    ]
}

fn flag(mode: u32, b: u32, c: char) -> (r: char)
    ensures
        r == flag_char(mode, b, c),
{
    if mode & b != 0 {
        c
    } else {
        '-'
    }
}

fn exec_flag(mode: u32, x: u32, sp: u32, lower: char, upper: char) -> (r: char)
    ensures
        r == exec_char(mode, x, sp, lower, upper),
{
    if mode & x != 0 {
        if mode & sp != 0 {
            lower
        } else {
            'x'
        }
    } else {
        if mode & sp != 0 {
            upper
        } else {
            '-'
        }
    }
}

/// The permission column of an entry of kind `kind` with mode bits `mode`,
/// such as `-rwxr-xr-x` or `drwx------`.
pub fn get_mode_string(kind: FileKind, mode: u32) -> (r: String)
    ensures
        r@ == mode_string(kind, mode),
{
    let mut s = String::new();
    push_char(&mut s, get_file_type_char(kind));
    push_char(&mut s, flag(mode, 0o400, 'r'));
    push_char(&mut s, flag(mode, 0o200, 'w'));
    push_char(&mut s, exec_flag(mode, 0o100, 0o4000, 's', 'S'));
    push_char(&mut s, flag(mode, 0o040, 'r'));
    push_char(&mut s, flag(mode, 0o020, 'w'));
    push_char(&mut s, exec_flag(mode, 0o010, 0o2000, 's', 'S'));
    push_char(&mut s, flag(mode, 0o004, 'r'));
    push_char(&mut s, flag(mode, 0o002, 'w'));
    push_char(&mut s, exec_flag(mode, 0o001, 0o1000, 't', 'T'));
    assert(s@ =~= mode_string(kind, mode));
    s
}

} // verus!
