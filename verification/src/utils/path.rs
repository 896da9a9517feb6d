//! The rules for install paths, on the bytes of a path.
//!
//! Every rule is about ASCII characters, and in UTF-8 a byte below 128 is
//! always a character of its own, so the rules are stated on bytes.

use vstd::prelude::*;

verus! {

/// The space character.
pub const SPACE: u8 = 0x20;

/// The full stop.
pub const DOT: u8 = 0x2e;

/// The separator of Unix paths.
pub const SLASH: u8 = 0x2f;

/// The separator of Windows paths.
pub const BACKSLASH: u8 = 0x5c;

/// `i` is where a component of `path` starts: at the beginning, or right
/// after a separator.
pub open spec fn starts_component(path: Seq<u8>, separator: u8, i: int) -> bool {
    i == 0 || path[i - 1] == separator
}

/// `i` is where a component of `path` ends: at the end, or right before a
/// separator.
pub open spec fn ends_component(path: Seq<u8>, separator: u8, i: int) -> bool {
    i == path.len() - 1 || path[i + 1] == separator
}

/// Whether the byte at `i` is acceptable on a Unix system in a path below
/// the root: no component is empty, starts with a space or with two dots,
/// or ends in a space or a dot.
pub open spec fn unix_byte_ok(path: Seq<u8>, i: int) -> bool {
    &&& starts_component(path, SLASH, i) ==> {
        &&& path[i] != SLASH
        &&& path[i] != SPACE
        &&& !(path[i] == DOT && i + 1 < path.len() && path[i + 1] == DOT)
    }
    &&& ends_component(path, SLASH, i) ==> path[i] != SLASH && path[i] != SPACE && path[i] != DOT
}

/// Whether a path is acceptable on a Unix system: it starts at the root, and
/// every byte of what follows is in order.
pub open spec fn unix_path_valid(path: Seq<u8>) -> bool {
    &&& path.len() >= 2
    &&& path[0] == SLASH
    &&& forall|i: int| 0 <= i < path.len() - 1 ==> unix_byte_ok(#[trigger] path.skip(1), i)
}

/// Checks a path for a Unix system.
pub fn check_unix_path(path: &[u8]) -> (valid: bool)
    ensures
        valid == unix_path_valid(path@),
{
    if path.len() < 2 || path[0] != SLASH {
        return false;
    }
    let ghost rest = path@.skip(1);
    let n = path.len() - 1;
    let mut i: usize = 0;
    while i < n
        invariant
            n == path@.len() - 1,
            rest == path@.skip(1),
            i <= n,
            forall|j: int| 0 <= j < i ==> unix_byte_ok(rest, j),
        decreases n - i,
    {
        let byte = path[i + 1];
        assert(byte == rest[i as int]);
        let starts = i == 0 || path[i] == SLASH;
        let ends = i == n - 1 || path[i + 2] == SLASH;
        assert(i != 0 ==> path[i as int] == rest[i - 1]);
        assert(i != n - 1 ==> path[i + 2] == rest[i + 1]);
        assert(starts == starts_component(rest, SLASH, i as int));
        assert(ends == ends_component(rest, SLASH, i as int));
        if starts {
            if byte == SLASH || byte == SPACE {
                assert(!unix_byte_ok(path@.skip(1), i as int));
                return false;
            }
            if byte == DOT && i + 1 < n && path[i + 2] == DOT {
                assert(!unix_byte_ok(path@.skip(1), i as int));
                return false;
            }
        }
        if ends {
            if byte == SLASH || byte == SPACE || byte == DOT {
                assert(!unix_byte_ok(path@.skip(1), i as int));
                return false;
            }
        }
        assert(unix_byte_ok(rest, i as int));
        i += 1;
    }
    true
}

/// Where the first `separator` of `path` stands, or the length of `path`
/// where it has none.
pub open spec fn first_separator(path: Seq<u8>, separator: u8) -> int
    decreases path.len(),
{
    if path.len() == 0 || path[0] == separator {
        0
    } else {
        1 + first_separator(path.skip(1), separator)
    }
}

/// `path` without its separators.
pub open spec fn without(path: Seq<u8>, separator: u8) -> Seq<u8>
    decreases path.len(),
{
    if path.len() == 0 {
        path
    } else if path.last() == separator {
        without(path.drop_last(), separator)
    } else {
        without(path.drop_last(), separator).push(path.last())
    }
}

/// What is checked of a path on Windows: what follows its first backslash,
/// without any further backslash. Nothing where the path has no backslash.
pub open spec fn windows_rest(path: Seq<u8>) -> Seq<u8> {
    let cut = first_separator(path, BACKSLASH);
    if cut < path.len() {
        without(path.skip(cut + 1), BACKSLASH)
    } else {
        Seq::empty()
    }
}

/// Whether a byte is a character that no name on Windows can hold.
pub open spec fn is_forbidden_char(byte: u8) -> bool {
    ||| byte == 0x3e  // >
    ||| byte == 0x3c  // <
    ||| byte == 0x3a  // :
    ||| byte == 0x2f  // /
    ||| byte == 0x7c  // |
    ||| byte == 0x3f  // ?
    ||| byte == 0x2a  // *

}

/// Whether three bytes spell one of the device names CON, PRN, AUX, NUL.
pub open spec fn is_device_name(a: u8, b: u8, c: u8) -> bool {
    ||| a == 0x43 && b == 0x4f && c == 0x4e
    ||| a == 0x50 && b == 0x52 && c == 0x4e
    ||| a == 0x41 && b == 0x55 && c == 0x58
    ||| a == 0x4e && b == 0x55 && c == 0x4c
}

/// Whether four bytes spell one of the device names COM1 to COM9 and LPT1 to
/// LPT9.
pub open spec fn is_numbered_device_name(a: u8, b: u8, c: u8, d: u8) -> bool {
    &&& 0x31 <= d <= 0x39
    &&& (a == 0x43 && b == 0x4f && c == 0x4d) || (a == 0x4c && b == 0x50 && c == 0x54)
}

/// Whether something forbidden on Windows stands at `i`.
pub open spec fn forbidden_at(rest: Seq<u8>, i: int) -> bool {
    ||| is_forbidden_char(rest[i])
    ||| i + 3 <= rest.len() && is_device_name(rest[i], rest[i + 1], rest[i + 2])
    ||| i + 4 <= rest.len() && is_numbered_device_name(
        rest[i],
        rest[i + 1],
        rest[i + 2],
        rest[i + 3],
    )
}

/// Whether a path is acceptable on Windows: it neither starts nor ends with
/// a space, and what follows its first backslash, taken without further
/// backslashes, is not empty, holds nothing forbidden, does not start with a
/// space and does not end in a space or a dot.
pub open spec fn windows_path_valid(path: Seq<u8>) -> bool {
    let rest = windows_rest(path);
    &&& path.len() > 0
    &&& path[0] != SPACE
    &&& path.last() != SPACE
    &&& rest.len() > 0
    &&& forall|i: int| 0 <= i < rest.len() ==> !forbidden_at(rest, i)
    &&& rest[0] != SPACE
    &&& rest.last() != SPACE
    &&& rest.last() != DOT
}

/// Finds the first separator of a path.
fn find_separator(path: &[u8], separator: u8) -> (at: usize)
    ensures
        at == first_separator(path@, separator),
        at <= path@.len(),
{
    let mut i: usize = 0;
    proof {
        assert(path@.skip(0) =~= path@);
    }
    while i < path.len() && path[i] != separator
        invariant
            i <= path@.len(),
            first_separator(path@, separator) == i + first_separator(
                path@.skip(i as int),
                separator,
            ),
        decreases path@.len() - i,
    {
        proof {
            assert(path@.skip(i as int).skip(1) =~= path@.skip(i + 1));
            assert(path@.skip(i as int)[0] == path@[i as int]);
        }
        i += 1;
    }
    proof {
        if i < path@.len() {
            assert(path@.skip(i as int)[0] == path@[i as int]);
        }
    }
    i
}

/// Copies a path from `from` on, without its separators.
fn strip_separators(path: &[u8], from: usize, separator: u8) -> (rest: Vec<u8>)
    requires
        from <= path@.len(),
    ensures
        rest@ == without(path@.skip(from as int), separator),
{
    let mut rest: Vec<u8> = Vec::new();
    let ghost tail = path@.skip(from as int);
    let mut i: usize = from;
    proof {
        assert(tail.take(0) =~= Seq::<u8>::empty());
    }
    while i < path.len()
        invariant
            from <= i <= path@.len(),
            tail == path@.skip(from as int),
            rest@ == without(tail.take(i - from), separator),
        decreases path@.len() - i,
    {
        proof {
            assert(tail.take(i + 1 - from).drop_last() =~= tail.take(i - from));
            assert(tail.take(i + 1 - from).last() == path@[i as int]);
        }
        if path[i] != separator {
            rest.push(path[i]);
        }
        i += 1;
    }
    proof {
        assert(tail.take(path@.len() - from) =~= tail);
    }
    rest
}

/// Checks whether something forbidden on Windows stands at `i`.
fn check_forbidden_at(rest: &[u8], i: usize) -> (found: bool)
    requires
        i < rest@.len(),
    ensures
        found == forbidden_at(rest@, i as int),
{
    let a = rest[i];
    if a == 0x3e || a == 0x3c || a == 0x3a || a == 0x2f || a == 0x7c || a == 0x3f || a == 0x2a {
        return true;
    }
    if rest.len() - i >= 3 {
        let b = rest[i + 1];
        let c = rest[i + 2];
        if (a == 0x43 && b == 0x4f && c == 0x4e) || (a == 0x50 && b == 0x52 && c == 0x4e) || (a
            == 0x41 && b == 0x55 && c == 0x58) || (a == 0x4e && b == 0x55 && c == 0x4c) {
            return true;
        }
        if rest.len() - i >= 4 {
            let d = rest[i + 3];
            if 0x31 <= d && d <= 0x39 && ((a == 0x43 && b == 0x4f && c == 0x4d) || (a == 0x4c && b
                == 0x50 && c == 0x54)) {
                return true;
            }
        }
    }
    false
}

/// Checks a path for Windows.
pub fn check_windows_path(path: &[u8]) -> (valid: bool)
    ensures
        valid == windows_path_valid(path@),
{
    if path.len() == 0 || path[0] == SPACE || path[path.len() - 1] == SPACE {
        return false;
    }
    let cut = find_separator(path, BACKSLASH);
    let rest = if cut < path.len() {
        strip_separators(path, cut + 1, BACKSLASH)
    } else {
        Vec::new()
    };
    assert(rest@ =~= windows_rest(path@));
    if rest.len() == 0 {
        return false;
    }
    let mut i: usize = 0;
    while i < rest.len()
        invariant
            i <= rest@.len(),
            rest@ == windows_rest(path@),
            forall|j: int| 0 <= j < i ==> !forbidden_at(rest@, j),
        decreases rest@.len() - i,
    {
        if check_forbidden_at(rest.as_slice(), i) {
            return false;
        }
        i += 1;
    }
    let last = rest[rest.len() - 1];
    rest[0] != SPACE && last != SPACE && last != DOT
}

} // verus!
