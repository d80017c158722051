//! The file classifier: from a file's mode bits and optional extension to
//! a display category, and the `drwxr-xr-x`-style rendering of mode bits.
//! The bit values are the POSIX `sys/stat.h` constants.

use vstd::prelude::*;

verus! {

pub const BITMASK: u32 = 0o170000;

pub const S_IFSOCK: u32 = 0o140000;

pub const S_IFLNK: u32 = 0o120000;

pub const S_IFREG: u32 = 0o100000;

pub const S_IFBLK: u32 = 0o060000;

pub const S_IFDIR: u32 = 0o040000;

pub const S_IFCHR: u32 = 0o020000;

pub const S_IFIFO: u32 = 0o010000;

pub const S_IRUSR: u32 = 0o400;

pub const S_IWUSR: u32 = 0o200;

pub const S_IXUSR: u32 = 0o100;

pub const S_IRGRP: u32 = 0o040;

pub const S_IWGRP: u32 = 0o020;

pub const S_IXGRP: u32 = 0o010;

pub const S_IROTH: u32 = 0o004;

pub const S_IWOTH: u32 = 0o002;

pub const S_IXOTH: u32 = 0o001;

/// Display category of a directory entry, chosen from its mode bits and,
/// for a plain regular file, its extension.
#[derive(Clone, Copy, Debug, PartialEq, Eq, Structural)]
pub enum FileCategory {
    Directory,
    LinkOrDevice,
    SocketOrFifo,
    Executable,
    ImageExtension,
    MediaExtension,
    PlainFile,
    Unknown,
}

pub open spec fn is_executable_spec(mode: u32) -> bool {
    mode & S_IXUSR != 0 || mode & S_IXGRP != 0 || mode & S_IXOTH != 0
}

/// Whether any of the owner, group, or other execute bits is set.
pub fn is_executable(mode: u32) -> (r: bool)
    ensures
        r == is_executable_spec(mode),
{
    mode & S_IXUSR != 0 || mode & S_IXGRP != 0 || mode & S_IXOTH != 0
}

pub open spec fn is_image_ext_spec(e: Seq<char>) -> bool {
    e == seq!['p', 'n', 'g'] || e == seq!['j', 'p', 'g'] || e == seq!['j', 'p', 'e', 'g'] || e
        == seq!['g', 'i', 'f']
}

pub open spec fn is_media_ext_spec(e: Seq<char>) -> bool {
    e == seq!['m', 'k', 'v'] || e == seq!['m', 'p', '4'] || e == seq!['m', 'p', '3'] || e
        == seq!['f', 'l', 'a', 'c'] || e == seq!['o', 'g', 'g'] || e == seq!['a', 'v', 'i'] || e
        == seq!['w', 'm', 'v'] || e == seq!['w', 'a', 'v'] || e == seq!['m', '4', 'a']
}

/// Case-sensitive membership in the fixed image-extension set.
pub fn is_image_ext(e: &Vec<char>) -> (r: bool)
    ensures
        r == is_image_ext_spec(e@),
{
    let r = if e.len() == 3 {
        (e[0] == 'p' && e[1] == 'n' && e[2] == 'g') || (e[0] == 'j' && e[1] == 'p' && e[2] == 'g')
            || (e[0] == 'g' && e[1] == 'i' && e[2] == 'f')
    } else if e.len() == 4 {
        e[0] == 'j' && e[1] == 'p' && e[2] == 'e' && e[3] == 'g'
    } else {
        false
    };
    proof {
        if r {
            if e@.len() == 3 {
                if e@[0] == 'p' {
                    assert(e@ =~= seq!['p', 'n', 'g']);
                } else if e@[2] == 'g' {
                    assert(e@ =~= seq!['j', 'p', 'g']);
                } else {
                    assert(e@ =~= seq!['g', 'i', 'f']);
                }
            } else {
                assert(e@ =~= seq!['j', 'p', 'e', 'g']);
            }
        }
    }
    r
}

/// Case-sensitive membership in the fixed audio/video-extension set.
pub fn is_media_ext(e: &Vec<char>) -> (r: bool)
    ensures
        r == is_media_ext_spec(e@),
{
    let r = if e.len() == 3 {
        (e[0] == 'm' && e[1] == 'k' && e[2] == 'v') || (e[0] == 'm' && e[1] == 'p' && e[2] == '4')
            || (e[0] == 'm' && e[1] == 'p' && e[2] == '3') || (e[0] == 'o' && e[1] == 'g' && e[2]
            == 'g') || (e[0] == 'a' && e[1] == 'v' && e[2] == 'i') || (e[0] == 'w' && e[1] == 'm'
            && e[2] == 'v') || (e[0] == 'w' && e[1] == 'a' && e[2] == 'v') || (e[0] == 'm' && e[1]
            == '4' && e[2] == 'a')
    } else if e.len() == 4 {
        e[0] == 'f' && e[1] == 'l' && e[2] == 'a' && e[3] == 'c'
    } else {
        false
    };
    proof {
        if r {
            if e@.len() == 3 {
                if e@[1] == 'k' {
                    assert(e@ =~= seq!['m', 'k', 'v']);
                } else if e@[2] == '4' {
                    assert(e@ =~= seq!['m', 'p', '4']);
                } else if e@[2] == '3' {
                    assert(e@ =~= seq!['m', 'p', '3']);
                } else if e@[0] == 'o' {
                    assert(e@ =~= seq!['o', 'g', 'g']);
                } else if e@[0] == 'a' {
                    assert(e@ =~= seq!['a', 'v', 'i']);
                } else if e@[1] == 'm' {
                    assert(e@ =~= seq!['w', 'm', 'v']);
                } else if e@[0] == 'w' {
                    assert(e@ =~= seq!['w', 'a', 'v']);
                } else {
                    assert(e@ =~= seq!['m', '4', 'a']);
                }
            } else {
                assert(e@ =~= seq!['f', 'l', 'a', 'c']);
            }
        }
    }
    r
}

pub open spec fn classify_spec(mode: u32, ext: Option<Seq<char>>) -> FileCategory {
    let t = mode & BITMASK;
    if t == S_IFDIR {
        FileCategory::Directory
    } else if t == S_IFLNK || t == S_IFCHR || t == S_IFBLK {
        FileCategory::LinkOrDevice
    } else if t == S_IFSOCK || t == S_IFIFO {
        FileCategory::SocketOrFifo
    } else if t == S_IFREG {
        if is_executable_spec(mode) {
            FileCategory::Executable
        } else {
            match ext {
                Some(e) => if is_image_ext_spec(e) {
                    FileCategory::ImageExtension
                } else if is_media_ext_spec(e) {
                    FileCategory::MediaExtension
                } else {
                    FileCategory::PlainFile
                },
                None => FileCategory::PlainFile,
            }
        }
    } else {
        FileCategory::Unknown
    }
}

/// Classifies a file by its mode bits: the file type wins outright, an
/// executable regular file comes next, and only then does the extension
/// decide between the image, media, and plain categories. Total: every
/// mode and extension falls into some category.
pub fn classify(mode: u32, ext: &Option<Vec<char>>) -> (r: FileCategory)
    ensures
        ext is None ==> r == classify_spec(mode, None),
        ext matches Some(e) ==> r == classify_spec(mode, Some(e@)),
{
    let t = mode & BITMASK;
    if t == S_IFDIR {
        FileCategory::Directory
    } else if t == S_IFLNK || t == S_IFCHR || t == S_IFBLK {
        FileCategory::LinkOrDevice
    } else if t == S_IFSOCK || t == S_IFIFO {
        FileCategory::SocketOrFifo
    } else if t == S_IFREG {
        if is_executable(mode) {
            FileCategory::Executable
        } else {
            match ext {
                Some(e) => if is_image_ext(e) {
                    FileCategory::ImageExtension
                } else if is_media_ext(e) {
                    FileCategory::MediaExtension
                } else {
                    FileCategory::PlainFile
                },
                None => FileCategory::PlainFile,
            }
        }
    } else {
        FileCategory::Unknown
    }
}

/// The `ls -l` type letter: the file type is read by masking the mode
/// with the file-type bitmask and comparing for equality, so each mode
/// names at most one type.
pub open spec fn type_char(mode: u32) -> Seq<char> {
    let t = mode & BITMASK;
    if t == S_IFSOCK {
        seq!['s']
    } else if t == S_IFLNK {
        seq!['l']
    } else if t == S_IFREG {
        seq!['-']
    } else if t == S_IFBLK {
        seq!['b']
    } else if t == S_IFDIR {
        seq!['d']
    } else if t == S_IFCHR {
        seq!['c']
    } else if t == S_IFIFO {
        seq!['f']
    } else {
        Seq::<char>::empty()
    }
}

pub open spec fn perm_char(mode: u32, bit: u32, c: char) -> char {
    if mode & bit != 0 {
        c
    } else {
        '-'
    }
}

pub open spec fn perm_chars(mode: u32) -> Seq<char> {
    seq![
        perm_char(mode, S_IRUSR, 'r'),
        perm_char(mode, S_IWUSR, 'w'),
        perm_char(mode, S_IXUSR, 'x'),
        perm_char(mode, S_IRGRP, 'r'),
        perm_char(mode, S_IWGRP, 'w'),
        perm_char(mode, S_IXGRP, 'x'),
        perm_char(mode, S_IROTH, 'r'),
        perm_char(mode, S_IWOTH, 'w'),
        perm_char(mode, S_IXOTH, 'x'),
    ]
}

pub open spec fn mode_string(mode: u32) -> Seq<char> {
    type_char(mode) + perm_chars(mode)
}

/// Renders mode bits in `ls -l` style: the type letter of the masked
/// file type, then `rwx` triples for owner, group, and other.
pub fn stringify_mode(mode: u32) -> (s: String)
    ensures
        s@ == mode_string(mode),
{
    let mut s = String::new();
    let t = mode & BITMASK;
    if t == S_IFSOCK {
        s.append("s");
    } else if t == S_IFLNK {
        s.append("l");
    } else if t == S_IFREG {
        s.append("-");
    } else if t == S_IFBLK {
        s.append("b");
    } else if t == S_IFDIR {
        s.append("d");
    } else if t == S_IFCHR {
        s.append("c");
    } else if t == S_IFIFO {
        s.append("f");
    }
    proof {
        reveal_strlit("s");
        reveal_strlit("l");
        reveal_strlit("-");
        reveal_strlit("b");
        reveal_strlit("d");
        reveal_strlit("c");
        reveal_strlit("f");
        assert(s@ =~= type_char(mode));
    }
    push_perm(&mut s, mode, S_IRUSR, PermKind::Read);
    push_perm(&mut s, mode, S_IWUSR, PermKind::Write);
    push_perm(&mut s, mode, S_IXUSR, PermKind::Exec);
    proof {
        assert(s@ =~= type_char(mode) + perm_chars(mode).take(3));
    }
    push_perm(&mut s, mode, S_IRGRP, PermKind::Read);
    push_perm(&mut s, mode, S_IWGRP, PermKind::Write);
    push_perm(&mut s, mode, S_IXGRP, PermKind::Exec);
    proof {
        assert(s@ =~= type_char(mode) + perm_chars(mode).take(6));
    }
    push_perm(&mut s, mode, S_IROTH, PermKind::Read);
    push_perm(&mut s, mode, S_IWOTH, PermKind::Write);
    push_perm(&mut s, mode, S_IXOTH, PermKind::Exec);
    proof {
        assert(s@ =~= mode_string(mode));
    }
    s
}

/// Which of the three permission letters a column shows when its bit is
/// set.
#[derive(Clone, Copy, PartialEq, Eq, Structural)]
pub enum PermKind {
    Read,
    Write,
    Exec,
}

pub open spec fn perm_letter(kind: PermKind) -> char {
    match kind {
        PermKind::Read => 'r',
        PermKind::Write => 'w',
        PermKind::Exec => 'x',
    }
}

/// Appends the letter of the given permission bit when it is set in the
/// mode, and `-` otherwise.
fn push_perm(s: &mut String, mode: u32, bit: u32, kind: PermKind)
    ensures
        final(s)@ == old(s)@ + seq![perm_char(mode, bit, perm_letter(kind))],
{
    let c: &str = if mode & bit == 0 {
        "-"
    } else {
        match kind {
            PermKind::Read => "r",
            PermKind::Write => "w",
            PermKind::Exec => "x",
        }
    };
    proof {
        reveal_strlit("-");
        reveal_strlit("w");
        reveal_strlit("r");
        reveal_strlit("x");
    }
    s.append(c);
    proof {
        assert(s@ =~= old(s)@ + seq![perm_char(mode, bit, perm_letter(kind))]);
    }
}

} // verus!
