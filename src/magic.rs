//! Classification of a file's container format from its first bytes.

use vstd::prelude::*;

verus! {

/// Byte order announced by an ELF header.
#[derive(Debug, Clone, Copy, PartialEq, Eq, Structural)]
pub enum ElfEndianess {
    Little,
    Big,
    Unknown,
}

/// The object kind stored in an ELF header.
#[derive(Debug, Clone, Copy, PartialEq, Eq, Structural)]
pub enum ElfType {
    NoType,
    Rel,
    Exec,
    Dyn,
    Core,
    Unknown,
}

/// The outer container format of a file.
#[derive(Debug, Clone, Copy, PartialEq, Eq, Structural)]
pub enum FileType {
    Unknown,
    /// Program database: "Microsoft C/C++ MSF 7.00\r\n\x1a\x44\x53".
    Pdb,
    /// "\x7FELF", with the object kind.
    Elf(ElfType),
    /// DOS header "MZ".
    PE,
    /// 0xfeedface, 0xfeedfacf and their byte-swapped forms.
    MachO,
}

/// Number of header bytes that classification looks at.
pub const HEADER_LEN: usize = 32;

pub open spec fn endianess_of(num: u8) -> ElfEndianess {
    if num == 1 {
        ElfEndianess::Little
    } else if num == 2 {
        ElfEndianess::Big
    } else {
        ElfEndianess::Unknown
    }
}

pub open spec fn elf_type_of(num: u16) -> ElfType {
    if num == 0 {
        ElfType::NoType
    } else if num == 1 {
        ElfType::Rel
    } else if num == 2 {
        ElfType::Exec
    } else if num == 3 {
        ElfType::Dyn
    } else if num == 4 {
        ElfType::Core
    } else {
        ElfType::Unknown
    }
}

impl From<u8> for ElfEndianess {
    fn from(num: u8) -> (r: Self)
        ensures
            r == endianess_of(num),
    {
        match num {
            0x01 => ElfEndianess::Little,
            0x02 => ElfEndianess::Big,
            _ => ElfEndianess::Unknown,
        }
    }
}

impl vstd::std_specs::convert::FromSpecImpl<u8> for ElfEndianess {
    open spec fn obeys_from_spec() -> bool {
        true
    }

    open spec fn from_spec(v: u8) -> ElfEndianess {
        endianess_of(v)
    }
}

impl From<u16> for ElfType {
    fn from(num: u16) -> (r: Self)
        ensures
            r == elf_type_of(num),
    {
        match num {
            0x00 => ElfType::NoType,
            0x01 => ElfType::Rel,
            0x02 => ElfType::Exec,
            0x03 => ElfType::Dyn,
            0x04 => ElfType::Core,
            _ => ElfType::Unknown,
        }
    }
}

impl vstd::std_specs::convert::FromSpecImpl<u16> for ElfType {
    open spec fn obeys_from_spec() -> bool {
        true
    }

    open spec fn from_spec(v: u16) -> ElfType {
        elf_type_of(v)
    }
}

/// The 27 bytes that follow "Mi" in a program database header.
pub open spec fn pdb_signature() -> Seq<u8> {
    seq![
        0x63u8, 0x72, 0x6F, 0x73, 0x6F, 0x66, 0x74, 0x20, 0x43, 0x2F, 0x43, 0x2B, 0x2B, 0x20,
        0x4D, 0x53, 0x46, 0x20, 0x37, 0x2E, 0x30, 0x30, 0x0D, 0x0A, 0x1A, 0x44, 0x53,
    ]
}

/// Whether `h` holds `pat` starting at `off`.
pub open spec fn holds_at(h: Seq<u8>, off: int, pat: Seq<u8>) -> bool {
    off + pat.len() <= h.len() && h.subrange(off, off + pat.len()) == pat
}

/// The classification of an ELF header, given that it starts with "\x7FELF".
pub open spec fn elf_class(h: Seq<u8>) -> FileType {
    let e = endianess_of(h[5]);
    if e == ElfEndianess::Unknown {
        FileType::Unknown
    } else {
        let lo = if e == ElfEndianess::Little { h[16] } else { h[17] };
        let hi = if e == ElfEndianess::Little { h[17] } else { h[16] };
        FileType::Elf(elf_type_of((hi as int * 256 + lo as int) as u16))
    }
}

/// The container format of a file of `file_len` bytes whose first bytes are `h`.
pub open spec fn classify_spec(h: Seq<u8>, file_len: int) -> FileType {
    if file_len < 32 || h.len() < 32 {
        FileType::Unknown
    } else if h[0] == 0x7F {
        if holds_at(h, 1, seq![0x45u8, 0x4C, 0x46]) {
            elf_class(h)
        } else {
            FileType::Unknown
        }
    } else if h[0] == 0x4D {
        if h[1] == 0x5A {
            FileType::PE
        } else if h[1] == 0x69 && holds_at(h, 2, pdb_signature()) {
            FileType::Pdb
        } else {
            FileType::Unknown
        }
    } else if h[0] == 0xFE {
        if holds_at(h, 1, seq![0xEDu8, 0xFA, 0xCE]) || holds_at(h, 1, seq![0xEDu8, 0xFA, 0xCF]) {
            FileType::MachO
        } else {
            FileType::Unknown
        }
    } else if h[0] == 0xCE || h[0] == 0xCF {
        if holds_at(h, 1, seq![0xFAu8, 0xED, 0xFE]) {
            FileType::MachO
        } else {
            FileType::Unknown
        }
    } else {
        FileType::Unknown
    }
}

/// Whether a file of this type may carry debug information worth indexing.
pub open spec fn is_symbol_type(t: FileType) -> bool {
    t == FileType::Elf(ElfType::Exec) || t == FileType::Elf(ElfType::Dyn) || t == FileType::Pdb
}

/// An ELF header that announces little-endian order and object kind 2 is an
/// executable; rewriting it as big-endian, with the two type bytes swapped,
/// gives the same classification.
pub proof fn lemma_elf_byte_order_round_trip(h: Seq<u8>, file_len: int)
    requires
        h.len() >= 32,
        file_len >= 32,
        holds_at(h, 0, seq![0x7Fu8, 0x45, 0x4C, 0x46]),
        h[5] == 1,
    ensures
        (h[16] == 2 && h[17] == 0) ==> classify_spec(h, file_len) == FileType::Elf(ElfType::Exec),
        classify_spec(h.update(5, 2u8).update(16, h[17]).update(17, h[16]), file_len)
            == classify_spec(h, file_len),
{
    let g = h.update(5, 2u8).update(16, h[17]).update(17, h[16]);
    assert(h.subrange(0, 4)[0] == 0x7Fu8);
    assert(h.subrange(1, 4) =~= h.subrange(0, 4).subrange(1, 4));
    assert(g.subrange(1, 4) =~= h.subrange(1, 4));
    assert(seq![0x7Fu8, 0x45, 0x4C, 0x46].subrange(1, 4) =~= seq![0x45u8, 0x4C, 0x46]);
}

/// A header that holds "Mi" and the program database signature is a program
/// database; changing any one byte of the signature makes it `Unknown`.
pub proof fn lemma_pdb_signature_exact(h: Seq<u8>, file_len: int, i: int, b: u8)
    requires
        h.len() >= 32,
        file_len >= 32,
        h[0] == 0x4D,
        h[1] == 0x69,
        holds_at(h, 2, pdb_signature()),
        2 <= i < 29,
        b != h[i],
    ensures
        classify_spec(h, file_len) == FileType::Pdb,
        classify_spec(h.update(i, b), file_len) == FileType::Unknown,
{
    let g = h.update(i, b);
    assert(g.subrange(2, 29)[i - 2] != pdb_signature()[i - 2]);
}

fn bytes_at(h: &[u8], off: usize, pat: &[u8]) -> (r: bool)
    ensures
        r == holds_at(h@, off as int, pat@),
{
    if pat.len() > h.len() || off > h.len() - pat.len() {
        return false;
    }
    let mut i: usize = 0;
    while i < pat.len()
        invariant
            off + pat.len() <= h.len(),
            i <= pat.len(),
            forall|j: int| 0 <= j < i ==> h@[off + j] == pat@[j],
        decreases pat.len() - i,
    {
        if h[off + i] != pat[i] {
            assert(h@.subrange(off as int, off + pat.len())[i as int] != pat@[i as int]);
            return false;
        }
        i = i + 1;
    }
    assert(h@.subrange(off as int, off + pat.len()) =~= pat@);
    true
}

fn elf_file_type(h: &[u8]) -> (r: FileType)
    requires
        h.len() >= 32,
    ensures
        r == elf_class(h@),
{
    let endianness: ElfEndianess = ElfEndianess::from(h[5]);
    let (lower_byte, upper_byte) = match endianness {
        ElfEndianess::Little => (h[16], h[17]),
        ElfEndianess::Big => (h[17], h[16]),
        ElfEndianess::Unknown => return FileType::Unknown,
    };
    let num: u16 = (upper_byte as u16) * 256 + (lower_byte as u16);
    FileType::Elf(ElfType::from(num))
}

/// Classifies a file of `file_len` bytes from its first bytes `header`.
/// A file or a header shorter than 32 bytes is `Unknown`.
pub fn classify(header: &[u8], file_len: u64) -> (r: FileType)
    ensures
        r == classify_spec(header@, file_len as int),
        (file_len < 32 || header@.len() < 32) ==> r == FileType::Unknown,
{
    if file_len < 32 || header.len() < HEADER_LEN {
        return FileType::Unknown;
    }
    match header[0] {
        0x7F => {
            let magic: [u8; 3] = [0x45, 0x4C, 0x46];
            proof {
                assert(magic@ =~= seq![0x45u8, 0x4C, 0x46]);
            }
            if bytes_at(header, 1, magic.as_slice()) {
                elf_file_type(header)
            } else {
                FileType::Unknown
            }
        },
        0x4D => {
            match header[1] {
                0x5A => FileType::PE,
                0x69 => {
                    let sig: [u8; 27] = [
                        0x63, 0x72, 0x6F, 0x73, 0x6F, 0x66, 0x74, 0x20, 0x43, 0x2F, 0x43, 0x2B,
                        0x2B, 0x20, 0x4D, 0x53, 0x46, 0x20, 0x37, 0x2E, 0x30, 0x30, 0x0D, 0x0A,
                        0x1A, 0x44, 0x53,
                    ];
                    proof {
                        assert(sig@ =~= pdb_signature());
                    }
                    if bytes_at(header, 2, sig.as_slice()) {
                        FileType::Pdb
                    } else {
                        FileType::Unknown
                    }
                },
                _ => FileType::Unknown,
            }
        },
        0xFE => {
            let a: [u8; 3] = [0xED, 0xFA, 0xCE];
            let b: [u8; 3] = [0xED, 0xFA, 0xCF];
            proof {
                assert(a@ =~= seq![0xEDu8, 0xFA, 0xCE]);
                assert(b@ =~= seq![0xEDu8, 0xFA, 0xCF]);
            }
            if bytes_at(header, 1, a.as_slice()) || bytes_at(header, 1, b.as_slice()) {
                FileType::MachO
            } else {
                FileType::Unknown
            }
        },
        0xCE | 0xCF => {
            let a: [u8; 3] = [0xFA, 0xED, 0xFE];
            proof {
                assert(a@ =~= seq![0xFAu8, 0xED, 0xFE]);
            }
            if bytes_at(header, 1, a.as_slice()) {
                FileType::MachO
            } else {
                FileType::Unknown
            }
        },
        _ => FileType::Unknown,
    }
}

/// Whether a file of type `t` is worth searching for source files: ELF
/// executables and shared objects, and program databases. Everything else is
/// left out.
pub fn is_possible_symbol_type(t: FileType) -> (r: bool)
    ensures
        r == is_symbol_type(t),
{
    match t {
        FileType::Elf(ElfType::Exec) | FileType::Elf(ElfType::Dyn) | FileType::Pdb => true,
        _ => false,
    }
}

} // verus!
