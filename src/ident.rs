//! The ELF identification header: signature check and word-size class.
use vstd::prelude::*;

verus! {

/// Number of bytes in the identification header.
pub const IDENT_LEN: usize = 16;

/// Number of signature bytes at the start of the header.
pub const MAGIC_LEN: usize = 4;

/// Offset of the class byte in the header.
pub const CLASS_OFFSET: usize = 4;

/// Class byte of a 32-bit object.
pub const CLASS_32: u8 = 1;

/// Class byte of a 64-bit object.
pub const CLASS_64: u8 = 2;

/// Word-size class of a binary. Two binaries are compatible iff their classes are equal.
#[derive(Clone, Copy, Debug, PartialEq, Eq, Structural)]
pub enum ArchClass {
    Elf32,
    Elf64,
}

/// Why an identification header was refused.
#[derive(Debug)]
pub enum IdentError {
    /// Fewer bytes than a full identification header.
    Truncated,
    /// The header does not start with the ELF signature; holds its first bytes.
    BadMagic(Vec<u8>),
    /// The class byte is neither of the two known values.
    InvalidClass(u8),
}

/// The four signature bytes `0x7f 'E' 'L' 'F'`.
pub open spec fn elf_magic() -> Seq<u8> {
    seq![0x7fu8, 0x45u8, 0x4cu8, 0x46u8]
}

/// The outcome of reading the identification header `h`: its class, or the error that
/// `h` calls for (a bad signature carries the first `MAGIC_LEN` bytes).
pub open spec fn ident_matches(h: Seq<u8>, r: Result<ArchClass, IdentError>) -> bool {
    if h.len() < IDENT_LEN {
        r matches Err(IdentError::Truncated)
    } else if h.subrange(0, MAGIC_LEN as int) != elf_magic() {
        r matches Err(IdentError::BadMagic(m)) && m@ == h.subrange(0, MAGIC_LEN as int)
    } else if h[CLASS_OFFSET as int] == CLASS_32 {
        r == Ok::<ArchClass, IdentError>(ArchClass::Elf32)
    } else if h[CLASS_OFFSET as int] == CLASS_64 {
        r == Ok::<ArchClass, IdentError>(ArchClass::Elf64)
    } else {
        r matches Err(IdentError::InvalidClass(c)) && c == h[CLASS_OFFSET as int]
    }
}

/// Only the identification header decides the outcome: whatever follows it in the file
/// (a corrupt dynamic section, say) changes nothing.
pub proof fn lemma_header_decides(header: Seq<u8>, rest: Seq<u8>, r: Result<ArchClass, IdentError>)
    requires
        header.len() == IDENT_LEN,
    ensures
        ident_matches(header + rest, r) == ident_matches(header, r),
{
    let whole = header + rest;
    assert(whole.subrange(0, MAGIC_LEN as int) =~= header.subrange(0, MAGIC_LEN as int));
    assert(whole[CLASS_OFFSET as int] == header[CLASS_OFFSET as int]);
}

/// Reads the word-size class from the identification header at the start of a file.
/// Only the first `IDENT_LEN` bytes are looked at, so the rest of the file may be corrupt.
pub fn architecture_class(header: &[u8]) -> (r: Result<ArchClass, IdentError>)
    ensures
        ident_matches(header@, r),
{
    if header.len() < IDENT_LEN {
        return Err(IdentError::Truncated);
    }
    let magic: [u8; 4] = [0x7fu8, 0x45u8, 0x4cu8, 0x46u8];
    let mut i: usize = 0;
    let mut same = true;
    while i < MAGIC_LEN
        invariant
            i <= MAGIC_LEN,
            header@.len() >= IDENT_LEN,
            magic@ == elf_magic(),
            same == (forall|k: int| 0 <= k < i ==> header@[k] == elf_magic()[k]),
        decreases MAGIC_LEN - i,
    {
        if header[i] != magic[i] {
            same = false;
        }
        i = i + 1;
    }
    if same {
        assert(header@.subrange(0, MAGIC_LEN as int) =~= elf_magic());
    } else {
        assert(header@.subrange(0, MAGIC_LEN as int) != elf_magic()) by {
            let k = choose|k: int| 0 <= k < MAGIC_LEN && header@[k] != elf_magic()[k];
            assert(header@.subrange(0, MAGIC_LEN as int)[k] != elf_magic()[k]);
        }
    }
    if !same {
        let mut m: Vec<u8> = Vec::new();
        let mut j: usize = 0;
        while j < MAGIC_LEN
            invariant
                j <= MAGIC_LEN,
                header@.len() >= IDENT_LEN,
                m@ == header@.subrange(0, j as int),
            decreases MAGIC_LEN - j,
        {
            m.push(header[j]);
            proof {
                assert(header@.subrange(0, j + 1) == header@.subrange(0, j as int).push(header@[j as int]));
            }
            j = j + 1;
        }
        return Err(IdentError::BadMagic(m));
    }
    let class = header[CLASS_OFFSET];
    if class == CLASS_32 {
        Ok(ArchClass::Elf32)
    } else if class == CLASS_64 {
        Ok(ArchClass::Elf64)
    } else {
        Err(IdentError::InvalidClass(class))
    }
}

} // verus!
