//! Read-only file lookup over the initrd archive.
//!
//! The same CPIO walk as the model loader, but matching names exactly:
//! the shell's `ls`, `cat` and `hexdump` go through here.

use vstd::prelude::*;

use crate::initrd::{
    cpio_magic, spec_align4, spec_parse_hex, trailer_name,
};

verus! {

/// One archive entry: where its name and data sit inside the image.
pub struct Entry {
    pub name: Vec<u8>,
    pub data: usize,
    pub size: usize,
}

/// The exact-name variant of the archive walk: no `./` alias.
pub open spec fn spec_ramfs_find(a: Seq<u8>, name: Seq<u8>, off: int) -> Option<(int, int)>
    decreases a.len() - off,
{
    if off < 0 || off + 110 > a.len() {
        None
    } else if a.subrange(off, off + 6) != cpio_magic() {
        None
    } else {
        match (spec_parse_hex(a, off + 94, 8), spec_parse_hex(a, off + 54, 8)) {
            (Some(namesize), Some(filesize)) => {
                if off + 110 + namesize > a.len() {
                    None
                } else {
                    let name_off = off + 110;
                    let fname = if namesize > 0 {
                        a.subrange(name_off, name_off + namesize - 1)
                    } else {
                        Seq::empty()
                    };
                    let data_off = spec_align4(name_off + namesize);
                    if fname == trailer_name() {
                        None
                    } else if fname == name {
                        if data_off + filesize <= a.len() {
                            Some((data_off, filesize))
                        } else {
                            None
                        }
                    } else {
                        let next = spec_align4(data_off + filesize);
                        if next <= off || next > a.len() {
                            None
                        } else {
                            spec_ramfs_find(a, name, next)
                        }
                    }
                }
            },
            _ => None,
        }
    }
}

/// Find the file named exactly `path`; the offset and size of its data.
#[verifier::rlimit(100)]
pub fn find(archive: &Vec<u8>, path: &Vec<u8>) -> (r: Option<(usize, usize)>)
    ensures
        match r {
            Some(p) => spec_ramfs_find(archive@, path@, 0) == Some((p.0 as int, p.1 as int)),
            None => spec_ramfs_find(archive@, path@, 0) is None,
        },
{
    let magic: Vec<u8> = crate::initrd::magic_vec();
    let trailer: Vec<u8> = crate::initrd::trailer_vec();
    let len: usize = archive.len();
    let mut off: usize = 0;
    while off < len && len - off >= 110
        invariant
            off <= len,
            len == archive@.len(),
            magic@ == cpio_magic(),
            trailer@ == trailer_name(),
            spec_ramfs_find(archive@, path@, 0) == spec_ramfs_find(archive@, path@, off as int),
        decreases len - off,
    {
        if !crate::initrd::bytes_eq_at(archive, off, &magic) {
            return None;
        }
        let namesize32: u32 = match crate::initrd::read_hex8(archive, off + 94) {
            Some(v) => v,
            None => {
                return None;
            },
        };
        let filesize32: u32 = match crate::initrd::read_hex8(archive, off + 54) {
            Some(v) => v,
            None => {
                return None;
            },
        };
        let namesize: usize = namesize32 as usize;
        let filesize: usize = filesize32 as usize;
        if namesize > len - (off + 110) {
            return None;
        }
        let name_off: usize = off + 110;
        let fname_len: usize = if namesize > 0 {
            namesize - 1
        } else {
            0
        };
        let ghost fname = if namesize > 0 {
            archive@.subrange(name_off as int, name_off + namesize - 1)
        } else {
            Seq::<u8>::empty()
        };
        proof {
            assert(fname.len() == fname_len);
        }

        let is_trailer: bool = if namesize > 0 {
            crate::initrd::subrange_eq_vec(archive, name_off, fname_len, &trailer)
        } else {
            false
        };
        proof {
            if namesize == 0 {
                assert(fname =~= Seq::<u8>::empty());
                assert(fname != trailer_name());
            }
            assert(is_trailer == (fname == trailer_name()));
        }
        if is_trailer {
            return None;
        }

        let is_exact: bool = if namesize > 0 {
            crate::initrd::subrange_eq_vec(archive, name_off, fname_len, path)
        } else {
            path.len() == 0
        };
        proof {
            if namesize == 0 {
                assert(fname =~= Seq::<u8>::empty());
                if path@.len() == 0 {
                    assert(fname =~= path@);
                } else {
                    assert(fname != path@);
                }
            }
            assert(is_exact == (fname == path@));
        }

        let data_off: usize = match crate::initrd::align4_usize(name_off + namesize) {
            Some(v) => v,
            None => {
                proof {
                    let d = spec_align4((name_off + namesize) as int);
                    assert(d > len);
                    assert(spec_align4(d + filesize as int) >= d + filesize);
                }
                return None;
            },
        };
        if is_exact {
            if filesize <= len && data_off <= len - filesize {
                return Some((data_off, filesize));
            } else {
                return None;
            }
        }
        let next_unaligned: usize = if filesize <= usize::MAX - data_off {
            data_off + filesize
        } else {
            proof {
                let nx = spec_align4(data_off + filesize as int);
                assert(nx >= data_off + filesize);
                assert(nx > len);
            }
            return None;
        };
        let next: usize = match crate::initrd::align4_usize(next_unaligned) {
            Some(v) => v,
            None => {
                proof {
                    let nx = spec_align4(next_unaligned as int);
                    assert(nx > len);
                }
                return None;
            },
        };
        proof {
            assert(next >= data_off + filesize > off);
            if next <= len {
                assert(spec_ramfs_find(archive@, path@, off as int) == spec_ramfs_find(
                    archive@,
                    path@,
                    next as int,
                ));
            }
        }
        if next > len {
            return None;
        }
        off = next;
    }
    None
}

} // verus!
