//! CPIO "newc" initrd parsing.
//!
//! An archive is a run of entries: a 110-byte ASCII header (magic
//! "070701" and thirteen 8-digit hex fields), the NUL-terminated name
//! padded to 4 bytes, then the data padded to 4 bytes. The model blob is
//! looked up under `ai.mod`, with `./ai.mod` accepted too.

use vstd::prelude::*;

verus! {

/// The entry magic "070701".
pub open spec fn cpio_magic() -> Seq<u8> {
    seq![48u8, 55u8, 48u8, 55u8, 48u8, 49u8]
}

/// The name of the terminating entry, "TRAILER!!!".
pub open spec fn trailer_name() -> Seq<u8> {
    seq![84u8, 82u8, 65u8, 73u8, 76u8, 69u8, 82u8, 33u8, 33u8, 33u8]
}

/// The value of one ASCII hex digit, either case.
pub open spec fn spec_hex_digit(c: u8) -> Option<int> {
    if 48 <= c <= 57 {
        Some((c - 48) as int)
    } else if 97 <= c <= 102 {
        Some((c - 97 + 10) as int)
    } else if 65 <= c <= 70 {
        Some((c - 65 + 10) as int)
    } else {
        None
    }
}

/// The first `k` hex digits at `off`, folded most significant first.
pub open spec fn spec_parse_hex(s: Seq<u8>, off: int, k: nat) -> Option<int>
    decreases k,
{
    if k == 0 {
        Some(0)
    } else {
        match spec_parse_hex(s, off, (k - 1) as nat) {
            Some(v) => match spec_hex_digit(s[off + k - 1]) {
                Some(d) => Some(v * 16 + d),
                None => None,
            },
            None => None,
        }
    }
}

/// Sixteen to the `k`.
pub open spec fn pow16(k: nat) -> int
    decreases k,
{
    if k == 0 {
        1
    } else {
        16 * pow16((k - 1) as nat)
    }
}

/// The next multiple of 4 at or above `x`.
pub open spec fn spec_align4(x: int) -> int {
    if x % 4 == 0 {
        x
    } else {
        x + (4 - x % 4)
    }
}

/// The `k` lowercase hex digits of `v`, most significant first.
pub open spec fn spec_hex_digits(v: int, k: nat) -> Seq<u8>
    decreases k,
{
    if k == 0 {
        Seq::empty()
    } else {
        spec_hex_digits(v / 16, (k - 1) as nat).push(spec_hex_char(v % 16))
    }
}

/// One lowercase hex digit character.
pub open spec fn spec_hex_char(d: int) -> u8 {
    if d < 10 {
        (48 + d) as u8
    } else {
        (97 + d - 10) as u8
    }
}

pub proof fn lemma_hex_digits_len(v: int, k: nat)
    ensures
        spec_hex_digits(v, k).len() == k,
    decreases k,
{
    if k > 0 {
        lemma_hex_digits_len(v / 16, (k - 1) as nat);
    }
}

/// Writing a value as hex digits and parsing them back recovers the value.
pub proof fn lemma_hex_round_trip(s: Seq<u8>, off: int, v: int, k: nat)
    requires
        0 <= v < pow16(k),
        forall|j: int| 0 <= j < k ==> s[off + j] == spec_hex_digits(v, k)[j],
    ensures
        spec_parse_hex(s, off, k) == Some(v),
    decreases k,
{
    lemma_hex_digits_len(v, k);
    if k == 0 {
    } else {
        let k1 = (k - 1) as nat;
        lemma_hex_digits_len(v / 16, k1);
        assert(spec_hex_digits(v, k).drop_last() =~= spec_hex_digits(v / 16, k1));
        assert forall|j: int| 0 <= j < k1 implies s[off + j] == #[trigger] spec_hex_digits(v / 16, k1)[j] by {
            assert(s[off + j] == spec_hex_digits(v, k)[j]);
        }
        assert(v / 16 < pow16(k1)) by {
            assert(pow16(k) == 16 * pow16(k1));
        }
        lemma_hex_round_trip(s, off, v / 16, k1);
        let d = v % 16;
        assert(s[off + k - 1] == spec_hex_digits(v, k)[k - 1]);
        assert(spec_hex_digits(v, k)[k - 1] == spec_hex_char(d));
        assert(spec_hex_digit(spec_hex_char(d)) == Some(d));
        assert((v / 16) * 16 + d == v) by {
            vstd::arithmetic::div_mod::lemma_fundamental_div_mod(v, 16);
        }
    }
}

/// Walk the archive from `off` looking for an entry named `name`, with
/// `./name` accepted too; the data offset and size on a hit. A bad magic,
/// a bad hex field, a truncated entry, or the trailer ends the search.
pub open spec fn spec_cpio_find(a: Seq<u8>, name: Seq<u8>, off: int) -> Option<(int, int)>
    decreases a.len() - off,
{
    if off < 0 || off + 110 > a.len() {
        None
    } else if a.subrange(off, off + 6) != cpio_magic() {
        None
    } else {
        match (spec_parse_hex(a, off + 94, 8), spec_parse_hex(a, off + 54, 8)) {
            (Some(namesize), Some(filesize)) => {
                if off + 110 + namesize > a.len() {
                    None
                } else {
                    let name_off = off + 110;
                    let fname = if namesize > 0 {
                        a.subrange(name_off, name_off + namesize - 1)
                    } else {
                        Seq::empty()
                    };
                    let data_off = spec_align4(name_off + namesize);
                    if fname == trailer_name() {
                        None
                    } else if fname == name || (fname.len() == name.len() + 2 && fname[0] == 46
                        && fname[1] == 47 && fname.subrange(2, fname.len() as int) == name) {
                        if data_off + filesize <= a.len() {
                            Some((data_off, filesize))
                        } else {
                            None
                        }
                    } else {
                        let next = spec_align4(data_off + filesize);
                        if next <= off || next > a.len() {
                            None
                        } else {
                            spec_cpio_find(a, name, next)
                        }
                    }
                }
            },
            _ => None,
        }
    }
}

/// Eight hex digits at `off`, as the running code reads them.
pub(crate) fn read_hex8(a: &Vec<u8>, off: usize) -> (r: Option<u32>)
    requires
        off + 8 <= a@.len(),
    ensures
        match r {
            Some(v) => spec_parse_hex(a@, off as int, 8) == Some(v as int),
            None => spec_parse_hex(a@, off as int, 8) is None,
        },
{
    let alen: usize = a.len();
    let mut v: u32 = 0;
    let mut i: usize = 0;
    proof {
        reveal_with_fuel(pow16, 9);
        assert(pow16(8) == 0x100000000);
    }
    while i < 8
        invariant
            i <= 8,
            off + 8 <= alen,
            alen == a@.len(),
            spec_parse_hex(a@, off as int, i as nat) == Some(v as int),
            v < pow16(i as nat),
            pow16(8) == 0x100000000,
        decreases 8 - i,
    {
        proof {
            assert(pow16((i + 1) as nat) == 16 * pow16(i as nat));
            assert(pow16((i + 1) as nat) <= pow16(8)) by {
                lemma_pow16_increases((i + 1) as nat, 8);
            }
        }
        let c: u8 = a[off + i];
        let d: u32 = if 48 <= c && c <= 57 {
            (c - 48) as u32
        } else if 97 <= c && c <= 102 {
            (c - 97 + 10) as u32
        } else if 65 <= c && c <= 70 {
            (c - 65 + 10) as u32
        } else {
            proof {
                assert(spec_parse_hex(a@, off as int, (i + 1) as nat) is None);
                lemma_parse_hex_none_persists(a@, off as int, (i + 1) as nat, 8);
            }
            return None;
        };
        v = v * 16 + d;
        i = i + 1;
    }
    Some(v)
}

/// Once a bad digit stops the parse, longer parses stay stopped.
proof fn lemma_parse_hex_none_persists(s: Seq<u8>, off: int, j: nat, k: nat)
    requires
        j <= k,
        spec_parse_hex(s, off, j) is None,
    ensures
        spec_parse_hex(s, off, k) is None,
    decreases k,
{
    if j < k {
        lemma_parse_hex_none_persists(s, off, j, (k - 1) as nat);
    }
}

proof fn lemma_pow16_increases(j: nat, k: nat)
    requires
        j <= k,
    ensures
        pow16(j) <= pow16(k),
        pow16(j) >= 1,
    decreases k,
{
    if j < k {
        lemma_pow16_increases(j, (k - 1) as nat);
        assert(pow16(k) == 16 * pow16((k - 1) as nat));
    } else if k > 0 {
        lemma_pow16_increases((j - 1) as nat, (k - 1) as nat);
    }
}

/// Do the `n` bytes of `b` stand at `off` in `a`?
pub(crate) fn bytes_eq_at(a: &Vec<u8>, off: usize, b: &Vec<u8>) -> (r: bool)
    requires
        off + b@.len() <= a@.len(),
    ensures
        r == (a@.subrange(off as int, off + b@.len()) == b@),
{
    let alen: usize = a.len();
    let n: usize = b.len();
    let mut i: usize = 0;
    while i < n
        invariant
            i <= n,
            n == b@.len(),
            off + n <= alen,
            alen == a@.len(),
            forall|k: int| 0 <= k < i ==> a@[off + k] == b@[k],
        decreases n - i,
    {
        if a[off + i] != b[i] {
            proof {
                assert(a@.subrange(off as int, off + b@.len())[i as int] != b@[i as int]);
            }
            return false;
        }
        i = i + 1;
    }
    proof {
        assert(a@.subrange(off as int, off + b@.len()) =~= b@);
    }
    true
}

pub(crate) fn trailer_vec() -> (r: Vec<u8>)
    ensures
        r@ == trailer_name(),
{
    let mut v: Vec<u8> = Vec::new();
    v.push(84);
    v.push(82);
    v.push(65);
    v.push(73);
    v.push(76);
    v.push(69);
    v.push(82);
    v.push(33);
    v.push(33);
    v.push(33);
    proof {
        assert(v@ =~= trailer_name());
    }
    v
}

pub(crate) fn magic_vec() -> (r: Vec<u8>)
    ensures
        r@ == cpio_magic(),
{
    let mut v: Vec<u8> = Vec::new();
    v.push(48);
    v.push(55);
    v.push(48);
    v.push(55);
    v.push(48);
    v.push(49);
    proof {
        assert(v@ =~= cpio_magic());
    }
    v
}

/// Smallest multiple of 4 at or above `x`, or `None` past the address
/// space.
pub(crate) fn align4_usize(x: usize) -> (r: Option<usize>)
    ensures
        match r {
            Some(v) => v == spec_align4(x as int),
            None => spec_align4(x as int) > usize::MAX,
        },
{
    let rem: usize = x % 4;
    if rem == 0 {
        Some(x)
    } else {
        let pad: usize = 4 - rem;
        if x > usize::MAX - pad {
            None
        } else {
            Some(x + pad)
        }
    }
}

/// Where an entry's data starts in an archive that begins with that
/// entry: past the header and the NUL-terminated name, 4-byte aligned.
pub open spec fn spec_archive_data_off(name: Seq<u8>) -> int {
    spec_align4(110 + name.len() as int + 1)
}

/// Byte `i` of a single-entry archive: magic, zeroed hex fields except
/// the file and name sizes, the NUL-terminated name, padding, the data.
pub open spec fn spec_archive_byte(name: Seq<u8>, data: Seq<u8>, i: int) -> u8 {
    let nlen = name.len() as int;
    let data_off = spec_archive_data_off(name);
    if i < 6 {
        cpio_magic()[i]
    } else if 54 <= i < 62 {
        spec_hex_digits(data.len() as int, 8)[i - 54]
    } else if 94 <= i < 102 {
        spec_hex_digits(nlen + 1, 8)[i - 94]
    } else if i < 110 {
        48
    } else if i < 110 + nlen {
        name[i - 110]
    } else if i < data_off {
        0
    } else {
        data[i - data_off]
    }
}

/// An archive holding exactly one entry: `name` with contents `data`.
pub open spec fn spec_archive_with_entry(name: Seq<u8>, data: Seq<u8>) -> Seq<u8> {
    Seq::new(
        (spec_archive_data_off(name) + data.len()) as nat,
        |i: int| spec_archive_byte(name, data, i),
    )
}

/// Looking up `name` in an archive whose entry is named `name` finds
/// exactly the entry's data: its aligned offset and its length.
pub proof fn lemma_cpio_find_round_trip(name: Seq<u8>, data: Seq<u8>)
    requires
        name.len() + 1 < 0x100000000,
        data.len() < 0x100000000,
        name != trailer_name(),
    ensures
        spec_cpio_find(spec_archive_with_entry(name, data), name, 0) == Some(
            (spec_archive_data_off(name), data.len() as int),
        ),
{
    let a = spec_archive_with_entry(name, data);
    let nsz = name.len() + 1;
    let data_off = spec_archive_data_off(name);
    reveal_with_fuel(pow16, 9);
    lemma_hex_digits_len(data.len() as int, 8);
    lemma_hex_digits_len(nsz as int, 8);
    assert(data_off >= 110 + nsz);
    assert(a.len() == data_off + data.len());
    assert(a.subrange(0, 6) =~= cpio_magic());
    assert forall|j: int| 0 <= j < 8 implies a[94 + j] == #[trigger] spec_hex_digits(
        nsz as int,
        8,
    )[j] by {
        assert(a[94 + j] == spec_archive_byte(name, data, 94 + j));
    }
    lemma_hex_round_trip(a, 94, nsz as int, 8);
    assert forall|j: int| 0 <= j < 8 implies a[54 + j] == #[trigger] spec_hex_digits(
        data.len() as int,
        8,
    )[j] by {
        assert(a[54 + j] == spec_archive_byte(name, data, 54 + j));
    }
    lemma_hex_round_trip(a, 54, data.len() as int, 8);
    assert(a.subrange(110, 110 + nsz - 1) =~= name);
    assert(spec_align4(110 + nsz as int) == data_off);
}

/// An entry filed under `./name` is found when looked up as `name`.
pub proof fn lemma_cpio_find_round_trip_dot_slash(name: Seq<u8>, data: Seq<u8>)
    requires
        name.len() + 3 < 0x100000000,
        data.len() < 0x100000000,
        seq![46u8, 47u8] + name != trailer_name(),
        seq![46u8, 47u8] + name != name,
    ensures
        spec_cpio_find(
            spec_archive_with_entry(seq![46u8, 47u8] + name, data),
            name,
            0,
        ) == Some((spec_archive_data_off(seq![46u8, 47u8] + name), data.len() as int)),
{
    let dot_name = seq![46u8, 47u8] + name;
    let a = spec_archive_with_entry(dot_name, data);
    let nsz = dot_name.len() + 1;
    let data_off = spec_archive_data_off(dot_name);
    reveal_with_fuel(pow16, 9);
    lemma_hex_digits_len(data.len() as int, 8);
    lemma_hex_digits_len(nsz as int, 8);
    assert(data_off >= 110 + nsz);
    assert(a.len() == data_off + data.len());
    assert(a.subrange(0, 6) =~= cpio_magic());
    assert forall|j: int| 0 <= j < 8 implies a[94 + j] == #[trigger] spec_hex_digits(
        nsz as int,
        8,
    )[j] by {
        assert(a[94 + j] == spec_archive_byte(dot_name, data, 94 + j));
    }
    lemma_hex_round_trip(a, 94, nsz as int, 8);
    assert forall|j: int| 0 <= j < 8 implies a[54 + j] == #[trigger] spec_hex_digits(
        data.len() as int,
        8,
    )[j] by {
        assert(a[54 + j] == spec_archive_byte(dot_name, data, 54 + j));
    }
    lemma_hex_round_trip(a, 54, data.len() as int, 8);
    let fname = a.subrange(110, 110 + nsz - 1);
    assert(fname =~= dot_name);
    assert(fname[0] == 46 && fname[1] == 47);
    assert(fname.subrange(2, fname.len() as int) =~= name);
    assert(spec_align4(110 + nsz as int) == data_off);
}

/// Append the `k` hex digits of `v`, most significant first.
fn push_hex(out: &mut Vec<u8>, v: u32, k: u8)
    ensures
        final(out)@ == old(out)@ + spec_hex_digits(v as int, k as nat),
    decreases k,
{
    if k == 0 {
        proof {
            assert(out@ =~= old(out)@ + spec_hex_digits(v as int, 0));
        }
    } else {
        push_hex(out, v / 16, k - 1);
        let d: u32 = v % 16;
        let c: u8 = if d < 10 {
            48 + (d as u8)
        } else {
            97 + ((d - 10) as u8)
        };
        out.push(c);
        proof {
            assert(c == spec_hex_char((v as int) % 16));
            assert(out@ =~= old(out)@ + spec_hex_digits(v as int, k as nat));
        }
    }
}

/// Append `n` copies of `b`.
fn push_repeat(out: &mut Vec<u8>, b: u8, n: usize)
    ensures
        final(out)@.len() == old(out)@.len() + n,
        forall|i: int|
            0 <= i < old(out)@.len() ==> final(out)@[i] == old(out)@[i],
        forall|i: int|
            old(out)@.len() <= i < old(out)@.len() + n ==> final(out)@[i] == b,
{
    let mut i: usize = 0;
    while i < n
        invariant
            i <= n,
            out@.len() == old(out)@.len() + i,
            forall|k: int| 0 <= k < old(out)@.len() ==> out@[k] == old(out)@[k],
            forall|k: int|
                old(out)@.len() <= k < old(out)@.len() + i ==> out@[k] == b,
        decreases n - i,
    {
        out.push(b);
        i = i + 1;
    }
}

/// Build the single-entry archive that `spec_archive_with_entry`
/// describes.
#[verifier::rlimit(100)]
pub fn archive_with_entry(name: &Vec<u8>, data: &Vec<u8>) -> (r: Vec<u8>)
    requires
        name@.len() + 1 <= u32::MAX,
        data@.len() <= u32::MAX,
        spec_archive_data_off(name@) + data@.len() <= usize::MAX,
    ensures
        r@ == spec_archive_with_entry(name@, data@),
{
    let nlen: usize = name.len();
    let dlen: usize = data.len();
    let mut out: Vec<u8> = Vec::new();
    // Magic "070701".
    out.push(48);
    out.push(55);
    out.push(48);
    out.push(55);
    out.push(48);
    out.push(49);
    // ino, mode, uid, gid, nlink, mtime: six zero fields.
    push_repeat(&mut out, 48, 48);
    // filesize.
    push_hex(&mut out, dlen as u32, 8);
    // devmajor, devminor, rdevmajor, rdevminor: four zero fields.
    push_repeat(&mut out, 48, 32);
    // namesize, counting the terminating NUL.
    push_hex(&mut out, (nlen + 1) as u32, 8);
    // check: one zero field.
    push_repeat(&mut out, 48, 8);
    proof {
        lemma_hex_digits_len(dlen as int, 8);
        lemma_hex_digits_len((nlen + 1) as int, 8);
        assert(out@.len() == 110);
    }
    // The NUL-terminated name.
    let mut i: usize = 0;
    while i < nlen
        invariant
            i <= nlen,
            nlen == name@.len(),
            out@.len() == 110 + i,
            forall|k: int| 0 <= k < 110 ==> out@[k] == spec_archive_byte(name@, data@, k),
            forall|k: int| 110 <= k < 110 + i ==> out@[k] == name@[k - 110],
        decreases nlen - i,
    {
        out.push(name[i]);
        i = i + 1;
    }
    out.push(0);
    // Pad the name to a 4-byte boundary.
    let name_end: usize = 110 + nlen + 1;
    let pad: usize = (4 - (name_end % 4)) % 4;
    push_repeat(&mut out, 0, pad);
    proof {
        assert(out@.len() == spec_archive_data_off(name@)) by {
            assert(name_end + pad == spec_align4(name_end as int)) by {
                assert(name_end % 4 < 4);
            }
        }
    }
    // The data.
    let ghost data_off = spec_archive_data_off(name@);
    let mut j: usize = 0;
    while j < dlen
        invariant
            j <= dlen,
            dlen == data@.len(),
            out@.len() == data_off + j,
            data_off == spec_archive_data_off(name@),
            forall|k: int| 0 <= k < data_off ==> out@[k] == spec_archive_byte(name@, data@, k),
            forall|k: int| data_off <= k < data_off + j ==> out@[k] == data@[k - data_off],
        decreases dlen - j,
    {
        out.push(data[j]);
        j = j + 1;
    }
    proof {
        assert(out@ =~= spec_archive_with_entry(name@, data@));
    }
    out
}

/// The model blob's file name, "ai.mod".
pub open spec fn model_name_bytes() -> Seq<u8> {
    seq![97u8, 105u8, 46u8, 109u8, 111u8, 100u8]
}

/// Locate the model blob `ai.mod` (or `./ai.mod`) in the initrd and hand
/// back its offset, with the conservative length running to the end of
/// the image, once the bytes there open with a valid header.
pub fn try_set_model_from_initrd(initrd: &Vec<u8>) -> (r: Option<(usize, usize)>)
    ensures
        ({
            let found = spec_cpio_find(initrd@, model_name_bytes(), 0);
            match r {
                Some(p) => {
                    &&& initrd@.len() >= 16
                    &&& found is Some
                    &&& p.0 == found->Some_0.0
                    &&& p.0 + p.1 == initrd@.len()
                    &&& crate::model::spec_header_valid_bytes(
                        initrd@.subrange(p.0 as int, initrd@.len() as int),
                    )
                },
                None => {
                    ||| initrd@.len() < 16
                    ||| found is None
                    ||| (found is Some && (found->Some_0.0 > initrd@.len()
                        || !crate::model::spec_header_valid_bytes(
                        initrd@.subrange(found->Some_0.0, initrd@.len() as int),
                    )))
                },
            }
        }),
{
    if initrd.len() < 16 {
        return None;
    }
    let mut name: Vec<u8> = Vec::new();
    name.push(97);
    name.push(105);
    name.push(46);
    name.push(109);
    name.push(111);
    name.push(100);
    proof {
        assert(name@ =~= model_name_bytes());
    }
    match cpio_find(initrd, &name) {
        Some((off, _size)) => {
            if off > initrd.len() {
                return None;
            }
            let blob = crate::model::ModelHeader::read_unaligned(
                vstd::slice::slice_subrange(initrd.as_slice(), off, initrd.len()),
            );
            match blob {
                Some(_) => Some((off, initrd.len() - off)),
                None => None,
            }
        },
        None => None,
    }
}

/// Equality of `n` archive bytes at `off` against all of `b`; false
/// outright when the lengths differ.
pub(crate) fn subrange_eq_vec(a: &Vec<u8>, off: usize, n: usize, b: &Vec<u8>) -> (r: bool)
    requires
        off + n <= a@.len(),
    ensures
        r == (a@.subrange(off as int, off + n) == b@),
{
    if n != b.len() {
        proof {
            assert(a@.subrange(off as int, off + n).len() == n);
        }
        return false;
    }
    bytes_eq_at(a, off, b)
}

/// Find the entry named `name` (or `./name`) and return the offset and
/// size of its data within the archive.
#[verifier::rlimit(100)]
pub fn cpio_find(archive: &Vec<u8>, name: &Vec<u8>) -> (r: Option<(usize, usize)>)
    ensures
        match r {
            Some(p) => spec_cpio_find(archive@, name@, 0) == Some((p.0 as int, p.1 as int)),
            None => spec_cpio_find(archive@, name@, 0) is None,
        },
{
    let magic: Vec<u8> = magic_vec();
    let trailer: Vec<u8> = trailer_vec();
    let len: usize = archive.len();
    let mut off: usize = 0;
    while off < len && len - off >= 110
        invariant
            off <= len,
            len == archive@.len(),
            magic@ == cpio_magic(),
            trailer@ == trailer_name(),
            spec_cpio_find(archive@, name@, 0) == spec_cpio_find(archive@, name@, off as int),
        decreases len - off,
    {
        if !bytes_eq_at(archive, off, &magic) {
            return None;
        }
        let namesize32: u32 = match read_hex8(archive, off + 94) {
            Some(v) => v,
            None => {
                return None;
            },
        };
        let filesize32: u32 = match read_hex8(archive, off + 54) {
            Some(v) => v,
            None => {
                return None;
            },
        };
        let namesize: usize = namesize32 as usize;
        let filesize: usize = filesize32 as usize;
        if namesize > len - (off + 110) {
            return None;
        }
        let name_off: usize = off + 110;
        let fname_len: usize = if namesize > 0 {
            namesize - 1
        } else {
            0
        };
        let ghost fname = if namesize > 0 {
            archive@.subrange(name_off as int, name_off + namesize - 1)
        } else {
            Seq::<u8>::empty()
        };
        proof {
            assert(fname.len() == fname_len);
        }

        let is_trailer: bool = if namesize > 0 {
            subrange_eq_vec(archive, name_off, fname_len, &trailer)
        } else {
            false
        };
        proof {
            if namesize == 0 {
                assert(fname =~= Seq::<u8>::empty());
                assert(fname != trailer_name());
            }
            assert(is_trailer == (fname == trailer_name()));
        }
        if is_trailer {
            return None;
        }

        let is_exact: bool = if namesize > 0 {
            subrange_eq_vec(archive, name_off, fname_len, name)
        } else {
            name.len() == 0
        };
        proof {
            if namesize == 0 {
                assert(fname =~= Seq::<u8>::empty());
                if name@.len() == 0 {
                    assert(fname =~= name@);
                } else {
                    assert(fname != name@);
                }
            }
            assert(is_exact == (fname == name@));
        }

        let is_dot_slash: bool = if fname_len >= 2 && fname_len - 2 == name.len() && namesize > 0 {
            if archive[name_off] == 46 && archive[name_off + 1] == 47 {
                subrange_eq_vec(archive, name_off + 2, fname_len - 2, name)
            } else {
                false
            }
        } else {
            false
        };
        let ghost spec_ds = fname.len() == name@.len() + 2 && fname[0] == 46 && fname[1] == 47
            && fname.subrange(2, fname.len() as int) == name@;
        proof {
            if fname_len >= 2 && fname_len - 2 == name@.len() && namesize > 0 {
                assert(fname[0] == archive@[name_off as int]);
                assert(fname[1] == archive@[name_off + 1]);
                assert(fname.subrange(2, fname.len() as int) =~= archive@.subrange(
                    name_off + 2,
                    name_off + fname_len,
                ));
            }
            assert(is_dot_slash == spec_ds);
        }

        let data_off: usize = match align4_usize(name_off + namesize) {
            Some(v) => v,
            None => {
                // The aligned data start sits past the address space, so it
                // sits past the archive too: a match cannot fit and a skip
                // lands past the last possible header.
                proof {
                    let d = spec_align4((name_off + namesize) as int);
                    assert(d > len);
                    assert(spec_align4(d + filesize as int) >= d + filesize);
                }
                return None;
            },
        };
        if is_exact || is_dot_slash {
            if filesize <= len && data_off <= len - filesize {
                return Some((data_off, filesize));
            } else {
                return None;
            }
        }
        let next_unaligned: usize = if filesize <= usize::MAX - data_off {
            data_off + filesize
        } else {
            proof {
                let nx = spec_align4(data_off + filesize as int);
                assert(nx >= data_off + filesize);
                assert(nx > len);
            }
            return None;
        };
        let next: usize = match align4_usize(next_unaligned) {
            Some(v) => v,
            None => {
                proof {
                    let nx = spec_align4(next_unaligned as int);
                    assert(nx > len);
                }
                return None;
            },
        };
        proof {
            assert(next >= data_off + filesize > off);
            if next <= len {
                assert(spec_cpio_find(archive@, name@, off as int) == spec_cpio_find(
                    archive@,
                    name@,
                    next as int,
                ));
            }
        }
        if next > len {
            return None;
        }
        off = next;
    }
    None
}

} // verus!
