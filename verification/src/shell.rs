//! Shell line handling: the pure pieces.
//!
//! Command dispatch talks to the serial port and the whole kernel, so it
//! stays in the binary; splitting a line into command and argument,
//! parsing a number, and rendering a number live here.

use vstd::prelude::*;

use crate::vga::{console_wf, spec_write_bytes, Console};

verus! {

/// Is this byte an ASCII space?
pub open spec fn is_space(b: u8) -> bool {
    b == 32
}

/// A line split at the first space: the command, then the argument with
/// surrounding spaces stripped.
pub struct SplitLine {
    pub cmd: Vec<u8>,
    pub arg: Vec<u8>,
}

/// The index of the first space, or the length.
pub open spec fn spec_first_space(s: Seq<u8>, i: int) -> int
    decreases s.len() - i,
{
    if i < 0 || i >= s.len() {
        s.len() as int
    } else if is_space(s[i]) {
        i
    } else {
        spec_first_space(s, i + 1)
    }
}

/// Split a trimmed line at its first space: the command word and the
/// trimmed remainder.
pub fn split1(line: &Vec<u8>) -> (r: SplitLine)
    ensures
        ({
            let sp = spec_first_space(line@, 0);
            &&& r.cmd@ == line@.subrange(0, sp)
            &&& forall|k: int| 0 <= k < r.cmd@.len() ==> !is_space(r.cmd@[k])
        }),
        r.arg@.len() > 0 ==> !is_space(r.arg@[0]),
        r.arg@.len() > 0 ==> !is_space(r.arg@[r.arg@.len() - 1]),
{
    let n: usize = line.len();
    let mut i: usize = 0;
    while i < n && line[i] != 32
        invariant
            i <= n,
            n == line@.len(),
            spec_first_space(line@, 0) == spec_first_space(line@, i as int),
            forall|k: int| 0 <= k < i ==> !is_space(line@[k]),
        decreases n - i,
    {
        i = i + 1;
    }
    let sp: usize = i;
    proof {
        if i < n {
            assert(spec_first_space(line@, i as int) == i);
        }
    }
    let mut cmd: Vec<u8> = Vec::new();
    let mut k: usize = 0;
    while k < sp
        invariant
            k <= sp <= n,
            n == line@.len(),
            cmd@.len() == k,
            forall|j: int| 0 <= j < k ==> cmd@[j] == line@[j],
        decreases sp - k,
    {
        cmd.push(line[k]);
        k = k + 1;
    }
    // The argument: everything past the space, leading and trailing
    // spaces dropped.
    let mut start: usize = if sp < n {
        sp + 1
    } else {
        n
    };
    let mut end: usize = n;
    while start < end && line[start] == 32
        invariant
            start <= end <= n,
            n == line@.len(),
        decreases end - start,
    {
        start = start + 1;
    }
    while end > start && line[end - 1] == 32
        invariant
            start <= end <= n,
            n == line@.len(),
            start == end || !is_space(line@[start as int]),
        decreases end,
    {
        end = end - 1;
    }
    let mut arg: Vec<u8> = Vec::new();
    let mut j: usize = start;
    while j < end
        invariant
            start <= j <= end <= n,
            n == line@.len(),
            arg@.len() == j - start,
            start == end || !is_space(line@[start as int]),
            end == start || !is_space(line@[end - 1]),
            forall|q: int| 0 <= q < j - start ==> arg@[q] == line@[start + q],
        decreases end - j,
    {
        arg.push(line[j]);
        j = j + 1;
    }
    proof {
        assert(cmd@ =~= line@.subrange(0, sp as int));
        assert(forall|x: int| 0 <= x < cmd@.len() ==> !is_space(cmd@[x]));
    }
    SplitLine { cmd, arg }
}

/// The decimal value of an all-digit byte string, saturating at the
/// 64-bit limit.
pub open spec fn spec_parse_u64(s: Seq<u8>, i: int, acc: int) -> Option<int>
    decreases s.len() - i,
{
    if i < 0 || i >= s.len() {
        Some(acc)
    } else if 48 <= s[i] <= 57 {
        let next = acc * 10 + (s[i] - 48);
        spec_parse_u64(s, i + 1, if next > u64::MAX {
            u64::MAX as int
        } else {
            next
        })
    } else {
        None
    }
}

/// Parse a decimal number, digits only, saturating on overflow; `None`
/// on any non-digit (including the empty string's digits being none —
/// an empty string parses to zero, as the running code does).
pub fn parse_u64(s: &Vec<u8>) -> (r: Option<u64>)
    ensures
        match r {
            Some(v) => spec_parse_u64(s@, 0, 0) == Some(v as int),
            None => spec_parse_u64(s@, 0, 0) is None,
        },
{
    let n: usize = s.len();
    let mut v: u64 = 0;
    let mut i: usize = 0;
    while i < n
        invariant
            i <= n,
            n == s@.len(),
            spec_parse_u64(s@, 0, 0) == spec_parse_u64(s@, i as int, v as int),
        decreases n - i,
    {
        let c: u8 = s[i];
        if c < 48 || c > 57 {
            return None;
        }
        let d: u64 = (c - 48) as u64;
        let next: u64 = if v > (u64::MAX - d) / 10 {
            u64::MAX
        } else {
            v * 10 + d
        };
        proof {
            let exact = (v as int) * 10 + d;
            if v > (u64::MAX - d) / 10 {
                assert(exact > u64::MAX) by (nonlinear_arith)
                    requires
                        v as int > ((u64::MAX - d) as int) / 10,
                        0 <= d <= 9,
                        exact == (v as int) * 10 + d,
                        u64::MAX == 0xFFFFFFFFFFFFFFFF,
                ;
            } else {
                assert(exact <= u64::MAX) by (nonlinear_arith)
                    requires
                        v as int <= ((u64::MAX - d) as int) / 10,
                        0 <= d <= 9,
                        exact == (v as int) * 10 + d,
                        u64::MAX == 0xFFFFFFFFFFFFFFFF,
                ;
            }
        }
        v = next;
        i = i + 1;
    }
    Some(v)
}

/// Echo the prompt onto the console; the serial copy is the binary's.
pub fn start(con: &mut Console)
    requires
        console_wf(old(con)@),
    ensures
        console_wf(final(con)@),
        final(con)@ == spec_write_bytes(old(con)@, seq![36u8, 32u8]),
{
    con.write_byte(36);
    con.write_byte(32);
    proof {
        reveal_with_fuel(spec_write_bytes, 3);
        assert(seq![36u8, 32u8].drop_first() =~= seq![32u8]);
        assert(seq![36u8, 32u8].drop_first().drop_first() =~= Seq::<u8>::empty());
        assert(con@ == spec_write_bytes(old(con)@, seq![36u8, 32u8]));
    }
}

/// The decimal digits of `n`, for the console's number printing.
pub fn print_num(con: &mut Console, n: u64)
    requires
        console_wf(old(con)@),
    ensures
        console_wf(final(con)@),
    decreases n,
{
    if n < 10 {
        con.write_byte(48 + (n as u8));
    } else {
        print_num(con, n / 10);
        con.write_byte(48 + ((n % 10) as u8));
    }
}

} // verus!
