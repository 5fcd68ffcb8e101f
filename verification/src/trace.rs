//! The text of the winsock trace written by the `ws2_32.dll` proxy: record
//! headers, timestamps and `xxd`-style hex dumps of socket payloads.

use vstd::prelude::*;

use crate::text::{decimal, hex, pad_left, push_decimal, push_decimal_padded, push_hex, push_signed_decimal, signed_decimal};

verus! {

/// A byte shown as itself in the text column: printable ASCII.
pub open spec fn printable(b: u8) -> bool {
    0x20 <= b < 0x7f
}

/// The text column of a dump row: printable bytes as themselves, others as `.`.
pub open spec fn ascii_column(chunk: Seq<u8>) -> Seq<char> {
    chunk.map_values(|b: u8| if printable(b) { b as char } else { '.' })
}

/// The hex column of a dump row: ` xx` per byte, with an extra space before
/// the ninth.
pub open spec fn hex_column(chunk: Seq<u8>) -> Seq<char>
    decreases chunk.len(),
{
    if chunk.len() == 0 {
        seq![]
    } else {
        hex_column(chunk.drop_last()) + (if chunk.len() - 1 == 8 {
            seq![' ']
        } else {
            seq![]
        }) + seq![' '] + hex(chunk.last() as nat, 2, false)
    }
}

/// Spaces that keep the text column aligned after a row of `n` bytes.
pub open spec fn row_padding(n: nat) -> nat {
    ((16 - n) * 3 + if n <= 8 { 1int } else { 0int }) as nat
}

/// One dump row: offset, hex column, padding, text column.
pub open spec fn dump_row(chunk: Seq<u8>, offset: nat) -> Seq<char> {
    "  "@ + hex(offset, 8, false) + ":"@ + hex_column(chunk) + Seq::new(row_padding(chunk.len()), |_i: int| ' ')
        + "  |"@ + ascii_column(chunk) + "|\n"@
}

/// The dump rows of `bytes` from offset `start` on, 16 bytes a row.
pub open spec fn dump_rows(bytes: Seq<u8>, start: nat) -> Seq<char>
    decreases bytes.len() - start,
{
    if start >= bytes.len() {
        seq![]
    } else {
        let end: int = if start + 16 <= bytes.len() { (start + 16) as int } else { bytes.len() as int };
        dump_row(bytes.subrange(start as int, end), start) + dump_rows(bytes, end as nat)
    }
}

fn push_row(out: &mut String, bytes: &[u8], start: usize, end: usize)
    requires
        start < end <= bytes@.len(),
        end - start <= 16,
    ensures
        final(out)@ == old(out)@ + dump_row(bytes@.subrange(start as int, end as int), start as nat),
{
    let ghost chunk = bytes@.subrange(start as int, end as int);
    let ghost base = out@;
    out.append("  ");
    push_hex(out, start as u64, 8, false);
    out.append(":");
    let ghost after_offset = out@;
    let mut i: usize = start;
    while i < end
        invariant
            start <= i <= end <= bytes@.len(),
            chunk == bytes@.subrange(start as int, end as int),
            out@ == after_offset + hex_column(bytes@.subrange(start as int, i as int)),
        decreases end - i,
    {
        let ghost before = out@;
        if i - start == 8 {
            out.push(' ');
        }
        out.push(' ');
        push_hex(out, bytes[i] as u64, 2, false);
        i += 1;
        proof {
            let c = bytes@.subrange(start as int, i as int);
            assert(c.drop_last() =~= bytes@.subrange(start as int, i - 1));
            assert(out@ =~= after_offset + hex_column(c));
        }
    }
    let n = end - start;
    let pad: usize = (16 - n) * 3 + if n <= 8 {
        1
    } else {
        0
    };
    let ghost after_hex = out@;
    let mut k: usize = 0;
    while k < pad
        invariant
            k <= pad,
            out@ == after_hex + Seq::new(k as nat, |_i: int| ' '),
        decreases pad - k,
    {
        out.push(' ');
        k += 1;
        proof {
            assert(out@ =~= after_hex + Seq::new(k as nat, |_i: int| ' '));
        }
    }
    out.append("  |");
    let ghost after_bar = out@;
    let mut j: usize = start;
    while j < end
        invariant
            start <= j <= end <= bytes@.len(),
            out@ == after_bar + ascii_column(bytes@.subrange(start as int, j as int)),
        decreases end - j,
    {
        let c = bytes[j];
        if 0x20 <= c && c < 0x7f {
            out.push(c as char);
        } else {
            out.push('.');
        }
        j += 1;
        proof {
            assert(out@ =~= after_bar + ascii_column(bytes@.subrange(start as int, j as int)));
        }
    }
    out.append("|\n");
    proof {
        assert(row_padding(chunk.len()) == pad);
        assert(out@ =~= base + dump_row(chunk, start as nat));
    }
}

/// Appends the `xxd`-style dump of `bytes`, 16 bytes a row.
pub fn hex_dump(out: &mut String, bytes: &[u8])
    ensures
        final(out)@ == old(out)@ + dump_rows(bytes@, 0),
{
    let n = bytes.len();
    let ghost base = out@;
    let mut start: usize = 0;
    while start < n
        invariant
            n == bytes@.len(),
            start <= n,
            base + dump_rows(bytes@, 0) == out@ + dump_rows(bytes@, start as nat),
        decreases n - start,
    {
        let end = if n - start >= 16 {
            start + 16
        } else {
            n
        };
        let ghost before = out@;
        push_row(out, bytes, start, end);
        proof {
            assert(dump_rows(bytes@, start as nat) == dump_row(bytes@.subrange(start as int, end as int), start as nat)
                + dump_rows(bytes@, end as nat));
            assert(before + (dump_row(bytes@.subrange(start as int, end as int), start as nat) + dump_rows(
                bytes@,
                end as nat,
            )) == out@ + dump_rows(bytes@, end as nat));
        }
        start = end;
    }
    proof {
        assert(out@ + Seq::<char>::empty() == out@);
    }
}

/// The record timestamp for `secs` seconds and `millis` milliseconds since
/// the Unix epoch: `T<days>D<hh>:<mm>:<ss>.<mmm>`.
pub open spec fn spec_timestamp(secs: u64, millis: u32) -> Seq<char> {
    let sod = secs % 86400;
    "T"@ + decimal((secs / 86400) as nat) + "D"@ + pad_left(decimal((sod / 3600) as nat), 2, '0') + ":"@ + pad_left(
        decimal(((sod % 3600) / 60) as nat),
        2,
        '0',
    ) + ":"@ + pad_left(decimal((sod % 60) as nat), 2, '0') + "."@ + pad_left(decimal(millis as nat), 3, '0')
}

/// The record timestamp (see `spec_timestamp`).
pub fn timestamp_text(secs: u64, millis: u32) -> (s: String)
    ensures
        s@ == spec_timestamp(secs, millis),
{
    let days = secs / 86_400;
    let sod = secs % 86_400;
    let mut s = String::from_str("T");
    push_decimal(&mut s, days);
    s.append("D");
    push_decimal_padded(&mut s, sod / 3600, 2);
    s.append(":");
    push_decimal_padded(&mut s, (sod % 3600) / 60, 2);
    s.append(":");
    push_decimal_padded(&mut s, sod % 60, 2);
    s.append(".");
    push_decimal_padded(&mut s, millis as u64, 3);
    s
}

/// A record header: `<ts> tid=<tid> <fn> socket=<s> len=<len> rc=<rc>`.
pub open spec fn spec_header(ts: Seq<char>, tid: u32, fn_name: Seq<char>, socket: u64, len: i32, rc: i32) -> Seq<
    char,
> {
    ts + " tid="@ + decimal(tid as nat) + " "@ + fn_name + " socket="@ + decimal(socket as nat) + " len="@
        + signed_decimal(len as int) + " rc="@ + signed_decimal(rc as int) + "\n"@
}

/// The header line of a trace record.
pub fn trace_header(ts: &str, tid: u32, fn_name: &str, socket: u64, len: i32, rc: i32) -> (s: String)
    ensures
        s@ == spec_header(ts@, tid, fn_name@, socket, len, rc),
{
    let mut s = String::from_str(ts);
    s.append(" tid=");
    push_decimal(&mut s, tid as u64);
    s.append(" ");
    s.append(fn_name);
    s.append(" socket=");
    push_decimal(&mut s, socket);
    s.append(" len=");
    push_signed_decimal(&mut s, len as i64);
    s.append(" rc=");
    push_signed_decimal(&mut s, rc as i64);
    s.append("\n");
    s
}

/// The continuation line carrying `WSAGetLastError` after a failed `bind`
/// or `listen`; nothing when the call succeeded.
pub fn last_error_line(rc: i32, wsa_err: i32) -> (s: String)
    ensures
        rc == 0 ==> s@.len() == 0,
        rc != 0 ==> s@ == "  WSAGetLastError="@ + signed_decimal(wsa_err as int) + "\n"@,
{
    if rc == 0 {
        return String::new();
    }
    let mut s = String::from_str("  WSAGetLastError=");
    push_signed_decimal(&mut s, wsa_err as i64);
    s.append("\n");
    s
}

/// The line that precedes the dump of one `WSASend`/`WSARecv` buffer.
pub fn buffer_line(index: u32, len: u32) -> (s: String)
    ensures
        s@ == "  buffer["@ + decimal(index as nat) + "] len="@ + decimal(len as nat) + "\n"@,
{
    let mut s = String::from_str("  buffer[");
    push_decimal(&mut s, index as u64);
    s.append("] len=");
    push_decimal(&mut s, len as u64);
    s.append("\n");
    s
}

/// How many payload bytes of a `send`/`recv` are dumped: none unless the
/// call moved bytes, else what it moved, capped at the buffer length.
pub fn payload_dump_len(rc: i32, len: i32) -> (n: usize)
    ensures
        rc <= 0 ==> n == 0,
        rc > 0 ==> n == (if rc <= len { rc as int } else if len > 0 { len as int } else { 0 }),
{
    if rc <= 0 {
        return 0;
    }
    let cap: i32 = if len > 0 {
        len
    } else {
        0
    };
    if rc <= cap {
        rc as usize
    } else {
        cap as usize
    }
}

/// How `total` received bytes fill `WSARecv` buffers of capacities `caps`
/// (`None` for a buffer without memory, which is skipped), from `i` on:
/// each buffer takes what is left up to its capacity, until nothing is left.
pub open spec fn spec_recv_fill(total: nat, caps: Seq<Option<u32>>, i: int) -> Seq<(u32, u32)>
    decreases caps.len() - i,
{
    if i >= caps.len() || i < 0 || total == 0 {
        seq![]
    } else {
        match caps[i] {
            None => spec_recv_fill(total, caps, i + 1),
            Some(cap) => {
                let n = if total <= cap { total } else { cap as nat };
                seq![(i as u32, n as u32)] + spec_recv_fill((total - n) as nat, caps, i + 1)
            },
        }
    }
}

/// The (buffer index, byte count) pairs dumped for a `WSARecv` that
/// received `total` bytes into buffers of capacities `caps`.
pub fn recv_fill(total: u32, caps: &Vec<Option<u32>>) -> (r: Vec<(u32, u32)>)
    requires
        caps@.len() <= u32::MAX,
    ensures
        r@ == spec_recv_fill(total as nat, caps@, 0),
{
    let mut out: Vec<(u32, u32)> = Vec::new();
    let mut remaining = total;
    let mut i: usize = 0;
    while i < caps.len() && remaining > 0
        invariant
            i <= caps@.len() <= u32::MAX,
            spec_recv_fill(total as nat, caps@, 0) == out@ + spec_recv_fill(remaining as nat, caps@, i as int),
        decreases caps@.len() - i,
    {
        match caps[i] {
            None => {},
            Some(cap) => {
                let n = if remaining <= cap {
                    remaining
                } else {
                    cap
                };
                let ghost before = out@;
                out.push((i as u32, n));
                proof {
                    assert(before + (seq![(i as u32, n)] + spec_recv_fill((remaining - n) as nat, caps@, i + 1))
                        == out@ + spec_recv_fill((remaining - n) as nat, caps@, i + 1));
                }
                remaining = remaining - n;
            },
        }
        i += 1;
    }
    proof {
        assert(out@ + Seq::<(u32, u32)>::empty() == out@);
    }
    out
}

} // verus!
