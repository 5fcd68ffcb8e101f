//! The encrypted command-line argument that hands a session to the game.
//!
//! The game expects `sqex0002` + URL-safe Base64 of a Blowfish-encrypted
//! plaintext + `!////`. The plaintext carries the tick count and the session id;
//! the Blowfish key is the tick count with its low 16 bits cleared, written as
//! eight lower-case hex digits. Only whole 8-byte blocks are enciphered.

use vstd::prelude::*;
use vstd::string::StringSliceAdditionalSpecFns;
use vstd::utf8::{encode_utf8, is_ascii_chars, is_ascii_chars_encode_utf8};
use base64::Engine;
use blowfish::BlowfishLE;
use cipher::generic_array::GenericArray;
use cipher::{BlockEncrypt, KeyInit};

use crate::text::{decimal, hex, numeral, push_decimal, push_hex, chars_of};

verus! {

/// Longest lobby host name the client accepts, NUL included.
pub const LOBBY_HOST_MAX_LEN: usize = 0x14;

/// Byte length of a session id.
pub const SESSION_ID_LEN: usize = 56;

/// The argument to pass after the executable path.
#[derive(Debug, Clone)]
pub struct LaunchArguments {
    /// Exactly what the game parses.
    pub encoded_argument: String,
    /// Tick count the Blowfish key was derived from.
    pub tick_count: u32,
}

/// Why no argument could be built.
#[derive(Debug, Clone, PartialEq, Eq)]
pub enum LaunchArgumentsError {
    /// The session id is not `SESSION_ID_LEN` bytes long (its length given).
    WrongSessionIdLength { len: usize },
}

/// What Blowfish with little-endian word order (`blowfish::BlowfishLE`) makes of
/// the 8-byte `block` under `key`.
pub uninterp spec fn blowfish_le_encrypt(key: Seq<u8>, block: Seq<u8>) -> Seq<u8>;

/// Enciphers one 8-byte block with `blowfish::BlowfishLE`, keyed by `key`
/// through `KeyInit::new_from_slice` (which accepts keys of 4 to 56 bytes).
/// Claimed: the result is the cipher's output for this key and block, and,
/// as for every 64-bit block cipher, it is 8 bytes long.
#[verifier::external_body]
fn blowfish_le_encrypt_block(key: &[u8], block: &[u8]) -> (r: Vec<u8>)
    requires
        4 <= key@.len() <= 56,
        block@.len() == 8,
    ensures
        r@ == blowfish_le_encrypt(key@, block@),
        r@.len() == 8,
{
    let cipher = BlowfishLE::new_from_slice(key).expect("key length is within 4..=56");
    let mut out = GenericArray::clone_from_slice(block);
    cipher.encrypt_block(&mut out);
    out.to_vec()
}

/// The character of a 6-bit value in the standard Base64 alphabet.
pub open spec fn base64_char(v: int) -> char {
    if v < 26 {
        (65 + v) as char
    } else if v < 52 {
        (71 + v) as char
    } else if v < 62 {
        (v - 4) as char
    } else if v == 62 {
        '+'
    } else {
        '/'
    }
}

/// Standard Base64 (RFC 4648 alphabet, `=` padding) of `b`.
pub open spec fn base64_encode(b: Seq<u8>) -> Seq<char>
    decreases b.len(),
{
    if b.len() == 0 {
        seq![]
    } else {
        let b0 = b[0] as int;
        if b.len() == 1 {
            seq![base64_char(b0 / 4), base64_char((b0 % 4) * 16), '=', '=']
        } else {
            let b1 = b[1] as int;
            if b.len() == 2 {
                seq![
                    base64_char(b0 / 4),
                    base64_char((b0 % 4) * 16 + b1 / 16),
                    base64_char((b1 % 16) * 4),
                    '=',
                ]
            } else {
                let b2 = b[2] as int;
                seq![
                    base64_char(b0 / 4),
                    base64_char((b0 % 4) * 16 + b1 / 16),
                    base64_char((b1 % 16) * 4 + b2 / 64),
                    base64_char(b2 % 64),
                ] + base64_encode(b.subrange(3, b.len() as int))
            }
        }
    }
}

/// Encodes `data` with `base64::engine::general_purpose::STANDARD`. Claimed: the
/// result is standard padded Base64, as the crate documents for this engine.
#[verifier::external_body]
fn base64_standard_encode(data: &[u8]) -> (s: String)
    ensures
        s@ == base64_encode(data@),
{
    base64::engine::general_purpose::STANDARD.encode(data)
}

/// The plaintext the game decrypts.
pub open spec fn launch_plaintext(session_id: Seq<char>, tick: u32) -> Seq<char> {
    " T ="@ + decimal(tick as nat) + " /LANG =en-us /REGION =2 /SERVER_UTC =1356916742 /SESSION_ID ="@
        + session_id
}

/// The Blowfish key: the tick with its low 16 bits cleared, as eight hex digits.
pub open spec fn launch_key(tick: u32) -> Seq<u8> {
    hex((tick & 0xFFFF0000u32) as nat, 8, false).map_values(|c: char| c as u8)
}

/// `b` with each whole 8-byte block enciphered and a shorter tail left as it is.
pub open spec fn encipher_blocks(key: Seq<u8>, b: Seq<u8>) -> Seq<u8>
    decreases b.len(),
{
    if b.len() < 8 {
        b
    } else {
        blowfish_le_encrypt(key, b.subrange(0, 8)) + encipher_blocks(key, b.subrange(8, b.len() as int))
    }
}

/// `+` and `/` replaced by `-` and `_`.
pub open spec fn url_safe_char(c: char) -> char {
    if c == '+' {
        '-'
    } else if c == '/' {
        '_'
    } else {
        c
    }
}

pub open spec fn url_safe(s: Seq<char>) -> Seq<char> {
    s.map_values(|c: char| url_safe_char(c))
}

/// The whole argument for a session id and tick count.
pub open spec fn launch_argument(session_id: Seq<char>, tick: u32) -> Seq<char> {
    "sqex0002"@ + url_safe(
        base64_encode(
            encipher_blocks(launch_key(tick), encode_utf8(launch_plaintext(session_id, tick)).push(0u8)),
        ),
    ) + "!////"@
}

spec fn pow16(k: nat) -> nat
    decreases k,
{
    if k == 0 {
        1
    } else {
        16 * pow16((k - 1) as nat)
    }
}

proof fn lemma_numeral_len(n: nat, k: nat, upper: bool)
    requires
        k >= 1,
        n < pow16(k),
    ensures
        numeral(n, 16, upper).len() <= k,
    decreases k,
{
    if n >= 16 {
        if k == 1 {
            assert(pow16(1) == 16 * pow16(0));
        } else {
            let b2 = pow16((k - 1) as nat);
            assert(n / 16 < b2) by (nonlinear_arith)
                requires
                    n < 16 * b2,
            ;
            lemma_numeral_len(n / 16, (k - 1) as nat, upper);
        }
    }
}

fn launch_key_bytes(tick: u32) -> (key: Vec<u8>)
    ensures
        key@ == launch_key(tick),
        key@.len() == 8,
{
    let masked = tick & 0xFFFF0000u32;
    let mut s = String::new();
    push_hex(&mut s, masked as u64, 8, false);
    proof {
        reveal_with_fuel(pow16, 9);
        assert(pow16(8) == 0x1_0000_0000);
        lemma_numeral_len(masked as nat, 8, false);
        assert(s@ =~= hex(masked as nat, 8, false));
    }
    let cs = chars_of(s.as_str());
    let mut key: Vec<u8> = Vec::with_capacity(8);
    let mut i: usize = 0;
    while i < cs.len()
        invariant
            i <= cs@.len(),
            cs@ == hex(masked as nat, 8, false),
            masked == tick & 0xFFFF0000u32,
            key@ == cs@.subrange(0, i as int).map_values(|c: char| c as u8),
        decreases cs@.len() - i,
    {
        key.push(cs[i] as u8);
        i += 1;
        proof {
            assert(key@ =~= cs@.subrange(0, i as int).map_values(|c: char| c as u8));
        }
    }
    proof {
        assert(cs@.subrange(0, cs@.len() as int) == cs@);
    }
    key
}

fn encipher(key: &Vec<u8>, buf: &Vec<u8>) -> (out: Vec<u8>)
    requires
        key@.len() == 8,
    ensures
        out@ == encipher_blocks(key@, buf@),
        out@.len() == buf@.len(),
{
    let mut out: Vec<u8> = Vec::with_capacity(buf.len());
    let mut off: usize = 0;
    let n = buf.len();
    proof {
        assert(buf@.subrange(0, n as int) == buf@);
        assert(out@ + encipher_blocks(key@, buf@) == encipher_blocks(key@, buf@));
    }
    while n - off >= 8
        invariant
            n == buf@.len(),
            off <= n,
            key@.len() == 8,
            out@.len() == off,
            encipher_blocks(key@, buf@) == out@ + encipher_blocks(key@, buf@.subrange(off as int, n as int)),
        decreases n - off,
    {
        let mut block: Vec<u8> = Vec::with_capacity(8);
        let mut j: usize = 0;
        while j < 8
            invariant
                j <= 8,
                off + 8 <= n == buf@.len(),
                block@ == buf@.subrange(off as int, off + j),
            decreases 8 - j,
        {
            block.push(buf[off + j]);
            j += 1;
            proof {
                assert(block@ =~= buf@.subrange(off as int, off + j));
            }
        }
        let enc = blowfish_le_encrypt_block(key.as_slice(), block.as_slice());
        let ghost rest = buf@.subrange(off as int, n as int);
        proof {
            assert(rest.subrange(0, 8) =~= block@);
            assert(rest.subrange(8, rest.len() as int) =~= buf@.subrange(off + 8, n as int));
        }
        let ghost before = out@;
        let mut k: usize = 0;
        while k < 8
            invariant
                k <= 8,
                enc@.len() == 8,
                before.len() == off,
                out@ == before + enc@.subrange(0, k as int),
            decreases 8 - k,
        {
            out.push(enc[k]);
            k += 1;
            proof {
                assert(out@ =~= before + enc@.subrange(0, k as int));
            }
        }
        proof {
            assert(enc@.subrange(0, 8) == enc@);
            assert(before + (enc@ + encipher_blocks(key@, buf@.subrange(off + 8, n as int))) == out@
                + encipher_blocks(key@, buf@.subrange(off + 8, n as int)));
        }
        off = off + 8;
    }
    let ghost before = out@;
    let mut t = off;
    while t < n
        invariant
            off <= t <= n == buf@.len(),
            before.len() == off,
            out@ == before + buf@.subrange(off as int, t as int),
        decreases n - t,
    {
        out.push(buf[t]);
        t += 1;
        proof {
            assert(out@ =~= before + buf@.subrange(off as int, t as int));
        }
    }
    proof {
        assert(encipher_blocks(key@, buf@.subrange(off as int, n as int)) == buf@.subrange(off as int, n as int));
    }
    out
}

fn url_safe_string(s: &str) -> (r: String)
    ensures
        r@ == url_safe(s@),
{
    let cs = chars_of(s);
    let mut r = String::new();
    let mut i: usize = 0;
    while i < cs.len()
        invariant
            i <= cs@.len(),
            cs@ == s@,
            r@ == url_safe(s@.subrange(0, i as int)),
        decreases cs@.len() - i,
    {
        let c = cs[i];
        let d = if c == '+' {
            '-'
        } else if c == '/' {
            '_'
        } else {
            c
        };
        r.push(d);
        i += 1;
        proof {
            assert(url_safe(s@.subrange(0, i as int)) =~= url_safe(s@.subrange(0, i - 1)).push(d));
        }
    }
    proof {
        assert(s@.subrange(0, cs@.len() as int) == s@);
    }
    r
}

/// The UTF-8 encoding of a concatenation is the concatenation of the
/// encodings.
proof fn lemma_encode_utf8_concat(a: Seq<char>, b: Seq<char>)
    ensures
        encode_utf8(a + b) == encode_utf8(a) + encode_utf8(b),
    decreases a.len(),
{
    if a.len() == 0 {
        assert(a + b =~= b);
    } else {
        assert((a + b).drop_first() =~= a.drop_first() + b);
        lemma_encode_utf8_concat(a.drop_first(), b);
    }
}

/// A numeral in base 10 is ASCII digits.
proof fn lemma_decimal_ascii(n: nat)
    ensures
        is_ascii_chars(numeral(n, 10, false)),
    decreases n,
{
    if n >= 10 {
        lemma_decimal_ascii(n / 10);
        let p = numeral(n / 10, 10, false);
        let q = p.push(crate::text::digit_char((n % 10) as int, false));
        assert forall|i: int| 0 <= i < q.len() implies '\0' <= #[trigger] q[i] <= '\u{7f}' by {
            if i < p.len() {
                assert(q[i] == p[i]);
            }
        }
    }
}

/// The launch plaintext of a session id of `SESSION_ID_LEN` bytes is
/// `123` bytes plus the tick's decimal digits.
proof fn lemma_plaintext_len(session_id: Seq<char>, tick: u32)
    requires
        encode_utf8(session_id).len() == SESSION_ID_LEN,
    ensures
        encode_utf8(launch_plaintext(session_id, tick)).len() + 1 == 123 + decimal(tick as nat).len(),
{
    reveal_strlit(" T =");
    reveal_strlit(" /LANG =en-us /REGION =2 /SERVER_UTC =1356916742 /SESSION_ID =");
    let a = " T ="@;
    let d = decimal(tick as nat);
    let m = " /LANG =en-us /REGION =2 /SERVER_UTC =1356916742 /SESSION_ID ="@;
    lemma_decimal_ascii(tick as nat);
    assert(is_ascii_chars(a));
    assert(is_ascii_chars(m));
    let head = a + d + m;
    assert(is_ascii_chars(head)) by {
        assert forall|i: int| 0 <= i < head.len() implies '\0' <= #[trigger] head[i] <= '\u{7f}' by {
            if i < a.len() {
                assert(head[i] == a[i]);
            } else if i < a.len() + d.len() {
                assert(head[i] == d[i - a.len()]);
            } else {
                assert(head[i] == m[i - a.len() - d.len()]);
            }
        }
    }
    is_ascii_chars_encode_utf8(head);
    lemma_encode_utf8_concat(head, session_id);
    assert(launch_plaintext(session_id, tick) == head + session_id);
    assert(a.len() == 4 && m.len() == 62);
}

/// Builds the launch argument for `session_id` at `tick_count`; refused when the
/// session id is not `SESSION_ID_LEN` bytes long.
pub fn build_launch_arguments(session_id: &str, tick_count: u32) -> (r: Result<
    LaunchArguments,
    LaunchArgumentsError,
>)
    ensures
        session_id.len() != SESSION_ID_LEN ==> r == Err::<LaunchArguments, LaunchArgumentsError>(
            LaunchArgumentsError::WrongSessionIdLength { len: session_id.len() },
        ),
        session_id.len() == SESSION_ID_LEN ==> (r matches Ok(a) && a.tick_count
            == tick_count && a.encoded_argument@ == launch_argument(session_id@, tick_count)),
        session_id.len() == SESSION_ID_LEN ==> (r matches Ok(a) && exists|b: Seq<u8>|
            b.len() == 123 + decimal(tick_count as nat).len() && a.encoded_argument@ == "sqex0002"@ + url_safe(
                #[trigger] base64_encode(b),
            ) + "!////"@),
{
    let len = session_id.len();
    if len != SESSION_ID_LEN {
        return Err(LaunchArgumentsError::WrongSessionIdLength { len });
    }
    let byte_count = session_id.as_bytes().len();
    assert(byte_count == len);
    let mut plaintext = String::from_str(" T =");
    push_decimal(&mut plaintext, tick_count as u64);
    plaintext.append(" /LANG =en-us /REGION =2 /SERVER_UTC =1356916742 /SESSION_ID =");
    plaintext.append(session_id);
    let mut buf = plaintext.as_str().as_bytes_vec();
    buf.push(0u8);
    let key = launch_key_bytes(tick_count);
    let ciphered = encipher(&key, &buf);
    let encoded = base64_standard_encode(ciphered.as_slice());
    let body = url_safe_string(encoded.as_str());
    let mut arg = String::from_str("sqex0002");
    arg.append(body.as_str());
    arg.append("!////");
    proof {
        assert(plaintext@ =~= launch_plaintext(session_id@, tick_count));
        assert(arg@ =~= launch_argument(session_id@, tick_count));
        assert(encode_utf8(session_id@).len() == SESSION_ID_LEN);
        lemma_plaintext_len(session_id@, tick_count);
        assert(ciphered@.len() == 123 + decimal(tick_count as nat).len());
        assert(arg@ == "sqex0002"@ + url_safe(base64_encode(ciphered@)) + "!////"@);
    }
    Ok(LaunchArguments { encoded_argument: arg, tick_count })
}

/// The message reported for `e`.
pub open spec fn spec_session_id_message(e: LaunchArgumentsError) -> Seq<char> {
    match e {
        LaunchArgumentsError::WrongSessionIdLength { len } => "expected a "@ + decimal(SESSION_ID_LEN as nat)
            + "-character session id, got "@ + decimal(len as nat),
    }
}

impl LaunchArgumentsError {
    /// The message reported for this error.
    pub fn message(&self) -> (s: String)
        ensures
            s@ == spec_session_id_message(*self),
    {
        match self {
            LaunchArgumentsError::WrongSessionIdLength { len } => {
                let mut s = String::from_str("expected a ");
                push_decimal(&mut s, SESSION_ID_LEN as u64);
                s.append("-character session id, got ");
                push_decimal(&mut s, *len as u64);
                s
            },
        }
    }
}

/// The argument begins with `sqex0002` and ends with `!////`.
pub proof fn lemma_launch_argument_framing(session_id: Seq<char>, tick: u32)
    ensures
        launch_argument(session_id, tick).subrange(0, 8) == "sqex0002"@,
        launch_argument(session_id, tick).len() >= 13,
        launch_argument(session_id, tick).subrange(
            launch_argument(session_id, tick).len() - 5,
            launch_argument(session_id, tick).len() as int,
        ) == "!////"@,
{
    reveal_strlit("sqex0002");
    reveal_strlit("!////");
    let a = launch_argument(session_id, tick);
    assert(a.subrange(0, 8) =~= "sqex0002"@);
    assert(a.subrange(a.len() - 5, a.len() as int) =~= "!////"@);
}

/// Between its `sqex0002` prefix and `!////` suffix the argument is
/// URL-safe Base64: it holds no `+` and no `/`.
pub proof fn lemma_launch_body_url_safe(session_id: Seq<char>, tick: u32)
    ensures
        forall|i: int|
            8 <= i < launch_argument(session_id, tick).len() - 5 ==> #[trigger] launch_argument(session_id, tick)[i]
                != '+' && launch_argument(session_id, tick)[i] != '/',
{
    reveal_strlit("sqex0002");
    reveal_strlit("!////");
    let a = launch_argument(session_id, tick);
    let b = base64_encode(
        encipher_blocks(launch_key(tick), encode_utf8(launch_plaintext(session_id, tick)).push(0u8)),
    );
    assert forall|i: int| 8 <= i < a.len() - 5 implies #[trigger] a[i] != '+' && a[i] != '/' by {
        assert(a[i] == url_safe(b)[i - 8]);
        assert(url_safe(b)[i - 8] == url_safe_char(b[i - 8]));
    }
}

/// The argument is a function of the session id's text and the tick: equal
/// inputs give equal arguments.
pub proof fn lemma_launch_argument_deterministic(s1: Seq<char>, s2: Seq<char>, tick1: u32, tick2: u32)
    requires
        s1 == s2,
        tick1 == tick2,
    ensures
        launch_argument(s1, tick1) == launch_argument(s2, tick2),
{
}

/// The Blowfish key depends only on the tick's upper 16 bits.
pub proof fn lemma_launch_key_ignores_low_bits(tick1: u32, tick2: u32)
    requires
        tick1 & 0xFFFF0000u32 == tick2 & 0xFFFF0000u32,
    ensures
        launch_key(tick1) == launch_key(tick2),
{
}

} // verus!
