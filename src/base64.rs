//! Text-safe encoding of arbitrary bytes: four characters of the 64-symbol
//! alphabet `A-Z a-z 0-9 + /` for each group of three bytes, with `=` padding.
use vstd::prelude::*;
use vstd::std_specs::iter::IteratorSpec;
use crate::text::push_char;

verus! {

/// Why a text could not be decoded.
#[derive(Debug, Clone, Copy, PartialEq, Eq, Structural)]
pub enum DecodeError {
    /// A character outside the alphabet, `=`, space, `\n` and `\r`.
    InvalidCharacter(char),
}

/// The alphabet symbol of index `v` (below 64).
pub open spec fn alphabet_char(v: nat) -> char {
    if v < 26 {
        ((v + 65) as u8) as char
    } else if v < 52 {
        ((v + 71) as u8) as char
    } else if v < 62 {
        ((v - 4) as u8) as char
    } else if v == 62 {
        '+'
    } else {
        '/'
    }
}

/// The index of `c` in the alphabet, if it belongs to it.
pub open spec fn alphabet_index(c: char) -> Option<nat> {
    if 'A' <= c && c <= 'Z' {
        Some((c as nat - 65) as nat)
    } else if 'a' <= c && c <= 'z' {
        Some((c as nat - 71) as nat)
    } else if '0' <= c && c <= '9' {
        Some((c as nat + 4) as nat)
    } else if c == '+' {
        Some(62)
    } else if c == '/' {
        Some(63)
    } else {
        None
    }
}

/// Characters that decoding passes over.
pub open spec fn is_skipped(c: char) -> bool {
    c == ' ' || c == '\n' || c == '\r'
}

/// Byte `i` of `b`, or zero past its end.
pub open spec fn byte_or_zero(b: Seq<u8>, i: int) -> nat {
    if 0 <= i < b.len() {
        b[i] as nat
    } else {
        0
    }
}

/// The six-bit value at position `k` of the bit stream of `b` (zero-filled at the end).
pub open spec fn sextet_at(b: Seq<u8>, k: int) -> nat {
    let g = k / 4;
    let b0 = byte_or_zero(b, 3 * g);
    let b1 = byte_or_zero(b, 3 * g + 1);
    let b2 = byte_or_zero(b, 3 * g + 2);
    if k % 4 == 0 {
        b0 / 4
    } else if k % 4 == 1 {
        (b0 % 4) * 16 + b1 / 16
    } else if k % 4 == 2 {
        (b1 % 16) * 4 + b2 / 64
    } else {
        b2 % 64
    }
}

/// How many alphabet symbols encode `n` bytes (the rest of the text is padding).
pub open spec fn symbol_count(n: nat) -> nat {
    if n % 3 == 0 {
        4 * (n / 3)
    } else {
        4 * (n / 3) + n % 3 + 1
    }
}

/// Length of the encoding of `n` bytes: four characters per started group of three.
pub open spec fn encoded_len(n: nat) -> nat {
    4 * ((n + 2) / 3)
}

/// The encoding of `b`.
pub open spec fn encode_spec(b: Seq<u8>) -> Seq<char> {
    Seq::new(
        encoded_len(b.len()),
        |k: int|
            if k < symbol_count(b.len()) {
                alphabet_char(sextet_at(b, k))
            } else {
                '='
            },
    )
}

/// The six-bit values that `s` carries, read up to its first `=` and past
/// skipped characters; `Err(c)` names the first character that is neither.
pub open spec fn sextets_of(s: Seq<char>) -> Result<Seq<u8>, char>
    decreases s.len(),
{
    if s.len() == 0 {
        Ok(Seq::empty())
    } else if s[0] == '=' {
        Ok(Seq::empty())
    } else if is_skipped(s[0]) {
        sextets_of(s.drop_first())
    } else {
        match alphabet_index(s[0]) {
            Some(v) => match sextets_of(s.drop_first()) {
                Ok(t) => Ok(seq![v as u8] + t),
                Err(c) => Err(c),
            },
            None => Err(s[0]),
        }
    }
}

/// Byte `j` of the bit stream made of the six-bit values `v`.
pub open spec fn byte_of_sextets(v: Seq<u8>, j: int) -> u8 {
    let g = j / 3;
    if j % 3 == 0 {
        (v[4 * g] * 4 + v[4 * g + 1] / 16) as u8
    } else if j % 3 == 1 {
        ((v[4 * g + 1] % 16) * 16 + v[4 * g + 2] / 4) as u8
    } else {
        ((v[4 * g + 2] % 4) * 64 + v[4 * g + 3]) as u8
    }
}

/// The whole bytes of the bit stream made of the six-bit values `v`.
pub open spec fn bytes_of_sextets(v: Seq<u8>) -> Seq<u8> {
    Seq::new(v.len() * 3 / 4, |j: int| byte_of_sextets(v, j))
}

/// What decoding `s` gives.
pub open spec fn decode_spec(s: Seq<char>) -> Result<Seq<u8>, DecodeError> {
    match sextets_of(s) {
        Ok(v) => Ok(bytes_of_sextets(v)),
        Err(c) => Err(DecodeError::InvalidCharacter(c)),
    }
}

/// The alphabet symbol of index `v`.
fn symbol(v: u8) -> (c: char)
    requires
        v < 64,
    ensures
        c == alphabet_char(v as nat),
{
    if v < 26 {
        (v + 65) as char
    } else if v < 52 {
        (v + 71) as char
    } else if v < 62 {
        (v - 4) as char
    } else if v == 62 {
        '+'
    } else {
        '/'
    }
}

/// Encodes `data`: empty input gives empty text, every started group of three
/// bytes gives four characters.
pub fn encode(data: &[u8]) -> (r: String)
    ensures
        r@ == encode_spec(data@),
{
    let ghost b = data@;
    let n = data.len();
    let mut result = String::new();
    let mut i: usize = 0;
    while i < n
        invariant
            b == data@,
            n == b.len(),
            i <= n,
            i % 3 == 0 || i == n,
            result@ =~= encode_spec(b).subrange(0, encoded_len(i as nat) as int),
        decreases n - i,
    {
        let b0 = data[i];
        let b1: u8 = if i + 1 < n { data[i + 1] } else { 0 };
        let b2: u8 = if i + 2 < n { data[i + 2] } else { 0 };
        let filled: usize = if n - i >= 3 { 3 } else { n - i };
        let c0 = symbol(b0 / 4);
        let c1 = symbol((b0 % 4) * 16 + b1 / 16);
        let c2 = if filled >= 2 { symbol((b1 % 16) * 4 + b2 / 64) } else { '=' };
        let c3 = if filled >= 3 { symbol(b2 % 64) } else { '=' };
        proof {
            lemma_encode_group(b, i as int / 3);
            assert(encoded_len((i + filled) as nat) == encoded_len(i as nat) + 4);
        }
        push_char(&mut result, c0);
        push_char(&mut result, c1);
        push_char(&mut result, c2);
        push_char(&mut result, c3);
        i = i + filled;
    }
    result
}

/// The four characters that encode group `g` of `b`.
proof fn lemma_encode_group(b: Seq<u8>, g: int)
    requires
        0 <= g,
        3 * g < b.len(),
    ensures
        encoded_len(b.len()) >= 4 * g + 4,
        encode_spec(b)[4 * g] == alphabet_char(byte_or_zero(b, 3 * g) / 4),
        encode_spec(b)[4 * g + 1] == alphabet_char(
            (byte_or_zero(b, 3 * g) % 4) * 16 + byte_or_zero(b, 3 * g + 1) / 16,
        ),
        encode_spec(b)[4 * g + 2] == if 3 * g + 1 < b.len() {
            alphabet_char((byte_or_zero(b, 3 * g + 1) % 16) * 4 + byte_or_zero(b, 3 * g + 2) / 64)
        } else {
            '='
        },
        encode_spec(b)[4 * g + 3] == if 3 * g + 2 < b.len() {
            alphabet_char(byte_or_zero(b, 3 * g + 2) % 64)
        } else {
            '='
        },
{
    let n = b.len();
    assert((4 * g) / 4 == g);
    assert((4 * g + 1) / 4 == g && (4 * g + 1) % 4 == 1);
    assert((4 * g + 2) / 4 == g && (4 * g + 2) % 4 == 2);
    assert((4 * g + 3) / 4 == g && (4 * g + 3) % 4 == 3);
    assert((4 * g) % 4 == 0);
}

/// The alphabet index of `c`, if it belongs to the alphabet.
fn symbol_index(c: char) -> (r: Option<u8>)
    ensures
        r matches Some(v) ==> alphabet_index(c) == Some(v as nat) && v < 64,
        r is None ==> alphabet_index(c) is None,
{
    if 'A' <= c && c <= 'Z' {
        Some((c as u32 - 65) as u8)
    } else if 'a' <= c && c <= 'z' {
        Some((c as u32 - 71) as u8)
    } else if '0' <= c && c <= '9' {
        Some((c as u32 + 4) as u8)
    } else if c == '+' {
        Some(62)
    } else if c == '/' {
        Some(63)
    } else {
        None
    }
}

/// Reads the six-bit values of `data`, as `sextets_of` describes.
fn read_sextets(data: &str) -> (r: Result<Vec<u8>, DecodeError>)
    ensures
        match r {
            Ok(v) => sextets_of(data@) == Ok::<Seq<u8>, char>(v@),
            Err(DecodeError::InvalidCharacter(c)) => sextets_of(data@) == Err::<Seq<u8>, char>(c),
        },
        r matches Ok(v) ==> forall|i: int| 0 <= i < v.len() ==> v[i] < 64,
{
    let ghost s = data@;
    let mut out: Vec<u8> = Vec::new();
    let mut chars = data.chars();
    let ghost mut k: int = 0;
    proof {
        assert(s.subrange(0, s.len() as int) =~= s);
        match sextets_of(s) {
            Ok(t) => {
                assert(Seq::<u8>::empty() + t =~= t);
            },
            Err(_) => {},
        }
    }
    loop
        invariant_except_break
            chars.obeys_prophetic_iter_laws(),
            0 <= k <= s.len(),
            chars.remaining() == s.subrange(k, s.len() as int),
            sextets_of(s) == prepend(out@, sextets_of(s.subrange(k, s.len() as int))),
        invariant
            s == data@,
            forall|i: int| 0 <= i < out.len() ==> out[i] < 64,
        ensures
            sextets_of(s) == Ok::<Seq<u8>, char>(out@),
        decreases s.len() - k,
    {
        let ghost rest = s.subrange(k, s.len() as int);
        match chars.next() {
            None => {
                proof {
                    assert(rest.len() == 0);
                    assert(out@ + Seq::<u8>::empty() =~= out@);
                }
                break;
            },
            Some(ch) => {
                proof {
                    assert(rest[0] == ch);
                    assert(rest.drop_first() =~= s.subrange(k + 1, s.len() as int));
                }
                if ch == '=' {
                    proof {
                        assert(out@ + Seq::<u8>::empty() =~= out@);
                    }
                    break;
                }
                if !(ch == ' ' || ch == '\n' || ch == '\r') {
                    match symbol_index(ch) {
                        Some(v) => {
                            proof {
                                let tail = sextets_of(rest.drop_first());
                                assert(prepend(out@, prepend(seq![v], tail)) == prepend(
                                    out@.push(v),
                                    tail,
                                )) by {
                                    match tail {
                                        Ok(t) => {
                                            assert(out@ + (seq![v] + t) =~= out@.push(v) + t);
                                        },
                                        Err(_) => {},
                                    }
                                }
                            }
                            out.push(v);
                        },
                        None => {
                            return Err(DecodeError::InvalidCharacter(ch));
                        },
                    }
                }
                proof {
                    k = k + 1;
                }
            },
        }
    }
    Ok(out)
}

/// `pre` put in front of a read that succeeded; an error stays as it is.
pub open spec fn prepend(pre: Seq<u8>, r: Result<Seq<u8>, char>) -> Result<Seq<u8>, char> {
    match r {
        Ok(t) => Ok(pre + t),
        Err(c) => Err(c),
    }
}

/// The whole bytes of the bit stream made of the six-bit values `v`.
fn sextets_to_bytes(v: &Vec<u8>) -> (r: Vec<u8>)
    requires
        forall|i: int| 0 <= i < v.len() ==> v[i] < 64,
    ensures
        r@ == bytes_of_sextets(v@),
{
    let n = v.len();
    let ghost target = bytes_of_sextets(v@);
    let mut out: Vec<u8> = Vec::new();
    let mut i: usize = 0;
    while n - i >= 4
        invariant
            n == v.len(),
            forall|i: int| 0 <= i < v.len() ==> v[i] < 64,
            target == bytes_of_sextets(v@),
            i % 4 == 0,
            i <= n,
            out@ =~= target.subrange(0, i * 3 / 4),
        decreases n - i,
    {
        let x0 = v[i];
        let x1 = v[i + 1];
        let x2 = v[i + 2];
        let x3 = v[i + 3];
        proof {
            let g = i as int / 4;
            assert(3 * g / 3 == g && (3 * g) % 3 == 0);
            assert((3 * g + 1) / 3 == g && (3 * g + 1) % 3 == 1);
            assert((3 * g + 2) / 3 == g && (3 * g + 2) % 3 == 2);
            assert((i + 4) * 3 / 4 == 3 * g + 3);
            assert(i * 3 / 4 == 3 * g);
        }
        out.push(x0 * 4 + x1 / 16);
        out.push((x1 % 16) * 16 + x2 / 4);
        out.push((x2 % 4) * 64 + x3);
        i = i + 4;
    }
    proof {
        let g = i as int / 4;
        assert(3 * g / 3 == g && (3 * g) % 3 == 0);
        assert((3 * g + 1) / 3 == g && (3 * g + 1) % 3 == 1);
        assert(i * 3 / 4 == 3 * g);
    }
    if n - i >= 2 {
        out.push(v[i] * 4 + v[i + 1] / 16);
    }
    if n - i >= 3 {
        out.push((v[i + 1] % 16) * 16 + v[i + 2] / 4);
    }
    proof {
        assert(n * 3 / 4 == i * 3 / 4 + if n - i >= 3 { 2int } else if n - i >= 2 { 1int } else { 0int });
    }
    out
}

/// Decodes `data`: skips spaces, `\n` and `\r`, stops at the first `=`, and
/// fails on the first other character outside the alphabet.
pub fn decode(data: &str) -> (r: Result<Vec<u8>, DecodeError>)
    ensures
        match r {
            Ok(v) => decode_spec(data@) == Ok::<Seq<u8>, DecodeError>(v@),
            Err(e) => decode_spec(data@) == Err::<Seq<u8>, DecodeError>(e),
        },
{
    match read_sextets(data) {
        Ok(v) => Ok(sextets_to_bytes(&v)),
        Err(e) => Err(e),
    }
}

/// Every alphabet symbol reads back as its index, and is neither padding nor skipped.
proof fn lemma_symbol_reads_back(x: nat)
    requires
        x < 64,
    ensures
        alphabet_index(alphabet_char(x)) == Some(x),
        alphabet_char(x) != '=',
        !is_skipped(alphabet_char(x)),
{
}

/// Reading alphabet symbols in front of `t` gives their indices in front of what `t` gives.
proof fn lemma_read_symbols(v: Seq<u8>, t: Seq<char>)
    requires
        forall|i: int| 0 <= i < v.len() ==> v[i] < 64,
    ensures
        sextets_of(v.map_values(|x: u8| alphabet_char(x as nat)) + t) == prepend(v, sextets_of(t)),
    decreases v.len(),
{
    let syms = v.map_values(|x: u8| alphabet_char(x as nat));
    let s = syms + t;
    if v.len() == 0 {
        assert(s =~= t);
        match sextets_of(t) {
            Ok(u) => {
                assert(v + u =~= u);
            },
            Err(_) => {},
        }
    } else {
        lemma_symbol_reads_back(v[0] as nat);
        let rest = v.drop_first();
        lemma_read_symbols(rest, t);
        assert(s.drop_first() =~= rest.map_values(|x: u8| alphabet_char(x as nat)) + t);
        assert(s[0] == alphabet_char(v[0] as nat));
        assert((v[0] as nat) as u8 == v[0]);
        match sextets_of(t) {
            Ok(u) => {
                assert(seq![v[0]] + (rest + u) =~= v + u);
            },
            Err(_) => {},
        }
    }
}

/// The three bytes of a group come back from their four six-bit values.
proof fn lemma_group_bits(b0: nat, b1: nat, b2: nat)
    requires
        b0 < 256,
        b1 < 256,
        b2 < 256,
    ensures
        (b0 / 4) * 4 + ((b0 % 4) * 16 + b1 / 16) / 16 == b0,
        (((b0 % 4) * 16 + b1 / 16) % 16) * 16 + ((b1 % 16) * 4 + b2 / 64) / 4 == b1,
        (((b1 % 16) * 4 + b2 / 64) % 4) * 64 + b2 % 64 == b2,
        b0 / 4 < 64,
        (b0 % 4) * 16 + b1 / 16 < 64,
        (b1 % 16) * 4 + b2 / 64 < 64,
        b2 % 64 < 64,
{
}

/// Decoding the encoding of any byte sequence, the empty one included, gives it back.
pub proof fn lemma_round_trip(b: Seq<u8>)
    ensures
        decode_spec(encode_spec(b)) == Ok::<Seq<u8>, DecodeError>(b),
{
    let n = b.len();
    let m = symbol_count(n);
    let e = encode_spec(b);
    let sx = Seq::new(m, |k: int| sextet_at(b, k) as u8);
    assert forall|k: int| 0 <= k < m implies sx[k] < 64 && sx[k] as nat == sextet_at(b, k) by {
        lemma_group_bits(byte_or_zero(b, 3 * (k / 4)), byte_or_zero(b, 3 * (k / 4) + 1), byte_or_zero(b, 3 * (k / 4) + 2));
    }
    let syms = sx.map_values(|x: u8| alphabet_char(x as nat));
    let pad = e.subrange(m as int, e.len() as int);
    assert(m <= e.len());
    assert(e =~= syms + pad);
    lemma_read_symbols(sx, pad);
    assert(sextets_of(pad) == Ok::<Seq<u8>, char>(Seq::empty())) by {
        if pad.len() > 0 {
            assert(pad[0] == '=');
        }
    }
    assert(sx + Seq::<u8>::empty() =~= sx);
    let out = bytes_of_sextets(sx);
    assert(m * 3 / 4 == n);
    assert forall|j: int| 0 <= j < n implies out[j] == b[j] by {
        let g = j / 3;
        let b0 = byte_or_zero(b, 3 * g);
        let b1 = byte_or_zero(b, 3 * g + 1);
        let b2 = byte_or_zero(b, 3 * g + 2);
        lemma_group_bits(b0, b1, b2);
        assert((4 * g) / 4 == g && (4 * g) % 4 == 0);
        assert((4 * g + 1) / 4 == g && (4 * g + 1) % 4 == 1);
        assert((4 * g + 2) / 4 == g && (4 * g + 2) % 4 == 2);
        assert((4 * g + 3) / 4 == g && (4 * g + 3) % 4 == 3);
        if j % 3 == 0 {
            assert(4 * g + 1 < m);
        } else if j % 3 == 1 {
            assert(4 * g + 2 < m);
        } else {
            assert(4 * g + 3 < m);
        }
    }
    assert(out =~= b);
}

/// The encoding of a non-empty byte sequence has a length that is a multiple of four.
pub proof fn lemma_encoded_len_multiple_of_four(b: Seq<u8>)
    requires
        b.len() > 0,
    ensures
        encode_spec(b).len() % 4 == 0,
        encode_spec(b).len() > 0,
{
}

/// A space, `\n` or `\r` inserted anywhere in a text leaves what the text decodes to unchanged.
pub proof fn lemma_skipped_char_ignored(a: Seq<char>, c: char, t: Seq<char>)
    requires
        is_skipped(c),
    ensures
        decode_spec(a + seq![c] + t) == decode_spec(a + t),
{
    lemma_skipped_char_ignored_sextets(a, c, t);
}

proof fn lemma_skipped_char_ignored_sextets(a: Seq<char>, c: char, t: Seq<char>)
    requires
        is_skipped(c),
    ensures
        sextets_of(a + seq![c] + t) == sextets_of(a + t),
    decreases a.len(),
{
    let s = a + seq![c] + t;
    if a.len() == 0 {
        assert(s[0] == c);
        assert(s.drop_first() =~= a + t);
    } else {
        lemma_skipped_char_ignored_sextets(a.drop_first(), c, t);
        assert(s[0] == (a + t)[0]);
        assert(s.drop_first() =~= a.drop_first() + seq![c] + t);
        assert((a + t).drop_first() =~= a.drop_first() + t);
    }
}

} // verus!
