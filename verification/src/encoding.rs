//! Bytes as base-64 text.
use vstd::prelude::*;

verus! {

/// The character that stands for six bits in the standard alphabet.
pub open spec fn base64_char(n: int) -> char {
    if n < 26 {
        ('A' as int + n) as char
    } else if n < 52 {
        ('a' as int + (n - 26)) as char
    } else if n < 62 {
        ('0' as int + (n - 52)) as char
    } else if n == 62 {
        '+'
    } else {
        '/'
    }
}

/// A character of the standard alphabet, or the padding.
pub open spec fn is_base64_char(c: char) -> bool {
    ||| 'A' <= c <= 'Z'
    ||| 'a' <= c <= 'z'
    ||| '0' <= c <= '9'
    ||| c == '+'
    ||| c == '/'
    ||| c == '='
}

/// The four characters of a group of one, two or three bytes: their bits, six by
/// six, with zeros after the last; a character without a bit of theirs is padding.
pub open spec fn base64_group(d: Seq<u8>) -> Seq<char> {
    let a = d[0] as int;
    let b = if d.len() > 1 { d[1] as int } else { 0 };
    let c = if d.len() > 2 { d[2] as int } else { 0 };
    seq![
        base64_char(a / 4),
        base64_char(a % 4 * 16 + b / 16),
        if d.len() > 1 { base64_char(b % 16 * 4 + c / 64) } else { '=' },
        if d.len() > 2 { base64_char(c % 64) } else { '=' },
    ]
}

/// How many bytes the first group has.
pub open spec fn first_group(d: Seq<u8>) -> int {
    if d.len() < 3 { d.len() as int } else { 3 }
}

/// The standard base-64 text of bytes, with padding: group by group, three bytes
/// each, and what is left over.
pub open spec fn base64_text(d: Seq<u8>) -> Seq<char>
    decreases d.len(),
{
    if d.len() == 0 {
        Seq::empty()
    } else {
        base64_group(d.take(first_group(d))) + base64_text(d.skip(first_group(d)))
    }
}

/// `base64::engine::general_purpose::STANDARD` encoding: the text is the one of
/// RFC 4648, in the standard alphabet and with padding.
#[verifier::external_body]
pub(crate) fn encode_base64(d: &[u8]) -> (r: String)
    ensures
        r@ == base64_text(d@),
{
    base64::Engine::encode(&base64::engine::general_purpose::STANDARD, d)
}

/// Base-64 text is written in the alphabet and the padding, with four characters
/// for every three bytes or part of three.
pub proof fn base64_shape(d: Seq<u8>)
    ensures
        base64_text(d).len() == (d.len() + 2) / 3 * 4,
        forall|i: int|
            0 <= i < base64_text(d).len() ==> is_base64_char(#[trigger] base64_text(d)[i]),
    decreases d.len(),
{
    if d.len() > 0 {
        let n = first_group(d);
        base64_shape(d.skip(n));
        let head = base64_group(d.take(n));
        let tail = base64_text(d.skip(n));
        assert forall|i: int| 0 <= i < base64_text(d).len() implies is_base64_char(
            #[trigger] base64_text(d)[i],
        ) by {
            if i < 4 {
                assert(base64_text(d)[i] == head[i]);
            } else {
                assert(base64_text(d)[i] == tail[i - 4]);
            }
        }
    }
}

/// Six bits can be read back from their character, which is not the padding.
proof fn lemma_char(m: int, n: int)
    requires
        0 <= m < 64,
        0 <= n < 64,
    ensures
        base64_char(m) == base64_char(n) ==> m == n,
        base64_char(m) != '=',
{
}

/// The bytes of a group can be read back from its characters.
proof fn lemma_group(x: Seq<u8>, y: Seq<u8>)
    requires
        1 <= x.len() <= 3,
        1 <= y.len() <= 3,
        base64_group(x) == base64_group(y),
    ensures
        x == y,
{
    let xs = base64_group(x);
    let ys = base64_group(y);
    let (a, p) = (x[0] as int, y[0] as int);
    let b = if x.len() > 1 { x[1] as int } else { 0 };
    let q = if y.len() > 1 { y[1] as int } else { 0 };
    let c = if x.len() > 2 { x[2] as int } else { 0 };
    let r = if y.len() > 2 { y[2] as int } else { 0 };
    assert(xs[0] == ys[0] && xs[1] == ys[1] && xs[2] == ys[2] && xs[3] == ys[3]);
    lemma_char(a / 4, p / 4);
    lemma_char(a % 4 * 16 + b / 16, p % 4 * 16 + q / 16);
    lemma_char(b % 16 * 4 + c / 64, q % 16 * 4 + r / 64);
    lemma_char(q % 16 * 4 + r / 64, b % 16 * 4 + c / 64);
    lemma_char(c % 64, r % 64);
    lemma_char(r % 64, c % 64);
    assert(x.len() == y.len());
    assert(a == p && b == q && c == r);
    assert(x =~= y);
}

/// The bytes can be read back from their text: different bytes have different texts.
pub proof fn base64_is_injective(x: Seq<u8>, y: Seq<u8>)
    requires
        base64_text(x) == base64_text(y),
    ensures
        x == y,
    decreases x.len(),
{
    base64_shape(x);
    base64_shape(y);
    if x.len() == 0 || y.len() == 0 {
        assert(x =~= y);
    } else {
        let (m, n) = (first_group(x), first_group(y));
        assert(base64_text(x).take(4) =~= base64_group(x.take(m)));
        assert(base64_text(y).take(4) =~= base64_group(y.take(n)));
        assert(base64_text(x).skip(4) =~= base64_text(x.skip(m)));
        assert(base64_text(y).skip(4) =~= base64_text(y.skip(n)));
        lemma_group(x.take(m), y.take(n));
        base64_is_injective(x.skip(m), y.skip(n));
        assert(x =~= x.take(m) + x.skip(m));
        assert(y =~= y.take(n) + y.skip(n));
    }
}

/// The characters of three bytes spell their twenty-four bits: read as four numbers of
/// six bits each, of which every one has a character of its own, they make the number
/// that the three bytes make.
pub proof fn groups_spell_the_bits(a: u8, b: u8, c: u8, m: int, n: int)
    requires
        0 <= m < 64,
        0 <= n < 64,
    ensures
        exists|w: int, x: int, y: int, z: int|
            0 <= w < 64 && 0 <= x < 64 && 0 <= y < 64 && 0 <= z < 64 && ((w * 64 + x) * 64 + y) * 64
                + z == (a * 256 + b) * 256 + c && base64_group(seq![a, b, c]) == seq![
                #[trigger] base64_char(w),
                #[trigger] base64_char(x),
                #[trigger] base64_char(y),
                #[trigger] base64_char(z),
            ],
        base64_char(m) == base64_char(n) ==> m == n,
{
    lemma_char(m, n);
    let (p, q, r) = (a as int, b as int, c as int);
    let w = p / 4;
    let x = p % 4 * 16 + q / 16;
    let y = q % 16 * 4 + r / 64;
    let z = r % 64;
    assert(((w * 64 + x) * 64 + y) * 64 + z == (p * 256 + q) * 256 + r);
    assert(base64_group(seq![a, b, c]) =~= seq![
        base64_char(w),
        base64_char(x),
        base64_char(y),
        base64_char(z),
    ]);
}

} // verus!
