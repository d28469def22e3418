//! Random (version 4) UUIDs in their hyphenated lowercase text form.

use crate::random::fill_random;
use vstd::prelude::*;

verus! {

/// The lowercase hexadecimal digit of `n` (0 to 15).
pub open spec fn hex_digit(n: int) -> char {
    if n < 10 {
        (('0' as int) + n) as char
    } else {
        (('a' as int) + n - 10) as char
    }
}

/// Two lowercase hexadecimal digits of a byte, high nibble first.
pub open spec fn hex_byte(b: u8) -> Seq<char> {
    seq![hex_digit(b as int / 16), hex_digit(b as int % 16)]
}

/// The lowercase hexadecimal text of `bytes`, two digits per byte.
pub open spec fn hex_bytes(bytes: Seq<u8>) -> Seq<char>
    decreases bytes.len(),
{
    if bytes.len() == 0 {
        Seq::empty()
    } else {
        hex_bytes(bytes.drop_last()) + hex_byte(bytes.last())
    }
}

/// The hyphenated text of the 16 bytes of a UUID: groups of 4, 2, 2, 2 and 6
/// bytes in hexadecimal, separated by hyphens.
pub open spec fn uuid_text(b: Seq<u8>) -> Seq<char> {
    hex_bytes(b.subrange(0, 4)) + seq!['-'] + hex_bytes(b.subrange(4, 6)) + seq!['-']
        + hex_bytes(b.subrange(6, 8)) + seq!['-'] + hex_bytes(b.subrange(8, 10)) + seq!['-']
        + hex_bytes(b.subrange(10, 16))
}

/// The bytes of a random UUID made from 16 random bytes: version 4 in the
/// high nibble of byte 6 and the RFC 4122 variant in the top bits of byte 8.
pub open spec fn uuid_v4_bytes(b: Seq<u8>) -> Seq<u8> {
    b.update(6, (b[6] & 0x0f) | 0x40).update(8, (b[8] & 0x3f) | 0x80)
}

proof fn lemma_hex_bytes_len(bytes: Seq<u8>)
    ensures
        hex_bytes(bytes).len() == 2 * bytes.len(),
    decreases bytes.len(),
{
    if bytes.len() > 0 {
        lemma_hex_bytes_len(bytes.drop_last());
    }
}

/// The text of a random UUID has 36 characters, hyphens at positions 8, 13,
/// 18 and 23, and the version digit `4` at position 14.
pub proof fn lemma_uuid_v4_text_shape(b: Seq<u8>)
    requires
        b.len() == 16,
    ensures
        uuid_text(uuid_v4_bytes(b)).len() == 36,
        uuid_text(uuid_v4_bytes(b))[8] == '-',
        uuid_text(uuid_v4_bytes(b))[13] == '-',
        uuid_text(uuid_v4_bytes(b))[18] == '-',
        uuid_text(uuid_v4_bytes(b))[23] == '-',
        uuid_text(uuid_v4_bytes(b))[14] == '4',
{
    let v = uuid_v4_bytes(b);
    lemma_hex_bytes_len(v.subrange(0, 4));
    lemma_hex_bytes_len(v.subrange(4, 6));
    lemma_hex_bytes_len(v.subrange(6, 8));
    lemma_hex_bytes_len(v.subrange(8, 10));
    lemma_hex_bytes_len(v.subrange(10, 16));
    let g = v.subrange(6, 8);
    let x: u8 = v[6];
    assert(x == (b[6] & 0x0f) | 0x40);
    let y: u8 = b[6];
    assert(((y & 0x0f) | 0x40) / 16 == 4) by (bit_vector);
    assert(g.drop_last() =~= seq![x]);
    assert(seq![x].drop_last() =~= Seq::<u8>::empty());
    assert(hex_bytes(seq![x]) =~= hex_byte(x));
    assert(hex_bytes(g)[0] == hex_digit(x as int / 16));
}

/// Builds the UUID of the 16 `bytes` with `uuid::Builder::from_random_bytes`
/// and gives its text (`Display` of `uuid::Uuid`): the bytes with the version
/// and variant bits set, in hyphenated lowercase hexadecimal.
#[verifier::external_body]
fn uuid_v4_from_random_bytes(bytes: [u8; 16]) -> (r: String)
    ensures
        r@ == uuid_text(uuid_v4_bytes(bytes@)),
{
    uuid::Builder::from_random_bytes(bytes).into_uuid().to_string()
}

/// A fresh random UUID in text form, made from the 16 random bytes that the
/// operating system puts in `buf`, or the error text when it gives none.
pub(crate) fn new_uuid_v4_text(buf: &mut Vec<u8>) -> (r: Result<String, String>)
    requires
        old(buf)@.len() == 16,
    ensures
        final(buf)@.len() == 16,
        r matches Ok(t) ==> t@ == uuid_text(uuid_v4_bytes(final(buf)@)),
{
    match fill_random(buf) {
        Ok(()) => {},
        Err(e) => {
            return Err(e);
        },
    }
    let bytes: [u8; 16] = [
        buf[0],
        buf[1],
        buf[2],
        buf[3],
        buf[4],
        buf[5],
        buf[6],
        buf[7],
        buf[8],
        buf[9],
        buf[10],
        buf[11],
        buf[12],
        buf[13],
        buf[14],
        buf[15],
    ];
    proof {
        assert(bytes@ =~= buf@);
    }
    Ok(uuid_v4_from_random_bytes(bytes))
}

/// Two sets of random bytes that differ outside the version and variant bits
/// give different UUID texts: the text records every random byte.
pub proof fn law_uuid_text_records_bytes(a: Seq<u8>, b: Seq<u8>)
    requires
        a.len() == 16,
        b.len() == 16,
        uuid_v4_bytes(a) != uuid_v4_bytes(b),
    ensures
        uuid_text(uuid_v4_bytes(a)) != uuid_text(uuid_v4_bytes(b)),
{
    let u = uuid_v4_bytes(a);
    let v = uuid_v4_bytes(b);
    if uuid_text(u) == uuid_text(v) {
        lemma_uuid_text_injective(u, v);
    }
}

proof fn lemma_hex_digit_injective(x: int, y: int)
    requires
        0 <= x < 16,
        0 <= y < 16,
        hex_digit(x) == hex_digit(y),
    ensures
        x == y,
{
    assert(hex_digit(x) as int == if x < 10 { 48 + x } else { 87 + x });
    assert(hex_digit(y) as int == if y < 10 { 48 + y } else { 87 + y });
}

proof fn lemma_hex_bytes_injective(a: Seq<u8>, b: Seq<u8>)
    requires
        a.len() == b.len(),
        hex_bytes(a) == hex_bytes(b),
    ensures
        a == b,
    decreases a.len(),
{
    if a.len() > 0 {
        lemma_hex_bytes_len(a.drop_last());
        lemma_hex_bytes_len(b.drop_last());
        let ha = hex_bytes(a.drop_last());
        let hb = hex_bytes(b.drop_last());
        let n = ha.len();
        assert(hex_bytes(a) == ha + hex_byte(a.last()));
        assert(hex_bytes(b) == hb + hex_byte(b.last()));
        assert(ha =~= hex_bytes(a).subrange(0, n as int));
        assert(hb =~= hex_bytes(b).subrange(0, n as int));
        lemma_hex_bytes_injective(a.drop_last(), b.drop_last());
        let x = a.last();
        let y = b.last();
        assert(hex_byte(x)[0] == hex_bytes(a)[n as int]);
        assert(hex_byte(y)[0] == hex_bytes(b)[n as int]);
        assert(hex_byte(x)[1] == hex_bytes(a)[n + 1int]);
        assert(hex_byte(y)[1] == hex_bytes(b)[n + 1int]);
        lemma_hex_digit_injective(x as int / 16, y as int / 16);
        lemma_hex_digit_injective(x as int % 16, y as int % 16);
        assert(x == y);
        assert(a =~= a.drop_last().push(x));
        assert(b =~= b.drop_last().push(y));
    }
}

proof fn lemma_uuid_text_injective(u: Seq<u8>, v: Seq<u8>)
    requires
        u.len() == 16,
        v.len() == 16,
        uuid_text(u) == uuid_text(v),
    ensures
        u == v,
{
    let t = uuid_text(u);
    let w = uuid_text(v);
    lemma_hex_bytes_len(u.subrange(0, 4));
    lemma_hex_bytes_len(u.subrange(4, 6));
    lemma_hex_bytes_len(u.subrange(6, 8));
    lemma_hex_bytes_len(u.subrange(8, 10));
    lemma_hex_bytes_len(u.subrange(10, 16));
    lemma_hex_bytes_len(v.subrange(0, 4));
    lemma_hex_bytes_len(v.subrange(4, 6));
    lemma_hex_bytes_len(v.subrange(6, 8));
    lemma_hex_bytes_len(v.subrange(8, 10));
    lemma_hex_bytes_len(v.subrange(10, 16));
    assert(hex_bytes(u.subrange(0, 4)) =~= t.subrange(0, 8));
    assert(hex_bytes(v.subrange(0, 4)) =~= w.subrange(0, 8));
    assert(hex_bytes(u.subrange(4, 6)) =~= t.subrange(9, 13));
    assert(hex_bytes(v.subrange(4, 6)) =~= w.subrange(9, 13));
    assert(hex_bytes(u.subrange(6, 8)) =~= t.subrange(14, 18));
    assert(hex_bytes(v.subrange(6, 8)) =~= w.subrange(14, 18));
    assert(hex_bytes(u.subrange(8, 10)) =~= t.subrange(19, 23));
    assert(hex_bytes(v.subrange(8, 10)) =~= w.subrange(19, 23));
    assert(hex_bytes(u.subrange(10, 16)) =~= t.subrange(24, 36));
    assert(hex_bytes(v.subrange(10, 16)) =~= w.subrange(24, 36));
    lemma_hex_bytes_injective(u.subrange(0, 4), v.subrange(0, 4));
    lemma_hex_bytes_injective(u.subrange(4, 6), v.subrange(4, 6));
    lemma_hex_bytes_injective(u.subrange(6, 8), v.subrange(6, 8));
    lemma_hex_bytes_injective(u.subrange(8, 10), v.subrange(8, 10));
    lemma_hex_bytes_injective(u.subrange(10, 16), v.subrange(10, 16));
    assert forall|i: int| 0 <= i < 16 implies u[i] == v[i] by {
        if i < 4 {
            assert(u.subrange(0, 4)[i] == v.subrange(0, 4)[i]);
        } else if i < 6 {
            assert(u.subrange(4, 6)[i - 4] == v.subrange(4, 6)[i - 4]);
        } else if i < 8 {
            assert(u.subrange(6, 8)[i - 6] == v.subrange(6, 8)[i - 6]);
        } else if i < 10 {
            assert(u.subrange(8, 10)[i - 8] == v.subrange(8, 10)[i - 8]);
        } else {
            assert(u.subrange(10, 16)[i - 10] == v.subrange(10, 16)[i - 10]);
        }
    }
    assert(u =~= v);
}

} // verus!
