//! Lists of settings in handshake payloads: values are separated by a single
//! ASCII byte (`,` between the values of a setting, `|` between settings).
use vstd::prelude::*;
use vstd::utf8::*;
use crate::wire::{string_bytes, string_from_utf8};


verus! {

broadcast use vstd::seq_lib::group_seq_properties;

/// The pieces of `s` between occurrences of `sep`, as `str::split` yields them:
/// there is always at least one piece, and `k` separators give `k + 1` pieces.
pub open spec fn split_on(s: Seq<u8>, sep: u8) -> Seq<Seq<u8>>
    decreases s.len(),
{
    if s.len() == 0 {
        seq![Seq::<u8>::empty()]
    } else {
        let init = split_on(s.drop_last(), sep);
        if s.last() == sep {
            init.push(Seq::<u8>::empty())
        } else {
            init.update(init.len() - 1, init.last().push(s.last()))
        }
    }
}

/// The pieces of `s` between occurrences of `sep`, as `str::split_terminator`
/// yields them: like `split_on`, without the last piece when it is empty.
pub open spec fn split_terminator_on(s: Seq<u8>, sep: u8) -> Seq<Seq<u8>> {
    let pieces = split_on(s, sep);
    if pieces.last().len() == 0 {
        pieces.drop_last()
    } else {
        pieces
    }
}

/// The pieces joined with `sep` between each two of them, as `[T]::join` does.
pub open spec fn join_with(pieces: Seq<Seq<u8>>, sep: u8) -> Seq<u8>
    decreases pieces.len(),
{
    if pieces.len() == 0 {
        Seq::<u8>::empty()
    } else if pieces.len() == 1 {
        pieces[0]
    } else {
        join_with(pieces.drop_last(), sep).push(sep) + pieces.last()
    }
}

/// No piece holds the separator.
pub open spec fn free_of(pieces: Seq<Seq<u8>>, sep: u8) -> bool {
    forall|k: int| 0 <= k < pieces.len() ==> !(#[trigger] pieces[k]).contains(sep)
}

/// The contents of a list of byte vectors.
pub open spec fn byte_pieces(v: Seq<Vec<u8>>) -> Seq<Seq<u8>> {
    v.map_values(|p: Vec<u8>| p@)
}

/// The contents of a list of strings.
pub open spec fn string_views(v: Seq<String>) -> Seq<Seq<char>> {
    v.map_values(|s: String| s@)
}

/// The UTF-8 encodings of a list of strings.
pub open spec fn utf8_pieces(strings: Seq<Seq<char>>) -> Seq<Seq<u8>> {
    strings.map_values(|s: Seq<char>| encode_utf8(s))
}

/// The strings held by a list of UTF-8 pieces.
pub open spec fn decoded_pieces(pieces: Seq<Seq<u8>>) -> Seq<Seq<char>> {
    pieces.map_values(|p: Seq<u8>| decode_utf8(p))
}

/// An ASCII byte: the UTF-8 encoding of a character below U+0080.
pub open spec fn is_ascii_byte(b: u8) -> bool {
    b < 0x80
}

pub proof fn lemma_split_nonempty(s: Seq<u8>, sep: u8)
    ensures
        split_on(s, sep).len() >= 1,
    decreases s.len(),
{
    if s.len() > 0 {
        lemma_split_nonempty(s.drop_last(), sep);
    }
}

/// A sequence without the separator is a single piece.
pub proof fn lemma_split_no_sep(s: Seq<u8>, sep: u8)
    requires
        !s.contains(sep),
    ensures
        split_on(s, sep) == seq![s],
    decreases s.len(),
{
    if s.len() > 0 {
        assert(!s.drop_last().contains(sep)) by {
            if s.drop_last().contains(sep) {
                let i = choose|i: int| 0 <= i < s.drop_last().len() && s.drop_last()[i] == sep;
                assert(s[i] == sep);
            }
        }
        lemma_split_no_sep(s.drop_last(), sep);
        assert(s.last() != sep) by {
            assert(s[s.len() - 1] == s.last());
        }
        assert(s.drop_last().push(s.last()) =~= s);
        assert(split_on(s, sep) =~= seq![s]);
    }
}

/// Splitting is a homomorphism over a separator: the pieces of `a`, the
/// separator and `b` are the pieces of `a` followed by those of `b`.
pub proof fn lemma_split_concat(a: Seq<u8>, b: Seq<u8>, sep: u8)
    ensures
        split_on(a.push(sep) + b, sep) == split_on(a, sep) + split_on(b, sep),
    decreases b.len(),
{
    let s = a.push(sep) + b;
    if b.len() == 0 {
        assert(s =~= a.push(sep));
        assert(s.drop_last() =~= a);
        assert(split_on(s, sep) =~= split_on(a, sep) + split_on(b, sep));
    } else {
        assert(s.drop_last() =~= a.push(sep) + b.drop_last());
        lemma_split_concat(a, b.drop_last(), sep);
        lemma_split_nonempty(a, sep);
        lemma_split_nonempty(b.drop_last(), sep);
        assert(s.last() == b.last());
        assert(split_on(s, sep) =~= split_on(a, sep) + split_on(b, sep));
    }
}

/// Splitting the joined pieces gives the pieces back, when none holds the separator.
pub proof fn lemma_split_join(pieces: Seq<Seq<u8>>, sep: u8)
    requires
        pieces.len() >= 1,
        free_of(pieces, sep),
    ensures
        split_on(join_with(pieces, sep), sep) == pieces,
    decreases pieces.len(),
{
    if pieces.len() == 1 {
        assert(!pieces[0].contains(sep));
        lemma_split_no_sep(pieces[0], sep);
        assert(split_on(join_with(pieces, sep), sep) =~= pieces);
    } else {
        let init = pieces.drop_last();
        assert(free_of(init, sep)) by {
            assert forall|k: int| 0 <= k < init.len() implies !(#[trigger] init[k]).contains(sep) by {
                assert(init[k] == pieces[k]);
            }
        }
        lemma_split_join(init, sep);
        assert(!pieces[pieces.len() - 1].contains(sep));
        lemma_split_no_sep(pieces.last(), sep);
        lemma_split_concat(join_with(init, sep), pieces.last(), sep);
        assert(split_on(join_with(pieces, sep), sep) =~= pieces);
    }
}

/// The terminator split of joined pieces gives the pieces back, when none
/// holds the separator and the last one is not empty.
pub proof fn lemma_split_terminator_join(pieces: Seq<Seq<u8>>, sep: u8)
    requires
        free_of(pieces, sep),
        pieces.len() == 0 || pieces.last().len() > 0,
    ensures
        split_terminator_on(join_with(pieces, sep), sep) == pieces,
{
    if pieces.len() == 0 {
        assert(split_on(Seq::<u8>::empty(), sep) =~= seq![Seq::<u8>::empty()]);
        assert(split_terminator_on(join_with(pieces, sep), sep) =~= pieces);
    } else {
        lemma_split_join(pieces, sep);
    }
}

proof fn lemma_ascii_not_continuation(b: u8)
    requires
        is_ascii_byte(b),
    ensures
        !is_continuation_byte(b),
        is_leading_byte_width_1(b),
{
}

/// Dropping a leading ASCII byte from valid UTF-8 leaves valid UTF-8.
proof fn lemma_valid_drop_ascii(u: Seq<u8>)
    requires
        valid_utf8(u),
        u.len() > 0,
        is_ascii_byte(u[0]),
    ensures
        valid_utf8(u.drop_first()),
{
    assert(length_of_first_scalar(u) == 1);
    assert(pop_first_scalar(u) =~= u.drop_first());
}

/// Every piece of valid UTF-8 split at an ASCII separator is valid UTF-8.
pub proof fn lemma_split_valid_utf8(s: Seq<u8>, sep: u8)
    requires
        valid_utf8(s),
        is_ascii_byte(sep),
    ensures
        forall|k: int| 0 <= k < split_on(s, sep).len() ==> valid_utf8(#[trigger] split_on(s, sep)[k]),
    decreases s.len(),
{
    if !s.contains(sep) {
        lemma_split_no_sep(s, sep);
    } else {
        let i = choose|i: int| 0 <= i < s.len() && s[i] == sep;
        let a = s.subrange(0, i);
        let b = s.subrange(i + 1, s.len() as int);
        assert(s =~= a.push(sep) + b);
        lemma_ascii_not_continuation(sep);
        is_char_boundary_iff_not_is_continuation_byte(s, i);
        valid_utf8_split(s, i);
        let tail = s.subrange(i, s.len() as int);
        lemma_valid_drop_ascii(tail);
        assert(tail.drop_first() =~= b);
        lemma_split_valid_utf8(a, sep);
        lemma_split_valid_utf8(b, sep);
        lemma_split_concat(a, b, sep);
        let pa = split_on(a, sep);
        let pb = split_on(b, sep);
        assert forall|k: int| 0 <= k < split_on(s, sep).len() implies valid_utf8(
            #[trigger] split_on(s, sep)[k],
        ) by {
            if k < pa.len() {
                assert(split_on(s, sep)[k] == pa[k]);
            } else {
                assert(split_on(s, sep)[k] == pb[k - pa.len()]);
            }
        }
    }
}


/// A byte or a character in the ASCII range gives the same value as either.
proof fn lemma_high_bits(y: u8)
    ensures
        (0x80u8 | y) >= 0x80u8,
        (0xC0u8 | y) >= 0x80u8,
        (0xE0u8 | y) >= 0x80u8,
        (0xF0u8 | y) >= 0x80u8,
{
    assert((0x80u8 | y) >= 0x80u8) by (bit_vector);
    assert((0xC0u8 | y) >= 0x80u8) by (bit_vector);
    assert((0xE0u8 | y) >= 0x80u8) by (bit_vector);
    assert((0xF0u8 | y) >= 0x80u8) by (bit_vector);
}

proof fn lemma_low_byte(x: u32)
    requires
        x <= 0x7F,
    ensures
        (x & 0x7F) as u8 == x as u8,
        (x as u8) as u32 == x,
{
    assert((x & 0x7F) as u8 == x as u8) by (bit_vector)
        requires
            x <= 0x7F,
    ;
}

/// The encoding of one scalar holds an ASCII byte only when the scalar is that byte.
proof fn lemma_scalar_free_of(c: char, sep: u8)
    requires
        is_ascii_byte(sep),
        c != (sep as char),
    ensures
        !encode_scalar(c as u32).contains(sep),
{
    let x = c as u32;
    char_is_scalar(c);
    let e = encode_scalar(x);
    if has_width_1_encoding(x) {
        lemma_low_byte(x);
        assert(e[0] == x as u8);
        assert(x != sep as u32) by {
            if x == sep as u32 {
                char_u32_cast(c, x);
            }
        }
    } else {
        lemma_high_bits(((x >> 6) & 0x1F) as u8);
        lemma_high_bits(((x >> 12) & 0x0F) as u8);
        lemma_high_bits(((x >> 18) & 0x7) as u8);
        lemma_high_bits((x & 0x3F) as u8);
        lemma_high_bits(((x >> 6) & 0x3F) as u8);
        lemma_high_bits(((x >> 12) & 0x3F) as u8);
        assert forall|i: int| 0 <= i < e.len() implies e[i] >= 0x80 by {}
    }
    if e.contains(sep) {
        let i = choose|i: int| 0 <= i < e.len() && e[i] == sep;
        assert(e[i] == sep);
    }
}

/// The encoding of a string without an ASCII character holds no byte of that character.
pub proof fn lemma_encode_free_of(chars: Seq<char>, sep: u8)
    requires
        is_ascii_byte(sep),
        !chars.contains(sep as char),
    ensures
        !encode_utf8(chars).contains(sep),
    decreases chars.len(),
{
    if chars.len() > 0 {
        assert(chars[0] != sep as char);
        lemma_scalar_free_of(chars[0], sep);
        assert(!chars.drop_first().contains(sep as char)) by {
            if chars.drop_first().contains(sep as char) {
                let i = choose|i: int|
                    0 <= i < chars.drop_first().len() && chars.drop_first()[i] == sep as char;
                assert(chars[i + 1] == sep as char);
            }
        }
        lemma_encode_free_of(chars.drop_first(), sep);
        let a = encode_scalar(chars[0] as u32);
        let b = encode_utf8(chars.drop_first());
        assert(encode_utf8(chars) == a + b);
        if (a + b).contains(sep) {
            let i = choose|i: int| 0 <= i < (a + b).len() && (a + b)[i] == sep;
            if i < a.len() {
                assert(a[i] == sep);
            } else {
                assert(b[i - a.len()] == sep);
            }
        }
    }
}

/// No string of a list holds the ASCII character.
pub open spec fn strings_free_of(strings: Seq<Seq<char>>, sep: u8) -> bool {
    forall|k: int| 0 <= k < strings.len() ==> !(#[trigger] strings[k]).contains(sep as char)
}

/// The encodings of strings without an ASCII character hold no byte of it.
pub proof fn lemma_pieces_free_of(strings: Seq<Seq<char>>, sep: u8)
    requires
        is_ascii_byte(sep),
        strings_free_of(strings, sep),
    ensures
        free_of(utf8_pieces(strings), sep),
{
    assert forall|k: int| 0 <= k < utf8_pieces(strings).len() implies !(
    #[trigger] utf8_pieces(strings)[k]).contains(sep) by {
        assert(!strings[k].contains(sep as char));
        lemma_encode_free_of(strings[k], sep);
    }
}

/// A single ASCII byte is valid UTF-8.
pub proof fn lemma_ascii_byte_valid(b: u8)
    requires
        is_ascii_byte(b),
    ensures
        valid_utf8(seq![b]),
{
    reveal_with_fuel(valid_utf8, 2);
    assert(pop_first_scalar(seq![b]) =~= Seq::<u8>::empty());
}

/// Valid pieces joined with an ASCII separator are valid UTF-8.
pub proof fn lemma_join_valid(pieces: Seq<Seq<u8>>, sep: u8)
    requires
        is_ascii_byte(sep),
        forall|k: int| 0 <= k < pieces.len() ==> valid_utf8(#[trigger] pieces[k]),
    ensures
        valid_utf8(join_with(pieces, sep)),
    decreases pieces.len(),
{
    if pieces.len() == 0 {
        assert(valid_utf8(Seq::<u8>::empty()));
    } else if pieces.len() == 1 {
        assert(valid_utf8(pieces[0]));
    } else {
        let init = pieces.drop_last();
        assert forall|k: int| 0 <= k < init.len() implies valid_utf8(#[trigger] init[k]) by {
            assert(init[k] == pieces[k]);
        }
        lemma_join_valid(init, sep);
        lemma_ascii_byte_valid(sep);
        let j = join_with(init, sep);
        assert(j.push(sep) =~= j + seq![sep]);
        valid_utf8_concat(j, seq![sep]);
        assert(valid_utf8(pieces[pieces.len() - 1]));
        valid_utf8_concat(j.push(sep), pieces.last());
    }
}

/// The encodings of strings are valid UTF-8 and decode to the strings.
pub proof fn lemma_utf8_pieces(strings: Seq<Seq<char>>)
    ensures
        forall|k: int| 0 <= k < utf8_pieces(strings).len() ==> valid_utf8(
            #[trigger] utf8_pieces(strings)[k],
        ),
        decoded_pieces(utf8_pieces(strings)) == strings,
{
    assert forall|k: int| 0 <= k < utf8_pieces(strings).len() implies valid_utf8(
        #[trigger] utf8_pieces(strings)[k],
    ) by {
        encode_utf8_valid_utf8(strings[k]);
    }
    assert forall|k: int| 0 <= k < strings.len() implies #[trigger] decoded_pieces(
        utf8_pieces(strings),
    )[k] == strings[k] by {
        encode_utf8_decode_utf8(strings[k]);
    }
    assert(decoded_pieces(utf8_pieces(strings)) =~= strings);
}

/// Splits `s` at every occurrence of `sep`, as `str::split` does.
pub fn split_bytes(s: &[u8], sep: u8) -> (res: Vec<Vec<u8>>)
    ensures
        byte_pieces(res@) == split_on(s@, sep),
{
    let mut done: Vec<Vec<u8>> = Vec::new();
    let mut cur: Vec<u8> = Vec::new();
    let mut i: usize = 0;
    assert(s@.take(0) =~= Seq::<u8>::empty());
    while i < s.len()
        invariant
            i <= s@.len(),
            byte_pieces(done@).push(cur@) == split_on(s@.take(i as int), sep),
        decreases s@.len() - i,
    {
        let b = s[i];
        let ghost before = byte_pieces(done@).push(cur@);
        assert(s@.take(i + 1).drop_last() =~= s@.take(i as int));
        assert(s@.take(i + 1).last() == b);
        if b == sep {
            done.push(cur);
            cur = Vec::new();
            assert(byte_pieces(done@).push(cur@) =~= before.push(Seq::<u8>::empty()));
        } else {
            cur.push(b);
            assert(byte_pieces(done@).push(cur@) =~= before.update(
                before.len() - 1,
                before.last().push(b),
            ));
        }
        i = i + 1;
    }
    assert(s@.take(i as int) =~= s@);
    done.push(cur);
    done
}

/// Splits `s` at every occurrence of `sep` and drops an empty last piece, as
/// `str::split_terminator` does.
pub fn split_terminator_bytes(s: &[u8], sep: u8) -> (res: Vec<Vec<u8>>)
    ensures
        byte_pieces(res@) == split_terminator_on(s@, sep),
{
    let mut pieces = split_bytes(s, sep);
    proof {
        lemma_split_nonempty(s@, sep);
    }
    let n = pieces.len();
    if pieces[n - 1].len() == 0 {
        let ghost before = byte_pieces(pieces@);
        pieces.pop();
        assert(byte_pieces(pieces@) =~= before.drop_last());
    }
    pieces
}

/// Decodes each piece into a `String`.
pub fn decode_pieces(pieces: &Vec<Vec<u8>>) -> (res: Vec<String>)
    requires
        forall|k: int| 0 <= k < byte_pieces(pieces@).len() ==> valid_utf8(
            #[trigger] byte_pieces(pieces@)[k],
        ),
    ensures
        string_views(res@) == decoded_pieces(byte_pieces(pieces@)),
{
    let mut out: Vec<String> = Vec::new();
    let mut i: usize = 0;
    while i < pieces.len()
        invariant
            i <= pieces@.len(),
            forall|k: int| 0 <= k < byte_pieces(pieces@).len() ==> valid_utf8(
                #[trigger] byte_pieces(pieces@)[k],
            ),
            string_views(out@) == decoded_pieces(byte_pieces(pieces@)).take(i as int),
        decreases pieces@.len() - i,
    {
        let bytes = pieces[i].clone();
        assert(bytes@ == byte_pieces(pieces@)[i as int]);
        assert(valid_utf8(byte_pieces(pieces@)[i as int]));
        match string_from_utf8(bytes) {
            Some(s) => {
                proof {
                    encode_utf8_decode_utf8(s@);
                }
                assert(s@ == decode_utf8(byte_pieces(pieces@)[i as int]));
                let ghost before = string_views(out@);
                out.push(s);
                assert(string_views(out@) =~= before.push(decode_utf8(byte_pieces(pieces@)[i as int])));
                assert(string_views(out@) =~= decoded_pieces(byte_pieces(pieces@)).take(i + 1));
            },
            None => {
                assert(false);
            },
        }
        i = i + 1;
    }
    assert(decoded_pieces(byte_pieces(pieces@)).take(i as int) =~= decoded_pieces(
        byte_pieces(pieces@),
    ));
    out
}

/// Appends the UTF-8 bytes of the strings to `dst`, with `sep` between each two.
pub fn join_into(dst: &mut Vec<u8>, strings: &Vec<String>, sep: u8)
    ensures
        final(dst)@ == old(dst)@ + join_with(utf8_pieces(string_views(strings@)), sep),
{
    let ghost start = dst@;
    let ghost strs = string_views(strings@);
    let mut i: usize = 0;
    assert(utf8_pieces(strs.take(0)) =~= Seq::<Seq<u8>>::empty());
    while i < strings.len()
        invariant
            i <= strings@.len(),
            strs == string_views(strings@),
            dst@ == start + join_with(utf8_pieces(strs.take(i as int)), sep),
        decreases strings@.len() - i,
    {
        let ghost prev = dst@;
        if i > 0 {
            put_sep(dst, sep);
        }
        let bytes = string_bytes(&strings[i]);
        dst.extend_from_slice(bytes);
        proof {
            let p = utf8_pieces(strs.take(i + 1));
            assert(p.drop_last() =~= utf8_pieces(strs.take(i as int)));
            assert(p.last() == encode_utf8(strs[i as int]));
            assert(strs[i as int] == strings@[i as int]@);
            if i == 0 {
                assert(p =~= seq![encode_utf8(strs[0])]);
            }
            assert(dst@ =~= start + join_with(p, sep));
        }
        i = i + 1;
    }
    assert(strs.take(i as int) =~= strs);
}

fn put_sep(dst: &mut Vec<u8>, sep: u8)
    ensures
        final(dst)@ == old(dst)@.push(sep),
{
    crate::wire::put_u8(dst, sep);
}


/// Joined pieces hold a byte only when a piece or the separator does.
pub proof fn lemma_join_free_of(pieces: Seq<Seq<u8>>, sep: u8, x: u8)
    requires
        free_of(pieces, x),
        sep != x,
    ensures
        !join_with(pieces, sep).contains(x),
    decreases pieces.len(),
{
    if pieces.len() == 1 {
        assert(!pieces[0].contains(x));
    } else if pieces.len() > 1 {
        let init = pieces.drop_last();
        assert(free_of(init, x)) by {
            assert forall|k: int| 0 <= k < init.len() implies !(#[trigger] init[k]).contains(x) by {
                assert(init[k] == pieces[k]);
            }
        }
        lemma_join_free_of(init, sep, x);
        let a = join_with(init, sep).push(sep);
        let b = pieces.last();
        assert(!b.contains(x)) by {
            assert(b == pieces[pieces.len() - 1]);
        }
        if (a + b).contains(x) {
            let i = choose|i: int| 0 <= i < (a + b).len() && (a + b)[i] == x;
            if i < a.len() - 1 {
                assert(join_with(init, sep)[i] == x);
            } else if i == a.len() - 1 {
                assert(a[i] == sep);
            } else {
                assert(b[i - a.len()] == x);
            }
        }
    }
}

/// The encoding of a non-empty string is not empty.
pub proof fn lemma_encode_nonempty(chars: Seq<char>)
    ensures
        chars.len() > 0 <==> encode_utf8(chars).len() > 0,
{
    if chars.len() > 0 {
        assert(encode_scalar(chars[0] as u32).len() >= 1);
    }
}

} // verus!
