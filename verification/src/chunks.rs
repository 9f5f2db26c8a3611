//! Cutting a text into pieces of a bounded number of UTF-8 bytes, so that a
//! long reply fits the chat service's message size.
use vstd::prelude::*;
use vstd::string::*;
use vstd::utf8::*;
use vstd::arithmetic::div_mod::{
    lemma_mod_add_multiples_vanish, lemma_mod_self_0, lemma_mod_sub_multiples_vanish, lemma_small_mod,
};

verus! {

broadcast use {vstd::string::group_string_axioms, encode_utf8_valid_utf8};

/// The byte pieces of `bytes`: consecutive runs of `size` bytes, the last one
/// holding what is left (between 1 and `size` bytes). No pieces for no bytes.
pub open spec fn byte_chunks(bytes: Seq<u8>, size: nat) -> Seq<Seq<u8>>
    decreases bytes.len(),
{
    if bytes.len() == 0 || size == 0 {
        seq![]
    } else if bytes.len() <= size {
        seq![bytes]
    } else {
        seq![bytes.take(size as int)] + byte_chunks(bytes.skip(size as int), size)
    }
}

/// Cutting `bytes` every `size` bytes lands on character boundaries only, and
/// terminates: `size` is positive unless there is nothing to cut.
pub open spec fn cuts_on_char_boundaries(bytes: Seq<u8>, size: nat) -> bool
    decreases bytes.len(),
{
    if bytes.len() == 0 {
        true
    } else if size == 0 {
        false
    } else if bytes.len() <= size {
        true
    } else {
        is_char_boundary(bytes, size as int) && cuts_on_char_boundaries(
            bytes.skip(size as int),
            size,
        )
    }
}

proof fn lemma_boundary_shift(bytes: Seq<u8>, m: int, n: int)
    requires
        valid_utf8(bytes),
        0 <= m <= bytes.len(),
        is_char_boundary(bytes, m),
        0 <= n <= bytes.len() - m,
    ensures
        valid_utf8(bytes.skip(m)),
        is_char_boundary(bytes.skip(m), n) == is_char_boundary(bytes, m + n),
{
    valid_utf8_split(bytes, m);
    let r = bytes.skip(m);
    assert(r =~= bytes.subrange(m, bytes.len() as int));
    if n < r.len() {
        is_char_boundary_iff_not_is_continuation_byte(r, n);
        is_char_boundary_iff_not_is_continuation_byte(bytes, m + n);
        assert(r[n] == bytes[m + n]);
    } else {
        is_char_boundary_start_end_of_seq(r);
        is_char_boundary_start_end_of_seq(bytes);
    }
}

/// Law: cutting `bytes` every `size` bytes is accepted exactly when every
/// multiple of `size` strictly inside the bytes is a character boundary; no
/// other condition, the length of the bytes included, refuses it.
pub proof fn lemma_cuts_on_char_boundaries_iff(bytes: Seq<u8>, size: nat)
    requires
        valid_utf8(bytes),
        size > 0,
    ensures
        cuts_on_char_boundaries(bytes, size) <==> forall|k: int|
            0 < k < bytes.len() && k % (size as int) == 0 ==> #[trigger] is_char_boundary(
                bytes,
                k,
            ),
    decreases bytes.len(),
{
    let sz = size as int;
    if bytes.len() <= size {
        assert forall|k: int| 0 < k < bytes.len() && k % sz == 0 implies #[trigger]
            is_char_boundary(bytes, k) by {
            lemma_small_mod(k as nat, size);
        }
    } else {
        let r = bytes.skip(sz);
        lemma_mod_self_0(sz);
        if is_char_boundary(bytes, sz) {
            lemma_boundary_shift(bytes, sz, 0);
            lemma_cuts_on_char_boundaries_iff(r, size);
            if forall|k: int|
                0 < k < bytes.len() && k % sz == 0 ==> #[trigger] is_char_boundary(bytes, k) {
                assert forall|k: int| 0 < k < r.len() && k % sz == 0 implies #[trigger]
                    is_char_boundary(r, k) by {
                    lemma_mod_add_multiples_vanish(k, sz);
                    assert(is_char_boundary(bytes, sz + k));
                    lemma_boundary_shift(bytes, sz, k);
                }
            }
            if cuts_on_char_boundaries(bytes, size) {
                assert forall|k: int| 0 < k < bytes.len() && k % sz == 0 implies #[trigger]
                    is_char_boundary(bytes, k) by {
                    if k < sz {
                        lemma_small_mod(k as nat, size);
                    } else if k > sz {
                        lemma_mod_sub_multiples_vanish(k, sz);
                        assert(is_char_boundary(r, k - sz));
                        lemma_boundary_shift(bytes, sz, k - sz);
                    }
                }
            }
        }
    }
}

/// Law: a text of ASCII characters only can be cut every `size` bytes, for
/// any positive `size` and any length.
pub proof fn lemma_ascii_cuts_fit(text: Seq<char>, size: nat)
    requires
        is_ascii_chars(text),
        size > 0,
    ensures
        cuts_on_char_boundaries(encode_utf8(text), size),
{
    let bytes = encode_utf8(text);
    is_ascii_chars_encode_utf8(text);
    lemma_cuts_on_char_boundaries_iff(bytes, size);
    assert forall|k: int| 0 < k < bytes.len() && k % (size as int) == 0 implies #[trigger]
        is_char_boundary(bytes, k) by {
        is_char_boundary_iff_not_is_continuation_byte(bytes, k);
        assert('\0' <= text[k] <= '\u{7f}');
        assert(bytes[k] == text[k] as u8);
    }
}

/// The characters of the pieces, in order, joined into one sequence.
pub open spec fn joined(pieces: Seq<String>) -> Seq<char> {
    pieces.map_values(|p: String| p@).flatten()
}

/// Law: the pieces, put back together, give the bytes that were cut.
pub proof fn lemma_byte_chunks_flatten(bytes: Seq<u8>, size: nat)
    requires
        size > 0,
    ensures
        byte_chunks(bytes, size).flatten() == bytes,
    decreases bytes.len(),
{
    let c = byte_chunks(bytes, size);
    if bytes.len() == 0 {
        assert(c =~= Seq::<Seq<u8>>::empty());
        assert(c.flatten() =~= bytes);
    } else if bytes.len() <= size {
        assert(c == seq![bytes]);
        assert(c.drop_first() =~= Seq::<Seq<u8>>::empty());
        assert(c.drop_first().flatten() =~= Seq::<u8>::empty());
        assert(c.flatten() == c.first() + c.drop_first().flatten());
        assert(c.flatten() =~= bytes);
    } else {
        lemma_byte_chunks_flatten(bytes.skip(size as int), size);
        assert(c.drop_first() =~= byte_chunks(bytes.skip(size as int), size));
        assert(c.flatten() == c.first() + c.drop_first().flatten());
        assert(bytes.take(size as int) + bytes.skip(size as int) =~= bytes);
    }
}

/// Law: every piece is non-empty and at most `size` bytes long, and every
/// piece but the last is exactly `size` bytes long.
pub proof fn lemma_byte_chunks_sizes(bytes: Seq<u8>, size: nat, j: int)
    requires
        size > 0,
        0 <= j < byte_chunks(bytes, size).len(),
    ensures
        0 < byte_chunks(bytes, size)[j].len() <= size,
        j + 1 < byte_chunks(bytes, size).len() ==> byte_chunks(bytes, size)[j].len() == size,
        byte_chunks(bytes, size).len() == (bytes.len() + size - 1) / size as int,
    decreases bytes.len(),
{
    if bytes.len() <= size {
        assert((bytes.len() + size - 1) / size as int == 1) by (nonlinear_arith)
            requires
                0 < bytes.len() <= size,
        ;
    } else {
        let rest = bytes.skip(size as int);
        if j > 0 {
            lemma_byte_chunks_sizes(rest, size, j - 1);
        } else if byte_chunks(rest, size).len() > 0 {
            lemma_byte_chunks_sizes(rest, size, 0);
        }
        assert(byte_chunks(rest, size).len() == (rest.len() + size - 1) / size as int) by {
            if byte_chunks(rest, size).len() > 0 {
                lemma_byte_chunks_sizes(rest, size, 0);
            }
        }
        assert((bytes.len() + size - 1) / size as int == 1 + (rest.len() + size - 1)
            / size as int) by (nonlinear_arith)
            requires
                rest.len() == bytes.len() - size,
                size > 0,
        ;
    }
}

proof fn lemma_encode_utf8_concat(a: Seq<char>, b: Seq<char>)
    ensures
        encode_utf8(a + b) == encode_utf8(a) + encode_utf8(b),
    decreases a.len(),
{
    if a.len() == 0 {
        assert(a + b =~= b);
    } else {
        lemma_encode_utf8_concat(a.drop_first(), b);
        assert((a + b).drop_first() =~= a.drop_first() + b);
        assert((a + b)[0] == a[0]);
    }
}

/// The characters of pieces whose encodings are `chunks` encode to the
/// concatenated chunks.
proof fn lemma_encode_joined(pieces: Seq<Seq<char>>, chunks: Seq<Seq<u8>>)
    requires
        pieces.len() == chunks.len(),
        forall|j: int| 0 <= j < pieces.len() ==> encode_utf8(#[trigger] pieces[j]) == chunks[j],
    ensures
        encode_utf8(pieces.flatten()) == chunks.flatten(),
    decreases pieces.len(),
{
    if pieces.len() > 0 {
        lemma_encode_joined(pieces.drop_first(), chunks.drop_first());
        lemma_encode_utf8_concat(pieces[0], pieces.drop_first().flatten());
    }
}

/// The number of bytes of the UTF-8 encoding of `s` (as `str::len`).
pub fn byte_len(s: &str) -> (n: usize)
    ensures
        n as int == s.spec_bytes().len(),
{
    s.as_bytes().len()
}

/// Cuts `s` into consecutive pieces of `chunk_size` bytes of UTF-8, the last
/// piece holding what is left.
///
/// Each cut must fall on a character boundary and `chunk_size` must be
/// positive for a non-empty text: elsewhere slicing the text panics or never
/// ends.
pub fn split_string_into_chunks(s: &str, chunk_size: usize) -> (chunks: Vec<String>)
    requires
        cuts_on_char_boundaries(s.spec_bytes(), chunk_size as nat),
    ensures
        chunks@.len() == byte_chunks(s.spec_bytes(), chunk_size as nat).len(),
        forall|j: int|
            0 <= j < chunks@.len() ==> encode_utf8(#[trigger] chunks@[j]@) == byte_chunks(
                s.spec_bytes(),
                chunk_size as nat,
            )[j],
        forall|j: int|
            0 <= j < chunks@.len() ==> #[trigger] chunks@[j]@ == decode_utf8(
                byte_chunks(s.spec_bytes(), chunk_size as nat)[j],
            ),
        joined(chunks@) == s@,
{
    let ghost all = byte_chunks(s.spec_bytes(), chunk_size as nat);
    let mut chunks: Vec<String> = Vec::new();
    let mut rest: &str = s;
    loop
        invariant_except_break
            cuts_on_char_boundaries(rest.spec_bytes(), chunk_size as nat),
            all == chunks@.map_values(|p: String| encode_utf8(p@)) + byte_chunks(
                rest.spec_bytes(),
                chunk_size as nat,
            ),
        invariant
            all == byte_chunks(s.spec_bytes(), chunk_size as nat),
        ensures
            all == chunks@.map_values(|p: String| encode_utf8(p@)),
        decreases rest.spec_bytes().len(),
    {
        if byte_len(rest) == 0 {
            assert(byte_chunks(rest.spec_bytes(), chunk_size as nat) =~= Seq::<Seq<u8>>::empty());
            assert(all =~= chunks@.map_values(|p: String| encode_utf8(p@)));
            break;
        }
        if byte_len(rest) > chunk_size {
            let ghost rb = rest.spec_bytes();
            let (head, tail) = rest.split_at(chunk_size);
            let piece = head.to_owned();
            let ghost before = chunks@;
            chunks.push(piece);
            proof {
                assert(head.spec_bytes() =~= rb.take(chunk_size as int));
                assert(tail.spec_bytes() =~= rb.skip(chunk_size as int));
                assert(encode_utf8(piece@) == rb.take(chunk_size as int));
                assert(chunks@.map_values(|p: String| encode_utf8(p@)) =~= before.map_values(
                    |p: String| encode_utf8(p@),
                ).push(rb.take(chunk_size as int)));
                assert(byte_chunks(rb, chunk_size as nat) == seq![rb.take(chunk_size as int)]
                    + byte_chunks(rb.skip(chunk_size as int), chunk_size as nat));
                assert(all =~= chunks@.map_values(|p: String| encode_utf8(p@)) + byte_chunks(
                    tail.spec_bytes(),
                    chunk_size as nat,
                ));
            }
            rest = tail;
        } else {
            let ghost rb = rest.spec_bytes();
            let piece = rest.to_owned();
            let ghost before = chunks@;
            chunks.push(piece);
            proof {
                assert(byte_chunks(rb, chunk_size as nat) == seq![rb]);
                assert(chunks@.map_values(|p: String| encode_utf8(p@)) =~= before.map_values(
                    |p: String| encode_utf8(p@),
                ).push(rb));
                assert(all =~= chunks@.map_values(|p: String| encode_utf8(p@)));
            }
            break;
        }
    }
    proof {
        let views = chunks@.map_values(|p: String| p@);
        assert forall|j: int| 0 <= j < chunks@.len() implies encode_utf8(#[trigger] chunks@[j]@)
            == all[j] by {
            assert(chunks@.map_values(|p: String| encode_utf8(p@))[j] == encode_utf8(
                chunks@[j]@,
            ));
        }
        assert forall|j: int| 0 <= j < chunks@.len() implies #[trigger] chunks@[j]@
            == decode_utf8(all[j]) by {
            assert(encode_utf8(chunks@[j]@) == all[j]);
            encode_utf8_decode_utf8(chunks@[j]@);
        }
        assert forall|j: int| 0 <= j < views.len() implies encode_utf8(#[trigger] views[j])
            == all[j] by {
            assert(views[j] == chunks@[j]@);
            assert(encode_utf8(chunks@[j]@) == all[j]);
        }
        lemma_encode_joined(views, all);
        if s.spec_bytes().len() > 0 {
            lemma_byte_chunks_flatten(s.spec_bytes(), chunk_size as nat);
        } else {
            assert(all =~= Seq::<Seq<u8>>::empty());
        }
        encode_utf8_decode_utf8(views.flatten());
        encode_utf8_decode_utf8(s@);
    }
    chunks
}

/// Whether cutting `s` every `chunk_size` bytes lands on character boundaries
/// only (and terminates), so that `split_string_into_chunks` accepts it.
pub fn cuts_fit_characters(s: &str, chunk_size: usize) -> (r: bool)
    ensures
        r == cuts_on_char_boundaries(s.spec_bytes(), chunk_size as nat),
{
    let mut rest: &str = s;
    loop
        invariant
            cuts_on_char_boundaries(s.spec_bytes(), chunk_size as nat)
                == cuts_on_char_boundaries(rest.spec_bytes(), chunk_size as nat),
        decreases rest.spec_bytes().len(),
    {
        if byte_len(rest) == 0 {
            return true;
        }
        if chunk_size == 0 {
            return false;
        }
        if byte_len(rest) <= chunk_size {
            return true;
        }
        if !rest.is_char_boundary(chunk_size) {
            return false;
        }
        let ghost rb = rest.spec_bytes();
        let (_head, tail) = rest.split_at(chunk_size);
        assert(tail.spec_bytes() =~= rb.skip(chunk_size as int));
        rest = tail;
    }
}

} // verus!
