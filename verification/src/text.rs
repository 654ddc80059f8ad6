//! Bounded host text and UTF-8 helpers.

use vstd::prelude::*;
use vstd::utf8::*;
use vstd::string::StringSliceAdditionalSpecFns;

verus! {

broadcast use vstd::seq::group_seq_axioms;

/// Byte capacity of a host text slot.
pub const HOST_TEXT_LEN: usize = 32;

#[verifier::external_type_specification]
#[verifier::external_body]
pub struct ExHeaplessString<const N: usize>(heapless::String<N>);

/// The characters held by a host text slot.
pub uninterp spec fn host_text_chars(text: heapless::String<32>) -> Seq<char>;

/// Number of UTF-8 bytes that encode `c`.
pub open spec fn char_utf8_len(c: char) -> nat {
    encode_scalar(c as u32).len()
}

/// `heapless::String::new`: an empty string.
#[verifier::external_body]
pub(crate) fn host_text_new() -> (text: heapless::String<32>)
    ensures
        host_text_chars(text) == Seq::<char>::empty(),
{
    heapless::String::new()
}

/// `heapless::String::clear`: the string becomes empty.
#[verifier::external_body]
pub(crate) fn host_text_clear(text: &mut heapless::String<32>)
    ensures
        host_text_chars(*final(text)) == Seq::<char>::empty(),
{
    text.clear()
}

/// `heapless::String::clone`: a string with the same characters.
#[verifier::external_body]
pub(crate) fn host_text_clone(text: &heapless::String<32>) -> (copy: heapless::String<32>)
    ensures
        host_text_chars(copy) == host_text_chars(*text),
{
    text.clone()
}

/// `heapless::String::eq`: true exactly when both strings hold the same characters.
#[verifier::external_body]
pub(crate) fn host_text_eq(a: &heapless::String<32>, b: &heapless::String<32>) -> (same: bool)
    ensures
        same == (host_text_chars(*a) == host_text_chars(*b)),
{
    a == b
}

/// `heapless::String::push`: appends `c` when its UTF-8 bytes still fit in the
/// 32-byte capacity and reports success; otherwise leaves the string unchanged.
#[verifier::external_body]
pub(crate) fn host_text_push(text: &mut heapless::String<32>, c: char) -> (pushed: bool)
    ensures
        pushed == (encode_utf8(host_text_chars(*old(text))).len() + char_utf8_len(c) <= 32),
        pushed ==> host_text_chars(*final(text)) == host_text_chars(*old(text)).push(c),
        !pushed ==> host_text_chars(*final(text)) == host_text_chars(*old(text)),
{
    text.push(c).is_ok()
}


/// The longest prefix of `chars` whose UTF-8 encoding fits in `budget` bytes:
/// characters are taken in order until the next one no longer fits.
pub open spec fn fitting_prefix(chars: Seq<char>, budget: nat) -> Seq<char>
    decreases chars.len(),
{
    if chars.len() == 0 {
        Seq::empty()
    } else if char_utf8_len(chars[0]) <= budget {
        seq![chars[0]] + fitting_prefix(chars.drop_first(), (budget - char_utf8_len(chars[0])) as nat)
    } else {
        Seq::empty()
    }
}

/// Appending a character appends its encoding.
pub proof fn lemma_encode_utf8_push(s: Seq<char>, c: char)
    ensures
        encode_utf8(s.push(c)) == encode_utf8(s) + encode_scalar(c as u32),
    decreases s.len(),
{
    if s.len() == 0 {
        assert(s.push(c).drop_first() =~= Seq::<char>::empty());
        assert(encode_utf8(Seq::<char>::empty()) =~= Seq::<u8>::empty());
        assert(encode_utf8(s.push(c)) =~= encode_scalar(c as u32) + encode_utf8(Seq::<char>::empty()));
        assert(encode_utf8(s) =~= Seq::<u8>::empty());
        assert(encode_utf8(s) + encode_scalar(c as u32) =~= encode_scalar(c as u32));
    } else {
        lemma_encode_utf8_push(s.drop_first(), c);
        assert(s.push(c).drop_first() =~= s.drop_first().push(c));
        assert(encode_utf8(s.push(c)) =~= encode_scalar(s[0] as u32) + encode_utf8(s.drop_first().push(c)));
        assert(encode_utf8(s) =~= encode_scalar(s[0] as u32) + encode_utf8(s.drop_first()));
    }
}

/// A character sequence whose encoding fits the budget is kept whole.
pub proof fn lemma_fitting_prefix_whole(chars: Seq<char>, budget: nat)
    requires
        encode_utf8(chars).len() <= budget,
    ensures
        fitting_prefix(chars, budget) == chars,
    decreases chars.len(),
{
    if chars.len() > 0 {
        assert(encode_utf8(chars) == encode_scalar(chars[0] as u32) + encode_utf8(chars.drop_first()));
        lemma_fitting_prefix_whole(chars.drop_first(), (budget - char_utf8_len(chars[0])) as nat);
        assert(seq![chars[0]] + chars.drop_first() =~= chars);
    }
}

/// The kept prefix is a prefix of the input and its encoding fits the budget.
pub proof fn lemma_fitting_prefix_bounds(chars: Seq<char>, budget: nat)
    ensures
        fitting_prefix(chars, budget).len() <= chars.len(),
        fitting_prefix(chars, budget) =~= chars.take(fitting_prefix(chars, budget).len() as int),
        encode_utf8(fitting_prefix(chars, budget)).len() <= budget,
    decreases chars.len(),
{
    if chars.len() > 0 && char_utf8_len(chars[0]) <= budget {
        let rest = chars.drop_first();
        let b2 = (budget - char_utf8_len(chars[0])) as nat;
        lemma_fitting_prefix_bounds(rest, b2);
        let f = fitting_prefix(chars, budget);
        assert(f.drop_first() =~= fitting_prefix(rest, b2));
        assert(encode_utf8(f) == encode_scalar(f[0] as u32) + encode_utf8(f.drop_first()));
    } else {
        assert(encode_utf8(Seq::<char>::empty()) =~= Seq::<u8>::empty());
    }
}

/// The kept prefix is the longest that fits: any longer prefix of `chars`
/// takes more than `budget` bytes.
pub proof fn lemma_fitting_prefix_longest(chars: Seq<char>, budget: nat, m: int)
    requires
        fitting_prefix(chars, budget).len() < m <= chars.len(),
    ensures
        encode_utf8(chars.take(m)).len() > budget,
    decreases chars.len(),
{
    let t = chars.take(m);
    assert(t[0] == chars[0]);
    assert(encode_utf8(t) == encode_scalar(t[0] as u32) + encode_utf8(t.drop_first()));
    if char_utf8_len(chars[0]) <= budget {
        let rest = chars.drop_first();
        let b2 = (budget - char_utf8_len(chars[0])) as nat;
        assert(fitting_prefix(chars, budget).len() == 1 + fitting_prefix(rest, b2).len());
        assert(t.drop_first() =~= rest.take(m - 1));
        lemma_fitting_prefix_longest(rest, b2, m - 1);
    }
}

/// Replaces the contents of a host text slot with the longest prefix of
/// `value` that fits in its 32 bytes.
pub fn update_media_text(slot: &mut heapless::String<32>, value: &str)
    ensures
        host_text_chars(*final(slot)) == fitting_prefix(value@, 32),
{
    host_text_clear(slot);
    let n = value.unicode_len();
    let mut i: usize = 0;
    let ghost chars = value@;
    proof {
        assert(chars.skip(0) =~= chars);
        assert(encode_utf8(Seq::<char>::empty()) =~= Seq::<u8>::empty());
        assert(Seq::<char>::empty() + fitting_prefix(chars.skip(0), 32) =~= fitting_prefix(chars, 32));
    }
    while i < n
        invariant
            n == chars.len(),
            chars == value@,
            i <= n,
            encode_utf8(host_text_chars(*slot)).len() <= 32,
            host_text_chars(*slot) + fitting_prefix(
                chars.skip(i as int),
                (32 - encode_utf8(host_text_chars(*slot)).len()) as nat,
            ) == fitting_prefix(chars, 32),
        decreases n - i,
    {
        let c = value.get_char(i);
        let ghost before = host_text_chars(*slot);
        let ghost rest = chars.skip(i as int);
        let ghost budget = (32 - encode_utf8(before).len()) as nat;
        proof {
            assert(rest[0] == c);
            assert(rest.drop_first() =~= chars.skip(i + 1));
        }
        if !host_text_push(slot, c) {
            proof {
                assert(fitting_prefix(rest, budget) =~= Seq::<char>::empty());
                assert(before + Seq::<char>::empty() =~= before);
            }
            return;
        }
        proof {
            lemma_encode_utf8_push(before, c);
            let after = before.push(c);
            assert(encode_utf8(after).len() == encode_utf8(before).len() + char_utf8_len(c));
            assert(fitting_prefix(rest, budget) == seq![c] + fitting_prefix(
                chars.skip(i + 1),
                (budget - char_utf8_len(c)) as nat,
            ));
            assert((32 - encode_utf8(after).len()) as nat == (budget - char_utf8_len(c)) as nat);
            assert(after + fitting_prefix(chars.skip(i + 1), (budget - char_utf8_len(c)) as nat)
                =~= before + (seq![c] + fitting_prefix(chars.skip(i + 1), (budget - char_utf8_len(c)) as nat)));
        }
        i = i + 1;
    }
    proof {
        assert(chars.skip(i as int) =~= Seq::<char>::empty());
        let b = (32 - encode_utf8(host_text_chars(*slot)).len()) as nat;
        assert(fitting_prefix(chars.skip(i as int), b) =~= Seq::<char>::empty());
        assert(host_text_chars(*slot) + Seq::<char>::empty() =~= host_text_chars(*slot));
    }
}


/// Length in bytes of the longest prefix of `bytes` that is valid UTF-8, the
/// index that `core::str::Utf8Error::valid_up_to` reports.
pub open spec fn valid_prefix_len(bytes: Seq<u8>) -> nat
    decreases bytes.len(),
{
    if bytes.len() > 0 && valid_first_scalar(bytes) {
        proof {
            assert(1 <= length_of_first_scalar(bytes) <= bytes.len());
        }
        (length_of_first_scalar(bytes) + valid_prefix_len(pop_first_scalar(bytes))) as nat
    } else {
        0
    }
}

/// Whether a sequence begins with a well-formed scalar depends on its first
/// scalar's bytes only.
proof fn lemma_first_scalar_shared(a: Seq<u8>, b: Seq<u8>, k: int)
    requires
        1 <= k <= 4,
        k <= a.len(),
        k <= b.len(),
        forall|j: int| 0 <= j < k ==> a[j] == b[j],
        valid_first_scalar(a),
        length_of_first_scalar(a) <= k,
    ensures
        valid_first_scalar(b),
        length_of_first_scalar(b) == length_of_first_scalar(a),
        decode_first_scalar(b) == decode_first_scalar(a),
{
    assert(a[0] == b[0]);
    if is_leading_byte_width_2(a[0]) {
        assert(a[1] == b[1]);
    } else if is_leading_byte_width_3(a[0]) {
        assert(a[1] == b[1]);
        assert(a[2] == b[2]);
    } else if is_leading_byte_width_4(a[0]) {
        assert(a[1] == b[1]);
        assert(a[2] == b[2]);
        assert(a[3] == b[3]);
    }
}

/// The prefix that `valid_prefix_len` selects is valid UTF-8.
pub proof fn lemma_valid_prefix_is_valid(bytes: Seq<u8>)
    ensures
        valid_prefix_len(bytes) <= bytes.len(),
        valid_utf8(bytes.take(valid_prefix_len(bytes) as int)),
    decreases bytes.len(),
{
    let n = valid_prefix_len(bytes);
    if bytes.len() > 0 && valid_first_scalar(bytes) {
        let l = length_of_first_scalar(bytes);
        let rest = pop_first_scalar(bytes);
        lemma_valid_prefix_is_valid(rest);
        let t = bytes.take(n as int);
        lemma_first_scalar_shared(bytes, t, l);
        assert(pop_first_scalar(t) =~= rest.take(valid_prefix_len(rest) as int));
    } else {
        assert(bytes.take(0) =~= Seq::<u8>::empty());
    }
}

/// No prefix longer than `valid_prefix_len` is valid UTF-8.
pub proof fn lemma_valid_prefix_is_longest(bytes: Seq<u8>, m: int)
    requires
        valid_prefix_len(bytes) < m <= bytes.len(),
    ensures
        !valid_utf8(bytes.take(m)),
    decreases bytes.len(),
{
    let t = bytes.take(m);
    if valid_utf8(t) {
        assert(t.len() > 0);
        let l = length_of_first_scalar(t);
        assert(1 <= l <= t.len());
        lemma_first_scalar_shared(t, bytes, l);
        let rest = pop_first_scalar(bytes);
        assert(pop_first_scalar(t) =~= rest.take(m - l));
        lemma_valid_prefix_is_longest(rest, m - l);
    }
}

/// Length of the well-formed scalar that starts at `bytes[i]`, if one does.
fn first_scalar_len(bytes: &[u8], i: usize) -> (r: Option<usize>)
    requires
        i < bytes@.len(),
    ensures
        r is Some <==> valid_first_scalar(bytes@.skip(i as int)),
        r matches Some(l) ==> l == length_of_first_scalar(bytes@.skip(i as int)),
{
    let ghost s = bytes@.skip(i as int);
    let rem = bytes.len() - i;
    let b0 = bytes[i];
    assert(s[0] == b0);
    if b0 <= 0x7f {
        assert(((b0 & 0x7F) as u32) <= 0x7f) by (bit_vector);
        Some(1)
    } else if 0xc0 <= b0 && b0 <= 0xdf {
        if rem < 2 {
            return None;
        }
        let b1 = bytes[i + 1];
        assert(s[1] == b1);
        if !(0x80 <= b1 && b1 <= 0xbf) {
            return None;
        }
        let cp: u32 = (((b0 & 0x1F) as u32) << 6) | ((b1 & 0x3f) as u32);
        assert((((b0 & 0x1F) as u32) << 6) | ((b1 & 0x3f) as u32) <= 0x7ff) by (bit_vector);
        if 0x80 <= cp {
            Some(2)
        } else {
            None
        }
    } else if 0xe0 <= b0 && b0 <= 0xef {
        if rem < 3 {
            return None;
        }
        let b1 = bytes[i + 1];
        let b2 = bytes[i + 2];
        assert(s[1] == b1);
        assert(s[2] == b2);
        if !(0x80 <= b1 && b1 <= 0xbf && 0x80 <= b2 && b2 <= 0xbf) {
            return None;
        }
        let cp: u32 = (((b0 & 0x0F) as u32) << 12) | (((b1 & 0x3f) as u32) << 6) | ((b2 & 0x3f) as u32);
        if 0x800 <= cp && !(0xD800 <= cp && cp <= 0xDFFF) {
            Some(3)
        } else {
            None
        }
    } else if 0xf0 <= b0 && b0 <= 0xf7 {
        if rem < 4 {
            return None;
        }
        let b1 = bytes[i + 1];
        let b2 = bytes[i + 2];
        let b3 = bytes[i + 3];
        assert(s[1] == b1);
        assert(s[2] == b2);
        assert(s[3] == b3);
        if !(0x80 <= b1 && b1 <= 0xbf && 0x80 <= b2 && b2 <= 0xbf && 0x80 <= b3 && b3 <= 0xbf) {
            return None;
        }
        let cp: u32 = (((b0 & 0x07) as u32) << 18) | (((b1 & 0x3f) as u32) << 12) | (((b2 & 0x3f) as u32) << 6)
            | ((b3 & 0x3f) as u32);
        if 0x10000 <= cp && cp <= 0x10ffff {
            Some(4)
        } else {
            None
        }
    } else {
        None
    }
}

/// Length of the longest prefix of `bytes` that is valid UTF-8.
pub fn utf8_valid_prefix_len(bytes: &[u8]) -> (n: usize)
    ensures
        n == valid_prefix_len(bytes@),
        n <= bytes@.len(),
        valid_utf8(bytes@.take(n as int)),
        forall|m: int| n < m <= bytes@.len() ==> !valid_utf8(#[trigger] bytes@.take(m)),
{
    let len = bytes.len();
    let mut i: usize = 0;
    proof {
        assert(bytes@.skip(0) =~= bytes@);
    }
    while i < len
        invariant
            len == bytes@.len(),
            i <= len,
            valid_prefix_len(bytes@) == i + valid_prefix_len(bytes@.skip(i as int)),
        decreases len - i,
    {
        match first_scalar_len(bytes, i) {
            Some(l) => {
                proof {
                    let s = bytes@.skip(i as int);
                    assert(pop_first_scalar(s) =~= bytes@.skip(i + l));
                }
                i = i + l;
            }
            None => {
                proof {
                    lemma_valid_prefix_is_valid(bytes@);
                    assert forall|m: int| i < m <= bytes@.len() implies !valid_utf8(#[trigger] bytes@.take(m)) by {
                        lemma_valid_prefix_is_longest(bytes@, m);
                    }
                }
                return i;
            }
        }
    }
    proof {
        assert(bytes@.skip(i as int) =~= Seq::<u8>::empty());
        lemma_valid_prefix_is_valid(bytes@);
        assert forall|m: int| i < m <= bytes@.len() implies !valid_utf8(#[trigger] bytes@.take(m)) by {
            lemma_valid_prefix_is_longest(bytes@, m);
        }
    }
    i
}

/// `core::str::from_utf8`: a string over `bytes` exactly when they are valid UTF-8.
#[verifier::external_body]
pub(crate) fn str_from_utf8<'a>(bytes: &'a [u8]) -> (r: Option<&'a str>)
    ensures
        r is Some <==> valid_utf8(bytes@),
        r matches Some(s) ==> s.spec_bytes() == bytes@,
{
    core::str::from_utf8(bytes).ok()
}

} // verus!
