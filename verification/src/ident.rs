//! Sortable identifiers: 128 bits, written as 26 symbols of Crockford's
//! base 32, most significant symbol first.

use vstd::prelude::*;

verus! {

/// Number of symbols in the text of an identifier.
pub const ID_LEN: usize = 26;

/// The 32 symbols, in the order of their values: the digits, then the
/// upper-case letters without `I`, `L`, `O` and `U`.
pub open spec fn symbols() -> Seq<char> {
    seq![
        '0', '1', '2', '3', '4', '5', '6', '7', '8', '9', 'A', 'B', 'C', 'D', 'E', 'F',
        'G', 'H', 'J', 'K', 'M', 'N', 'P', 'Q', 'R', 'S', 'T', 'V', 'W', 'X', 'Y', 'Z',
    ]
}

/// The value of the symbol at position `pos` of the text of `bits`: five
/// bits of `bits`, the lowest five at the last position. The first symbol
/// holds the top three bits.
pub open spec fn digit_at(bits: u128, pos: int) -> u128 {
    (bits >> ((125 - 5 * pos) as u128)) & 0x1f
}

/// The text of the identifier `bits`.
pub open spec fn sortable_text(bits: u128) -> Seq<char> {
    Seq::new(ID_LEN as nat, |pos: int| symbols()[digit_at(bits, pos) as int])
}

/// Whether `text` is the text of some identifier.
pub open spec fn is_sortable_text(text: Seq<char>) -> bool {
    exists|bits: u128| text == #[trigger] sortable_text(bits)
}

/// Calls `ulid::Ulid::new` and hands out the 128 bits of the identifier it
/// made. The bits hold the current time and random numbers, so nothing is
/// claimed of them.
#[verifier::external_body]
pub(crate) fn draw_bits() -> (bits: u128) {
    ulid::Ulid::new().0
}

/// Calls `ulid::Ulid::to_string` on the identifier with these bits. The
/// claim: the result has 26 characters, and the one at position `pos` is
/// the symbol whose value is `bits`, shifted right by `125 - 5 * pos`,
/// taken to its lowest five bits.
#[verifier::external_body]
fn encode_bits(bits: u128) -> (text: String)
    ensures
        text@ == sortable_text(bits),
{
    ulid::Ulid(bits).to_string()
}

/// The text of the identifier `bits`.
pub fn render_id(bits: u128) -> (text: String)
    ensures
        text@ == sortable_text(bits),
        text@.len() == ID_LEN,
{
    encode_bits(bits)
}

/// The text of a new identifier, made from the current time and random
/// numbers.
pub fn fresh_id() -> (text: String)
    ensures
        is_sortable_text(text@),
        text@.len() == ID_LEN,
{
    let bits: u128 = draw_bits();
    render_id(bits)
}

/// Whether `a` and `b` part at `k` with `a` in front: they agree on the
/// first `k` characters, and there `a` ends while `b` goes on, or `a` has
/// the smaller character.
pub open spec fn parts_at(a: Seq<char>, b: Seq<char>, k: int) -> bool {
    &&& 0 <= k <= a.len()
    &&& k < b.len()
    &&& forall|j: int| 0 <= j < k ==> a[j] == b[j]
    &&& (k == a.len() || a[k] < b[k])
}

/// Whether `a` sorts strictly before `b`, as strings are ordered.
pub open spec fn sorts_before(a: Seq<char>, b: Seq<char>) -> bool {
    exists|k: int| #[trigger] parts_at(a, b, k)
}

/// The millisecond timestamp of an identifier: its upper 48 bits.
pub open spec fn stamp_of(bits: u128) -> u128 {
    bits >> 80
}

/// What the first `pos` symbols of the text say of `bits`: all but its
/// lowest `5 * (26 - pos)` bits.
spec fn head(bits: u128, pos: int) -> u128 {
    if pos <= 0 {
        0
    } else {
        bits >> ((130 - 5 * pos) as u128)
    }
}

/// Every symbol value is below 32.
pub proof fn lemma_digit_below_32(bits: u128, pos: int)
    requires
        0 <= pos < ID_LEN,
    ensures
        digit_at(bits, pos) < 32,
{
    let s = (125 - 5 * pos) as u128;
    assert((bits >> s) & 0x1f < 32) by (bit_vector);
}

/// The text of an identifier has 26 characters, each of them one of the
/// 32 symbols.
pub proof fn lemma_text_shape(text: Seq<char>)
    requires
        is_sortable_text(text),
    ensures
        text.len() == ID_LEN,
        forall|pos: int| 0 <= pos < ID_LEN ==> symbols().contains(#[trigger] text[pos]),
{
    let bits = choose|bits: u128| text == #[trigger] sortable_text(bits);
    assert forall|pos: int| 0 <= pos < ID_LEN implies symbols().contains(
        #[trigger] text[pos],
    ) by {
        lemma_digit_below_32(bits, pos);
        assert(symbols().len() == 32);
        assert(text[pos] == symbols()[digit_at(bits, pos) as int]);
    }
}

/// The symbols stand in ascending order, so no symbol has two values.
pub proof fn lemma_symbols_ascend()
    ensures
        symbols().len() == 32,
        forall|i: int, j: int| 0 <= i < j < 32 ==> symbols()[i] < symbols()[j],
{
    let s = symbols();
    assert(s.len() == 32);
    assert forall|i: int| 0 <= i < 31 implies #[trigger] s[i] < s[i + 1] by {
    }
    assert forall|i: int, j: int| 0 <= i < j < 32 implies s[i] < s[j] by {
        lemma_ascend_from(s, i, j);
    }
}

proof fn lemma_ascend_from(s: Seq<char>, i: int, j: int)
    requires
        0 <= i < j < s.len(),
        forall|k: int| 0 <= k < s.len() - 1 ==> #[trigger] s[k] < s[k + 1],
    ensures
        s[i] < s[j],
    decreases j - i,
{
    if i + 1 < j {
        lemma_ascend_from(s, i, j - 1);
    }
}

/// Where `a < b` and their texts agree before `pos`, the texts part at
/// some position from `pos` on, and there `a` has the smaller symbol value.
proof fn lemma_parting(a: u128, b: u128, pos: int) -> (k: int)
    requires
        a < b,
        0 <= pos < ID_LEN,
        head(a, pos) == head(b, pos),
        forall|j: int| 0 <= j < pos ==> digit_at(a, j) == digit_at(b, j),
    ensures
        pos <= k < ID_LEN,
        forall|j: int| 0 <= j < k ==> digit_at(a, j) == digit_at(b, j),
        digit_at(a, k) < digit_at(b, k),
    decreases ID_LEN - pos,
{
    let s = (125 - 5 * pos) as u128;
    let t = (130 - 5 * pos) as u128;
    // With the bits above equal, the five bits at `s` order as `a` and `b`
    // do, and decide whether the bits from `s` up are equal too.
    if pos == 0 {
        assert(a < b ==> (a >> 125) & 0x1f <= (b >> 125) & 0x1f) by (bit_vector);
        assert((a >> 125) & 0x1f == (b >> 125) & 0x1f ==> a >> 125 == b >> 125)
            by (bit_vector);
    } else {
        assert(s <= 120 && t == s + 5 && a < b && a >> t == b >> t ==> (a >> s) & 0x1f <= (b
            >> s) & 0x1f) by (bit_vector);
        assert(s <= 120 && t == s + 5 && a >> t == b >> t && (a >> s) & 0x1f == (b >> s) & 0x1f
            ==> a >> s == b >> s) by (bit_vector);
    }
    if digit_at(a, pos) < digit_at(b, pos) {
        pos
    } else {
        assert(head(a, pos + 1) == head(b, pos + 1));
        assert(pos < ID_LEN - 1) by {
            assert(a >> 0 == b >> 0 ==> a == b) by (bit_vector);
        }
        lemma_parting(a, b, pos + 1)
    }
}

/// The text of an identifier orders as the identifier does: the smaller
/// identifier has the text that sorts first.
pub proof fn lemma_text_keeps_order(a: u128, b: u128)
    requires
        a < b,
    ensures
        sorts_before(sortable_text(a), sortable_text(b)),
{
    let k = lemma_parting(a, b, 0);
    lemma_symbols_ascend();
    lemma_digit_below_32(a, k);
    lemma_digit_below_32(b, k);
    assert(parts_at(sortable_text(a), sortable_text(b), k));
}

/// No two identifiers share a text.
pub proof fn lemma_text_is_injective(a: u128, b: u128)
    requires
        sortable_text(a) == sortable_text(b),
    ensures
        a == b,
{
    if a != b {
        let (lo, hi) = if a < b { (a, b) } else { (b, a) };
        let k = lemma_parting(lo, hi, 0);
        lemma_symbols_ascend();
        lemma_digit_below_32(lo, k);
        lemma_digit_below_32(hi, k);
        assert(sortable_text(lo)[k] < sortable_text(hi)[k]);
    }
}

/// An identifier made in a later millisecond sorts after one made
/// earlier, whatever their random parts.
pub proof fn lemma_later_stamp_sorts_later(a: u128, b: u128)
    requires
        stamp_of(a) < stamp_of(b),
    ensures
        sorts_before(sortable_text(a), sortable_text(b)),
{
    assert(a >> 80 < b >> 80 ==> a < b) by (bit_vector);
    lemma_text_keeps_order(a, b);
}

} // verus!
