//! Canonical item identifiers and their base-62 text.

use vstd::prelude::*;
use crate::text::push_char;

verus! {

/// The canonical identity of a track or an episode. Two links name the same
/// item exactly when their identifiers are equal.
#[derive(Clone, Copy, Debug, PartialEq, Eq, Structural)]
pub struct ItemId(pub u128);

/// The number of characters of an identifier's canonical text.
pub const ID_TEXT_LEN: usize = 22;

/// The value of a base-62 digit: `0-9`, then `a-z`, then `A-Z`.
pub open spec fn digit_value(c: char) -> Option<nat> {
    if '0' <= c <= '9' {
        Some((c as nat - '0' as nat) as nat)
    } else if 'a' <= c <= 'z' {
        Some((c as nat - 'a' as nat + 10) as nat)
    } else if 'A' <= c <= 'Z' {
        Some((c as nat - 'A' as nat + 36) as nat)
    } else {
        None
    }
}

/// The digit that stands for a value below 62.
pub open spec fn digit_char(d: nat) -> char
    recommends
        d < 62,
{
    if d < 10 {
        (('0' as nat + d) as u8) as char
    } else if d < 36 {
        (('a' as nat + d - 10) as u8) as char
    } else {
        (('A' as nat + d - 36) as u8) as char
    }
}

/// Whether every character of `s` is a base-62 digit.
pub open spec fn is_base62(s: Seq<char>) -> bool {
    forall|i: int| 0 <= i < s.len() ==> (#[trigger] digit_value(s[i])) is Some
}

/// The number that `s` denotes in base 62, most significant digit first.
/// A character that is no digit counts as zero.
pub open spec fn base62_value(s: Seq<char>) -> nat
    decreases s.len(),
{
    if s.len() == 0 {
        0
    } else {
        base62_value(s.drop_last()) * 62 + match digit_value(s.last()) {
            Some(d) => d,
            None => 0,
        }
    }
}

/// Sixty-two to the power `n`.
pub open spec fn pow62(n: nat) -> nat
    decreases n,
{
    if n == 0 {
        1
    } else {
        62 * pow62((n - 1) as nat)
    }
}

/// The text of `len` digits that denotes `n` modulo `62^len`.
pub open spec fn base62_text(n: nat, len: nat) -> Seq<char>
    decreases len,
{
    if len == 0 {
        Seq::empty()
    } else {
        base62_text(n / 62, (len - 1) as nat).push(digit_char(n % 62))
    }
}

/// The canonical text of an identifier: 22 digits, padded with `0`.
pub open spec fn canonical_text(n: nat) -> Seq<char> {
    base62_text(n, ID_TEXT_LEN as nat)
}

/// A longer text denotes no smaller a number than any of its prefixes.
pub proof fn lemma_value_grows(s: Seq<char>, k: int)
    requires
        0 <= k <= s.len(),
    ensures
        base62_value(s.take(k)) <= base62_value(s),
    decreases s.len() - k,
{
    if k == s.len() {
        assert(s.take(k) == s);
    } else {
        lemma_value_grows(s, k + 1);
        assert(s.take(k + 1).drop_last() == s.take(k));
    }
}

fn digit_of(c: char) -> (r: Option<u8>)
    ensures
        r is Some <==> digit_value(c) is Some,
        r is Some ==> r->0 as nat == digit_value(c)->0 && r->0 < 62,
{
    if '0' <= c && c <= '9' {
        Some((c as u32 - '0' as u32) as u8)
    } else if 'a' <= c && c <= 'z' {
        Some((c as u32 - 'a' as u32 + 10) as u8)
    } else if 'A' <= c && c <= 'Z' {
        Some((c as u32 - 'A' as u32 + 36) as u8)
    } else {
        None
    }
}

fn char_of_digit(d: u8) -> (c: char)
    requires
        d < 62,
    ensures
        c == digit_char(d as nat),
        digit_value(c) == Some(d as nat),
{
    if d < 10 {
        (48u8 + d) as char
    } else if d < 36 {
        (97u8 + (d - 10)) as char
    } else {
        (65u8 + (d - 36)) as char
    }
}

fn push_digits(out: &mut String, n: u128, len: usize)
    ensures
        final(out)@ == old(out)@ + base62_text(n as nat, len as nat),
    decreases len,
{
    if len > 0 {
        push_digits(out, n / 62, len - 1);
        push_char(out, char_of_digit((n % 62) as u8));
        assert(old(out)@ + base62_text(n as nat, len as nat) == (old(out)@ + base62_text(
            (n / 62) as nat,
            (len - 1) as nat,
        )).push(digit_char((n % 62) as nat)));
    } else {
        assert(old(out)@ + base62_text(n as nat, 0) == old(out)@);
    }
}

/// The text of `len` digits has `len` characters, all of them digits, and
/// denotes `n` again where `n` is below `62^len`.
pub proof fn lemma_text_denotes(n: nat, len: nat)
    ensures
        base62_text(n, len).len() == len,
        is_base62(base62_text(n, len)),
        n < pow62(len) ==> base62_value(base62_text(n, len)) == n,
    decreases len,
{
    if len > 0 {
        let head = base62_text(n / 62, (len - 1) as nat);
        let t = base62_text(n, len);
        lemma_text_denotes(n / 62, (len - 1) as nat);
        assert(t.drop_last() == head);
        assert(digit_value(digit_char(n % 62)) == Some(n % 62));
        assert forall|i: int| 0 <= i < t.len() implies (#[trigger] digit_value(t[i])) is Some by {
            if i < len - 1 {
                assert(t[i] == head[i]);
            }
        }
    }
}

/// Every 128-bit number is below `62^22`.
pub proof fn lemma_ids_fit()
    ensures
        u128::MAX < pow62(ID_TEXT_LEN as nat),
{
    reveal_with_fuel(pow62, 23);
}

impl ItemId {
    /// The identifier as a number.
    pub open spec fn value(self) -> nat {
        self.0 as nat
    }

    /// Reads an identifier from base-62 text. The text is accepted exactly
    /// when all its characters are digits and the number fits 128 bits.
    pub fn from_base62(text: &[char]) -> (r: Option<ItemId>)
        ensures
            r is Some <==> is_base62(text@) && base62_value(text@) <= u128::MAX,
            r matches Some(id) ==> id.value() == base62_value(text@),
    {
        let mut acc: u128 = 0;
        let mut i: usize = 0;
        while i < text.len()
            invariant
                i <= text.len(),
                is_base62(text@.take(i as int)),
                acc as nat == base62_value(text@.take(i as int)),
            decreases text.len() - i,
        {
            let ghost next = text@.take(i + 1);
            assert(next.drop_last() == text@.take(i as int));
            assert(next.last() == text@[i as int]);
            let d = match digit_of(text[i]) {
                Some(d) => d,
                None => {
                    return None;
                },
            };
            let shifted = match acc.checked_mul(62) {
                Some(x) => x,
                None => {
                    proof {
                        lemma_value_grows(text@, i + 1);
                    }
                    return None;
                },
            };
            acc = match shifted.checked_add(d as u128) {
                Some(x) => x,
                None => {
                    proof {
                        lemma_value_grows(text@, i + 1);
                    }
                    return None;
                },
            };
            i += 1;
            assert forall|j: int| 0 <= j < next.len() implies (#[trigger] digit_value(
                next[j],
            )) is Some by {
                if j < i - 1 {
                    assert(next[j] == text@.take(i - 1)[j]);
                }
            }
        }
        assert(text@.take(text.len() as int) == text@);
        Some(ItemId(acc))
    }

    /// The canonical text of the identifier.
    pub fn to_base62(&self) -> (r: String)
        ensures
            r@ == canonical_text(self.value()),
    {
        let mut out = String::new();
        push_digits(&mut out, self.0, ID_TEXT_LEN);
        assert(Seq::<char>::empty() + canonical_text(self.value()) == canonical_text(self.value()));
        out
    }
}

/// Reading the canonical text of an identifier gives the identifier back.
pub proof fn law_canonical_text_round_trip(id: ItemId)
    ensures
        canonical_text(id.value()).len() == ID_TEXT_LEN,
        is_base62(canonical_text(id.value())),
        base62_value(canonical_text(id.value())) == id.value(),
{
    lemma_ids_fit();
    lemma_text_denotes(id.value(), ID_TEXT_LEN as nat);
}

} // verus!
