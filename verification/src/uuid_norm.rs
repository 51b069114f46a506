//! UUID normalization.
//!
//! A UUID token is either a 16-bit short form (4 hex digits), a 32-bit
//! short form (8 hex digits), or a full 128-bit form — hyphenated
//! (8-4-4-4-12 hex digits) or plain (32 hex digits) — optionally
//! prefixed with `0x` and padded with ASCII whitespace. Normalization
//! trims the padding, expands short forms over the standard Bluetooth
//! base UUID `0000xxxx-0000-1000-8000-00805f9b34fb`, hyphenates the
//! plain form, and lowers hex digits, yielding the canonical textual
//! form.

use vstd::prelude::*;

use crate::error::Error;
use crate::text::push_char;

verus! {

/// Whether `c` is a hexadecimal digit (either case).
pub open spec fn is_hex_digit(c: char) -> bool {
    (48 <= c as u32 && c as u32 <= 57) || (97 <= c as u32 && c as u32 <= 102) || (65 <= c as u32
        && c as u32 <= 70)
}

/// Whether `c` is ASCII whitespace, the padding a token may carry.
pub open spec fn is_token_space(c: char) -> bool {
    c as u32 == 32 || c as u32 == 9 || c as u32 == 10 || c as u32 == 12 || c as u32 == 13
}

/// Lowers the six uppercase hex letters; leaves every other character
/// unchanged.
pub open spec fn lower_hex_char(c: char) -> char {
    if c == 'A' {
        'a'
    } else if c == 'B' {
        'b'
    } else if c == 'C' {
        'c'
    } else if c == 'D' {
        'd'
    } else if c == 'E' {
        'e'
    } else if c == 'F' {
        'f'
    } else {
        c
    }
}

/// Lowers each character of a string with [`lower_hex_char`].
pub open spec fn lower_hex(s: Seq<char>) -> Seq<char> {
    s.map_values(|c: char| lower_hex_char(c))
}

/// The tail of the standard Bluetooth base UUID, following the first
/// eight hex digits.
pub open spec fn base_uuid_suffix() -> Seq<char> {
    seq![
        '-', '0', '0', '0', '0', '-', '1', '0', '0', '0', '-', '8', '0', '0', '0', '-', '0', '0',
        '8', '0', '5', 'f', '9', 'b', '3', '4', 'f', 'b',
    ]
}

/// Removes leading whitespace.
pub open spec fn trim_front(s: Seq<char>) -> Seq<char>
    decreases s.len(),
{
    if s.len() > 0 && is_token_space(s[0]) {
        trim_front(s.drop_first())
    } else {
        s
    }
}

/// Removes trailing whitespace.
pub open spec fn trim_back(s: Seq<char>) -> Seq<char>
    decreases s.len(),
{
    if s.len() > 0 && is_token_space(s.last()) {
        trim_back(s.drop_last())
    } else {
        s
    }
}

/// Removes whitespace from both ends.
pub open spec fn trim_spaces(s: Seq<char>) -> Seq<char> {
    trim_back(trim_front(s))
}

/// Removes one leading `0x`, if present.
pub open spec fn strip_hex_prefix(s: Seq<char>) -> Seq<char> {
    if s.len() >= 2 && s[0] == '0' && s[1] == 'x' {
        s.subrange(2, s.len() as int)
    } else {
        s
    }
}

/// Whether every character of `s` is a hex digit.
pub open spec fn all_hex(s: Seq<char>) -> bool {
    forall|i: int| 0 <= i < s.len() ==> is_hex_digit(#[trigger] s[i])
}

/// The positions of the four hyphens in a full UUID form.
pub open spec fn is_uuid_sep_index(i: int) -> bool {
    i == 8 || i == 13 || i == 18 || i == 23
}

/// Whether `s` spells a hyphenated full 128-bit UUID: 36 characters,
/// hyphens at the four separator positions, hex digits everywhere
/// else.
pub open spec fn is_full_uuid_form(s: Seq<char>) -> bool {
    &&& s.len() == 36
    &&& s[8] == '-'
    &&& s[13] == '-'
    &&& s[18] == '-'
    &&& s[23] == '-'
    &&& forall|i: int| 0 <= i < 36 && !is_uuid_sep_index(i) ==> is_hex_digit(#[trigger] s[i])
}

/// Which of the 32 hex digits stands at position `i` of a hyphenated
/// form (meaningful for non-separator positions).
pub open spec fn digit_index(i: int) -> int {
    if i < 8 {
        i
    } else if i < 13 {
        i - 1
    } else if i < 18 {
        i - 2
    } else if i < 23 {
        i - 3
    } else {
        i - 4
    }
}

/// Lays 32 hex digits out in the hyphenated 8-4-4-4-12 shape.
pub open spec fn hyphenate_uuid_digits(d: Seq<char>) -> Seq<char> {
    d.subrange(0, 8) + seq!['-'] + d.subrange(8, 12) + seq!['-'] + d.subrange(12, 16)
        + seq!['-'] + d.subrange(16, 20) + seq!['-'] + d.subrange(20, 32)
}

/// The canonical 128-bit form of a UUID token, or `None` when the
/// token, trimmed of whitespace and one optional `0x` prefix, parses
/// to neither a short nor a full form.
pub open spec fn normalize_uuid_spec(s: Seq<char>) -> Option<Seq<char>> {
    let t = strip_hex_prefix(trim_spaces(s));
    if t.len() == 4 && all_hex(t) {
        Some(seq!['0', '0', '0', '0'] + lower_hex(t) + base_uuid_suffix())
    } else if t.len() == 8 && all_hex(t) {
        Some(lower_hex(t) + base_uuid_suffix())
    } else if t.len() == 32 && all_hex(t) {
        Some(hyphenate_uuid_digits(lower_hex(t)))
    } else if is_full_uuid_form(t) {
        Some(lower_hex(t))
    } else {
        None
    }
}

/// Whether `s` already is a canonical UUID form.
pub open spec fn is_canonical_uuid(s: Seq<char>) -> bool {
    normalize_uuid_spec(s) == Some(s)
}

/// The canonical form of a token where it has one, the token itself
/// otherwise. Used when comparing UUIDs that may not all parse.
pub open spec fn canon_uuid(s: Seq<char>) -> Seq<char> {
    match normalize_uuid_spec(s) {
        Some(c) => c,
        None => s,
    }
}

/// Whether `c` is a hexadecimal digit.
pub fn char_is_hex_digit(c: char) -> (r: bool)
    ensures
        r == is_hex_digit(c),
{
    let u = c as u32;
    (48 <= u && u <= 57) || (97 <= u && u <= 102) || (65 <= u && u <= 70)
}

/// Whether `c` is ASCII whitespace.
fn char_is_token_space(c: char) -> (r: bool)
    ensures
        r == is_token_space(c),
{
    let u = c as u32;
    u == 32 || u == 9 || u == 10 || u == 12 || u == 13
}

/// Lowers one hex letter.
fn lower_hex_char_exec(c: char) -> (r: char)
    ensures
        r == lower_hex_char(c),
{
    if c == 'A' {
        'a'
    } else if c == 'B' {
        'b'
    } else if c == 'C' {
        'c'
    } else if c == 'D' {
        'd'
    } else if c == 'E' {
        'e'
    } else if c == 'F' {
        'f'
    } else {
        c
    }
}

/// Leading whitespace only moves `trim_front` along.
proof fn lemma_trim_front_skip(s: Seq<char>, k: int)
    requires
        0 <= k <= s.len(),
        forall|j: int| 0 <= j < k ==> is_token_space(#[trigger] s[j]),
    ensures
        trim_front(s) == trim_front(s.skip(k)),
    decreases k,
{
    if k > 0 {
        assert(is_token_space(s[0]));
        assert(s.drop_first() =~= s.skip(1));
        lemma_trim_front_skip(s.skip(1), k - 1);
        assert(s.skip(1).skip(k - 1) =~= s.skip(k));
    } else {
        assert(s.skip(0) =~= s);
    }
}

/// Trailing whitespace only moves `trim_back` along.
proof fn lemma_trim_back_take(s: Seq<char>, m: int)
    requires
        0 <= m <= s.len(),
        forall|j: int| m <= j < s.len() ==> is_token_space(#[trigger] s[j]),
    ensures
        trim_back(s) == trim_back(s.take(m)),
    decreases s.len() - m,
{
    if m < s.len() {
        assert(is_token_space(s.last()));
        assert(s.drop_last() =~= s.take(s.len() - 1));
        lemma_trim_back_take(s.take(s.len() - 1), m);
        assert(s.take(s.len() - 1).take(m) =~= s.take(m));
    } else {
        assert(s.take(m) =~= s);
    }
}

/// A string without whitespace trims to itself.
proof fn lemma_trim_fixed(s: Seq<char>)
    requires
        forall|i: int| 0 <= i < s.len() ==> !is_token_space(#[trigger] s[i]),
    ensures
        trim_spaces(s) == s,
{
}

/// Checks that the `count` characters of `s` starting at `start` are
/// all hex digits.
fn range_all_hex(s: &str, start: usize, count: usize) -> (r: bool)
    requires
        start + count <= s@.len(),
        start + count <= usize::MAX,
    ensures
        r == all_hex(s@.subrange(start as int, start + count)),
{
    let ghost t = s@.subrange(start as int, start + count);
    let mut i: usize = 0;
    while i < count
        invariant
            i <= count,
            start + count <= s@.len(),
            start + count <= usize::MAX,
            t == s@.subrange(start as int, start + count),
            forall|j: int| 0 <= j < i ==> is_hex_digit(#[trigger] t[j]),
        decreases count - i,
    {
        let c = s.get_char(start + i);
        proof {
            assert(t[i as int] == s@[start + i]);
        }
        if !char_is_hex_digit(c) {
            return false;
        }
        i = i + 1;
    }
    true
}

/// Checks the non-separator positions of a 36-character window for hex
/// digits.
fn full_form_hex_ok(s: &str, start: usize) -> (r: bool)
    requires
        start + 36 <= s@.len(),
        start + 36 <= usize::MAX,
    ensures
        r == (forall|j: int|
            0 <= j < 36 && !is_uuid_sep_index(j) ==> is_hex_digit(
                #[trigger] s@.subrange(start as int, start + 36)[j],
            )),
{
    let ghost t = s@.subrange(start as int, start + 36);
    let mut i: usize = 0;
    while i < 36
        invariant
            i <= 36,
            start + 36 <= s@.len(),
            start + 36 <= usize::MAX,
            t == s@.subrange(start as int, start + 36),
            forall|j: int| 0 <= j < i && !is_uuid_sep_index(j) ==> is_hex_digit(#[trigger] t[j]),
        decreases 36 - i,
    {
        if !(i == 8 || i == 13 || i == 18 || i == 23) {
            let c = s.get_char(start + i);
            proof {
                assert(t[i as int] == s@[start + i]);
            }
            if !char_is_hex_digit(c) {
                return false;
            }
        }
        i = i + 1;
    }
    true
}

/// Appends the lowered characters `s[start .. start + count]` to `out`.
fn push_lower_range(out: &mut String, s: &str, start: usize, count: usize)
    requires
        start + count <= s@.len(),
        start + count <= usize::MAX,
    ensures
        final(out)@ == old(out)@ + lower_hex(s@.subrange(start as int, start + count)),
{
    let ghost t = s@.subrange(start as int, start + count);
    let mut i: usize = 0;
    while i < count
        invariant
            i <= count,
            start + count <= s@.len(),
            start + count <= usize::MAX,
            t == s@.subrange(start as int, start + count),
            out@ == old(out)@ + lower_hex(t).subrange(0, i as int),
        decreases count - i,
    {
        let c = s.get_char(start + i);
        proof {
            assert(t[i as int] == s@[start + i]);
            assert(lower_hex(t)[i as int] == lower_hex_char(t[i as int]));
        }
        let l = lower_hex_char_exec(c);
        push_char(out, l);
        i = i + 1;
        proof {
            assert(out@ =~= old(out)@ + lower_hex(t).subrange(0, i as int));
        }
    }
    proof {
        assert(lower_hex(t).subrange(0, count as int) =~= lower_hex(t));
    }
}

/// Appends the base-UUID tail to `out`.
fn push_base_suffix(out: &mut String)
    ensures
        final(out)@ == old(out)@ + base_uuid_suffix(),
{
    let tail: &str = "-0000-1000-8000-00805f9b34fb";
    proof {
        reveal_strlit("-0000-1000-8000-00805f9b34fb");
        assert(tail@ =~= base_uuid_suffix());
    }
    out.append(tail);
}

/// Normalizes a UUID token into its canonical 128-bit textual form.
///
/// Fails with [`Error::InvalidUuid`] carrying the token when it is
/// neither a short form (4 or 8 hex digits) nor a full form (32 hex
/// digits, plain or hyphenated), after trimming whitespace and one
/// optional `0x` prefix.
pub fn normalize_uuid(token: &str) -> (r: Result<String, Error>)
    ensures
        match r {
            Ok(c) => normalize_uuid_spec(token@) == Some(c@),
            Err(e) => {
                &&& normalize_uuid_spec(token@) is None
                &&& e matches Error::InvalidUuid(u) && u@ == token@
            },
        },
{
    let n = token.unicode_len();
    let mut lo: usize = 0;
    loop
        invariant
            lo <= n,
            n == token@.len(),
            forall|j: int| 0 <= j < lo ==> is_token_space(#[trigger] token@[j]),
        ensures
            lo <= n,
            n == token@.len(),
            forall|j: int| 0 <= j < lo ==> is_token_space(#[trigger] token@[j]),
            lo == n || !is_token_space(token@[lo as int]),
        decreases n - lo,
    {
        if lo == n {
            break ;
        }
        if !char_is_token_space(token.get_char(lo)) {
            break ;
        }
        lo = lo + 1;
    }
    let mut hi: usize = n;
    loop
        invariant
            lo <= hi <= n,
            n == token@.len(),
            forall|j: int| hi <= j < n ==> is_token_space(#[trigger] token@[j]),
        ensures
            lo <= hi <= n,
            n == token@.len(),
            forall|j: int| hi <= j < n ==> is_token_space(#[trigger] token@[j]),
            hi == lo || !is_token_space(token@[hi - 1]),
        decreases hi,
    {
        if hi == lo {
            break ;
        }
        if !char_is_token_space(token.get_char(hi - 1)) {
            break ;
        }
        hi = hi - 1;
    }
    let ghost trimmed = token@.subrange(lo as int, hi as int);
    proof {
        lemma_trim_front_skip(token@, lo as int);
        let w = token@.skip(lo as int);
        if lo < n {
            assert(w[0] == token@[lo as int]);
        }
        assert(trim_front(w) == w);
        lemma_trim_back_take(w, hi - lo);
        let v = w.take(hi - lo);
        if hi > lo {
            assert(v.last() == token@[hi - 1]);
        }
        assert(trim_back(v) == v);
        assert(trim_spaces(token@) =~= trimmed);
    }
    let has_prefix = hi - lo >= 2 && token.get_char(lo) == '0' && token.get_char(lo + 1) == 'x';
    let start: usize = if has_prefix {
        lo + 2
    } else {
        lo
    };
    let m = hi - start;
    let ghost t = strip_hex_prefix(trim_spaces(token@));
    proof {
        if hi - lo >= 2 {
            assert(trimmed[0] == token@[lo as int]);
            assert(trimmed[1] == token@[lo + 1]);
        }
        assert(t =~= token@.subrange(start as int, hi as int));
    }
    if m == 4 {
        if range_all_hex(token, start, 4) {
            let mut out = String::new();
            push_char(&mut out, '0');
            push_char(&mut out, '0');
            push_char(&mut out, '0');
            push_char(&mut out, '0');
            proof {
                assert(out@ =~= seq!['0', '0', '0', '0']);
            }
            push_lower_range(&mut out, token, start, 4);
            push_base_suffix(&mut out);
            proof {
                assert(out@ =~= seq!['0', '0', '0', '0'] + lower_hex(t) + base_uuid_suffix());
            }
            Ok(out)
        } else {
            Err(Error::InvalidUuid(token.to_owned()))
        }
    } else if m == 8 {
        if range_all_hex(token, start, 8) {
            let mut out = String::new();
            push_lower_range(&mut out, token, start, 8);
            push_base_suffix(&mut out);
            proof {
                assert(out@ =~= lower_hex(t) + base_uuid_suffix());
            }
            Ok(out)
        } else {
            Err(Error::InvalidUuid(token.to_owned()))
        }
    } else if m == 32 {
        if range_all_hex(token, start, 32) {
            let mut out = String::new();
            push_lower_range(&mut out, token, start, 8);
            push_char(&mut out, '-');
            push_lower_range(&mut out, token, start + 8, 4);
            push_char(&mut out, '-');
            push_lower_range(&mut out, token, start + 12, 4);
            push_char(&mut out, '-');
            push_lower_range(&mut out, token, start + 16, 4);
            push_char(&mut out, '-');
            push_lower_range(&mut out, token, start + 20, 12);
            proof {
                assert(lower_hex(token@.subrange(start as int, start + 8)) =~= lower_hex(
                    t,
                ).subrange(0, 8));
                assert(lower_hex(token@.subrange(start + 8, start + 12)) =~= lower_hex(
                    t,
                ).subrange(8, 12));
                assert(lower_hex(token@.subrange(start + 12, start + 16)) =~= lower_hex(
                    t,
                ).subrange(12, 16));
                assert(lower_hex(token@.subrange(start + 16, start + 20)) =~= lower_hex(
                    t,
                ).subrange(16, 20));
                assert(lower_hex(token@.subrange(start + 20, start + 32)) =~= lower_hex(
                    t,
                ).subrange(20, 32));
                assert(out@ =~= hyphenate_uuid_digits(lower_hex(t)));
            }
            Ok(out)
        } else {
            Err(Error::InvalidUuid(token.to_owned()))
        }
    } else if m == 36 {
        let seps_ok = token.get_char(start + 8) == '-' && token.get_char(start + 13) == '-'
            && token.get_char(start + 18) == '-' && token.get_char(start + 23) == '-';
        proof {
            assert(start + 36 == hi);
            assert(token@.subrange(start as int, start + 36) =~= t);
            assert(t[8] == token@[start + 8]);
            assert(t[13] == token@[start + 13]);
            assert(t[18] == token@[start + 18]);
            assert(t[23] == token@[start + 23]);
        }
        if seps_ok && full_form_hex_ok(token, start) {
            proof {
                assert(is_full_uuid_form(t));
            }
            let mut out = String::new();
            push_lower_range(&mut out, token, start, 36);
            proof {
                assert(out@ =~= lower_hex(t));
            }
            Ok(out)
        } else {
            proof {
                assert(!is_full_uuid_form(t));
            }
            Err(Error::InvalidUuid(token.to_owned()))
        }
    } else {
        Err(Error::InvalidUuid(token.to_owned()))
    }
}

/// The canonical form of a token where it has one, the token itself
/// otherwise.
pub fn canonicalize_uuid(token: &str) -> (r: String)
    ensures
        r@ == canon_uuid(token@),
{
    match normalize_uuid(token) {
        Ok(c) => c,
        Err(_) => token.to_owned(),
    }
}

/// `lower_hex_char` is idempotent.
proof fn lemma_lower_fixed(c: char)
    ensures
        lower_hex_char(lower_hex_char(c)) == lower_hex_char(c),
{
}

/// Lowering keeps a hex digit a hex digit, and never yields `x`.
proof fn lemma_lower_hex_stays_hex(c: char)
    requires
        is_hex_digit(c),
    ensures
        is_hex_digit(lower_hex_char(c)),
        lower_hex_char(c) != 'x',
{
}

/// The base-UUID tail holds hex digits everywhere but its own four
/// hyphen positions.
proof fn lemma_base_suffix_shape()
    ensures
        base_uuid_suffix().len() == 28,
        base_uuid_suffix()[0] == '-',
        base_uuid_suffix()[5] == '-',
        base_uuid_suffix()[10] == '-',
        base_uuid_suffix()[15] == '-',
        forall|i: int|
            0 <= i < 28 && !(i == 0 || i == 5 || i == 10 || i == 15) ==> is_hex_digit(
                #[trigger] base_uuid_suffix()[i],
            ),
        forall|i: int|
            0 <= i < 28 ==> lower_hex_char(#[trigger] base_uuid_suffix()[i])
                == base_uuid_suffix()[i],
{
}

/// Where each position of a hyphenated layout comes from.
proof fn lemma_hyphenate_shape(d: Seq<char>)
    requires
        d.len() == 32,
    ensures
        hyphenate_uuid_digits(d).len() == 36,
        hyphenate_uuid_digits(d)[8] == '-',
        hyphenate_uuid_digits(d)[13] == '-',
        hyphenate_uuid_digits(d)[18] == '-',
        hyphenate_uuid_digits(d)[23] == '-',
        forall|i: int|
            0 <= i < 36 && !is_uuid_sep_index(i) ==> #[trigger] hyphenate_uuid_digits(d)[i]
                == d[digit_index(i)],
{
    let y = hyphenate_uuid_digits(d);
    assert forall|i: int| 0 <= i < 36 && !is_uuid_sep_index(i) implies #[trigger] y[i]
        == d[digit_index(i)] by {
        if i < 8 {
            assert(y[i] == d.subrange(0, 8)[i]);
        } else if i < 13 {
            assert(y[i] == d.subrange(8, 12)[i - 9]);
        } else if i < 18 {
            assert(y[i] == d.subrange(12, 16)[i - 14]);
        } else if i < 23 {
            assert(y[i] == d.subrange(16, 20)[i - 19]);
        } else {
            assert(y[i] == d.subrange(20, 32)[i - 24]);
        }
    }
}

/// A hyphenated full form is already trimmed and unprefixed, so it
/// normalizes to its lowered self.
proof fn lemma_full_form_normalizes_to_lower(y: Seq<char>)
    requires
        is_full_uuid_form(y),
    ensures
        normalize_uuid_spec(y) == Some(lower_hex(y)),
{
    assert forall|i: int| 0 <= i < y.len() implies !is_token_space(#[trigger] y[i]) by {
        if is_uuid_sep_index(i) {
            assert(y[i] == '-');
        } else {
            assert(is_hex_digit(y[i]));
        }
    }
    lemma_trim_fixed(y);
    assert(is_hex_digit(y[1]));
    assert(y[1] != 'x');
    assert(strip_hex_prefix(trim_spaces(y)) == y);
}

/// A canonical form normalizes to itself: whatever shape the token
/// had, running the normalizer on its output changes nothing.
pub proof fn lemma_normalize_uuid_idempotent(s: Seq<char>)
    requires
        normalize_uuid_spec(s) is Some,
    ensures
        is_canonical_uuid(canon_uuid(s)),
        normalize_uuid_spec(canon_uuid(s)) == normalize_uuid_spec(s),
{
    lemma_base_suffix_shape();
    let t = strip_hex_prefix(trim_spaces(s));
    let y = canon_uuid(s);
    if t.len() == 4 && all_hex(t) {
        assert(y =~= seq!['0', '0', '0', '0'] + lower_hex(t) + base_uuid_suffix());
        assert(y.len() == 36);
        assert forall|i: int| 0 <= i < 36 && !is_uuid_sep_index(i) implies is_hex_digit(
            #[trigger] y[i],
        ) by {
            if i < 4 {
                assert(y[i] == '0');
            } else if i < 8 {
                assert(y[i] == lower_hex(t)[i - 4]);
                lemma_lower_hex_stays_hex(t[i - 4]);
            } else {
                assert(y[i] == base_uuid_suffix()[i - 8]);
            }
        }
        assert(y[8] == base_uuid_suffix()[0]);
        assert(y[13] == base_uuid_suffix()[5]);
        assert(y[18] == base_uuid_suffix()[10]);
        assert(y[23] == base_uuid_suffix()[15]);
        assert(is_full_uuid_form(y));
        assert forall|i: int| 0 <= i < 36 implies lower_hex_char(#[trigger] y[i]) == y[i] by {
            if i < 4 {
                assert(y[i] == '0');
            } else if i < 8 {
                assert(y[i] == lower_hex(t)[i - 4]);
                lemma_lower_fixed(t[i - 4]);
            } else {
                assert(y[i] == base_uuid_suffix()[i - 8]);
            }
        }
        assert(lower_hex(y) =~= y);
        lemma_full_form_normalizes_to_lower(y);
    } else if t.len() == 8 && all_hex(t) {
        assert(y =~= lower_hex(t) + base_uuid_suffix());
        assert(y.len() == 36);
        assert forall|i: int| 0 <= i < 36 && !is_uuid_sep_index(i) implies is_hex_digit(
            #[trigger] y[i],
        ) by {
            if i < 8 {
                assert(y[i] == lower_hex(t)[i]);
                lemma_lower_hex_stays_hex(t[i]);
            } else {
                assert(y[i] == base_uuid_suffix()[i - 8]);
            }
        }
        assert(y[8] == base_uuid_suffix()[0]);
        assert(y[13] == base_uuid_suffix()[5]);
        assert(y[18] == base_uuid_suffix()[10]);
        assert(y[23] == base_uuid_suffix()[15]);
        assert(is_full_uuid_form(y));
        assert forall|i: int| 0 <= i < 36 implies lower_hex_char(#[trigger] y[i]) == y[i] by {
            if i < 8 {
                assert(y[i] == lower_hex(t)[i]);
                lemma_lower_fixed(t[i]);
            } else {
                assert(y[i] == base_uuid_suffix()[i - 8]);
            }
        }
        assert(lower_hex(y) =~= y);
        lemma_full_form_normalizes_to_lower(y);
    } else if t.len() == 32 && all_hex(t) {
        let d = lower_hex(t);
        assert(y == hyphenate_uuid_digits(d));
        lemma_hyphenate_shape(d);
        assert forall|i: int| 0 <= i < 36 && !is_uuid_sep_index(i) implies is_hex_digit(
            #[trigger] y[i],
        ) by {
            assert(y[i] == d[digit_index(i)]);
            assert(d[digit_index(i)] == lower_hex_char(t[digit_index(i)]));
            lemma_lower_hex_stays_hex(t[digit_index(i)]);
        }
        assert(is_full_uuid_form(y));
        assert forall|i: int| 0 <= i < 36 implies lower_hex_char(#[trigger] y[i]) == y[i] by {
            if is_uuid_sep_index(i) {
                assert(y[i] == '-');
            } else {
                assert(y[i] == lower_hex_char(t[digit_index(i)]));
                lemma_lower_fixed(t[digit_index(i)]);
            }
        }
        assert(lower_hex(y) =~= y);
        lemma_full_form_normalizes_to_lower(y);
    } else {
        assert(is_full_uuid_form(t));
        assert(y == lower_hex(t));
        assert(y.len() == 36);
        assert(y[8] == lower_hex_char(t[8]) && t[8] == '-');
        assert(y[13] == lower_hex_char(t[13]) && t[13] == '-');
        assert(y[18] == lower_hex_char(t[18]) && t[18] == '-');
        assert(y[23] == lower_hex_char(t[23]) && t[23] == '-');
        assert forall|i: int| 0 <= i < 36 && !is_uuid_sep_index(i) implies is_hex_digit(
            #[trigger] y[i],
        ) by {
            assert(y[i] == lower_hex_char(t[i]));
            lemma_lower_hex_stays_hex(t[i]);
        }
        assert(is_full_uuid_form(y));
        assert forall|i: int| 0 <= i < 36 implies lower_hex_char(#[trigger] y[i]) == y[i] by {
            assert(y[i] == lower_hex_char(t[i]));
            lemma_lower_fixed(t[i]);
        }
        assert(lower_hex(y) =~= y);
        lemma_full_form_normalizes_to_lower(y);
    }
}

/// Canonicalization is idempotent, valid token or not.
pub proof fn lemma_canon_uuid_idempotent(s: Seq<char>)
    ensures
        canon_uuid(canon_uuid(s)) == canon_uuid(s),
{
    if normalize_uuid_spec(s) is Some {
        lemma_normalize_uuid_idempotent(s);
    }
}

} // verus!
