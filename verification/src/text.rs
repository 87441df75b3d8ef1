//! Decimal text for log IDs and query values, and the lexicographic order
//! used to rank observed player names.

use vstd::prelude::*;

verus! {

/// The decimal digit character for a value between 0 and 9.
pub open spec fn digit_char(d: int) -> char {
    if d == 0 {
        '0'
    } else if d == 1 {
        '1'
    } else if d == 2 {
        '2'
    } else if d == 3 {
        '3'
    } else if d == 4 {
        '4'
    } else if d == 5 {
        '5'
    } else if d == 6 {
        '6'
    } else if d == 7 {
        '7'
    } else if d == 8 {
        '8'
    } else {
        '9'
    }
}

/// The canonical decimal rendering of a natural number: no sign, and no
/// leading zeros except for the single digit of zero itself.
pub open spec fn dec_str(n: nat) -> Seq<char>
    decreases n,
{
    if n < 10 {
        seq![digit_char(n as int)]
    } else {
        dec_str(n / 10).push(digit_char((n % 10) as int))
    }
}

/// Relies on String::push: appends exactly the given character.
#[verifier::external_body]
pub(crate) fn push_char(s: &mut String, c: char)
    ensures
        final(s)@ == old(s)@.push(c),
{
    s.push(c)
}

fn digit_to_char(d: u64) -> (c: char)
    requires
        d < 10,
    ensures
        c == digit_char(d as int),
{
    if d == 0 {
        '0'
    } else if d == 1 {
        '1'
    } else if d == 2 {
        '2'
    } else if d == 3 {
        '3'
    } else if d == 4 {
        '4'
    } else if d == 5 {
        '5'
    } else if d == 6 {
        '6'
    } else if d == 7 {
        '7'
    } else if d == 8 {
        '8'
    } else {
        '9'
    }
}

/// Renders a number in decimal, matching `dec_str`.
pub fn u64_to_string(n: u64) -> (r: String)
    ensures
        r@ == dec_str(n as nat),
{
    let mut digits: Vec<char> = Vec::new();
    let mut rest: u64 = n;
    loop
        invariant_except_break
            dec_str(n as nat) == dec_str(rest as nat) + digits@.reverse(),
        ensures
            dec_str(n as nat) == digits@.reverse(),
        decreases rest,
    {
        let d = digit_to_char(rest % 10);
        let next = rest / 10;
        digits.push(d);
        proof {
            assert(digits@.reverse() =~= seq![d] + digits@.drop_last().reverse());
        }
        if next == 0 {
            proof {
                assert(dec_str(rest as nat) =~= seq![d]);
                assert(dec_str(n as nat) =~= digits@.reverse());
            }
            break;
        }
        proof {
            assert(dec_str(rest as nat) =~= dec_str(next as nat).push(d));
            assert(dec_str(n as nat) =~= dec_str(next as nat) + digits@.reverse());
        }
        rest = next;
    }
    let mut r = String::new();
    let count = digits.len();
    let mut i: usize = 0;
    while i < count
        invariant
            count == digits@.len(),
            i <= count,
            dec_str(n as nat) == digits@.reverse(),
            r@ == digits@.reverse().take(i as int),
        decreases count - i,
    {
        let c = digits[count - 1 - i];
        proof {
            assert(digits@.reverse()[i as int] == digits@[count - 1 - i]);
        }
        push_char(&mut r, c);
        proof {
            assert(r@ =~= digits@.reverse().take(i + 1));
        }
        i = i + 1;
    }
    proof {
        assert(digits@.reverse().take(count as int) =~= digits@.reverse());
    }
    r
}

/// Renders a 32-bit number in decimal, matching `dec_str`.
pub fn u32_to_string(n: u32) -> (r: String)
    ensures
        r@ == dec_str(n as nat),
{
    u64_to_string(n as u64)
}

/// Whether a character is a decimal digit.
pub open spec fn is_digit(c: char) -> bool {
    ('0' as u32) <= (c as u32) && (c as u32) <= ('9' as u32)
}

/// The numeric value of a decimal digit character.
pub open spec fn digit_val(c: char) -> int {
    (c as u32) - ('0' as u32)
}

/// Whether every character of a string is a decimal digit.
pub open spec fn all_digits(s: Seq<char>) -> bool {
    forall|i: int| 0 <= i < s.len() ==> is_digit(s[i])
}

/// The numeric value of a string of decimal digits.
pub open spec fn dec_val(s: Seq<char>) -> int
    decreases s.len(),
{
    if s.len() == 0 {
        0
    } else {
        dec_val(s.drop_last()) * 10 + digit_val(s.last())
    }
}

proof fn lemma_dec_val_nonneg(s: Seq<char>)
    requires
        all_digits(s),
    ensures
        dec_val(s) >= 0,
    decreases s.len(),
{
    if s.len() > 0 {
        assert(all_digits(s.drop_last()));
        lemma_dec_val_nonneg(s.drop_last());
    }
}

/// Extending a digit string never shrinks its value.
proof fn lemma_dec_val_prefix_le(s: Seq<char>, k: int)
    requires
        all_digits(s),
        0 <= k <= s.len(),
    ensures
        dec_val(s.take(k)) <= dec_val(s),
    decreases s.len() - k,
{
    if k < s.len() {
        lemma_dec_val_prefix_le(s, k + 1);
        assert(s.take(k + 1).drop_last() =~= s.take(k));
        assert(s.take(k + 1).last() == s[k]);
        assert(all_digits(s.take(k)));
        lemma_dec_val_nonneg(s.take(k));
        assert(dec_val(s.take(k + 1)) == dec_val(s.take(k)) * 10 + digit_val(s[k]));
    } else {
        assert(s.take(k) =~= s);
    }
}

/// Parses a string of decimal digits as a 32-bit number; exactly the
/// non-empty all-digit strings whose value fits yield a number.
pub fn parse_u32(s: &str) -> (r: Option<u32>)
    ensures
        r is Some <==> (s@.len() > 0 && all_digits(s@) && dec_val(s@) <= u32::MAX),
        r matches Some(v) ==> v as int == dec_val(s@),
{
    let len = s.unicode_len();
    if len == 0 {
        return None;
    }
    let mut acc: u32 = 0;
    let mut i: usize = 0;
    while i < len
        invariant
            len == s@.len(),
            0 <= i <= len,
            forall|j: int| 0 <= j < i ==> is_digit(s@[j]),
            acc as int == dec_val(s@.take(i as int)),
        decreases len - i,
    {
        let c = s.get_char(i);
        let cv = c as u32;
        if cv < 48 || cv > 57 {
            assert(!is_digit(s@[i as int]));
            return None;
        }
        let d = cv - 48;
        proof {
            assert(s@.take(i + 1).drop_last() =~= s@.take(i as int));
            assert(s@.take(i + 1).last() == s@[i as int]);
        }
        if acc > (u32::MAX - d) / 10 {
            proof {
                assert(dec_val(s@.take(i + 1)) > u32::MAX);
                if all_digits(s@) && dec_val(s@) <= u32::MAX {
                    lemma_dec_val_prefix_le(s@, i + 1);
                }
            }
            return None;
        }
        acc = acc * 10 + d;
        i = i + 1;
    }
    proof {
        assert(s@.take(len as int) =~= s@);
    }
    Some(acc)
}

/// Whether a character counts as trimmable whitespace around an ID.
pub open spec fn is_space(c: char) -> bool {
    c == ' ' || c == '\t' || c == '\r' || c == '\n'
}

/// A string with leading whitespace removed.
pub open spec fn trim_front(s: Seq<char>) -> Seq<char>
    decreases s.len(),
{
    if s.len() > 0 && is_space(s.first()) {
        trim_front(s.drop_first())
    } else {
        s
    }
}

/// A string with trailing whitespace removed.
pub open spec fn trim_back(s: Seq<char>) -> Seq<char>
    decreases s.len(),
{
    if s.len() > 0 && is_space(s.last()) {
        trim_back(s.drop_last())
    } else {
        s
    }
}

/// A string with surrounding whitespace removed.
pub open spec fn trimmed(s: Seq<char>) -> Seq<char> {
    trim_back(trim_front(s))
}

fn space_char(c: char) -> (r: bool)
    ensures
        r == is_space(c),
{
    c == ' ' || c == '\t' || c == '\r' || c == '\n'
}

proof fn lemma_trim_front_skip(s: Seq<char>, k: int)
    requires
        0 <= k <= s.len(),
        forall|j: int| 0 <= j < k ==> is_space(s[j]),
        k == s.len() || !is_space(s[k]),
    ensures
        trim_front(s) == s.skip(k),
    decreases k,
{
    if k == 0 {
        assert(s.skip(0) =~= s);
    } else {
        assert(is_space(s.first()));
        lemma_trim_front_skip(s.drop_first(), k - 1);
        assert(s.drop_first().skip(k - 1) =~= s.skip(k));
    }
}

proof fn lemma_trim_back_take(s: Seq<char>, k: int)
    requires
        0 <= k <= s.len(),
        forall|j: int| k <= j < s.len() ==> is_space(s[j]),
        k == 0 || !is_space(s[k - 1]),
    ensures
        trim_back(s) == s.take(k),
    decreases s.len() - k,
{
    if k == s.len() {
        assert(s.take(k) =~= s);
    } else {
        assert(is_space(s.last()));
        assert(s.drop_last() =~= s.take(s.len() - 1));
        lemma_trim_back_take(s.take(s.len() - 1), k);
        assert(s.take(s.len() - 1).take(k) =~= s.take(k));
    }
}

/// Removes surrounding whitespace, matching `trimmed`.
pub fn trim_spaces(s: &str) -> (r: &str)
    ensures
        r@ == trimmed(s@),
{
    let len = s.unicode_len();
    let mut start: usize = 0;
    while start < len && space_char(s.get_char(start))
        invariant
            len == s@.len(),
            0 <= start <= len,
            forall|j: int| 0 <= j < start ==> is_space(s@[j]),
        decreases len - start,
    {
        start = start + 1;
    }
    proof {
        lemma_trim_front_skip(s@, start as int);
    }
    let mut end: usize = len;
    while end > start && space_char(s.get_char(end - 1))
        invariant
            len == s@.len(),
            start <= end <= len,
            forall|j: int| end <= j < len ==> is_space(s@[j]),
        decreases end,
    {
        end = end - 1;
    }
    proof {
        let f = s@.skip(start as int);
        lemma_trim_back_take(f, end - start);
        assert(f.take(end - start) =~= s@.subrange(start as int, end as int));
    }
    s.substring_char(start, end)
}

/// Lexicographic order on strings by Unicode scalar value: the order in
/// which observed player names are ranked.
pub open spec fn lex_le(a: Seq<char>, b: Seq<char>) -> bool
    decreases a.len(),
{
    if a.len() == 0 {
        true
    } else if b.len() == 0 {
        false
    } else if a.first() == b.first() {
        lex_le(a.drop_first(), b.drop_first())
    } else {
        (a.first() as u32) < (b.first() as u32)
    }
}

/// Strict lexicographic order.
pub open spec fn lex_lt(a: Seq<char>, b: Seq<char>) -> bool {
    lex_le(a, b) && a != b
}

/// Distinct characters have distinct Unicode scalar values.
proof fn lemma_char_cast_distinct(c: char, d: char)
    requires
        c != d,
    ensures
        c as u32 != d as u32,
{
}

/// Every string is ordered below itself.
pub proof fn lemma_lex_le_refl(a: Seq<char>)
    ensures
        lex_le(a, a),
    decreases a.len(),
{
    if a.len() > 0 {
        lemma_lex_le_refl(a.drop_first());
    }
}

/// Any two strings are ordered one way or the other.
pub proof fn lemma_lex_le_total(a: Seq<char>, b: Seq<char>)
    ensures
        lex_le(a, b) || lex_le(b, a),
    decreases a.len(),
{
    if a.len() == 0 {
        assert(lex_le(a, b));
    } else if b.len() == 0 {
        assert(lex_le(b, a));
    } else if a.first() == b.first() {
        lemma_lex_le_total(a.drop_first(), b.drop_first());
    } else {
        lemma_char_cast_distinct(a.first(), b.first());
        assert(lex_le(a, b) == ((a.first() as u32) < (b.first() as u32)));
        assert(lex_le(b, a) == ((b.first() as u32) < (a.first() as u32)));
    }
}

/// Strings ordered both ways are equal.
pub proof fn lemma_lex_le_antisym(a: Seq<char>, b: Seq<char>)
    requires
        lex_le(a, b),
        lex_le(b, a),
    ensures
        a == b,
    decreases a.len(),
{
    if a.len() > 0 && b.len() > 0 && a.first() == b.first() {
        lemma_lex_le_antisym(a.drop_first(), b.drop_first());
        assert(a =~= seq![a.first()] + a.drop_first());
        assert(b =~= seq![b.first()] + b.drop_first());
    } else {
        assert(a.len() == 0 && b.len() == 0);
        assert(a =~= b);
    }
}

/// The lexicographic order is transitive.
pub proof fn lemma_lex_le_trans(a: Seq<char>, b: Seq<char>, c: Seq<char>)
    requires
        lex_le(a, b),
        lex_le(b, c),
    ensures
        lex_le(a, c),
    decreases a.len(),
{
    if a.len() > 0 && b.len() > 0 && c.len() > 0 && a.first() == b.first() && b.first()
        == c.first() {
        lemma_lex_le_trans(a.drop_first(), b.drop_first(), c.drop_first());
    }
}

/// Compares two strings in the lexicographic order.
pub fn str_le(a: &str, b: &str) -> (r: bool)
    ensures
        r == lex_le(a@, b@),
{
    let alen = a.unicode_len();
    let blen = b.unicode_len();
    let mut i: usize = 0;
    proof {
        assert(a@.skip(0) =~= a@);
        assert(b@.skip(0) =~= b@);
    }
    while i < alen && i < blen
        invariant
            alen == a@.len(),
            blen == b@.len(),
            0 <= i <= alen,
            0 <= i <= blen,
            lex_le(a@, b@) == lex_le(a@.skip(i as int), b@.skip(i as int)),
        decreases alen - i,
    {
        let ca = a.get_char(i);
        let cb = b.get_char(i);
        proof {
            assert(a@.skip(i as int).first() == a@[i as int]);
            assert(b@.skip(i as int).first() == b@[i as int]);
            assert(a@.skip(i as int).drop_first() =~= a@.skip(i + 1));
            assert(b@.skip(i as int).drop_first() =~= b@.skip(i + 1));
        }
        if ca != cb {
            return (ca as u32) < (cb as u32);
        }
        i = i + 1;
    }
    proof {
        if i >= alen {
            assert(a@.skip(i as int).len() == 0);
        } else {
            assert(b@.skip(i as int).len() == 0);
            assert(a@.skip(i as int).len() > 0);
        }
    }
    alen <= blen
}

} // verus!

