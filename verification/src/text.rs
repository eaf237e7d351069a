//! Text primitives: characters of a string, whitespace, trimming, the order
//! of lines, and decimal numerals.
//!
//! A text is modelled as the sequence of its characters, `Seq<char>`, which is
//! the view of `str` and `String`.

use vstd::prelude::*;
use vstd::std_specs::iter::IteratorSpec;
use vstd::string::*;

verus! {

/// Appends `c` to `s`.
///
/// Not proved: this is `String::push` of the standard library, of which the
/// contract says what its documentation says, that the character is added at
/// the end and the characters before it stay as they were.
#[verifier::external_body]
pub(crate) fn push_char(s: &mut String, c: char)
    ensures
        final(s)@ == old(s)@.push(c),
{
    s.push(c);
}

/// The characters of `s`, in order.
pub fn to_chars(s: &str) -> (chars: Vec<char>)
    ensures
        chars@ == s@,
{
    let mut chars: Vec<char> = Vec::new();
    for c in it: s.chars()
        invariant
            chars@ == it.seq().take(it.index()),
    {
        chars.push(c);
    }
    chars
}

/// The text made of the characters `chars[from..to]`.
pub fn text_of(chars: &Vec<char>, from: usize, to: usize) -> (s: String)
    requires
        from <= to <= chars.len(),
    ensures
        s@ == chars@.subrange(from as int, to as int),
{
    let mut s = String::new();
    let mut i: usize = from;
    while i < to
        invariant
            from <= i <= to <= chars.len(),
            s@ == chars@.subrange(from as int, i as int),
        decreases to - i,
    {
        push_char(&mut s, chars[i]);
        i += 1;
    }
    s
}

/// Whether `c` has the Unicode property White_Space.
pub open spec fn whitespace(c: char) -> bool {
    let n = c as u32;
    ||| 0x09 <= n <= 0x0D
    ||| n == 0x20
    ||| n == 0x85
    ||| n == 0xA0
    ||| n == 0x1680
    ||| 0x2000 <= n <= 0x200A
    ||| n == 0x2028
    ||| n == 0x2029
    ||| n == 0x202F
    ||| n == 0x205F
    ||| n == 0x3000
}

/// Tells whether `c` is a whitespace character.
pub fn is_whitespace(c: char) -> (r: bool)
    ensures
        r == whitespace(c),
{
    let n: u32 = c as u32;
    (0x09 <= n && n <= 0x0D) || n == 0x20 || n == 0x85 || n == 0xA0 || n == 0x1680 || (0x2000 <= n
        && n <= 0x200A) || n == 0x2028 || n == 0x2029 || n == 0x202F || n == 0x205F || n == 0x3000
}

/// `s` without its leading whitespace.
pub open spec fn trimmed_start(s: Seq<char>) -> Seq<char>
    decreases s.len(),
{
    if s.len() > 0 && whitespace(s.first()) {
        trimmed_start(s.drop_first())
    } else {
        s
    }
}

/// `s` without its trailing whitespace.
pub open spec fn trimmed_end(s: Seq<char>) -> Seq<char>
    decreases s.len(),
{
    if s.len() > 0 && whitespace(s.last()) {
        trimmed_end(s.drop_last())
    } else {
        s
    }
}

/// `s` without the whitespace that surrounds it.
pub open spec fn trimmed(s: Seq<char>) -> Seq<char> {
    trimmed_end(trimmed_start(s))
}

/// A text is tight if it neither begins nor ends with whitespace.
pub open spec fn tight(s: Seq<char>) -> bool {
    s.len() > 0 ==> !whitespace(s.first()) && !whitespace(s.last())
}

/// What is left of `s` without its leading whitespace is the end of `s`, and
/// does not begin with whitespace.
pub proof fn lemma_trimmed_start(s: Seq<char>)
    ensures
        trimmed_start(s).len() <= s.len(),
        trimmed_start(s) == s.subrange(s.len() - trimmed_start(s).len(), s.len() as int),
        trimmed_start(s).len() > 0 ==> !whitespace(trimmed_start(s).first()),
        forall|i: int| 0 <= i < s.len() - trimmed_start(s).len() ==> whitespace(#[trigger] s[i]),
    decreases s.len(),
{
    if s.len() > 0 && whitespace(s.first()) {
        let rest = s.drop_first();
        lemma_trimmed_start(rest);
        let kept = trimmed_start(rest);
        assert(kept =~= s.subrange(s.len() - kept.len(), s.len() as int));
        assert forall|i: int| 0 <= i < s.len() - kept.len() implies whitespace(#[trigger] s[i]) by {
            if i > 0 {
                assert(s[i] == rest[i - 1]);
            }
        }
    } else {
        assert(s =~= s.subrange(0, s.len() as int));
    }
}

/// What is left of `s` without its trailing whitespace is the beginning of
/// `s`, and does not end with whitespace.
pub proof fn lemma_trimmed_end(s: Seq<char>)
    ensures
        trimmed_end(s).len() <= s.len(),
        trimmed_end(s) == s.subrange(0, trimmed_end(s).len() as int),
        trimmed_end(s).len() > 0 ==> !whitespace(trimmed_end(s).last()),
        forall|i: int| trimmed_end(s).len() <= i < s.len() ==> whitespace(#[trigger] s[i]),
    decreases s.len(),
{
    if s.len() > 0 && whitespace(s.last()) {
        let rest = s.drop_last();
        lemma_trimmed_end(rest);
        let kept = trimmed_end(rest);
        assert(kept =~= s.subrange(0, kept.len() as int));
        assert forall|i: int| kept.len() <= i < s.len() implies whitespace(#[trigger] s[i]) by {
            if i < s.len() - 1 {
                assert(s[i] == rest[i]);
            }
        }
    } else {
        assert(s =~= s.subrange(0, s.len() as int));
    }
}

/// Trimming leaves a tight text: one that neither begins nor ends with
/// whitespace.
pub proof fn lemma_trimmed_is_tight(s: Seq<char>)
    ensures
        tight(trimmed(s)),
{
    let t = trimmed_start(s);
    lemma_trimmed_start(s);
    lemma_trimmed_end(t);
    let r = trimmed_end(t);
    if r.len() > 0 {
        assert(r.first() == t.first());
    }
}

/// Trimming changes nothing in a tight text.
pub proof fn lemma_trimmed_of_tight(s: Seq<char>)
    requires
        tight(s),
    ensures
        trimmed(s) == s,
{
}

/// Trimming twice is trimming once.
pub proof fn lemma_trimmed_idempotent(s: Seq<char>)
    ensures
        trimmed(trimmed(s)) == trimmed(s),
{
    lemma_trimmed_is_tight(s);
    lemma_trimmed_of_tight(trimmed(s));
}

/// Removes the whitespace at both ends of `s`.
pub fn trim(s: &str) -> (r: String)
    ensures
        r@ == trimmed(s@),
{
    let chars = to_chars(s);
    let mut start: usize = 0;
    assert(chars@.subrange(0, chars.len() as int) =~= chars@);
    while start < chars.len() && is_whitespace(chars[start])
        invariant
            start <= chars.len(),
            trimmed_start(chars@) == trimmed_start(
                chars@.subrange(start as int, chars.len() as int),
            ),
        decreases chars.len() - start,
    {
        proof {
            let rest = chars@.subrange(start as int, chars.len() as int);
            assert(rest.drop_first() =~= chars@.subrange(start + 1, chars.len() as int));
        }
        start += 1;
    }
    let mut end: usize = chars.len();
    while end > start && is_whitespace(chars[end - 1])
        invariant
            start <= end <= chars.len(),
            trimmed_end(chars@.subrange(start as int, chars.len() as int)) == trimmed_end(
                chars@.subrange(start as int, end as int),
            ),
        decreases end - start,
    {
        proof {
            let rest = chars@.subrange(start as int, end as int);
            assert(rest.drop_last() =~= chars@.subrange(start as int, end - 1));
        }
        end -= 1;
    }
    text_of(&chars, start, end)
}

/// The strict lexicographic order of texts by the code points of their
/// characters: `a` comes before `b`.
pub open spec fn precedes(a: Seq<char>, b: Seq<char>) -> bool
    decreases a.len(),
{
    if b.len() == 0 {
        false
    } else if a.len() == 0 {
        true
    } else if a.first() != b.first() {
        (a.first() as u32) < (b.first() as u32)
    } else {
        precedes(a.drop_first(), b.drop_first())
    }
}

/// Tells whether `a` comes before `b` in the order of lines.
pub fn text_lt(a: &str, b: &str) -> (r: bool)
    ensures
        r == precedes(a@, b@),
{
    broadcast use group_string_axioms;

    let mut x = a.chars();
    let mut y = b.chars();
    loop
        invariant
            precedes(a@, b@) == precedes(x.remaining(), y.remaining()),
            x.obeys_prophetic_iter_laws(),
            y.obeys_prophetic_iter_laws(),
            x.decrease() is Some,
        decreases x.decrease()->0,
    {
        let p = x.next();
        let q = y.next();
        match (p, q) {
            (_, None) => {
                return false;
            },
            (None, Some(_)) => {
                return true;
            },
            (Some(c), Some(d)) => {
                if c != d {
                    return (c as u32) < (d as u32);
                }
            },
        }
    }
}

/// No text comes before itself.
pub proof fn lemma_precedes_irreflexive(a: Seq<char>)
    ensures
        !precedes(a, a),
    decreases a.len(),
{
    if a.len() > 0 {
        lemma_precedes_irreflexive(a.drop_first());
    }
}

/// The order of lines is transitive.
pub proof fn lemma_precedes_transitive(a: Seq<char>, b: Seq<char>, c: Seq<char>)
    requires
        precedes(a, b),
        precedes(b, c),
    ensures
        precedes(a, c),
    decreases a.len(),
{
    if a.len() > 0 && a.first() == b.first() && b.first() == c.first() {
        lemma_precedes_transitive(a.drop_first(), b.drop_first(), c.drop_first());
    }
}

/// Of two different texts one comes before the other.
pub proof fn lemma_precedes_total(a: Seq<char>, b: Seq<char>)
    ensures
        precedes(a, b) || precedes(b, a) || a == b,
    decreases a.len(),
{
    if a.len() > 0 && b.len() > 0 && a.first() == b.first() {
        lemma_precedes_total(a.drop_first(), b.drop_first());
        if a.drop_first() == b.drop_first() {
            assert(a =~= seq![a.first()] + a.drop_first());
            assert(b =~= seq![b.first()] + b.drop_first());
        }
    } else if a.len() == 0 && b.len() == 0 {
        assert(a =~= b);
    } else if a.len() > 0 && b.len() > 0 {
        vstd::utf8::char_u32_cast(a.first(), a.first() as u32);
        vstd::utf8::char_u32_cast(b.first(), b.first() as u32);
    }
}

/// The decimal digit that stands for `d`, for `d` from 0 to 9.
pub open spec fn digit(d: int) -> char {
    if d == 0 {
        '0'
    } else if d == 1 {
        '1'
    } else if d == 2 {
        '2'
    } else if d == 3 {
        '3'
    } else if d == 4 {
        '4'
    } else if d == 5 {
        '5'
    } else if d == 6 {
        '6'
    } else if d == 7 {
        '7'
    } else if d == 8 {
        '8'
    } else {
        '9'
    }
}

/// The decimal numeral of a natural number, without leading zeros.
pub open spec fn digits(n: nat) -> Seq<char>
    decreases n,
{
    if n < 10 {
        seq![digit(n as int)]
    } else {
        digits(n / 10).push(digit((n % 10) as int))
    }
}

/// The decimal numeral of an integer, with a minus sign if it is negative.
pub open spec fn decimal(n: int) -> Seq<char> {
    if n < 0 {
        seq!['-'] + digits((-n) as nat)
    } else {
        digits(n as nat)
    }
}

fn digit_char(d: u64) -> (c: char)
    requires
        d < 10,
    ensures
        c == digit(d as int),
{
    if d == 0 {
        '0'
    } else if d == 1 {
        '1'
    } else if d == 2 {
        '2'
    } else if d == 3 {
        '3'
    } else if d == 4 {
        '4'
    } else if d == 5 {
        '5'
    } else if d == 6 {
        '6'
    } else if d == 7 {
        '7'
    } else if d == 8 {
        '8'
    } else {
        '9'
    }
}

/// Writes `n` as a decimal numeral.
pub fn decimal_text(n: i64) -> (s: String)
    ensures
        s@ == decimal(n as int),
{
    let magnitude: u64 = if n < 0 {
        (-(n + 1)) as u64 + 1
    } else {
        n as u64
    };
    // The digits from the last to the first.
    let mut low_first: Vec<char> = Vec::new();
    let mut rest: u64 = magnitude;
    while rest >= 10
        invariant
            digits(magnitude as nat) == digits(rest as nat) + low_first@.reverse(),
        decreases rest,
    {
        let ghost before = low_first@;
        let d = digit_char(rest % 10);
        low_first.push(d);
        rest = rest / 10;
        assert(before.push(d).reverse() =~= seq![d] + before.reverse());
    }
    let ghost before = low_first@;
    let d = digit_char(rest);
    low_first.push(d);
    assert(before.push(d).reverse() =~= seq![d] + before.reverse());
    assert(digits(magnitude as nat) == low_first@.reverse());

    let mut s = String::new();
    if n < 0 {
        push_char(&mut s, '-');
    }
    let ghost sign = s@;
    let mut i: usize = low_first.len();
    while i > 0
        invariant
            i <= low_first.len(),
            s@ == sign + low_first@.reverse().take(low_first.len() - i),
        decreases i,
    {
        i -= 1;
        push_char(&mut s, low_first[i]);
    }
    s
}

} // verus!
