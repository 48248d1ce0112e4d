//! Small verified helpers for working with text: character access,
//! comparison, and building strings a character at a time.
use vstd::prelude::*;

verus! {

broadcast use vstd::string::group_string_axioms;

/// Code-point lexicographic order, the order `String` keys sort in.
pub open spec fn text_lt(a: Seq<char>, b: Seq<char>) -> bool
    decreases a.len(),
{
    if a.len() == 0 {
        b.len() > 0
    } else if b.len() == 0 {
        false
    } else if a[0] != b[0] {
        (a[0] as int) < (b[0] as int)
    } else {
        text_lt(a.drop_first(), b.drop_first())
    }
}

/// Two different texts are always ordered one way or the other.
pub proof fn lemma_text_lt_total(a: Seq<char>, b: Seq<char>)
    requires
        a != b,
    ensures
        text_lt(a, b) || text_lt(b, a),
    decreases a.len(),
{
    if a.len() == 0 {
        if b.len() == 0 {
            assert(a =~= b);
        }
    } else if b.len() == 0 {
    } else if a[0] != b[0] {
        assert((a[0] as int) != (b[0] as int));
    } else {
        if a.drop_first() == b.drop_first() {
            assert(a =~= seq![a[0]] + a.drop_first());
            assert(b =~= seq![b[0]] + b.drop_first());
        }
        lemma_text_lt_total(a.drop_first(), b.drop_first());
    }
}

/// Text order is transitive.
pub proof fn lemma_text_lt_trans(a: Seq<char>, b: Seq<char>, c: Seq<char>)
    requires
        text_lt(a, b),
        text_lt(b, c),
    ensures
        text_lt(a, c),
    decreases a.len(),
{
    if a.len() > 0 && b.len() > 0 && c.len() > 0 && a[0] == b[0] && b[0] == c[0] {
        lemma_text_lt_trans(a.drop_first(), b.drop_first(), c.drop_first());
    }
}

/// No text is before itself.
pub proof fn lemma_text_lt_irreflexive(a: Seq<char>)
    ensures
        !text_lt(a, a),
    decreases a.len(),
{
    if a.len() > 0 {
        lemma_text_lt_irreflexive(a.drop_first());
    }
}

/// The characters of `s`, in order.
pub fn chars_of(s: &str) -> (v: Vec<char>)
    ensures
        v@ == s@,
{
    let mut v: Vec<char> = Vec::new();
    for c in it: s.chars()
        invariant
            it.seq() == s@,
            v@ == s@.take(it.index() as int),
    {
        v.push(c);
    }
    proof {
        assert(v@ =~= s@);
    }
    v
}

/// Whether two texts are equal, character for character.
pub fn text_eq(a: &str, b: &str) -> (r: bool)
    ensures
        r == (a@ == b@),
{
    let av = chars_of(a);
    let bv = chars_of(b);
    if av.len() != bv.len() {
        return false;
    }
    let mut k: usize = 0;
    while k < av.len()
        invariant
            av@ == a@,
            bv@ == b@,
            av.len() == bv.len(),
            k <= av.len(),
            forall|m: int| 0 <= m < k ==> av@[m] == bv@[m],
        decreases av.len() - k,
    {
        if av[k] != bv[k] {
            return false;
        }
        k = k + 1;
    }
    proof {
        assert(av@ =~= bv@);
    }
    true
}

/// Whether `a` sorts strictly before `b`.
pub fn text_less(a: &str, b: &str) -> (r: bool)
    ensures
        r == text_lt(a@, b@),
{
    let av = chars_of(a);
    let bv = chars_of(b);
    let mut k: usize = 0;
    proof {
        assert(a@.skip(0) =~= a@);
        assert(b@.skip(0) =~= b@);
    }
    while k < av.len() && k < bv.len() && av[k] == bv[k]
        invariant
            av@ == a@,
            bv@ == b@,
            k <= av.len(),
            k <= bv.len(),
            text_lt(a@, b@) == text_lt(a@.skip(k as int), b@.skip(k as int)),
        decreases av.len() - k,
    {
        proof {
            let sa = a@.skip(k as int);
            let sb = b@.skip(k as int);
            assert(sa.drop_first() =~= a@.skip(k + 1));
            assert(sb.drop_first() =~= b@.skip(k + 1));
        }
        k = k + 1;
    }
    proof {
        let sa = a@.skip(k as int);
        let sb = b@.skip(k as int);
        if k < av.len() && k < bv.len() {
            assert(sa[0] == av@[k as int]);
            assert(sb[0] == bv@[k as int]);
        }
    }
    if k == av.len() {
        k < bv.len()
    } else if k == bv.len() {
        false
    } else {
        av[k] < bv[k]
    }
}

/// An owned copy of `s`.
pub fn text_owned(s: &str) -> (r: String)
    ensures
        r@ == s@,
{
    s.to_owned()
}

/// Appends one character to `s` by `String::push`. Trusted: the contract
/// claims the new text is the old one followed by `c`, as std documents.
#[verifier::external_body]
pub(crate) fn push_char(s: &mut String, c: char)
    ensures
        final(s)@ == old(s)@.push(c),
{
    s.push(c);
}

/// Appends `tail` to `s`.
pub(crate) fn push_text(s: &mut String, tail: &str)
    ensures
        final(s)@ == old(s)@ + tail@,
{
    s.append(tail);
}

/// A string holding exactly the characters of `chars`.
pub fn text_from_chars(chars: &Vec<char>) -> (r: String)
    ensures
        r@ == chars@,
{
    let mut out = String::new();
    let mut k: usize = 0;
    while k < chars.len()
        invariant
            k <= chars.len(),
            out@ == chars@.take(k as int),
        decreases chars.len() - k,
    {
        push_char(&mut out, chars[k]);
        proof {
            assert(chars@.take(k + 1) =~= chars@.take(k as int).push(chars@[k as int]));
        }
        k = k + 1;
    }
    proof {
        assert(chars@.take(k as int) =~= chars@);
    }
    out
}

/// The decimal digits of `n`, most significant first.
pub open spec fn decimal(n: nat) -> Seq<char>
    decreases n,
{
    if n < 10 {
        seq![digit_char(n)]
    } else {
        decimal(n / 10).push(digit_char(n % 10))
    }
}

pub open spec fn digit_char(d: nat) -> char {
    if d == 0 {
        '0'
    } else if d == 1 {
        '1'
    } else if d == 2 {
        '2'
    } else if d == 3 {
        '3'
    } else if d == 4 {
        '4'
    } else if d == 5 {
        '5'
    } else if d == 6 {
        '6'
    } else if d == 7 {
        '7'
    } else if d == 8 {
        '8'
    } else {
        '9'
    }
}

fn digit(d: u128) -> (c: char)
    requires
        d < 10,
    ensures
        c == digit_char(d as nat),
{
    if d == 0 {
        '0'
    } else if d == 1 {
        '1'
    } else if d == 2 {
        '2'
    } else if d == 3 {
        '3'
    } else if d == 4 {
        '4'
    } else if d == 5 {
        '5'
    } else if d == 6 {
        '6'
    } else if d == 7 {
        '7'
    } else if d == 8 {
        '8'
    } else {
        '9'
    }
}

/// Appends the decimal form of `n` to `s`.
pub fn push_number(s: &mut String, n: u128)
    ensures
        final(s)@ == old(s)@ + decimal(n as nat),
    decreases n,
{
    if n >= 10 {
        push_number(s, n / 10);
    }
    push_char(s, digit(n % 10));
    proof {
        if n >= 10 {
            assert(final(s)@ =~= old(s)@ + decimal(n as nat));
        } else {
            assert(final(s)@ =~= old(s)@ + decimal(n as nat));
        }
    }
}

} // verus!

verus! {

/// The texts held by a list of strings.
pub open spec fn texts(v: Seq<String>) -> Seq<Seq<char>> {
    v.map_values(|s: String| s@)
}

/// Whether `list` holds `value`.
pub fn list_contains(list: &Vec<String>, value: &str) -> (r: bool)
    ensures
        r == texts(list@).contains(value@),
{
    let mut k: usize = 0;
    while k < list.len()
        invariant
            k <= list.len(),
            forall|m: int| 0 <= m < k ==> list@[m]@ != value@,
        decreases list.len() - k,
    {
        if text_eq(list[k].as_str(), value) {
            proof {
                assert(texts(list@)[k as int] == value@);
            }
            return true;
        }
        k = k + 1;
    }
    proof {
        if texts(list@).contains(value@) {
            let m = choose|m: int| 0 <= m < texts(list@).len() && texts(list@)[m] == value@;
            assert(list@[m]@ == value@);
        }
    }
    false
}

} // verus!

verus! {

/// Unicode `White_Space`, the set `char::is_whitespace` (and so `str::trim`)
/// goes by.
pub open spec fn spec_is_white(c: char) -> bool {
    let n = c as u32;
    ||| 0x9 <= n <= 0xD
    ||| n == 0x20
    ||| n == 0x85
    ||| n == 0xA0
    ||| n == 0x1680
    ||| 0x2000 <= n <= 0x200A
    ||| n == 0x2028
    ||| n == 0x2029
    ||| n == 0x202F
    ||| n == 0x205F
    ||| n == 0x3000
}

/// Nothing but whitespace: what trims down to the empty string.
pub open spec fn blank(s: Seq<char>) -> bool {
    forall|i: int| 0 <= i < s.len() ==> spec_is_white(#[trigger] s[i])
}

/// `pat` occurs in `s` as a contiguous run.
pub open spec fn has_sub(s: Seq<char>, pat: Seq<char>) -> bool {
    exists|i: int| 0 <= i && i + pat.len() <= s.len() && #[trigger] s.subrange(i, i + pat.len()) == pat
}

pub fn is_white(c: char) -> (r: bool)
    ensures
        r == spec_is_white(c),
{
    let n = c as u32;
    (0x9 <= n && n <= 0xD) || n == 0x20 || n == 0x85 || n == 0xA0 || n == 0x1680 || (0x2000 <= n && n <= 0x200A)
        || n == 0x2028 || n == 0x2029 || n == 0x202F || n == 0x205F || n == 0x3000
}

/// Whether `s` trims down to nothing.
pub fn is_blank(s: &str) -> (r: bool)
    ensures
        r == blank(s@),
{
    let chars = chars_of(s);
    let mut k: usize = 0;
    while k < chars.len()
        invariant
            k <= chars.len(),
            chars@ == s@,
            forall|i: int| 0 <= i < k ==> spec_is_white(#[trigger] s@[i]),
        decreases chars.len() - k,
    {
        if !is_white(chars[k]) {
            return false;
        }
        k = k + 1;
    }
    true
}

/// Whether `pat` occurs in `s`.
pub fn contains_text(s: &str, pat: &str) -> (r: bool)
    ensures
        r == has_sub(s@, pat@),
{
    let hay = chars_of(s);
    let needle = chars_of(pat);
    if needle.len() > hay.len() {
        return false;
    }
    let mut i: usize = 0;
    while i <= hay.len() - needle.len()
        invariant
            hay@ == s@,
            needle@ == pat@,
            needle.len() <= hay.len(),
            i <= hay.len() - needle.len() + 1,
            forall|a: int| 0 <= a < i ==> #[trigger] s@.subrange(a, a + pat@.len()) != pat@,
        decreases hay.len() + 1 - i,
    {
        let mut j: usize = 0;
        while j < needle.len() && hay[i + j] == needle[j]
            invariant
                i + needle.len() <= hay.len(),
                j <= needle.len(),
                hay@ == s@,
                needle@ == pat@,
                forall|b: int| 0 <= b < j ==> hay@[i + b] == needle@[b],
            decreases needle.len() - j,
        {
            j = j + 1;
        }
        if j == needle.len() {
            proof {
                assert(s@.subrange(i as int, i + pat@.len()) =~= pat@);
            }
            return true;
        }
        proof {
            assert(s@.subrange(i as int, i + pat@.len())[j as int] != pat@[j as int]);
        }
        i = i + 1;
    }
    proof {
        assert forall|a: int| 0 <= a && a + pat@.len() <= s@.len() implies #[trigger] s@.subrange(a, a + pat@.len()) != pat@ by {
            assert(a < i);
        }
    }
    false
}

} // verus!
