//! Text primitives: byte lengths, trimming, decimal rendering, substring search
//! and concatenation, each with an exact model over sequences of characters.
use vstd::prelude::*;
use vstd::string::*;
use vstd::std_specs::iter::IteratorSpec;

verus! {

/// Number of bytes that a text occupies in UTF-8; this is what length bounds count.
pub open spec fn byte_len(s: Seq<char>) -> nat {
    vstd::utf8::encode_utf8(s).len()
}

/// The characters that trimming removes: the Unicode `White_Space` property.
pub open spec fn is_whitespace(c: char) -> bool {
    let u = c as u32;
    (0x09 <= u <= 0x0D) || u == 0x20 || u == 0x85 || u == 0xA0 || u == 0x1680 || (0x2000 <= u
        <= 0x200A) || u == 0x2028 || u == 0x2029 || u == 0x202F || u == 0x205F || u == 0x3000
}

/// Number of whitespace characters at the front of `s`.
pub open spec fn leading_whitespace(s: Seq<char>) -> nat
    decreases s.len(),
{
    if s.len() > 0 && is_whitespace(s[0]) {
        1 + leading_whitespace(s.drop_first())
    } else {
        0
    }
}

/// Number of whitespace characters at the back of `s`.
pub open spec fn trailing_whitespace(s: Seq<char>) -> nat
    decreases s.len(),
{
    if s.len() > 0 && is_whitespace(s.last()) {
        1 + trailing_whitespace(s.drop_last())
    } else {
        0
    }
}

/// `s` without its leading and trailing whitespace.
pub open spec fn trimmed(s: Seq<char>) -> Seq<char> {
    let front = leading_whitespace(s);
    if front == s.len() {
        Seq::empty()
    } else {
        s.subrange(front as int, s.len() - trailing_whitespace(s))
    }
}

/// `needle` occurs in `hay` at character offset `at`.
pub open spec fn occurs_at(hay: Seq<char>, needle: Seq<char>, at: int) -> bool {
    0 <= at && at + needle.len() <= hay.len() && hay.subrange(at, at + needle.len()) == needle
}

/// `needle` occurs somewhere in `hay`.
pub open spec fn occurs_in(hay: Seq<char>, needle: Seq<char>) -> bool {
    exists|at: int| occurs_at(hay, needle, at)
}

/// The offset of the first occurrence of `needle` in `hay`.
pub open spec fn first_occurrence(hay: Seq<char>, needle: Seq<char>) -> int {
    choose|at: int|
        occurs_at(hay, needle, at) && forall|earlier: int|
            0 <= earlier < at ==> !occurs_at(hay, needle, earlier)
}

/// `hay` with the first occurrence of `from` replaced by `to`; `hay` itself
/// where `from` does not occur.
pub open spec fn replaced_first(hay: Seq<char>, from: Seq<char>, to: Seq<char>) -> Seq<char> {
    if occurs_in(hay, from) {
        let at = first_occurrence(hay, from);
        hay.subrange(0, at) + to + hay.subrange(at + from.len(), hay.len() as int)
    } else {
        hay
    }
}

/// The character that renders one decimal digit.
pub open spec fn digit(d: nat) -> char {
    if d == 0 {
        '0'
    } else if d == 1 {
        '1'
    } else if d == 2 {
        '2'
    } else if d == 3 {
        '3'
    } else if d == 4 {
        '4'
    } else if d == 5 {
        '5'
    } else if d == 6 {
        '6'
    } else if d == 7 {
        '7'
    } else if d == 8 {
        '8'
    } else {
        '9'
    }
}

/// Decimal rendering of a natural number, without leading zeros.
pub open spec fn decimal_nat(n: nat) -> Seq<char>
    decreases n,
{
    if n < 10 {
        seq![digit(n)]
    } else {
        decimal_nat(n / 10).push(digit(n % 10))
    }
}

/// Decimal rendering of an integer, with a minus sign in front of a negative one.
pub open spec fn decimal(n: int) -> Seq<char> {
    if n < 0 {
        seq!['-'] + decimal_nat((-n) as nat)
    } else {
        decimal_nat(n as nat)
    }
}

/// A text without a dot. File names are built so that the part before the
/// extension has none.
pub open spec fn dotless(s: Seq<char>) -> bool {
    forall|i: int| 0 <= i < s.len() ==> s[i] != '.'
}

/// A number's decimal rendering has no dot.
pub proof fn lemma_decimal_is_dotless(n: int)
    ensures
        dotless(decimal(n)),
{
    if n < 0 {
        lemma_decimal_nat_is_dotless((-n) as nat);
    } else {
        lemma_decimal_nat_is_dotless(n as nat);
    }
}

/// A natural number's decimal rendering has no dot.
pub proof fn lemma_decimal_nat_is_dotless(n: nat)
    ensures
        dotless(decimal_nat(n)),
    decreases n,
{
    if n >= 10 {
        lemma_decimal_nat_is_dotless(n / 10);
    }
}

/// Joining texts without dots gives a text without dots.
pub proof fn lemma_dotless_join(a: Seq<char>, b: Seq<char>)
    requires
        dotless(a),
        dotless(b),
    ensures
        dotless(a + b),
{
}

/// Length of the part of `s` before its first `.`; the whole length where it has none.
pub open spec fn stem_len(s: Seq<char>) -> nat
    decreases s.len(),
{
    if s.len() > 0 && s[0] != '.' {
        1 + stem_len(s.drop_first())
    } else {
        0
    }
}

/// The part of a file name before its first `.`.
pub open spec fn stem_of(s: Seq<char>) -> Seq<char> {
    s.subrange(0, stem_len(s) as int)
}

fn digit_text(d: u128) -> (r: &'static str)
    requires
        d < 10,
    ensures
        r@ == seq![digit(d as nat)],
{
    proof {
        reveal_strlit("0");
        reveal_strlit("1");
        reveal_strlit("2");
        reveal_strlit("3");
        reveal_strlit("4");
        reveal_strlit("5");
        reveal_strlit("6");
        reveal_strlit("7");
        reveal_strlit("8");
        reveal_strlit("9");
    }
    let r = if d == 0 {
        "0"
    } else if d == 1 {
        "1"
    } else if d == 2 {
        "2"
    } else if d == 3 {
        "3"
    } else if d == 4 {
        "4"
    } else if d == 5 {
        "5"
    } else if d == 6 {
        "6"
    } else if d == 7 {
        "7"
    } else if d == 8 {
        "8"
    } else {
        "9"
    };
    assert(r@ =~= seq![digit(d as nat)]);
    r
}

/// Renders a natural number in decimal.
pub fn decimal_text_nat(n: u128) -> (r: String)
    ensures
        r@ == decimal_nat(n as nat),
    decreases n,
{
    if n < 10 {
        String::from_str(digit_text(n))
    } else {
        let mut r = decimal_text_nat(n / 10);
        r.append(digit_text(n % 10));
        assert(r@ =~= decimal_nat(n as nat / 10).push(digit(n as nat % 10)));
        r
    }
}

/// Renders an integer in decimal, as `Display` does for the integer types.
pub fn decimal_text(n: i64) -> (r: String)
    ensures
        r@ == decimal(n as int),
{
    if n < 0 {
        let magnitude: u128 = (-(n as i128)) as u128;
        let mut r = String::from_str("-");
        let digits = decimal_text_nat(magnitude);
        r.append(digits.as_str());
        proof {
            reveal_strlit("-");
            assert(r@ =~= seq!['-'] + decimal_nat((-n) as nat));
        }
        r
    } else {
        decimal_text_nat(n as u128)
    }
}

/// If every character before `i` is not a dot and `i` is the end or a dot,
/// the stem ends at `i`.
pub proof fn lemma_stem_len(s: Seq<char>, i: nat)
    requires
        i <= s.len(),
        forall|j: int| 0 <= j < i ==> s[j] != '.',
        i == s.len() || s[i as int] == '.',
    ensures
        stem_len(s) == i,
    decreases i,
{
    if i > 0 {
        let t = s.drop_first();
        assert forall|j: int| 0 <= j < i - 1 implies t[j] != '.' by {
            assert(t[j] == s[j + 1]);
        }
        lemma_stem_len(t, (i - 1) as nat);
    }
}

/// The part of a stored file name before its first `.`.
pub fn stem(path: &str) -> (r: String)
    ensures
        r@ == stem_of(path@),
{
    let n = path.unicode_len();
    let mut i: usize = 0;
    while i < n && path.get_char(i) != '.'
        invariant
            i <= n,
            n == path@.len(),
            forall|j: int| 0 <= j < i ==> path@[j] != '.',
        decreases n - i,
    {
        i += 1;
    }
    proof {
        lemma_stem_len(path@, i as nat);
    }
    String::from_str(path.substring_char(0, i))
}

/// The characters of a text.
pub fn chars_of(s: &str) -> (r: Vec<char>)
    ensures
        r@ == s@,
{
    broadcast use {vstd::string::axiom_spec_iter, vstd::string::next_postcondition};

    let mut it = s.chars();
    let mut r: Vec<char> = Vec::new();
    loop
        invariant
            r@ + it.remaining() == s@,
            it.obeys_prophetic_iter_laws(),
            it.decrease() is Some,
        ensures
            r@ == s@,
        decreases it.decrease()->0,
    {
        let ghost before = it.remaining();
        let ghost collected = r@;
        match it.next() {
            Some(c) => {
                r.push(c);
                assert(r@ + it.remaining() =~= collected + before);
            },
            None => {
                assert(r@ =~= collected + before);
                break ;
            },
        }
    }
    r
}

/// Whether a character is whitespace.
pub fn whitespace(c: char) -> (r: bool)
    ensures
        r == is_whitespace(c),
{
    let u = c as u32;
    (0x09 <= u && u <= 0x0D) || u == 0x20 || u == 0x85 || u == 0xA0 || u == 0x1680 || (0x2000 <= u
        && u <= 0x200A) || u == 0x2028 || u == 0x2029 || u == 0x202F || u == 0x205F || u == 0x3000
}

/// If the first `i` characters are whitespace and the next one, if there is
/// one, is not, then `i` characters of whitespace lead the text.
proof fn lemma_leading(s: Seq<char>, i: nat)
    requires
        i <= s.len(),
        forall|j: int| 0 <= j < i ==> is_whitespace(s[j]),
        i == s.len() || !is_whitespace(s[i as int]),
    ensures
        leading_whitespace(s) == i,
    decreases i,
{
    if i > 0 {
        let t = s.drop_first();
        assert forall|j: int| 0 <= j < i - 1 implies is_whitespace(t[j]) by {
            assert(t[j] == s[j + 1]);
        }
        lemma_leading(t, (i - 1) as nat);
    }
}

/// If the last `k` characters are whitespace and the one before them, if
/// there is one, is not, then `k` characters of whitespace trail the text.
proof fn lemma_trailing(s: Seq<char>, k: nat)
    requires
        k <= s.len(),
        forall|j: int| s.len() - k <= j < s.len() ==> is_whitespace(s[j]),
        k == s.len() || !is_whitespace(s[s.len() - k - 1]),
    ensures
        trailing_whitespace(s) == k,
    decreases k,
{
    if k > 0 {
        let t = s.drop_last();
        assert forall|j: int| t.len() - (k - 1) <= j < t.len() implies is_whitespace(t[j]) by {
            assert(t[j] == s[j]);
        }
        lemma_trailing(t, (k - 1) as nat);
    }
}

/// The text without its leading and trailing whitespace.
pub fn trim(s: &str) -> (r: String)
    ensures
        r@ == trimmed(s@),
{
    let chars = chars_of(s);
    let n = chars.len();
    let mut front: usize = 0;
    while front < n && whitespace(chars[front])
        invariant
            front <= n,
            n == chars@.len(),
            forall|j: int| 0 <= j < front ==> is_whitespace(chars@[j]),
        decreases n - front,
    {
        front += 1;
    }
    proof {
        lemma_leading(s@, front as nat);
    }
    if front == n {
        return String::new();
    }
    let mut back: usize = n;
    while back > front + 1 && whitespace(chars[back - 1])
        invariant
            front < back <= n,
            n == chars@.len(),
            !is_whitespace(chars@[front as int]),
            forall|j: int| back <= j < n ==> is_whitespace(chars@[j]),
        decreases back,
    {
        back -= 1;
    }
    proof {
        lemma_trailing(s@, (n - back) as nat);
    }
    String::from_str(s.substring_char(front, back))
}

/// Whether `needle` stands in `hay` at offset `at`.
fn matches_at(hay: &Vec<char>, needle: &Vec<char>, at: usize) -> (r: bool)
    requires
        at + needle@.len() <= hay@.len(),
    ensures
        r == occurs_at(hay@, needle@, at as int),
{
    let mut k: usize = 0;
    let limit = hay.len();
    while k < needle.len()
        invariant
            k <= needle@.len(),
            at + needle@.len() <= hay@.len(),
            limit == hay@.len(),
            forall|j: int| 0 <= j < k ==> hay@[at + j] == needle@[j],
        decreases needle@.len() - k,
    {
        if hay[at + k] != needle[k] {
            proof {
                let part = hay@.subrange(at as int, at + needle@.len());
                assert(part[k as int] != needle@[k as int]);
            }
            return false;
        }
        k += 1;
    }
    assert(hay@.subrange(at as int, at + needle@.len()) =~= needle@);
    true
}

/// Finds the first occurrence of `needle` in `hay`.
fn find(hay: &Vec<char>, needle: &Vec<char>) -> (r: Option<usize>)
    ensures
        match r {
            Some(at) => occurs_at(hay@, needle@, at as int) && forall|earlier: int|
                0 <= earlier < at ==> !occurs_at(hay@, needle@, earlier),
            None => !occurs_in(hay@, needle@),
        },
{
    if needle.len() > hay.len() {
        return None;
    }
    let last = hay.len() - needle.len();
    let mut at: usize = 0;
    loop
        invariant
            at <= last,
            last == hay@.len() - needle@.len(),
            forall|earlier: int| 0 <= earlier < at ==> !occurs_at(hay@, needle@, earlier),
        decreases last - at,
    {
        if matches_at(hay, needle, at) {
            return Some(at);
        }
        if at == last {
            return None;
        }
        at += 1;
    }
}

/// Whether `needle` occurs in `hay`.
pub fn contains(hay: &str, needle: &str) -> (r: bool)
    ensures
        r == occurs_in(hay@, needle@),
{
    let h = chars_of(hay);
    let n = chars_of(needle);
    match find(&h, &n) {
        Some(at) => true,
        None => false,
    }
}

/// A copy of `hay` in which the first occurrence of `from`, if there is one,
/// is replaced by `to`.
pub fn replace_first(hay: &str, from: &str, to: &str) -> (r: String)
    ensures
        r@ == replaced_first(hay@, from@, to@),
{
    let h = chars_of(hay);
    let f = chars_of(from);
    match find(&h, &f) {
        Some(at) => {
            proof {
                let first = first_occurrence(hay@, from@);
                assert(occurs_at(hay@, from@, at as int));
                assert(first == at);
            }
            let end = h.len();
            let mut r = String::from_str(hay.substring_char(0, at));
            r.append(to);
            r.append(hay.substring_char(at + f.len(), end));
            r
        },
        None => String::from_str(hay),
    }
}

/// Whether two texts hold the same characters.
pub fn same_text(a: &str, b: &str) -> (r: bool)
    ensures
        r == (a@ == b@),
{
    let x = String::from_str(a);
    let y = String::from_str(b);
    x == y
}

/// Joins two texts.
pub fn join(a: &str, b: &str) -> (r: String)
    ensures
        r@ == a@ + b@,
{
    let mut r = String::from_str(a);
    r.append(b);
    r
}

} // verus!
