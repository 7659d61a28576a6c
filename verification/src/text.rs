use vstd::prelude::*;

verus! {

// ---------------------------------------------------------------------------
// Characters
// ---------------------------------------------------------------------------
/// Whether `c` is white space in the sense of Unicode's `White_Space` property
/// (the set that `char::is_whitespace` tests).
pub open spec fn is_space(c: char) -> bool {
    let u = c as u32;
    ||| u == 0x20
    ||| 0x09 <= u <= 0x0d
    ||| u == 0x85
    ||| u == 0xa0
    ||| u == 0x1680
    ||| 0x2000 <= u <= 0x200a
    ||| u == 0x2028
    ||| u == 0x2029
    ||| u == 0x202f
    ||| u == 0x205f
    ||| u == 0x3000
}

pub fn char_is_space(c: char) -> (b: bool)
    ensures
        b == is_space(c),
{
    let u = c as u32;
    u == 0x20 || (0x09 <= u && u <= 0x0d) || u == 0x85 || u == 0xa0 || u == 0x1680 || (0x2000
        <= u && u <= 0x200a) || u == 0x2028 || u == 0x2029 || u == 0x202f || u == 0x205f || u
        == 0x3000
}

pub open spec fn is_digit(c: char) -> bool {
    48 <= (c as u32) <= 57
}

pub open spec fn digit_value(c: char) -> nat {
    ((c as u32) - 48) as nat
}

pub open spec fn digit_char(d: nat) -> char {
    ((d + 48) as u32) as char
}

pub open spec fn all_digits(s: Seq<char>) -> bool {
    forall|i: int| 0 <= i < s.len() ==> is_digit(#[trigger] s[i])
}

// ---------------------------------------------------------------------------
// Words
// ---------------------------------------------------------------------------
/// Length of the run of non-space characters at the start of `s`.
pub open spec fn word_len(s: Seq<char>) -> nat
    decreases s.len(),
{
    if s.len() == 0 || is_space(s[0]) {
        0
    } else {
        1 + word_len(s.drop_first())
    }
}

/// The maximal runs of non-space characters of `s`, in order
/// (what `str::split_whitespace` yields).
pub open spec fn words(s: Seq<char>) -> Seq<Seq<char>>
    decreases s.len(),
{
    if s.len() == 0 {
        seq![]
    } else if is_space(s[0]) {
        words(s.drop_first())
    } else {
        let n = word_len(s);
        proof {
            lemma_word_len_bound(s);
        }
        seq![s.take(n as int)] + words(s.skip(n as int))
    }
}

pub proof fn lemma_word_len_bound(s: Seq<char>)
    ensures
        word_len(s) <= s.len(),
    decreases s.len(),
{
    if s.len() > 0 && !is_space(s[0]) {
        lemma_word_len_bound(s.drop_first());
    }
}

/// A run `s[start..end]` of non-space characters that ends at a space or at the end
/// of `s` is the first word of `s.skip(start)`.
proof fn lemma_word_len_run(s: Seq<char>, start: int, end: int)
    requires
        0 <= start <= end <= s.len(),
        forall|k: int| start <= k < end ==> !is_space(#[trigger] s[k]),
        end == s.len() || is_space(s[end]),
    ensures
        word_len(s.skip(start)) == end - start,
    decreases end - start,
{
    if start == end {
    } else {
        assert(s.skip(start).drop_first() =~= s.skip(start + 1));
        lemma_word_len_run(s, start + 1, end);
    }
}

/// Splits `s` into its words, as `str::split_whitespace` does.
pub fn split_words(s: &Vec<char>) -> (r: Vec<Vec<char>>)
    ensures
        r@.len() == words(s@).len(),
        forall|i: int| 0 <= i < r@.len() ==> #[trigger] r@[i]@ == words(s@)[i],
{
    let n = s.len();
    let mut out: Vec<Vec<char>> = Vec::new();
    let ghost mut done: Seq<Seq<char>> = seq![];
    let mut i: usize = 0;
    assert(s@.skip(0) =~= s@);
    while i < n
        invariant
            n == s.len(),
            i <= n,
            out@.len() == done.len(),
            forall|k: int| 0 <= k < out@.len() ==> #[trigger] out@[k]@ == done[k],
            words(s@) == done + words(s@.skip(i as int)),
        decreases n - i,
    {
        if char_is_space(s[i]) {
            assert(s@.skip(i as int).drop_first() =~= s@.skip(i + 1));
            i = i + 1;
        } else {
            let start = i;
            let mut w: Vec<char> = Vec::new();
            while i < n && !char_is_space(s[i])
                invariant
                    n == s.len(),
                    start <= i <= n,
                    w@ =~= s@.subrange(start as int, i as int),
                    forall|k: int| start <= k < i ==> !is_space(#[trigger] s@[k]),
                decreases n - i,
            {
                w.push(s[i]);
                i = i + 1;
            }
            proof {
                let rest = s@.skip(start as int);
                lemma_word_len_run(s@, start as int, i as int);
                assert(rest.take((i - start) as int) =~= w@);
                assert(rest.skip((i - start) as int) =~= s@.skip(i as int));
                assert(words(rest) == seq![w@] + words(s@.skip(i as int)));
                assert(done + words(rest) =~= done.push(w@) + words(s@.skip(i as int)));
                done = done.push(w@);
            }
            out.push(w);
        }
    }
    assert(s@.skip(n as int) =~= Seq::<char>::empty());
    assert(done =~= words(s@));
    out
}

// ---------------------------------------------------------------------------
// Conversions between `str`, `String` and `Vec<char>`
// ---------------------------------------------------------------------------
/// The characters of `s`.
pub fn str_chars(s: &str) -> (r: Vec<char>)
    ensures
        r@ == s@,
{
    let n = s.unicode_len();
    let mut out: Vec<char> = Vec::new();
    let mut i: usize = 0;
    while i < n
        invariant
            n == s@.len(),
            i <= n,
            out@ =~= s@.take(i as int),
        decreases n - i,
    {
        out.push(s.get_char(i));
        i = i + 1;
    }
    assert(s@.take(n as int) =~= s@);
    out
}

/// A `String` holding the characters of `v`, in order: `Iterator::collect` of the
/// characters into a `String`, which pushes each in turn.
#[verifier::external_body]
pub(crate) fn chars_to_string(v: &Vec<char>) -> (r: String)
    ensures
        r@ == v@,
{
    v.iter().collect()
}

/// Appends the characters of `s` to `out`.
pub fn push_str(out: &mut Vec<char>, s: &str)
    ensures
        final(out)@ == old(out)@ + s@,
{
    let n = s.unicode_len();
    let mut i: usize = 0;
    let ghost start = out@;
    while i < n
        invariant
            n == s@.len(),
            i <= n,
            out@ =~= start + s@.take(i as int),
        decreases n - i,
    {
        out.push(s.get_char(i));
        i = i + 1;
    }
    assert(s@.take(n as int) =~= s@);
}

/// Appends the characters of `v` to `out`.
pub fn push_chars(out: &mut Vec<char>, v: &Vec<char>)
    ensures
        final(out)@ == old(out)@ + v@,
{
    let n = v.len();
    let mut i: usize = 0;
    let ghost start = out@;
    while i < n
        invariant
            n == v@.len(),
            i <= n,
            out@ =~= start + v@.take(i as int),
        decreases n - i,
    {
        out.push(v[i]);
        i = i + 1;
    }
    assert(v@.take(n as int) =~= v@);
}

/// Whether the characters `v` spell out `s`.
pub fn chars_eq_str(v: &Vec<char>, s: &str) -> (b: bool)
    ensures
        b == (v@ == s@),
{
    let n = s.unicode_len();
    if v.len() != n {
        return false;
    }
    let mut i: usize = 0;
    while i < n
        invariant
            n == s@.len(),
            n == v@.len(),
            i <= n,
            forall|k: int| 0 <= k < i ==> v@[k] == s@[k],
        decreases n - i,
    {
        if v[i] != s.get_char(i) {
            return false;
        }
        i = i + 1;
    }
    assert(v@ =~= s@);
    true
}

/// Whether `v` begins with the characters of `prefix`.
pub fn chars_start_with(v: &Vec<char>, prefix: &str) -> (b: bool)
    ensures
        b == (prefix@.len() <= v@.len() && v@.take(prefix@.len() as int) == prefix@),
{
    let n = prefix.unicode_len();
    if v.len() < n {
        return false;
    }
    let mut i: usize = 0;
    while i < n
        invariant
            n == prefix@.len(),
            n <= v@.len(),
            i <= n,
            forall|k: int| 0 <= k < i ==> v@[k] == prefix@[k],
        decreases n - i,
    {
        if v[i] != prefix.get_char(i) {
            assert(v@.take(n as int)[i as int] != prefix@[i as int]);
            return false;
        }
        i = i + 1;
    }
    assert(v@.take(n as int) =~= prefix@);
    true
}

// ---------------------------------------------------------------------------
// Decimal numbers
// ---------------------------------------------------------------------------
/// The decimal digits of `n`, most significant first, without leading zeros.
pub open spec fn decimal(n: nat) -> Seq<char>
    decreases n,
{
    if n < 10 {
        seq![digit_char(n)]
    } else {
        decimal(n / 10).push(digit_char(n % 10))
    }
}

/// Appends the decimal digits of `n` to `out`.
pub fn push_decimal(out: &mut Vec<char>, n: u64)
    ensures
        final(out)@ == old(out)@ + decimal(n as nat),
    decreases n,
{
    let ghost start = out@;
    if n >= 10 {
        push_decimal(out, n / 10);
    }
    let d: u8 = (n % 10) as u8;
    let c: char = (48u8 + d) as char;
    out.push(c);
    assert(out@ =~= start + decimal(n as nat));
}

/// Value of a string of decimal digits.
pub open spec fn digits_value(s: Seq<char>) -> nat
    decreases s.len(),
{
    if s.len() == 0 {
        0
    } else {
        digits_value(s.drop_last()) * 10 + digit_value(s.last())
    }
}

/// What `str::parse::<T>()` gives for an unsigned `T` whose largest value is `max`:
/// an optional `+`, then one or more ASCII digits whose value is at most `max`.
pub open spec fn parse_unsigned(s: Seq<char>, max: nat) -> Option<nat> {
    let body = if s.len() > 0 && s[0] == '+' {
        s.drop_first()
    } else {
        s
    };
    if body.len() > 0 && all_digits(body) && digits_value(body) <= max {
        Some(digits_value(body))
    } else {
        None
    }
}

/// What `str::parse::<u8>()` gives.
pub open spec fn parse_u8_spec(s: Seq<char>) -> Option<u8> {
    match parse_unsigned(s, 255) {
        Some(v) => Some(v as u8),
        None => None,
    }
}

/// What `str::parse::<i32>()` gives: an optional sign, then one or more ASCII digits,
/// the value in the range of `i32`.
pub open spec fn parse_i32_spec(s: Seq<char>) -> Option<i32> {
    if s.len() > 0 && s[0] == '-' {
        let body = s.drop_first();
        if body.len() > 0 && all_digits(body) && digits_value(body) <= 0x8000_0000 {
            Some((0 - digits_value(body)) as i32)
        } else {
            None
        }
    } else {
        match parse_unsigned(s, 0x7fff_ffff) {
            Some(v) => Some(v as i32),
            None => None,
        }
    }
}

proof fn lemma_digits_value_push(s: Seq<char>, c: char)
    ensures
        digits_value(s.push(c)) == digits_value(s) * 10 + digit_value(c),
{
    assert(s.push(c).drop_last() =~= s);
}

/// Reads the digits of `s` from `start` on. `None` where a character is not a digit;
/// otherwise the value where it is at most `limit`, and some number above `limit`
/// where the value is above `limit`.
fn read_digits(s: &Vec<char>, start: usize, limit: u64) -> (r: Option<u64>)
    requires
        start <= s@.len(),
        limit <= 0x1_0000_0000,
    ensures
        r is Some <==> all_digits(s@.skip(start as int)),
        r matches Some(v) ==> (v <= limit <==> digits_value(s@.skip(start as int)) <= limit),
        r matches Some(v) ==> (v <= limit ==> v == digits_value(s@.skip(start as int))),
{
    let n = s.len();
    let mut acc: u64 = 0;
    let mut i: usize = start;
    assert(s@.subrange(start as int, start as int) =~= Seq::<char>::empty());
    while i < n
        invariant
            n == s@.len(),
            start <= i <= n,
            limit <= 0x1_0000_0000,
            all_digits(s@.subrange(start as int, i as int)),
            acc <= limit * 10 + 9,
            acc <= limit <==> digits_value(s@.subrange(start as int, i as int)) <= limit,
            acc <= limit ==> acc == digits_value(s@.subrange(start as int, i as int)),
        decreases n - i,
    {
        let c = s[i];
        let u = c as u32;
        if u < 48 || u > 57 {
            assert(!is_digit(s@.skip(start as int)[i - start]));
            return None;
        }
        let d = (u - 48) as u64;
        proof {
            let pre = s@.subrange(start as int, i as int);
            assert(s@.subrange(start as int, i + 1) =~= pre.push(c));
            lemma_digits_value_push(pre, c);
        }
        if acc <= limit {
            acc = acc * 10 + d;
        }
        i = i + 1;
    }
    assert(s@.subrange(start as int, n as int) =~= s@.skip(start as int));
    Some(acc)
}

/// `str::parse::<u8>()` on the characters `s`.
pub fn parse_u8(s: &Vec<char>) -> (r: Option<u8>)
    ensures
        r == parse_u8_spec(s@),
{
    let start: usize = if s.len() > 0 && s[0] == '+' {
        1
    } else {
        0
    };
    assert(s@.skip(start as int) =~= (if s@.len() > 0 && s@[0] == '+' {
        s@.drop_first()
    } else {
        s@
    }));
    if start >= s.len() {
        return None;
    }
    match read_digits(s, start, 255) {
        Some(v) => {
            if v <= 255 {
                Some(v as u8)
            } else {
                None
            }
        },
        None => None,
    }
}

/// `str::parse::<i32>()` on the characters `s`.
pub fn parse_i32(s: &Vec<char>) -> (r: Option<i32>)
    ensures
        r == parse_i32_spec(s@),
{
    if s.len() > 0 && s[0] == '-' {
        assert(s@.skip(1) =~= s@.drop_first());
        if s.len() == 1 {
            return None;
        }
        match read_digits(s, 1, 0x8000_0000) {
            Some(v) => {
                if v <= 0x8000_0000 {
                    let neg: i64 = 0 - (v as i64);
                    Some(neg as i32)
                } else {
                    None
                }
            },
            None => None,
        }
    } else {
        let start: usize = if s.len() > 0 && s[0] == '+' {
            1
        } else {
            0
        };
        assert(s@.skip(start as int) =~= (if s@.len() > 0 && s@[0] == '+' {
            s@.drop_first()
        } else {
            s@
        }));
        if start >= s.len() {
            return None;
        }
        match read_digits(s, start, 0x7fff_ffff) {
            Some(v) => {
                if v <= 0x7fff_ffff {
                    Some(v as i32)
                } else {
                    None
                }
            },
            None => None,
        }
    }
}

/// The texts of a sequence of strings.
pub open spec fn texts(v: Seq<String>) -> Seq<Seq<char>> {
    v.map_values(|s: String| s@)
}

/// Whether `a` and `b` hold the same characters.
pub fn str_eq(a: &str, b: &str) -> (r: bool)
    ensures
        r == (a@ == b@),
{
    let n = a.unicode_len();
    if b.unicode_len() != n {
        return false;
    }
    let mut i: usize = 0;
    while i < n
        invariant
            n == a@.len(),
            n == b@.len(),
            i <= n,
            forall|k: int| 0 <= k < i ==> a@[k] == b@[k],
        decreases n - i,
    {
        if a.get_char(i) != b.get_char(i) {
            return false;
        }
        i = i + 1;
    }
    assert(a@ =~= b@);
    true
}

/// `list` joined with `sep` between neighbours.
pub open spec fn join(list: Seq<Seq<char>>, sep: Seq<char>) -> Seq<char>
    decreases list.len(),
{
    if list.len() == 0 {
        seq![]
    } else if list.len() == 1 {
        list[0]
    } else {
        join(list.drop_last(), sep) + sep + list.last()
    }
}

/// Appends `list` joined with `sep`.
pub fn push_joined(out: &mut Vec<char>, list: &Vec<String>, sep: &str)
    ensures
        final(out)@ == old(out)@ + join(texts(list@), sep@),
{
    let ghost start = out@;
    let ghost l = texts(list@);
    let n = list.len();
    let mut i: usize = 0;
    while i < n
        invariant
            n == list@.len(),
            l == texts(list@),
            i <= n,
            out@ == start + join(l.take(i as int), sep@),
        decreases n - i,
    {
        let ghost before = out@;
        if i > 0 {
            push_str(out, sep);
        }
        let item = str_chars(list[i].as_str());
        push_chars(out, &item);
        proof {
            assert(l.take(i + 1).drop_last() =~= l.take(i as int));
            assert(l[i as int] == list@[i as int]@);
            if i == 0 {
                assert(l.take(1) =~= seq![l[0]]);
            }
        }
        i = i + 1;
    }
    assert(l.take(n as int) =~= l);
}

proof fn lemma_digit_char(d: nat)
    requires
        d < 10,
    ensures
        digit_value(digit_char(d)) == d,
        is_digit(digit_char(d)),
{
    let u: u32 = (d + 48) as u32;
    assert((u as char) as u32 == u);
}

proof fn lemma_decimal_digits(n: nat)
    ensures
        all_digits(decimal(n)),
        digits_value(decimal(n)) == n,
        decimal(n).len() > 0,
    decreases n,
{
    if n < 10 {
        lemma_digit_char(n);
        let s = seq![digit_char(n)];
        assert(decimal(n) =~= s);
        assert(s.drop_last() =~= Seq::<char>::empty());
        assert(digits_value(s) == digits_value(s.drop_last()) * 10 + digit_value(s.last()));
        assert(digits_value(Seq::<char>::empty()) == 0);
    } else {
        lemma_decimal_digits(n / 10);
        lemma_digit_char(n % 10);
        lemma_digits_value_push(decimal(n / 10), digit_char(n % 10));
        assert((n / 10) * 10 + n % 10 == n);
    }
}

/// An integer written in decimal, with `-` before a negative one.
pub open spec fn int_text(n: int) -> Seq<char> {
    if n < 0 {
        seq!['-'] + decimal((-n) as nat)
    } else {
        decimal(n as nat)
    }
}

/// Every `i32` written in decimal reads back as itself, sign included.
pub proof fn lemma_i32_text_parses(n: i32)
    ensures
        parse_i32_spec(int_text(n as int)) == Some(n),
{
    if n < 0 {
        let a: nat = (-n) as nat;
        lemma_decimal_digits(a);
        let s = int_text(n as int);
        assert(s.drop_first() =~= decimal(a));
        assert(s[0] == '-');
    } else {
        lemma_decimal_digits(n as nat);
        law_decimal_parses_back(n as nat, 0x7fff_ffff);
        assert(is_digit(decimal(n as nat)[0]));
        assert(decimal(n as nat)[0] != '-');
    }
}

/// A number the library writes reads back as itself wherever it is in range.
pub proof fn law_decimal_parses_back(n: nat, max: nat)
    requires
        n <= max,
    ensures
        parse_unsigned(decimal(n), max) == Some(n),
{
    lemma_decimal_digits(n);
    assert(is_digit(decimal(n)[0]));
}

// ---------------------------------------------------------------------------
// Words joined by spaces
// ---------------------------------------------------------------------------
/// A word: non-empty, without white space.
pub open spec fn is_word(w: Seq<char>) -> bool {
    w.len() > 0 && forall|k: int| 0 <= k < w.len() ==> !is_space(#[trigger] w[k])
}

proof fn lemma_word_len_prefix(s: Seq<char>)
    ensures
        forall|k: int| 0 <= k < word_len(s) ==> !is_space(#[trigger] s[k]),
        word_len(s) <= s.len(),
        word_len(s) == s.len() || is_space(s[word_len(s) as int]),
    decreases s.len(),
{
    if s.len() > 0 && !is_space(s[0]) {
        lemma_word_len_prefix(s.drop_first());
        assert forall|k: int| 0 <= k < word_len(s) implies !is_space(#[trigger] s[k]) by {
            if k > 0 {
                assert(s[k] == s.drop_first()[k - 1]);
            }
        }
    }
}

/// The words of a text are words.
proof fn lemma_words_are_words(s: Seq<char>)
    ensures
        forall|i: int| 0 <= i < words(s).len() ==> is_word(#[trigger] words(s)[i]),
    decreases s.len(),
{
    if s.len() == 0 {
    } else if is_space(s[0]) {
        lemma_words_are_words(s.drop_first());
        assert(words(s) == words(s.drop_first()));
    } else {
        let n = word_len(s);
        lemma_word_len_prefix(s);
        assert(words(s) == seq![s.take(n as int)] + words(s.skip(n as int)));
        lemma_words_are_words(s.skip(n as int));
        assert(n > 0) by {
            assert(s.drop_first().len() >= 0);
        }
        let first = s.take(n as int);
        assert forall|i: int| 0 <= i < words(s).len() implies is_word(#[trigger] words(s)[i]) by {
            if i == 0 {
                assert(words(s)[0] == first);
                assert forall|k: int| 0 <= k < first.len() implies !is_space(#[trigger] first[k]) by {
                    assert(first[k] == s[k]);
                }
            } else {
                assert(words(s)[i] == words(s.skip(n as int))[i - 1]);
            }
        }
    }
}

proof fn lemma_word_len_of_word(a: Seq<char>, b: Seq<char>)
    requires
        forall|k: int| 0 <= k < a.len() ==> !is_space(#[trigger] a[k]),
        b.len() == 0 || is_space(b[0]),
    ensures
        word_len(a + b) == a.len(),
    decreases a.len(),
{
    if a.len() == 0 {
        assert(a + b =~= b);
    } else {
        assert((a + b).drop_first() =~= a.drop_first() + b);
        assert((a + b)[0] == a[0]);
        assert forall|k: int| 0 <= k < a.drop_first().len() implies !is_space(
            #[trigger] a.drop_first()[k],
        ) by {
            assert(a.drop_first()[k] == a[k + 1]);
        }
        lemma_word_len_of_word(a.drop_first(), b);
    }
}

/// A word followed by nothing, or by text that starts with a space, is the first of
/// the words.
pub proof fn lemma_words_of_word(a: Seq<char>, b: Seq<char>)
    requires
        is_word(a),
        b.len() == 0 || is_space(b[0]),
    ensures
        words(a + b) == seq![a] + words(b),
{
    lemma_word_len_of_word(a, b);
    assert((a + b)[0] == a[0]);
    assert((a + b).take(a.len() as int) =~= a);
    assert((a + b).skip(a.len() as int) =~= b);
}

proof fn lemma_join_cons(w: Seq<char>, rest: Seq<Seq<char>>, sep: Seq<char>)
    requires
        rest.len() > 0,
    ensures
        join(seq![w] + rest, sep) == w + sep + join(rest, sep),
    decreases rest.len(),
{
    let l = seq![w] + rest;
    if rest.len() == 1 {
        assert(l.drop_last() =~= seq![w]);
        assert(join(l.drop_last(), sep) == w);
        assert(l.last() == rest[0]);
        assert(join(rest, sep) == rest[0]);
    } else {
        lemma_join_cons(w, rest.drop_last(), sep);
        assert(l.drop_last() =~= seq![w] + rest.drop_last());
        assert(l.last() == rest.last());
        assert(join(rest, sep) == join(rest.drop_last(), sep) + sep + rest.last());
        assert(join(l, sep) == join(l.drop_last(), sep) + sep + l.last());
        assert(join(l, sep) =~= w + sep + join(rest, sep));
    }
}

/// Words joined by single spaces split into the same words again.
proof fn lemma_words_of_join(ws: Seq<Seq<char>>)
    requires
        forall|i: int| 0 <= i < ws.len() ==> is_word(#[trigger] ws[i]),
    ensures
        words(join(ws, " "@)) == ws,
    decreases ws.len(),
{
    reveal_strlit(" ");
    if ws.len() == 0 {
    } else if ws.len() == 1 {
        lemma_words_of_word(ws[0], seq![]);
        assert(ws[0] + Seq::<char>::empty() =~= ws[0]);
        assert(seq![ws[0]] + words(Seq::<char>::empty()) =~= ws);
    } else {
        let rest = ws.drop_first();
        assert(ws =~= seq![ws[0]] + rest);
        lemma_join_cons(ws[0], rest, " "@);
        assert forall|i: int| 0 <= i < rest.len() implies is_word(#[trigger] rest[i]) by {
            assert(rest[i] == ws[i + 1]);
        }
        lemma_words_of_join(rest);
        let tail = " "@ + join(rest, " "@);
        assert(ws[0] + " "@ + join(rest, " "@) =~= ws[0] + tail);
        lemma_words_of_word(ws[0], tail);
        assert(tail.drop_first() =~= join(rest, " "@));
    }
}

/// The words of two texts, the first empty or ending in white space, are the words
/// of the first followed by the words of the second.
pub proof fn lemma_words_concat(a: Seq<char>, b: Seq<char>)
    requires
        a.len() == 0 || is_space(a.last()),
    ensures
        words(a + b) == words(a) + words(b),
    decreases a.len(),
{
    if a.len() == 0 {
        assert(a + b =~= b);
        assert(words(a) + words(b) =~= words(b));
    } else if is_space(a[0]) {
        assert((a + b)[0] == a[0]);
        assert((a + b).drop_first() =~= a.drop_first() + b);
        if a.len() > 1 {
            assert(a.drop_first().last() == a.last());
        }
        lemma_words_concat(a.drop_first(), b);
    } else {
        let n = word_len(a);
        lemma_word_len_prefix(a);
        if n == a.len() {
            assert(!is_space(a[a.len() - 1]));
        }
        assert(n > 0) by {
            assert(word_len(a) == 1 + word_len(a.drop_first()));
        }
        let rest = a.skip(n as int);
        assert(a + b =~= a.take(n as int) + (rest + b));
        assert((rest + b)[0] == a[n as int]);
        assert forall|k: int| 0 <= k < a.take(n as int).len() implies !is_space(
            #[trigger] a.take(n as int)[k],
        ) by {
            assert(a.take(n as int)[k] == a[k]);
        }
        lemma_word_len_of_word(a.take(n as int), rest + b);
        assert((a + b)[0] == a[0]);
        assert((a + b).take(n as int) =~= a.take(n as int));
        assert((a + b).skip(n as int) =~= rest + b);
        assert(rest.last() == a.last());
        lemma_words_concat(rest, b);
        assert(words(a) == seq![a.take(n as int)] + words(rest));
        assert(words(a + b) == seq![a.take(n as int)] + words(rest + b));
        assert(words(a + b) =~= words(a) + words(b));
    }
}

/// A number written in decimal, with a dot or three after it, is a word.
pub proof fn lemma_number_word(n: nat, dots: Seq<char>)
    requires
        forall|k: int| 0 <= k < dots.len() ==> dots[k] == '.',
    ensures
        is_word(decimal(n) + dots),
{
    lemma_decimal_digits(n);
    let w = decimal(n) + dots;
    assert forall|k: int| 0 <= k < w.len() implies !is_space(#[trigger] w[k]) by {
        if k < decimal(n).len() {
            assert(is_digit(decimal(n)[k]));
        } else {
            assert(w[k] == dots[k - decimal(n).len()]);
        }
    }
}

/// Only the words of a text count: the words of a text, joined by single spaces,
/// split into the same words.
pub proof fn law_words_of_joined_words(s: Seq<char>)
    ensures
        words(join(words(s), " "@)) == words(s),
{
    lemma_words_are_words(s);
    lemma_words_of_join(words(s));
}

} // verus!
