//! Text building and parsing over character sequences.

use vstd::prelude::*;

verus! {

/// `String::push` appends one character to the end of the string.
pub assume_specification[ String::push ](s: &mut String, c: char)
    ensures
        final(s)@ == old(s)@.push(c),
;

/// `str` equality: two string slices are equal exactly when they hold the same characters.
pub assume_specification[ <str as PartialEq>::eq ](a: &str, b: &str) -> (r: bool)
    ensures
        r == (a@ == b@),
;

/// The text that the `{:?}` format of `str` gives for a string: the string in double quotes, with
/// the escapes that the standard library chooses.
pub uninterp spec fn debug_text(s: Seq<char>) -> Seq<char>;

/// Formats `s` with `{:?}`. The result is named and not described further: which characters the
/// standard library escapes is not stated here.
#[verifier::external_body]
pub(crate) fn debug_str(s: &str) -> (r: String)
    ensures
        r@ == debug_text(s@),
{
    format!("{:?}", s)
}

/// Whether two strings hold the same characters.
pub fn same(a: &str, b: &str) -> (r: bool)
    ensures
        r == (a@ == b@),
{
    a.eq(b)
}

/// The views of the elements of a sequence.
pub open spec fn views<T: View>(s: Seq<T>) -> Seq<T::V> {
    Seq::new(s.len(), |i: int| s[i]@)
}

/// The view of an optional value.
pub open spec fn opt_view<T: View>(o: Option<T>) -> Option<T::V> {
    match o {
        Some(x) => Some(x@),
        None => None,
    }
}

/// Copies an optional string.
pub fn clone_opt(o: &Option<String>) -> (r: Option<String>)
    ensures
        opt_view(r) == opt_view(*o),
{
    match o {
        Some(s) => Some(s.clone()),
        None => None,
    }
}

/// Copies a list of strings.
pub fn clone_strings(v: &Vec<String>) -> (r: Vec<String>)
    ensures
        views(r@) == views(v@),
{
    let mut r: Vec<String> = Vec::new();
    for i in 0..v.len()
        invariant
            r@.len() == i,
            forall|j: int| 0 <= j < i ==> r@[j]@ == v@[j]@,
    {
        r.push(v[i].clone());
    }
    assert(views(r@) =~= views(v@));
    r
}

// ---------------------------------------------------------------------------
// Numbers to text
// ---------------------------------------------------------------------------

/// The character of a decimal or lower-case hexadecimal digit.
pub open spec fn digit_char(d: int) -> char {
    if d < 10 {
        (48 + d) as char
    } else {
        (87 + d) as char
    }
}

/// `n` in decimal, without leading zeros.
pub open spec fn decimal(n: nat) -> Seq<char>
    decreases n,
{
    if n < 10 {
        seq![digit_char(n as int)]
    } else {
        decimal(n / 10).push(digit_char((n % 10) as int))
    }
}

/// `n` in lower-case hexadecimal, without leading zeros.
pub open spec fn hexadecimal(n: nat) -> Seq<char>
    decreases n,
{
    if n < 16 {
        seq![digit_char(n as int)]
    } else {
        hexadecimal(n / 16).push(digit_char((n % 16) as int))
    }
}

/// A byte as two lower-case hexadecimal digits.
pub open spec fn hex_pair(b: u8) -> Seq<char> {
    seq![digit_char(b as int / 16), digit_char(b as int % 16)]
}

fn digit(d: u8) -> (c: char)
    requires
        d < 16,
    ensures
        c == digit_char(d as int),
{
    if d < 10 {
        (48 + d) as char
    } else {
        (87 + d) as char
    }
}

/// Appends `n` in decimal.
pub fn push_decimal(s: &mut String, n: u64)
    ensures
        final(s)@ == old(s)@ + decimal(n as nat),
    decreases n,
{
    if n >= 10 {
        push_decimal(s, n / 10);
    }
    s.push(digit((n % 10) as u8));
}

/// Appends `n` in lower-case hexadecimal.
pub fn push_hexadecimal(s: &mut String, n: u64)
    ensures
        final(s)@ == old(s)@ + hexadecimal(n as nat),
    decreases n,
{
    if n >= 16 {
        push_hexadecimal(s, n / 16);
    }
    s.push(digit((n % 16) as u8));
}

/// Appends a byte as two lower-case hexadecimal digits.
pub fn push_hex_pair(s: &mut String, b: u8)
    ensures
        final(s)@ == old(s)@ + hex_pair(b),
{
    s.push(digit(b / 16));
    s.push(digit(b % 16));
}

// ---------------------------------------------------------------------------
// Characters
// ---------------------------------------------------------------------------

/// The characters of `s`, in order.
pub fn chars_of(s: &str) -> (v: Vec<char>)
    ensures
        v@ == s@,
{
    let mut v: Vec<char> = Vec::new();
    for c in it: s.chars()
        invariant
            v@ == s@.take(it.index()),
            it.seq() == s@,
    {
        v.push(c);
    }
    v
}

/// The string that holds the characters of `v`.
pub fn string_of(v: &Vec<char>) -> (s: String)
    ensures
        s@ == v@,
{
    let mut s = String::new();
    for i in 0..v.len()
        invariant
            s@ == v@.take(i as int),
    {
        s.push(v[i]);
    }
    assert(v@.take(v@.len() as int) =~= v@);
    s
}

/// A copy of `v[from..to]`.
pub fn sub_chars(v: &Vec<char>, from: usize, to: usize) -> (r: Vec<char>)
    requires
        from <= to <= v@.len(),
    ensures
        r@ == v@.subrange(from as int, to as int),
{
    let mut r: Vec<char> = Vec::new();
    for i in from..to
        invariant
            from <= to <= v@.len(),
            r@ == v@.subrange(from as int, i as int),
    {
        r.push(v[i]);
    }
    r
}

/// Whether the characters in `v` are those of `s`.
pub fn chars_are(v: &Vec<char>, s: &str) -> (r: bool)
    ensures
        r == (v@ == s@),
{
    let w = chars_of(s);
    if v.len() != w.len() {
        return false;
    }
    for i in 0..v.len()
        invariant
            v@.len() == w@.len(),
            w@ == s@,
            forall|j: int| 0 <= j < i ==> v@[j] == w@[j],
    {
        if v[i] != w[i] {
            return false;
        }
    }
    assert(v@ =~= w@);
    true
}

/// The Unicode `White_Space` property.
pub open spec fn is_white_space(c: char) -> bool {
    ||| 9 <= c as int <= 13
    ||| c as int == 0x20
    ||| c as int == 0x85
    ||| c as int == 0xA0
    ||| c as int == 0x1680
    ||| 0x2000 <= c as int <= 0x200A
    ||| c as int == 0x2028
    ||| c as int == 0x2029
    ||| c as int == 0x202F
    ||| c as int == 0x205F
    ||| c as int == 0x3000
}

/// Decides [`is_white_space`].
pub fn white_space(c: char) -> (r: bool)
    ensures
        r == is_white_space(c),
{
    let n: u32 = c as u32;
    (9 <= n && n <= 13) || n == 0x20 || n == 0x85 || n == 0xA0 || n == 0x1680 || (0x2000 <= n && n
        <= 0x200A) || n == 0x2028 || n == 0x2029 || n == 0x202F || n == 0x205F || n == 0x3000
}

/// The number of leading white-space characters of `s`.
pub open spec fn leading_space(s: Seq<char>) -> nat
    decreases s.len(),
{
    if s.len() > 0 && is_white_space(s[0]) {
        1 + leading_space(s.skip(1))
    } else {
        0
    }
}

/// The length of the longest prefix of `s` without white space.
pub open spec fn leading_word(s: Seq<char>) -> nat
    decreases s.len(),
{
    if s.len() > 0 && !is_white_space(s[0]) {
        1 + leading_word(s.skip(1))
    } else {
        0
    }
}

proof fn leading_bounds(s: Seq<char>)
    ensures
        leading_space(s) <= s.len(),
        leading_word(s) <= s.len(),
        leading_space(s) < s.len() ==> !is_white_space(s[leading_space(s) as int]),
        leading_word(s) < s.len() ==> is_white_space(s[leading_word(s) as int]),
        s.len() > 0 && !is_white_space(s[0]) ==> leading_word(s) > 0,
        forall|k: int| 0 <= k < leading_word(s) ==> !is_white_space(#[trigger] s[k]),
        forall|k: int| 0 <= k < leading_space(s) ==> is_white_space(#[trigger] s[k]),
    decreases s.len(),
{
    if s.len() > 0 {
        let t = s.skip(1);
        leading_bounds(t);
        assert forall|k: int| 0 <= k < leading_word(s) implies !is_white_space(#[trigger] s[k]) by {
            if k > 0 {
                assert(s[k] == t[k - 1]);
            }
        }
        assert forall|k: int| 0 <= k < leading_space(s) implies is_white_space(#[trigger] s[k]) by {
            if k > 0 {
                assert(s[k] == t[k - 1]);
            }
        }
        if is_white_space(s[0]) {
            if leading_space(s) < s.len() {
                assert(t[leading_space(t) as int] == s[leading_space(s) as int]);
            }
        } else {
            if leading_word(s) < s.len() {
                assert(t[leading_word(t) as int] == s[leading_word(s) as int]);
            }
        }
    }
}

/// The maximal runs of characters other than white space, in order.
pub open spec fn words(s: Seq<char>) -> Seq<Seq<char>>
    decreases s.len(),
    via words_decreases
{
    let t = s.skip(leading_space(s) as int);
    if t.len() == 0 {
        Seq::empty()
    } else {
        seq![t.take(leading_word(t) as int)] + words(t.skip(leading_word(t) as int))
    }
}

#[via_fn]
proof fn words_decreases(s: Seq<char>) {
    leading_bounds(s);
    let t = s.skip(leading_space(s) as int);
    leading_bounds(t);
    if t.len() > 0 {
        assert(t[0] == s[leading_space(s) as int]);
    }
}

proof fn leading_space_step(s: Seq<char>, i: int)
    requires
        0 <= i < s.len(),
        is_white_space(s[i]),
    ensures
        leading_space(s.skip(i)) == 1 + leading_space(s.skip(i + 1)),
{
    assert(s.skip(i).skip(1) =~= s.skip(i + 1));
}

proof fn leading_word_step(s: Seq<char>, i: int)
    requires
        0 <= i < s.len(),
        !is_white_space(s[i]),
    ensures
        leading_word(s.skip(i)) == 1 + leading_word(s.skip(i + 1)),
{
    assert(s.skip(i).skip(1) =~= s.skip(i + 1));
}

/// Splits at white space, as [`words`] says.
pub fn split_words(v: &Vec<char>) -> (r: Vec<Vec<char>>)
    ensures
        views(r@) == words(v@),
{
    let mut r: Vec<Vec<char>> = Vec::new();
    let mut i: usize = 0;
    assert(v@.skip(0) =~= v@);
    loop
        invariant
            i <= v@.len(),
            views(r@) + words(v@.skip(i as int)) == words(v@),
        ensures
            views(r@) == words(v@),
        decreases v@.len() - i,
    {
        let ghost rest = v@.skip(i as int);
        let mut j: usize = i;
        while j < v.len() && white_space(v[j])
            invariant
                i <= j <= v@.len(),
                rest == v@.skip(i as int),
                leading_space(rest) == (j - i) + leading_space(v@.skip(j as int)),
            decreases v@.len() - j,
        {
            proof {
                leading_space_step(v@, j as int);
            }
            j += 1;
        }
        assert(leading_space(v@.skip(j as int)) == 0);
        assert(rest.skip(leading_space(rest) as int) =~= v@.skip(j as int));
        if j == v.len() {
            assert(words(rest) =~= Seq::empty());
            assert(views(r@) =~= words(v@));
            break;
        }
        let ghost tail = v@.skip(j as int);
        let mut k: usize = j;
        while k < v.len() && !white_space(v[k])
            invariant
                j <= k <= v@.len(),
                tail == v@.skip(j as int),
                leading_word(tail) == (k - j) + leading_word(v@.skip(k as int)),
            decreases v@.len() - k,
        {
            proof {
                leading_word_step(v@, k as int);
            }
            k += 1;
        }
        assert(leading_word(v@.skip(k as int)) == 0);
        assert(tail.skip(leading_word(tail) as int) =~= v@.skip(k as int));
        assert(tail.take(leading_word(tail) as int) =~= v@.subrange(j as int, k as int));
        proof {
            leading_bounds(tail);
        }
        let word = sub_chars(v, j, k);
        let ghost before = views(r@);
        r.push(word);
        assert(views(r@) =~= before.push(word@));
        assert(words(rest) == seq![word@] + words(v@.skip(k as int)));
        assert(views(r@) + words(v@.skip(k as int)) =~= before + words(rest));
        i = k;
    }
    r
}

/// `s` without leading and trailing white space.
pub open spec fn trimmed(s: Seq<char>) -> Seq<char> {
    let t = s.skip(leading_space(s) as int);
    t.take(t.len() - leading_space(t.reverse()))
}

/// Removes leading and trailing white space.
pub fn trim(v: &Vec<char>) -> (r: Vec<char>)
    ensures
        r@ == trimmed(v@),
{
    let mut i: usize = 0;
    assert(v@.skip(0) =~= v@);
    while i < v.len() && white_space(v[i])
        invariant
            i <= v@.len(),
            leading_space(v@) == i + leading_space(v@.skip(i as int)),
        decreases v@.len() - i,
    {
        proof {
            leading_space_step(v@, i as int);
        }
        i += 1;
    }
    assert(leading_space(v@.skip(i as int)) == 0);
    let ghost t = v@.skip(i as int);
    let ghost back = t.reverse();
    let mut j: usize = v.len();
    assert(back.skip(0) =~= back);
    while j > i && white_space(v[j - 1])
        invariant
            i <= j <= v@.len(),
            t == v@.skip(i as int),
            back == t.reverse(),
            leading_space(back) == (v@.len() - j) + leading_space(back.skip(v@.len() - j)),
        decreases j,
    {
        proof {
            assert(back[v@.len() - j] == v@[j - 1]);
            leading_space_step(back, v@.len() - j);
        }
        j -= 1;
    }
    assert(leading_space(back.skip(v@.len() - j)) == 0) by {
        if j > i {
            assert(back.skip(v@.len() - j)[0] == v@[j - 1]);
        }
    }
    assert(trimmed(v@) =~= v@.subrange(i as int, j as int));
    sub_chars(v, i, j)
}

// ---------------------------------------------------------------------------
// Splitting at a character
// ---------------------------------------------------------------------------

/// The first position of `c` in `s`, or the length of `s` where it does not occur.
pub open spec fn find_char(s: Seq<char>, c: char) -> nat
    decreases s.len(),
{
    if s.len() == 0 || s[0] == c {
        0
    } else {
        1 + find_char(s.skip(1), c)
    }
}

/// [`find_char`] is a position of `c`, the first one, or the length.
pub proof fn find_char_properties(s: Seq<char>, c: char)
    ensures
        find_char(s, c) <= s.len(),
        find_char(s, c) < s.len() ==> s[find_char(s, c) as int] == c,
        forall|k: int| 0 <= k < find_char(s, c) ==> #[trigger] s[k] != c,
    decreases s.len(),
{
    if s.len() > 0 && s[0] != c {
        let t = s.skip(1);
        find_char_properties(t, c);
        assert forall|k: int| 0 <= k < find_char(s, c) implies #[trigger] s[k] != c by {
            if k > 0 {
                assert(s[k] == t[k - 1]);
            }
        }
        if find_char(s, c) < s.len() {
            assert(t[find_char(t, c) as int] == s[find_char(s, c) as int]);
        }
    }
}

/// A position of `c` with no `c` before it is the one that [`find_char`] gives.
pub proof fn find_char_unique(s: Seq<char>, c: char, i: int)
    requires
        0 <= i <= s.len(),
        i < s.len() ==> s[i] == c,
        forall|k: int| 0 <= k < i ==> s[k] != c,
    ensures
        find_char(s, c) == i,
{
    find_char_properties(s, c);
    if find_char(s, c) < i {
        assert(s[find_char(s, c) as int] != c);
    }
}

/// Finds the first position of `c` at or after `from`.
pub fn find_from(v: &Vec<char>, c: char, from: usize) -> (r: usize)
    requires
        from <= v@.len(),
    ensures
        from <= r <= v@.len(),
        r == from + find_char(v@.skip(from as int), c),
        r < v@.len() ==> v@[r as int] == c,
{
    let ghost tail = v@.skip(from as int);
    let mut i: usize = from;
    while i < v.len() && v[i] != c
        invariant
            from <= i <= v@.len(),
            forall|k: int| from <= k < i ==> v@[k] != c,
        decreases v@.len() - i,
    {
        i += 1;
    }
    proof {
        assert forall|k: int| 0 <= k < i - from implies tail[k] != c by {
            assert(tail[k] == v@[k + from]);
        }
        find_char_unique(tail, c, i - from);
    }
    i
}

/// The pieces of `s` between the occurrences of `c`; one more than there are occurrences.
pub open spec fn split(s: Seq<char>, c: char) -> Seq<Seq<char>>
    decreases s.len(),
{
    let i = find_char(s, c);
    if i >= s.len() {
        seq![s]
    } else {
        seq![s.take(i as int)] + split(s.skip((i + 1) as int), c)
    }
}

/// Splits at every `c`, as [`split`] says.
pub fn split_at_char(v: &Vec<char>, c: char) -> (r: Vec<Vec<char>>)
    ensures
        views(r@) == split(v@, c),
        r@.len() >= 1,
{
    let mut r: Vec<Vec<char>> = Vec::new();
    let mut start: usize = 0;
    assert(v@.skip(0) =~= v@);
    assert(views(r@) + split(v@, c) =~= split(v@, c));
    loop
        invariant_except_break
            start <= v@.len(),
            views(r@) + split(v@.skip(start as int), c) == split(v@, c),
        ensures
            views(r@) == split(v@, c),
            r@.len() >= 1,
        decreases v@.len() - start,
    {
        let ghost rest = v@.skip(start as int);
        let i: usize = find_from(v, c, start);
        let piece = sub_chars(v, start, i);
        assert(piece@ =~= rest.take(i - start));
        let ghost before = views(r@);
        r.push(piece);
        assert(views(r@) =~= before.push(piece@));
        if i == v.len() {
            assert(rest.take(i - start) =~= rest);
            assert(before + split(rest, c) =~= views(r@));
            break;
        }
        assert(rest.skip(i - start + 1) =~= v@.skip(i + 1));
        assert(views(r@) + split(v@.skip(i + 1), c) =~= before + split(rest, c));
        start = i + 1;
    }
    r
}

// ---------------------------------------------------------------------------
// Text to numbers
// ---------------------------------------------------------------------------

/// The value of a digit in the given radix (10 or 16), where `c` is one.
pub open spec fn digit_value(c: char, radix: int) -> Option<int> {
    let n = c as int;
    if 48 <= n <= 57 {
        Some(n - 48)
    } else if radix == 16 && 97 <= n <= 102 {
        Some(n - 87)
    } else if radix == 16 && 65 <= n <= 70 {
        Some(n - 55)
    } else {
        None
    }
}

/// The number that the digits of `s` write in the given radix; `None` where one is no digit.
pub open spec fn digits_value(s: Seq<char>, radix: int) -> Option<int>
    decreases s.len(),
{
    if s.len() == 0 {
        Some(0)
    } else {
        match (digits_value(s.drop_last(), radix), digit_value(s.last(), radix)) {
            (Some(v), Some(d)) => Some(v * radix + d),
            _ => None,
        }
    }
}

/// The number written by `s`: an optional `+`, then at least one digit, at most `max`.
pub open spec fn unsigned_value(s: Seq<char>, radix: int, max: int) -> Option<int> {
    let body = if s.len() > 0 && s[0] == '+' {
        s.skip(1)
    } else {
        s
    };
    match digits_value(body, radix) {
        Some(v) => if body.len() > 0 && v <= max {
            Some(v)
        } else {
            None
        },
        None => None,
    }
}

/// More digits never make a number smaller.
pub proof fn digits_value_grows(s: Seq<char>, n: int, radix: int)
    requires
        0 <= n <= s.len(),
        radix == 10 || radix == 16,
    ensures
        digits_value(s.take(n), radix) is None ==> digits_value(s, radix) is None,
        digits_value(s, radix) matches Some(v) ==> v >= 0 && digits_value(s.take(n), radix)
            is Some && digits_value(s.take(n), radix)->0 <= v,
    decreases s.len() - n,
{
    if n == s.len() {
        assert(s.take(n) =~= s);
        digits_value_nonnegative(s, radix);
    } else {
        digits_value_grows(s, n + 1, radix);
        assert(s.take(n + 1).drop_last() =~= s.take(n));
        digits_value_nonnegative(s.take(n), radix);
    }
}

proof fn digits_value_nonnegative(s: Seq<char>, radix: int)
    requires
        radix == 10 || radix == 16,
    ensures
        digits_value(s, radix) matches Some(v) ==> v >= 0,
    decreases s.len(),
{
    if s.len() > 0 {
        digits_value_nonnegative(s.drop_last(), radix);
    }
}

/// The number that text writes is not negative.
pub proof fn unsigned_value_nonnegative(s: Seq<char>, radix: int, max: int)
    requires
        radix == 10 || radix == 16,
    ensures
        unsigned_value(s, radix, max) matches Some(v) ==> 0 <= v <= max,
{
    digits_value_nonnegative(s, radix);
    if s.len() > 0 {
        digits_value_nonnegative(s.skip(1), radix);
    }
}

fn digit_of(c: char, radix: u64) -> (r: Option<u64>)
    requires
        radix == 10 || radix == 16,
    ensures
        match r {
            Some(d) => digit_value(c, radix as int) == Some(d as int) && d < 16,
            None => digit_value(c, radix as int) is None,
        },
{
    let n: u32 = c as u32;
    if 48 <= n && n <= 57 {
        Some((n - 48) as u64)
    } else if radix == 16 && 97 <= n && n <= 102 {
        Some((n - 87) as u64)
    } else if radix == 16 && 65 <= n && n <= 70 {
        Some((n - 55) as u64)
    } else {
        None
    }
}

/// Reads the digits of `v[from..]`, up to `max`.
pub fn parse_digits(v: &Vec<char>, from: usize, radix: u64, max: u64) -> (r: Option<u64>)
    requires
        from <= v@.len(),
        radix == 10 || radix == 16,
    ensures
        match r {
            Some(n) => digits_value(v@.skip(from as int), radix as int) == Some(n as int) && n
                <= max,
            None => match digits_value(v@.skip(from as int), radix as int) {
                Some(n) => n > max,
                None => true,
            },
        },
{
    let ghost s = v@.skip(from as int);
    let mut acc: u64 = 0;
    for i in from..v.len()
        invariant
            from <= v@.len(),
            s == v@.skip(from as int),
            radix == 10 || radix == 16,
            acc <= max,
            digits_value(s.take(i - from), radix as int) == Some(acc as int),
    {
        assert(s.take(i + 1 - from).drop_last() =~= s.take(i - from));
        proof {
            digits_value_grows(s, i + 1 - from, radix as int);
        }
        match digit_of(v[i], radix) {
            Some(d) => {
                assert(acc * radix <= u64::MAX * 16) by (nonlinear_arith)
                    requires
                        acc <= u64::MAX,
                        radix <= 16,
                ;
                let next: u128 = acc as u128 * radix as u128 + d as u128;
                if next > max as u128 {
                    return None;
                }
                acc = next as u64;
            },
            None => {
                return None;
            },
        }
    }
    assert(s.take(v@.len() - from) =~= s);
    Some(acc)
}

/// Reads an unsigned number, as [`unsigned_value`] says.
pub fn parse_unsigned(v: &Vec<char>, radix: u64, max: u64) -> (r: Option<u64>)
    requires
        radix == 10 || radix == 16,
    ensures
        match r {
            Some(n) => unsigned_value(v@, radix as int, max as int) == Some(n as int) && n <= max,
            None => unsigned_value(v@, radix as int, max as int) is None,
        },
{
    let from: usize = if v.len() > 0 && v[0] == '+' {
        1
    } else {
        0
    };
    assert(v@.skip(0) =~= v@);
    if v.len() == from {
        return None;
    }
    parse_digits(v, from, radix, max)
}

// ---------------------------------------------------------------------------
// Laws
// ---------------------------------------------------------------------------

proof fn leading_word_is(s: Seq<char>, n: int)
    requires
        0 <= n <= s.len(),
        forall|k: int| 0 <= k < n ==> !is_white_space(#[trigger] s[k]),
        n < s.len() ==> is_white_space(s[n]),
    ensures
        leading_word(s) == n,
{
    leading_bounds(s);
    let m = leading_word(s);
    if m < n {
        assert(!is_white_space(s[m as int]));
    } else if n < m {
        assert(!is_white_space(s[n]));
    }
}

/// A text is cut into words at its white space: white space in front does not count, and what stands
/// before the next white space is the first word.
pub proof fn words_are_between_white_space(w: Seq<char>, c: char, rest: Seq<char>)
    requires
        is_white_space(c),
        forall|k: int| 0 <= k < w.len() ==> !is_white_space(#[trigger] w[k]),
    ensures
        words(Seq::empty()).len() == 0,
        words(seq![c] + rest) == words(rest),
        w.len() > 0 ==> words(w) == seq![w],
        w.len() > 0 ==> words(w + seq![c] + rest) == seq![w] + words(rest),
{
    reveal_with_fuel(words, 2);
    leading_bounds(rest);
    let s = seq![c] + rest;
    assert(s.skip(1) =~= rest);
    assert(leading_space(s) == 1 + leading_space(rest));
    assert(s.skip(leading_space(s) as int) =~= rest.skip(leading_space(rest) as int));
    if w.len() > 0 {
        assert(!is_white_space(w[0]));
        assert(w.skip(0) =~= w);
        leading_word_is(w, w.len() as int);
        assert(w.take(w.len() as int) =~= w);
        assert(w.skip(w.len() as int) =~= Seq::<char>::empty());
        assert(words(Seq::<char>::empty()) =~= Seq::empty());
        assert(words(w) =~= seq![w]);
        let t = w + seq![c] + rest;
        assert forall|k: int| 0 <= k < w.len() implies !is_white_space(#[trigger] t[k]) by {
            assert(t[k] == w[k]);
        }
        assert(t[w.len() as int] == c);
        assert(!is_white_space(t[0]));
        assert(t.skip(0) =~= t);
        leading_word_is(t, w.len() as int);
        assert(t.take(w.len() as int) =~= w);
        assert(t.skip(w.len() as int) =~= s);
        assert(words(t) =~= seq![w] + words(s));
    }
}

/// Trimming takes white space away at both ends and nothing else.
pub proof fn trimming_takes_white_space_away(s: Seq<char>)
    ensures
        ({
            let a = leading_space(s) as int;
            let t = trimmed(s);
            &&& a + t.len() <= s.len()
            &&& t == s.subrange(a, a + t.len())
            &&& forall|k: int| 0 <= k < a ==> is_white_space(#[trigger] s[k])
            &&& forall|k: int| a + t.len() <= k < s.len() ==> is_white_space(#[trigger] s[k])
            &&& t.len() > 0 ==> !is_white_space(t[0]) && !is_white_space(t[t.len() - 1])
        }),
{
    leading_bounds(s);
    let a = leading_space(s) as int;
    let u = s.skip(a);
    let back = u.reverse();
    leading_bounds(back);
    let t = trimmed(s);
    assert(t =~= s.subrange(a, a + t.len()));
    assert forall|k: int| a + t.len() <= k < s.len() implies is_white_space(#[trigger] s[k]) by {
        let j = u.len() - 1 - (k - a);
        assert(back[j] == u[k - a]);
    }
    if t.len() > 0 {
        assert(t[t.len() - 1] == back[leading_space(back) as int]);
        assert(t[0] == s[a]);
    }
}

/// White space is what separates words in every script: the blank, the tab, the ends of lines, and
/// the wider and narrower spaces.
pub proof fn letters_are_no_white_space(c: char)
    requires
        33 <= c as int <= 126,
    ensures
        !is_white_space(c),
        is_white_space(' '),
        is_white_space('\t'),
        is_white_space('\n'),
        is_white_space('\r'),
{
}

/// A text is split at every occurrence of a character: the pieces are what stands between them.
pub proof fn pieces_are_between(a: Seq<char>, c: char, rest: Seq<char>)
    requires
        !a.contains(c),
    ensures
        split(a, c) == seq![a],
        split(a + seq![c] + rest, c) == seq![a] + split(rest, c),
{
    let s = a + seq![c] + rest;
    assert forall|k: int| 0 <= k < a.len() implies a[k] != c by {
        assert(a.contains(a[k]));
    }
    find_char_unique(a, c, a.len() as int);
    assert(s[a.len() as int] == c);
    find_char_unique(s, c, a.len() as int);
    assert(s.take(a.len() as int) =~= a);
    assert(s.skip(a.len() as int + 1) =~= rest);
}

/// Digits stand for themselves, letters in hexadecimal for ten to fifteen in either case, and nothing
/// else is a digit.
pub proof fn digits_stand_for_numbers(c: char)
    ensures
        digit_value(c, 10) is Some <==> '0' <= c <= '9',
        digit_value(c, 16) is Some <==> '0' <= c <= '9' || 'a' <= c <= 'f' || 'A' <= c <= 'F',
        '0' <= c <= '9' ==> digit_value(c, 10) == Some(c as int - '0' as int) && digit_value(c, 16) == Some(
            c as int - '0' as int,
        ),
        'a' <= c <= 'f' ==> digit_value(c, 16) == Some(10 + (c as int - 'a' as int)),
        'A' <= c <= 'F' ==> digit_value(c, 16) == Some(10 + (c as int - 'A' as int)),
{
}

/// A number is read digit by digit; it may have a plus in front, and it must fit.
pub proof fn numbers_are_read_digit_by_digit(s: Seq<char>, c: char, max: int)
    requires
        s.len() > 0,
        s[0] != '+',
        c != '+',
    ensures
        unsigned_value(seq!['+'] + s, 10, max) == unsigned_value(s, 10, max),
        unsigned_value(Seq::empty(), 10, max) is None,
        unsigned_value(seq!['+'], 10, max) is None,
        digits_value(s.push(c), 10) == match (digits_value(s, 10), digit_value(c, 10)) {
            (Some(v), Some(d)) => Some(v * 10 + d),
            _ => None,
        },
        unsigned_value(s, 10, max) == match digits_value(s, 10) {
            Some(v) => if v <= max {
                Some(v)
            } else {
                None
            },
            None => None,
        },
{
    let t = seq!['+'] + s;
    assert(t.skip(1) =~= s);
    assert(s.push(c).drop_last() =~= s);
    assert(seq!['+'].skip(1) =~= Seq::<char>::empty());
}

} // verus!
