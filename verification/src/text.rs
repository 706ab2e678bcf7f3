//! Character-level text handling: whitespace trimming, splitting on a
//! separator, joining, and decimal numbers, each specified over `Seq<char>`.
use vstd::prelude::*;

verus! {

/// The characters of an optional text.
pub open spec fn opt_text(s: Option<String>) -> Option<Seq<char>> {
    match s {
        Some(t) => Some(t@),
        None => None,
    }
}

/// Unicode `White_Space`: the characters for which `char::is_whitespace` holds.
pub open spec fn is_space(c: char) -> bool {
    let u = c as u32;
    ||| 0x09 <= u <= 0x0d
    ||| u == 0x20
    ||| u == 0x85
    ||| u == 0xa0
    ||| u == 0x1680
    ||| 0x2000 <= u <= 0x200a
    ||| u == 0x2028
    ||| u == 0x2029
    ||| u == 0x202f
    ||| u == 0x205f
    ||| u == 0x3000
}

/// Tests `is_space`.
pub fn char_is_space(c: char) -> (r: bool)
    ensures
        r == is_space(c),
{
    let u = c as u32;
    (0x09 <= u && u <= 0x0d) || u == 0x20 || u == 0x85 || u == 0xa0 || u == 0x1680 || (0x2000
        <= u && u <= 0x200a) || u == 0x2028 || u == 0x2029 || u == 0x202f || u == 0x205f || u
        == 0x3000
}

/// The characters of `s`, in order.
pub fn chars_of(s: &str) -> (v: Vec<char>)
    ensures
        v@ == s@,
{
    let mut v: Vec<char> = Vec::new();
    for c in it: s.chars()
        invariant
            v@ == it.seq().take(it.index() as int),
    {
        v.push(c);
    }
    v
}


/// `s` without its leading whitespace.
pub open spec fn trim_start(s: Seq<char>) -> Seq<char>
    decreases s.len(),
{
    if s.len() > 0 && is_space(s[0]) {
        trim_start(s.drop_first())
    } else {
        s
    }
}

/// `s` without its trailing whitespace.
pub open spec fn trim_end(s: Seq<char>) -> Seq<char>
    decreases s.len(),
{
    if s.len() > 0 && is_space(s.last()) {
        trim_end(s.drop_last())
    } else {
        s
    }
}

/// `s` without leading and trailing whitespace, as `str::trim` gives it.
pub open spec fn trim(s: Seq<char>) -> Seq<char> {
    trim_end(trim_start(s))
}

/// Neither end of `s` is whitespace.
pub open spec fn is_trimmed(s: Seq<char>) -> bool {
    s.len() > 0 ==> !is_space(s[0]) && !is_space(s.last())
}

proof fn lemma_trim_start_skip(s: Seq<char>, i: int)
    requires
        0 <= i <= s.len(),
        forall|k: int| 0 <= k < i ==> is_space(#[trigger] s[k]),
    ensures
        trim_start(s) == trim_start(s.skip(i)),
    decreases i,
{
    if i > 0 {
        assert(s.drop_first().skip(i - 1) =~= s.skip(i));
        lemma_trim_start_skip(s.drop_first(), i - 1);
    } else {
        assert(s.skip(0) =~= s);
    }
}

proof fn lemma_trim_end_take(s: Seq<char>, j: int)
    requires
        0 <= j <= s.len(),
        forall|k: int| j <= k < s.len() ==> is_space(#[trigger] s[k]),
    ensures
        trim_end(s) == trim_end(s.take(j)),
    decreases s.len() - j,
{
    if j < s.len() {
        assert(s.drop_last().take(j) =~= s.take(j));
        lemma_trim_end_take(s.drop_last(), j);
    } else {
        assert(s.take(j) =~= s);
    }
}

proof fn lemma_trim_end_prefix(s: Seq<char>)
    ensures
        trim_end(s).len() <= s.len(),
        trim_end(s) =~= s.take(trim_end(s).len() as int),
        trim_end(s).len() > 0 ==> !is_space(trim_end(s).last()),
    decreases s.len(),
{
    if s.len() > 0 && is_space(s.last()) {
        lemma_trim_end_prefix(s.drop_last());
    }
}

proof fn lemma_trim_start_suffix(s: Seq<char>)
    ensures
        trim_start(s).len() <= s.len(),
        trim_start(s) =~= s.skip(s.len() - trim_start(s).len()),
        trim_start(s).len() > 0 ==> !is_space(trim_start(s)[0]),
    decreases s.len(),
{
    if s.len() > 0 && is_space(s[0]) {
        lemma_trim_start_suffix(s.drop_first());
    }
}

/// What `trim` leaves has no whitespace at either end.
pub proof fn lemma_trim_is_trimmed(s: Seq<char>)
    ensures
        is_trimmed(trim(s)),
{
    let t = trim_start(s);
    lemma_trim_start_suffix(s);
    lemma_trim_end_prefix(t);
}

/// A trimmed text is its own trim.
pub proof fn lemma_trimmed_fixed(s: Seq<char>)
    requires
        is_trimmed(s),
    ensures
        trim(s) == s,
{
}

/// Trimming twice gives what trimming once gives.
pub proof fn lemma_trim_idempotent(s: Seq<char>)
    ensures
        trim(trim(s)) == trim(s),
{
    lemma_trim_is_trimmed(s);
    lemma_trimmed_fixed(trim(s));
}

proof fn lemma_trim_start_push(s: Seq<char>, c: char)
    ensures
        trim_start(s.push(c)) == (if trim_start(s).len() == 0 && is_space(c) {
            Seq::<char>::empty()
        } else {
            trim_start(s).push(c)
        }),
    decreases s.len(),
{
    if s.len() == 0 {
        assert(s.push(c) =~= seq![c]);
        assert(seq![c].drop_first() =~= Seq::<char>::empty());
        assert(trim_start(Seq::<char>::empty()) == Seq::<char>::empty());
        assert(trim_start(s) =~= Seq::<char>::empty());
        assert(Seq::<char>::empty().push(c) =~= seq![c]);
    } else {
        assert(s.push(c)[0] == s[0]);
        assert(s.push(c).drop_first() =~= s.drop_first().push(c));
        if is_space(s[0]) {
            lemma_trim_start_push(s.drop_first(), c);
        }
    }
}

/// Whitespace at either end never survives a trim: adding a whitespace
/// character in front of or behind a text does not change its trim.
pub proof fn lemma_trim_drops_outer_space(s: Seq<char>, c: char)
    requires
        is_space(c),
    ensures
        trim(s.push(c)) == trim(s),
        trim(seq![c] + s) == trim(s),
{
    lemma_trim_start_push(s, c);
    if trim_start(s).len() > 0 {
        assert(trim_start(s).push(c).drop_last() =~= trim_start(s));
    }
    assert((seq![c] + s).drop_first() =~= s);
}

/// The characters `char::is_whitespace` accepts: the Unicode `White_Space`
/// code points, among them tab, line feed, vertical tab, form feed, carriage
/// return, space, next line, no-break space, the en/em-width spaces, the line
/// and paragraph separators and the ideographic space. None of them survives at
/// either end of a trimmed text.
pub proof fn lemma_unicode_spaces_trimmed(s: Seq<char>)
    ensures
        forall|c: char|
            #![trigger s.push(c)]
            c == '\t' || c == '\n' || c == '\u{0b}' || c == '\u{0c}' || c == '\r' || c == ' '
                || c == '\u{85}' || c == '\u{a0}' || c == '\u{1680}' || ('\u{2000}' <= c
                <= '\u{200a}') || c == '\u{2028}' || c == '\u{2029}' || c == '\u{202f}' || c
                == '\u{205f}' || c == '\u{3000}' ==> trim(s.push(c)) == trim(s) && trim(seq![c]
                + s) == trim(s),
        trim(s.push('\r')) == trim(s),
        trim(s.push('\r').push('\n')) == trim(s),
        trim(seq!['\r']) == Seq::<char>::empty(),
{
    assert forall|c: char|
        #![trigger s.push(c)]
        c == '\t' || c == '\n' || c == '\u{0b}' || c == '\u{0c}' || c == '\r' || c == ' ' || c
            == '\u{85}' || c == '\u{a0}' || c == '\u{1680}' || ('\u{2000}' <= c <= '\u{200a}')
            || c == '\u{2028}' || c == '\u{2029}' || c == '\u{202f}' || c == '\u{205f}' || c
            == '\u{3000}' implies trim(s.push(c)) == trim(s) && trim(seq![c] + s) == trim(s) by {
        lemma_trim_drops_outer_space(s, c);
    }
    lemma_trim_drops_outer_space(s.push('\r'), '\n');
    lemma_trim_drops_outer_space(Seq::<char>::empty(), '\r');
    assert(Seq::<char>::empty().push('\r') =~= seq!['\r']);
    assert(trim(Seq::<char>::empty()) == Seq::<char>::empty());
}

/// The index range of `chars` that `trim` keeps.
fn trim_bounds(chars: &Vec<char>) -> (r: (usize, usize))
    ensures
        r.0 <= r.1 <= chars.len(),
        chars@.subrange(r.0 as int, r.1 as int) == trim(chars@),
{
    let n = chars.len();
    let mut i: usize = 0;
    while i < n && char_is_space(chars[i])
        invariant
            i <= n,
            n == chars.len(),
            forall|k: int| 0 <= k < i ==> is_space(#[trigger] chars@[k]),
        decreases n - i,
    {
        i = i + 1;
    }
    proof {
        lemma_trim_start_skip(chars@, i as int);
        if i < n {
            assert(trim_start(chars@.skip(i as int)) == chars@.skip(i as int));
        } else {
            assert(chars@.skip(i as int).len() == 0);
        }
    }
    let ghost rest = chars@.skip(i as int);
    let mut j: usize = n;
    while j > i && char_is_space(chars[j - 1])
        invariant
            i <= j <= n,
            n == chars.len(),
            rest == chars@.skip(i as int),
            forall|k: int| j <= k < n ==> is_space(#[trigger] chars@[k]),
        decreases j,
    {
        j = j - 1;
    }
    proof {
        assert forall|k: int| j - i <= k < rest.len() implies is_space(#[trigger] rest[k]) by {
            assert(rest[k] == chars@[k + i]);
        }
        lemma_trim_end_take(rest, j - i);
        assert(rest.take(j - i) =~= chars@.subrange(i as int, j as int));
        if j > i {
            assert(trim_end(rest.take(j - i)) == rest.take(j - i));
        }
    }
    (i, j)
}

/// `s` without leading and trailing whitespace (`str::trim`).
pub fn trim_text(s: &str) -> (r: String)
    ensures
        r@ == trim(s@),
{
    let chars = chars_of(s);
    let (a, b) = trim_bounds(&chars);
    s.substring_char(a, b).to_owned()
}


/// `sep` occurs in `s` at index `i`.
pub open spec fn occurs_at(s: Seq<char>, sep: Seq<char>, i: int) -> bool {
    0 <= i && i + sep.len() <= s.len() && s.subrange(i, i + sep.len()) == sep
}

/// `parts` with `p` put in front of its first part.
pub open spec fn prepend_first(p: Seq<char>, parts: Seq<Seq<char>>) -> Seq<Seq<char>> {
    parts.update(0, p + parts[0])
}

/// The fields of `s` between the non-overlapping occurrences of `sep`, taken
/// from the left (`str::split` with a non-empty string pattern).
pub open spec fn split_on(s: Seq<char>, sep: Seq<char>) -> Seq<Seq<char>>
    decreases s.len(),
{
    if s.len() == 0 {
        seq![Seq::<char>::empty()]
    } else if sep.len() > 0 && occurs_at(s, sep, 0) {
        seq![Seq::<char>::empty()] + split_on(s.skip(sep.len() as int), sep)
    } else {
        prepend_first(seq![s[0]], split_on(s.drop_first(), sep))
    }
}

/// `split_on` always yields at least one field.
pub proof fn lemma_split_nonempty(s: Seq<char>, sep: Seq<char>)
    ensures
        split_on(s, sep).len() >= 1,
    decreases s.len(),
{
    if s.len() == 0 {
    } else if sep.len() > 0 && occurs_at(s, sep, 0) {
        lemma_split_nonempty(s.skip(sep.len() as int), sep);
    } else {
        lemma_split_nonempty(s.drop_first(), sep);
    }
}

/// Whether `sep` occurs in `chars` at `i`.
fn occurs_in_at(chars: &Vec<char>, sep: &Vec<char>, i: usize) -> (r: bool)
    requires
        i <= chars.len(),
    ensures
        r == occurs_at(chars@, sep@, i as int),
{
    if sep.len() > chars.len() - i {
        return false;
    }
    let mut k: usize = 0;
    while k < sep.len()
        invariant
            k <= sep.len(),
            i + sep.len() <= chars.len(),
            forall|m: int| 0 <= m < k ==> chars@[i + m] == sep@[m],
        decreases sep.len() - k,
    {
        if chars[i + k] != sep[k] {
            assert(chars@.subrange(i as int, i + sep.len())[k as int] != sep@[k as int]);
            return false;
        }
        k = k + 1;
    }
    assert(chars@.subrange(i as int, i + sep.len()) =~= sep@);
    true
}

/// The fields of `s` between the occurrences of `sep` (`str::split`).
pub fn split_text(s: &str, sep: &str) -> (parts: Vec<String>)
    requires
        sep@.len() > 0,
    ensures
        parts.deep_view() == split_on(s@, sep@),
{
    let chars = chars_of(s);
    let sep_chars = chars_of(sep);
    let n = chars.len();
    let ghost v = chars@;
    let mut parts: Vec<String> = Vec::new();
    let mut start: usize = 0;
    let mut i: usize = 0;
    proof {
        assert(v.skip(0) =~= v);
        lemma_split_nonempty(v, sep@);
        assert(prepend_first(v.subrange(0, 0), split_on(v, sep@)) =~= split_on(v, sep@));
    }
    while i < n
        invariant
            start <= i <= n,
            n == chars.len(),
            v == chars@,
            v == s@,
            sep_chars@ == sep@,
            sep@.len() > 0,
            split_on(v, sep@) == parts.deep_view() + prepend_first(
                v.subrange(start as int, i as int),
                split_on(v.skip(i as int), sep@),
            ),
        decreases n - i,
    {
        let ghost rest = v.skip(i as int);
        proof {
            assert(rest.len() > 0);
        }
        if occurs_in_at(&chars, &sep_chars, i) {
            let piece = s.substring_char(start, i).to_owned();
            proof {
                assert(rest.subrange(0, sep@.len() as int) =~= v.subrange(
                    i as int,
                    i + sep@.len(),
                ));
                assert(occurs_at(rest, sep@, 0));
                assert(rest.skip(sep@.len() as int) =~= v.skip(i + sep@.len()));
                lemma_split_nonempty(v.skip(i + sep@.len()), sep@);
                let tail = split_on(v.skip(i + sep@.len()), sep@);
                assert(split_on(rest, sep@) == seq![Seq::<char>::empty()] + tail);
                assert(prepend_first(v.subrange(start as int, i as int), split_on(rest, sep@))
                    =~= seq![v.subrange(start as int, i as int)] + tail);
                assert(prepend_first(v.subrange(i + sep@.len(), i + sep@.len()), tail) =~= tail);
            }
            let ghost before = parts.deep_view();
            parts.push(piece);
            proof {
                assert(parts.deep_view() =~= before.push(v.subrange(start as int, i as int))) by {
                    assert(parts@.last()@ == v.subrange(start as int, i as int));
                };
            }
            i = i + sep_chars.len();
            start = i;
        } else {
            proof {
                assert(!occurs_at(rest, sep@, 0)) by {
                    if occurs_at(rest, sep@, 0) {
                        assert(rest.subrange(0, sep@.len() as int) =~= v.subrange(
                            i as int,
                            i + sep@.len(),
                        ));
                    }
                }
                assert(rest.drop_first() =~= v.skip(i + 1));
                lemma_split_nonempty(v.skip(i + 1), sep@);
                let tail = split_on(v.skip(i + 1), sep@);
                assert(split_on(rest, sep@) == prepend_first(seq![v[i as int]], tail));
                assert(v.subrange(start as int, i + 1) =~= v.subrange(start as int, i as int)
                    + seq![v[i as int]]);
                assert(v.subrange(start as int, i as int) + (seq![v[i as int]] + tail[0])
                    =~= v.subrange(start as int, i + 1) + tail[0]);
                assert(prepend_first(v.subrange(start as int, i as int), split_on(rest, sep@))
                    =~= prepend_first(v.subrange(start as int, i + 1), tail));
            }
            i = i + 1;
        }
    }
    let last = s.substring_char(start, n).to_owned();
    proof {
        assert(v.skip(n as int).len() == 0);
        assert(split_on(v.skip(n as int), sep@) == seq![Seq::<char>::empty()]);
        assert(prepend_first(v.subrange(start as int, n as int), seq![Seq::<char>::empty()])
            =~= seq![v.subrange(start as int, n as int)]);
    }
    let ghost before = parts.deep_view();
    parts.push(last);
    proof {
        assert(parts.deep_view() =~= before.push(v.subrange(start as int, n as int))) by {
            assert(parts@.last()@ == v.subrange(start as int, n as int));
        };
    }
    parts
}


/// An ASCII decimal digit.
pub open spec fn is_digit(c: char) -> bool {
    0x30 <= (c as u32) <= 0x39
}

/// The value of the ASCII digit `c`.
pub open spec fn digit_value(c: char) -> nat {
    ((c as u32) - 0x30) as nat
}

/// The character of the decimal digit `d` (below ten).
pub open spec fn digit_char(d: nat) -> char {
    (d + 0x30) as char
}

/// The number that the digit string `d` writes in base ten.
pub open spec fn digits_value(d: Seq<char>) -> nat
    decreases d.len(),
{
    if d.len() == 0 {
        0
    } else {
        digits_value(d.drop_last()) * 10 + digit_value(d.last())
    }
}

/// Every character of `d` is an ASCII digit.
pub open spec fn all_digits(d: Seq<char>) -> bool {
    forall|i: int| 0 <= i < d.len() ==> is_digit(#[trigger] d[i])
}

/// What `str::parse::<u64>` gives: an optional `+`, then one or more ASCII
/// digits whose value fits in a `u64`; anything else is no number.
pub open spec fn parse_decimal(s: Seq<char>) -> Option<u64> {
    let d = if s.len() > 0 && s[0] == '+' {
        s.drop_first()
    } else {
        s
    };
    if d.len() > 0 && all_digits(d) && digits_value(d) <= u64::MAX {
        Some(digits_value(d) as u64)
    } else {
        None
    }
}

/// The decimal notation of `n`, without leading zeros (`u64`'s `Display`).
pub open spec fn decimal(n: nat) -> Seq<char>
    decreases n,
{
    if n < 10 {
        seq![digit_char(n)]
    } else {
        decimal(n / 10).push(digit_char(n % 10))
    }
}

proof fn lemma_digits_value_prefix(d: Seq<char>, k: int)
    requires
        0 <= k <= d.len(),
    ensures
        digits_value(d.take(k)) <= digits_value(d),
    decreases d.len() - k,
{
    if k < d.len() {
        lemma_digits_value_prefix(d, k + 1);
        assert(d.take(k + 1).drop_last() =~= d.take(k));
    } else {
        assert(d.take(k) =~= d);
    }
}

proof fn lemma_decimal_digits(n: nat)
    ensures
        decimal(n).len() > 0,
        all_digits(decimal(n)),
        digits_value(decimal(n)) == n,
    decreases n,
{
    if n >= 10 {
        lemma_decimal_digits(n / 10);
        let d = decimal(n);
        assert(d.drop_last() =~= decimal(n / 10));
        assert(digit_value(digit_char(n % 10)) == n % 10);
        assert(n == (n / 10) * 10 + n % 10);
        assert(d.last() == digit_char(n % 10));
        assert(digits_value(d) == digits_value(decimal(n / 10)) * 10 + n % 10);
        assert(all_digits(d)) by {
            assert forall|i: int| 0 <= i < d.len() implies is_digit(#[trigger] d[i]) by {
                if i < d.len() - 1 {
                    assert(d[i] == decimal(n / 10)[i]);
                }
            }
        }
    } else {
        let d = decimal(n);
        assert(d.drop_last() =~= Seq::<char>::empty());
        assert(digit_value(digit_char(n)) == n);
        assert(digits_value(Seq::<char>::empty()) == 0);
        assert(digits_value(d) == n);
    }
}

/// Reading back the decimal notation of a number gives the number.
pub proof fn lemma_decimal_roundtrip(n: u64)
    ensures
        parse_decimal(decimal(n as nat)) == Some(n),
{
    lemma_decimal_digits(n as nat);
    assert(is_digit(decimal(n as nat)[0]));
}

/// The number `s` writes in decimal (`str::parse::<u64>`), `None` where it
/// writes none.
pub fn parse_u64(s: &str) -> (r: Option<u64>)
    ensures
        r == parse_decimal(s@),
{
    let chars = chars_of(s);
    let n = chars.len();
    let mut i: usize = 0;
    if n > 0 && chars[0] == '+' {
        i = 1;
    }
    let ghost d = chars@.skip(i as int);
    proof {
        if n > 0 && chars@[0] == '+' {
            assert(d =~= s@.drop_first());
        } else {
            assert(d =~= s@);
        }
    }
    if i == n {
        return None;
    }
    let start = i;
    let mut acc: u64 = 0;
    while i < n
        invariant
            start <= i <= n,
            n == chars.len(),
            d == chars@.skip(start as int),
            d.len() > 0,
            parse_decimal(s@) == (if all_digits(d) && digits_value(d) <= u64::MAX {
                Some(digits_value(d) as u64)
            } else {
                None
            }),
            all_digits(d.take(i - start)),
            acc == digits_value(d.take(i - start)),
        decreases n - i,
    {
        let c = chars[i];
        let ghost k = i - start;
        let u = c as u32;
        if u < 0x30 || u > 0x39 {
            proof {
                assert(d[k] == c);
            }
            return None;
        }
        let dv = (u - 0x30) as u64;
        proof {
            assert(d.take(k + 1).drop_last() =~= d.take(k));
            assert(d.take(k + 1).last() == c);
        }
        match acc.checked_mul(10) {
            None => {
                proof {
                    lemma_digits_value_prefix(d, k + 1);
                }
                return None;
            },
            Some(m) => match m.checked_add(dv) {
                None => {
                    proof {
                        lemma_digits_value_prefix(d, k + 1);
                    }
                    return None;
                },
                Some(a) => {
                    acc = a;
                },
            },
        }
        proof {
            assert forall|j: int| 0 <= j < k + 1 implies is_digit(#[trigger] d.take(k + 1)[j]) by {
                if j < k {
                    assert(d.take(k + 1)[j] == d.take(k)[j]);
                }
            }
        }
        i = i + 1;
    }
    proof {
        assert(d.take(n - start) =~= d);
    }
    Some(acc)
}

/// Appends `c` to `s` (`String::push`).
#[verifier::external_body]
fn push_char(s: &mut String, c: char)
    ensures
        final(s)@ == old(s)@.push(c),
{
    s.push(c);
}

/// The string of the characters `cs`.
pub fn string_of_chars(cs: &Vec<char>) -> (r: String)
    ensures
        r@ == cs@,
{
    let mut r = String::new();
    for i in 0..cs.len()
        invariant
            r@ == cs@.take(i as int),
    {
        push_char(&mut r, cs[i]);
        proof {
            assert(cs@.take(i + 1) =~= cs@.take(i as int).push(cs@[i as int]));
        }
    }
    proof {
        assert(cs@.take(cs.len() as int) =~= cs@);
    }
    r
}

/// The decimal notation of `n` (`u64::to_string`).
pub fn format_u64(n: u64) -> (r: String)
    ensures
        r@ == decimal(n as nat),
{
    let mut m = n;
    let mut digits: Vec<char> = Vec::new();
    while m >= 10
        invariant
            decimal(n as nat) == decimal(m as nat) + digits@,
        decreases m,
    {
        let c = ((m % 10) as u8 + 0x30u8) as char;
        proof {
            assert(c == digit_char((m % 10) as nat));
            assert(decimal(m as nat) == decimal((m / 10) as nat).push(c));
            assert(decimal((m / 10) as nat).push(c) + digits@ =~= decimal((m / 10) as nat) + digits@.insert(0, c));
        }
        digits.insert(0, c);
        m = m / 10;
    }
    let c = (m as u8 + 0x30u8) as char;
    let ghost prev = digits@;
    digits.insert(0, c);
    proof {
        assert(decimal(m as nat) == seq![c]);
        assert(seq![c] + prev =~= digits@);
    }
    string_of_chars(&digits)
}


/// The parts joined with `sep` between each two of them (`[String]::join`).
pub open spec fn join_with(parts: Seq<Seq<char>>, sep: Seq<char>) -> Seq<char>
    decreases parts.len(),
{
    if parts.len() == 0 {
        Seq::empty()
    } else if parts.len() == 1 {
        parts[0]
    } else {
        join_with(parts.drop_last(), sep) + sep + parts.last()
    }
}

/// The parts joined with `sep` between each two of them (`[String]::join`).
pub fn join_text(parts: &Vec<String>, sep: &str) -> (r: String)
    ensures
        r@ == join_with(parts.deep_view(), sep@),
{
    let mut r = String::new();
    let ghost pv = parts.deep_view();
    for i in 0..parts.len()
        invariant
            pv == parts.deep_view(),
            pv.len() == parts.len(),
            r@ == join_with(pv.take(i as int), sep@),
    {
        proof {
            assert(pv.take(i + 1).drop_last() =~= pv.take(i as int));
            assert(pv[i as int] == parts@[i as int]@);
        }
        if i > 0 {
            r.append(sep);
        }
        r.append(parts[i].as_str());
        proof {
            if i == 0 {
                assert(pv.take(1) =~= seq![pv[0]]);
            }
        }
    }
    proof {
        assert(pv.take(parts.len() as int) =~= pv);
    }
    r
}


proof fn lemma_join_cons(a: Seq<char>, parts: Seq<Seq<char>>, sep: Seq<char>)
    requires
        parts.len() >= 1,
    ensures
        join_with(seq![a] + parts, sep) == a + sep + join_with(parts, sep),
    decreases parts.len(),
{
    let all = seq![a] + parts;
    assert(all.last() == parts.last());
    if parts.len() == 1 {
        assert(all.drop_last() =~= seq![a]);
        assert(join_with(seq![a], sep) == a);
    } else {
        assert(all.drop_last() =~= seq![a] + parts.drop_last());
        lemma_join_cons(a, parts.drop_last(), sep);
        assert(a + sep + join_with(parts.drop_last(), sep) + sep + parts.last() =~= a + sep + (
        join_with(parts.drop_last(), sep) + sep + parts.last()));
    }
}

proof fn lemma_join_prepend(p: Seq<char>, parts: Seq<Seq<char>>, sep: Seq<char>)
    requires
        parts.len() >= 1,
    ensures
        join_with(prepend_first(p, parts), sep) == p + join_with(parts, sep),
    decreases parts.len(),
{
    let all = prepend_first(p, parts);
    if parts.len() > 1 {
        assert(all.drop_last() =~= prepend_first(p, parts.drop_last()));
        lemma_join_prepend(p, parts.drop_last(), sep);
        assert(p + join_with(parts.drop_last(), sep) + sep + parts.last() =~= p + (join_with(
            parts.drop_last(),
            sep,
        ) + sep + parts.last()));
    }
}

/// Joining the fields of a split with its separator gives back the text.
pub proof fn lemma_split_join(s: Seq<char>, sep: Seq<char>)
    requires
        sep.len() > 0,
    ensures
        join_with(split_on(s, sep), sep) == s,
    decreases s.len(),
{
    if s.len() == 0 {
        assert(join_with(seq![Seq::<char>::empty()], sep) == Seq::<char>::empty());
    } else if occurs_at(s, sep, 0) {
        let rest = s.skip(sep.len() as int);
        lemma_split_join(rest, sep);
        lemma_split_nonempty(rest, sep);
        lemma_join_cons(Seq::empty(), split_on(rest, sep), sep);
        assert(s.subrange(0, sep.len() as int) == sep);
        assert(Seq::<char>::empty() + sep + rest =~= s);
    } else {
        let rest = s.drop_first();
        lemma_split_join(rest, sep);
        lemma_split_nonempty(rest, sep);
        lemma_join_prepend(seq![s[0]], split_on(rest, sep), sep);
        assert(seq![s[0]] + rest =~= s);
    }
}

} // verus!
