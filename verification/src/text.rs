//! Text: comparison, white space, decimal numerals, splitting, joining and
//! trimming, and the text functions of the standard library that are taken
//! on trust.

use vstd::prelude::*;
use vstd::string::*;

verus! {

/// A code point with the Unicode property White_Space.
pub open spec fn is_space(c: char) -> bool {
    let n = c as u32;
    ||| 0x09 <= n <= 0x0D
    ||| n == 0x20
    ||| n == 0x85
    ||| n == 0xA0
    ||| n == 0x1680
    ||| 0x2000 <= n <= 0x200A
    ||| n == 0x2028
    ||| n == 0x2029
    ||| n == 0x202F
    ||| n == 0x205F
    ||| n == 0x3000
}

/// The text is empty or holds white space only.
pub open spec fn blank(s: Seq<char>) -> bool {
    forall|i: int| 0 <= i < s.len() ==> is_space(#[trigger] s[i])
}

/// Whether a character is white space.
pub fn char_is_space(c: char) -> (r: bool)
    ensures
        r == is_space(c),
{
    let n: u32 = c as u32;
    (0x09 <= n && n <= 0x0D) || n == 0x20 || n == 0x85 || n == 0xA0 || n == 0x1680 || (0x2000
        <= n && n <= 0x200A) || n == 0x2028 || n == 0x2029 || n == 0x202F || n == 0x205F || n
        == 0x3000
}

/// Whether a text is empty or holds white space only.
pub fn is_blank(s: &str) -> (r: bool)
    ensures
        r == blank(s@),
{
    let mut all: bool = true;
    for c in it: s.chars()
        invariant
            it.seq() == s@,
            all == (forall|i: int| 0 <= i < it.index() ==> is_space(#[trigger] s@[i])),
    {
        all = all && char_is_space(c);
    }
    all
}

/// The decimal digit for a value below ten.
pub open spec fn digit(d: int) -> char {
    if d == 0 {
        '0'
    } else if d == 1 {
        '1'
    } else if d == 2 {
        '2'
    } else if d == 3 {
        '3'
    } else if d == 4 {
        '4'
    } else if d == 5 {
        '5'
    } else if d == 6 {
        '6'
    } else if d == 7 {
        '7'
    } else if d == 8 {
        '8'
    } else {
        '9'
    }
}

/// The decimal numeral of a natural number, without leading zeros.
pub open spec fn decimal(n: nat) -> Seq<char>
    decreases n,
{
    if n < 10 {
        seq![digit(n as int)]
    } else {
        decimal(n / 10).push(digit((n % 10) as int))
    }
}

/// The decimal numeral of an integer: a minus sign before a negative one.
pub open spec fn signed_decimal(n: int) -> Seq<char> {
    if n < 0 {
        seq!['-'] + decimal((-n) as nat)
    } else {
        decimal(n as nat)
    }
}

fn digit_str(d: u64) -> (r: &'static str)
    requires
        d < 10,
    ensures
        r@ == seq![digit(d as int)],
{
    proof {
        reveal_strlit("0");
        reveal_strlit("1");
        reveal_strlit("2");
        reveal_strlit("3");
        reveal_strlit("4");
        reveal_strlit("5");
        reveal_strlit("6");
        reveal_strlit("7");
        reveal_strlit("8");
        reveal_strlit("9");
    }
    let r = if d == 0 {
        "0"
    } else if d == 1 {
        "1"
    } else if d == 2 {
        "2"
    } else if d == 3 {
        "3"
    } else if d == 4 {
        "4"
    } else if d == 5 {
        "5"
    } else if d == 6 {
        "6"
    } else if d == 7 {
        "7"
    } else if d == 8 {
        "8"
    } else {
        "9"
    };
    assert(r@ =~= seq![digit(d as int)]);
    r
}

/// The decimal numeral of `n`.
pub fn u64_to_string(n: u64) -> (r: String)
    ensures
        r@ == decimal(n as nat),
    decreases n,
{
    if n < 10 {
        digit_str(n).to_owned()
    } else {
        let mut s = u64_to_string(n / 10);
        s.append(digit_str(n % 10));
        assert(s@ =~= decimal(n as nat));
        s
    }
}

/// The decimal numeral of `n`, with a minus sign where it is negative.
pub fn i64_to_string(n: i64) -> (r: String)
    ensures
        r@ == signed_decimal(n as int),
{
    if n < 0 {
        let magnitude: u64 = (-(n as i128)) as u64;
        let mut s = "-".to_owned();
        let digits = u64_to_string(magnitude);
        s.append(digits.as_str());
        proof {
            reveal_strlit("-");
            assert(s@ =~= signed_decimal(n as int));
        }
        s
    } else {
        u64_to_string(n as u64)
    }
}

/// An ASCII decimal digit.
pub open spec fn is_digit(c: char) -> bool {
    0x30 <= c as u32 <= 0x39
}

/// The value of a run of decimal digits, most significant first.
pub open spec fn digits_value(s: Seq<char>) -> nat
    decreases s.len(),
{
    if s.len() == 0 {
        0
    } else {
        (digits_value(s.drop_last()) * 10 + (s.last() as u32 - 0x30)) as nat
    }
}

/// Whether every character is a decimal digit.
pub open spec fn all_digits(s: Seq<char>) -> bool {
    forall|i: int| 0 <= i < s.len() ==> is_digit(#[trigger] s[i])
}

/// What follows an optional leading plus sign.
pub open spec fn unsigned_body(s: Seq<char>) -> Seq<char> {
    if s.len() > 0 && s[0] == '+' {
        s.subrange(1, s.len() as int)
    } else {
        s
    }
}

/// The number that a numeral without a minus sign denotes: an optional plus
/// sign, then one or more decimal digits and nothing else.
pub open spec fn unsigned_numeral(s: Seq<char>) -> Option<nat> {
    let body = unsigned_body(s);
    if body.len() > 0 && all_digits(body) {
        Some(digits_value(body))
    } else {
        None
    }
}

/// The `u64` that the text denotes, if it is a numeral within range.
pub open spec fn u64_numeral(s: Seq<char>) -> Option<u64> {
    match unsigned_numeral(s) {
        Some(v) => if v <= u64::MAX {
            Some(v as u64)
        } else {
            None
        },
        None => None,
    }
}

/// Reads a `u64` from its decimal numeral: an optional plus sign, then
/// digits only.
pub fn parse_u64(s: &str) -> (r: Option<u64>)
    ensures
        r == u64_numeral(s@),
{
    let mut acc: u64 = 0;
    let mut overflowed: bool = false;
    let mut valid: bool = true;
    let mut any: bool = false;
    let ghost mut count: int = 0;
    let mut signed: bool = false;
    for c in it: s.chars()
        invariant
            it.seq() == s@,
            signed <==> it.index() >= 1 && s@[0] == '+',
            count == it.index() - (if signed { 1int } else { 0int }),
            0 <= count <= it.index(),
            any == (count > 0),
            valid == all_digits(s@.subrange(it.index() - count, it.index() as int)),
            valid && !overflowed ==> acc == digits_value(
                s@.subrange(it.index() - count, it.index() as int),
            ),
            valid && overflowed ==> digits_value(
                s@.subrange(it.index() - count, it.index() as int),
            ) > u64::MAX,
    {
        let ghost k = it.index();
        let ghost before = s@.subrange(k - count, k);
        if !any && !signed && c == '+' {
            signed = true;
            assert(s@.subrange(k + 1 - count, k + 1) =~= Seq::<char>::empty());
        } else {
            let ghost after = s@.subrange(k - count, k + 1);
            assert(after.drop_last() =~= before);
            assert(after.last() == c);
            let n: u32 = c as u32;
            if 0x30 <= n && n <= 0x39 {
                let d: u64 = (n - 0x30) as u64;
                if valid && !overflowed {
                    if acc > (u64::MAX - d) / 10 {
                        overflowed = true;
                    } else {
                        acc = acc * 10 + d;
                    }
                }
                assert(valid ==> all_digits(after)) by {
                    if valid {
                        assert forall|i: int| 0 <= i < after.len() implies is_digit(
                            #[trigger] after[i],
                        ) by {
                            if i < before.len() {
                                assert(after[i] == before[i]);
                            }
                        }
                    }
                }
                assert(!valid ==> !all_digits(after)) by {
                    if !valid {
                        let j = choose|j: int| 0 <= j < before.len() && !is_digit(before[j]);
                        assert(after[j] == before[j]);
                    }
                }
            } else {
                valid = false;
                assert(!is_digit(after[after.len() - 1]));
            }
            any = true;
            proof {
                count = count + 1;
            }
        }
    }
    proof {
        let body = unsigned_body(s@);
        assert(body =~= s@.subrange(s@.len() - count, s@.len() as int));
    }
    if any && valid && !overflowed {
        Some(acc)
    } else {
        None
    }
}

/// Whether two texts hold the same characters in the same order.
pub(crate) fn str_eq(a: &str, b: &str) -> (r: bool)
    ensures
        r == (a@ == b@),
{
    let x = chars_of(a);
    let y = chars_of(b);
    if x.len() != y.len() {
        return false;
    }
    let mut i: usize = 0;
    while i < x.len()
        invariant
            i <= x.len(),
            x.len() == y.len(),
            x@ == a@,
            y@ == b@,
            forall|j: int| 0 <= j < i ==> x@[j] == y@[j],
        decreases x.len() - i,
    {
        if x[i] != y[i] {
            return false;
        }
        i = i + 1;
    }
    assert(a@ =~= b@);
    true
}

/// Appends one character with `String::push`.
#[verifier::external_body]
pub(crate) fn push_char(s: &mut String, c: char)
    ensures
        final(s)@ == old(s)@.push(c),
{
    s.push(c)
}

/// The lowercase form that `str::to_lowercase` gives a text.
pub uninterp spec fn lowercase_of(s: Seq<char>) -> Seq<char>;

/// The uppercase form that `str::to_uppercase` gives a text.
pub uninterp spec fn uppercase_of(s: Seq<char>) -> Seq<char>;

/// Lowercases with `str::to_lowercase`, whose result follows the Unicode
/// case tables and depends on the text alone.
#[verifier::external_body]
pub(crate) fn to_lowercase(s: &str) -> (r: String)
    ensures
        r@ == lowercase_of(s@),
{
    s.to_lowercase()
}

/// Uppercases with `str::to_uppercase`, whose result follows the Unicode
/// case tables and depends on the text alone.
#[verifier::external_body]
pub(crate) fn to_uppercase(s: &str) -> (r: String)
    ensures
        r@ == uppercase_of(s@),
{
    s.to_uppercase()
}

/// The texts of `parts` with `sep` between each two neighbours.
pub open spec fn joined(parts: Seq<Seq<char>>, sep: Seq<char>) -> Seq<char>
    decreases parts.len(),
{
    if parts.len() == 0 {
        Seq::empty()
    } else if parts.len() == 1 {
        parts[0]
    } else {
        joined(parts.drop_last(), sep) + sep + parts.last()
    }
}

/// Joins `parts` with `sep` between each two neighbours.
pub fn join(parts: &Vec<String>, sep: &str) -> (r: String)
    ensures
        r@ == joined(texts(parts@), sep@),
{
    let ghost views = texts(parts@);
    let mut r = String::new();
    let mut i: usize = 0;
    while i < parts.len()
        invariant
            i <= parts.len(),
            views == texts(parts@),
            r@ == joined(views.take(i as int), sep@),
        decreases parts.len() - i,
    {
        let ghost prefix = views.take(i as int + 1);
        assert(prefix.drop_last() =~= views.take(i as int));
        assert(prefix.last() == parts@[i as int]@);
        if i > 0 {
            r.append(sep);
        }
        r.append(parts[i].as_str());
        proof {
            if i == 0 {
                assert(r@ =~= joined(prefix, sep@));
            } else {
                assert(r@ =~= joined(prefix, sep@));
            }
        }
        i = i + 1;
    }
    assert(views.take(parts.len() as int) =~= views);
    r
}

/// A control code: a code point of the general category Cc.
pub open spec fn is_control(c: char) -> bool {
    let n = c as u32;
    n <= 0x1F || (0x7F <= n <= 0x9F)
}

/// Whether a character is a control code.
pub fn char_is_control(c: char) -> (r: bool)
    ensures
        r == is_control(c),
{
    let n: u32 = c as u32;
    n <= 0x1F || (0x7F <= n && n <= 0x9F)
}

/// The characters of `s` that are no control codes, in order.
pub open spec fn printable(s: Seq<char>) -> Seq<char>
    decreases s.len(),
{
    if s.len() == 0 {
        s
    } else if is_control(s.last()) {
        printable(s.drop_last())
    } else {
        printable(s.drop_last()).push(s.last())
    }
}

/// The pieces of `s` between the occurrences of `sep`: one more piece than
/// there are occurrences, each possibly empty.
pub open spec fn split_on(s: Seq<char>, sep: char) -> Seq<Seq<char>>
    decreases s.len(),
{
    if s.len() == 0 {
        seq![Seq::empty()]
    } else {
        let rest = split_on(s.drop_last(), sep);
        if s.last() == sep {
            rest.push(Seq::empty())
        } else {
            rest.drop_last().push(rest.last().push(s.last()))
        }
    }
}

/// The characters of each text of a sequence.
pub open spec fn texts(v: Seq<String>) -> Seq<Seq<char>> {
    Seq::new(v.len(), |i: int| v[i]@)
}

/// Splits a text at every occurrence of `sep`.
pub fn split(s: &str, sep: char) -> (r: Vec<String>)
    ensures
        texts(r@) == split_on(s@, sep),
        r@.len() >= 1,
{
    let mut pieces: Vec<String> = Vec::new();
    let mut current = String::new();
    assert(texts(pieces@).push(current@) =~= split_on(s@.take(0), sep));
    for c in it: s.chars()
        invariant
            it.seq() == s@,
            texts(pieces@).push(current@) == split_on(s@.take(it.index() as int), sep),
    {
        let ghost k = it.index() as int;
        let ghost prefix = s@.take(k + 1);
        let ghost rest = split_on(s@.take(k), sep);
        assert(prefix.drop_last() =~= s@.take(k));
        assert(prefix.last() == c);
        assert(rest.drop_last() =~= texts(pieces@));
        assert(rest.last() == current@);
        if c == sep {
            pieces.push(current);
            current = String::new();
            assert(texts(pieces@).push(current@) =~= rest.push(Seq::empty()));
        } else {
            push_char(&mut current, c);
            assert(texts(pieces@).push(current@) =~= rest.drop_last().push(
                rest.last().push(c),
            ));
        }
    }
    assert(s@.take(s@.len() as int) =~= s@);
    let ghost done = texts(pieces@);
    pieces.push(current);
    assert(texts(pieces@) =~= done.push(current@));
    pieces
}

/// A text without the white space at its start.
pub open spec fn trim_start(s: Seq<char>) -> Seq<char>
    decreases s.len(),
{
    if s.len() > 0 && is_space(s[0]) {
        trim_start(s.drop_first())
    } else {
        s
    }
}

/// A text without the white space at its end.
pub open spec fn trim_end(s: Seq<char>) -> Seq<char>
    decreases s.len(),
{
    if s.len() > 0 && is_space(s.last()) {
        trim_end(s.drop_last())
    } else {
        s
    }
}

/// A text without the white space at its start and at its end.
pub open spec fn trimmed(s: Seq<char>) -> Seq<char> {
    trim_end(trim_start(s))
}

proof fn lemma_trim_start(s: Seq<char>, a: int)
    requires
        0 <= a <= s.len(),
        forall|i: int| 0 <= i < a ==> is_space(#[trigger] s[i]),
        a == s.len() || !is_space(s[a]),
    ensures
        trim_start(s) == s.skip(a),
    decreases a,
{
    if a == 0 {
        assert(s.skip(0) =~= s);
    } else {
        assert(is_space(s[0]));
        let t = s.drop_first();
        assert forall|i: int| 0 <= i < a - 1 implies is_space(#[trigger] t[i]) by {
            assert(t[i] == s[i + 1]);
        }
        lemma_trim_start(t, a - 1);
        assert(t.skip(a - 1) =~= s.skip(a));
    }
}

proof fn lemma_trim_end(s: Seq<char>, b: int)
    requires
        0 <= b <= s.len(),
        forall|i: int| b <= i < s.len() ==> is_space(#[trigger] s[i]),
        b == 0 || !is_space(s[b - 1]),
    ensures
        trim_end(s) == s.take(b),
    decreases s.len() - b,
{
    if b == s.len() {
        assert(s.take(b) =~= s);
    } else {
        assert(is_space(s[s.len() - 1]));
        let t = s.drop_last();
        lemma_trim_end(t, b);
        assert(t.take(b) =~= s.take(b));
    }
}

/// The characters of a text.
pub fn chars_of(s: &str) -> (r: Vec<char>)
    ensures
        r@ == s@,
{
    let mut r: Vec<char> = Vec::new();
    for c in it: s.chars()
        invariant
            it.seq() == s@,
            r@ == s@.take(it.index() as int),
    {
        let ghost k = it.index() as int;
        r.push(c);
        assert(r@ =~= s@.take(k + 1));
    }
    assert(s@.take(s@.len() as int) =~= s@);
    r
}

/// Removes the white space at both ends of a text.
pub fn trim(s: &str) -> (r: String)
    ensures
        r@ == trimmed(s@),
{
    let chars = chars_of(s);
    let mut a: usize = 0;
    while a < chars.len() && char_is_space(chars[a])
        invariant
            a <= chars.len(),
            forall|i: int| 0 <= i < a ==> is_space(#[trigger] chars@[i]),
        decreases chars.len() - a,
    {
        a = a + 1;
    }
    let mut b: usize = chars.len();
    while b > a && char_is_space(chars[b - 1])
        invariant
            a <= b <= chars.len(),
            forall|i: int| b <= i < chars.len() ==> is_space(#[trigger] chars@[i]),
        decreases b,
    {
        b = b - 1;
    }
    let mut r = String::new();
    let mut i: usize = a;
    while i < b
        invariant
            a <= i <= b <= chars.len(),
            r@ == chars@.subrange(a as int, i as int),
        decreases b - i,
    {
        push_char(&mut r, chars[i]);
        assert(r@ =~= chars@.subrange(a as int, i as int + 1));
        i = i + 1;
    }
    proof {
        lemma_trim_start(s@, a as int);
        let t = s@.skip(a as int);
        assert forall|j: int| b - a <= j < t.len() implies is_space(#[trigger] t[j]) by {
            assert(t[j] == chars@[j + a]);
        }
        if b > a {
            assert(t[b - a - 1] == chars@[b - 1]);
        }
        lemma_trim_end(t, b - a);
        assert(t.take(b - a) =~= chars@.subrange(a as int, b as int));
    }
    r
}

/// The `i64` that the text denotes: an optional sign, then one or more
/// decimal digits and nothing else, the whole within range.
pub open spec fn i64_numeral(s: Seq<char>) -> Option<i64> {
    if s.len() > 0 && s[0] == '-' {
        let body = s.subrange(1, s.len() as int);
        if body.len() > 0 && all_digits(body) && digits_value(body) <= 0x8000_0000_0000_0000 {
            Some((-(digits_value(body) as int)) as i64)
        } else {
            None
        }
    } else {
        match unsigned_numeral(s) {
            Some(v) => if v <= i64::MAX {
                Some(v as i64)
            } else {
                None
            },
            None => None,
        }
    }
}

/// The text after its first character.
fn drop_first_char(s: &str) -> (r: String)
    requires
        s@.len() > 0,
    ensures
        r@ == s@.subrange(1, s@.len() as int),
{
    let mut r = String::new();
    let mut started: bool = false;
    for c in it: s.chars()
        invariant
            it.seq() == s@,
            started == (it.index() > 0),
            it.index() == 0 ==> r@.len() == 0,
            it.index() > 0 ==> r@ == s@.subrange(1, it.index() as int),
    {
        let ghost k = it.index() as int;
        if started {
            push_char(&mut r, c);
            assert(r@ =~= s@.subrange(1, k + 1));
        } else {
            started = true;
            assert(r@ =~= s@.subrange(1, 1));
        }
    }
    r
}

/// Reads an `i64` from its decimal numeral: an optional sign, then digits
/// only.
pub fn parse_i64(s: &str) -> (r: Option<i64>)
    ensures
        r == i64_numeral(s@),
{
    let mut first: Option<char> = None;
    for c in it: s.chars()
        invariant
            it.seq() == s@,
            it.index() == 0 ==> first is None,
            it.index() > 0 ==> first == Some(s@[0]),
    {
        if first.is_none() {
            first = Some(c);
        }
    }
    match first {
        Some(c) => {
            if c == '-' {
                let body = drop_first_char(s);
                let ghost b = body@;
                let mut leading: Option<char> = None;
                for d in it2: body.as_str().chars()
                    invariant
                        it2.seq() == body@,
                        it2.index() == 0 ==> leading is None,
                        it2.index() > 0 ==> leading == Some(body@[0]),
                {
                    if leading.is_none() {
                        leading = Some(d);
                    }
                }
                match leading {
                    Some(d) => {
                        if d == '+' {
                            assert(!is_digit(b[0]));
                            return None;
                        }
                    },
                    None => {
                        return None;
                    },
                }
                assert(unsigned_body(b) == b);
                match parse_u64(body.as_str()) {
                    Some(v) => {
                        if v <= 0x8000_0000_0000_0000 {
                            Some((-(v as i128)) as i64)
                        } else {
                            None
                        }
                    },
                    None => {
                        proof {
                            if all_digits(b) {
                                assert(digits_value(b) > u64::MAX);
                            }
                        }
                        None
                    },
                }
            } else {
                match parse_u64(s) {
                    Some(v) => {
                        if v <= 0x7FFF_FFFF_FFFF_FFFF {
                            Some(v as i64)
                        } else {
                            None
                        }
                    },
                    None => None,
                }
            }
        },
        None => None,
    }
}

/// The first `count` characters of a text, or all of it where it has
/// fewer.
pub open spec fn leading(s: Seq<char>, count: nat) -> Seq<char> {
    if s.len() <= count {
        s
    } else {
        s.take(count as int)
    }
}

/// The first `count` characters of a text.
pub fn first_chars(s: &str, count: usize) -> (r: String)
    ensures
        r@ == leading(s@, count as nat),
{
    let mut r = String::new();
    let mut taken: usize = 0;
    for c in it: s.chars()
        invariant
            it.seq() == s@,
            taken <= count,
            taken == if it.index() <= count {
                it.index()
            } else {
                count as int
            },
            r@ == s@.take(taken as int),
    {
        if taken < count {
            push_char(&mut r, c);
            taken = taken + 1;
            assert(r@ =~= s@.take(taken as int));
        }
    }
    assert(s@.take(s@.len() as int) =~= s@);
    r
}

/// Whether `s` begins with `prefix`.
pub open spec fn has_prefix(s: Seq<char>, prefix: Seq<char>) -> bool {
    prefix.len() <= s.len() && s.subrange(0, prefix.len() as int) == prefix
}

/// Whether a text begins with `prefix`.
pub fn starts_with(s: &str, prefix: &str) -> (r: bool)
    ensures
        r == has_prefix(s@, prefix@),
{
    let a = chars_of(s);
    let b = chars_of(prefix);
    if b.len() > a.len() {
        return false;
    }
    let mut i: usize = 0;
    while i < b.len()
        invariant
            i <= b.len() <= a.len(),
            a@ == s@,
            b@ == prefix@,
            forall|j: int| 0 <= j < i ==> a@[j] == b@[j],
        decreases b.len() - i,
    {
        if a[i] != b[i] {
            assert(s@.subrange(0, prefix@.len() as int)[i as int] != prefix@[i as int]);
            return false;
        }
        i = i + 1;
    }
    assert(s@.subrange(0, prefix@.len() as int) =~= prefix@);
    true
}

} // verus!
