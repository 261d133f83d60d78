//! Character-level text helpers shared by the library: whitespace trimming,
//! decimal rendering and parsing, padding and lexicographic order.
use vstd::prelude::*;

verus! {

/// Unicode `White_Space` property, the set `str::trim` and `char::is_whitespace` use.
pub open spec fn is_white_space(c: char) -> bool {
    let u = c as u32;
    ||| 0x09 <= u <= 0x0D
    ||| u == 0x20
    ||| u == 0x85
    ||| u == 0xA0
    ||| u == 0x1680
    ||| 0x2000 <= u <= 0x200A
    ||| u == 0x2028
    ||| u == 0x2029
    ||| u == 0x202F
    ||| u == 0x205F
    ||| u == 0x3000
}

/// `s` without its leading whitespace.
pub open spec fn trim_start(s: Seq<char>) -> Seq<char>
    decreases s.len(),
{
    if s.len() > 0 && is_white_space(s[0]) {
        trim_start(s.drop_first())
    } else {
        s
    }
}

/// `s` without its trailing whitespace.
pub open spec fn trim_end(s: Seq<char>) -> Seq<char>
    decreases s.len(),
{
    if s.len() > 0 && is_white_space(s.last()) {
        trim_end(s.drop_last())
    } else {
        s
    }
}

/// `s` without leading and trailing whitespace.
pub open spec fn trimmed(s: Seq<char>) -> Seq<char> {
    trim_end(trim_start(s))
}

pub fn is_whitespace(c: char) -> (b: bool)
    ensures
        b == is_white_space(c),
{
    let u = c as u32;
    (0x09 <= u && u <= 0x0D) || u == 0x20 || u == 0x85 || u == 0xA0 || u == 0x1680 || (0x2000
        <= u && u <= 0x200A) || u == 0x2028 || u == 0x2029 || u == 0x202F || u == 0x205F || u
        == 0x3000
}

/// The characters of `s`, in order.
pub fn chars_of(s: &str) -> (v: Vec<char>)
    ensures
        v@ == s@,
{
    let mut v: Vec<char> = Vec::new();
    for c in it: s.chars()
        invariant
            v@ == it.seq().take(it.index() as int),
    {
        v.push(c);
    }
    v
}

/// Appends one character (`String::push`).
#[verifier::external_body]
pub(crate) fn push_char(s: &mut String, c: char)
    ensures
        final(s)@ == old(s)@.push(c),
{
    s.push(c);
}

/// Appends a string slice.
pub fn push_str(s: &mut String, t: &str)
    ensures
        final(s)@ == old(s)@ + t@,
{
    s.append(t);
}

/// A new string holding the characters of `s`.
pub fn to_string(s: &str) -> (r: String)
    ensures
        r@ == s@,
{
    String::from_str(s)
}

proof fn lemma_trim_start_skip(s: Seq<char>, i: int)
    requires
        0 <= i < s.len(),
        is_white_space(s[i]),
    ensures
        trim_start(s.subrange(i, s.len() as int)) == trim_start(s.subrange(i + 1, s.len() as int)),
{
    assert(s.subrange(i, s.len() as int).drop_first() =~= s.subrange(i + 1, s.len() as int));
}

proof fn lemma_trim_end_drop(s: Seq<char>, i: int, j: int)
    requires
        0 <= i < j <= s.len(),
        is_white_space(s[j - 1]),
    ensures
        trim_end(s.subrange(i, j)) == trim_end(s.subrange(i, j - 1)),
{
    assert(s.subrange(i, j).drop_last() =~= s.subrange(i, j - 1));
}

/// `s` with leading and trailing whitespace removed (`str::trim`).
pub fn trim(s: &str) -> (r: &str)
    ensures
        r@ == trimmed(s@),
{
    let cs = chars_of(s);
    let n = cs.len();
    let mut i: usize = 0;
    assert(s@.subrange(0, n as int) =~= s@);
    while i < n && is_whitespace(cs[i])
        invariant
            i <= n,
            n == s@.len(),
            cs@ == s@,
            trim_start(s@) == trim_start(s@.subrange(i as int, n as int)),
        decreases n - i,
    {
        proof {
            lemma_trim_start_skip(s@, i as int);
        }
        i = i + 1;
    }
    let ghost rest = s@.subrange(i as int, n as int);
    assert(trim_start(s@) == rest) by {
        if i < n {
            assert(rest[0] == s@[i as int]);
        } else {
            assert(rest.len() == 0);
        }
    }
    let mut j: usize = n;
    while j > i && is_whitespace(cs[j - 1])
        invariant
            i <= j <= n,
            n == s@.len(),
            cs@ == s@,
            trim_end(rest) == trim_end(s@.subrange(i as int, j as int)),
            rest == s@.subrange(i as int, n as int),
        decreases j - i,
    {
        proof {
            lemma_trim_end_drop(s@, i as int, j as int);
        }
        j = j - 1;
    }
    let r = s.substring_char(i, j);
    assert(trim_end(s@.subrange(i as int, j as int)) == s@.subrange(i as int, j as int)) by {
        let t = s@.subrange(i as int, j as int);
        if j > i {
            assert(t.last() == s@[j - 1]);
        } else {
            assert(t.len() == 0);
        }
    }
    r
}


/// Whether two string slices hold the same characters.
pub fn str_eq(a: &str, b: &str) -> (r: bool)
    ensures
        r == (a@ == b@),
{
    let x = chars_of(a);
    let y = chars_of(b);
    if x.len() != y.len() {
        return false;
    }
    let mut k: usize = 0;
    while k < x.len()
        invariant
            x@ == a@,
            y@ == b@,
            x.len() == y.len(),
            k <= x.len(),
            forall|q: int| 0 <= q < k ==> x@[q] == y@[q],
        decreases x.len() - k,
    {
        if x[k] != y[k] {
            return false;
        }
        k = k + 1;
    }
    assert(a@ =~= b@);
    true
}

/// Strict lexicographic order on character sequences, by code point
/// (the order `String` uses, since UTF-8 keeps code point order).
pub open spec fn seq_less(a: Seq<char>, b: Seq<char>) -> bool
    decreases a.len(),
{
    if a.len() == 0 {
        b.len() > 0
    } else if b.len() == 0 {
        false
    } else if a[0] != b[0] {
        a[0] < b[0]
    } else {
        seq_less(a.drop_first(), b.drop_first())
    }
}

pub proof fn lemma_seq_less_transitive(a: Seq<char>, b: Seq<char>, c: Seq<char>)
    requires
        seq_less(a, b),
        seq_less(b, c),
    ensures
        seq_less(a, c),
    decreases a.len(),
{
    if a.len() > 0 && b.len() > 0 && c.len() > 0 {
        if a[0] == b[0] && b[0] == c[0] {
            lemma_seq_less_transitive(a.drop_first(), b.drop_first(), c.drop_first());
        }
    }
}

pub proof fn lemma_seq_less_total(a: Seq<char>, b: Seq<char>)
    requires
        a != b,
    ensures
        seq_less(a, b) || seq_less(b, a),
    decreases a.len(),
{
    if a.len() == 0 {
        assert(b.len() > 0) by {
            if b.len() == 0 {
                assert(a =~= b);
            }
        }
    } else if b.len() > 0 && a[0] == b[0] {
        let x = a.drop_first();
        let y = b.drop_first();
        if x =~= y {
            assert(a.len() == b.len());
            assert forall|i: int| 0 <= i < a.len() implies a[i] == b[i] by {
                if i > 0 {
                    assert(a[i] == x[i - 1]);
                    assert(b[i] == y[i - 1]);
                }
            }
            assert(a =~= b);
        } else {
            lemma_seq_less_total(x, y);
        }
    }
}

/// Whether `a` sorts strictly before `b`.
pub fn chars_less(a: &Vec<char>, b: &Vec<char>) -> (r: bool)
    ensures
        r == seq_less(a@, b@),
{
    let mut k: usize = 0;
    assert(a@.skip(0) =~= a@);
    assert(b@.skip(0) =~= b@);
    while k < a.len() && k < b.len() && a[k] == b[k]
        invariant
            k <= a.len(),
            k <= b.len(),
            seq_less(a@, b@) == seq_less(a@.skip(k as int), b@.skip(k as int)),
        decreases a.len() - k,
    {
        assert(a@.skip(k as int).drop_first() =~= a@.skip(k + 1));
        assert(b@.skip(k as int).drop_first() =~= b@.skip(k + 1));
        k = k + 1;
    }
    if k == a.len() {
        k < b.len()
    } else if k == b.len() {
        false
    } else {
        a[k] < b[k]
    }
}

/// Unicode lowercase mapping of a character sequence, as `str::to_lowercase` computes it.
pub uninterp spec fn unicode_lowercase(s: Seq<char>) -> Seq<char>;

/// ASCII lowercase of one character.
pub open spec fn ascii_lower_char(c: char) -> char {
    if 'A' <= c && c <= 'Z' {
        ((c as u32) + 32) as char
    } else {
        c
    }
}

pub open spec fn all_ascii(s: Seq<char>) -> bool {
    forall|i: int| 0 <= i < s.len() ==> (s[i] as u32) < 128
}

/// Lowercases `s` with `str::to_lowercase`. Its result is the Unicode lowercase
/// mapping of `s`, left unnamed here but for one fact: on ASCII text it lowers
/// `A`..=`Z` and keeps every other character.
#[verifier::external_body]
pub(crate) fn to_lowercase(s: &str) -> (r: String)
    ensures
        r@ == unicode_lowercase(s@),
        all_ascii(s@) ==> r@ == s@.map_values(|c: char| ascii_lower_char(c)),
{
    s.to_lowercase()
}


/// The decimal digit character for `d` in `0..10`.
pub open spec fn digit_char(d: int) -> char {
    (d + 48) as char
}

/// Decimal rendering of a natural number, without leading zeros.
pub open spec fn nat_text(n: nat) -> Seq<char>
    decreases n,
{
    if n < 10 {
        seq![digit_char(n as int)]
    } else {
        nat_text(n / 10).push(digit_char((n % 10) as int))
    }
}

/// Decimal rendering of an integer, with a leading `-` when negative.
pub open spec fn int_text(n: int) -> Seq<char> {
    if n < 0 {
        seq!['-'] + nat_text((-n) as nat)
    } else {
        nat_text(n as nat)
    }
}

/// `{:02}`: at least two digits, padded with a leading zero.
pub open spec fn two_digit_text(n: nat) -> Seq<char> {
    if n < 10 {
        seq!['0'] + nat_text(n)
    } else {
        nat_text(n)
    }
}

fn digit(d: u64) -> (c: char)
    requires
        d < 10,
    ensures
        c == digit_char(d as int),
{
    ((d as u8) + 48) as char
}

/// Appends the decimal rendering of `n`.
pub fn push_nat(out: &mut String, n: u64)
    ensures
        final(out)@ == old(out)@ + nat_text(n as nat),
    decreases n,
{
    if n >= 10 {
        push_nat(out, n / 10);
    }
    push_char(out, digit(n % 10));
    assert(old(out)@ + nat_text(n as nat) =~= final(out)@) by {
        if n >= 10 {
            assert(nat_text(n as nat) == nat_text((n / 10) as nat).push(digit_char((n % 10) as int)));
        }
    }
}

/// Decimal rendering of a signed integer (`i64`'s `Display`).
pub fn int_string(n: i64) -> (r: String)
    ensures
        r@ == int_text(n as int),
{
    let mut out = String::new();
    if n < 0 {
        push_char(&mut out, '-');
        let m: u64 = if n == i64::MIN {
            9223372036854775808u64
        } else {
            (-n) as u64
        };
        push_nat(&mut out, m);
        assert(out@ =~= int_text(n as int));
    } else {
        push_nat(&mut out, n as u64);
        assert(out@ =~= int_text(n as int));
    }
    out
}

/// `{:02}` rendering of a number.
pub fn two_digit_string(n: u64) -> (r: String)
    ensures
        r@ == two_digit_text(n as nat),
{
    let mut out = String::new();
    if n < 10 {
        push_char(&mut out, '0');
    }
    push_nat(&mut out, n);
    assert(out@ =~= two_digit_text(n as nat));
    out
}

pub open spec fn is_digit(c: char) -> bool {
    '0' <= c && c <= '9'
}

pub open spec fn digit_value(c: char) -> int {
    (c as int) - 48
}

/// Value of a run of decimal digits.
pub open spec fn digits_value(s: Seq<char>) -> int
    decreases s.len(),
{
    if s.len() == 0 {
        0
    } else {
        10 * digits_value(s.drop_last()) + digit_value(s.last())
    }
}

pub open spec fn all_digits(s: Seq<char>) -> bool {
    s.len() > 0 && forall|i: int| 0 <= i < s.len() ==> is_digit(#[trigger] s[i])
}

/// The integer written as an optional `+`/`-` sign followed by decimal digits.
pub open spec fn integer_literal(s: Seq<char>) -> Option<int> {
    if s.len() > 0 && (s[0] == '+' || s[0] == '-') {
        if all_digits(s.drop_first()) {
            Some(
                if s[0] == '-' {
                    -digits_value(s.drop_first())
                } else {
                    digits_value(s.drop_first())
                },
            )
        } else {
            None
        }
    } else if all_digits(s) {
        Some(digits_value(s))
    } else {
        None
    }
}

/// What `str::parse::<i64>` accepts: an integer literal within the `i64` range.
pub open spec fn i64_literal(s: Seq<char>) -> Option<int> {
    match integer_literal(s) {
        Some(v) => if i64::MIN <= v <= i64::MAX {
            Some(v)
        } else {
            None
        },
        None => None,
    }
}

proof fn lemma_digits_value_nonneg(s: Seq<char>)
    requires
        forall|i: int| 0 <= i < s.len() ==> is_digit(#[trigger] s[i]),
    ensures
        digits_value(s) >= 0,
    decreases s.len(),
{
    if s.len() > 0 {
        lemma_digits_value_nonneg(s.drop_last());
    }
}

proof fn lemma_digits_value_prefix(s: Seq<char>, k: int)
    requires
        0 <= k <= s.len(),
        forall|i: int| 0 <= i < s.len() ==> is_digit(#[trigger] s[i]),
    ensures
        digits_value(s) >= digits_value(s.take(k)),
    decreases s.len(),
{
    if k < s.len() {
        let t = s.drop_last();
        assert(t.take(k) =~= s.take(k));
        lemma_digits_value_prefix(t, k);
        lemma_digits_value_nonneg(t);
    } else {
        assert(s.take(k) =~= s);
    }
}

proof fn lemma_prefix_too_big(s: Seq<char>, start: int, k: int)
    requires
        0 <= start <= k < s.len(),
        digits_value(s.subrange(start, k + 1)) > u64::MAX,
        s.len() > 0,
        start == 0 || (start == 1 && (s[0] == '+' || s[0] == '-')),
        start == 0 ==> !(s[0] == '+' || s[0] == '-'),
    ensures
        i64_literal(s) is None,
{
    let body = s.subrange(start, s.len() as int);
    if all_digits(body) {
        lemma_digits_value_prefix(body, k + 1 - start);
        assert(body.take(k + 1 - start) =~= s.subrange(start, k + 1));
        if start == 1 {
            assert(body =~= s.drop_first());
        } else {
            assert(body =~= s);
        }
    } else {
        if start == 1 {
            assert(body =~= s.drop_first());
        } else {
            assert(body =~= s);
        }
    }
}

/// `str::parse::<i64>`: an optional sign followed by at least one decimal digit,
/// within the `i64` range.
pub fn parse_i64(s: &str) -> (r: Option<i64>)
    ensures
        match r {
            Some(v) => i64_literal(s@) == Some(v as int),
            None => i64_literal(s@) is None,
        },
{
    let cs = chars_of(s);
    let n = cs.len();
    if n == 0 {
        return None;
    }
    let signed = cs[0] == '+' || cs[0] == '-';
    let negative = cs[0] == '-';
    let start: usize = if signed {
        1
    } else {
        0
    };
    let ghost body = s@.subrange(start as int, n as int);
    assert(signed ==> body =~= s@.drop_first());
    assert(!signed ==> body =~= s@);
    if start == n {
        return None;
    }
    let mut acc: u64 = 0;
    let mut k: usize = start;
    while k < n
        invariant
            start <= k <= n,
            n == s@.len(),
            cs@ == s@,
            body == s@.subrange(start as int, n as int),
            n > 0,
            signed == (s@[0] == '+' || s@[0] == '-'),
            start == (if signed { 1usize } else { 0usize }),
            signed ==> body == s@.drop_first(),
            !signed ==> body == s@,
            forall|i: int| start <= i < k ==> is_digit(#[trigger] s@[i]),
            acc as int == digits_value(s@.subrange(start as int, k as int)),
        decreases n - k,
    {
        let c = cs[k];
        if !('0' <= c && c <= '9') {
            assert(!is_digit(body[k - start]));
            assert(!all_digits(body));
            return None;
        }
        let d = (c as u32 - 48) as u64;
        assert(s@.subrange(start as int, k + 1).drop_last() =~= s@.subrange(start as int, k as int));
        assert(digits_value(s@.subrange(start as int, k + 1)) == 10 * acc + d);
        let m = acc.checked_mul(10);
        let next = match m {
            None => None,
            Some(m) => m.checked_add(d),
        };
        match next {
            None => {
                proof {
                    lemma_prefix_too_big(s@, start as int, k as int);
                }
                return None;
            },
            Some(a) => {
                acc = a;
            },
        }
        k = k + 1;
    }
    assert(all_digits(body));
    assert(s@.subrange(start as int, n as int) =~= body);
    if negative {
        if acc <= 9223372036854775808u64 {
            let v: i64 = if acc == 9223372036854775808u64 {
                i64::MIN
            } else {
                -(acc as i64)
            };
            Some(v)
        } else {
            None
        }
    } else if acc <= 9223372036854775807u64 {
        Some(acc as i64)
    } else {
        None
    }
}


proof fn lemma_digit_char(d: int)
    requires
        0 <= d < 10,
    ensures
        is_digit(digit_char(d)),
        digit_value(digit_char(d)) == d,
{
}

/// Decimal renderings are digit runs whose value is the number rendered.
pub proof fn lemma_nat_text_digits(n: nat)
    ensures
        all_digits(nat_text(n)),
        digits_value(nat_text(n)) == n,
    decreases n,
{
    if n < 10 {
        lemma_digit_char(n as int);
        let t = nat_text(n);
        assert(t.drop_last() =~= Seq::<char>::empty());
        assert(digits_value(t.drop_last()) == 0);
        assert(t.last() == digit_char(n as int));
        assert(digits_value(t) == 10 * digits_value(t.drop_last()) + digit_value(t.last()));
    } else {
        lemma_digit_char((n % 10) as int);
        lemma_nat_text_digits(n / 10);
        let t = nat_text(n);
        assert(t.drop_last() =~= nat_text(n / 10));
        assert(t.last() == digit_char((n % 10) as int));
        assert(digits_value(t) == 10 * digits_value(t.drop_last()) + digit_value(t.last()));
        assert forall|i: int| 0 <= i < t.len() implies is_digit(#[trigger] t[i]) by {
            if i < t.len() - 1 {
                assert(t[i] == nat_text(n / 10)[i]);
            }
        }
    }
}

/// `str::parse::<i64>` reads back what `int_string` renders.
pub proof fn lemma_int_text_parses(n: int)
    requires
        i64::MIN <= n <= i64::MAX,
    ensures
        i64_literal(int_text(n)) == Some(n),
{
    if n < 0 {
        let m = (-n) as nat;
        lemma_nat_text_digits(m);
        let t = int_text(n);
        assert(t.drop_first() =~= nat_text(m));
        assert(t[0] == '-');
    } else {
        lemma_nat_text_digits(n as nat);
        let t = nat_text(n as nat);
        assert(is_digit(t[0]));
    }
}

/// `{:<width}`: `s` followed by spaces up to `width` characters.
pub open spec fn pad_right(s: Seq<char>, width: nat) -> Seq<char> {
    if s.len() < width {
        s + Seq::new((width - s.len()) as nat, |i: int| ' ')
    } else {
        s
    }
}

/// Appends `t` left-aligned in a field of `width` characters.
pub fn push_padded(out: &mut String, t: &str, width: usize)
    ensures
        final(out)@ == old(out)@ + pad_right(t@, width as nat),
{
    push_str(out, t);
    let ghost base = out@;
    let len = t.unicode_len();
    let mut k: usize = len;
    while k < width
        invariant
            len == t@.len(),
            len <= k,
            len < width ==> k <= width,
            len >= width ==> k == len,
            base == old(out)@ + t@,
            out@ == base + Seq::new((k - len) as nat, |i: int| ' '),
        decreases width - k,
    {
        push_char(out, ' ');
        k = k + 1;
        assert(out@ =~= base + Seq::new((k - len) as nat, |i: int| ' '));
    }
    assert(out@ =~= old(out)@ + pad_right(t@, width as nat));
}


/// `s` without one leading `+` or `-`.
pub open spec fn strip_sign(s: Seq<char>) -> Seq<char> {
    if s.len() > 0 && (s[0] == '+' || s[0] == '-') {
        s.drop_first()
    } else {
        s
    }
}

pub open spec fn ascii_lowercase(s: Seq<char>) -> Seq<char> {
    s.map_values(|c: char| ascii_lower_char(c))
}

/// `Digit+ | Digit+ '.' Digit* | Digit* '.' Digit+`: digits with at most one
/// point and at least one digit.
pub open spec fn mantissa_syntax(m: Seq<char>) -> bool {
    &&& forall|i: int| 0 <= i < m.len() ==> is_digit(#[trigger] m[i]) || m[i] == '.'
    &&& exists|i: int| 0 <= i < m.len() && is_digit(#[trigger] m[i])
    &&& forall|i: int, j: int| 0 <= i < m.len() && 0 <= j < m.len() && m[i] == '.' && m[j] == '.' ==> i == j
}

/// An optional exponent: nothing, or `e`/`E`, an optional sign and digits.
pub open spec fn exponent_syntax(x: Seq<char>) -> bool {
    x.len() == 0 || ((x[0] == 'e' || x[0] == 'E') && all_digits(strip_sign(x.drop_first())))
}

pub open spec fn number_syntax(s: Seq<char>) -> bool {
    exists|k: int| 0 <= k <= s.len() && mantissa_syntax(s.take(k)) && exponent_syntax(s.skip(k))
}

/// The grammar `str::parse::<f64>` accepts, case-insensitively:
/// `Sign? ('inf' | 'infinity' | 'nan' | Number)`.
pub open spec fn float_syntax(s: Seq<char>) -> bool {
    let b = strip_sign(s);
    ||| ascii_lowercase(b) == seq!['i', 'n', 'f']
    ||| ascii_lowercase(b) == seq!['i', 'n', 'f', 'i', 'n', 'i', 't', 'y']
    ||| ascii_lowercase(b) == seq!['n', 'a', 'n']
    ||| number_syntax(b)
}

fn lower_ascii_char(c: char) -> (r: char)
    ensures
        r == ascii_lower_char(c),
{
    if 'A' <= c && c <= 'Z' {
        ((c as u32) + 32) as u8 as char
    } else {
        c
    }
}

/// Whether `cs[from..]`, lowercased, spells `word` (given lowercase).
fn lower_equals(cs: &Vec<char>, from: usize, word: &Vec<char>) -> (r: bool)
    requires
        from <= cs@.len(),
    ensures
        r == (ascii_lowercase(cs@.skip(from as int)) == word@),
{
    let n = cs.len();
    if n - from != word.len() {
        assert(ascii_lowercase(cs@.skip(from as int)).len() != word@.len());
        return false;
    }
    let mut k: usize = 0;
    while k < word.len()
        invariant
            from <= n,
            n == cs@.len(),
            n - from == word@.len(),
            k <= word@.len(),
            forall|q: int| 0 <= q < k ==> ascii_lower_char(cs@[from + q]) == word@[q],
        decreases word.len() - k,
    {
        if lower_ascii_char(cs[from + k]) != word[k] {
            assert(ascii_lowercase(cs@.skip(from as int))[k as int] != word@[k as int]);
            return false;
        }
        k = k + 1;
    }
    assert(ascii_lowercase(cs@.skip(from as int)) =~= word@);
    true
}

/// Whether `cs[from..to]` is a non-empty run of digits.
fn digits_between(cs: &Vec<char>, from: usize, to: usize) -> (r: bool)
    requires
        from <= to <= cs@.len(),
    ensures
        r == all_digits(cs@.subrange(from as int, to as int)),
{
    if from == to {
        return false;
    }
    let mut k = from;
    while k < to
        invariant
            from <= k <= to,
            to <= cs@.len(),
            forall|q: int| from <= q < k ==> is_digit(#[trigger] cs@[q]),
        decreases to - k,
    {
        if !('0' <= cs[k] && cs[k] <= '9') {
            assert(!is_digit(cs@.subrange(from as int, to as int)[k - from]));
            return false;
        }
        k = k + 1;
    }
    assert forall|i: int| 0 <= i < to - from implies is_digit(
        #[trigger] cs@.subrange(from as int, to as int)[i],
    ) by {
        assert(cs@.subrange(from as int, to as int)[i] == cs@[from + i]);
    }
    true
}

proof fn lemma_number_syntax_split(s: Seq<char>, k: int)
    requires
        0 <= k <= s.len(),
        forall|i: int| 0 <= i < k ==> s[i] != 'e' && s[i] != 'E',
        k < s.len() ==> (s[k] == 'e' || s[k] == 'E'),
    ensures
        number_syntax(s) == (mantissa_syntax(s.take(k)) && exponent_syntax(s.skip(k))),
{
    if number_syntax(s) {
        let j = choose|j: int|
            0 <= j <= s.len() && mantissa_syntax(s.take(j)) && exponent_syntax(s.skip(j));
        if j < k {
            assert(s.skip(j)[0] == s[j]);
        } else if j > k {
            assert(s.take(j)[k] == s[k]);
        }
    }
}

/// Whether `cs[start..e]` is a float mantissa.
fn mantissa_between(cs: &Vec<char>, start: usize, e: usize) -> (r: bool)
    requires
        start <= e <= cs@.len(),
    ensures
        r == mantissa_syntax(cs@.subrange(start as int, e as int)),
{
    let n = cs.len();
    // mantissa: digits and at most one point, at least one digit
    let mut k: usize = start;
    let mut digits = false;
    let mut point: Option<usize> = None;
    while k < e
        invariant
            start <= k <= e <= n,
            n == cs@.len(),
            forall|i: int| start <= i < k ==> is_digit(#[trigger] cs@[i]) || cs@[i] == '.',
            digits == exists|i: int| start <= i < k && is_digit(#[trigger] cs@[i]),
            match point {
                Some(p) => start <= p < k && cs@[p as int] == '.' && forall|i: int|
                    start <= i < k && cs@[i] == '.' ==> i == p,
                None => forall|i: int| start <= i < k ==> cs@[i] != '.',
            },
        decreases e - k,
    {
        let c = cs[k];
        if '0' <= c && c <= '9' {
            digits = true;
        } else if c == '.' {
            if point.is_some() {
                proof {
                    let m = cs@.subrange(start as int, e as int);
                    let p = point->0;
                    assert(m[p - start] == '.' && m[k - start] == '.');
                }
                return false;
            }
            point = Some(k);
        } else {
            assert(!(is_digit(cs@.subrange(start as int, e as int)[k - start]) || cs@.subrange(
                start as int,
                e as int,
            )[k - start] == '.'));
            return false;
        }
        k = k + 1;
    }
    let ghost m = cs@.subrange(start as int, e as int);
    if !digits {
        assert(!mantissa_syntax(m)) by {
            if exists|i: int| 0 <= i < m.len() && is_digit(#[trigger] m[i]) {
                let i = choose|i: int| 0 <= i < m.len() && is_digit(#[trigger] m[i]);
                assert(m[i] == cs@[start + i]);
            }
        }
        return false;
    }
    assert(mantissa_syntax(m)) by {
        let i = choose|i: int| start <= i < e && is_digit(#[trigger] cs@[i]);
        assert(is_digit(m[i - start]));
        assert forall|a: int| 0 <= a < m.len() implies is_digit(#[trigger] m[a]) || m[a] == '.' by {
            assert(m[a] == cs@[start + a]);
        }
        assert forall|a: int, c: int|
            0 <= a < m.len() && 0 <= c < m.len() && m[a] == '.' && m[c] == '.' implies a == c by {
            assert(m[a] == cs@[start + a]);
            assert(m[c] == cs@[start + c]);
        }
    }
    true
}

/// Whether `s` has the syntax `str::parse::<f64>` accepts.
pub fn is_float_syntax(s: &str) -> (r: bool)
    ensures
        r == float_syntax(s@),
{
    let cs = chars_of(s);
    let n = cs.len();
    let start: usize = if n > 0 && (cs[0] == '+' || cs[0] == '-') {
        1
    } else {
        0
    };
    let ghost b = strip_sign(s@);
    assert(b =~= cs@.skip(start as int));
    let inf: Vec<char> = vec!['i', 'n', 'f'];
    let infinity: Vec<char> = vec!['i', 'n', 'f', 'i', 'n', 'i', 't', 'y'];
    let nan: Vec<char> = vec!['n', 'a', 'n'];
    if lower_equals(&cs, start, &inf) || lower_equals(&cs, start, &infinity) || lower_equals(
        &cs,
        start,
        &nan,
    ) {
        return true;
    }
    // the mantissa runs up to the first exponent marker
    let mut e: usize = start;
    while e < n && cs[e] != 'e' && cs[e] != 'E'
        invariant
            start <= e <= n,
            n == cs@.len(),
            forall|i: int| start <= i < e ==> cs@[i] != 'e' && cs@[i] != 'E',
        decreases n - e,
    {
        e = e + 1;
    }
    proof {
        lemma_number_syntax_split(b, e - start);
        assert(b.take(e - start) =~= cs@.subrange(start as int, e as int));
        assert(b.skip(e - start) =~= cs@.skip(e as int));
    }
    if !mantissa_between(&cs, start, e) {
        return false;
    }
    let ghost m = cs@.subrange(start as int, e as int);
    // exponent
    if e == n {
        assert(cs@.skip(e as int).len() == 0);
        return true;
    }
    let mut d = e + 1;
    if d < n && (cs[d] == '+' || cs[d] == '-') {
        d = d + 1;
    }
    let ok = digits_between(&cs, d, n);
    proof {
        let x = cs@.skip(e as int);
        assert(strip_sign(x.drop_first()) =~= cs@.subrange(d as int, n as int));
    }
    ok
}

} // verus!
