//! Character-level text handling shared by the parsers of this crate:
//! trimming, ASCII case folding, decimal parsing and formatting.
use vstd::prelude::*;

verus! {

/// The Unicode `White_Space` property, which `str::trim` strips.
pub open spec fn is_white_space(c: char) -> bool {
    let u = c as u32;
    ||| 0x9 <= u <= 0xD
    ||| u == 0x20
    ||| u == 0x85
    ||| u == 0xA0
    ||| u == 0x1680
    ||| 0x2000 <= u <= 0x200A
    ||| u == 0x2028
    ||| u == 0x2029
    ||| u == 0x202F
    ||| u == 0x205F
    ||| u == 0x3000
}

/// `s` without its leading white space.
pub open spec fn trim_start(s: Seq<char>) -> Seq<char>
    decreases s.len(),
{
    if s.len() > 0 && is_white_space(s[0]) {
        trim_start(s.drop_first())
    } else {
        s
    }
}

/// `s` without its trailing white space.
pub open spec fn trim_end(s: Seq<char>) -> Seq<char>
    decreases s.len(),
{
    if s.len() > 0 && is_white_space(s.last()) {
        trim_end(s.drop_last())
    } else {
        s
    }
}

/// What `str::trim` leaves of `s`.
pub open spec fn trim(s: Seq<char>) -> Seq<char> {
    trim_end(trim_start(s))
}

/// `char::to_ascii_lowercase`.
pub open spec fn lower_char(c: char) -> char {
    if 'A' <= c && c <= 'Z' {
        ((c as u32) + 32) as char
    } else {
        c
    }
}

/// `str::to_ascii_lowercase`, character by character.
pub open spec fn lower(s: Seq<char>) -> Seq<char> {
    Seq::new(s.len(), |i: int| lower_char(s[i]))
}

/// `str::eq_ignore_ascii_case`.
pub open spec fn eq_ignore_case(a: Seq<char>, b: Seq<char>) -> bool {
    lower(a) == lower(b)
}

pub open spec fn starts_with(s: Seq<char>, prefix: Seq<char>) -> bool {
    prefix.len() <= s.len() && s.subrange(0, prefix.len() as int) == prefix
}

pub open spec fn ends_with(s: Seq<char>, suffix: Seq<char>) -> bool {
    suffix.len() <= s.len() && s.subrange(s.len() - suffix.len(), s.len() as int) == suffix
}

pub open spec fn is_digit(c: char) -> bool {
    '0' <= c && c <= '9'
}

pub open spec fn digit_value(c: char) -> int {
    (c as u32) - ('0' as u32)
}

pub open spec fn all_digits(s: Seq<char>) -> bool {
    forall|i: int| 0 <= i < s.len() ==> #[trigger] is_digit(s[i])
}

/// The value of a string of decimal digits, most significant first.
pub open spec fn digits_value(s: Seq<char>) -> int
    decreases s.len(),
{
    if s.len() == 0 {
        0
    } else {
        digits_value(s.drop_last()) * 10 + digit_value(s.last())
    }
}

/// What `str::parse` accepts as a decimal integer, before the range check of the
/// target type: an optional `+` (or, for a signed type, `-`) and at least one digit.
pub open spec fn parse_decimal(s: Seq<char>, signed: bool) -> Option<int> {
    if s.len() == 0 {
        None
    } else if s.len() == 1 && (s[0] == '+' || s[0] == '-') {
        None
    } else if s[0] == '+' {
        if all_digits(s.drop_first()) {
            Some(digits_value(s.drop_first()))
        } else {
            None
        }
    } else if s[0] == '-' && signed {
        if all_digits(s.drop_first()) {
            Some(-digits_value(s.drop_first()))
        } else {
            None
        }
    } else if all_digits(s) {
        Some(digits_value(s))
    } else {
        None
    }
}

/// `s.parse::<u8>()`.
pub open spec fn parse_u8(s: Seq<char>) -> Option<int> {
    match parse_decimal(s, false) {
        Some(v) => if 0 <= v <= 255 { Some(v) } else { None },
        None => None,
    }
}

/// `s.parse::<i16>()`.
pub open spec fn parse_i16(s: Seq<char>) -> Option<int> {
    match parse_decimal(s, true) {
        Some(v) => if -32768 <= v <= 32767 { Some(v) } else { None },
        None => None,
    }
}

pub open spec fn digit_char(d: int) -> char {
    (d + 48) as char
}

/// Decimal digits of `n`, as `{}` formats it.
pub open spec fn nat_digits(n: nat) -> Seq<char>
    decreases n,
{
    if n < 10 {
        seq![digit_char(n as int)]
    } else {
        nat_digits(n / 10) + seq![digit_char((n % 10) as int)]
    }
}

/// `format!("{}", i)` for an integer.
pub open spec fn decimal(i: int) -> Seq<char> {
    if i < 0 {
        seq!['-'] + nat_digits((-i) as nat)
    } else {
        nat_digits(i as nat)
    }
}

/// `format!("{:+}", i)` for an integer: the sign is always written.
pub open spec fn signed_decimal(i: int) -> Seq<char> {
    if i < 0 {
        decimal(i)
    } else {
        seq!['+'] + nat_digits(i as nat)
    }
}

/// A lower-case word: ASCII letters, digits and `-`, starting with a letter and
/// ending with a letter or digit.
pub open spec fn is_plain_word(s: Seq<char>) -> bool {
    &&& s.len() > 0
    &&& 'a' <= s[0] && s[0] <= 'z'
    &&& s.last() != '-'
    &&& forall|i: int|
        0 <= i < s.len() ==> ('a' <= #[trigger] s[i] && s[i] <= 'z') || is_digit(s[i]) || s[i]
            == '-'
}

/// A plain word is unchanged by trimming and lower-casing, and is no number.
pub proof fn lemma_plain_word(s: Seq<char>)
    requires
        is_plain_word(s),
    ensures
        trim(s) == s,
        lower(s) == s,
        parse_decimal(s, true) is None,
        parse_u8(s) is None,
        parse_i16(s) is None,
{
    assert(!is_white_space(s[0]));
    assert(!is_white_space(s[s.len() - 1]));
    assert(trim_start(s) == s);
    assert(trim_end(s) == s);
    assert(lower(s) =~= s);
    assert(!is_digit(s[0]));
}

proof fn lemma_trim_start_edge(s: Seq<char>)
    ensures
        trim_start(s).len() == 0 || !is_white_space(trim_start(s)[0]),
    decreases s.len(),
{
    if s.len() > 0 && is_white_space(s[0]) {
        lemma_trim_start_edge(s.drop_first());
    }
}

proof fn lemma_trim_end_edge(s: Seq<char>)
    ensures
        trim_end(s).len() <= s.len(),
        trim_end(s) == s.subrange(0, trim_end(s).len() as int),
        trim_end(s).len() == 0 || !is_white_space(trim_end(s).last()),
    decreases s.len(),
{
    if s.len() > 0 && is_white_space(s.last()) {
        lemma_trim_end_edge(s.drop_last());
        assert(s.drop_last().subrange(0, trim_end(s).len() as int) == s.subrange(
            0,
            trim_end(s).len() as int,
        ));
    } else {
        assert(s.subrange(0, s.len() as int) == s);
    }
}

/// What `str::trim` leaves neither starts nor ends with white space, so
/// trimming it again changes nothing.
pub proof fn lemma_trim_edges(s: Seq<char>)
    ensures
        trim(s).len() == 0 || (!is_white_space(trim(s)[0]) && !is_white_space(trim(s).last())),
        trim(trim(s)) == trim(s),
{
    let u = trim_start(s);
    lemma_trim_start_edge(s);
    lemma_trim_end_edge(u);
    let t = trim(s);
    if t.len() > 0 {
        assert(t[0] == u[0]);
        assert(trim_start(t) == t);
        assert(trim_end(t) == t);
    } else {
        assert(trim_start(t) == t);
    }
}

/// A single decimal digit parses as itself.
pub proof fn lemma_one_digit(n: nat)
    requires
        n < 10,
    ensures
        nat_digits(n) == seq![digit_char(n as int)],
        trim(nat_digits(n)) == nat_digits(n),
        parse_u8(nat_digits(n)) == Some(n as int),
        parse_i16(nat_digits(n)) == Some(n as int),
{
    let s = nat_digits(n);
    assert(s.len() == 1);
    assert(s[0] == digit_char(n as int));
    assert(!is_white_space(s[0]));
    assert(trim_start(s) == s);
    assert(trim_end(s) == s);
    assert(all_digits(s));
    assert(s.drop_last().len() == 0);
    assert(digits_value(s.drop_last()) == 0);
    assert(digit_value(s.last()) == n);
    assert(digits_value(s) == n);
}

/// A two-digit number is written and read back digit by digit.
pub proof fn lemma_two_digits(n: nat)
    requires
        10 <= n < 100,
    ensures
        nat_digits(n) == seq![digit_char((n / 10) as int), digit_char((n % 10) as int)],
        all_digits(nat_digits(n)),
        digits_value(nat_digits(n)) == n,
        nat_digits(n)[0] != '+' && nat_digits(n)[0] != '-',
        !is_white_space(nat_digits(n)[0]),
        !is_white_space(nat_digits(n).last()),
{
    let hi = (n / 10) as nat;
    lemma_one_digit(hi);
    let s = nat_digits(n);
    assert(s == seq![digit_char(hi as int)] + seq![digit_char((n % 10) as int)]);
    assert(s =~= seq![digit_char(hi as int), digit_char((n % 10) as int)]);
    assert(s.drop_last() =~= seq![digit_char(hi as int)]);
    assert(digit_value(s[0]) == hi);
    assert(digit_value(s[1]) == n % 10);
    assert(digits_value(s.drop_last().drop_last()) == 0);
    assert(digits_value(s.drop_last()) == hi);
}

/// `String::push`.
#[verifier::external_body]
pub(crate) fn push_char(s: &mut String, c: char)
    ensures
        final(s)@ == old(s)@.push(c),
{
    s.push(c);
}

/// The characters of `s`, in order.
pub fn chars_of(s: &str) -> (v: Vec<char>)
    ensures
        v@ == s@,
{
    let n = s.unicode_len();
    let mut v: Vec<char> = Vec::new();
    let mut i: usize = 0;
    while i < n
        invariant
            n == s@.len(),
            i <= n,
            v@ == s@.subrange(0, i as int),
        decreases n - i,
    {
        v.push(s.get_char(i));
        i = i + 1;
    }
    v
}

/// A `String` holding exactly the characters of `v`.
pub fn string_of(v: &Vec<char>) -> (s: String)
    ensures
        s@ == v@,
{
    let mut s = String::new();
    let mut i: usize = 0;
    while i < v.len()
        invariant
            i <= v.len(),
            s@ == v@.subrange(0, i as int),
        decreases v.len() - i,
    {
        push_char(&mut s, v[i]);
        i = i + 1;
    }
    s
}

/// A `String` holding the characters of `t`.
pub fn string_from(t: &str) -> (s: String)
    ensures
        s@ == t@,
{
    let mut s = String::new();
    s.append(t);
    s
}

/// `char::is_whitespace`.
pub fn is_white_space_char(c: char) -> (b: bool)
    ensures
        b == is_white_space(c),
{
    let u = c as u32;
    (0x9 <= u && u <= 0xD) || u == 0x20 || u == 0x85 || u == 0xA0 || u == 0x1680 || (0x2000
        <= u && u <= 0x200A) || u == 0x2028 || u == 0x2029 || u == 0x202F || u == 0x205F || u
        == 0x3000
}

proof fn lemma_trim_start_skips(s: Seq<char>, i: int)
    requires
        0 <= i <= s.len(),
        forall|k: int| 0 <= k < i ==> is_white_space(#[trigger] s[k]),
        i == s.len() || !is_white_space(s[i]),
    ensures
        trim_start(s) == s.subrange(i, s.len() as int),
    decreases i,
{
    if i == 0 {
        assert(s.subrange(0, s.len() as int) == s);
    } else {
        let t = s.drop_first();
        assert forall|k: int| 0 <= k < i - 1 implies is_white_space(#[trigger] t[k]) by {
            assert(t[k] == s[k + 1]);
        }
        if i - 1 < t.len() {
            assert(t[i - 1] == s[i]);
        }
        lemma_trim_start_skips(t, i - 1);
        assert(t.subrange(i - 1, t.len() as int) == s.subrange(i, s.len() as int));
    }
}

proof fn lemma_trim_end_skips(s: Seq<char>, j: int)
    requires
        0 <= j <= s.len(),
        forall|k: int| j <= k < s.len() ==> is_white_space(#[trigger] s[k]),
        j == 0 || !is_white_space(s[j - 1]),
    ensures
        trim_end(s) == s.subrange(0, j),
    decreases s.len() - j,
{
    if j == s.len() {
        assert(s.subrange(0, j) == s);
    } else {
        let t = s.drop_last();
        assert forall|k: int| j <= k < t.len() implies is_white_space(#[trigger] t[k]) by {
            assert(t[k] == s[k]);
        }
        if j > 0 {
            assert(t[j - 1] == s[j - 1]);
        }
        lemma_trim_end_skips(t, j);
        assert(t.subrange(0, j) == s.subrange(0, j));
    }
}

/// `str::trim` on a character vector.
pub fn trim_chars(v: &Vec<char>) -> (r: Vec<char>)
    ensures
        r@ == trim(v@),
{
    let n = v.len();
    let mut i: usize = 0;
    while i < n && is_white_space_char(v[i])
        invariant
            n == v.len(),
            i <= n,
            forall|k: int| 0 <= k < i ==> is_white_space(#[trigger] v@[k]),
        decreases n - i,
    {
        i = i + 1;
    }
    proof {
        lemma_trim_start_skips(v@, i as int);
    }
    let ghost mid = v@.subrange(i as int, n as int);
    let mut j: usize = n;
    while j > i && is_white_space_char(v[j - 1])
        invariant
            n == v.len(),
            i <= j <= n,
            forall|k: int| j <= k < n ==> is_white_space(#[trigger] v@[k]),
        decreases j,
    {
        j = j - 1;
    }
    proof {
        assert forall|k: int| j - i <= k < mid.len() implies is_white_space(#[trigger] mid[k]) by {
            assert(mid[k] == v@[k + i]);
        }
        if j > i {
            assert(mid[j - i - 1] == v@[j - 1]);
        }
        lemma_trim_end_skips(mid, j - i);
        assert(mid.subrange(0, j - i) == v@.subrange(i as int, j as int));
    }
    let mut r: Vec<char> = Vec::new();
    let mut k: usize = i;
    while k < j
        invariant
            i <= k <= j <= n,
            n == v.len(),
            r@ == v@.subrange(i as int, k as int),
        decreases j - k,
    {
        r.push(v[k]);
        k = k + 1;
    }
    r
}

/// `char::to_ascii_lowercase`.
pub fn lower_char_exec(c: char) -> (r: char)
    ensures
        r == lower_char(c),
{
    if 'A' <= c && c <= 'Z' {
        let u: u8 = c as u8;
        (u + 32) as char
    } else {
        c
    }
}

/// `str::to_ascii_lowercase` on a character vector.
pub fn lower_chars(v: &Vec<char>) -> (r: Vec<char>)
    ensures
        r@ == lower(v@),
{
    let mut r: Vec<char> = Vec::new();
    let mut i: usize = 0;
    while i < v.len()
        invariant
            i <= v.len(),
            r@ == lower(v@.subrange(0, i as int)),
        decreases v.len() - i,
    {
        r.push(lower_char_exec(v[i]));
        i = i + 1;
        assert(lower(v@.subrange(0, i as int)) =~= r@);
    }
    assert(v@.subrange(0, v.len() as int) == v@);
    r
}

/// Whether `v` holds exactly the characters of `lit`.
pub fn eq_chars(v: &Vec<char>, lit: &str) -> (b: bool)
    ensures
        b == (v@ == lit@),
{
    let n = lit.unicode_len();
    if v.len() != n {
        return false;
    }
    let mut i: usize = 0;
    while i < n
        invariant
            n == lit@.len(),
            n == v.len(),
            i <= n,
            forall|k: int| 0 <= k < i ==> v@[k] == lit@[k],
        decreases n - i,
    {
        if v[i] != lit.get_char(i) {
            return false;
        }
        i = i + 1;
    }
    assert(v@ =~= lit@);
    true
}

/// Whether `v` and `lit` are equal up to ASCII case.
pub fn eq_chars_ignore_case(v: &Vec<char>, lit: &str) -> (b: bool)
    ensures
        b == eq_ignore_case(v@, lit@),
{
    let n = lit.unicode_len();
    if v.len() != n {
        assert(lower(v@).len() != lower(lit@).len());
        return false;
    }
    let mut i: usize = 0;
    while i < n
        invariant
            n == lit@.len(),
            n == v.len(),
            i <= n,
            forall|k: int| 0 <= k < i ==> lower_char(v@[k]) == lower_char(lit@[k]),
        decreases n - i,
    {
        if lower_char_exec(v[i]) != lower_char_exec(lit.get_char(i)) {
            assert(lower(v@)[i as int] != lower(lit@)[i as int]);
            return false;
        }
        i = i + 1;
    }
    assert(lower(v@) =~= lower(lit@));
    true
}

/// Whether `v` begins with the characters of `lit`.
pub fn starts_with_chars(v: &Vec<char>, lit: &str) -> (b: bool)
    ensures
        b == starts_with(v@, lit@),
{
    let n = lit.unicode_len();
    if v.len() < n {
        return false;
    }
    let mut i: usize = 0;
    while i < n
        invariant
            n == lit@.len(),
            n <= v.len(),
            i <= n,
            forall|k: int| 0 <= k < i ==> v@[k] == lit@[k],
        decreases n - i,
    {
        if v[i] != lit.get_char(i) {
            assert(v@.subrange(0, n as int)[i as int] != lit@[i as int]);
            return false;
        }
        i = i + 1;
    }
    assert(v@.subrange(0, n as int) =~= lit@);
    true
}

/// Whether `v` ends with the characters of `lit`.
pub fn ends_with_chars(v: &Vec<char>, lit: &str) -> (b: bool)
    ensures
        b == ends_with(v@, lit@),
{
    let n = lit.unicode_len();
    if v.len() < n {
        return false;
    }
    let off = v.len() - n;
    let mut i: usize = 0;
    while i < n
        invariant
            n == lit@.len(),
            off + n == v.len(),
            i <= n,
            forall|k: int| 0 <= k < i ==> v@[off + k] == lit@[k],
        decreases n - i,
    {
        if v[off + i] != lit.get_char(i) {
            assert(v@.subrange(off as int, v.len() as int)[i as int] != lit@[i as int]);
            return false;
        }
        i = i + 1;
    }
    assert(v@.subrange(off as int, v.len() as int) =~= lit@);
    true
}

proof fn lemma_digits_value_nonneg(s: Seq<char>)
    requires
        all_digits(s),
    ensures
        digits_value(s) >= 0,
    decreases s.len(),
{
    if s.len() > 0 {
        assert(is_digit(s[s.len() - 1]));
        assert(all_digits(s.drop_last())) by {
            assert forall|i: int| 0 <= i < s.drop_last().len() implies is_digit(
                #[trigger] s.drop_last()[i],
            ) by {
                assert(s.drop_last()[i] == s[i]);
            }
        }
        lemma_digits_value_nonneg(s.drop_last());
    }
}

/// Reads the digits of `v[from..]`. `None` where a non-digit occurs;
/// otherwise the value, saturated just above `cap`.
fn read_digits(v: &Vec<char>, from: usize, cap: i64) -> (r: Option<i64>)
    requires
        from <= v.len(),
        0 <= cap < 1_000_000,
    ensures
        r is None <==> !all_digits(v@.subrange(from as int, v.len() as int)),
        r matches Some(x) ==> {
            let d = digits_value(v@.subrange(from as int, v.len() as int));
            &&& 0 <= x <= cap + 1
            &&& d <= cap ==> x == d
            &&& d > cap ==> x == cap + 1
        },
{
    let mut acc: i64 = 0;
    let mut i: usize = from;
    while i < v.len()
        invariant
            from <= i <= v.len(),
            0 <= cap < 1_000_000,
            all_digits(v@.subrange(from as int, i as int)),
            0 <= acc <= cap + 1,
            ({
                let d = digits_value(v@.subrange(from as int, i as int));
                (d <= cap ==> acc == d) && (d > cap ==> acc == cap + 1)
            }),
        decreases v.len() - i,
    {
        let c = v[i];
        let ghost pre = v@.subrange(from as int, i as int);
        let ghost next = v@.subrange(from as int, i + 1);
        assert(next.drop_last() == pre);
        if !('0' <= c && c <= '9') {
            assert(!is_digit(v@.subrange(from as int, v.len() as int)[i - from]));
            return None;
        }
        let d: i64 = (c as u32 - '0' as u32) as i64;
        proof {
            lemma_digits_value_nonneg(pre);
            assert forall|k: int| 0 <= k < next.len() implies is_digit(#[trigger] next[k]) by {
                if k < pre.len() {
                    assert(next[k] == pre[k]);
                }
            }
        }
        if acc > cap {
            acc = cap + 1;
        } else {
            acc = acc * 10 + d;
            if acc > cap {
                acc = cap + 1;
            }
        }
        i = i + 1;
    }
    Some(acc)
}

/// `s.parse::<u8>()`.
pub fn parse_u8_chars(v: &Vec<char>) -> (r: Option<u8>)
    ensures
        match parse_u8(v@) {
            Some(x) => r == Some(x as u8),
            None => r is None,
        },
{
    if v.len() == 0 {
        return None;
    }
    if v.len() == 1 && (v[0] == '+' || v[0] == '-') {
        return None;
    }
    let from: usize = if v[0] == '+' {
        1
    } else {
        0
    };
    assert(v@.subrange(1, v.len() as int) == v@.drop_first());
    assert(v@.subrange(0, v.len() as int) == v@);
    match read_digits(v, from, 255) {
        None => None,
        Some(x) => {
            if x <= 255 {
                Some(x as u8)
            } else {
                None
            }
        },
    }
}

/// `s.parse::<i16>()`.
pub fn parse_i16_chars(v: &Vec<char>) -> (r: Option<i16>)
    ensures
        match parse_i16(v@) {
            Some(x) => r == Some(x as i16),
            None => r is None,
        },
{
    if v.len() == 0 {
        return None;
    }
    if v.len() == 1 && (v[0] == '+' || v[0] == '-') {
        return None;
    }
    let negative = v[0] == '-';
    let from: usize = if v[0] == '+' || negative {
        1
    } else {
        0
    };
    assert(v@.subrange(1, v.len() as int) == v@.drop_first());
    assert(v@.subrange(0, v.len() as int) == v@);
    match read_digits(v, from, 32768) {
        None => None,
        Some(x) => {
            if negative {
                if x <= 32768 {
                    Some((-x) as i16)
                } else {
                    None
                }
            } else if x <= 32767 {
                Some(x as i16)
            } else {
                None
            }
        },
    }
}

fn push_digits(out: &mut Vec<char>, n: u64)
    ensures
        final(out)@ == old(out)@ + nat_digits(n as nat),
    decreases n,
{
    if n >= 10 {
        push_digits(out, n / 10);
    }
    let d: u8 = (n % 10) as u8;
    out.push((d + 48) as char);
}

/// `format!("{}", x)`.
pub fn decimal_string(x: i64) -> (s: String)
    ensures
        s@ == decimal(x as int),
{
    let mut v: Vec<char> = Vec::new();
    if x < 0 {
        v.push('-');
        let m: u64 = (0i128 - x as i128) as u64;
        push_digits(&mut v, m);
    } else {
        push_digits(&mut v, x as u64);
    }
    string_of(&v)
}

/// `format!("{}", x)` for an unsigned value.
pub fn unsigned_decimal_string(x: u64) -> (s: String)
    ensures
        s@ == decimal(x as int),
{
    let mut v: Vec<char> = Vec::new();
    push_digits(&mut v, x);
    string_of(&v)
}

/// `format!("{:+}", x)`.
pub fn signed_decimal_string(x: i64) -> (s: String)
    ensures
        s@ == signed_decimal(x as int),
{
    if x < 0 {
        decimal_string(x)
    } else {
        let mut v: Vec<char> = Vec::new();
        v.push('+');
        push_digits(&mut v, x as u64);
        string_of(&v)
    }
}

} // verus!
