//! Text helpers: whitespace trimming, splitting on a separator, decimal
//! numbers in both directions, and the comparison of two strings.
use vstd::prelude::*;
use vstd::string::*;

verus! {

/// The code points of the Unicode `White_Space` property, which is the set
/// that `char::is_whitespace` and `str::trim` work with.
pub open spec fn is_white(c: char) -> bool {
    let u = c as u32;
    ||| (0x09 <= u && u <= 0x0d)
    ||| u == 0x20
    ||| u == 0x85
    ||| u == 0xa0
    ||| u == 0x1680
    ||| (0x2000 <= u && u <= 0x200a)
    ||| u == 0x2028
    ||| u == 0x2029
    ||| u == 0x202f
    ||| u == 0x205f
    ||| u == 0x3000
}

/// Whether `c` is a whitespace character.
pub fn is_white_char(c: char) -> (r: bool)
    ensures
        r == is_white(c),
{
    let u: u32 = c as u32;
    (0x09 <= u && u <= 0x0d) || u == 0x20 || u == 0x85 || u == 0xa0 || u == 0x1680 || (0x2000
        <= u && u <= 0x200a) || u == 0x2028 || u == 0x2029 || u == 0x202f || u == 0x205f || u
        == 0x3000
}

/// `s` without its leading whitespace.
pub open spec fn trim_front(s: Seq<char>) -> Seq<char>
    decreases s.len(),
{
    if s.len() > 0 && is_white(s[0]) {
        trim_front(s.drop_first())
    } else {
        s
    }
}

/// `s` without its trailing whitespace.
pub open spec fn trim_back(s: Seq<char>) -> Seq<char>
    decreases s.len(),
{
    if s.len() > 0 && is_white(s.last()) {
        trim_back(s.drop_last())
    } else {
        s
    }
}

/// `s` without leading and trailing whitespace, as `str::trim` gives it.
pub open spec fn trimmed(s: Seq<char>) -> Seq<char> {
    trim_back(trim_front(s))
}

proof fn lemma_trim_front(s: Seq<char>, i: int)
    requires
        0 <= i <= s.len(),
        forall|k: int| 0 <= k < i ==> is_white(#[trigger] s[k]),
        i == s.len() || !is_white(s[i]),
    ensures
        trim_front(s) == s.subrange(i, s.len() as int),
    decreases i,
{
    if i == 0 {
        assert(s.subrange(0, s.len() as int) =~= s);
    } else {
        assert(is_white(s[0]));
        let t = s.drop_first();
        assert forall|k: int| 0 <= k < i - 1 implies is_white(#[trigger] t[k]) by {
            assert(t[k] == s[k + 1]);
        }
        lemma_trim_front(t, i - 1);
        assert(t.subrange(i - 1, t.len() as int) =~= s.subrange(i, s.len() as int));
    }
}

proof fn lemma_trim_back(s: Seq<char>, j: int)
    requires
        0 <= j <= s.len(),
        forall|k: int| j <= k < s.len() ==> is_white(#[trigger] s[k]),
        j == 0 || !is_white(s[j - 1]),
    ensures
        trim_back(s) == s.subrange(0, j),
    decreases s.len() - j,
{
    if j == s.len() {
        assert(s.subrange(0, j) =~= s);
        if s.len() > 0 {
            assert(s.last() == s[j - 1]);
        }
    } else {
        assert(is_white(s[s.len() - 1]));
        let t = s.drop_last();
        assert forall|k: int| j <= k < t.len() implies is_white(#[trigger] t[k]) by {
            assert(t[k] == s[k]);
        }
        if j > 0 {
            assert(t[j - 1] == s[j - 1]);
        }
        lemma_trim_back(t, j);
        assert(t.subrange(0, j) =~= s.subrange(0, j));
    }
}

/// The string without leading and trailing whitespace (`str::trim`).
pub fn trim<'a>(s: &'a str) -> (r: &'a str)
    ensures
        r@ == trimmed(s@),
{
    let n: usize = s.unicode_len();
    let mut i: usize = 0;
    while i < n && is_white_char(s.get_char(i))
        invariant
            n == s@.len(),
            i <= n,
            forall|k: int| 0 <= k < i ==> is_white(#[trigger] s@[k]),
        decreases n - i,
    {
        i = i + 1;
    }
    let mut j: usize = n;
    while j > i && is_white_char(s.get_char(j - 1))
        invariant
            n == s@.len(),
            i <= j <= n,
            forall|k: int| j <= k < n ==> is_white(#[trigger] s@[k]),
        decreases j,
    {
        j = j - 1;
    }
    proof {
        lemma_trim_front(s@, i as int);
        let t = s@.subrange(i as int, n as int);
        assert forall|k: int| j - i <= k < t.len() implies is_white(#[trigger] t[k]) by {
            assert(t[k] == s@[k + i]);
        }
        if j > i {
            assert(t[j - i - 1] == s@[j - 1]);
        }
        lemma_trim_back(t, j - i);
        assert(t.subrange(0, j - i) =~= s@.subrange(i as int, j as int));
    }
    s.substring_char(i, j)
}

/// Whether the two strings hold the same characters.
pub fn same_text(a: &str, b: &str) -> (r: bool)
    ensures
        r == (a@ == b@),
{
    let n: usize = a.unicode_len();
    let m: usize = b.unicode_len();
    if n != m {
        return false;
    }
    let mut i: usize = 0;
    while i < n
        invariant
            n == a@.len(),
            n == b@.len(),
            i <= n,
            forall|k: int| 0 <= k < i ==> a@[k] == b@[k],
        decreases n - i,
    {
        if a.get_char(i) != b.get_char(i) {
            return false;
        }
        i = i + 1;
    }
    assert(a@ =~= b@);
    true
}

/// The pieces of `s` between occurrences of `sep`, as `str::split` with a
/// `char` pattern yields them: empty pieces included, and one piece more
/// than there are separators.
pub open spec fn split_spec(s: Seq<char>, sep: char) -> Seq<Seq<char>>
    decreases s.len(),
{
    if s.len() == 0 {
        seq![Seq::<char>::empty()]
    } else {
        let p = split_spec(s.drop_last(), sep);
        if s.last() == sep {
            p.push(Seq::<char>::empty())
        } else {
            p.update(p.len() - 1, p[p.len() - 1].push(s.last()))
        }
    }
}

/// There is always at least one piece.
pub proof fn lemma_split_nonempty(s: Seq<char>, sep: char)
    ensures
        split_spec(s, sep).len() >= 1,
    decreases s.len(),
{
    if s.len() > 0 {
        lemma_split_nonempty(s.drop_last(), sep);
    }
}

/// Splitting `s`, a separator and `e` gives the pieces of `s` followed by
/// the pieces of `e`.
pub proof fn lemma_split_join(s: Seq<char>, sep: char, e: Seq<char>)
    ensures
        split_spec(s.push(sep) + e, sep) == split_spec(s, sep) + split_spec(e, sep),
    decreases e.len(),
{
    let t = s.push(sep) + e;
    if e.len() == 0 {
        assert(t =~= s.push(sep));
        assert(s.push(sep).drop_last() =~= s);
        assert(split_spec(s, sep).push(Seq::<char>::empty()) =~= split_spec(s, sep) + seq![
            Seq::<char>::empty(),
        ]);
    } else {
        lemma_split_join(s, sep, e.drop_last());
        lemma_split_nonempty(e.drop_last(), sep);
        assert(t.drop_last() =~= s.push(sep) + e.drop_last());
        assert(t.last() == e.last());
        let a = split_spec(s, sep);
        let b = split_spec(e.drop_last(), sep);
        if e.last() == sep {
            assert((a + b).push(Seq::<char>::empty()) =~= a + b.push(Seq::<char>::empty()));
        } else {
            let ab = a + b;
            assert(ab[ab.len() - 1] == b[b.len() - 1]);
            assert(ab.update(ab.len() - 1, ab[ab.len() - 1].push(e.last())) =~= a + b.update(
                b.len() - 1,
                b[b.len() - 1].push(e.last()),
            ));
        }
    }
}

/// The pieces of `s` between occurrences of `sep`.
pub fn split_by<'a>(s: &'a str, sep: char) -> (r: Vec<&'a str>)
    ensures
        r@.len() == split_spec(s@, sep).len(),
        forall|k: int| 0 <= k < r@.len() ==> (#[trigger] r@[k])@ == split_spec(s@, sep)[k],
{
    let n: usize = s.unicode_len();
    let mut pieces: Vec<&'a str> = Vec::new();
    let mut start: usize = 0;
    let mut i: usize = 0;
    assert(s@.take(0) =~= Seq::<char>::empty());
    while i < n
        invariant
            n == s@.len(),
            start <= i <= n,
            split_spec(s@.take(i as int), sep).len() == pieces@.len() + 1,
            forall|k: int|
                0 <= k < pieces@.len() ==> (#[trigger] pieces@[k])@ == split_spec(
                    s@.take(i as int),
                    sep,
                )[k],
            split_spec(s@.take(i as int), sep)[pieces@.len() as int] == s@.subrange(
                start as int,
                i as int,
            ),
        decreases n - i,
    {
        let c = s.get_char(i);
        let ghost before = split_spec(s@.take(i as int), sep);
        let ghost next = s@.take(i + 1);
        assert(next.drop_last() =~= s@.take(i as int));
        assert(next.last() == c);
        proof {
            lemma_split_nonempty(s@.take(i as int), sep);
        }
        if c == sep {
            let piece = s.substring_char(start, i);
            pieces.push(piece);
            start = i + 1;
            assert(s@.subrange(start as int, i + 1) =~= Seq::<char>::empty());
        } else {
            assert(s@.subrange(start as int, i + 1) =~= s@.subrange(start as int, i as int).push(
                c,
            ));
        }
        i = i + 1;
    }
    assert(s@.take(n as int) =~= s@);
    let last = s.substring_char(start, n);
    pieces.push(last);
    pieces
}

/// Names what `str::to_lowercase` returns for a string: each character
/// replaced by its Unicode lowercase mapping, which takes tables to state.
pub uninterp spec fn lowercase(s: Seq<char>) -> Seq<char>;

/// The ASCII lowercase of a character: `A` to `Z` become `a` to `z`,
/// everything else stays.
pub open spec fn ascii_lower(c: char) -> char {
    if 'A' <= c && c <= 'Z' {
        ((c as u32) + 32) as char
    } else {
        c
    }
}

/// Every character is ASCII.
pub open spec fn all_ascii(s: Seq<char>) -> bool {
    forall|i: int| 0 <= i < s.len() ==> (#[trigger] s[i] as u32) < 128
}

/// The lowercase form of `s`, spelled out where `s` is all ASCII.
pub open spec fn lowered(s: Seq<char>) -> Seq<char> {
    if all_ascii(s) {
        s.map_values(|c: char| ascii_lower(c))
    } else {
        lowercase(s)
    }
}

/// Calls `str::to_lowercase`. The contract claims that the result is the
/// named lowercase form of the argument, a function of it alone, and that
/// on an all-ASCII string it lowers `A` to `Z` and keeps the rest, as the
/// Unicode lowercase mapping of those characters (and `to_ascii_lowercase`,
/// which the documentation compares it with) does.
#[verifier::external_body]
pub(crate) fn to_lowercase(s: &str) -> (r: String)
    ensures
        r@ == lowercase(s@),
        all_ascii(s@) ==> r@ == s@.map_values(|c: char| ascii_lower(c)),
{
    s.to_lowercase()
}

/// Why a string is not a decimal integer of a given type; the variants
/// follow `core::num::IntErrorKind`.
#[derive(Debug, Clone, Copy, PartialEq, Eq, Structural)]
pub enum IntErrorKind {
    Empty,
    InvalidDigit,
    PosOverflow,
}

impl IntErrorKind {
    /// The message that `ParseIntError` displays for this kind.
    pub fn message(&self) -> (r: String)
        ensures
            r@ == int_error_message(*self),
    {
        match self {
            IntErrorKind::Empty => String::from_str("cannot parse integer from empty string"),
            IntErrorKind::InvalidDigit => String::from_str("invalid digit found in string"),
            IntErrorKind::PosOverflow => String::from_str("number too large to fit in target type"),
        }
    }
}

/// The message for each kind of integer error.
pub open spec fn int_error_message(k: IntErrorKind) -> Seq<char> {
    match k {
        IntErrorKind::Empty => "cannot parse integer from empty string"@,
        IntErrorKind::InvalidDigit => "invalid digit found in string"@,
        IntErrorKind::PosOverflow => "number too large to fit in target type"@,
    }
}

/// An ASCII decimal digit.
pub open spec fn is_digit(c: char) -> bool {
    '0' <= c && c <= '9'
}

/// The value of an ASCII decimal digit.
pub open spec fn digit_value(c: char) -> int {
    (c as int) - ('0' as int)
}

/// Reads the digits of `d` left to right onto `acc`: the first character
/// that is no digit gives `InvalidDigit`, the first digit that takes the
/// value past `max` gives `PosOverflow`.
pub open spec fn scan_digits(d: Seq<char>, acc: int, max: int) -> Result<int, IntErrorKind>
    decreases d.len(),
{
    if d.len() == 0 {
        Ok(acc)
    } else if !is_digit(d[0]) {
        Err(IntErrorKind::InvalidDigit)
    } else if acc * 10 + digit_value(d[0]) > max {
        Err(IntErrorKind::PosOverflow)
    } else {
        scan_digits(d.drop_first(), acc * 10 + digit_value(d[0]), max)
    }
}

/// What parsing `s` as an unsigned integer no greater than `max` gives, as
/// `u16::from_str` and `usize::from_str` do it: one leading `+` is allowed,
/// then at least one decimal digit and nothing else.
pub open spec fn parse_spec(s: Seq<char>, max: int) -> Result<int, IntErrorKind> {
    if s.len() == 0 {
        Err(IntErrorKind::Empty)
    } else if s[0] == '+' && s.len() == 1 {
        Err(IntErrorKind::InvalidDigit)
    } else if s[0] == '+' {
        scan_digits(s.drop_first(), 0, max)
    } else {
        scan_digits(s, 0, max)
    }
}

fn parse_bounded(s: &str, max: u64) -> (r: Result<u64, IntErrorKind>)
    ensures
        match r {
            Ok(v) => parse_spec(s@, max as int) == Ok::<int, IntErrorKind>(v as int),
            Err(e) => parse_spec(s@, max as int) == Err::<int, IntErrorKind>(e),
        },
        r matches Ok(v) ==> v <= max,
{
    let n: usize = s.unicode_len();
    if n == 0 {
        return Err(IntErrorKind::Empty);
    }
    let first = s.get_char(0);
    if first == '+' && n == 1 {
        return Err(IntErrorKind::InvalidDigit);
    }
    let start: usize = if first == '+' {
        1
    } else {
        0
    };
    let ghost d = s@.skip(start as int);
    assert(start == 1 ==> d =~= s@.drop_first());
    assert(start == 0 ==> d =~= s@);
    assert(d =~= s@.skip(start as int));
    let mut acc: u64 = 0;
    let mut i: usize = start;
    while i < n
        invariant
            n == s@.len(),
            start <= i <= n,
            d == s@.skip(start as int),
            parse_spec(s@, max as int) == scan_digits(d, 0, max as int),
            acc <= max,
            scan_digits(d, 0, max as int) == scan_digits(s@.skip(i as int), acc as int, max as int),
        decreases n - i,
    {
        let c = s.get_char(i);
        let ghost rest = s@.skip(i as int);
        assert(rest[0] == c);
        assert(rest.drop_first() =~= s@.skip(i + 1));
        if !('0' <= c && c <= '9') {
            return Err(IntErrorKind::InvalidDigit);
        }
        let dv: u64 = (c as u32 - '0' as u32) as u64;
        let next: u128 = (acc as u128) * 10 + (dv as u128);
        if next > max as u128 {
            return Err(IntErrorKind::PosOverflow);
        }
        acc = next as u64;
        i = i + 1;
    }
    assert(s@.skip(n as int) =~= Seq::<char>::empty());
    Ok(acc)
}

/// Parses `s` as a `usize`, as `s.parse::<usize>()` does.
pub fn parse_usize(s: &str) -> (r: Result<usize, IntErrorKind>)
    ensures
        match r {
            Ok(v) => parse_spec(s@, usize::MAX as int) == Ok::<int, IntErrorKind>(v as int),
            Err(e) => parse_spec(s@, usize::MAX as int) == Err::<int, IntErrorKind>(e),
        },
{
    match parse_bounded(s, usize::MAX as u64) {
        Ok(v) => Ok(v as usize),
        Err(e) => Err(e),
    }
}

/// Parses `s` as a `u16`, as `s.parse::<u16>()` does.
pub fn parse_u16(s: &str) -> (r: Result<u16, IntErrorKind>)
    ensures
        match r {
            Ok(v) => parse_spec(s@, u16::MAX as int) == Ok::<int, IntErrorKind>(v as int),
            Err(e) => parse_spec(s@, u16::MAX as int) == Err::<int, IntErrorKind>(e),
        },
{
    match parse_bounded(s, u16::MAX as u64) {
        Ok(v) => Ok(v as u16),
        Err(e) => Err(e),
    }
}

/// The character of a decimal digit.
pub open spec fn digit_char(d: nat) -> char {
    if d == 0 {
        '0'
    } else if d == 1 {
        '1'
    } else if d == 2 {
        '2'
    } else if d == 3 {
        '3'
    } else if d == 4 {
        '4'
    } else if d == 5 {
        '5'
    } else if d == 6 {
        '6'
    } else if d == 7 {
        '7'
    } else if d == 8 {
        '8'
    } else {
        '9'
    }
}

/// The decimal representation of `n`, without sign or leading zeros.
pub open spec fn decimal(n: nat) -> Seq<char>
    decreases n,
{
    if n < 10 {
        seq![digit_char(n)]
    } else {
        decimal(n / 10).push(digit_char(n % 10))
    }
}

proof fn lemma_scan_push(s: Seq<char>, c: char, acc: int, max: int)
    requires
        is_digit(c),
    ensures
        scan_digits(s.push(c), acc, max) == match scan_digits(s, acc, max) {
            Ok(v) => if v * 10 + digit_value(c) > max {
                Err(IntErrorKind::PosOverflow)
            } else {
                Ok(v * 10 + digit_value(c))
            },
            Err(e) => Err(e),
        },
    decreases s.len(),
{
    if s.len() == 0 {
        assert(s.push(c).drop_first() =~= Seq::<char>::empty());
        assert(s.push(c)[0] == c);
        assert(scan_digits(Seq::<char>::empty(), acc * 10 + digit_value(c), max) == Ok::<
            int,
            IntErrorKind,
        >(acc * 10 + digit_value(c)));
    } else {
        assert(s.push(c)[0] == s[0]);
        assert(s.push(c).drop_first() =~= s.drop_first().push(c));
        if is_digit(s[0]) && acc * 10 + digit_value(s[0]) <= max {
            lemma_scan_push(s.drop_first(), c, acc * 10 + digit_value(s[0]), max);
        }
    }
}

proof fn lemma_digit_char(d: nat)
    requires
        d < 10,
    ensures
        is_digit(digit_char(d)),
        digit_value(digit_char(d)) == d,
{
}

proof fn lemma_decimal_shape(n: nat)
    ensures
        decimal(n).len() >= 1,
        is_digit(decimal(n)[0]),
    decreases n,
{
    if n >= 10 {
        lemma_decimal_shape(n / 10);
    } else {
        lemma_digit_char(n);
    }
}

proof fn lemma_scan_decimal(n: nat, max: int)
    requires
        n <= max,
    ensures
        scan_digits(decimal(n), 0, max) == Ok::<int, IntErrorKind>(n as int),
    decreases n,
{
    if n < 10 {
        lemma_digit_char(n);
        lemma_scan_push(Seq::<char>::empty(), digit_char(n), 0, max);
        assert(Seq::<char>::empty().push(digit_char(n)) =~= seq![digit_char(n)]);
    } else {
        lemma_scan_decimal(n / 10, max);
        lemma_digit_char(n % 10);
        lemma_scan_push(decimal(n / 10), digit_char(n % 10), 0, max);
    }
}

/// Reading back the decimal text of a number gives the number, for every
/// number the target type holds.
pub proof fn lemma_parse_decimal(n: nat, max: int)
    requires
        n <= max,
    ensures
        parse_spec(decimal(n), max) == Ok::<int, IntErrorKind>(n as int),
{
    lemma_decimal_shape(n);
    lemma_scan_decimal(n, max);
}

fn digit_text(d: usize) -> (r: &'static str)
    requires
        d < 10,
    ensures
        r@ == seq![digit_char(d as nat)],
{
    proof {
        reveal_strlit("0");
        reveal_strlit("1");
        reveal_strlit("2");
        reveal_strlit("3");
        reveal_strlit("4");
        reveal_strlit("5");
        reveal_strlit("6");
        reveal_strlit("7");
        reveal_strlit("8");
        reveal_strlit("9");
    }
    if d == 0 {
        "0"
    } else if d == 1 {
        "1"
    } else if d == 2 {
        "2"
    } else if d == 3 {
        "3"
    } else if d == 4 {
        "4"
    } else if d == 5 {
        "5"
    } else if d == 6 {
        "6"
    } else if d == 7 {
        "7"
    } else if d == 8 {
        "8"
    } else {
        "9"
    }
}

/// The decimal text of `n`, as `n.to_string()` writes it.
pub fn render_usize(n: usize) -> (r: String)
    ensures
        r@ == decimal(n as nat),
    decreases n,
{
    if n < 10 {
        String::from_str(digit_text(n))
    } else {
        let mut s = render_usize(n / 10);
        s.append(digit_text(n % 10));
        s
    }
}

} // verus!
