//! Text helpers: character-level searching, splitting, joining and number
//! formatting, each stated over the sequence of characters of a string.
use vstd::prelude::*;

verus! {

/// `String::push` appends one character to the end of the string.
pub assume_specification[ String::push ](s: &mut String, c: char)
    ensures
        final(s)@ == old(s)@.push(c),
;

/// What `str::to_uppercase` gives for a text.
pub uninterp spec fn uppercase(s: Seq<char>) -> Seq<char>;

/// `str::to_uppercase`: the text with its letters in upper case.
#[verifier::external_body]
pub(crate) fn to_uppercase(s: &str) -> (r: String)
    ensures
        r@ == uppercase(s@),
{
    s.to_uppercase()
}

/// What the standard library's debug formatting gives for a text.
pub uninterp spec fn debug_text(s: Seq<char>) -> Seq<char>;

/// The debug formatting of `str`: the text in double quotes, escaped.
#[verifier::external_body]
pub(crate) fn debug_quoted(s: &str) -> (r: String)
    ensures
        r@ == debug_text(s@),
{
    format!("{s:?}")
}

/// A text is what `bytes` encode, or there is none and they encode nothing.
pub open spec fn decodes(bytes: Seq<u8>, r: Option<String>) -> bool {
    match r {
        Some(s) => vstd::utf8::valid_utf8(bytes) && s@ == vstd::utf8::decode_utf8(bytes),
        None => !vstd::utf8::valid_utf8(bytes),
    }
}

/// `String::from_utf8`: the text that the bytes encode, where they are valid
/// UTF-8.
#[verifier::external_body]
pub(crate) fn decode(bytes: Vec<u8>) -> (r: Option<String>)
    ensures
        decodes(bytes@, r),
{
    String::from_utf8(bytes).ok()
}

/// What `String::from_utf8_lossy` makes of bytes.
pub uninterp spec fn lossy_text(bytes: Seq<u8>) -> Seq<char>;

/// `String::from_utf8_lossy`: the text that the bytes encode, with replacement
/// characters where they are not valid UTF-8.
#[verifier::external_body]
pub(crate) fn decode_lossy(bytes: &[u8]) -> (r: String)
    ensures
        r@ == lossy_text(bytes@),
        vstd::utf8::valid_utf8(bytes@) ==> r@ == vstd::utf8::decode_utf8(bytes@),
{
    String::from_utf8_lossy(bytes).into_owned()
}

/// The texts of a sequence of strings.
pub open spec fn texts(v: Seq<String>) -> Seq<Seq<char>> {
    Seq::new(v.len(), |i: int| v[i]@)
}

/// The text of an optional string.
pub open spec fn opt_text(s: Option<String>) -> Option<Seq<char>> {
    match s {
        Some(t) => Some(t@),
        None => None,
    }
}

/// The texts of strings are those of each, in their order; an optional string
/// has a text where it is there.
pub proof fn texts_are_taken_one_by_one(v: Seq<String>, s: Option<String>)
    ensures
        texts(v).len() == v.len(),
        forall|i: int| #![trigger v[i]] 0 <= i < v.len() ==> texts(v)[i] == v[i]@,
        s matches Some(t) ==> opt_text(s) == Some(t@),
        s is None ==> opt_text(s) is None,
{
}

/// The characters of `s`, in order.
pub fn chars_of(s: &str) -> (v: Vec<char>)
    ensures
        v@ == s@,
{
    let mut v: Vec<char> = Vec::new();
    for c in it: s.chars()
        invariant
            v@ == s@.subrange(0, it.index() as int),
            it.seq() == s@,
    {
        v.push(c);
        assert(v@ =~= s@.subrange(0, it.index() + 1));
    }
    assert(v@ =~= s@);
    v
}

/// The string made of `chars[from..to]`.
pub fn string_between(chars: &Vec<char>, from: usize, to: usize) -> (s: String)
    requires
        from <= to <= chars@.len(),
    ensures
        s@ == chars@.subrange(from as int, to as int),
{
    let mut s: String = String::new();
    let mut i: usize = from;
    while i < to
        invariant
            from <= i <= to <= chars@.len(),
            s@ == chars@.subrange(from as int, i as int),
        decreases to - i,
    {
        s.push(chars[i]);
        i += 1;
        assert(s@ =~= chars@.subrange(from as int, i as int));
    }
    s
}

/// Whether two texts are equal.
pub fn same(a: &str, b: &str) -> (r: bool)
    ensures
        r == (a@ == b@),
{
    a.to_owned() == b.to_owned()
}

/// `a` followed by `b`.
pub fn cat(a: &str, b: &str) -> (r: String)
    ensures
        r@ == a@ + b@,
{
    let mut r: String = a.to_owned();
    r.append(b);
    r
}

/// `a`, `b` and `c` in a row.
pub fn cat3(a: &str, b: &str, c: &str) -> (r: String)
    ensures
        r@ == a@ + b@ + c@,
{
    let mut r: String = cat(a, b);
    r.append(c);
    r
}

/// The texts put one after another with `sep` between neighbours.
pub open spec fn joined(parts: Seq<Seq<char>>, sep: Seq<char>) -> Seq<char>
    decreases parts.len(),
{
    if parts.len() == 0 {
        Seq::empty()
    } else if parts.len() == 1 {
        parts[0]
    } else {
        joined(parts.drop_last(), sep) + sep + parts.last()
    }
}

/// Joins `parts` with `sep` between neighbours.
pub fn join(parts: &Vec<String>, sep: &str) -> (r: String)
    ensures
        r@ == joined(texts(parts@), sep@),
{
    let mut r: String = String::new();
    let mut i: usize = 0;
    assert(texts(parts@).take(0) =~= Seq::<Seq<char>>::empty());
    while i < parts.len()
        invariant
            i <= parts@.len(),
            r@ == joined(texts(parts@).take(i as int), sep@),
        decreases parts@.len() - i,
    {
        let ghost before = texts(parts@).take(i as int);
        let ghost after = texts(parts@).take(i + 1);
        assert(after.drop_last() =~= before);
        assert(after.last() == parts@[i as int]@);
        if i > 0 {
            r.append(sep);
        }
        r.append(parts[i].as_str());
        i += 1;
        assert(r@ =~= joined(after, sep@));
    }
    assert(texts(parts@).take(i as int) =~= texts(parts@));
    r
}

/// `pat` stands in `s` at position `i`.
pub open spec fn occurs_at(s: Seq<char>, pat: Seq<char>, i: int) -> bool {
    0 <= i && i + pat.len() <= s.len() && s.subrange(i, i + pat.len()) == pat
}

/// The first position at or after `from` where `pat` stands in `s`.
pub open spec fn find_from(s: Seq<char>, pat: Seq<char>, from: int) -> Option<int>
    decreases s.len() - from + 1,
{
    if from + pat.len() > s.len() || from < 0 {
        None
    } else if occurs_at(s, pat, from) {
        Some(from)
    } else {
        find_from(s, pat, from + 1)
    }
}

/// Whether `pat` stands in `s` at position `i`.
#[verifier::loop_isolation(false)]
pub fn occurs(s: &Vec<char>, pat: &Vec<char>, i: usize) -> (r: bool)
    ensures
        r == occurs_at(s@, pat@, i as int),
{
    if pat.len() > s.len() || i > s.len() - pat.len() {
        return false;
    }
    let mut k: usize = 0;
    while k < pat.len()
        invariant
            k <= pat@.len(),
            i + pat@.len() <= s@.len(),
            forall|j: int| 0 <= j < k ==> s@[i + j] == pat@[j],
        decreases pat@.len() - k,
    {
        if s[i + k] != pat[k] {
            assert(s@.subrange(i as int, i + pat@.len())[k as int] != pat@[k as int]);
            return false;
        }
        k += 1;
    }
    assert(s@.subrange(i as int, i + pat@.len()) =~= pat@);
    true
}

/// The first position at or after `from` where `pat` stands in `s`.
pub fn find(s: &Vec<char>, pat: &Vec<char>, from: usize) -> (r: Option<usize>)
    requires
        from <= s@.len(),
    ensures
        match r {
            Some(i) => find_from(s@, pat@, from as int) == Some(i as int) && from <= i && i
                + pat@.len() <= s@.len(),
            None => find_from(s@, pat@, from as int) is None,
        },
{
    if pat.len() > s.len() {
        return None;
    }
    let last: usize = s.len() - pat.len();
    let mut i: usize = from;
    while i <= last
        invariant
            from <= i,
            last == s@.len() - pat@.len(),
            find_from(s@, pat@, from as int) == find_from(s@, pat@, i as int),
        decreases last + 1 - i,
    {
        if occurs(s, pat, i) {
            return Some(i);
        }
        if i == last {
            assert(find_from(s@, pat@, i + 1) is None);
            return None;
        }
        i += 1;
    }
    None
}

/// `s` holds `pat` somewhere.
pub open spec fn contains_text(s: Seq<char>, pat: Seq<char>) -> bool {
    find_from(s, pat, 0) is Some
}

/// Whether `s` holds `pat` somewhere.
pub fn contains(s: &str, pat: &str) -> (r: bool)
    ensures
        r == contains_text(s@, pat@),
{
    let chars = chars_of(s);
    let mark = chars_of(pat);
    find(&chars, &mark, 0).is_some()
}

/// `s` with the first `from` in it replaced by `to`.
pub open spec fn replaced_first(s: Seq<char>, from: Seq<char>, to: Seq<char>) -> Seq<char> {
    match find_from(s, from, 0) {
        Some(i) => s.subrange(0, i) + to + s.skip(i + from.len()),
        None => s,
    }
}

/// Replaces the first `from` in `s` by `to`.
pub fn replace_first(s: &str, from: &str, to: &str) -> (r: String)
    ensures
        r@ == replaced_first(s@, from@, to@),
{
    let chars = chars_of(s);
    let mark = chars_of(from);
    match find(&chars, &mark, 0) {
        Some(i) => {
            assert(i + mark@.len() <= chars.len());
            let mut r: String = string_between(&chars, 0, i);
            r.append(to);
            r.append(string_between(&chars, i + mark.len(), chars.len()).as_str());
            assert(r@ =~= replaced_first(s@, from@, to@));
            r
        },
        None => s.to_owned(),
    }
}

/// The first position at or after `from` whose character ends the authority
/// part of a URL: `/`, `?` or `#`; the length of `s` where there is none.
pub open spec fn authority_end(s: Seq<char>, from: int) -> int
    decreases s.len() - from,
{
    if from >= s.len() || from < 0 {
        s.len() as int
    } else if s[from] == '/' || s[from] == '?' || s[from] == '#' {
        from
    } else {
        authority_end(s, from + 1)
    }
}

/// Finds where the authority part that starts at `from` ends.
pub fn find_authority_end(s: &Vec<char>, from: usize) -> (r: usize)
    requires
        from <= s@.len(),
    ensures
        r == authority_end(s@, from as int),
        from <= r <= s@.len(),
{
    let mut i: usize = from;
    while i < s.len()
        invariant
            from <= i <= s@.len(),
            authority_end(s@, from as int) == authority_end(s@, i as int),
        decreases s@.len() - i,
    {
        if s[i] == '/' || s[i] == '?' || s[i] == '#' {
            return i;
        }
        i += 1;
    }
    i
}

/// The first position at or after `from` that holds `c`.
pub open spec fn first_index(s: Seq<char>, c: char, from: int) -> Option<int>
    decreases s.len() - from,
{
    if from < 0 || from >= s.len() {
        None
    } else if s[from] == c {
        Some(from)
    } else {
        first_index(s, c, from + 1)
    }
}

/// What stands in `s` before the first `c`: all of it where there is none.
pub open spec fn text_before(s: Seq<char>, c: char) -> Seq<char> {
    match first_index(s, c, 0) {
        Some(i) => s.subrange(0, i),
        None => s,
    }
}

/// What stands in `s` before the first `c`.
pub fn before(s: &str, c: char) -> (r: String)
    ensures
        r@ == text_before(s@, c),
{
    let chars = chars_of(s);
    let mut i: usize = 0;
    while i < chars.len()
        invariant
            chars@ == s@,
            i <= chars@.len(),
            first_index(chars@, c, 0) == first_index(chars@, c, i as int),
        decreases chars@.len() - i,
    {
        if chars[i] == c {
            return string_between(&chars, 0, i);
        }
        i += 1;
    }
    s.to_owned()
}

/// The last position before `to` that holds `c`.
pub open spec fn last_index(s: Seq<char>, c: char, to: int) -> Option<int>
    decreases to,
{
    if to <= 0 || to > s.len() {
        None
    } else if s[to - 1] == c {
        Some(to - 1)
    } else {
        last_index(s, c, to - 1)
    }
}

/// Finds the last `c` in `s[from..to]`.
pub fn find_last(s: &Vec<char>, c: char, from: usize, to: usize) -> (r: Option<usize>)
    requires
        from <= to <= s@.len(),
    ensures
        ({
            let part = s@.subrange(from as int, to as int);
            match r {
                Some(i) => from <= i < to && last_index(part, c, part.len() as int) == Some(
                    i - from,
                ),
                None => last_index(part, c, part.len() as int) is None,
            }
        }),
{
    let ghost part = s@.subrange(from as int, to as int);
    let mut i: usize = to;
    while i > from
        invariant
            from <= i <= to <= s@.len(),
            part == s@.subrange(from as int, to as int),
            last_index(part, c, part.len() as int) == last_index(part, c, i - from),
        decreases i,
    {
        if s[i - 1] == c {
            return Some(i - 1);
        }
        i -= 1;
    }
    None
}

/// `c` is one of `0` to `9`.
pub open spec fn is_digit(c: char) -> bool {
    '0' <= c && c <= '9'
}

/// Every character of `s` is a decimal digit.
pub open spec fn all_digits(s: Seq<char>) -> bool {
    forall|i: int| 0 <= i < s.len() ==> is_digit(#[trigger] s[i])
}

/// The number that a run of decimal digits writes.
pub open spec fn digits_value(s: Seq<char>) -> nat
    decreases s.len(),
{
    if s.len() == 0 {
        0
    } else {
        digits_value(s.drop_last()) * 10 + (s.last() as nat - '0' as nat) as nat
    }
}

/// The number that a text writes as an optional sign and decimal digits, where
/// it writes one that fits in 64 signed bits.
pub open spec fn parsed_i64(s: Seq<char>) -> Option<int> {
    let signed = s.len() > 0 && (s[0] == '-' || s[0] == '+');
    let body = if signed {
        s.skip(1)
    } else {
        s
    };
    let value = if signed && s[0] == '-' {
        -(digits_value(body) as int)
    } else {
        digits_value(body) as int
    };
    if body.len() == 0 || !all_digits(body) || value < i64::MIN || value > i64::MAX {
        None
    } else {
        Some(value)
    }
}

proof fn lemma_digits_grow(s: Seq<char>, k: int)
    requires
        0 <= k <= s.len(),
    ensures
        digits_value(s.take(k)) <= digits_value(s),
    decreases s.len(),
{
    if k == s.len() {
        assert(s.take(k) =~= s);
    } else {
        lemma_digits_grow(s.drop_last(), k);
        assert(s.drop_last().take(k) =~= s.take(k));
    }
}

/// Reads `s[from..to]` as a signed 64-bit decimal number.
#[verifier::loop_isolation(false)]
pub fn parse_i64(s: &Vec<char>, from: usize, to: usize) -> (r: Option<i64>)
    requires
        from <= to <= s@.len(),
    ensures
        match r {
            Some(n) => parsed_i64(s@.subrange(from as int, to as int)) == Some(n as int),
            None => parsed_i64(s@.subrange(from as int, to as int)) is None,
        },
{
    let ghost part = s@.subrange(from as int, to as int);
    let signed: bool = from < to && (s[from] == '-' || s[from] == '+');
    let negative: bool = from < to && s[from] == '-';
    let start: usize = if signed {
        from + 1
    } else {
        from
    };
    let ghost body = s@.subrange(start as int, to as int);
    proof {
        if signed {
            assert(part.skip(1) =~= body);
        } else {
            assert(part =~= body);
        }
    }
    if start == to {
        return None;
    }
    let mut value: i128 = 0;
    let mut i: usize = start;
    assert(body.take(0) =~= Seq::<char>::empty());
    while i < to
        invariant
            start <= i <= to <= s@.len(),
            0 <= value <= 0x8000_0000_0000_0000,
            value == digits_value(body.take(i - start)),
            forall|j: int| 0 <= j < i - start ==> is_digit(#[trigger] body[j]),
        decreases to - i,
    {
        let c: char = s[i];
        let ghost k = i - start;
        assert(body[k] == c);
        if !('0' <= c && c <= '9') {
            assert(!is_digit(body[k]));
            return None;
        }
        assert(body.take(k + 1).drop_last() =~= body.take(k));
        assert(body.take(k + 1).last() == c);
        value = value * 10 + (c as u32 - '0' as u32) as i128;
        if value > 0x8000_0000_0000_0000 {
            proof {
                lemma_digits_grow(body, k + 1);
            }
            return None;
        }
        i += 1;
    }
    assert(body.take(i - start) =~= body);
    assert(all_digits(body));
    if negative {
        let wide: i128 = -value;
        Some(wide as i64)
    } else if value == 0x8000_0000_0000_0000 {
        None
    } else {
        Some(value as i64)
    }
}

/// The number that a text writes as an optional plus sign and decimal digits,
/// where it writes one that fits in 64 unsigned bits.
pub open spec fn parsed_u64(s: Seq<char>) -> Option<int> {
    let body = if s.len() > 0 && s[0] == '+' {
        s.skip(1)
    } else {
        s
    };
    if body.len() == 0 || !all_digits(body) || digits_value(body) > u64::MAX {
        None
    } else {
        Some(digits_value(body) as int)
    }
}

/// Reads `s` as an unsigned 64-bit decimal number.
#[verifier::loop_isolation(false)]
pub fn parse_u64(s: &str) -> (r: Option<u64>)
    ensures
        match r {
            Some(n) => parsed_u64(s@) == Some(n as int),
            None => parsed_u64(s@) is None,
        },
{
    let chars = chars_of(s);
    let start: usize = if chars.len() > 0 && chars[0] == '+' {
        1
    } else {
        0
    };
    let ghost body = s@.skip(start as int);
    assert(start == 0 ==> body =~= s@);
    if start == chars.len() {
        return None;
    }
    let mut value: u128 = 0;
    let mut i: usize = start;
    assert(body.take(0) =~= Seq::<char>::empty());
    while i < chars.len()
        invariant
            start <= i <= chars@.len(),
            0 <= value <= u64::MAX,
            value == digits_value(body.take(i - start)),
            forall|j: int| 0 <= j < i - start ==> is_digit(#[trigger] body[j]),
        decreases chars@.len() - i,
    {
        let c: char = chars[i];
        let ghost k = i - start;
        assert(body[k] == c);
        if !('0' <= c && c <= '9') {
            assert(!is_digit(body[k]));
            return None;
        }
        assert(body.take(k + 1).drop_last() =~= body.take(k));
        assert(body.take(k + 1).last() == c);
        value = value * 10 + (c as u32 - '0' as u32) as u128;
        if value > 0xffff_ffff_ffff_ffff {
            proof {
                lemma_digits_grow(body, k + 1);
            }
            return None;
        }
        i += 1;
    }
    assert(body.take(i - start) =~= body);
    assert(all_digits(body));
    Some(value as u64)
}

/// `s` without the slashes at its end.
pub open spec fn without_trailing_slashes(s: Seq<char>) -> Seq<char>
    decreases s.len(),
{
    if s.len() > 0 && s.last() == '/' {
        without_trailing_slashes(s.drop_last())
    } else {
        s
    }
}

/// Cuts the slashes at the end of `s` off.
pub fn trim_end_slashes(s: &str) -> (r: String)
    ensures
        r@ == without_trailing_slashes(s@),
{
    let chars = chars_of(s);
    let mut end: usize = chars.len();
    assert(chars@.subrange(0, end as int) =~= s@);
    while end > 0 && chars[end - 1] == '/'
        invariant
            end <= chars@.len(),
            without_trailing_slashes(s@) == without_trailing_slashes(
                chars@.subrange(0, end as int),
            ),
        decreases end,
    {
        end -= 1;
        assert(chars@.subrange(0, end + 1).drop_last() =~= chars@.subrange(0, end as int));
    }
    string_between(&chars, 0, end)
}

/// What follows `prefix` in `s`; nothing where `s` does not begin with it.
pub fn strip_prefix(s: &str, prefix: &str) -> (r: Option<String>)
    ensures
        match r {
            Some(rest) => s@ == prefix@ + rest@,
            None => !prefix@.is_prefix_of(s@),
        },
{
    let chars = chars_of(s);
    let pat = chars_of(prefix);
    if occurs(&chars, &pat, 0) {
        let rest = string_between(&chars, pat.len(), chars.len());
        assert(s@ =~= prefix@ + rest@);
        Some(rest)
    } else {
        None
    }
}

/// The character that writes the decimal digit `d`.
pub open spec fn digit_char(d: nat) -> char {
    ('0' as nat + d) as char
}

/// The character that writes the hexadecimal digit `d`, in upper or lower
/// case.
pub open spec fn hex_digit(d: nat, upper: bool) -> char {
    if d < 10 {
        ('0' as nat + d) as char
    } else if upper {
        ('A' as nat + d - 10) as char
    } else {
        ('a' as nat + d - 10) as char
    }
}

/// The two hexadecimal digits of a byte.
pub open spec fn hex_byte(b: u8, upper: bool) -> Seq<char> {
    seq![hex_digit(b as nat / 16, upper), hex_digit(b as nat % 16, upper)]
}

fn push_hex_digit(s: &mut String, d: u8, upper: bool)
    requires
        d < 16,
    ensures
        final(s)@ == old(s)@.push(hex_digit(d as nat, upper)),
{
    let code: u8 = if d < 10 {
        48 + d
    } else if upper {
        65 + (d - 10)
    } else {
        97 + (d - 10)
    };
    s.push(code as char);
}

/// Appends the two hexadecimal digits of a byte.
pub fn push_hex_byte(s: &mut String, b: u8, upper: bool)
    ensures
        final(s)@ == old(s)@ + hex_byte(b, upper),
{
    let ghost before = s@;
    push_hex_digit(s, b / 16, upper);
    push_hex_digit(s, b % 16, upper);
    assert(s@ =~= before + hex_byte(b, upper));
}

/// The decimal digits of `n`, without leading zeros.
pub open spec fn decimal(n: nat) -> Seq<char>
    decreases n,
{
    if n < 10 {
        seq![digit_char(n)]
    } else {
        decimal(n / 10).push(digit_char(n % 10))
    }
}

/// The decimal digits of `n`, after a minus sign where it is negative.
pub open spec fn signed_decimal(n: int) -> Seq<char> {
    if n < 0 {
        seq!['-'] + decimal((-n) as nat)
    } else {
        decimal(n as nat)
    }
}

/// Writes `n` in decimal.
pub fn decimal_text(n: u64) -> (s: String)
    ensures
        s@ == decimal(n as nat),
    decreases n,
{
    let digit: u8 = (n % 10) as u8 + 48;
    if n < 10 {
        let mut s: String = String::new();
        s.push(digit as char);
        assert(s@ =~= seq![digit_char(n as nat)]);
        s
    } else {
        let mut s: String = decimal_text(n / 10);
        s.push(digit as char);
        s
    }
}

/// Writes `n` in decimal, with a minus sign where it is negative.
pub fn signed_decimal_text(n: i64) -> (s: String)
    ensures
        s@ == signed_decimal(n as int),
{
    if n < 0 {
        let magnitude: u64 = (-(n as i128)) as u64;
        let mut s: String = String::new();
        s.push('-');
        s.append(decimal_text(magnitude).as_str());
        assert(s@ =~= seq!['-'] + decimal(magnitude as nat));
        s
    } else {
        decimal_text(n as u64)
    }
}

proof fn lemma_decimal_reads_back(n: nat)
    ensures
        all_digits(decimal(n)),
        digits_value(decimal(n)) == n,
        decimal(n).len() > 0,
        is_digit(decimal(n)[0]),
    decreases n,
{
    if n < 10 {
        assert(decimal(n).drop_last() =~= Seq::<char>::empty());
        assert(digits_value(Seq::<char>::empty()) == 0);
    } else {
        lemma_decimal_reads_back(n / 10);
        assert(decimal(n).drop_last() =~= decimal(n / 10));
        assert(decimal(n).last() == digit_char(n % 10));
    }
}

/// Reading a written number gives the number back.
pub proof fn number_reads_back(n: i64)
    ensures
        parsed_i64(signed_decimal(n as int)) == Some(n as int),
{
    if n < 0 {
        let m = (-n) as nat;
        lemma_decimal_reads_back(m);
        assert(signed_decimal(n as int).skip(1) =~= decimal(m));
    } else {
        lemma_decimal_reads_back(n as nat);
    }
}

/// A written number holds nothing but digits and a leading minus sign.
pub proof fn number_is_plain(n: i64)
    ensures
        forall|i: int|
            0 <= i < signed_decimal(n as int).len() ==> is_digit(
                #[trigger] signed_decimal(n as int)[i],
            ) || signed_decimal(n as int)[i] == '-',
{
    if n < 0 {
        lemma_decimal_reads_back((-n) as nat);
    } else {
        lemma_decimal_reads_back(n as nat);
    }
}

proof fn lemma_first_index(s: Seq<char>, c: char, from: int, at: int)
    requires
        0 <= from <= at <= s.len(),
        forall|i: int| from <= i < at ==> s[i] != c,
        at < s.len() ==> s[at] == c,
    ensures
        first_index(s, c, from) == (if at < s.len() {
            Some(at)
        } else {
            None
        }),
    decreases at - from,
{
    if from < at {
        lemma_first_index(s, c, from + 1, at);
    }
}

/// What stands before the first of a character is what was put before it,
/// whatever follows it.
pub proof fn text_ends_at_first(head: Seq<char>, c: char, tail: Seq<char>)
    requires
        !head.contains(c),
    ensures
        text_before(head + seq![c] + tail, c) == head,
{
    let s = head + seq![c] + tail;
    assert forall|i: int| 0 <= i < head.len() implies s[i] != c by {
        assert(head.contains(head[i]));
    }
    lemma_first_index(s, c, 0, head.len() as int);
    assert(s.subrange(0, head.len() as int) =~= head);
}

/// A text without a character stands whole before it.
pub proof fn text_stays_whole(s: Seq<char>, c: char)
    requires
        !s.contains(c),
    ensures
        text_before(s, c) == s,
{
    assert forall|i: int| 0 <= i < s.len() implies s[i] != c by {
        assert(s.contains(s[i]));
    }
    lemma_first_index(s, c, 0, s.len() as int);
}

proof fn lemma_find_from(s: Seq<char>, pat: Seq<char>, from: int)
    requires
        0 <= from,
    ensures
        match find_from(s, pat, from) {
            Some(i) => {
                &&& from <= i
                &&& i + pat.len() <= s.len()
                &&& s.subrange(i, i + pat.len()) == pat
                &&& forall|j: int|
                    #![trigger s.subrange(j, j + pat.len())]
                    from <= j < i ==> s.subrange(j, j + pat.len()) != pat
            },
            None => forall|j: int|
                #![trigger s.subrange(j, j + pat.len())]
                from <= j && j + pat.len() <= s.len() ==> s.subrange(j, j + pat.len()) != pat,
        },
    decreases s.len() - from + 1,
{
    if from + pat.len() <= s.len() && !occurs_at(s, pat, from) {
        lemma_find_from(s, pat, from + 1);
    }
}

/// A text is found at the first place where it stands, and it is found where
/// it stands anywhere.
pub proof fn first_occurrence_is_found(s: Seq<char>, pat: Seq<char>, from: int)
    requires
        0 <= from,
    ensures
        match find_from(s, pat, from) {
            Some(i) => {
                &&& from <= i
                &&& i + pat.len() <= s.len()
                &&& s.subrange(i, i + pat.len()) == pat
                &&& forall|j: int|
                    #![trigger s.subrange(j, j + pat.len())]
                    from <= j < i ==> s.subrange(j, j + pat.len()) != pat
            },
            None => forall|j: int|
                #![trigger s.subrange(j, j + pat.len())]
                from <= j && j + pat.len() <= s.len() ==> s.subrange(j, j + pat.len()) != pat,
        },
{
    lemma_find_from(s, pat, from);
}

/// A text holds another exactly where it is that text with something, maybe
/// nothing, on either side.
pub proof fn contained_text_has_two_sides(s: Seq<char>, pat: Seq<char>)
    ensures
        contains_text(s, pat) == exists|head: Seq<char>, tail: Seq<char>|
            s == #[trigger] (head + pat + tail),
{
    lemma_find_from(s, pat, 0);
    if contains_text(s, pat) {
        let i = find_from(s, pat, 0)->0;
        let (head, tail) = (s.take(i), s.skip(i + pat.len()));
        assert(s =~= head + pat + tail) by {
            assert forall|j: int| i <= j < i + pat.len() implies s[j] == pat[j - i] by {
                assert(s.subrange(i, i + pat.len())[j - i] == s[j]);
            }
        }
    }
    if exists|head: Seq<char>, tail: Seq<char>| s == #[trigger] (head + pat + tail) {
        let (head, tail) = choose|head: Seq<char>, tail: Seq<char>|
            s == #[trigger] (head + pat + tail);
        let n = head.len() as int;
        assert(s.subrange(n, n + pat.len()) =~= pat);
    }
}

/// Replacing changes the first occurrence and nothing on either side of it; a
/// text without an occurrence stays as it is.
pub proof fn replacing_keeps_both_sides(
    s: Seq<char>,
    from: Seq<char>,
    to: Seq<char>,
    head: Seq<char>,
    tail: Seq<char>,
)
    ensures
        s == head + from + tail && (forall|j: int|
            #![trigger s.subrange(j, j + from.len())]
            0 <= j < head.len() ==> s.subrange(j, j + from.len()) != from) ==> replaced_first(
            s,
            from,
            to,
        ) == head + to + tail,
        (forall|j: int|
            #![trigger s.subrange(j, j + from.len())]
            0 <= j && j + from.len() <= s.len() ==> s.subrange(j, j + from.len()) != from)
            ==> replaced_first(s, from, to) == s,
{
    lemma_find_from(s, from, 0);
    if s == head + from + tail && (forall|j: int|
        #![trigger s.subrange(j, j + from.len())]
        0 <= j < head.len() ==> s.subrange(j, j + from.len()) != from) {
        let n = head.len() as int;
        assert(s.subrange(n, n + from.len()) =~= from);
        assert(find_from(s, from, 0) == Some(n));
        assert(s.subrange(0, n) =~= head);
        assert(s.skip(n + from.len()) =~= tail);
    }
}

/// Cutting slashes off an end takes all of them and nothing else.
pub proof fn only_trailing_slashes_go(s: Seq<char>, slashes: Seq<char>)
    requires
        s.len() == 0 || s.last() != '/',
        forall|i: int| 0 <= i < slashes.len() ==> #[trigger] slashes[i] == '/',
    ensures
        without_trailing_slashes(s + slashes) == s,
    decreases slashes.len(),
{
    if slashes.len() == 0 {
        assert(s + slashes =~= s);
    } else {
        let fewer = slashes.drop_last();
        assert((s + slashes).drop_last() =~= s + fewer);
        only_trailing_slashes_go(s, fewer);
    }
}

/// Joining two lists of texts and putting the separator between the results
/// joins the lists; one text alone stays as it is, and no text gives none.
pub proof fn joining_splits_anywhere(a: Seq<Seq<char>>, b: Seq<Seq<char>>, sep: Seq<char>)
    ensures
        a.len() == 0 ==> joined(a, sep).len() == 0,
        a.len() == 1 ==> joined(a, sep) == a[0],
        a.len() > 0 && b.len() > 0 ==> joined(a + b, sep) == joined(a, sep) + sep + joined(b, sep),
    decreases b.len(),
{
    if a.len() > 0 && b.len() > 0 {
        assert((a + b).drop_last() =~= a + b.drop_last());
        assert((a + b).last() == b.last());
        if b.len() == 1 {
            assert(a + b.drop_last() =~= a);
        } else {
            joining_splits_anywhere(a, b.drop_last(), sep);
            assert(joined(a + b, sep) =~= joined(a, sep) + sep + joined(b, sep));
        }
    }
}

/// The authority part of a URL ends at the first `/`, `?` or `#`, and at the
/// end of the text where there is none.
pub proof fn authority_ends_at_first_mark(s: Seq<char>, from: int)
    requires
        0 <= from <= s.len(),
    ensures
        ({
            let end = authority_end(s, from);
            &&& from <= end <= s.len()
            &&& forall|i: int|
                from <= i < end ==> #[trigger] s[i] != '/' && s[i] != '?' && s[i] != '#'
            &&& end < s.len() ==> s[end] == '/' || s[end] == '?' || s[end] == '#'
        }),
    decreases s.len() - from,
{
    if from < s.len() && !(s[from] == '/' || s[from] == '?' || s[from] == '#') {
        authority_ends_at_first_mark(s, from + 1);
    }
}

/// The last of a character is found: none of it follows the place, and there
/// is no place only where there is none of it.
pub proof fn last_place_is_found(s: Seq<char>, c: char, to: int)
    requires
        0 <= to <= s.len(),
    ensures
        match last_index(s, c, to) {
            Some(i) => 0 <= i < to && s[i] == c && forall|j: int| i < j < to ==> #[trigger] s[j]
                != c,
            None => forall|j: int| 0 <= j < to ==> #[trigger] s[j] != c,
        },
    decreases to,
{
    if to > 0 && s[to - 1] != c {
        last_place_is_found(s, c, to - 1);
    }
}

/// Digits count by their place: those before `b` count ten times as much for
/// each digit of `b`, and a digit alone counts what it says.
pub proof fn digits_count_by_place(a: Seq<char>, b: Seq<char>, c: char)
    requires
        all_digits(a),
        all_digits(b),
        '0' as int <= c as int <= '9' as int,
    ensures
        digits_value(a + b) == digits_value(a) * vstd::arithmetic::power::pow(10, b.len())
            + digits_value(b),
        digits_value(seq![c]) == c as int - '0' as int,
    decreases b.len(),
{
    assert(seq![c].drop_last() =~= Seq::<char>::empty());
    assert(digits_value(Seq::<char>::empty()) == 0);
    if b.len() == 0 {
        assert(a + b =~= a);
        vstd::arithmetic::power::lemma_pow0(10);
    } else {
        let rest = b.drop_last();
        assert(all_digits(rest)) by {
            assert forall|i: int| 0 <= i < rest.len() implies is_digit(#[trigger] rest[i]) by {
                assert(is_digit(b[i]));
            }
        }
        assert((a + b).drop_last() =~= a + rest);
        assert((a + b).last() == b.last());
        digits_count_by_place(a, rest, c);
        reveal(vstd::arithmetic::power::pow);
        let p = vstd::arithmetic::power::pow(10, rest.len());
        assert(vstd::arithmetic::power::pow(10, b.len()) == 10 * p);
        let x = digits_value(a) as int;
        assert((x * p) * 10 == x * (10 * p)) by (nonlinear_arith);
    }
}

/// A text is read as a number exactly where it is at least one digit, after a
/// sign or without one, and the number fits.
pub proof fn only_digits_are_numbers(s: Seq<char>)
    ensures
        parsed_i64(s) is Some ==> forall|i: int|
            0 <= i < s.len() ==> '0' as int <= #[trigger] s[i] as int <= '9' as int || (i == 0 && (
            s[i] == '-' || s[i] == '+')),
        parsed_u64(s) is Some ==> forall|i: int|
            0 <= i < s.len() ==> '0' as int <= #[trigger] s[i] as int <= '9' as int || (i == 0
                && s[i] == '+'),
        s.len() == 0 ==> parsed_i64(s) is None && parsed_u64(s) is None,
        s == seq!['-'] || s == seq!['+'] ==> parsed_i64(s) is None && parsed_u64(s) is None,
{
    assert forall|i: int| parsed_i64(s) is Some && 0 <= i < s.len() implies '0' as int
        <= #[trigger] s[i] as int <= '9' as int || (i == 0 && (s[i] == '-' || s[i] == '+')) by {
        if s[0] == '-' || s[0] == '+' {
            if i > 0 {
                assert(is_digit(s.skip(1)[i - 1]));
            }
        } else {
            assert(is_digit(s[i]));
        }
    }
    assert forall|i: int| parsed_u64(s) is Some && 0 <= i < s.len() implies '0' as int
        <= #[trigger] s[i] as int <= '9' as int || (i == 0 && s[i] == '+') by {
        if s[0] == '+' {
            if i > 0 {
                assert(is_digit(s.skip(1)[i - 1]));
            }
        } else {
            assert(is_digit(s[i]));
        }
    }
}

/// Reading a written unsigned number gives the number back, after a plus sign
/// too; a signed number may carry one as well.
pub proof fn unsigned_number_reads_back(n: u64)
    ensures
        parsed_u64(decimal(n as nat)) == Some(n as int),
        parsed_u64(seq!['+'] + decimal(n as nat)) == Some(n as int),
        n <= i64::MAX ==> parsed_i64(seq!['+'] + decimal(n as nat)) == Some(n as int),
        n > i64::MAX ==> parsed_i64(decimal(n as nat)) is None,
{
    lemma_decimal_reads_back(n as nat);
    assert((seq!['+'] + decimal(n as nat)).skip(1) =~= decimal(n as nat));
}

/// A number is written without leading zeros: each of its digits is the one
/// of its place, and there are no more of them than the number has.
pub proof fn number_is_written_by_place(n: nat, k: nat)
    ensures
        n > 0 ==> decimal(n)[0] != '0',
        k < decimal(n).len() ==> decimal(n)[decimal(n).len() - 1 - k] as int == '0' as int + (n
            / vstd::arithmetic::power::pow(10, k) as nat) % 10,
    decreases n, k,
{
    vstd::arithmetic::power::lemma_pow0(10);
    if n >= 10 {
        let d = decimal(n / 10);
        lemma_decimal_reads_back(n / 10);
        assert(decimal(n) == d.push(digit_char(n % 10)));
        number_is_written_by_place(n / 10, 0);
        if 0 < k < decimal(n).len() {
            let j = (k - 1) as nat;
            number_is_written_by_place(n / 10, j);
            reveal(vstd::arithmetic::power::pow);
            vstd::arithmetic::power::lemma_pow_positive(10, j);
            let p = vstd::arithmetic::power::pow(10, j);
            assert(vstd::arithmetic::power::pow(10, k) == 10 * p);
            vstd::arithmetic::div_mod::lemma_div_denominator(n as int, 10, p);
        } else if k == 0 {
            assert(n as int / 1 == n as int);
        }
    }
}

/// The hexadecimal digits of a byte say the byte: the first counts sixteen
/// times what the second does, `0` to `9` say themselves and the six letters
/// ten to fifteen.
pub proof fn hex_digits_say_the_byte(b: u8, upper: bool)
    ensures
        ({
            let ten: int = if upper {
                'A' as int
            } else {
                'a' as int
            };
            let says = |c: char|
                if '0' as int <= c as int <= '9' as int {
                    c as int - '0' as int
                } else {
                    c as int - ten + 10
                };
            let s = hex_byte(b, upper);
            &&& s.len() == 2
            &&& says(s[0]) * 16 + says(s[1]) == b
            &&& forall|i: int|
                0 <= i < 2 ==> '0' as int <= #[trigger] s[i] as int <= '9' as int || ten
                    <= s[i] as int <= ten + 5
        }),
{
}

} // verus!
