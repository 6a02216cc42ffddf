//! Text primitives: decimal and hexadecimal rendering, comparison, trimming and
//! replacement, each stated over the sequence of characters of the text.
use vstd::prelude::*;

verus! {

/// `str::eq` of the standard library: two string slices are equal exactly when
/// they hold the same characters.
pub assume_specification[ <str as PartialEq>::eq ](a: &str, b: &str) -> (r: bool)
    ensures
        r == (a@ == b@),
;

/// `String::push` of the standard library: appends one character.
pub assume_specification[ String::push ](s: &mut String, c: char)
    ensures
        final(s)@ == old(s)@.push(c),
;

/// The character of a decimal digit.
pub open spec fn digit_char(d: int) -> char {
    (48 + d) as char
}

/// The decimal digits of `n`, most significant first, without leading zeros.
pub open spec fn decimal(n: nat) -> Seq<char>
    decreases n,
{
    if n < 10 {
        seq![digit_char(n as int)]
    } else {
        decimal(n / 10).push(digit_char((n % 10) as int))
    }
}

/// `s` with zeros in front of it up to `width` characters.
pub open spec fn zero_padded(s: Seq<char>, width: int) -> Seq<char> {
    if s.len() < width {
        Seq::new((width - s.len()) as nat, |i: int| '0') + s
    } else {
        s
    }
}

/// A signed integer in at least `width` characters, the sign counted, zeros
/// between the sign and the digits.
pub open spec fn padded_int(v: int, width: int) -> Seq<char> {
    if v < 0 {
        seq!['-'] + zero_padded(decimal((-v) as nat), width - 1)
    } else {
        zero_padded(decimal(v as nat), width)
    }
}

/// Appends the decimal digits of `n`.
pub fn push_decimal(out: &mut String, n: u64)
    ensures
        final(out)@ == old(out)@ + decimal(n as nat),
    decreases n,
{
    if n >= 10 {
        push_decimal(out, n / 10);
    }
    let d: u8 = (n % 10) as u8;
    out.push((48u8 + d) as char);
    proof {
        assert(decimal(n as nat).last() == digit_char((n % 10) as int));
        if n >= 10 {
            assert(old(out)@ + decimal(n as nat) =~= (old(out)@ + decimal((n / 10) as nat)).push(
                digit_char((n % 10) as int),
            ));
        }
    }
}

/// Appends `v` in at least `width` characters (see `padded_int`).
pub fn push_padded(out: &mut String, v: i64, width: usize)
    requires
        v > i64::MIN,
        width >= 1,
    ensures
        final(out)@ == old(out)@ + padded_int(v as int, width as int),
{
    let mut digits: String = String::new();
    let mut room: usize = width;
    let magnitude: u64;
    if v < 0 {
        out.push('-');
        room = width - 1;
        magnitude = (-v) as u64;
    } else {
        magnitude = v as u64;
    }
    push_decimal(&mut digits, magnitude);
    let ghost lead: Seq<char> = out@;
    let n: usize = digits.as_str().unicode_len();
    let mut k: usize = n;
    while k < room
        invariant
            n <= k,
            k <= room || k == n,
            out@ == lead + Seq::new((k - n) as nat, |i: int| '0'),
        decreases room - k,
    {
        out.push('0');
        k = k + 1;
        assert(lead + Seq::new((k - n) as nat, |i: int| '0') =~= (lead + Seq::new(
            (k - 1 - n) as nat,
            |i: int| '0',
        )).push('0'));
    }
    out.append(digits.as_str());
    proof {
        assert(digits@ =~= decimal(magnitude as nat));
        assert(out@ =~= old(out)@ + padded_int(v as int, width as int));
    }
}

/// The characters of `s`.
pub fn chars_of(s: &str) -> (r: Vec<char>)
    ensures
        r@ == s@,
{
    let mut v: Vec<char> = Vec::new();
    for c in it: s.chars()
        invariant
            v@ == s@.take(it.index()),
            it.seq() == s@,
    {
        v.push(c);
    }
    v
}

/// Appends the characters `from..to` of `v`.
pub fn push_chars(out: &mut String, v: &[char], from: usize, to: usize)
    requires
        from <= to <= v@.len(),
    ensures
        final(out)@ == old(out)@ + v@.subrange(from as int, to as int),
{
    let mut i: usize = from;
    assert(out@ =~= old(out)@ + v@.subrange(from as int, from as int));
    while i < to
        invariant
            from <= i <= to <= v@.len(),
            out@ == old(out)@ + v@.subrange(from as int, i as int),
        decreases to - i,
    {
        out.push(v[i]);
        i = i + 1;
        assert(old(out)@ + v@.subrange(from as int, i as int) =~= (old(out)@ + v@.subrange(
            from as int,
            i - 1,
        )).push(v@[i - 1]));
    }
}

/// `s` without the slashes at its end.
pub open spec fn trimmed_slashes(s: Seq<char>) -> Seq<char>
    decreases s.len(),
{
    if s.len() > 0 && s.last() == '/' {
        trimmed_slashes(s.drop_last())
    } else {
        s
    }
}

/// Takes the slashes off the end of `s`.
pub fn trim_end_slashes(s: &str) -> (r: String)
    ensures
        r@ == trimmed_slashes(s@),
{
    let v: Vec<char> = chars_of(s);
    let mut n: usize = v.len();
    assert(v@.take(n as int) =~= s@);
    while n > 0 && v[n - 1] == '/'
        invariant
            n <= v@.len(),
            trimmed_slashes(s@) == trimmed_slashes(v@.take(n as int)),
        decreases n,
    {
        assert(v@.take(n as int).drop_last() =~= v@.take(n - 1));
        n = n - 1;
    }
    let mut out: String = String::new();
    push_chars(&mut out, v.as_slice(), 0, n);
    assert(out@ =~= v@.take(n as int));
    out
}

/// Trimming slashes twice is trimming them once.
pub proof fn law_trim_slashes_twice(s: Seq<char>)
    ensures
        trimmed_slashes(trimmed_slashes(s)) == trimmed_slashes(s),
    decreases s.len(),
{
    if s.len() > 0 && s.last() == '/' {
        law_trim_slashes_twice(s.drop_last());
    }
}

/// Whether a character has the Unicode property White_Space.
pub open spec fn white_space(c: char) -> bool {
    let n = c as int;
    ||| 0x9 <= n <= 0xd
    ||| n == 0x20
    ||| n == 0x85
    ||| n == 0xa0
    ||| n == 0x1680
    ||| 0x2000 <= n <= 0x200a
    ||| n == 0x2028
    ||| n == 0x2029
    ||| n == 0x202f
    ||| n == 0x205f
    ||| n == 0x3000
}

/// `char::is_whitespace` of the standard library: whether the character has the
/// Unicode property White_Space.
pub assume_specification[ char::is_whitespace ](c: char) -> (r: bool)
    ensures
        r == white_space(c),
;

/// `s` without the white space at its end.
pub open spec fn trimmed_end(s: Seq<char>) -> Seq<char>
    decreases s.len(),
{
    if s.len() > 0 && white_space(s.last()) {
        trimmed_end(s.drop_last())
    } else {
        s
    }
}

/// `s` without the white space at its start.
pub open spec fn trimmed_start(s: Seq<char>) -> Seq<char>
    decreases s.len(),
{
    if s.len() > 0 && white_space(s[0]) {
        trimmed_start(s.skip(1))
    } else {
        s
    }
}

/// `s` without the white space at both ends.
pub open spec fn trimmed(s: Seq<char>) -> Seq<char> {
    trimmed_end(trimmed_start(s))
}

/// Takes the white space off both ends of `s`.
pub fn trim(s: &str) -> (r: String)
    ensures
        r@ == trimmed(s@),
{
    let v: Vec<char> = chars_of(s);
    let mut from: usize = 0;
    assert(v@.skip(0) =~= s@);
    while from < v.len() && v[from].is_whitespace()
        invariant
            from <= v@.len(),
            trimmed_start(s@) == trimmed_start(v@.skip(from as int)),
        decreases v@.len() - from,
    {
        assert(v@.skip(from as int).skip(1) =~= v@.skip(from + 1));
        from = from + 1;
    }
    let mut to: usize = v.len();
    assert(v@.subrange(from as int, to as int) =~= v@.skip(from as int));
    while to > from && v[to - 1].is_whitespace()
        invariant
            from <= to <= v@.len(),
            trimmed(s@) == trimmed_end(v@.subrange(from as int, to as int)),
        decreases to,
    {
        assert(v@.subrange(from as int, to as int).drop_last() =~= v@.subrange(
            from as int,
            to - 1,
        ));
        to = to - 1;
    }
    let mut out: String = String::new();
    push_chars(&mut out, v.as_slice(), from, to);
    assert(out@ =~= v@.subrange(from as int, to as int));
    out
}

/// Whether `pat` stands in `s` at `i`.
pub open spec fn matches_at(s: Seq<char>, pat: Seq<char>, i: int) -> bool {
    0 <= i && i + pat.len() <= s.len() && s.subrange(i, i + pat.len()) == pat
}

/// The first place from `i` on where `pat` stands in `s`.
pub open spec fn find_from(s: Seq<char>, pat: Seq<char>, i: int) -> Option<int>
    decreases s.len() + 1 - i,
{
    if i + pat.len() > s.len() {
        None
    } else if matches_at(s, pat, i) {
        Some(i)
    } else {
        find_from(s, pat, i + 1)
    }
}

/// `s` with the first `pat` in it replaced by `to`.
pub open spec fn replaced_first(s: Seq<char>, pat: Seq<char>, to: Seq<char>) -> Seq<char> {
    match find_from(s, pat, 0) {
        Some(i) => s.take(i) + to + s.skip(i + pat.len()),
        None => s,
    }
}

/// `s` from `i` on with every `pat` in it replaced by `to`, from left to right.
pub open spec fn replaced_from(s: Seq<char>, pat: Seq<char>, to: Seq<char>, i: int) -> Seq<char>
    decreases s.len() - i,
{
    if i < 0 || i >= s.len() {
        Seq::empty()
    } else if pat.len() > 0 && matches_at(s, pat, i) {
        to + replaced_from(s, pat, to, i + pat.len())
    } else {
        seq![s[i]] + replaced_from(s, pat, to, i + 1)
    }
}

/// `s` with every `pat` in it replaced by `to`, from left to right.
pub open spec fn replaced_all(s: Seq<char>, pat: Seq<char>, to: Seq<char>) -> Seq<char> {
    replaced_from(s, pat, to, 0)
}

fn has_at(s: &[char], pat: &[char], i: usize) -> (r: bool)
    requires
        i <= s@.len(),
    ensures
        r == matches_at(s@, pat@, i as int),
{
    if s.len() - i < pat.len() {
        return false;
    }
    let mut k: usize = 0;
    while k < pat.len()
        invariant
            k <= pat@.len(),
            i + pat@.len() <= s@.len() <= usize::MAX,
            forall|j: int| 0 <= j < k ==> s@[i + j] == pat@[j],
        decreases pat@.len() - k,
    {
        if s[i + k] != pat[k] {
            assert(s@.subrange(i as int, i + pat@.len())[k as int] != pat@[k as int]);
            return false;
        }
        k = k + 1;
    }
    assert(s@.subrange(i as int, i + pat@.len()) =~= pat@);
    true
}

/// Whether `s` starts with `pat`.
pub fn starts_with(s: &str, pat: &str) -> (r: bool)
    ensures
        r == matches_at(s@, pat@, 0),
{
    let v: Vec<char> = chars_of(s);
    let p: Vec<char> = chars_of(pat);
    has_at(v.as_slice(), p.as_slice(), 0)
}

/// Replaces the first `pat` in `s` by `to`.
pub fn replace_first(s: &str, pat: &str, to: &str) -> (r: String)
    requires
        pat@.len() > 0,
    ensures
        r@ == replaced_first(s@, pat@, to@),
{
    let v: Vec<char> = chars_of(s);
    let p: Vec<char> = chars_of(pat);
    if v.len() < p.len() {
        return s.to_owned();
    }
    let last: usize = v.len() - p.len();
    let mut i: usize = 0;
    while i <= last
        invariant
            v@ == s@,
            p@ == pat@,
            pat@.len() > 0,
            last == s@.len() - pat@.len(),
            s@.len() <= usize::MAX,
            i <= last + 1,
            find_from(s@, pat@, 0) == find_from(s@, pat@, i as int),
        decreases last + 1 - i,
    {
        if has_at(v.as_slice(), p.as_slice(), i) {
            let mut out: String = String::new();
            push_chars(&mut out, v.as_slice(), 0, i);
            out.append(to);
            push_chars(&mut out, v.as_slice(), i + p.len(), v.len());
            assert(out@ =~= s@.take(i as int) + to@ + s@.skip(i + pat@.len()));
            return out;
        }
        i = i + 1;
    }
    s.to_owned()
}

/// Replaces every `pat` in `s` by `to`, from left to right.
pub fn replace_all(s: &str, pat: &str, to: &str) -> (r: String)
    requires
        pat@.len() > 0,
    ensures
        r@ == replaced_all(s@, pat@, to@),
{
    let v: Vec<char> = chars_of(s);
    let p: Vec<char> = chars_of(pat);
    let mut out: String = String::new();
    let mut i: usize = 0;
    while i < v.len()
        invariant
            v@ == s@,
            p@ == pat@,
            pat@.len() > 0,
            i <= v@.len(),
            out@ + replaced_from(s@, pat@, to@, i as int) == replaced_all(s@, pat@, to@),
        decreases v@.len() - i,
    {
        let ghost before = out@;
        if has_at(v.as_slice(), p.as_slice(), i) {
            out.append(to);
            assert(before + (to@ + replaced_from(s@, pat@, to@, i + pat@.len())) =~= out@
                + replaced_from(s@, pat@, to@, i + pat@.len()));
            i = i + p.len();
        } else {
            out.push(v[i]);
            assert(before + (seq![s@[i as int]] + replaced_from(s@, pat@, to@, i + 1)) =~= out@
                + replaced_from(s@, pat@, to@, i + 1));
            i = i + 1;
        }
    }
    assert(out@ + Seq::<char>::empty() =~= out@);
    out
}

/// The lower-case hexadecimal digit of `d`.
pub open spec fn hex_char(d: int) -> char {
    if d < 10 {
        (48 + d) as char
    } else {
        (87 + d) as char
    }
}

/// The `width` lowest hexadecimal digits of `n`, most significant first.
pub open spec fn hex_digits(n: nat, width: nat) -> Seq<char>
    decreases width,
{
    if width == 0 {
        Seq::empty()
    } else {
        hex_digits(n / 16, (width - 1) as nat).push(hex_char((n % 16) as int))
    }
}

fn push_hex(out: &mut String, n: u64, width: usize)
    ensures
        final(out)@ == old(out)@ + hex_digits(n as nat, width as nat),
    decreases width,
{
    if width > 0 {
        push_hex(out, n / 16, width - 1);
        let d: u8 = (n % 16) as u8;
        let c: u8 = if d < 10 {
            48 + d
        } else {
            87 + d
        };
        out.push(c as char);
    }
    assert(final(out)@ =~= old(out)@ + hex_digits(n as nat, width as nat));
}

/// `n` in sixteen lower-case hexadecimal digits.
pub fn hex16(n: u64) -> (r: String)
    ensures
        r@ == hex_digits(n as nat, 16),
{
    let mut out: String = String::new();
    push_hex(&mut out, n, 16);
    assert(out@ =~= hex_digits(n as nat, 16));
    out
}

/// `a` followed by `b`.
pub fn joined(a: &str, b: &str) -> (r: String)
    ensures
        r@ == a@ + b@,
{
    let mut out: String = a.to_owned();
    out.append(b);
    out
}

/// Whether URL form encoding leaves a byte as it is.
pub open spec fn url_plain(c: u8) -> bool {
    c == 42 || c == 45 || c == 46 || 48 <= c <= 57 || 65 <= c <= 90 || c == 95 || 97 <= c <= 122
}

/// An upper-case hexadecimal digit.
pub open spec fn upper_hex_char(d: int) -> char {
    if d < 10 {
        (48 + d) as char
    } else {
        (55 + d) as char
    }
}

/// A byte in URL form encoding.
pub open spec fn url_encoded_byte(c: u8) -> Seq<char> {
    if url_plain(c) {
        seq![c as char]
    } else if c == 32 {
        seq!['+']
    } else {
        seq!['%', upper_hex_char(c as int / 16), upper_hex_char(c as int % 16)]
    }
}

/// Bytes in URL form encoding.
pub open spec fn url_encoded(b: Seq<u8>) -> Seq<char>
    decreases b.len(),
{
    if b.len() == 0 {
        Seq::empty()
    } else {
        url_encoded(b.drop_last()) + url_encoded_byte(b.last())
    }
}

/// `url::form_urlencoded::byte_serialize`, collected: letters, digits, `*`, `-`,
/// `.` and `_` stay, a space becomes `+`, any other byte `%` and two upper-case
/// hexadecimal digits.
#[verifier::external_body]
pub(crate) fn url_encode(s: &str) -> (r: String)
    ensures
        r@ == url_encoded(vstd::utf8::encode_utf8(s@)),
{
    url::form_urlencoded::byte_serialize(s.as_bytes()).collect()
}

/// What is left of a text without the slashes at its end stands in front, does not
/// end in a slash, and only slashes stood behind it.
pub proof fn law_slashes_trimmed(s: &str, r: String)
    requires
        call_ensures(trim_end_slashes, (s,), r),
    ensures
        r@.len() <= s@.len(),
        s@.take(r@.len() as int) == r@,
        r@.len() > 0 ==> r@.last() != '/',
        forall|i: int| r@.len() <= i < s@.len() ==> #[trigger] s@[i] == '/',
{
    lemma_slashes_trimmed(s@);
}

/// [`law_slashes_trimmed`] over the characters.
pub proof fn lemma_slashes_trimmed(s: Seq<char>)
    ensures
        trimmed_slashes(s).len() <= s.len(),
        s.take(trimmed_slashes(s).len() as int) == trimmed_slashes(s),
        trimmed_slashes(s).len() > 0 ==> trimmed_slashes(s).last() != '/',
        forall|i: int| trimmed_slashes(s).len() <= i < s.len() ==> #[trigger] s[i] == '/',
    decreases s.len(),
{
    if s.len() > 0 && s.last() == '/' {
        let d = s.drop_last();
        lemma_slashes_trimmed(d);
        assert(s.take(trimmed_slashes(s).len() as int) =~= d.take(trimmed_slashes(d).len() as int));
        assert forall|i: int| trimmed_slashes(s).len() <= i < s.len() implies #[trigger] s[i]
            == '/' by {
            if i < d.len() {
                assert(d[i] == s[i]);
            }
        }
    } else {
        assert(s.take(s.len() as int) =~= s);
    }
}

/// What is left of a text without the white space at both ends stands somewhere in
/// it, neither begins nor ends with white space, and only white space stood around
/// it.
pub proof fn law_white_space_trimmed(s: &str, r: String)
    requires
        call_ensures(trim, (s,), r),
    ensures
        exists|from: int|
            {
                &&& 0 <= from
                &&& from + r@.len() <= s@.len()
                &&& #[trigger] s@.subrange(from, from + r@.len()) == r@
                &&& forall|i: int| 0 <= i < from ==> white_space(#[trigger] s@[i])
                &&& forall|i: int| from + r@.len() <= i < s@.len() ==> white_space(#[trigger] s@[i])
            },
        r@.len() > 0 ==> !white_space(r@[0]) && !white_space(r@.last()),
{
    let t = trimmed_start(s@);
    lemma_start_trimmed(s@);
    lemma_end_trimmed(t);
    let from = s@.len() - t.len();
    assert(s@.subrange(from, from + r@.len()) =~= r@) by {
        assert forall|i: int| 0 <= i < r@.len() implies r@[i] == s@[from + i] by {
            assert(r@[i] == t.take(r@.len() as int)[i]);
            assert(t[i] == s@.skip(from)[i]);
        }
    }
    assert forall|i: int| from + r@.len() <= i < s@.len() implies white_space(#[trigger] s@[i]) by {
        assert(t[i - from] == s@.skip(from)[i - from]);
    }
    if r@.len() > 0 {
        assert(r@[0] == t.take(r@.len() as int)[0]);
    }
}

proof fn lemma_start_trimmed(s: Seq<char>)
    ensures
        trimmed_start(s).len() <= s.len(),
        trimmed_start(s) == s.skip(s.len() - trimmed_start(s).len()),
        trimmed_start(s).len() > 0 ==> !white_space(trimmed_start(s)[0]),
        forall|i: int|
            0 <= i < s.len() - trimmed_start(s).len() ==> white_space(#[trigger] s[i]),
    decreases s.len(),
{
    if s.len() > 0 && white_space(s[0]) {
        let d = s.skip(1);
        lemma_start_trimmed(d);
        assert(d.skip(d.len() - trimmed_start(d).len())
            =~= s.skip(s.len() - trimmed_start(d).len()));
        assert forall|i: int| 0 <= i < s.len() - trimmed_start(s).len() implies white_space(
            #[trigger] s[i],
        ) by {
            if i > 0 {
                assert(d[i - 1] == s[i]);
            }
        }
    } else {
        assert(s.skip(0) =~= s);
    }
}

proof fn lemma_end_trimmed(s: Seq<char>)
    ensures
        trimmed_end(s).len() <= s.len(),
        trimmed_end(s) == s.take(trimmed_end(s).len() as int),
        trimmed_end(s).len() > 0 ==> !white_space(trimmed_end(s).last()),
        forall|i: int| trimmed_end(s).len() <= i < s.len() ==> white_space(#[trigger] s[i]),
    decreases s.len(),
{
    if s.len() > 0 && white_space(s.last()) {
        let d = s.drop_last();
        lemma_end_trimmed(d);
        assert(d.take(trimmed_end(d).len() as int) =~= s.take(trimmed_end(d).len() as int));
        assert forall|i: int| trimmed_end(s).len() <= i < s.len() implies white_space(
            #[trigger] s[i],
        ) by {
            if i < d.len() {
                assert(d[i] == s[i]);
            }
        }
    } else {
        assert(s.take(s.len() as int) =~= s);
    }
}

/// Whether `pat` stands in `s` at `i`, character by character.
pub open spec fn stands_at(s: Seq<char>, pat: Seq<char>, i: int) -> bool {
    0 <= i && i + pat.len() <= s.len() && forall|j: int|
        0 <= j < pat.len() ==> s[i + j] == #[trigger] pat[j]
}

/// [`stands_at`] and [`matches_at`] say the same.
pub proof fn lemma_stands_at(s: Seq<char>, pat: Seq<char>, i: int)
    ensures
        stands_at(s, pat, i) == matches_at(s, pat, i),
{
    if 0 <= i && i + pat.len() <= s.len() {
        let t = s.subrange(i, i + pat.len());
        if stands_at(s, pat, i) {
            assert(t =~= pat);
        }
        if t == pat {
            assert forall|j: int| 0 <= j < pat.len() implies s[i + j] == #[trigger] pat[j] by {
                assert(t[j] == s[i + j]);
            }
        }
    }
}

/// A text starts with another one exactly where its first characters are those.
pub proof fn law_starts_with(s: &str, pat: &str, r: bool)
    requires
        call_ensures(starts_with, (s, pat), r),
    ensures
        r <==> stands_at(s@, pat@, 0),
{
    lemma_stands_at(s@, pat@, 0);
}

/// Replacing leaves a text alone that does not hold the pattern. Else what stands
/// before the first place of the pattern stays, then comes the replacement, and then
/// the rest as it was.
pub proof fn law_first_replaced(s: &str, pat: &str, to: &str, r: String, i: int)
    requires
        pat@.len() > 0,
        call_ensures(replace_first, (s, pat, to), r),
    ensures
        (forall|j: int| !#[trigger] stands_at(s@, pat@, j)) ==> r@ == s@,
        stands_at(s@, pat@, i) && (forall|j: int|
            0 <= j < i ==> !#[trigger] stands_at(s@, pat@, j)) ==> r@ == s@.take(i) + to@ + s@.skip(
            i + pat@.len(),
        ),
{
    lemma_found(s@, pat@, 0);
    if stands_at(s@, pat@, i) {
        lemma_stands_at(s@, pat@, i);
    }
    if let Some(k) = find_from(s@, pat@, 0) {
        assert(stands_at(s@, pat@, k));
    }
}

/// [`law_first_replaced`] over the characters.
pub proof fn lemma_first_replaced(s: Seq<char>, pat: Seq<char>, to: Seq<char>, i: int)
    requires
        stands_at(s, pat, i),
        forall|j: int| 0 <= j < i ==> !#[trigger] stands_at(s, pat, j),
    ensures
        replaced_first(s, pat, to) == s.take(i) + to + s.skip(i + pat.len()),
{
    lemma_found(s, pat, 0);
    if let Some(k) = find_from(s, pat, 0) {
        assert(stands_at(s, pat, k));
    }
}

/// [`law_first_replaced`] over the characters, where the pattern is missing.
pub proof fn lemma_first_missing(s: Seq<char>, pat: Seq<char>, to: Seq<char>)
    requires
        forall|j: int| !#[trigger] stands_at(s, pat, j),
    ensures
        replaced_first(s, pat, to) == s,
{
    lemma_found(s, pat, 0);
}

proof fn lemma_found(s: Seq<char>, pat: Seq<char>, i: int)
    requires
        0 <= i,
    ensures
        match find_from(s, pat, i) {
            Some(k) => i <= k && stands_at(s, pat, k) && forall|j: int|
                i <= j < k ==> !#[trigger] stands_at(s, pat, j),
            None => forall|j: int| i <= j ==> !#[trigger] stands_at(s, pat, j),
        },
    decreases s.len() + 1 - i,
{
    lemma_stands_at(s, pat, i);
    if i + pat.len() <= s.len() && !matches_at(s, pat, i) {
        lemma_found(s, pat, i + 1);
    }
}

/// Replacing everywhere leaves a text alone that does not hold the pattern. Else what
/// stands before the first place of the pattern stays, then comes the replacement,
/// and then the rest, replaced everywhere.
pub proof fn law_all_replaced(
    s: &str,
    pat: &str,
    to: &str,
    r: String,
    i: int,
    rest: &str,
    q: String,
)
    requires
        pat@.len() > 0,
        call_ensures(replace_all, (s, pat, to), r),
        call_ensures(replace_all, (rest, pat, to), q),
    ensures
        (forall|j: int| !#[trigger] stands_at(s@, pat@, j)) ==> r@ == s@,
        stands_at(s@, pat@, i) && (forall|j: int|
            0 <= j < i ==> !#[trigger] stands_at(s@, pat@, j)) && rest@ == s@.skip(i + pat@.len())
            ==> r@ == s@.take(i) + to@ + q@,
{
    if forall|j: int| !#[trigger] stands_at(s@, pat@, j) {
        lemma_replaced_none(s@, pat@, to@, 0, s@.len() as int);
        assert(s@.skip(0) =~= s@);
        assert(replaced_from(s@, pat@, to@, s@.len() as int) =~= Seq::empty());
        assert(s@.subrange(0, s@.len() as int) + Seq::<char>::empty() =~= s@);
    }
    if stands_at(s@, pat@, i) && (forall|j: int| 0 <= j < i ==> !#[trigger] stands_at(s@, pat@, j))
        && rest@ == s@.skip(i + pat@.len()) {
        lemma_all_replaced(s@, pat@, to@, i);
    }
}

/// [`law_all_replaced`] over the characters.
pub proof fn lemma_all_replaced(s: Seq<char>, pat: Seq<char>, to: Seq<char>, i: int)
    requires
        pat.len() > 0,
        stands_at(s, pat, i),
        forall|j: int| 0 <= j < i ==> !#[trigger] stands_at(s, pat, j),
    ensures
        replaced_all(s, pat, to) == s.take(i) + to + replaced_all(s.skip(i + pat.len()), pat, to),
{
    lemma_replaced_none(s, pat, to, 0, i);
    lemma_stands_at(s, pat, i);
    lemma_replaced_shift(s, pat, to, i + pat.len(), 0);
    assert(s.subrange(0, i) =~= s.take(i));
    assert(s.take(i) + (to + replaced_from(s, pat, to, i + pat.len())) =~= s.take(i) + to
        + replaced_from(s, pat, to, i + pat.len()));
}

/// [`law_all_replaced`] over the characters, where the pattern is missing.
pub proof fn lemma_nothing_replaced(s: Seq<char>, pat: Seq<char>, to: Seq<char>)
    requires
        forall|j: int| 0 <= j < s.len() ==> !#[trigger] stands_at(s, pat, j),
    ensures
        replaced_all(s, pat, to) == s,
{
    lemma_replaced_none(s, pat, to, 0, s.len() as int);
    assert(replaced_from(s, pat, to, s.len() as int) =~= Seq::empty());
    assert(s.subrange(0, s.len() as int) + Seq::<char>::empty() =~= s);
}

proof fn lemma_replaced_none(s: Seq<char>, pat: Seq<char>, to: Seq<char>, i: int, k: int)
    requires
        0 <= i <= k <= s.len(),
        forall|j: int| i <= j < k ==> !#[trigger] stands_at(s, pat, j),
    ensures
        replaced_from(s, pat, to, i) == s.subrange(i, k) + replaced_from(s, pat, to, k),
    decreases k - i,
{
    if i < k {
        assert(!stands_at(s, pat, i));
        lemma_stands_at(s, pat, i);
        lemma_replaced_none(s, pat, to, i + 1, k);
        assert(seq![s[i]] + (s.subrange(i + 1, k) + replaced_from(s, pat, to, k))
            =~= s.subrange(i, k)
            + replaced_from(s, pat, to, k));
    } else {
        assert(s.subrange(i, k) + replaced_from(s, pat, to, k) =~= replaced_from(s, pat, to, k));
    }
}

proof fn lemma_replaced_shift(s: Seq<char>, pat: Seq<char>, to: Seq<char>, d: int, i: int)
    requires
        0 <= i,
        0 <= d <= s.len(),
    ensures
        replaced_from(s, pat, to, d + i) == replaced_from(s.skip(d), pat, to, i),
    decreases s.len() - d - i,
{
    if d + i < s.len() {
        let t = s.skip(d);
        assert(t[i] == s[d + i]);
        if i + pat.len() <= t.len() {
            assert(t.subrange(i, i + pat.len()) =~= s.subrange(d + i, d + i + pat.len()));
        }
        assert(matches_at(t, pat, i) == matches_at(s, pat, d + i));
        if pat.len() > 0 && matches_at(s, pat, d + i) {
            lemma_replaced_shift(s, pat, to, d, i + pat.len());
            assert(d + i + pat.len() == d + (i + pat.len()));
        } else {
            lemma_replaced_shift(s, pat, to, d, i + 1);
            assert(d + i + 1 == d + (i + 1));
        }
    }
}

/// The number that digits stand for, in a base.
pub open spec fn number_of(s: Seq<char>, base: int) -> int
    decreases s.len(),
{
    if s.len() == 0 {
        0
    } else {
        let c = s.last() as int;
        base * number_of(s.drop_last(), base) + if 48 <= c <= 57 {
            c - 48
        } else {
            c - 87
        }
    }
}

/// The decimal digits of a number stand for it, and no zero stands in front of them.
pub proof fn law_decimal_reads_back(n: nat)
    ensures
        number_of(decimal(n), 10) == n,
        forall|i: int| 0 <= i < decimal(n).len() ==> '0' <= #[trigger] decimal(n)[i] <= '9',
        decimal(n).len() > 0,
        n > 0 ==> decimal(n)[0] != '0',
        n == 0 ==> decimal(n) == seq!['0'],
    decreases n,
{
    if n < 10 {
        let s = decimal(n);
        assert(s.drop_last() =~= Seq::<char>::empty());
        assert(number_of(s.drop_last(), 10) == 0);
    } else {
        law_decimal_reads_back(n / 10);
        let s = decimal(n);
        assert(s.drop_last() =~= decimal(n / 10));
        assert(s.last() == digit_char((n % 10) as int));
    }
}

/// An identifier has sixteen digits from 0 to f, and they stand for its number.
pub proof fn law_hex_reads_back(n: u64, r: String)
    requires
        call_ensures(hex16, (n,), r),
    ensures
        r@.len() == 16,
        forall|i: int|
            0 <= i < 16 ==> '0' <= #[trigger] r@[i] <= '9' || 'a' <= r@[i] <= 'f',
        number_of(r@, 16) == n,
{
    lemma_hex(n as nat, 16);
    lemma_pow_sixteen();
    assert(n as int % 0x1_0000_0000_0000_0000int == n);
}

proof fn lemma_pow_sixteen()
    ensures
        vstd::arithmetic::power::pow(16, 16) == 0x1_0000_0000_0000_0000int,
{
    lemma_power_step(1);
    lemma_power_step(2);
    lemma_power_step(3);
    lemma_power_step(4);
    lemma_power_step(0);
    let a = vstd::arithmetic::power::pow(16, 4);
    let b = vstd::arithmetic::power::pow(16, 8);
    assert(a == 65536);
    vstd::arithmetic::power::lemma_pow_adds(16, 4, 4);
    assert(a * a == 4294967296) by (nonlinear_arith)
        requires
            a == 65536,
    ;
    assert(b == 4294967296);
    vstd::arithmetic::power::lemma_pow_adds(16, 8, 8);
    assert(b * b == 18446744073709551616int) by (nonlinear_arith)
        requires
            b == 4294967296,
    ;
}

/// Hexadecimal digits: as many as asked for, each one a digit, and the number that
/// they stand for.
pub proof fn lemma_hex(n: nat, width: nat)
    ensures
        hex_digits(n, width).len() == width,
        forall|i: int|
            0 <= i < width ==> '0' <= #[trigger] hex_digits(n, width)[i] <= '9' || 'a'
                <= hex_digits(n, width)[i] <= 'f',
        number_of(hex_digits(n, width), 16) == n as int % vstd::arithmetic::power::pow(16, width),
    decreases width,
{
    lemma_power_step(width);
    if width > 0 {
        let w = (width - 1) as nat;
        lemma_hex(n / 16, w);
        let s = hex_digits(n, width);
        assert(s.drop_last() =~= hex_digits(n / 16, w));
        assert(s.last() == hex_char((n % 16) as int));
        let p = vstd::arithmetic::power::pow(16, w);
        vstd::arithmetic::power::lemma_pow_positive(16, w);
        vstd::arithmetic::div_mod::lemma_breakdown(n as int, 16, p);
    } else {
        assert(n as int % 1 == 0);
    }
}

proof fn lemma_power_step(width: nat)
    ensures
        width == 0 ==> vstd::arithmetic::power::pow(16, width) == 1,
        width > 0 ==> vstd::arithmetic::power::pow(16, width) == 16 * vstd::arithmetic::power::pow(
            16,
            (width - 1) as nat,
        ),
{
    reveal(vstd::arithmetic::power::pow);
}

/// A number is written in at least the width asked for, with zeros in front, and
/// stands for itself; a negative one has its sign in front and counts it.
pub proof fn law_padded_reads_back(v: int, width: int)
    requires
        width >= 1,
    ensures
        padded_int(v, width).len() >= width,
        v >= 0 ==> number_of(padded_int(v, width), 10) == v,
        v >= 0 && decimal(v as nat).len() >= width ==> padded_int(v, width) == decimal(v as nat),
        v >= 0 && decimal(v as nat).len() < width ==> padded_int(v, width).len() == width
            && padded_int(v, width)[0] == '0',
        v < 0 ==> padded_int(v, width)[0] == '-' && number_of(padded_int(v, width).skip(1), 10)
            == -v,
{
    let d = decimal(
        if v < 0 {
            (-v) as nat
        } else {
            v as nat
        },
    );
    law_decimal_reads_back(
        if v < 0 {
            (-v) as nat
        } else {
            v as nat
        },
    );
    let w = if v < 0 {
        width - 1
    } else {
        width
    };
    if d.len() < w {
        lemma_leading_zeros(d, (w - d.len()) as nat);
    }
    if v < 0 {
        assert(padded_int(v, width).skip(1) =~= zero_padded(d, width - 1));
    }
}

proof fn lemma_leading_zeros(d: Seq<char>, n: nat)
    ensures
        number_of(Seq::new(n, |i: int| '0') + d, 10) == number_of(d, 10),
    decreases n + d.len(),
{
    let z = Seq::new(n, |i: int| '0');
    if d.len() > 0 {
        lemma_leading_zeros(d.drop_last(), n);
        assert((z + d).drop_last() =~= z + d.drop_last());
        assert((z + d).last() == d.last());
    } else if n > 0 {
        let y = Seq::new((n - 1) as nat, |i: int| '0');
        lemma_leading_zeros(d, (n - 1) as nat);
        assert((z + d).drop_last() =~= y + d);
        assert((z + d).last() == '0');
        assert(number_of(d, 10) == 0);
    } else {
        assert(z + d =~= d);
    }
}

/// Encoding for a URL goes byte by byte, in order: letters, digits and four signs
/// stay, a space becomes a plus, and any other byte a percent sign with its two
/// hexadecimal digits. Nothing that separates the parts of a URL is left.
pub proof fn law_url_encoding(b: Seq<u8>, c: u8)
    ensures
        url_encoded(Seq::<u8>::empty()).len() == 0,
        url_encoded(b.push(c)).take(url_encoded(b).len() as int) == url_encoded(b),
        ({
            let t = url_encoded(b.push(c)).skip(url_encoded(b).len() as int);
            let plain = 48 <= c <= 57 || 65 <= c <= 90 || 97 <= c <= 122 || c == 42 || c == 45 || c
                == 46 || c == 95;
            &&& plain ==> t.len() == 1 && t[0] as int == c as int
            &&& c == 32 ==> t == seq!['+']
            &&& !plain && c != 32 ==> t.len() == 3 && t[0] == '%' && 16 * hex_worth(t[1])
                + hex_worth(t[2]) == c
        }),
        forall|i: int|
            0 <= i < url_encoded(b).len() ==> #[trigger] url_encoded(b)[i] != '/' && url_encoded(
                b,
            )[i] != '?' && url_encoded(b)[i] != '&' && url_encoded(b)[i] != '=' && url_encoded(b)[i]
                != '#',
{
    assert(b.push(c).drop_last() =~= b);
    let s = url_encoded(b);
    let t = url_encoded_byte(c);
    assert((s + t).take(s.len() as int) =~= s);
    assert((s + t).skip(s.len() as int) =~= t);
    lemma_no_separators(b);
}

/// What an upper-case hexadecimal digit is worth.
pub open spec fn hex_worth(c: char) -> int {
    if '0' <= c <= '9' {
        c as int - '0' as int
    } else {
        c as int - 'A' as int + 10
    }
}

proof fn lemma_no_separators(b: Seq<u8>)
    ensures
        forall|i: int|
            0 <= i < url_encoded(b).len() ==> #[trigger] url_encoded(b)[i] != '/' && url_encoded(
                b,
            )[i] != '?' && url_encoded(b)[i] != '&' && url_encoded(b)[i] != '=' && url_encoded(b)[i]
                != '#',
    decreases b.len(),
{
    if b.len() > 0 {
        lemma_no_separators(b.drop_last());
        let s = url_encoded(b.drop_last());
        let t = url_encoded_byte(b.last());
        assert forall|i: int| 0 <= i < url_encoded(b).len() implies #[trigger] url_encoded(b)[i]
            != '/' && url_encoded(b)[i] != '?' && url_encoded(b)[i] != '&' && url_encoded(b)[i]
            != '=' && url_encoded(b)[i] != '#' by {
            if i < s.len() {
                assert(url_encoded(b)[i] == s[i]);
            } else {
                assert(url_encoded(b)[i] == t[i - s.len()]);
            }
        }
    }
}

} // verus!
