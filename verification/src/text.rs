use vstd::prelude::*;

use vstd::string::StrSliceExecFns;
use vstd::string::StringExecFns;

verus! {

/// ASCII whitespace, the blank space the log format can carry around values.
pub open spec fn is_space(c: char) -> bool {
    c == ' ' || c == '\t' || c == '\n' || c == '\r'
}

/// True exactly when `c` is ASCII whitespace.
pub fn is_space_char(c: char) -> (r: bool)
    ensures
        r == is_space(c),
{
    c == ' ' || c == '\t' || c == '\n' || c == '\r'
}

/// `s` without its leading whitespace.
pub open spec fn spec_trim_start(s: Seq<char>) -> Seq<char>
    decreases s.len(),
{
    if s.len() > 0 && is_space(s.first()) {
        spec_trim_start(s.drop_first())
    } else {
        s
    }
}

/// `s` without its trailing whitespace.
pub open spec fn spec_trim_end(s: Seq<char>) -> Seq<char>
    decreases s.len(),
{
    if s.len() > 0 && is_space(s.last()) {
        spec_trim_end(s.drop_last())
    } else {
        s
    }
}

/// `s` without leading or trailing whitespace.
pub open spec fn spec_trim(s: Seq<char>) -> Seq<char> {
    spec_trim_end(spec_trim_start(s))
}

proof fn lemma_trim_start_subrange(s: Seq<char>, i: int)
    requires
        0 <= i <= s.len(),
        forall|j: int| 0 <= j < i ==> is_space(s[j]),
    ensures
        spec_trim_start(s) == spec_trim_start(s.subrange(i, s.len() as int)),
    decreases i,
{
    if i > 0 {
        assert(s.subrange(0, s.len() as int) =~= s);
        assert(s.drop_first() =~= s.subrange(1, s.len() as int));
        lemma_trim_start_subrange(s.drop_first(), i - 1);
        assert(s.drop_first().subrange(i - 1, s.drop_first().len() as int) =~= s.subrange(
            i,
            s.len() as int,
        ));
    } else {
        assert(s.subrange(0, s.len() as int) =~= s);
    }
}

proof fn lemma_trim_end_subrange(s: Seq<char>, i: int)
    requires
        0 <= i <= s.len(),
        forall|j: int| i <= j < s.len() ==> is_space(s[j]),
    ensures
        spec_trim_end(s) == spec_trim_end(s.subrange(0, i)),
    decreases s.len() - i,
{
    if i < s.len() {
        assert(is_space(s.last()));
        lemma_trim_end_subrange(s.drop_last(), i);
        assert(s.drop_last().subrange(0, i) =~= s.subrange(0, i));
    } else {
        assert(s.subrange(0, s.len() as int) =~= s);
    }
}

/// `s` without leading or trailing ASCII whitespace.
pub fn trim(s: &str) -> (r: &str)
    ensures
        r@ == spec_trim(s@),
{
    let len = s.unicode_len();
    let mut start: usize = 0;
    while start < len && is_space_char(s.get_char(start))
        invariant
            start <= len,
            len == s@.len(),
            forall|j: int| 0 <= j < start ==> is_space(s@[j]),
        decreases len - start,
    {
        start += 1;
    }
    proof {
        lemma_trim_start_subrange(s@, start as int);
    }
    let mut end: usize = len;
    while end > start && is_space_char(s.get_char(end - 1))
        invariant
            start <= end <= len,
            len == s@.len(),
            forall|j: int| 0 <= j < start ==> is_space(s@[j]),
            forall|j: int| end <= j < len ==> is_space(s@[j]),
        decreases end,
    {
        end -= 1;
    }
    let ghost rest = s@.subrange(start as int, len as int);
    proof {
        assert(forall|j: int|
            end - start <= j < rest.len() ==> is_space(#[trigger] rest[j]) && rest[j] == s@[j
                + start]);
        lemma_trim_end_subrange(rest, end - start);
        assert(rest.subrange(0, end - start) =~= s@.subrange(start as int, end as int));
        if end > start {
            assert(!is_space(rest[end - start - 1]));
        }
        assert(spec_trim_end(rest.subrange(0, end - start)) == rest.subrange(0, end - start));
    }
    s.substring_char(start, end)
}

/// True exactly when the two strings hold the same characters.
pub fn str_eq(a: &str, b: &str) -> (r: bool)
    ensures
        r == (a@ == b@),
{
    let la = a.unicode_len();
    let lb = b.unicode_len();
    if la != lb {
        return false;
    }
    let mut i: usize = 0;
    while i < la
        invariant
            i <= la,
            la == a@.len(),
            la == b@.len(),
            forall|j: int| 0 <= j < i ==> a@[j] == b@[j],
        decreases la - i,
    {
        if a.get_char(i) != b.get_char(i) {
            assert(a@ != b@) by {
                assert(a@[i as int] != b@[i as int]);
            }
            return false;
        }
        i += 1;
    }
    assert(a@ =~= b@);
    true
}

/// Whether `needle` occurs in `hay` starting at position `i`.
pub open spec fn occurs_at(hay: Seq<char>, needle: Seq<char>, i: int) -> bool {
    0 <= i && i + needle.len() <= hay.len() && hay.subrange(i, i + needle.len()) == needle
}

/// The position of the first occurrence of `needle` in `hay`, if any.
pub open spec fn spec_find(hay: Seq<char>, needle: Seq<char>) -> Option<int>
    decreases hay.len(),
{
    if needle.len() > hay.len() {
        None
    } else if hay.subrange(0, needle.len() as int) =~= needle {
        Some(0)
    } else {
        match spec_find(hay.drop_first(), needle) {
            Some(i) => Some(i + 1),
            None => None,
        }
    }
}

/// What `spec_find` returns: the least occurrence, or none anywhere.
pub proof fn lemma_spec_find(hay: Seq<char>, needle: Seq<char>)
    ensures
        match spec_find(hay, needle) {
            Some(i) => occurs_at(hay, needle, i) && (forall|j: int|
                0 <= j < i ==> !occurs_at(hay, needle, j)),
            None => forall|i: int| !occurs_at(hay, needle, i),
        },
    decreases hay.len(),
{
    if needle.len() > hay.len() {
        assert(forall|i: int| !occurs_at(hay, needle, i));
    } else if hay.subrange(0, needle.len() as int) =~= needle {
        assert(occurs_at(hay, needle, 0));
    } else {
        assert(hay.len() > 0);
        lemma_spec_find(hay.drop_first(), needle);
        assert forall|j: int| occurs_at(hay, needle, j) implies j >= 1 && occurs_at(
            hay.drop_first(),
            needle,
            j - 1,
        ) by {
            if j == 0 {
                assert(hay.subrange(0, needle.len() as int) == needle);
            } else {
                let a = hay.drop_first().subrange(j - 1, j - 1 + needle.len());
                let b = hay.subrange(j, j + needle.len());
                assert forall|m: int| 0 <= m < a.len() implies a[m] == b[m] by {
                    assert(a[m] == hay.drop_first()[j - 1 + m]);
                    assert(hay.drop_first()[j - 1 + m] == hay[j + m]);
                }
                assert(a =~= b);
            }
        }
        assert forall|j: int| occurs_at(hay.drop_first(), needle, j) implies occurs_at(
            hay,
            needle,
            j + 1,
        ) by {
            let a = hay.drop_first().subrange(j, j + needle.len());
            let b = hay.subrange(j + 1, j + 1 + needle.len());
            assert forall|m: int| 0 <= m < a.len() implies a[m] == b[m] by {
                assert(a[m] == hay.drop_first()[j + m]);
                assert(hay.drop_first()[j + m] == hay[j + 1 + m]);
            }
            assert(a =~= b);
        }
    }
}

/// The position of the first occurrence of `needle` in `hay`, if any.
pub fn find(hay: &str, needle: &str) -> (r: Option<usize>)
    ensures
        match r {
            Some(i) => spec_find(hay@, needle@) == Some(i as int),
            None => spec_find(hay@, needle@) is None,
        },
{
    let hlen = hay.unicode_len();
    let nlen = needle.unicode_len();
    proof {
        lemma_spec_find(hay@, needle@);
    }
    if nlen > hlen {
        assert(forall|i: int| !occurs_at(hay@, needle@, i));
        return None;
    }
    let mut i: usize = 0;
    while i <= hlen - nlen
        invariant
            hlen == hay@.len(),
            nlen == needle@.len(),
            nlen <= hlen,
            i <= hlen - nlen + 1,
            forall|j: int| 0 <= j < i ==> !occurs_at(hay@, needle@, j),
        decreases hlen + 1 - i,
    {
        let mut k: usize = 0;
        let mut matched = true;
        while k < nlen
            invariant
                hlen == hay@.len(),
                nlen == needle@.len(),
                i + nlen <= hlen,
                k <= nlen,
                matched == (forall|m: int| 0 <= m < k ==> hay@[i + m] == needle@[m]),
            decreases nlen - k,
        {
            if hay.get_char(i + k) != needle.get_char(k) {
                assert(hay@[i + k as int] != needle@[k as int]);
                matched = false;
                k = nlen;
            } else {
                proof {
                    if matched {
                        assert(forall|m: int| 0 <= m < k + 1 ==> hay@[i + m] == needle@[m]);
                    }
                }
                k += 1;
            }
        }
        if matched {
            proof {
                assert(hay@.subrange(i as int, i + nlen) =~= needle@);
                assert(occurs_at(hay@, needle@, i as int));
                lemma_spec_find(hay@, needle@);
                match spec_find(hay@, needle@) {
                    Some(f) => {
                        if f < i {
                            assert(!occurs_at(hay@, needle@, f));
                        }
                        if f > i {
                            assert(!occurs_at(hay@, needle@, i as int));
                        }
                    },
                    None => {
                        assert(!occurs_at(hay@, needle@, i as int));
                    },
                }
            }
            return Some(i);
        }
        assert(!occurs_at(hay@, needle@, i as int)) by {
            if occurs_at(hay@, needle@, i as int) {
                let m = choose|m: int|
                    0 <= m < nlen && hay@.subrange(i as int, i + nlen)[m] != needle@[m];
                assert(false);
            }
        }
        i += 1;
    }
    proof {
        assert forall|j: int| !occurs_at(hay@, needle@, j) by {
            if occurs_at(hay@, needle@, j) {
                assert(0 <= j <= hlen - nlen);
            }
        }
    }
    None
}

/// A decimal digit.
pub open spec fn is_digit(c: char) -> bool {
    '0' <= c && c <= '9'
}

/// The value of a decimal digit.
pub open spec fn digit_val(c: char) -> int {
    c as int - 48
}

/// Every character of `s` is a decimal digit.
pub open spec fn all_digits(s: Seq<char>) -> bool {
    forall|i: int| 0 <= i < s.len() ==> is_digit(#[trigger] s[i])
}

/// The number a digit string stands for, most significant digit first.
pub open spec fn spec_dec_value(s: Seq<char>) -> int
    decreases s.len(),
{
    if s.len() == 0 {
        0
    } else {
        spec_dec_value(s.drop_last()) * 10 + digit_val(s.last())
    }
}

/// What parsing `s` as an unsigned 64-bit decimal yields: its value when `s`
/// is a non-empty digit string whose value fits, nothing otherwise.
pub open spec fn spec_parse_u64(s: Seq<char>) -> Option<u64> {
    if s.len() > 0 && all_digits(s) && spec_dec_value(s) <= u64::MAX {
        Some(spec_dec_value(s) as u64)
    } else {
        None
    }
}

/// What parsing `s` as a byte yields.
pub open spec fn spec_parse_u8(s: Seq<char>) -> Option<u8> {
    match spec_parse_u64(s) {
        Some(v) => if v <= 255 {
            Some(v as u8)
        } else {
            None
        },
        None => None,
    }
}

proof fn lemma_dec_value_nonneg(s: Seq<char>)
    requires
        all_digits(s),
    ensures
        spec_dec_value(s) >= 0,
    decreases s.len(),
{
    if s.len() > 0 {
        assert(all_digits(s.drop_last()));
        lemma_dec_value_nonneg(s.drop_last());
        assert(is_digit(s.last()));
    }
}

proof fn lemma_dec_value_prefix(s: Seq<char>, i: int)
    requires
        all_digits(s),
        0 <= i <= s.len(),
    ensures
        spec_dec_value(s.subrange(0, i)) <= spec_dec_value(s),
    decreases s.len() - i,
{
    if i == s.len() {
        assert(s.subrange(0, i) =~= s);
    } else {
        let shorter = s.subrange(0, i);
        let longer = s.subrange(0, i + 1);
        assert(longer.drop_last() =~= shorter);
        assert(longer.last() == s[i]);
        assert(is_digit(s[i]));
        assert(all_digits(shorter));
        lemma_dec_value_nonneg(shorter);
        assert(spec_dec_value(longer) == spec_dec_value(shorter) * 10 + digit_val(s[i]));
        assert(spec_dec_value(shorter) * 10 >= spec_dec_value(shorter));
        lemma_dec_value_prefix(s, i + 1);
    }
}

/// Parse a non-empty decimal digit string whose value fits in a `u64`.
pub fn parse_u64(s: &str) -> (r: Option<u64>)
    ensures
        r == spec_parse_u64(s@),
{
    let len = s.unicode_len();
    if len == 0 {
        return None;
    }
    let mut acc: u64 = 0;
    let mut i: usize = 0;
    while i < len
        invariant
            i <= len,
            len == s@.len(),
            all_digits(s@.subrange(0, i as int)),
            acc == spec_dec_value(s@.subrange(0, i as int)),
        decreases len - i,
    {
        let c = s.get_char(i);
        if !(c >= '0' && c <= '9') {
            assert(!is_digit(s@[i as int]));
            return None;
        }
        let d: u64 = ((c as u32) - 48) as u64;
        proof {
            assert(s@.subrange(0, i + 1).drop_last() =~= s@.subrange(0, i as int));
            assert(s@.subrange(0, i + 1).last() == s@[i as int]);
        }
        let step = match acc.checked_mul(10) {
            Some(m) => m.checked_add(d),
            None => None,
        };
        match step {
            Some(next) => {
                acc = next;
            },
            None => {
                proof {
                    assert(spec_dec_value(s@.subrange(0, i + 1)) > u64::MAX);
                    if all_digits(s@) {
                        lemma_dec_value_prefix(s@, i + 1);
                    }
                }
                return None;
            },
        }
        i += 1;
    }
    proof {
        assert(s@.subrange(0, len as int) =~= s@);
    }
    Some(acc)
}

/// Parse a non-empty decimal digit string whose value fits in a byte.
pub fn parse_u8(s: &str) -> (r: Option<u8>)
    ensures
        r == spec_parse_u8(s@),
{
    match parse_u64(s) {
        Some(v) => if v <= 255 {
            Some(v as u8)
        } else {
            None
        },
        None => None,
    }
}

/// The decimal rendering of `n`, most significant digit first, no leading
/// zeros except for zero itself.
pub open spec fn spec_dec_digits(n: int) -> Seq<char>
    decreases n,
{
    if n < 10 {
        seq![(48 + if n >= 0 { n } else { 0 }) as char]
    } else {
        spec_dec_digits(n / 10).push((48 + n % 10) as char)
    }
}

/// Render `n` in decimal.
pub fn u64_to_string(n: u64) -> (r: String)
    ensures
        r@ == spec_dec_digits(n as int),
    decreases n,
{
    if n < 10 {
        let mut s = String::new();
        let c = ((48 + n as u32) as u8) as char;
        assert(c == (48 + n as int) as char);
        push_char(&mut s, c);
        assert(s@ =~= spec_dec_digits(n as int));
        s
    } else {
        let mut s = u64_to_string(n / 10);
        let c = ((48 + (n % 10) as u32) as u8) as char;
        assert(c == (48 + (n as int) % 10) as char);
        push_char(&mut s, c);
        s
    }
}

/// The segments of `s` between occurrences of `sep`, in order; an empty
/// string yields one empty segment, as `str::split` does.
pub open spec fn spec_split(s: Seq<char>, sep: char) -> Seq<Seq<char>>
    decreases s.len(),
{
    if s.len() == 0 {
        seq![Seq::empty()]
    } else if s.first() == sep {
        seq![Seq::empty()] + spec_split(s.drop_first(), sep)
    } else {
        let rest = spec_split(s.drop_first(), sep);
        seq![seq![s.first()] + rest.first()] + rest.drop_first()
    }
}

proof fn lemma_split_nonempty(s: Seq<char>, sep: char)
    ensures
        spec_split(s, sep).len() >= 1,
    decreases s.len(),
{
    if s.len() > 0 {
        lemma_split_nonempty(s.drop_first(), sep);
    }
}

/// Splitting takes everything up to the first separator as the first segment
/// and splits the remainder; with no separator the whole string is the one
/// segment.
proof fn lemma_split_step(s: Seq<char>, sep: char)
    ensures
        match spec_find(s, seq![sep]) {
            Some(i) => 0 <= i < s.len() && s[i] == sep && spec_split(s, sep) =~~= seq![
                s.subrange(0, i),
            ] + spec_split(s.subrange(i + 1, s.len() as int), sep),
            None => spec_split(s, sep) =~~= seq![s],
        },
    decreases s.len(),
{
    lemma_spec_find(s, seq![sep]);
    if s.len() == 0 {
        assert(spec_find(s, seq![sep]) is None);
    } else if s.first() == sep {
        assert(s.subrange(0, 1) =~= seq![sep]);
        assert(spec_find(s, seq![sep]) == Some(0int));
        assert(s.subrange(1, s.len() as int) =~= s.drop_first());
        lemma_split_nonempty(s.drop_first(), sep);
    } else {
        assert(!(s.subrange(0, 1) =~= seq![sep])) by {
            assert(s.subrange(0, 1)[0] == s.first());
        }
        lemma_split_step(s.drop_first(), sep);
        lemma_split_nonempty(s.drop_first(), sep);
        let rest = spec_split(s.drop_first(), sep);
        match spec_find(s.drop_first(), seq![sep]) {
            Some(i2) => {
                assert(spec_find(s, seq![sep]) == Some(i2 + 1));
                let i = i2 + 1;
                assert(s[i] == s.drop_first()[i2]);
                assert(seq![s.first()] + s.drop_first().subrange(0, i2) =~= s.subrange(0, i));
                assert(s.drop_first().subrange(i2 + 1, s.drop_first().len() as int) =~= s.subrange(
                    i + 1,
                    s.len() as int,
                ));
            },
            None => {
                assert(spec_find(s, seq![sep]) is None);
                assert(seq![s.first()] + s.drop_first() =~= s);
            },
        }
    }
}

/// The views of a list of owned strings.
pub open spec fn string_views(v: Seq<String>) -> Seq<Seq<char>> {
    v.map_values(|t: String| t@)
}

/// Split `s` at every occurrence of `sep`.
pub fn split_at_char(s: &str, sep: char) -> (r: Vec<String>)
    ensures
        string_views(r@) =~~= spec_split(s@, sep),
{
    let mut out: Vec<String> = Vec::new();
    let mut sep_str = String::new();
    push_char(&mut sep_str, sep);
    assert(sep_str@ =~= seq![sep]);
    let len = s.unicode_len();
    let mut start: usize = 0;
    proof {
        assert(s@.subrange(0, len as int) =~= s@);
        assert(string_views(out@) =~~= Seq::<Seq<char>>::empty());
    }
    loop
        invariant
            start <= len,
            len == s@.len(),
            sep_str@ == seq![sep],
            spec_split(s@, sep) =~~= string_views(out@) + spec_split(
                s@.subrange(start as int, len as int),
                sep,
            ),
        decreases len - start,
    {
        let rest = s.substring_char(start, len);
        match find(rest, sep_str.as_str()) {
            Some(i) => {
                proof {
                    lemma_split_step(rest@, sep);
                }
                let piece = rest.substring_char(0, i);
                out.push(String::from_str(piece));
                proof {
                    assert(string_views(out@) =~~= string_views(out@.drop_last()) + seq![
                        rest@.subrange(0, i as int),
                    ]);
                    assert(rest@.subrange(i + 1, rest@.len() as int) =~= s@.subrange(
                        start + i + 1,
                        len as int,
                    ));
                }
                start = start + i + 1;
            },
            None => {
                proof {
                    lemma_split_step(rest@, sep);
                }
                out.push(String::from_str(rest));
                proof {
                    assert(string_views(out@) =~~= string_views(out@.drop_last()) + seq![rest@]);
                }
                return out;
            },
        }
    }
}

/// `s` without every copy of `c` at its start.
pub open spec fn spec_strip_leading(s: Seq<char>, c: char) -> Seq<char>
    decreases s.len(),
{
    if s.len() > 0 && s.first() == c {
        spec_strip_leading(s.drop_first(), c)
    } else {
        s
    }
}

/// `s` without every copy of `c` at its end.
pub open spec fn spec_strip_trailing(s: Seq<char>, c: char) -> Seq<char>
    decreases s.len(),
{
    if s.len() > 0 && s.last() == c {
        spec_strip_trailing(s.drop_last(), c)
    } else {
        s
    }
}

proof fn lemma_strip_leading_subrange(s: Seq<char>, c: char, i: int)
    requires
        0 <= i <= s.len(),
        forall|j: int| 0 <= j < i ==> s[j] == c,
    ensures
        spec_strip_leading(s, c) == spec_strip_leading(s.subrange(i, s.len() as int), c),
    decreases i,
{
    if i > 0 {
        assert(s.subrange(0, s.len() as int) =~= s);
        assert(s.drop_first() =~= s.subrange(1, s.len() as int));
        lemma_strip_leading_subrange(s.drop_first(), c, i - 1);
        assert(s.drop_first().subrange(i - 1, s.drop_first().len() as int) =~= s.subrange(
            i,
            s.len() as int,
        ));
    } else {
        assert(s.subrange(0, s.len() as int) =~= s);
    }
}

proof fn lemma_strip_trailing_subrange(s: Seq<char>, c: char, i: int)
    requires
        0 <= i <= s.len(),
        forall|j: int| i <= j < s.len() ==> s[j] == c,
    ensures
        spec_strip_trailing(s, c) == spec_strip_trailing(s.subrange(0, i), c),
    decreases s.len() - i,
{
    if i < s.len() {
        lemma_strip_trailing_subrange(s.drop_last(), c, i);
        assert(s.drop_last().subrange(0, i) =~= s.subrange(0, i));
    } else {
        assert(s.subrange(0, s.len() as int) =~= s);
    }
}

/// `s` without every copy of `c` at its start.
pub fn strip_leading(s: &str, c: char) -> (r: &str)
    ensures
        r@ == spec_strip_leading(s@, c),
{
    let len = s.unicode_len();
    let mut start: usize = 0;
    while start < len && s.get_char(start) == c
        invariant
            start <= len,
            len == s@.len(),
            forall|j: int| 0 <= j < start ==> s@[j] == c,
        decreases len - start,
    {
        start += 1;
    }
    proof {
        lemma_strip_leading_subrange(s@, c, start as int);
    }
    s.substring_char(start, len)
}

/// `s` without every copy of `c` at its end.
pub fn strip_trailing(s: &str, c: char) -> (r: &str)
    ensures
        r@ == spec_strip_trailing(s@, c),
{
    let len = s.unicode_len();
    let mut end: usize = len;
    while end > 0 && s.get_char(end - 1) == c
        invariant
            end <= len,
            len == s@.len(),
            forall|j: int| end <= j < len ==> s@[j] == c,
        decreases end,
    {
        end -= 1;
    }
    proof {
        lemma_strip_trailing_subrange(s@, c, end as int);
        if end > 0 {
            assert(s@.subrange(0, end as int).last() != c);
        }
    }
    s.substring_char(0, end)
}

/// Relies on String::push: appends exactly the one character.
#[verifier::external_body]
pub fn push_char(s: &mut String, c: char)
    ensures
        final(s)@ == old(s)@.push(c),
{
    s.push(c);
}

} // verus!
