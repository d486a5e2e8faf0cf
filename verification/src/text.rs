//! Verified text utilities: whitespace trimming, substring search and
//! best-effort number recognition over `&str` values, with spec-level
//! models over `Seq<char>`.

use vstd::prelude::*;

verus! {

/// A character with the Unicode `White_Space` property, the set that
/// `char::is_whitespace` recognises.
pub open spec fn is_wsp(c: char) -> bool {
    let u = c as u32;
    ||| u == 0x20
    ||| (0x09 <= u && u <= 0x0D)
    ||| u == 0x85
    ||| u == 0xA0
    ||| u == 0x1680
    ||| (0x2000 <= u && u <= 0x200A)
    ||| u == 0x2028
    ||| u == 0x2029
    ||| u == 0x202F
    ||| u == 0x205F
    ||| u == 0x3000
}

/// An ASCII decimal digit.
pub open spec fn is_digit(c: char) -> bool {
    '0' as u32 <= c as u32 && c as u32 <= '9' as u32
}

fn is_wsp_char(c: char) -> (r: bool)
    ensures
        r == is_wsp(c),
{
    let u = c as u32;
    u == 0x20 || (0x09 <= u && u <= 0x0D) || u == 0x85 || u == 0xA0 || u == 0x1680
        || (0x2000 <= u && u <= 0x200A) || u == 0x2028 || u == 0x2029 || u == 0x202F
        || u == 0x205F || u == 0x3000
}

fn is_digit_char(c: char) -> (r: bool)
    ensures
        r == is_digit(c),
{
    let u = c as u32;
    0x30 <= u && u <= 0x39
}

/// The sequence without its leading whitespace.
pub open spec fn trim_left(s: Seq<char>) -> Seq<char>
    decreases s.len(),
{
    if s.len() > 0 && is_wsp(s[0]) {
        trim_left(s.drop_first())
    } else {
        s
    }
}

/// The sequence without its trailing whitespace.
pub open spec fn trim_right(s: Seq<char>) -> Seq<char>
    decreases s.len(),
{
    if s.len() > 0 && is_wsp(s.last()) {
        trim_right(s.drop_last())
    } else {
        s
    }
}

/// The sequence without leading and trailing whitespace, as `str::trim`
/// returns it.
pub open spec fn trim_spec(s: Seq<char>) -> Seq<char> {
    trim_right(trim_left(s))
}

proof fn lemma_trim_left_at(s: Seq<char>, i: int)
    requires
        0 <= i <= s.len(),
        forall|j: int| 0 <= j < i ==> is_wsp(s[j]),
        i < s.len() ==> !is_wsp(s[i]),
    ensures
        trim_left(s) == s.subrange(i, s.len() as int),
    decreases s.len(),
{
    if i == 0 {
        if s.len() == 0 || !is_wsp(s[0]) {
            assert(trim_left(s) == s);
            assert(s.subrange(0, s.len() as int) =~= s);
        }
    } else {
        assert(is_wsp(s[0]));
        let t = s.drop_first();
        assert(forall|j: int| 0 <= j < i - 1 ==> s[j + 1] == t[j] && is_wsp(#[trigger] t[j]));
        lemma_trim_left_at(t, i - 1);
        assert(t.subrange(i - 1, t.len() as int) =~= s.subrange(i, s.len() as int));
    }
}

proof fn lemma_trim_right_at(s: Seq<char>, k: int)
    requires
        0 <= k <= s.len(),
        forall|j: int| k <= j < s.len() ==> is_wsp(s[j]),
        k > 0 ==> !is_wsp(s[k - 1]),
    ensures
        trim_right(s) == s.subrange(0, k),
    decreases s.len(),
{
    if k == s.len() {
        if s.len() == 0 || !is_wsp(s.last()) {
            assert(trim_right(s) == s);
            assert(s.subrange(0, s.len() as int) =~= s);
        } else {
            let t = s.drop_last();
            lemma_trim_right_at(t, k - 1);
            assert(t.subrange(0, k - 1) =~= s.subrange(0, k - 1));
            assert(k - 1 == t.len());
            assert(trim_right(s) == trim_right(t));
        }
    } else {
        assert(is_wsp(s.last()));
        let t = s.drop_last();
        assert(forall|j: int| k <= j < t.len() ==> t[j] == s[j] && is_wsp(#[trigger] t[j]));
        lemma_trim_right_at(t, k);
        assert(t.subrange(0, k) =~= s.subrange(0, k));
    }
}

/// `trim_left` keeps a suffix: what it removes is leading whitespace and
/// nothing else.
pub proof fn lemma_trim_left_is_suffix(s: Seq<char>)
    ensures
        trim_left(s).len() <= s.len(),
        trim_left(s) == s.subrange(s.len() - trim_left(s).len(), s.len() as int),
        forall|j: int| 0 <= j < s.len() - trim_left(s).len() ==> is_wsp(s[j]),
    decreases s.len(),
{
    if s.len() > 0 && is_wsp(s[0]) {
        let t = s.drop_first();
        lemma_trim_left_is_suffix(t);
        assert(t.subrange(t.len() - trim_left(t).len(), t.len() as int) =~= s.subrange(
            s.len() - trim_left(s).len(),
            s.len() as int,
        ));
        assert forall|j: int| 0 <= j < s.len() - trim_left(s).len() implies is_wsp(s[j]) by {
            if j > 0 {
                assert(t[j - 1] == s[j]);
                assert(is_wsp(t[j - 1]));
            }
        }
    } else {
        assert(s.subrange(0, s.len() as int) =~= s);
    }
}

/// Remove leading and trailing whitespace, exactly as `str::trim` does.
pub fn trim_str<'a>(s: &'a str) -> (r: &'a str)
    ensures
        r@ == trim_spec(s@),
{
    let n: usize = s.unicode_len();
    let mut i: usize = 0;
    while i < n && is_wsp_char(s.get_char(i))
        invariant
            0 <= i <= n,
            n == s@.len(),
            forall|j: int| 0 <= j < i ==> is_wsp(s@[j]),
        decreases n - i,
    {
        i = i + 1;
    }
    let mut k: usize = n;
    while k > i && is_wsp_char(s.get_char(k - 1))
        invariant
            i <= k <= n,
            n == s@.len(),
            forall|j: int| 0 <= j < i ==> is_wsp(s@[j]),
            i < n ==> !is_wsp(s@[i as int]),
            forall|j: int| k <= j < n ==> is_wsp(s@[j]),
        decreases k,
    {
        k = k - 1;
    }
    let r = s.substring_char(i, k);
    proof {
        lemma_trim_left_at(s@, i as int);
        let t = s@.subrange(i as int, s@.len() as int);
        assert(forall|j: int| k - i <= j < t.len() ==> t[j] == s@[j + i] && is_wsp(#[trigger] t[j]));
        lemma_trim_right_at(t, k - i);
        assert(t.subrange(0, k - i) =~= s@.subrange(i as int, k as int));
    }
    r
}

/// Index of the first occurrence of `c` in `s`, or `-1` when absent.
pub open spec fn find_char(s: Seq<char>, c: char) -> int
    decreases s.len(),
{
    if s.len() == 0 {
        -1
    } else if s[0] == c {
        0
    } else {
        let r: int = find_char(s.drop_first(), c);
        if r < 0 {
            -1
        } else {
            r + 1
        }
    }
}

proof fn lemma_find_char_at(s: Seq<char>, c: char, k: int)
    requires
        0 <= k <= s.len(),
        forall|j: int| 0 <= j < k ==> s[j] != c,
        k < s.len() ==> s[k] == c,
    ensures
        k == s.len() ==> find_char(s, c) == -1,
        k < s.len() ==> find_char(s, c) == k,
    decreases s.len(),
{
    if s.len() == 0 {
    } else if k == 0 {
    } else {
        let t = s.drop_first();
        assert(forall|j: int| 0 <= j < k - 1 ==> #[trigger] t[j] == s[j + 1] && s[j + 1] != c);
        assert(k - 1 < t.len() ==> t[k - 1] == s[k as int]);
        lemma_find_char_at(t, c, k - 1);
        assert(s[0] != c);
    }
}

/// Properties of a successful `find_char`: the hit is inside the sequence,
/// holds `c`, and nothing before it does.
proof fn lemma_find_char_props(s: Seq<char>, c: char)
    requires
        find_char(s, c) >= 0,
    ensures
        find_char(s, c) < s.len(),
        s[find_char(s, c)] == c,
        forall|j: int| 0 <= j < find_char(s, c) ==> s[j] != c,
    decreases s.len(),
{
    if s.len() == 0 {
    } else if s[0] == c {
    } else {
        let t = s.drop_first();
        assert(find_char(t, c) >= 0);
        lemma_find_char_props(t, c);
        let r: int = find_char(t, c);
        assert(find_char(s, c) == r + 1);
        assert(s[r + 1] == t[r]);
        assert forall|j: int| 0 <= j < find_char(s, c) implies s[j] != c by {
            if j >= 1 {
                assert(t[j - 1] == s[j]);
            }
        }
    }
}

/// First position of `c` in `s`, as `str::find` reports it over characters.
pub fn find_char_str(s: &str, c: char) -> (r: Option<usize>)
    ensures
        match r {
            Some(i) => find_char(s@, c) == i && i < s@.len(),
            None => find_char(s@, c) == -1,
        },
{
    let n: usize = s.unicode_len();
    let mut i: usize = 0;
    while i < n
        invariant
            0 <= i <= n,
            n == s@.len(),
            forall|j: int| 0 <= j < i ==> s@[j] != c,
        decreases n - i,
    {
        if s.get_char(i) == c {
            proof {
                lemma_find_char_at(s@, c, i as int);
            }
            return Some(i);
        }
        i = i + 1;
    }
    proof {
        lemma_find_char_at(s@, c, n as int);
    }
    None
}

/// Index of the first occurrence of `pat` as a contiguous subsequence of
/// `s`, or `-1` when absent.
pub open spec fn find_sub(s: Seq<char>, pat: Seq<char>) -> int
    decreases s.len(),
{
    if s.len() < pat.len() {
        -1
    } else if s.subrange(0, pat.len() as int) == pat {
        0
    } else if s.len() == 0 {
        -1
    } else {
        let r: int = find_sub(s.drop_first(), pat);
        if r < 0 {
            -1
        } else {
            r + 1
        }
    }
}

/// Whether `pat` occurs in `s` starting at position `j`.
pub open spec fn sub_at(s: Seq<char>, pat: Seq<char>, j: int) -> bool {
    s.subrange(j, j + pat.len()) == pat
}

proof fn lemma_find_sub_at(s: Seq<char>, pat: Seq<char>, k: int)
    requires
        0 <= k,
        pat.len() >= 1,
        k + pat.len() <= s.len() + 1,
        forall|j: int| 0 <= j < k ==> !sub_at(s, pat, j),
        k + pat.len() <= s.len() ==> sub_at(s, pat, k),
    ensures
        k + pat.len() > s.len() ==> find_sub(s, pat) == -1,
        k + pat.len() <= s.len() ==> find_sub(s, pat) == k,
    decreases s.len(),
{
    if s.len() < pat.len() {
    } else if k == 0 {
        assert(k + pat.len() <= s.len());
        assert(sub_at(s, pat, 0));
        assert(s.subrange(0, pat.len() as int) == pat);
    } else {
        assert(!sub_at(s, pat, 0));
        assert(s.subrange(0, pat.len() as int) != pat);
        assert(s.len() >= pat.len());
        let t = s.drop_first();
        assert forall|j: int| 0 <= j < k - 1 implies !sub_at(t, pat, j) by {
            assert(t.subrange(j, j + pat.len()) =~= s.subrange(j + 1, j + 1 + pat.len()));
            assert(!sub_at(s, pat, j + 1));
        }
        if k + pat.len() <= s.len() {
            assert(t.subrange(k - 1, k - 1 + pat.len()) =~= s.subrange(k, k + pat.len()));
            assert(sub_at(t, pat, k - 1));
        }
        lemma_find_sub_at(t, pat, k - 1);
    }
}

/// First position where `pat` occurs in `s`, as `str::find` reports it
/// over characters; `None` when it does not occur.
pub fn find_sub_str(s: &str, pat: &str) -> (r: Option<usize>)
    requires
        pat@.len() > 0,
    ensures
        match r {
            Some(i) => find_sub(s@, pat@) == i && i + pat@.len() <= s@.len(),
            None => find_sub(s@, pat@) == -1,
        },
{
    let n: usize = s.unicode_len();
    let m: usize = pat.unicode_len();
    if m > n {
        proof {
            assert(s@.len() < pat@.len());
        }
        return None;
    }
    let mut i: usize = 0;
    while i <= n - m
        invariant
            0 <= i <= n - m + 1,
            m <= n,
            m >= 1,
            n == s@.len(),
            m == pat@.len(),
            forall|j: int| 0 <= j < i ==> !sub_at(s@, pat@, j),
        decreases n - i,
    {
        let mut l: usize = 0;
        let mut hit: bool = true;
        while l < m
            invariant_except_break
                0 <= l <= m,
                i + m <= n,
                n == s@.len(),
                m == pat@.len(),
                hit,
                forall|q: int| 0 <= q < l ==> s@[i + q] == pat@[q],
            ensures
                hit ==> s@.subrange(i as int, i + pat@.len()) =~= pat@,
                !hit ==> s@.subrange(i as int, i + pat@.len()) != pat@,
            decreases m - l,
        {
            if s.get_char(i + l) != pat.get_char(l) {
                hit = false;
                proof {
                    assert(s@.subrange(i as int, i + pat@.len())[l as int] != pat@[l as int]);
                }
                break;
            }
            l = l + 1;
        }
        if hit {
            proof {
                lemma_find_sub_at(s@, pat@, i as int);
            }
            return Some(i);
        }
        i = i + 1;
    }
    proof {
        lemma_find_sub_at(s@, pat@, n - m + 1);
    }
    None
}

/// All characters are ASCII decimal digits.
pub open spec fn all_digits(s: Seq<char>) -> bool {
    forall|i: int| 0 <= i < s.len() ==> is_digit(s[i])
}

/// Value of a digit sequence read as a decimal numeral.
pub open spec fn digits_val(s: Seq<char>) -> int
    decreases s.len(),
{
    if s.len() == 0 {
        0
    } else {
        digits_val(s.drop_last()) * 10 + (s.last() as u32 - '0' as u32)
    }
}

/// The numeral after `str::parse`'s optional leading `+` sign.
pub open spec fn sign_body(s: Seq<char>) -> Seq<char> {
    if s.len() > 0 && s[0] == '+' {
        s.drop_first()
    } else {
        s
    }
}

/// Result of `str::parse::<usize>`: an optional leading `+`, then at
/// least one digit, with the value in range.
pub open spec fn parse_usize_spec(s: Seq<char>) -> Option<usize> {
    let body = sign_body(s);
    if body.len() > 0 && all_digits(body) && digits_val(body) <= usize::MAX {
        Some(digits_val(body) as usize)
    } else {
        None
    }
}

proof fn lemma_digits_val_grow(s: Seq<char>, i: int)
    requires
        0 <= i <= s.len(),
        forall|j: int| i <= j < s.len() ==> is_digit(s[j]),
        digits_val(s.subrange(0, i)) >= 0,
    ensures
        digits_val(s) >= digits_val(s.subrange(0, i)),
    decreases s.len() - i,
{
    if i == s.len() {
        assert(s.subrange(0, i) =~= s);
    } else {
        let p = s.subrange(0, i);
        let q = s.subrange(0, i + 1);
        assert(q.drop_last() =~= p);
        assert(q.last() == s[i]);
        assert(is_digit(s[i]));
        assert(digits_val(q) == digits_val(p) * 10 + (s[i] as u32 - '0' as u32));
        assert(digits_val(q) >= digits_val(p)) by (nonlinear_arith)
            requires
                digits_val(q) == digits_val(p) * 10 + (s[i] as u32 - '0' as u32),
                digits_val(p) >= 0,
                s[i] as u32 >= '0' as u32,
        ;
        lemma_digits_val_grow(s, i + 1);
    }
}

/// Best-effort unsigned decimal parse, exactly as `str::parse::<usize>`
/// behaves on the strings the tool writes: `None` on an empty or
/// non-digit body and on overflow.
pub fn parse_usize_str(s: &str) -> (r: Option<usize>)
    ensures
        r == parse_usize_spec(s@),
{
    let n: usize = s.unicode_len();
    let start: usize = if n > 0 && s.get_char(0) == '+' { 1 } else { 0 };
    let ghost body = sign_body(s@);
    proof {
        assert(body.len() == n - start);
        assert(forall|q: int| 0 <= q < body.len() ==> body[q] == s@[q + start]);
    }
    if start >= n {
        return None;
    }
    let mut acc: usize = 0;
    let mut i: usize = start;
    while i < n
        invariant
            start <= i <= n,
            start <= 1,
            n == s@.len(),
            body == sign_body(s@),
            body.len() == n - start,
            forall|q: int| 0 <= q < body.len() ==> body[q] == s@[q + start],
            forall|j: int| start <= j < i ==> is_digit(s@[j]),
            acc == digits_val(body.subrange(0, i - start)),
        decreases n - i,
    {
        let c = s.get_char(i);
        if !is_digit_char(c) {
            proof {
                assert(!is_digit(body[i - start]));
            }
            return None;
        }
        let d: usize = (c as u32 as usize) - 48;
        let ghost p = body.subrange(0, i - start);
        let ghost q = body.subrange(0, i - start + 1);
        proof {
            assert(q.drop_last() =~= p);
            assert(q.last() == s@[i as int]);
            assert(digits_val(q) == acc * 10 + d);
        }
        if acc > (usize::MAX - d) / 10 {
            proof {
                assert(acc * 10 + d > usize::MAX) by (nonlinear_arith)
                    requires
                        acc > (usize::MAX - d) / 10,
                        d <= 9,
                ;
                if all_digits(body) {
                    lemma_digits_val_grow(body, i - start + 1);
                    assert(digits_val(body) > usize::MAX);
                }
            }
            return None;
        }
        proof {
            assert(acc * 10 + d <= usize::MAX) by (nonlinear_arith)
                requires
                    acc <= (usize::MAX - d) / 10,
                    d <= 9,
            ;
        }
        acc = acc * 10 + d;
        i = i + 1;
    }
    proof {
        assert(body.subrange(0, n - start) =~= body);
        assert forall|q: int| 0 <= q < body.len() implies is_digit(body[q]) by {
            assert(body[q] == s@[q + start]);
        }
        assert(all_digits(body));
    }
    Some(acc)
}

/// End of the run of ASCII digits in `s` that begins at `from`.
pub open spec fn digits_end(s: Seq<char>, from: int) -> int
    decreases s.len() - from,
{
    if from < s.len() && 0 <= from && is_digit(s[from]) {
        digits_end(s, from + 1)
    } else {
        from
    }
}

proof fn lemma_digits_end_at(s: Seq<char>, from: int, i: int)
    requires
        0 <= from <= i <= s.len(),
        forall|j: int| from <= j < i ==> is_digit(s[j]),
        i < s.len() ==> !is_digit(s[i]),
    ensures
        digits_end(s, from) == i,
    decreases i - from,
{
    if from == i {
    } else {
        lemma_digits_end_at(s, from + 1, i);
    }
}

fn digits_end_str(s: &str, from: usize) -> (r: usize)
    requires
        from <= s@.len(),
    ensures
        r == digits_end(s@, from as int),
        from <= r <= s@.len(),
{
    let n: usize = s.unicode_len();
    let mut i: usize = from;
    while i < n && is_digit_char(s.get_char(i))
        invariant
            from <= i <= n,
            n == s@.len(),
            forall|j: int| from <= j < i ==> is_digit(s@[j]),
        decreases n - i,
    {
        i = i + 1;
    }
    proof {
        lemma_digits_end_at(s@, from as int, i as int);
    }
    i
}

/// Shape of the decimal literals the tool writes for rates and speeds:
/// an optional sign, digits with an optional fractional part, and an
/// optional exponent. `f32::from_str` accepts every such literal.
pub open spec fn is_numeric(s: Seq<char>) -> bool {
    let i0: int = if s.len() > 0 && (s[0] == '+' || s[0] == '-') { 1 } else { 0 };
    let d1: int = digits_end(s, i0);
    let d2: int = if d1 < s.len() && s[d1] == '.' { digits_end(s, d1 + 1) } else { d1 };
    let mant_ok: bool = d1 > i0 || (d1 < s.len() && s[d1] == '.' && d2 > d1 + 1);
    if !mant_ok {
        false
    } else if d2 == s.len() {
        true
    } else if s[d2] == 'e' || s[d2] == 'E' {
        let i1: int = if d2 + 1 < s.len() && (s[d2 + 1] == '+' || s[d2 + 1] == '-') {
            d2 + 2
        } else {
            d2 + 1
        };
        digits_end(s, i1) == s.len() && s.len() > i1
    } else {
        false
    }
}

/// Whether `s` is such a decimal literal.
pub fn is_numeric_str(s: &str) -> (r: bool)
    ensures
        r == is_numeric(s@),
{
    let n: usize = s.unicode_len();
    let i0: usize = if n > 0 && (s.get_char(0) == '+' || s.get_char(0) == '-') { 1 } else { 0 };
    let d1: usize = digits_end_str(s, i0);
    let dot: bool = d1 < n && s.get_char(d1) == '.';
    let d2: usize = if dot { digits_end_str(s, d1 + 1) } else { d1 };
    let mant_ok: bool = d1 > i0 || (dot && d2 > d1 + 1);
    if !mant_ok {
        return false;
    }
    if d2 == n {
        return true;
    }
    let e = s.get_char(d2);
    if e == 'e' || e == 'E' {
        let sign: bool = d2 + 1 < n && (s.get_char(d2 + 1) == '+' || s.get_char(d2 + 1) == '-');
        let i1: usize = if sign { d2 + 2 } else { d2 + 1 };
        if i1 > n {
            return false;
        }
        let d3: usize = digits_end_str(s, i1);
        d3 == n && n > i1
    } else {
        false
    }
}

/// Whether the views of two string slices are the same character sequence.
pub fn str_eq(a: &str, b: &str) -> (r: bool)
    ensures
        r == (a@ == b@),
{
    let n: usize = a.unicode_len();
    if n != b.unicode_len() {
        return false;
    }
    let mut i: usize = 0;
    while i < n
        invariant
            0 <= i <= n,
            n == a@.len(),
            n == b@.len(),
            forall|j: int| 0 <= j < i ==> a@[j] == b@[j],
        decreases n - i,
    {
        if a.get_char(i) != b.get_char(i) {
            return false;
        }
        i = i + 1;
    }
    proof {
        assert(a@ =~= b@);
    }
    true
}

} // verus!
