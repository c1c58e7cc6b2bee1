//! Catalogues of the MIPLIB 2017 and QPLIB benchmark instances: which
//! instances can be loaded, and the annotations that describe each instance.
//! The catalogue rows reach this module as plain entries; reading the CSV
//! files, and writing their few floating-point columns as text, happens
//! outside it.
use crate::anonymous::push_char;
use crate::media_types::same_text;
use crate::messages::text_around;
use crate::transport::chars_of;
use vstd::prelude::*;
use vstd::string::StringExecFns;

verus! {

// ----- text -----

/// Whether a character has the Unicode `White_Space` property (what
/// `char::is_whitespace` tests).
pub open spec fn is_white_space(c: char) -> bool {
    let u = c as u32;
    ||| 0x9 <= u <= 0xd
    ||| u == 0x20
    ||| u == 0x85
    ||| u == 0xa0
    ||| u == 0x1680
    ||| 0x2000 <= u <= 0x200a
    ||| u == 0x2028
    ||| u == 0x2029
    ||| u == 0x202f
    ||| u == 0x205f
    ||| u == 0x3000
}

fn white_space(c: char) -> (r: bool)
    ensures
        r == is_white_space(c),
{
    let u = c as u32;
    (0x9 <= u && u <= 0xd) || u == 0x20 || u == 0x85 || u == 0xa0 || u == 0x1680 || (0x2000 <= u && u
        <= 0x200a) || u == 0x2028 || u == 0x2029 || u == 0x202f || u == 0x205f || u == 0x3000
}

/// The text without its leading white space.
pub open spec fn trim_front(s: Seq<char>) -> Seq<char>
    decreases s.len(),
{
    if s.len() > 0 && is_white_space(s[0]) {
        trim_front(s.drop_first())
    } else {
        s
    }
}

/// The text without its trailing white space.
pub open spec fn trim_back(s: Seq<char>) -> Seq<char>
    decreases s.len(),
{
    if s.len() > 0 && is_white_space(s.last()) {
        trim_back(s.drop_last())
    } else {
        s
    }
}

/// The text without leading and trailing white space (`str::trim`).
pub open spec fn trim(s: Seq<char>) -> Seq<char> {
    trim_back(trim_front(s))
}

/// The pieces of a text between the occurrences of a separator
/// (`str::split` on a character): one piece more than there are separators.
pub open spec fn split_on(s: Seq<char>, sep: char) -> Seq<Seq<char>>
    decreases s.len(),
{
    if s.len() == 0 {
        seq![Seq::empty()]
    } else {
        let pieces = split_on(s.drop_last(), sep);
        if s.last() == sep {
            pieces.push(Seq::empty())
        } else {
            pieces.update(pieces.len() - 1, pieces.last().push(s.last()))
        }
    }
}

/// The pieces joined with a separator between each two (`join`).
pub open spec fn join_with(pieces: Seq<Seq<char>>, sep: char) -> Seq<char>
    decreases pieces.len(),
{
    if pieces.len() == 0 {
        Seq::empty()
    } else if pieces.len() == 1 {
        pieces[0]
    } else {
        join_with(pieces.drop_last(), sep).push(sep) + pieces.last()
    }
}

/// Whether `pattern` occurs in `s` (`str::contains`).
pub open spec fn contains_text(s: Seq<char>, pattern: Seq<char>) -> bool {
    exists|i: int| 0 <= i <= s.len() - pattern.len() && #[trigger] s.subrange(i, i + pattern.len()) == pattern
}

/// `s` without `prefix` where it starts with it, else `s` unchanged
/// (`strip_prefix(..).unwrap_or(s)`).
pub open spec fn strip_prefix_or_keep(s: Seq<char>, prefix: Seq<char>) -> Seq<char> {
    if prefix.len() <= s.len() && s.subrange(0, prefix.len() as int) == prefix {
        s.subrange(prefix.len() as int, s.len() as int)
    } else {
        s
    }
}

/// Splitting a text gives at least one piece, no piece holds the
/// separator, and joining the pieces with the separator gives the text back.
pub proof fn lemma_split_join_round_trip(s: Seq<char>, sep: char)
    ensures
        split_on(s, sep).len() >= 1,
        forall|i: int| 0 <= i < split_on(s, sep).len() ==> !(#[trigger] split_on(s, sep)[i]).contains(sep),
        join_with(split_on(s, sep), sep) == s,
    decreases s.len(),
{
    if s.len() > 0 {
        let t = s.drop_last();
        let x = s.last();
        lemma_split_join_round_trip(t, sep);
        let p = split_on(t, sep);
        if x == sep {
            assert(split_on(s, sep) == p.push(Seq::<char>::empty()));
            let q = p.push(Seq::<char>::empty());
            assert(q.drop_last() =~= p);
            assert(join_with(q, sep) =~= join_with(p, sep).push(sep) + Seq::<char>::empty());
            assert(t.push(sep) =~= s);
            assert forall|i: int| 0 <= i < q.len() implies !(#[trigger] q[i]).contains(sep) by {
                if i < p.len() {
                    assert(q[i] == p[i]);
                } else {
                    assert(q[i] =~= Seq::<char>::empty());
                }
            }
        } else {
            let q = p.update(p.len() - 1, p.last().push(x));
            assert(split_on(s, sep) == q);
            if p.len() == 1 {
                assert(join_with(q, sep) == q[0]);
                assert(join_with(p, sep) == p[0]);
                assert(q[0] =~= t.push(x));
                assert(t.push(x) =~= s);
            } else {
                assert(q.drop_last() =~= p.drop_last());
                assert(join_with(q, sep) == join_with(q.drop_last(), sep).push(sep) + q.last());
                assert(join_with(p, sep) == join_with(p.drop_last(), sep).push(sep) + p.last());
                assert(join_with(q, sep) =~= join_with(p, sep).push(x));
                assert(t.push(x) =~= s);
            }
            assert forall|i: int| 0 <= i < q.len() implies !(#[trigger] q[i]).contains(sep) by {
                if i < p.len() - 1 {
                    assert(q[i] == p[i]);
                } else {
                    let last = p.last();
                    assert(!last.contains(sep));
                    assert(q[i] == last.push(x));
                    if last.push(x).contains(sep) {
                        let j = choose|j: int| 0 <= j < last.push(x).len() && last.push(x)[j] == sep;
                        if j < last.len() {
                            assert(last[j] == sep);
                        }
                    }
                }
            }
        }
    }
}

/// Trimming keeps a contiguous part of the text: everything cut off before
/// and after it is white space, and the part itself neither starts nor ends
/// with white space.
pub proof fn lemma_trim_cuts_only_white_space(s: Seq<char>)
    ensures
        exists|a: int, b: int| {
            &&& 0 <= a <= b <= s.len()
            &&& trim(s) == s.subrange(a, b)
            &&& forall|i: int| 0 <= i < a ==> is_white_space(#[trigger] s[i])
            &&& forall|i: int| b <= i < s.len() ==> is_white_space(#[trigger] s[i])
        },
        trim(s).len() > 0 ==> !is_white_space(trim(s)[0]) && !is_white_space(trim(s).last()),
{
    lemma_trim_front(s);
    let a = choose|a: int| 0 <= a <= s.len() && trim_front(s) == s.subrange(a, s.len() as int) && (forall|i: int|
        0 <= i < a ==> is_white_space(#[trigger] s[i]));
    let f = trim_front(s);
    lemma_trim_back(f);
    let b = choose|b: int| 0 <= b <= f.len() && trim_back(f) == f.subrange(0, b) && (forall|i: int|
        b <= i < f.len() ==> is_white_space(#[trigger] f[i]));
    assert(trim(s) =~= s.subrange(a, a + b));
    assert forall|i: int| a + b <= i < s.len() implies is_white_space(#[trigger] s[i]) by {
        assert(f[i - a] == s[i]);
    }
    if trim(s).len() > 0 {
        assert(f.len() > 0);
        assert(!is_white_space(f[0]));
        assert(trim(s)[0] == f[0]);
    }
    assert(0 <= a <= a + b <= s.len() && trim(s) == s.subrange(a, a + b));
}

proof fn lemma_trim_front(s: Seq<char>)
    ensures
        exists|a: int| 0 <= a <= s.len() && trim_front(s) == s.subrange(a, s.len() as int) && (forall|i: int|
            0 <= i < a ==> is_white_space(#[trigger] s[i])),
        trim_front(s).len() > 0 ==> !is_white_space(trim_front(s)[0]),
    decreases s.len(),
{
    if s.len() > 0 && is_white_space(s[0]) {
        lemma_trim_front(s.drop_first());
        let r = s.drop_first();
        let a = choose|a: int| 0 <= a <= r.len() && trim_front(r) == r.subrange(a, r.len() as int) && (forall|i: int|
            0 <= i < a ==> is_white_space(#[trigger] r[i]));
        assert(trim_front(s) =~= s.subrange(a + 1, s.len() as int));
        assert forall|i: int| 0 <= i < a + 1 implies is_white_space(#[trigger] s[i]) by {
            if i > 0 {
                assert(s[i] == r[i - 1]);
            }
        }
    } else {
        assert(trim_front(s) =~= s.subrange(0, s.len() as int));
    }
}

proof fn lemma_trim_back(s: Seq<char>)
    ensures
        exists|b: int| 0 <= b <= s.len() && trim_back(s) == s.subrange(0, b) && (forall|i: int|
            b <= i < s.len() ==> is_white_space(#[trigger] s[i])),
        trim_back(s).len() > 0 ==> !is_white_space(trim_back(s).last()),
        trim_back(s).len() > 0 ==> trim_back(s)[0] == s[0],
    decreases s.len(),
{
    if s.len() > 0 && is_white_space(s.last()) {
        lemma_trim_back(s.drop_last());
        let r = s.drop_last();
        let b = choose|b: int| 0 <= b <= r.len() && trim_back(r) == r.subrange(0, b) && (forall|i: int|
            b <= i < r.len() ==> is_white_space(#[trigger] r[i]));
        assert(trim_back(s) =~= s.subrange(0, b));
        assert forall|i: int| b <= i < s.len() implies is_white_space(#[trigger] s[i]) by {
            if i < r.len() {
                assert(s[i] == r[i]);
            }
        }
    } else {
        assert(trim_back(s) =~= s.subrange(0, s.len() as int));
    }
}

/// The decimal digit of `d`, for `d < 10`.
pub open spec fn digit_char(d: nat) -> char {
    ((48 + d) as u8) as char
}

/// The decimal text of a natural number (`to_string`).
pub open spec fn decimal(n: nat) -> Seq<char>
    decreases n,
{
    if n < 10 {
        seq![digit_char(n)]
    } else {
        decimal(n / 10).push(digit_char(n % 10))
    }
}

/// The decimal text of an integer, with a minus sign when negative.
pub open spec fn signed_decimal(v: int) -> Seq<char> {
    if v < 0 {
        seq!['-'] + decimal((-v) as nat)
    } else {
        decimal(v as nat)
    }
}

/// The number a text of decimal digits reads as.
pub open spec fn digits_value(s: Seq<char>) -> int
    decreases s.len(),
{
    if s.len() == 0 {
        0
    } else {
        digits_value(s.drop_last()) * 10 + (s.last() as int - 48)
    }
}

/// The decimal text of `n` is made of ASCII digits, starts with a non-zero
/// digit unless `n` is zero, and reads back as `n`.
pub proof fn lemma_decimal_reads_back(n: nat)
    ensures
        digits_value(decimal(n)) == n,
        decimal(n).len() > 0,
        forall|i: int| 0 <= i < decimal(n).len() ==> '0' <= #[trigger] decimal(n)[i] <= '9',
        n > 0 ==> decimal(n)[0] != '0',
        n == 0 ==> decimal(n) == seq!['0'],
    decreases n,
{
    if n >= 10 {
        lemma_decimal_reads_back(n / 10);
        let d = digit_char(n % 10);
        assert(d as int == 48 + n % 10);
        assert(decimal(n).drop_last() == decimal(n / 10));
        assert(decimal(n).last() == d);
        assert(digits_value(decimal(n)) == digits_value(decimal(n / 10)) * 10 + (d as int - 48));
        assert((n / 10) * 10 + n % 10 == n);
        assert(decimal(n)[0] == decimal(n / 10)[0]);
        assert forall|i: int| 0 <= i < decimal(n).len() implies '0' <= #[trigger] decimal(n)[i] <= '9' by {
            if i < decimal(n / 10).len() {
                assert(decimal(n)[i] == decimal(n / 10)[i]);
            }
        }
    } else {
        assert(digit_char(n) as int == 48 + n);
        assert(decimal(n).drop_last() =~= Seq::<char>::empty());
        assert(digits_value(decimal(n).drop_last()) == 0);
        assert(decimal(n).last() == digit_char(n));
    }
}

/// Appends the decimal text of `n`.
fn push_decimal(s: &mut String, n: u64)
    ensures
        final(s)@ == old(s)@ + decimal(n as nat),
    decreases n,
{
    if n >= 10 {
        push_decimal(s, n / 10);
    }
    let d: u8 = (n % 10) as u8;
    push_char(s, (48u8 + d) as char);
    proof {
        assert(digit_char((n % 10) as nat) == (48u8 + d) as char);
        if n >= 10 {
            assert(final(s)@ =~= old(s)@ + decimal(n as nat));
        } else {
            assert(final(s)@ =~= old(s)@ + decimal(n as nat));
        }
    }
}

/// The decimal text of `n`.
pub fn decimal_text(n: u64) -> (r: String)
    ensures
        r@ == decimal(n as nat),
{
    let mut s = String::new();
    push_decimal(&mut s, n);
    assert(s@ =~= decimal(n as nat));
    s
}

/// The decimal text of `v`, with a minus sign when negative.
pub fn signed_decimal_text(v: i64) -> (r: String)
    ensures
        r@ == signed_decimal(v as int),
{
    let mut s = String::new();
    if v < 0 {
        push_char(&mut s, '-');
        let magnitude: u64 = (-(v as i128)) as u64;
        push_decimal(&mut s, magnitude);
        assert(s@ =~= signed_decimal(v as int));
    } else {
        push_decimal(&mut s, v as u64);
        assert(s@ =~= signed_decimal(v as int));
    }
    s
}

/// The texts of a list of strings.
pub open spec fn texts(v: Seq<String>) -> Seq<Seq<char>> {
    v.map_values(|x: String| x@)
}

/// Copies characters `from..to` into a string.
fn text_of_range(s: &Vec<char>, from: usize, to: usize) -> (r: String)
    requires
        from <= to <= s@.len(),
    ensures
        r@ == s@.subrange(from as int, to as int),
{
    let mut out = String::new();
    let mut k: usize = from;
    while k < to
        invariant
            from <= k <= to <= s@.len(),
            out@ == s@.subrange(from as int, k as int),
        decreases to - k,
    {
        push_char(&mut out, s[k]);
        k = k + 1;
        assert(out@ =~= s@.subrange(from as int, k as int));
    }
    out
}

/// The characters `from..to` without leading and trailing white space.
fn trimmed_range(s: &Vec<char>, from: usize, to: usize) -> (r: String)
    requires
        from <= to <= s@.len(),
    ensures
        r@ == trim(s@.subrange(from as int, to as int)),
{
    let mut i: usize = from;
    while i < to && white_space(s[i])
        invariant
            from <= i <= to <= s@.len(),
            trim_front(s@.subrange(from as int, to as int)) == trim_front(s@.subrange(i as int, to as int)),
        decreases to - i,
    {
        proof {
            let sub = s@.subrange(i as int, to as int);
            assert(sub[0] == s@[i as int]);
            assert(sub.drop_first() =~= s@.subrange(i + 1, to as int));
        }
        i = i + 1;
    }
    let mut j: usize = to;
    while j > i && white_space(s[j - 1])
        invariant
            from <= i <= j <= to <= s@.len(),
            trim_front(s@.subrange(from as int, to as int)) == s@.subrange(i as int, to as int),
            trim(s@.subrange(from as int, to as int)) == trim_back(s@.subrange(i as int, j as int)),
        decreases j - i,
    {
        proof {
            let sub = s@.subrange(i as int, j as int);
            assert(sub.last() == s@[j - 1]);
            assert(sub.drop_last() =~= s@.subrange(i as int, j - 1));
        }
        j = j - 1;
    }
    text_of_range(s, i, j)
}

/// The text without leading and trailing white space.
pub fn trim_text(s: &str) -> (r: String)
    ensures
        r@ == trim(s@),
{
    let chars = chars_of(s);
    assert(chars@.subrange(0, chars@.len() as int) =~= chars@);
    trimmed_range(&chars, 0, chars.len())
}

/// The pieces of a text between the occurrences of `sep`.
pub fn split_text(s: &str, sep: char) -> (r: Vec<String>)
    ensures
        texts(r@) == split_on(s@, sep),
{
    let chars = chars_of(s);
    let mut done: Vec<String> = Vec::new();
    let mut cur = String::new();
    let mut i: usize = 0;
    assert(texts(done@).push(cur@) =~= split_on(chars@.subrange(0, 0), sep));
    while i < chars.len()
        invariant
            i <= chars@.len(),
            texts(done@).push(cur@) == split_on(chars@.subrange(0, i as int), sep),
        decreases chars@.len() - i,
    {
        let c = chars[i];
        let ghost before = texts(done@).push(cur@);
        proof {
            let sub = chars@.subrange(0, i + 1);
            assert(sub.drop_last() =~= chars@.subrange(0, i as int));
            assert(sub.last() == c);
        }
        if c == sep {
            done.push(cur);
            cur = String::new();
            assert(texts(done@).push(cur@) =~= before.push(Seq::empty()));
        } else {
            push_char(&mut cur, c);
            assert(texts(done@).push(cur@) =~= before.update(before.len() - 1, before.last().push(c)));
        }
        i = i + 1;
    }
    assert(chars@.subrange(0, chars@.len() as int) =~= chars@);
    done.push(cur);
    done
}

/// Every piece without leading and trailing white space.
pub fn trim_each(pieces: &Vec<String>) -> (r: Vec<String>)
    ensures
        texts(r@) == texts(pieces@).map_values(|p: Seq<char>| trim(p)),
{
    let mut out: Vec<String> = Vec::new();
    let mut k: usize = 0;
    while k < pieces.len()
        invariant
            k <= pieces@.len(),
            out@.len() == k,
            texts(out@) == texts(pieces@.subrange(0, k as int)).map_values(|p: Seq<char>| trim(p)),
        decreases pieces@.len() - k,
    {
        let t = trim_text(pieces[k].as_str());
        let ghost prev = out@;
        let ghost tv = t@;
        out.push(t);
        proof {
            let a = texts(out@);
            let b = texts(pieces@.subrange(0, k + 1)).map_values(|p: Seq<char>| trim(p));
            let old_b = texts(pieces@.subrange(0, k as int)).map_values(|p: Seq<char>| trim(p));
            assert(out@ == prev.push(out@[k as int]));
            assert(out@[k as int]@ == tv);
            assert forall|j: int| 0 <= j < a.len() implies a[j] == b[j] by {
                if j < k {
                    assert(out@[j] == prev[j]);
                    assert(texts(prev)[j] == old_b[j]);
                    assert(pieces@.subrange(0, k + 1)[j] == pieces@.subrange(0, k as int)[j]);
                } else {
                    assert(pieces@.subrange(0, k + 1)[j] == pieces@[k as int]);
                }
            }
            assert(a =~= b);
        }
        k = k + 1;
    }
    assert(pieces@.subrange(0, pieces@.len() as int) =~= pieces@);
    out
}

/// The pieces joined with `sep` between each two.
pub fn join_text(pieces: &Vec<String>, sep: char) -> (r: String)
    ensures
        r@ == join_with(texts(pieces@), sep),
{
    let mut out = String::new();
    let mut k: usize = 0;
    while k < pieces.len()
        invariant
            k <= pieces@.len(),
            out@ == join_with(texts(pieces@).subrange(0, k as int), sep),
        decreases pieces@.len() - k,
    {
        let ghost sub = texts(pieces@).subrange(0, k + 1);
        proof {
            assert(sub.drop_last() =~= texts(pieces@).subrange(0, k as int));
            assert(sub.last() == pieces@[k as int]@);
        }
        if k > 0 {
            push_char(&mut out, sep);
        }
        out.append(pieces[k].as_str());
        k = k + 1;
        assert(out@ =~= join_with(sub, sep));
    }
    assert(texts(pieces@).subrange(0, pieces@.len() as int) =~= texts(pieces@));
    out
}

/// Whether `pattern` occurs in `s` at position `at`.
fn matches_at(s: &Vec<char>, pattern: &Vec<char>, at: usize) -> (r: bool)
    requires
        at + pattern@.len() <= s@.len(),
    ensures
        r == (s@.subrange(at as int, at + pattern@.len()) == pattern@),
{
    let m = pattern.len();
    let n = s.len();
    let mut k: usize = 0;
    while k < m
        invariant
            m == pattern@.len(),
            n == s@.len(),
            at + m <= n,
            k <= m,
            forall|j: int| 0 <= j < k ==> s@[at + j] == pattern@[j],
        decreases m - k,
    {
        if s[at + k] != pattern[k] {
            proof {
                assert(s@.subrange(at as int, at + m)[k as int] == s@[at + k]);
            }
            return false;
        }
        k = k + 1;
    }
    assert(s@.subrange(at as int, at + m) =~= pattern@);
    true
}

/// Whether `pattern` occurs in `s`.
pub fn contains_pattern(s: &str, pattern: &str) -> (r: bool)
    ensures
        r == contains_text(s@, pattern@),
{
    let sc = chars_of(s);
    let pc = chars_of(pattern);
    let n = sc.len();
    let m = pc.len();
    if m > n {
        return false;
    }
    if m == 0 {
        assert(s@.subrange(0int, 0int + pattern@.len()) =~= pattern@);
        return true;
    }
    let mut i: usize = 0;
    while i <= n - m
        invariant
            n == sc@.len(),
            m == pc@.len(),
            sc@ == s@,
            pc@ == pattern@,
            1 <= m <= n,
            i <= n - m + 1,
            forall|p: int| 0 <= p < i ==> #[trigger] sc@.subrange(p, p + m) != pc@,
        decreases n - m + 1 - i,
    {
        if matches_at(&sc, &pc, i) {
            assert(s@.subrange(i as int, i + pattern@.len()) == pattern@);
            return true;
        }
        i = i + 1;
    }
    false
}

/// `s` without `prefix` where it starts with it, else `s` itself.
pub fn strip_prefix_text(s: &str, prefix: &str) -> (r: String)
    ensures
        r@ == strip_prefix_or_keep(s@, prefix@),
{
    let sc = chars_of(s);
    let pc = chars_of(prefix);
    if pc.len() <= sc.len() && matches_at(&sc, &pc, 0) {
        text_of_range(&sc, pc.len(), sc.len())
    } else {
        assert(sc@.subrange(0, sc@.len() as int) =~= sc@);
        text_of_range(&sc, 0, sc.len())
    }
}

// ----- MIPLIB 2017: instances that cannot be loaded -----

/// The texts of a list of string slices.
pub open spec fn str_texts(v: Seq<&str>) -> Seq<Seq<char>> {
    v.map_values(|x: &str| x@)
}

/// MIPLIB 2017 instances with several objectives.
pub open spec fn multi_objective_instances() -> Seq<Seq<char>> {
    seq![
        "neos-933638"@,
        "neos-935769"@,
        "neos-983171"@,
        "neos-932721"@,
        "dsbmip"@,
        "neos-935234"@,
        "lrn"@,
        "neos-933966"@,
        "ivu52"@,
        "mad"@,
    ]
}

/// MIPLIB 2017 instances that use indicator constraints (`INDICATORS`).
pub open spec fn indicator_instances() -> Seq<Seq<char>> {
    seq![
        "supportcase27i"@,
        "supportcase21i"@,
        "supportcase28i"@,
        "mrcpspj30-17-10i"@,
        "gfd-schedulen25f5d20m10k3i"@,
        "fjspeasy01i"@,
        "splice1k1i"@,
        "elitserienhandball11i"@,
        "elitserienhandball13i"@,
        "mappingmesh3x3mpeg2i"@,
        "amaze22012-07-04i"@,
        "cvrpp-n16k8vrpi"@,
        "l2p2i"@,
        "mrcpspj30-15-5i"@,
        "mario-t-hard5i"@,
        "shipschedule6shipsmixi"@,
        "mrcpspj30-53-3i"@,
        "mspsphard01i"@,
        "gfd-schedulen55f2d50m30k3i"@,
        "amaze22012-03-15i"@,
        "elitserienhandball3i"@,
        "cvrpb-n45k5vrpi"@,
        "gfd-schedulen180f7d50m30k18-16i"@,
        "elitserienhandball14i"@,
        "cvrpa-n64k9vrpi"@,
        "k1mushroomi"@,
        "shipschedule8shipsmixuci"@,
        "amaze22012-06-28i"@,
        "pizza78i"@,
        "pizza27i"@,
        "rpp22falsei"@,
        "oocsp-racks030f7cci"@,
        "fillomino7x7-0i"@,
        "l2p1i"@,
        "stoch-vrpvrp-s5v2c8vrp-v2c8i"@,
        "shipschedule3shipsi"@,
        "cvrpsimple2i"@,
        "mspsphard03i"@,
        "oocsp-racks030e6cci"@,
        "ghoulomb4-9-10i"@,
    ]
}

/// MIPLIB 2017 instances that use lazy constraints (`LAZYCONS`).
pub open spec fn lazy_constraint_instances() -> Seq<Seq<char>> {
    seq![
        "diameterc-msts-v40a100d5i"@,
        "diameterc-mstc-v20a190d5i"@,
    ]
}

fn multi_objective_list() -> (r: Vec<&'static str>)
    ensures
        str_texts(r@) == multi_objective_instances(),
{
    let r = vec![
        "neos-933638",
        "neos-935769",
        "neos-983171",
        "neos-932721",
        "dsbmip",
        "neos-935234",
        "lrn",
        "neos-933966",
        "ivu52",
        "mad",
    ];
    assert(str_texts(r@) =~= multi_objective_instances());
    r
}

fn indicator_list() -> (r: Vec<&'static str>)
    ensures
        str_texts(r@) == indicator_instances(),
{
    let r = vec![
        "supportcase27i",
        "supportcase21i",
        "supportcase28i",
        "mrcpspj30-17-10i",
        "gfd-schedulen25f5d20m10k3i",
        "fjspeasy01i",
        "splice1k1i",
        "elitserienhandball11i",
        "elitserienhandball13i",
        "mappingmesh3x3mpeg2i",
        "amaze22012-07-04i",
        "cvrpp-n16k8vrpi",
        "l2p2i",
        "mrcpspj30-15-5i",
        "mario-t-hard5i",
        "shipschedule6shipsmixi",
        "mrcpspj30-53-3i",
        "mspsphard01i",
        "gfd-schedulen55f2d50m30k3i",
        "amaze22012-03-15i",
        "elitserienhandball3i",
        "cvrpb-n45k5vrpi",
        "gfd-schedulen180f7d50m30k18-16i",
        "elitserienhandball14i",
        "cvrpa-n64k9vrpi",
        "k1mushroomi",
        "shipschedule8shipsmixuci",
        "amaze22012-06-28i",
        "pizza78i",
        "pizza27i",
        "rpp22falsei",
        "oocsp-racks030f7cci",
        "fillomino7x7-0i",
        "l2p1i",
        "stoch-vrpvrp-s5v2c8vrp-v2c8i",
        "shipschedule3shipsi",
        "cvrpsimple2i",
        "mspsphard03i",
        "oocsp-racks030e6cci",
        "ghoulomb4-9-10i",
    ];
    assert(str_texts(r@) =~= indicator_instances());
    r
}

fn lazy_constraint_list() -> (r: Vec<&'static str>)
    ensures
        str_texts(r@) == lazy_constraint_instances(),
{
    let r = vec![
        "diameterc-msts-v40a100d5i",
        "diameterc-mstc-v20a190d5i",
    ];
    assert(str_texts(r@) =~= lazy_constraint_instances());
    r
}

/// Whether `name` is one of the listed texts.
fn is_listed(list: &Vec<&str>, name: &str) -> (r: bool)
    ensures
        r == str_texts(list@).contains(name@),
{
    let mut i: usize = 0;
    while i < list.len()
        invariant
            i <= list@.len(),
            forall|j: int| 0 <= j < i ==> list@[j]@ != name@,
        decreases list@.len() - i,
    {
        if same_text(list[i], name) {
            assert(str_texts(list@)[i as int] == name@);
            return true;
        }
        i = i + 1;
    }
    proof {
        if str_texts(list@).contains(name@) {
            let j = choose|j: int| 0 <= j < str_texts(list@).len() && str_texts(list@)[j] == name@;
            assert(list@[j]@ == name@);
        }
    }
    false
}

/// Why OMMX cannot load a MIPLIB 2017 instance.
#[derive(Clone, Copy, PartialEq, Eq, Structural, Debug)]
pub enum UnsupportedReason {
    /// The problem has several objectives.
    MultiObjective,
    /// The problem uses indicator constraints.
    Indicators,
    /// The problem uses lazy constraints.
    LazyConstraints,
    /// The MPS file looks broken.
    BrokenMps,
}

/// A MIPLIB 2017 instance that OMMX cannot load, and why.
#[derive(Clone, Debug, PartialEq)]
pub struct UnsupportedInstance {
    pub name: String,
    pub reason: UnsupportedReason,
}

/// Why the instance `name` cannot be loaded, checked in this order:
/// several objectives, indicator constraints, lazy constraints, the broken
/// MPS file of `neos-5044663-wairoa`; `None` for every other name.
pub open spec fn unsupported_reason(name: Seq<char>) -> Option<UnsupportedReason> {
    if multi_objective_instances().contains(name) {
        Some(UnsupportedReason::MultiObjective)
    } else if indicator_instances().contains(name) {
        Some(UnsupportedReason::Indicators)
    } else if lazy_constraint_instances().contains(name) {
        Some(UnsupportedReason::LazyConstraints)
    } else if name == "neos-5044663-wairoa"@ {
        Some(UnsupportedReason::BrokenMps)
    } else {
        None
    }
}

/// The ten MIPLIB 2017 instances with several objectives (neos-933638,
/// neos-935769, neos-983171, neos-932721, dsbmip, neos-935234, lrn,
/// neos-933966, ivu52, mad) are each refused as multi-objective.
pub proof fn lemma_multi_objective_instances_refused(name: Seq<char>)
    requires
        name == "neos-933638"@ || name == "neos-935769"@ || name == "neos-983171"@ || name == "neos-932721"@ || name == "dsbmip"@ || name == "neos-935234"@ || name == "lrn"@ || name == "neos-933966"@ || name == "ivu52"@ || name == "mad"@,
    ensures
        unsupported_reason(name) == Some(UnsupportedReason::MultiObjective),
{
    assert(multi_objective_instances()[0] == "neos-933638"@);
    assert(multi_objective_instances()[1] == "neos-935769"@);
    assert(multi_objective_instances()[2] == "neos-983171"@);
    assert(multi_objective_instances()[3] == "neos-932721"@);
    assert(multi_objective_instances()[4] == "dsbmip"@);
    assert(multi_objective_instances()[5] == "neos-935234"@);
    assert(multi_objective_instances()[6] == "lrn"@);
    assert(multi_objective_instances()[7] == "neos-933966"@);
    assert(multi_objective_instances()[8] == "ivu52"@);
    assert(multi_objective_instances()[9] == "mad"@);
}

/// No multi-objective name ends in `i` or `a`.
proof fn lemma_multi_objective_shape()
    ensures
        forall|q: int| 0 <= q < multi_objective_instances().len() ==> #[trigger] multi_objective_instances()[q].len() > 0 && multi_objective_instances()[q].last() != 'i' && multi_objective_instances()[q].last() != 'a',
{
    reveal_strlit("neos-933638");
    reveal_strlit("neos-935769");
    reveal_strlit("neos-983171");
    reveal_strlit("neos-932721");
    reveal_strlit("dsbmip");
    reveal_strlit("neos-935234");
    reveal_strlit("lrn");
    reveal_strlit("neos-933966");
    reveal_strlit("ivu52");
    reveal_strlit("mad");
    assert forall|q: int| 0 <= q < multi_objective_instances().len() implies #[trigger] multi_objective_instances()[q].len() > 0 && multi_objective_instances()[q].last() != 'i' && multi_objective_instances()[q].last() != 'a' by {
        assert(q == 0 || q == 1 || q == 2 || q == 3 || q == 4 || q == 5 || q == 6 || q == 7 || q == 8 || q == 9);
        assert(multi_objective_instances()[0] == "neos-933638"@);
        assert(multi_objective_instances()[1] == "neos-935769"@);
        assert(multi_objective_instances()[2] == "neos-983171"@);
        assert(multi_objective_instances()[3] == "neos-932721"@);
        assert(multi_objective_instances()[4] == "dsbmip"@);
        assert(multi_objective_instances()[5] == "neos-935234"@);
        assert(multi_objective_instances()[6] == "lrn"@);
        assert(multi_objective_instances()[7] == "neos-933966"@);
        assert(multi_objective_instances()[8] == "ivu52"@);
        assert(multi_objective_instances()[9] == "mad"@);
    }
}

/// Every indicator name ends in `i`, and none starts with `d`.
proof fn lemma_indicator_shape()
    ensures
        forall|q: int| 0 <= q < indicator_instances().len() ==> #[trigger] indicator_instances()[q].len() > 0 && indicator_instances()[q].last() == 'i' && indicator_instances()[q][0] != 'd',
{
    reveal_strlit("supportcase27i");
    reveal_strlit("supportcase21i");
    reveal_strlit("supportcase28i");
    reveal_strlit("mrcpspj30-17-10i");
    reveal_strlit("gfd-schedulen25f5d20m10k3i");
    reveal_strlit("fjspeasy01i");
    reveal_strlit("splice1k1i");
    reveal_strlit("elitserienhandball11i");
    reveal_strlit("elitserienhandball13i");
    reveal_strlit("mappingmesh3x3mpeg2i");
    reveal_strlit("amaze22012-07-04i");
    reveal_strlit("cvrpp-n16k8vrpi");
    reveal_strlit("l2p2i");
    reveal_strlit("mrcpspj30-15-5i");
    reveal_strlit("mario-t-hard5i");
    reveal_strlit("shipschedule6shipsmixi");
    reveal_strlit("mrcpspj30-53-3i");
    reveal_strlit("mspsphard01i");
    reveal_strlit("gfd-schedulen55f2d50m30k3i");
    reveal_strlit("amaze22012-03-15i");
    reveal_strlit("elitserienhandball3i");
    reveal_strlit("cvrpb-n45k5vrpi");
    reveal_strlit("gfd-schedulen180f7d50m30k18-16i");
    reveal_strlit("elitserienhandball14i");
    reveal_strlit("cvrpa-n64k9vrpi");
    reveal_strlit("k1mushroomi");
    reveal_strlit("shipschedule8shipsmixuci");
    reveal_strlit("amaze22012-06-28i");
    reveal_strlit("pizza78i");
    reveal_strlit("pizza27i");
    reveal_strlit("rpp22falsei");
    reveal_strlit("oocsp-racks030f7cci");
    reveal_strlit("fillomino7x7-0i");
    reveal_strlit("l2p1i");
    reveal_strlit("stoch-vrpvrp-s5v2c8vrp-v2c8i");
    reveal_strlit("shipschedule3shipsi");
    reveal_strlit("cvrpsimple2i");
    reveal_strlit("mspsphard03i");
    reveal_strlit("oocsp-racks030e6cci");
    reveal_strlit("ghoulomb4-9-10i");
    assert forall|q: int| 0 <= q < indicator_instances().len() implies #[trigger] indicator_instances()[q].len() > 0 && indicator_instances()[q].last() == 'i' && indicator_instances()[q][0] != 'd' by {
        assert(q == 0 || q == 1 || q == 2 || q == 3 || q == 4 || q == 5 || q == 6 || q == 7 || q == 8 || q == 9 || q == 10 || q == 11 || q == 12 || q == 13 || q == 14 || q == 15 || q == 16 || q == 17 || q == 18 || q == 19 || q == 20 || q == 21 || q == 22 || q == 23 || q == 24 || q == 25 || q == 26 || q == 27 || q == 28 || q == 29 || q == 30 || q == 31 || q == 32 || q == 33 || q == 34 || q == 35 || q == 36 || q == 37 || q == 38 || q == 39);
        assert(indicator_instances()[0] == "supportcase27i"@);
        assert(indicator_instances()[1] == "supportcase21i"@);
        assert(indicator_instances()[2] == "supportcase28i"@);
        assert(indicator_instances()[3] == "mrcpspj30-17-10i"@);
        assert(indicator_instances()[4] == "gfd-schedulen25f5d20m10k3i"@);
        assert(indicator_instances()[5] == "fjspeasy01i"@);
        assert(indicator_instances()[6] == "splice1k1i"@);
        assert(indicator_instances()[7] == "elitserienhandball11i"@);
        assert(indicator_instances()[8] == "elitserienhandball13i"@);
        assert(indicator_instances()[9] == "mappingmesh3x3mpeg2i"@);
        assert(indicator_instances()[10] == "amaze22012-07-04i"@);
        assert(indicator_instances()[11] == "cvrpp-n16k8vrpi"@);
        assert(indicator_instances()[12] == "l2p2i"@);
        assert(indicator_instances()[13] == "mrcpspj30-15-5i"@);
        assert(indicator_instances()[14] == "mario-t-hard5i"@);
        assert(indicator_instances()[15] == "shipschedule6shipsmixi"@);
        assert(indicator_instances()[16] == "mrcpspj30-53-3i"@);
        assert(indicator_instances()[17] == "mspsphard01i"@);
        assert(indicator_instances()[18] == "gfd-schedulen55f2d50m30k3i"@);
        assert(indicator_instances()[19] == "amaze22012-03-15i"@);
        assert(indicator_instances()[20] == "elitserienhandball3i"@);
        assert(indicator_instances()[21] == "cvrpb-n45k5vrpi"@);
        assert(indicator_instances()[22] == "gfd-schedulen180f7d50m30k18-16i"@);
        assert(indicator_instances()[23] == "elitserienhandball14i"@);
        assert(indicator_instances()[24] == "cvrpa-n64k9vrpi"@);
        assert(indicator_instances()[25] == "k1mushroomi"@);
        assert(indicator_instances()[26] == "shipschedule8shipsmixuci"@);
        assert(indicator_instances()[27] == "amaze22012-06-28i"@);
        assert(indicator_instances()[28] == "pizza78i"@);
        assert(indicator_instances()[29] == "pizza27i"@);
        assert(indicator_instances()[30] == "rpp22falsei"@);
        assert(indicator_instances()[31] == "oocsp-racks030f7cci"@);
        assert(indicator_instances()[32] == "fillomino7x7-0i"@);
        assert(indicator_instances()[33] == "l2p1i"@);
        assert(indicator_instances()[34] == "stoch-vrpvrp-s5v2c8vrp-v2c8i"@);
        assert(indicator_instances()[35] == "shipschedule3shipsi"@);
        assert(indicator_instances()[36] == "cvrpsimple2i"@);
        assert(indicator_instances()[37] == "mspsphard03i"@);
        assert(indicator_instances()[38] == "oocsp-racks030e6cci"@);
        assert(indicator_instances()[39] == "ghoulomb4-9-10i"@);
    }
}

/// Both lazy-constraint names end in `i` and start with `d`.
proof fn lemma_lazy_constraint_shape()
    ensures
        forall|q: int| 0 <= q < lazy_constraint_instances().len() ==> #[trigger] lazy_constraint_instances()[q].len() > 0 && lazy_constraint_instances()[q].last() == 'i' && lazy_constraint_instances()[q][0] == 'd',
{
    reveal_strlit("diameterc-msts-v40a100d5i");
    reveal_strlit("diameterc-mstc-v20a190d5i");
    assert forall|q: int| 0 <= q < lazy_constraint_instances().len() implies #[trigger] lazy_constraint_instances()[q].len() > 0 && lazy_constraint_instances()[q].last() == 'i' && lazy_constraint_instances()[q][0] == 'd' by {
        assert(q == 0 || q == 1);
        assert(lazy_constraint_instances()[0] == "diameterc-msts-v40a100d5i"@);
        assert(lazy_constraint_instances()[1] == "diameterc-mstc-v20a190d5i"@);
    }
}

/// The forty MIPLIB 2017 instances that use indicator constraints, from
/// supportcase27i to ghoulomb4-9-10i, are each refused for them.
pub proof fn lemma_indicator_instances_refused(name: Seq<char>)
    requires
        name == "supportcase27i"@ || name == "supportcase21i"@ || name == "supportcase28i"@ || name == "mrcpspj30-17-10i"@ || name == "gfd-schedulen25f5d20m10k3i"@ || name == "fjspeasy01i"@ || name == "splice1k1i"@ || name == "elitserienhandball11i"@ || name == "elitserienhandball13i"@ || name == "mappingmesh3x3mpeg2i"@ || name == "amaze22012-07-04i"@ || name == "cvrpp-n16k8vrpi"@ || name == "l2p2i"@ || name == "mrcpspj30-15-5i"@ || name == "mario-t-hard5i"@ || name == "shipschedule6shipsmixi"@ || name == "mrcpspj30-53-3i"@ || name == "mspsphard01i"@ || name == "gfd-schedulen55f2d50m30k3i"@ || name == "amaze22012-03-15i"@ || name == "elitserienhandball3i"@ || name == "cvrpb-n45k5vrpi"@ || name == "gfd-schedulen180f7d50m30k18-16i"@ || name == "elitserienhandball14i"@ || name == "cvrpa-n64k9vrpi"@ || name == "k1mushroomi"@ || name == "shipschedule8shipsmixuci"@ || name == "amaze22012-06-28i"@ || name == "pizza78i"@ || name == "pizza27i"@ || name == "rpp22falsei"@ || name == "oocsp-racks030f7cci"@ || name == "fillomino7x7-0i"@ || name == "l2p1i"@ || name == "stoch-vrpvrp-s5v2c8vrp-v2c8i"@ || name == "shipschedule3shipsi"@ || name == "cvrpsimple2i"@ || name == "mspsphard03i"@ || name == "oocsp-racks030e6cci"@ || name == "ghoulomb4-9-10i"@,
    ensures
        unsupported_reason(name) == Some(UnsupportedReason::Indicators),
{
    reveal_strlit("supportcase27i");
    reveal_strlit("supportcase21i");
    reveal_strlit("supportcase28i");
    reveal_strlit("mrcpspj30-17-10i");
    reveal_strlit("gfd-schedulen25f5d20m10k3i");
    reveal_strlit("fjspeasy01i");
    reveal_strlit("splice1k1i");
    reveal_strlit("elitserienhandball11i");
    reveal_strlit("elitserienhandball13i");
    reveal_strlit("mappingmesh3x3mpeg2i");
    reveal_strlit("amaze22012-07-04i");
    reveal_strlit("cvrpp-n16k8vrpi");
    reveal_strlit("l2p2i");
    reveal_strlit("mrcpspj30-15-5i");
    reveal_strlit("mario-t-hard5i");
    reveal_strlit("shipschedule6shipsmixi");
    reveal_strlit("mrcpspj30-53-3i");
    reveal_strlit("mspsphard01i");
    reveal_strlit("gfd-schedulen55f2d50m30k3i");
    reveal_strlit("amaze22012-03-15i");
    reveal_strlit("elitserienhandball3i");
    reveal_strlit("cvrpb-n45k5vrpi");
    reveal_strlit("gfd-schedulen180f7d50m30k18-16i");
    reveal_strlit("elitserienhandball14i");
    reveal_strlit("cvrpa-n64k9vrpi");
    reveal_strlit("k1mushroomi");
    reveal_strlit("shipschedule8shipsmixuci");
    reveal_strlit("amaze22012-06-28i");
    reveal_strlit("pizza78i");
    reveal_strlit("pizza27i");
    reveal_strlit("rpp22falsei");
    reveal_strlit("oocsp-racks030f7cci");
    reveal_strlit("fillomino7x7-0i");
    reveal_strlit("l2p1i");
    reveal_strlit("stoch-vrpvrp-s5v2c8vrp-v2c8i");
    reveal_strlit("shipschedule3shipsi");
    reveal_strlit("cvrpsimple2i");
    reveal_strlit("mspsphard03i");
    reveal_strlit("oocsp-racks030e6cci");
    reveal_strlit("ghoulomb4-9-10i");
    lemma_multi_objective_shape();
    assert(name.len() > 0 && name.last() == 'i');
    if multi_objective_instances().contains(name) {
        let q = choose|q: int| 0 <= q < multi_objective_instances().len() && multi_objective_instances()[q] == name;
        assert(multi_objective_instances()[q].last() != 'i');
    }
    assert(indicator_instances()[0] == "supportcase27i"@);
    assert(indicator_instances()[1] == "supportcase21i"@);
    assert(indicator_instances()[2] == "supportcase28i"@);
    assert(indicator_instances()[3] == "mrcpspj30-17-10i"@);
    assert(indicator_instances()[4] == "gfd-schedulen25f5d20m10k3i"@);
    assert(indicator_instances()[5] == "fjspeasy01i"@);
    assert(indicator_instances()[6] == "splice1k1i"@);
    assert(indicator_instances()[7] == "elitserienhandball11i"@);
    assert(indicator_instances()[8] == "elitserienhandball13i"@);
    assert(indicator_instances()[9] == "mappingmesh3x3mpeg2i"@);
    assert(indicator_instances()[10] == "amaze22012-07-04i"@);
    assert(indicator_instances()[11] == "cvrpp-n16k8vrpi"@);
    assert(indicator_instances()[12] == "l2p2i"@);
    assert(indicator_instances()[13] == "mrcpspj30-15-5i"@);
    assert(indicator_instances()[14] == "mario-t-hard5i"@);
    assert(indicator_instances()[15] == "shipschedule6shipsmixi"@);
    assert(indicator_instances()[16] == "mrcpspj30-53-3i"@);
    assert(indicator_instances()[17] == "mspsphard01i"@);
    assert(indicator_instances()[18] == "gfd-schedulen55f2d50m30k3i"@);
    assert(indicator_instances()[19] == "amaze22012-03-15i"@);
    assert(indicator_instances()[20] == "elitserienhandball3i"@);
    assert(indicator_instances()[21] == "cvrpb-n45k5vrpi"@);
    assert(indicator_instances()[22] == "gfd-schedulen180f7d50m30k18-16i"@);
    assert(indicator_instances()[23] == "elitserienhandball14i"@);
    assert(indicator_instances()[24] == "cvrpa-n64k9vrpi"@);
    assert(indicator_instances()[25] == "k1mushroomi"@);
    assert(indicator_instances()[26] == "shipschedule8shipsmixuci"@);
    assert(indicator_instances()[27] == "amaze22012-06-28i"@);
    assert(indicator_instances()[28] == "pizza78i"@);
    assert(indicator_instances()[29] == "pizza27i"@);
    assert(indicator_instances()[30] == "rpp22falsei"@);
    assert(indicator_instances()[31] == "oocsp-racks030f7cci"@);
    assert(indicator_instances()[32] == "fillomino7x7-0i"@);
    assert(indicator_instances()[33] == "l2p1i"@);
    assert(indicator_instances()[34] == "stoch-vrpvrp-s5v2c8vrp-v2c8i"@);
    assert(indicator_instances()[35] == "shipschedule3shipsi"@);
    assert(indicator_instances()[36] == "cvrpsimple2i"@);
    assert(indicator_instances()[37] == "mspsphard03i"@);
    assert(indicator_instances()[38] == "oocsp-racks030e6cci"@);
    assert(indicator_instances()[39] == "ghoulomb4-9-10i"@);
}

/// The two MIPLIB 2017 instances that use lazy constraints are each refused
/// for them, and the broken `neos-5044663-wairoa` for its MPS file.
pub proof fn lemma_lazy_and_broken_instances_refused(name: Seq<char>)
    ensures
        (name == "diameterc-msts-v40a100d5i"@ || name == "diameterc-mstc-v20a190d5i"@) ==> unsupported_reason(name) == Some(
            UnsupportedReason::LazyConstraints,
        ),
        name == "neos-5044663-wairoa"@ ==> unsupported_reason(name) == Some(UnsupportedReason::BrokenMps),
{
    lemma_multi_objective_shape();
    lemma_indicator_shape();
    lemma_lazy_constraint_shape();
    if name == "diameterc-msts-v40a100d5i"@ || name == "diameterc-mstc-v20a190d5i"@ {
        reveal_strlit("diameterc-msts-v40a100d5i");
        reveal_strlit("diameterc-mstc-v20a190d5i");
        assert(name.len() > 0 && name.last() == 'i' && name[0] == 'd');
        if multi_objective_instances().contains(name) {
            let q = choose|q: int| 0 <= q < multi_objective_instances().len() && multi_objective_instances()[q] == name;
            assert(multi_objective_instances()[q].last() != 'i');
        }
        if indicator_instances().contains(name) {
            let q = choose|q: int| 0 <= q < indicator_instances().len() && indicator_instances()[q] == name;
            assert(indicator_instances()[q][0] != 'd');
        }
        assert(lazy_constraint_instances()[0] == "diameterc-msts-v40a100d5i"@);
        assert(lazy_constraint_instances()[1] == "diameterc-mstc-v20a190d5i"@);
    }
    if name == "neos-5044663-wairoa"@ {
        reveal_strlit("neos-5044663-wairoa");
        assert(name.len() > 0 && name.last() == 'a');
        if multi_objective_instances().contains(name) {
            let q = choose|q: int| 0 <= q < multi_objective_instances().len() && multi_objective_instances()[q] == name;
            assert(multi_objective_instances()[q].last() != 'a');
        }
        if indicator_instances().contains(name) {
            let q = choose|q: int| 0 <= q < indicator_instances().len() && indicator_instances()[q] == name;
            assert(indicator_instances()[q].last() == 'i');
        }
        if lazy_constraint_instances().contains(name) {
            let q = choose|q: int| 0 <= q < lazy_constraint_instances().len() && lazy_constraint_instances()[q] == name;
            assert(lazy_constraint_instances()[q].last() == 'i');
        }
    }
}

/// Only the listed instances are refused: a name for which loading is
/// refused is one of the ten multi-objective, forty indicator and two
/// lazy-constraint instances, or `neos-5044663-wairoa`.
pub proof fn lemma_only_listed_instances_refused(name: Seq<char>)
    requires
        unsupported_reason(name) is Some,
    ensures
        name == "neos-933638"@ || name == "neos-935769"@ || name == "neos-983171"@ || name == "neos-932721"@ || name == "dsbmip"@ || name == "neos-935234"@ || name == "lrn"@ || name == "neos-933966"@ || name == "ivu52"@ || name == "mad"@ || name == "supportcase27i"@ || name == "supportcase21i"@ || name == "supportcase28i"@ || name == "mrcpspj30-17-10i"@ || name == "gfd-schedulen25f5d20m10k3i"@ || name == "fjspeasy01i"@ || name == "splice1k1i"@ || name == "elitserienhandball11i"@ || name == "elitserienhandball13i"@ || name == "mappingmesh3x3mpeg2i"@ || name == "amaze22012-07-04i"@ || name == "cvrpp-n16k8vrpi"@ || name == "l2p2i"@ || name == "mrcpspj30-15-5i"@ || name == "mario-t-hard5i"@ || name == "shipschedule6shipsmixi"@ || name == "mrcpspj30-53-3i"@ || name == "mspsphard01i"@ || name == "gfd-schedulen55f2d50m30k3i"@ || name == "amaze22012-03-15i"@ || name == "elitserienhandball3i"@ || name == "cvrpb-n45k5vrpi"@ || name == "gfd-schedulen180f7d50m30k18-16i"@ || name == "elitserienhandball14i"@ || name == "cvrpa-n64k9vrpi"@ || name == "k1mushroomi"@ || name == "shipschedule8shipsmixuci"@ || name == "amaze22012-06-28i"@ || name == "pizza78i"@ || name == "pizza27i"@ || name == "rpp22falsei"@ || name == "oocsp-racks030f7cci"@ || name == "fillomino7x7-0i"@ || name == "l2p1i"@ || name == "stoch-vrpvrp-s5v2c8vrp-v2c8i"@ || name == "shipschedule3shipsi"@ || name == "cvrpsimple2i"@ || name == "mspsphard03i"@ || name == "oocsp-racks030e6cci"@ || name == "ghoulomb4-9-10i"@ || name == "diameterc-msts-v40a100d5i"@ || name == "diameterc-mstc-v20a190d5i"@ || name == "neos-5044663-wairoa"@,
{
    if multi_objective_instances().contains(name) {
        let q = choose|q: int| 0 <= q < multi_objective_instances().len() && multi_objective_instances()[q] == name;
        assert(q == 0 || q == 1 || q == 2 || q == 3 || q == 4 || q == 5 || q == 6 || q == 7 || q == 8 || q == 9);
        assert(multi_objective_instances()[0] == "neos-933638"@);
        assert(multi_objective_instances()[1] == "neos-935769"@);
        assert(multi_objective_instances()[2] == "neos-983171"@);
        assert(multi_objective_instances()[3] == "neos-932721"@);
        assert(multi_objective_instances()[4] == "dsbmip"@);
        assert(multi_objective_instances()[5] == "neos-935234"@);
        assert(multi_objective_instances()[6] == "lrn"@);
        assert(multi_objective_instances()[7] == "neos-933966"@);
        assert(multi_objective_instances()[8] == "ivu52"@);
        assert(multi_objective_instances()[9] == "mad"@);
        assert(name == "neos-933638"@ || name == "neos-935769"@ || name == "neos-983171"@ || name == "neos-932721"@ || name == "dsbmip"@ || name == "neos-935234"@ || name == "lrn"@ || name == "neos-933966"@ || name == "ivu52"@ || name == "mad"@);
    }
    if indicator_instances().contains(name) {
        let q = choose|q: int| 0 <= q < indicator_instances().len() && indicator_instances()[q] == name;
        assert(q == 0 || q == 1 || q == 2 || q == 3 || q == 4 || q == 5 || q == 6 || q == 7 || q == 8 || q == 9 || q == 10 || q == 11 || q == 12 || q == 13 || q == 14 || q == 15 || q == 16 || q == 17 || q == 18 || q == 19 || q == 20 || q == 21 || q == 22 || q == 23 || q == 24 || q == 25 || q == 26 || q == 27 || q == 28 || q == 29 || q == 30 || q == 31 || q == 32 || q == 33 || q == 34 || q == 35 || q == 36 || q == 37 || q == 38 || q == 39);
        assert(indicator_instances()[0] == "supportcase27i"@);
        assert(indicator_instances()[1] == "supportcase21i"@);
        assert(indicator_instances()[2] == "supportcase28i"@);
        assert(indicator_instances()[3] == "mrcpspj30-17-10i"@);
        assert(indicator_instances()[4] == "gfd-schedulen25f5d20m10k3i"@);
        assert(indicator_instances()[5] == "fjspeasy01i"@);
        assert(indicator_instances()[6] == "splice1k1i"@);
        assert(indicator_instances()[7] == "elitserienhandball11i"@);
        assert(indicator_instances()[8] == "elitserienhandball13i"@);
        assert(indicator_instances()[9] == "mappingmesh3x3mpeg2i"@);
        assert(indicator_instances()[10] == "amaze22012-07-04i"@);
        assert(indicator_instances()[11] == "cvrpp-n16k8vrpi"@);
        assert(indicator_instances()[12] == "l2p2i"@);
        assert(indicator_instances()[13] == "mrcpspj30-15-5i"@);
        assert(indicator_instances()[14] == "mario-t-hard5i"@);
        assert(indicator_instances()[15] == "shipschedule6shipsmixi"@);
        assert(indicator_instances()[16] == "mrcpspj30-53-3i"@);
        assert(indicator_instances()[17] == "mspsphard01i"@);
        assert(indicator_instances()[18] == "gfd-schedulen55f2d50m30k3i"@);
        assert(indicator_instances()[19] == "amaze22012-03-15i"@);
        assert(indicator_instances()[20] == "elitserienhandball3i"@);
        assert(indicator_instances()[21] == "cvrpb-n45k5vrpi"@);
        assert(indicator_instances()[22] == "gfd-schedulen180f7d50m30k18-16i"@);
        assert(indicator_instances()[23] == "elitserienhandball14i"@);
        assert(indicator_instances()[24] == "cvrpa-n64k9vrpi"@);
        assert(indicator_instances()[25] == "k1mushroomi"@);
        assert(indicator_instances()[26] == "shipschedule8shipsmixuci"@);
        assert(indicator_instances()[27] == "amaze22012-06-28i"@);
        assert(indicator_instances()[28] == "pizza78i"@);
        assert(indicator_instances()[29] == "pizza27i"@);
        assert(indicator_instances()[30] == "rpp22falsei"@);
        assert(indicator_instances()[31] == "oocsp-racks030f7cci"@);
        assert(indicator_instances()[32] == "fillomino7x7-0i"@);
        assert(indicator_instances()[33] == "l2p1i"@);
        assert(indicator_instances()[34] == "stoch-vrpvrp-s5v2c8vrp-v2c8i"@);
        assert(indicator_instances()[35] == "shipschedule3shipsi"@);
        assert(indicator_instances()[36] == "cvrpsimple2i"@);
        assert(indicator_instances()[37] == "mspsphard03i"@);
        assert(indicator_instances()[38] == "oocsp-racks030e6cci"@);
        assert(indicator_instances()[39] == "ghoulomb4-9-10i"@);
        assert(name == "supportcase27i"@ || name == "supportcase21i"@ || name == "supportcase28i"@ || name == "mrcpspj30-17-10i"@ || name == "gfd-schedulen25f5d20m10k3i"@ || name == "fjspeasy01i"@ || name == "splice1k1i"@ || name == "elitserienhandball11i"@ || name == "elitserienhandball13i"@ || name == "mappingmesh3x3mpeg2i"@ || name == "amaze22012-07-04i"@ || name == "cvrpp-n16k8vrpi"@ || name == "l2p2i"@ || name == "mrcpspj30-15-5i"@ || name == "mario-t-hard5i"@ || name == "shipschedule6shipsmixi"@ || name == "mrcpspj30-53-3i"@ || name == "mspsphard01i"@ || name == "gfd-schedulen55f2d50m30k3i"@ || name == "amaze22012-03-15i"@ || name == "elitserienhandball3i"@ || name == "cvrpb-n45k5vrpi"@ || name == "gfd-schedulen180f7d50m30k18-16i"@ || name == "elitserienhandball14i"@ || name == "cvrpa-n64k9vrpi"@ || name == "k1mushroomi"@ || name == "shipschedule8shipsmixuci"@ || name == "amaze22012-06-28i"@ || name == "pizza78i"@ || name == "pizza27i"@ || name == "rpp22falsei"@ || name == "oocsp-racks030f7cci"@ || name == "fillomino7x7-0i"@ || name == "l2p1i"@ || name == "stoch-vrpvrp-s5v2c8vrp-v2c8i"@ || name == "shipschedule3shipsi"@ || name == "cvrpsimple2i"@ || name == "mspsphard03i"@ || name == "oocsp-racks030e6cci"@ || name == "ghoulomb4-9-10i"@);
    }
    if lazy_constraint_instances().contains(name) {
        let q = choose|q: int| 0 <= q < lazy_constraint_instances().len() && lazy_constraint_instances()[q] == name;
        assert(q == 0 || q == 1);
        assert(lazy_constraint_instances()[0] == "diameterc-msts-v40a100d5i"@);
        assert(lazy_constraint_instances()[1] == "diameterc-mstc-v20a190d5i"@);
        assert(name == "diameterc-msts-v40a100d5i"@ || name == "diameterc-mstc-v20a190d5i"@);
    }
}

/// Refuses the MIPLIB 2017 instances that OMMX cannot load.
pub fn check_unsupported(name: &str) -> (r: Result<(), UnsupportedInstance>)
    ensures
        match unsupported_reason(name@) {
            None => r is Ok,
            Some(reason) => (r matches Err(e) && e.reason == reason && e.name@ == name@),
        },
{
    let reason = if is_listed(&multi_objective_list(), name) {
        UnsupportedReason::MultiObjective
    } else if is_listed(&indicator_list(), name) {
        UnsupportedReason::Indicators
    } else if is_listed(&lazy_constraint_list(), name) {
        UnsupportedReason::LazyConstraints
    } else if same_text(name, "neos-5044663-wairoa") {
        UnsupportedReason::BrokenMps
    } else {
        return Ok(());
    };
    Err(UnsupportedInstance { name: String::from_str(name), reason })
}

impl UnsupportedInstance {
    /// The text that reports the refusal.
    pub open spec fn message_spec(self) -> Seq<char> {
        match self.reason {
            UnsupportedReason::MultiObjective => "Instance "@ + self.name@
                + " is a multi-objective problem, which is not supported by OMMX."@,
            UnsupportedReason::Indicators => "Instance "@ + self.name@
                + " contains 'INDICATORS', which is not supported by OMMX."@,
            UnsupportedReason::LazyConstraints => "Instance "@ + self.name@
                + " contains 'LAZYCONS', which is not supported by OMMX."@,
            UnsupportedReason::BrokenMps => "Instance "@ + self.name@ + " looks broken MPS file."@,
        }
    }

    /// The text that reports the refusal.
    pub fn message(&self) -> (r: String)
        ensures
            r@ == self.message_spec(),
    {
        match self.reason {
            UnsupportedReason::MultiObjective => text_around(
                "Instance ",
                self.name.as_str(),
                " is a multi-objective problem, which is not supported by OMMX.",
            ),
            UnsupportedReason::Indicators => text_around(
                "Instance ",
                self.name.as_str(),
                " contains 'INDICATORS', which is not supported by OMMX.",
            ),
            UnsupportedReason::LazyConstraints => text_around(
                "Instance ",
                self.name.as_str(),
                " contains 'LAZYCONS', which is not supported by OMMX.",
            ),
            UnsupportedReason::BrokenMps => text_around("Instance ", self.name.as_str(), " looks broken MPS file."),
        }
    }
}

/// The catalogues of benchmark instances.
#[derive(Clone, Copy, PartialEq, Eq, Structural, Debug)]
pub enum Catalogue {
    Miplib2017,
    Qplib,
}

/// Why a dataset instance name is refused before anything is fetched.
#[derive(Clone, Debug, PartialEq)]
pub enum DatasetError {
    /// The catalogue has no instance of this name.
    UnknownInstance { name: String, catalogue: Catalogue },
    /// OMMX cannot load this instance.
    Unsupported(UnsupportedInstance),
}

impl DatasetError {
    /// The text that reports the error.
    pub open spec fn message_spec(self) -> Seq<char> {
        match self {
            DatasetError::UnknownInstance { name, catalogue: Catalogue::Miplib2017 } => "Given name '"@ + name@
                + "' does not exist in MIPLIB 2017"@,
            DatasetError::UnknownInstance { name, catalogue: Catalogue::Qplib } => "Given tag '"@ + name@ + "' (QPLIB_"@
                + name@ + ") does not exist in QPLIB"@,
            DatasetError::Unsupported(e) => e.message_spec(),
        }
    }

    /// The text that reports the error.
    pub fn message(&self) -> (r: String)
        ensures
            r@ == self.message_spec(),
    {
        match self {
            DatasetError::UnknownInstance { name, catalogue: Catalogue::Miplib2017 } => text_around(
                "Given name '",
                name.as_str(),
                "' does not exist in MIPLIB 2017",
            ),
            DatasetError::UnknownInstance { name, catalogue: Catalogue::Qplib } => {
                let mut s = text_around("Given tag '", name.as_str(), "' (QPLIB_");
                s.append(name.as_str());
                s.append(") does not exist in QPLIB");
                s
            },
            DatasetError::Unsupported(e) => e.message(),
        }
    }
}

/// Accepts a name that the catalogue lists, given the catalogue's names.
pub fn validate_instance_name(name: &str, known: &Vec<String>, catalogue: Catalogue) -> (r: Result<(), DatasetError>)
    ensures
        (r is Ok) <==> texts(known@).contains(name@),
        r matches Err(e) ==> (e matches DatasetError::UnknownInstance { name: n, catalogue: c } && n@ == name@
            && c == catalogue),
{
    let mut i: usize = 0;
    while i < known.len()
        invariant
            i <= known@.len(),
            forall|j: int| 0 <= j < i ==> known@[j]@ != name@,
        decreases known@.len() - i,
    {
        if same_text(known[i].as_str(), name) {
            assert(texts(known@)[i as int] == name@);
            return Ok(());
        }
        i = i + 1;
    }
    proof {
        if texts(known@).contains(name@) {
            let j = choose|j: int| 0 <= j < texts(known@).len() && texts(known@)[j] == name@;
            assert(known@[j]@ == name@);
        }
    }
    Err(DatasetError::UnknownInstance { name: String::from_str(name), catalogue })
}

/// The checks a MIPLIB 2017 load makes before anything is fetched: the
/// catalogue must list the name, and OMMX must be able to load it.
pub fn validate_miplib_name(name: &str, known: &Vec<String>) -> (r: Result<(), DatasetError>)
    ensures
        !texts(known@).contains(name@) ==> (r matches Err(DatasetError::UnknownInstance { name: n, catalogue: c })
            && n@ == name@ && c == Catalogue::Miplib2017),
        texts(known@).contains(name@) ==> match unsupported_reason(name@) {
            None => r is Ok,
            Some(reason) => (r matches Err(DatasetError::Unsupported(e)) && e.reason == reason && e.name@ == name@),
        },
{
    validate_instance_name(name, known, Catalogue::Miplib2017)?;
    match check_unsupported(name) {
        Ok(()) => Ok(()),
        Err(e) => Err(DatasetError::Unsupported(e)),
    }
}

// ----- annotations -----

/// Annotations of a catalogue instance: the common fields, then the
/// catalogue's own keys in the order they were set.
#[derive(Clone, Debug, PartialEq)]
pub struct InstanceAnnotations {
    pub title: Option<String>,
    pub created: Option<String>,
    pub authors: Option<Vec<String>>,
    pub license: Option<String>,
    pub dataset: Option<String>,
    pub variables: Option<u64>,
    pub constraints: Option<u64>,
    pub other: Vec<(String, String)>,
}

/// Annotations as plain values.
pub struct AnnotationsView {
    pub title: Option<Seq<char>>,
    pub created: Option<Seq<char>>,
    pub authors: Option<Seq<Seq<char>>>,
    pub license: Option<Seq<char>>,
    pub dataset: Option<Seq<char>>,
    pub variables: Option<u64>,
    pub constraints: Option<u64>,
    pub other: Seq<(Seq<char>, Seq<char>)>,
}

pub open spec fn opt_text(o: Option<String>) -> Option<Seq<char>> {
    match o {
        Some(s) => Some(s@),
        None => None,
    }
}

pub open spec fn opt_texts(o: Option<Vec<String>>) -> Option<Seq<Seq<char>>> {
    match o {
        Some(v) => Some(texts(v@)),
        None => None,
    }
}

/// The texts of a list of key-value pairs.
pub open spec fn pair_texts(v: Seq<(String, String)>) -> Seq<(Seq<char>, Seq<char>)> {
    v.map_values(|p: (String, String)| (p.0@, p.1@))
}

impl View for InstanceAnnotations {
    type V = AnnotationsView;

    open spec fn view(&self) -> AnnotationsView {
        AnnotationsView {
            title: opt_text(self.title),
            created: opt_text(self.created),
            authors: opt_texts(self.authors),
            license: opt_text(self.license),
            dataset: opt_text(self.dataset),
            variables: self.variables,
            constraints: self.constraints,
            other: pair_texts(self.other@),
        }
    }
}

/// Appends a key-value pair.
fn push_pair(out: &mut Vec<(String, String)>, key: &str, value: String)
    ensures
        pair_texts(final(out)@) == pair_texts(old(out)@).push((key@, value@)),
{
    let k = String::from_str(key);
    let ghost pair = (k@, value@);
    out.push((k, value));
    assert(pair_texts(final(out)@) =~= pair_texts(old(out)@).push(pair));
}

/// A row of the MIPLIB 2017 catalogue, its counts already read as integers
/// and its objective value as text (`None` where it is not available).
#[derive(Clone, Debug, PartialEq)]
pub struct MiplibEntry {
    pub instance: String,
    pub status: String,
    pub variables: u64,
    pub binaries: u64,
    pub integers: u64,
    pub continuous: u64,
    pub constraints: u64,
    pub non_zero: u64,
    pub submitter: String,
    pub group: String,
    pub objective: Option<String>,
    pub tags: String,
}

/// The license of a MIPLIB 2017 submission: BSD-3-Clause for Berk Ustun's
/// submissions, CC-BY-SA-4.0 for all others.
pub open spec fn miplib_license(submitter: Seq<char>) -> Seq<char> {
    if contains_text(submitter, "Berk Ustun"@) {
        "BSD-3-Clause"@
    } else {
        "CC-BY-SA-4.0"@
    }
}

/// The MIPLIB-specific annotations of a row, under `org.ommx.miplib.*`:
/// the counts, the status, the group unless it is `-`, the objective where
/// it is available, the space-separated tags joined by commas, and the URL
/// of the instance's page.
pub open spec fn miplib_other(e: MiplibEntry) -> Seq<(Seq<char>, Seq<char>)> {
    seq![
        ("org.ommx.miplib.binaries"@, decimal(e.binaries as nat)),
        ("org.ommx.miplib.integers"@, decimal(e.integers as nat)),
        ("org.ommx.miplib.continuous"@, decimal(e.continuous as nat)),
        ("org.ommx.miplib.non_zero"@, decimal(e.non_zero as nat)),
        ("org.ommx.miplib.status"@, e.status@),
    ] + (if e.group@ != "-"@ {
        seq![("org.ommx.miplib.group"@, e.group@)]
    } else {
        Seq::empty()
    }) + (match e.objective {
        Some(o) => seq![("org.ommx.miplib.objective"@, o@)],
        None => Seq::empty(),
    }) + seq![
        ("org.ommx.miplib.tags"@, join_with(split_on(e.tags@, ' ').map_values(|p: Seq<char>| trim(p)), ',')),
        ("org.ommx.miplib.url"@, "https://miplib.zib.de/instance_details_"@ + e.instance@ + ".html"@),
    ]
}

/// The annotations of a MIPLIB 2017 row, created at `created`: its title,
/// the comma-separated submitters as authors, the license, the dataset, the
/// variable and constraint counts, and the MIPLIB-specific keys.
pub open spec fn miplib_annotation_spec(e: MiplibEntry, created: Seq<char>) -> AnnotationsView {
    AnnotationsView {
        title: Some(e.instance@),
        created: Some(created),
        authors: Some(split_on(e.submitter@, ',').map_values(|p: Seq<char>| trim(p))),
        license: Some(miplib_license(e.submitter@)),
        dataset: Some("MIPLIB2017"@),
        variables: Some(e.variables),
        constraints: Some(e.constraints),
        other: miplib_other(e),
    }
}

/// The annotations of a MIPLIB 2017 row; `created` is the creation time
/// the caller stamps it with.
pub fn miplib_annotation(e: &MiplibEntry, created: &str) -> (r: InstanceAnnotations)
    ensures
        r@ == miplib_annotation_spec(*e, created@),
{
    let authors = trim_each(&split_text(e.submitter.as_str(), ','));
    let license = if contains_pattern(e.submitter.as_str(), "Berk Ustun") {
        String::from_str("BSD-3-Clause")
    } else {
        String::from_str("CC-BY-SA-4.0")
    };
    let mut other: Vec<(String, String)> = Vec::new();
    push_pair(&mut other, "org.ommx.miplib.binaries", decimal_text(e.binaries));
    push_pair(&mut other, "org.ommx.miplib.integers", decimal_text(e.integers));
    push_pair(&mut other, "org.ommx.miplib.continuous", decimal_text(e.continuous));
    push_pair(&mut other, "org.ommx.miplib.non_zero", decimal_text(e.non_zero));
    push_pair(&mut other, "org.ommx.miplib.status", e.status.clone());
    let ghost base = pair_texts(other@);
    if !same_text(e.group.as_str(), "-") {
        push_pair(&mut other, "org.ommx.miplib.group", e.group.clone());
    }
    let ghost with_group = pair_texts(other@);
    match &e.objective {
        Some(o) => {
            push_pair(&mut other, "org.ommx.miplib.objective", o.clone());
        },
        None => {},
    }
    let ghost with_objective = pair_texts(other@);
    let tags = join_text(&trim_each(&split_text(e.tags.as_str(), ' ')), ',');
    push_pair(&mut other, "org.ommx.miplib.tags", tags);
    let mut url = String::from_str("https://miplib.zib.de/instance_details_");
    url.append(e.instance.as_str());
    url.append(".html");
    push_pair(&mut other, "org.ommx.miplib.url", url);
    let r = InstanceAnnotations {
        title: Some(e.instance.clone()),
        created: Some(String::from_str(created)),
        authors: Some(authors),
        license: Some(license),
        dataset: Some(String::from_str("MIPLIB2017")),
        variables: Some(e.variables),
        constraints: Some(e.constraints),
        other,
    };
    proof {
        let spec_other = miplib_other(*e);
        assert(pair_texts(r.other@) =~= spec_other);
    }
    r
}

/// A row of the QPLIB catalogue, its floating-point columns already written
/// as text.
#[derive(Clone, Debug, PartialEq)]
pub struct QplibEntry {
    pub name: String,
    pub sol_source: String,
    pub donor: String,
    pub nvars: u64,
    pub ncons: u64,
    pub nbinvars: u64,
    pub nintvars: u64,
    pub ncontvars: u64,
    pub nsemi: u64,
    pub nnlvars: u64,
    pub nnlbinvars: u64,
    pub nnlintvars: u64,
    pub nnlsemi: u64,
    pub nboundedvars: u64,
    pub nsingleboundedvars: u64,
    pub nsos1: u64,
    pub nsos2: u64,
    pub nlincons: u64,
    pub nquadcons: u64,
    pub ndiagquadcons: u64,
    pub nconvexnlcons: u64,
    pub nconcavenlcons: u64,
    pub nindefinitenlcons: u64,
    pub nobjnz: u64,
    pub nobjnlnz: u64,
    pub nobjquadnz: u64,
    pub nobjquaddiagnz: u64,
    pub njacobiannz: u64,
    pub njacobiannlnz: u64,
    pub nlaghessiannz: u64,
    pub nlaghessiandiagnz: u64,
    pub nlaghessianblocks: u64,
    pub laghessianminblocksize: u64,
    pub laghessianmaxblocksize: u64,
    pub nz: u64,
    pub nlnz: u64,
    pub nlinfunc: u64,
    pub nquadfunc: u64,
    pub nnlfunc: u64,
    pub nobjquadnegev: i64,
    pub nobjquadposev: i64,
    pub laghessianavgblocksize: String,
    pub density: String,
    pub nldensity: String,
    pub objquaddensity: String,
    pub objquadproblevfrac: String,
    pub objsense: String,
    pub objtype: String,
    pub objcurvature: String,
    pub conscurvature: String,
    pub probtype: String,
    pub convex: String,
    pub solobjvalue: String,
    pub solinfeasibility: String,
}

/// The catalogue key of a QPLIB instance: its name without the `QPLIB_`
/// prefix.
pub open spec fn qplib_tag_spec(name: Seq<char>) -> Seq<char> {
    strip_prefix_or_keep(name, "QPLIB_"@)
}

/// The catalogue key of a QPLIB instance.
pub fn qplib_tag(name: &str) -> (r: String)
    ensures
        r@ == qplib_tag_spec(name@),
{
    strip_prefix_text(name, "QPLIB_")
}

/// The QPLIB-specific annotations of a row, under `org.ommx.qplib.*`: the
/// counts and characteristics, the solution columns that are not empty, and
/// the URL of the instance's page.
pub open spec fn qplib_other(e: QplibEntry) -> Seq<(Seq<char>, Seq<char>)> {
    seq![
        ("org.ommx.qplib.nvars"@, decimal(e.nvars as nat)),
        ("org.ommx.qplib.ncons"@, decimal(e.ncons as nat)),
        ("org.ommx.qplib.nbinvars"@, decimal(e.nbinvars as nat)),
        ("org.ommx.qplib.nintvars"@, decimal(e.nintvars as nat)),
        ("org.ommx.qplib.ncontvars"@, decimal(e.ncontvars as nat)),
        ("org.ommx.qplib.nsemi"@, decimal(e.nsemi as nat)),
        ("org.ommx.qplib.nnlvars"@, decimal(e.nnlvars as nat)),
        ("org.ommx.qplib.nnlbinvars"@, decimal(e.nnlbinvars as nat)),
        ("org.ommx.qplib.nnlintvars"@, decimal(e.nnlintvars as nat)),
        ("org.ommx.qplib.nnlsemi"@, decimal(e.nnlsemi as nat)),
        ("org.ommx.qplib.nboundedvars"@, decimal(e.nboundedvars as nat)),
        ("org.ommx.qplib.nsingleboundedvars"@, decimal(e.nsingleboundedvars as nat)),
        ("org.ommx.qplib.nsos1"@, decimal(e.nsos1 as nat)),
        ("org.ommx.qplib.nsos2"@, decimal(e.nsos2 as nat)),
        ("org.ommx.qplib.nlincons"@, decimal(e.nlincons as nat)),
        ("org.ommx.qplib.nquadcons"@, decimal(e.nquadcons as nat)),
        ("org.ommx.qplib.ndiagquadcons"@, decimal(e.ndiagquadcons as nat)),
        ("org.ommx.qplib.nconvexnlcons"@, decimal(e.nconvexnlcons as nat)),
        ("org.ommx.qplib.nconcavenlcons"@, decimal(e.nconcavenlcons as nat)),
        ("org.ommx.qplib.nindefinitenlcons"@, decimal(e.nindefinitenlcons as nat)),
        ("org.ommx.qplib.nobjnz"@, decimal(e.nobjnz as nat)),
        ("org.ommx.qplib.nobjnlnz"@, decimal(e.nobjnlnz as nat)),
        ("org.ommx.qplib.nobjquadnz"@, decimal(e.nobjquadnz as nat)),
        ("org.ommx.qplib.nobjquaddiagnz"@, decimal(e.nobjquaddiagnz as nat)),
        ("org.ommx.qplib.nobjquadnegev"@, signed_decimal(e.nobjquadnegev as int)),
        ("org.ommx.qplib.nobjquadposev"@, signed_decimal(e.nobjquadposev as int)),
        ("org.ommx.qplib.njacobiannz"@, decimal(e.njacobiannz as nat)),
        ("org.ommx.qplib.njacobiannlnz"@, decimal(e.njacobiannlnz as nat)),
        ("org.ommx.qplib.nlaghessiannz"@, decimal(e.nlaghessiannz as nat)),
        ("org.ommx.qplib.nlaghessiandiagnz"@, decimal(e.nlaghessiandiagnz as nat)),
        ("org.ommx.qplib.nlaghessianblocks"@, decimal(e.nlaghessianblocks as nat)),
        ("org.ommx.qplib.laghessianminblocksize"@, decimal(e.laghessianminblocksize as nat)),
        ("org.ommx.qplib.laghessianmaxblocksize"@, decimal(e.laghessianmaxblocksize as nat)),
        ("org.ommx.qplib.laghessianavgblocksize"@, e.laghessianavgblocksize@),
        ("org.ommx.qplib.nz"@, decimal(e.nz as nat)),
        ("org.ommx.qplib.nlnz"@, decimal(e.nlnz as nat)),
        ("org.ommx.qplib.nlinfunc"@, decimal(e.nlinfunc as nat)),
        ("org.ommx.qplib.nquadfunc"@, decimal(e.nquadfunc as nat)),
        ("org.ommx.qplib.nnlfunc"@, decimal(e.nnlfunc as nat)),
        ("org.ommx.qplib.density"@, e.density@),
        ("org.ommx.qplib.nldensity"@, e.nldensity@),
        ("org.ommx.qplib.objquaddensity"@, e.objquaddensity@),
        ("org.ommx.qplib.objquadproblevfrac"@, e.objquadproblevfrac@),
        ("org.ommx.qplib.objsense"@, e.objsense@),
        ("org.ommx.qplib.objtype"@, e.objtype@),
        ("org.ommx.qplib.objcurvature"@, e.objcurvature@),
        ("org.ommx.qplib.conscurvature"@, e.conscurvature@),
        ("org.ommx.qplib.probtype"@, e.probtype@),
        ("org.ommx.qplib.convex"@, e.convex@),
    ] + (if e.solobjvalue@.len() > 0 {
        seq![("org.ommx.qplib.solobjvalue"@, e.solobjvalue@)]
    } else {
        Seq::empty()
    }) + (if e.solinfeasibility@.len() > 0 {
        seq![("org.ommx.qplib.solinfeasibility"@, e.solinfeasibility@)]
    } else {
        Seq::empty()
    }) + (if e.sol_source@.len() > 0 {
        seq![("org.ommx.qplib.solsource"@, e.sol_source@)]
    } else {
        Seq::empty()
    }) + seq![
        ("org.ommx.qplib.url"@, "http://qplib.zib.de/QPLIB_"@ + qplib_tag_spec(e.name@) + ".html"@),
    ]
}

/// The annotations of a QPLIB row: its name as title, the donor as the one
/// author where there is one, the CC-BY-4.0 license, the dataset, and the
/// QPLIB-specific keys.
pub open spec fn qplib_annotation_spec(e: QplibEntry) -> AnnotationsView {
    AnnotationsView {
        title: Some(e.name@),
        created: None,
        authors: if e.donor@.len() > 0 {
            Some(seq![e.donor@])
        } else {
            None
        },
        license: Some("CC-BY-4.0"@),
        dataset: Some("QPLIB"@),
        variables: None,
        constraints: None,
        other: qplib_other(e),
    }
}

/// The annotations of a QPLIB row.
#[verifier::rlimit(50)]
pub fn qplib_annotation(e: &QplibEntry) -> (r: InstanceAnnotations)
    ensures
        r@ == qplib_annotation_spec(*e),
{
    let authors = if e.donor.unicode_len() > 0 {
        let mut v: Vec<String> = Vec::new();
        v.push(e.donor.clone());
        assert(texts(v@) =~= seq![e.donor@]);
        Some(v)
    } else {
        None
    };
    let mut other: Vec<(String, String)> = Vec::new();
    push_pair(&mut other, "org.ommx.qplib.nvars", decimal_text(e.nvars));
    push_pair(&mut other, "org.ommx.qplib.ncons", decimal_text(e.ncons));
    push_pair(&mut other, "org.ommx.qplib.nbinvars", decimal_text(e.nbinvars));
    push_pair(&mut other, "org.ommx.qplib.nintvars", decimal_text(e.nintvars));
    push_pair(&mut other, "org.ommx.qplib.ncontvars", decimal_text(e.ncontvars));
    push_pair(&mut other, "org.ommx.qplib.nsemi", decimal_text(e.nsemi));
    push_pair(&mut other, "org.ommx.qplib.nnlvars", decimal_text(e.nnlvars));
    push_pair(&mut other, "org.ommx.qplib.nnlbinvars", decimal_text(e.nnlbinvars));
    push_pair(&mut other, "org.ommx.qplib.nnlintvars", decimal_text(e.nnlintvars));
    push_pair(&mut other, "org.ommx.qplib.nnlsemi", decimal_text(e.nnlsemi));
    push_pair(&mut other, "org.ommx.qplib.nboundedvars", decimal_text(e.nboundedvars));
    push_pair(&mut other, "org.ommx.qplib.nsingleboundedvars", decimal_text(e.nsingleboundedvars));
    push_pair(&mut other, "org.ommx.qplib.nsos1", decimal_text(e.nsos1));
    push_pair(&mut other, "org.ommx.qplib.nsos2", decimal_text(e.nsos2));
    push_pair(&mut other, "org.ommx.qplib.nlincons", decimal_text(e.nlincons));
    push_pair(&mut other, "org.ommx.qplib.nquadcons", decimal_text(e.nquadcons));
    push_pair(&mut other, "org.ommx.qplib.ndiagquadcons", decimal_text(e.ndiagquadcons));
    push_pair(&mut other, "org.ommx.qplib.nconvexnlcons", decimal_text(e.nconvexnlcons));
    push_pair(&mut other, "org.ommx.qplib.nconcavenlcons", decimal_text(e.nconcavenlcons));
    push_pair(&mut other, "org.ommx.qplib.nindefinitenlcons", decimal_text(e.nindefinitenlcons));
    push_pair(&mut other, "org.ommx.qplib.nobjnz", decimal_text(e.nobjnz));
    push_pair(&mut other, "org.ommx.qplib.nobjnlnz", decimal_text(e.nobjnlnz));
    push_pair(&mut other, "org.ommx.qplib.nobjquadnz", decimal_text(e.nobjquadnz));
    push_pair(&mut other, "org.ommx.qplib.nobjquaddiagnz", decimal_text(e.nobjquaddiagnz));
    push_pair(&mut other, "org.ommx.qplib.nobjquadnegev", signed_decimal_text(e.nobjquadnegev));
    push_pair(&mut other, "org.ommx.qplib.nobjquadposev", signed_decimal_text(e.nobjquadposev));
    push_pair(&mut other, "org.ommx.qplib.njacobiannz", decimal_text(e.njacobiannz));
    push_pair(&mut other, "org.ommx.qplib.njacobiannlnz", decimal_text(e.njacobiannlnz));
    push_pair(&mut other, "org.ommx.qplib.nlaghessiannz", decimal_text(e.nlaghessiannz));
    push_pair(&mut other, "org.ommx.qplib.nlaghessiandiagnz", decimal_text(e.nlaghessiandiagnz));
    push_pair(&mut other, "org.ommx.qplib.nlaghessianblocks", decimal_text(e.nlaghessianblocks));
    push_pair(&mut other, "org.ommx.qplib.laghessianminblocksize", decimal_text(e.laghessianminblocksize));
    push_pair(&mut other, "org.ommx.qplib.laghessianmaxblocksize", decimal_text(e.laghessianmaxblocksize));
    push_pair(&mut other, "org.ommx.qplib.laghessianavgblocksize", e.laghessianavgblocksize.clone());
    push_pair(&mut other, "org.ommx.qplib.nz", decimal_text(e.nz));
    push_pair(&mut other, "org.ommx.qplib.nlnz", decimal_text(e.nlnz));
    push_pair(&mut other, "org.ommx.qplib.nlinfunc", decimal_text(e.nlinfunc));
    push_pair(&mut other, "org.ommx.qplib.nquadfunc", decimal_text(e.nquadfunc));
    push_pair(&mut other, "org.ommx.qplib.nnlfunc", decimal_text(e.nnlfunc));
    push_pair(&mut other, "org.ommx.qplib.density", e.density.clone());
    push_pair(&mut other, "org.ommx.qplib.nldensity", e.nldensity.clone());
    push_pair(&mut other, "org.ommx.qplib.objquaddensity", e.objquaddensity.clone());
    push_pair(&mut other, "org.ommx.qplib.objquadproblevfrac", e.objquadproblevfrac.clone());
    push_pair(&mut other, "org.ommx.qplib.objsense", e.objsense.clone());
    push_pair(&mut other, "org.ommx.qplib.objtype", e.objtype.clone());
    push_pair(&mut other, "org.ommx.qplib.objcurvature", e.objcurvature.clone());
    push_pair(&mut other, "org.ommx.qplib.conscurvature", e.conscurvature.clone());
    push_pair(&mut other, "org.ommx.qplib.probtype", e.probtype.clone());
    push_pair(&mut other, "org.ommx.qplib.convex", e.convex.clone());
    if e.solobjvalue.unicode_len() > 0 {
        push_pair(&mut other, "org.ommx.qplib.solobjvalue", e.solobjvalue.clone());
    }
    if e.solinfeasibility.unicode_len() > 0 {
        push_pair(&mut other, "org.ommx.qplib.solinfeasibility", e.solinfeasibility.clone());
    }
    if e.sol_source.unicode_len() > 0 {
        push_pair(&mut other, "org.ommx.qplib.solsource", e.sol_source.clone());
    }
    let mut url = String::from_str("http://qplib.zib.de/QPLIB_");
    let tag = qplib_tag(e.name.as_str());
    url.append(tag.as_str());
    url.append(".html");
    push_pair(&mut other, "org.ommx.qplib.url", url);
    let r = InstanceAnnotations {
        title: Some(e.name.clone()),
        created: None,
        authors,
        license: Some(String::from_str("CC-BY-4.0")),
        dataset: Some(String::from_str("QPLIB")),
        variables: None,
        constraints: None,
        other,
    };
    proof {
        assert(pair_texts(r.other@) =~= qplib_other(*e));
    }
    r
}

/// Each column of a QPLIB row is annotated under its own key: every count
/// under `org.ommx.qplib.<column>` as its decimal text, the text columns as
/// they are, the solution columns only when not empty, and the instance's
/// page under `org.ommx.qplib.url`; the row's name is the title, its donor
/// (when given) the one author, the license CC-BY-4.0 and the dataset QPLIB.
#[verifier::spinoff_prover]
#[verifier::rlimit(60)]
pub proof fn lemma_qplib_annotation_fields(e: QplibEntry)
    ensures
        qplib_annotation_spec(e).title == Some(e.name@),
        qplib_annotation_spec(e).created is None,
        e.donor@.len() > 0 ==> qplib_annotation_spec(e).authors == Some(seq![e.donor@]),
        e.donor@.len() == 0 ==> qplib_annotation_spec(e).authors is None,
        qplib_annotation_spec(e).license == Some("CC-BY-4.0"@),
        qplib_annotation_spec(e).dataset == Some("QPLIB"@),
        qplib_annotation_spec(e).variables is None,
        qplib_annotation_spec(e).constraints is None,
        qplib_annotation_spec(e).other.contains(("org.ommx.qplib.nvars"@, decimal(e.nvars as nat))),
        qplib_annotation_spec(e).other.contains(("org.ommx.qplib.ncons"@, decimal(e.ncons as nat))),
        qplib_annotation_spec(e).other.contains(("org.ommx.qplib.nbinvars"@, decimal(e.nbinvars as nat))),
        qplib_annotation_spec(e).other.contains(("org.ommx.qplib.nintvars"@, decimal(e.nintvars as nat))),
        qplib_annotation_spec(e).other.contains(("org.ommx.qplib.ncontvars"@, decimal(e.ncontvars as nat))),
        qplib_annotation_spec(e).other.contains(("org.ommx.qplib.nsemi"@, decimal(e.nsemi as nat))),
        qplib_annotation_spec(e).other.contains(("org.ommx.qplib.nnlvars"@, decimal(e.nnlvars as nat))),
        qplib_annotation_spec(e).other.contains(("org.ommx.qplib.nnlbinvars"@, decimal(e.nnlbinvars as nat))),
        qplib_annotation_spec(e).other.contains(("org.ommx.qplib.nnlintvars"@, decimal(e.nnlintvars as nat))),
        qplib_annotation_spec(e).other.contains(("org.ommx.qplib.nnlsemi"@, decimal(e.nnlsemi as nat))),
        qplib_annotation_spec(e).other.contains(("org.ommx.qplib.nboundedvars"@, decimal(e.nboundedvars as nat))),
        qplib_annotation_spec(e).other.contains(("org.ommx.qplib.nsingleboundedvars"@, decimal(e.nsingleboundedvars as nat))),
        qplib_annotation_spec(e).other.contains(("org.ommx.qplib.nsos1"@, decimal(e.nsos1 as nat))),
        qplib_annotation_spec(e).other.contains(("org.ommx.qplib.nsos2"@, decimal(e.nsos2 as nat))),
        qplib_annotation_spec(e).other.contains(("org.ommx.qplib.nlincons"@, decimal(e.nlincons as nat))),
        qplib_annotation_spec(e).other.contains(("org.ommx.qplib.nquadcons"@, decimal(e.nquadcons as nat))),
        qplib_annotation_spec(e).other.contains(("org.ommx.qplib.ndiagquadcons"@, decimal(e.ndiagquadcons as nat))),
        qplib_annotation_spec(e).other.contains(("org.ommx.qplib.nconvexnlcons"@, decimal(e.nconvexnlcons as nat))),
        qplib_annotation_spec(e).other.contains(("org.ommx.qplib.nconcavenlcons"@, decimal(e.nconcavenlcons as nat))),
        qplib_annotation_spec(e).other.contains(("org.ommx.qplib.nindefinitenlcons"@, decimal(e.nindefinitenlcons as nat))),
        qplib_annotation_spec(e).other.contains(("org.ommx.qplib.nobjnz"@, decimal(e.nobjnz as nat))),
        qplib_annotation_spec(e).other.contains(("org.ommx.qplib.nobjnlnz"@, decimal(e.nobjnlnz as nat))),
        qplib_annotation_spec(e).other.contains(("org.ommx.qplib.nobjquadnz"@, decimal(e.nobjquadnz as nat))),
        qplib_annotation_spec(e).other.contains(("org.ommx.qplib.nobjquaddiagnz"@, decimal(e.nobjquaddiagnz as nat))),
        qplib_annotation_spec(e).other.contains(("org.ommx.qplib.nobjquadnegev"@, signed_decimal(e.nobjquadnegev as int))),
        qplib_annotation_spec(e).other.contains(("org.ommx.qplib.nobjquadposev"@, signed_decimal(e.nobjquadposev as int))),
        qplib_annotation_spec(e).other.contains(("org.ommx.qplib.njacobiannz"@, decimal(e.njacobiannz as nat))),
        qplib_annotation_spec(e).other.contains(("org.ommx.qplib.njacobiannlnz"@, decimal(e.njacobiannlnz as nat))),
        qplib_annotation_spec(e).other.contains(("org.ommx.qplib.nlaghessiannz"@, decimal(e.nlaghessiannz as nat))),
        qplib_annotation_spec(e).other.contains(("org.ommx.qplib.nlaghessiandiagnz"@, decimal(e.nlaghessiandiagnz as nat))),
        qplib_annotation_spec(e).other.contains(("org.ommx.qplib.nlaghessianblocks"@, decimal(e.nlaghessianblocks as nat))),
        qplib_annotation_spec(e).other.contains(("org.ommx.qplib.laghessianminblocksize"@, decimal(e.laghessianminblocksize as nat))),
        qplib_annotation_spec(e).other.contains(("org.ommx.qplib.laghessianmaxblocksize"@, decimal(e.laghessianmaxblocksize as nat))),
        qplib_annotation_spec(e).other.contains(("org.ommx.qplib.laghessianavgblocksize"@, e.laghessianavgblocksize@)),
        qplib_annotation_spec(e).other.contains(("org.ommx.qplib.nz"@, decimal(e.nz as nat))),
        qplib_annotation_spec(e).other.contains(("org.ommx.qplib.nlnz"@, decimal(e.nlnz as nat))),
        qplib_annotation_spec(e).other.contains(("org.ommx.qplib.nlinfunc"@, decimal(e.nlinfunc as nat))),
        qplib_annotation_spec(e).other.contains(("org.ommx.qplib.nquadfunc"@, decimal(e.nquadfunc as nat))),
        qplib_annotation_spec(e).other.contains(("org.ommx.qplib.nnlfunc"@, decimal(e.nnlfunc as nat))),
        qplib_annotation_spec(e).other.contains(("org.ommx.qplib.density"@, e.density@)),
        qplib_annotation_spec(e).other.contains(("org.ommx.qplib.nldensity"@, e.nldensity@)),
        qplib_annotation_spec(e).other.contains(("org.ommx.qplib.objquaddensity"@, e.objquaddensity@)),
        qplib_annotation_spec(e).other.contains(("org.ommx.qplib.objquadproblevfrac"@, e.objquadproblevfrac@)),
        qplib_annotation_spec(e).other.contains(("org.ommx.qplib.objsense"@, e.objsense@)),
        qplib_annotation_spec(e).other.contains(("org.ommx.qplib.objtype"@, e.objtype@)),
        qplib_annotation_spec(e).other.contains(("org.ommx.qplib.objcurvature"@, e.objcurvature@)),
        qplib_annotation_spec(e).other.contains(("org.ommx.qplib.conscurvature"@, e.conscurvature@)),
        qplib_annotation_spec(e).other.contains(("org.ommx.qplib.probtype"@, e.probtype@)),
        qplib_annotation_spec(e).other.contains(("org.ommx.qplib.convex"@, e.convex@)),
        e.solobjvalue@.len() > 0 ==> qplib_annotation_spec(e).other.contains(("org.ommx.qplib.solobjvalue"@, e.solobjvalue@)),
        e.solinfeasibility@.len() > 0 ==> qplib_annotation_spec(e).other.contains(
            ("org.ommx.qplib.solinfeasibility"@, e.solinfeasibility@),
        ),
        e.sol_source@.len() > 0 ==> qplib_annotation_spec(e).other.contains(("org.ommx.qplib.solsource"@, e.sol_source@)),
        qplib_annotation_spec(e).other.last() == ("org.ommx.qplib.url"@, "http://qplib.zib.de/QPLIB_"@
            + strip_prefix_or_keep(e.name@, "QPLIB_"@) + ".html"@),
{
    let o = qplib_annotation_spec(e).other;
    assert(o[0] == ("org.ommx.qplib.nvars"@, decimal(e.nvars as nat)));
    assert(o[1] == ("org.ommx.qplib.ncons"@, decimal(e.ncons as nat)));
    assert(o[2] == ("org.ommx.qplib.nbinvars"@, decimal(e.nbinvars as nat)));
    assert(o[3] == ("org.ommx.qplib.nintvars"@, decimal(e.nintvars as nat)));
    assert(o[4] == ("org.ommx.qplib.ncontvars"@, decimal(e.ncontvars as nat)));
    assert(o[5] == ("org.ommx.qplib.nsemi"@, decimal(e.nsemi as nat)));
    assert(o[6] == ("org.ommx.qplib.nnlvars"@, decimal(e.nnlvars as nat)));
    assert(o[7] == ("org.ommx.qplib.nnlbinvars"@, decimal(e.nnlbinvars as nat)));
    assert(o[8] == ("org.ommx.qplib.nnlintvars"@, decimal(e.nnlintvars as nat)));
    assert(o[9] == ("org.ommx.qplib.nnlsemi"@, decimal(e.nnlsemi as nat)));
    assert(o[10] == ("org.ommx.qplib.nboundedvars"@, decimal(e.nboundedvars as nat)));
    assert(o[11] == ("org.ommx.qplib.nsingleboundedvars"@, decimal(e.nsingleboundedvars as nat)));
    assert(o[12] == ("org.ommx.qplib.nsos1"@, decimal(e.nsos1 as nat)));
    assert(o[13] == ("org.ommx.qplib.nsos2"@, decimal(e.nsos2 as nat)));
    assert(o[14] == ("org.ommx.qplib.nlincons"@, decimal(e.nlincons as nat)));
    assert(o[15] == ("org.ommx.qplib.nquadcons"@, decimal(e.nquadcons as nat)));
    assert(o[16] == ("org.ommx.qplib.ndiagquadcons"@, decimal(e.ndiagquadcons as nat)));
    assert(o[17] == ("org.ommx.qplib.nconvexnlcons"@, decimal(e.nconvexnlcons as nat)));
    assert(o[18] == ("org.ommx.qplib.nconcavenlcons"@, decimal(e.nconcavenlcons as nat)));
    assert(o[19] == ("org.ommx.qplib.nindefinitenlcons"@, decimal(e.nindefinitenlcons as nat)));
    assert(o[20] == ("org.ommx.qplib.nobjnz"@, decimal(e.nobjnz as nat)));
    assert(o[21] == ("org.ommx.qplib.nobjnlnz"@, decimal(e.nobjnlnz as nat)));
    assert(o[22] == ("org.ommx.qplib.nobjquadnz"@, decimal(e.nobjquadnz as nat)));
    assert(o[23] == ("org.ommx.qplib.nobjquaddiagnz"@, decimal(e.nobjquaddiagnz as nat)));
    assert(o[24] == ("org.ommx.qplib.nobjquadnegev"@, signed_decimal(e.nobjquadnegev as int)));
    assert(o[25] == ("org.ommx.qplib.nobjquadposev"@, signed_decimal(e.nobjquadposev as int)));
    assert(o[26] == ("org.ommx.qplib.njacobiannz"@, decimal(e.njacobiannz as nat)));
    assert(o[27] == ("org.ommx.qplib.njacobiannlnz"@, decimal(e.njacobiannlnz as nat)));
    assert(o[28] == ("org.ommx.qplib.nlaghessiannz"@, decimal(e.nlaghessiannz as nat)));
    assert(o[29] == ("org.ommx.qplib.nlaghessiandiagnz"@, decimal(e.nlaghessiandiagnz as nat)));
    assert(o[30] == ("org.ommx.qplib.nlaghessianblocks"@, decimal(e.nlaghessianblocks as nat)));
    assert(o[31] == ("org.ommx.qplib.laghessianminblocksize"@, decimal(e.laghessianminblocksize as nat)));
    assert(o[32] == ("org.ommx.qplib.laghessianmaxblocksize"@, decimal(e.laghessianmaxblocksize as nat)));
    assert(o[33] == ("org.ommx.qplib.laghessianavgblocksize"@, e.laghessianavgblocksize@));
    assert(o[34] == ("org.ommx.qplib.nz"@, decimal(e.nz as nat)));
    assert(o[35] == ("org.ommx.qplib.nlnz"@, decimal(e.nlnz as nat)));
    assert(o[36] == ("org.ommx.qplib.nlinfunc"@, decimal(e.nlinfunc as nat)));
    assert(o[37] == ("org.ommx.qplib.nquadfunc"@, decimal(e.nquadfunc as nat)));
    assert(o[38] == ("org.ommx.qplib.nnlfunc"@, decimal(e.nnlfunc as nat)));
    assert(o[39] == ("org.ommx.qplib.density"@, e.density@));
    assert(o[40] == ("org.ommx.qplib.nldensity"@, e.nldensity@));
    assert(o[41] == ("org.ommx.qplib.objquaddensity"@, e.objquaddensity@));
    assert(o[42] == ("org.ommx.qplib.objquadproblevfrac"@, e.objquadproblevfrac@));
    assert(o[43] == ("org.ommx.qplib.objsense"@, e.objsense@));
    assert(o[44] == ("org.ommx.qplib.objtype"@, e.objtype@));
    assert(o[45] == ("org.ommx.qplib.objcurvature"@, e.objcurvature@));
    assert(o[46] == ("org.ommx.qplib.conscurvature"@, e.conscurvature@));
    assert(o[47] == ("org.ommx.qplib.probtype"@, e.probtype@));
    assert(o[48] == ("org.ommx.qplib.convex"@, e.convex@));
    let fixed_len = 49int;
    let a = if e.solobjvalue@.len() > 0 { 1int } else { 0int };
    let b = if e.solinfeasibility@.len() > 0 { 1int } else { 0int };
    if e.solobjvalue@.len() > 0 {
        assert(o[fixed_len] == ("org.ommx.qplib.solobjvalue"@, e.solobjvalue@));
    }
    if e.solinfeasibility@.len() > 0 {
        assert(o[fixed_len + a] == ("org.ommx.qplib.solinfeasibility"@, e.solinfeasibility@));
    }
    if e.sol_source@.len() > 0 {
        assert(o[fixed_len + a + b] == ("org.ommx.qplib.solsource"@, e.sol_source@));
    }
}

/// Each column of a MIPLIB 2017 row is annotated under its own key: the
/// instance is the title, the variable and constraint counts fill the common
/// fields, the binary, integer, continuous and non-zero counts go under
/// `org.ommx.miplib.binaries`, `.integers`, `.continuous` and `.non_zero` as
/// their decimal texts, the status under `.status`, the group (unless `-`)
/// under `.group`, an available objective under `.objective`, and the page
/// of the instance under `.url`; submissions of Berk Ustun are BSD-3-Clause,
/// all others CC-BY-SA-4.0.
pub proof fn lemma_miplib_annotation_fields(e: MiplibEntry, created: Seq<char>)
    ensures
        miplib_annotation_spec(e, created).title == Some(e.instance@),
        miplib_annotation_spec(e, created).created == Some(created),
        miplib_annotation_spec(e, created).dataset == Some("MIPLIB2017"@),
        miplib_annotation_spec(e, created).variables == Some(e.variables),
        miplib_annotation_spec(e, created).constraints == Some(e.constraints),
        contains_text(e.submitter@, "Berk Ustun"@) ==> miplib_annotation_spec(e, created).license == Some(
            "BSD-3-Clause"@,
        ),
        !contains_text(e.submitter@, "Berk Ustun"@) ==> miplib_annotation_spec(e, created).license == Some(
            "CC-BY-SA-4.0"@,
        ),
        miplib_annotation_spec(e, created).other.contains(("org.ommx.miplib.binaries"@, decimal(e.binaries as nat))),
        miplib_annotation_spec(e, created).other.contains(("org.ommx.miplib.integers"@, decimal(e.integers as nat))),
        miplib_annotation_spec(e, created).other.contains(("org.ommx.miplib.continuous"@, decimal(e.continuous as nat))),
        miplib_annotation_spec(e, created).other.contains(("org.ommx.miplib.non_zero"@, decimal(e.non_zero as nat))),
        miplib_annotation_spec(e, created).other.contains(("org.ommx.miplib.status"@, e.status@)),
        e.group@ != "-"@ ==> miplib_annotation_spec(e, created).other.contains(("org.ommx.miplib.group"@, e.group@)),
        e.objective matches Some(o) ==> miplib_annotation_spec(e, created).other.contains(
            ("org.ommx.miplib.objective"@, o@),
        ),
        miplib_annotation_spec(e, created).other.last() == ("org.ommx.miplib.url"@,
            "https://miplib.zib.de/instance_details_"@ + e.instance@ + ".html"@),
        miplib_annotation_spec(e, created).authors == Some(
            split_on(e.submitter@, ',').map_values(|p: Seq<char>| trim(p)),
        ),
        miplib_annotation_spec(e, created).other.contains(
            ("org.ommx.miplib.tags"@, join_with(split_on(e.tags@, ' ').map_values(|p: Seq<char>| trim(p)), ',')),
        ),
{
    let o = miplib_annotation_spec(e, created).other;
    assert(o[0] == ("org.ommx.miplib.binaries"@, decimal(e.binaries as nat)));
    assert(o[1] == ("org.ommx.miplib.integers"@, decimal(e.integers as nat)));
    assert(o[2] == ("org.ommx.miplib.continuous"@, decimal(e.continuous as nat)));
    assert(o[3] == ("org.ommx.miplib.non_zero"@, decimal(e.non_zero as nat)));
    assert(o[4] == ("org.ommx.miplib.status"@, e.status@));
    if e.group@ != "-"@ {
        assert(o[5] == ("org.ommx.miplib.group"@, e.group@));
    }
    let g = if e.group@ != "-"@ { 1int } else { 0int };
    if let Some(obj) = e.objective {
        assert(o[5 + g] == ("org.ommx.miplib.objective"@, obj@));
    }
    assert(o[o.len() - 2] == ("org.ommx.miplib.tags"@, join_with(
        split_on(e.tags@, ' ').map_values(|p: Seq<char>| trim(p)),
        ',',
    )));
}

} // verus!
