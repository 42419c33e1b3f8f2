//! Character-level text helpers shared by the whole crate.
//!
//! Strings cross the API as `String`/`&str`; internally most scanning is done
//! over `Vec<char>`, whose view matches the string view `Seq<char>`.

use vstd::prelude::*;
use vstd::string::*;

verus! {

/// Collects the characters of a string slice into a vector.
pub fn to_chars(s: &str) -> (r: Vec<char>)
    ensures
        r@ == s@,
{
    let n: usize = s.unicode_len();
    let mut v: Vec<char> = Vec::new();
    let mut i: usize = 0;
    while i < n
        invariant
            n == s@.len(),
            i <= n,
            v@ == s@.subrange(0, i as int),
        decreases n - i,
    {
        let c: char = s.get_char(i);
        v.push(c);
        assert(v@ =~= s@.subrange(0, (i + 1) as int));
        i = i + 1;
    }
    assert(s@.subrange(0, n as int) =~= s@);
    v
}

/// Relies on `String: FromIterator<char>` (via `Iterator::collect`): the
/// resulting string holds exactly the characters of the vector, in order.
#[verifier::external_body]
pub fn chars_to_string(v: &Vec<char>) -> (r: String)
    ensures
        r@ == v@,
{
    v.iter().collect()
}

/// The character sequence that `str::to_lowercase` produces.
pub uninterp spec fn lower_of(s: Seq<char>) -> Seq<char>;

/// Relies on `str::to_lowercase`: the result depends on the characters alone,
/// and an empty string lowercases to an empty string.
#[verifier::external_body]
pub fn to_lower(s: &str) -> (r: String)
    ensures
        r@ == lower_of(s@),
        s@.len() == 0 ==> r@.len() == 0,
{
    s.to_lowercase()
}

/// Character-wise string equality.
pub fn str_eq(a: &str, b: &str) -> (r: bool)
    ensures
        r == (a@ == b@),
{
    let na: usize = a.unicode_len();
    let nb: usize = b.unicode_len();
    if na != nb {
        assert(a@ != b@);
        return false;
    }
    let mut i: usize = 0;
    while i < na
        invariant
            na == a@.len(),
            na == b@.len(),
            i <= na,
            forall|k: int| 0 <= k < i ==> a@[k] == b@[k],
        decreases na - i,
    {
        if a.get_char(i) != b.get_char(i) {
            assert(a@ != b@) by {
                if a@ == b@ {
                    assert(a@[i as int] == b@[i as int]);
                }
            }
            return false;
        }
        i = i + 1;
    }
    assert(a@ =~= b@);
    true
}

/// `pat` occurs in `hay` starting at position `i`.
pub open spec fn match_at(hay: Seq<char>, pat: Seq<char>, i: int) -> bool {
    0 <= i && i + pat.len() <= hay.len() && hay.subrange(i, i + pat.len()) == pat
}

/// `pat` occurs somewhere in `hay`.
pub open spec fn has_sub(hay: Seq<char>, pat: Seq<char>) -> bool {
    exists|j: int| match_at(hay, pat, j)
}

/// Checks one candidate position.
pub fn match_here(hay: &Vec<char>, pat: &Vec<char>, i: usize) -> (r: bool)
    requires
        i + pat@.len() <= hay@.len(),
    ensures
        r == match_at(hay@, pat@, i as int),
{
    let n: usize = hay.len();
    let m: usize = pat.len();
    let mut k: usize = 0;
    while k < m
        invariant
            n == hay@.len(),
            m == pat@.len(),
            i + m <= n,
            k <= m,
            forall|t: int| 0 <= t < k ==> hay@[i + t] == pat@[t],
        decreases m - k,
    {
        if hay[i + k] != pat[k] {
            assert(!match_at(hay@, pat@, i as int)) by {
                if hay@.subrange(i as int, i + pat@.len()) == pat@ {
                    assert(hay@.subrange(i as int, i + pat@.len())[k as int] == pat@[k as int]);
                }
            }
            return false;
        }
        k = k + 1;
    }
    assert(hay@.subrange(i as int, i + pat@.len()) =~= pat@);
    true
}

/// Index of the first occurrence of `pat` in `hay`, if any.
pub fn find_sub(hay: &Vec<char>, pat: &Vec<char>) -> (r: Option<usize>)
    ensures
        match r {
            Some(i) => match_at(hay@, pat@, i as int) && (forall|j: int|
                0 <= j < i ==> !match_at(hay@, pat@, j)),
            None => !has_sub(hay@, pat@),
        },
{
    let n: usize = hay.len();
    let m: usize = pat.len();
    if m > n {
        assert(!has_sub(hay@, pat@));
        return None;
    }
    if m == 0 {
        assert(hay@.subrange(0, 0) =~= pat@);
        return Some(0);
    }
    let mut i: usize = 0;
    while i <= n - m
        invariant
            n == hay@.len(),
            m == pat@.len(),
            0 < m <= n,
            i <= n - m + 1,
            forall|j: int| 0 <= j < i ==> !match_at(hay@, pat@, j),
        decreases n - m + 1 - i,
    {
        if match_here(hay, pat, i) {
            return Some(i);
        }
        i = i + 1;
    }
    assert(forall|j: int| match_at(hay@, pat@, j) ==> 0 <= j < i);
    None
}

/// Whether `pat` occurs in `hay`.
pub fn contains_sub(hay: &Vec<char>, pat: &Vec<char>) -> (r: bool)
    ensures
        r == has_sub(hay@, pat@),
{
    match find_sub(hay, pat) {
        Some(_) => true,
        None => false,
    }
}

/// Whether `hay` begins with `pat`.
pub fn starts_with_chars(hay: &Vec<char>, pat: &Vec<char>) -> (r: bool)
    ensures
        r == match_at(hay@, pat@, 0),
{
    if pat.len() > hay.len() {
        return false;
    }
    match_here(hay, pat, 0)
}

/// The decimal digit character for `n < 10`.
pub open spec fn dec_digit(n: nat) -> char {
    if n == 0 { '0' }
    else if n == 1 { '1' }
    else if n == 2 { '2' }
    else if n == 3 { '3' }
    else if n == 4 { '4' }
    else if n == 5 { '5' }
    else if n == 6 { '6' }
    else if n == 7 { '7' }
    else if n == 8 { '8' }
    else { '9' }
}

/// Decimal representation of a natural number, most significant digit first.
pub open spec fn dec_str(n: nat) -> Seq<char>
    decreases n,
{
    if n < 10 {
        seq![dec_digit(n)]
    } else {
        dec_str(n / 10).push(dec_digit(n % 10))
    }
}

fn digit_char(d: u64) -> (c: char)
    requires
        d < 10,
    ensures
        c == dec_digit(d as nat),
{
    if d == 0 { '0' }
    else if d == 1 { '1' }
    else if d == 2 { '2' }
    else if d == 3 { '3' }
    else if d == 4 { '4' }
    else if d == 5 { '5' }
    else if d == 6 { '6' }
    else if d == 7 { '7' }
    else if d == 8 { '8' }
    else { '9' }
}

/// Decimal digits of `n` as characters.
#[verifier::rlimit(100)]
pub fn u64_to_chars(n: u64) -> (r: Vec<char>)
    ensures
        r@ == dec_str(n as nat),
{
    let mut digits: Vec<char> = Vec::new();
    let mut m: u64 = n;
    loop
        invariant_except_break
            dec_str(n as nat) == dec_str(m as nat) + digits@.reverse(),
        ensures
            dec_str(n as nat) == digits@.reverse(),
        decreases m,
    {
        let c: char = digit_char(m % 10);
        let ghost old_digits = digits@;
        digits.push(c);
        assert(digits@.reverse() =~= seq![c] + old_digits.reverse());
        if m < 10 {
            assert(dec_str(m as nat) == seq![dec_digit(m as nat)]);
            assert(dec_str(n as nat) =~= digits@.reverse());
            break;
        }
        assert(dec_str(m as nat) =~= dec_str((m / 10) as nat) + seq![dec_digit((m % 10) as nat)]);
        assert(dec_str(n as nat) =~= dec_str((m / 10) as nat) + digits@.reverse());
        m = m / 10;
    }
    let k: usize = digits.len();
    let mut out: Vec<char> = Vec::new();
    let mut i: usize = 0;
    while i < k
        invariant
            k == digits@.len(),
            i <= k,
            out@ == digits@.reverse().subrange(0, i as int),
        decreases k - i,
    {
        out.push(digits[k - 1 - i]);
        assert(out@ =~= digits@.reverse().subrange(0, (i + 1) as int));
        i = i + 1;
    }
    assert(out@ =~= digits@.reverse());
    out
}

/// Decimal representation of `n` as a string.
pub fn u64_to_string(n: u64) -> (r: String)
    ensures
        r@ == dec_str(n as nat),
{
    let v: Vec<char> = u64_to_chars(n);
    chars_to_string(&v)
}

/// Decimal representation of a signed integer, with a leading minus sign when
/// negative.
pub open spec fn int_str(n: int) -> Seq<char> {
    if n < 0 {
        seq!['-'] + dec_str((-n) as nat)
    } else {
        dec_str(n as nat)
    }
}

/// Decimal digits of `n`, with a sign for negative values.
pub fn i64_to_chars(n: i64) -> (r: Vec<char>)
    ensures
        r@ == int_str(n as int),
{
    if n >= 0 {
        u64_to_chars(n as u64)
    } else {
        let mag: u64 = if n < -9223372036854775807i64 {
            9223372036854775808u64
        } else {
            (-n) as u64
        };
        assert(mag as nat == (-(n as int)) as nat);
        let digits: Vec<char> = u64_to_chars(mag);
        let mut out: Vec<char> = Vec::new();
        out.push('-');
        let mut i: usize = 0;
        while i < digits.len()
            invariant
                out@ == seq!['-'] + digits@.subrange(0, i as int),
                i <= digits@.len(),
            decreases digits@.len() - i,
        {
            out.push(digits[i]);
            assert(out@ =~= seq!['-'] + digits@.subrange(0, (i + 1) as int));
            i = i + 1;
        }
        assert(digits@.subrange(0, digits@.len() as int) =~= digits@);
        out
    }
}

/// Appends the characters of `src` to `dst`.
pub fn append_chars(dst: &mut Vec<char>, src: &Vec<char>)
    ensures
        final(dst)@ == old(dst)@ + src@,
{
    let n: usize = src.len();
    let mut i: usize = 0;
    while i < n
        invariant
            n == src@.len(),
            i <= n,
            dst@ == old(dst)@ + src@.subrange(0, i as int),
        decreases n - i,
    {
        dst.push(src[i]);
        assert(dst@ =~= old(dst)@ + src@.subrange(0, (i + 1) as int));
        i = i + 1;
    }
    assert(old(dst)@ + src@.subrange(0, n as int) =~= old(dst)@ + src@);
}

/// Appends the characters of the string slice `src` to `dst`.
pub fn append_str_chars(dst: &mut Vec<char>, src: &str)
    ensures
        final(dst)@ == old(dst)@ + src@,
{
    let v: Vec<char> = to_chars(src);
    append_chars(dst, &v);
}

/// Index of the first occurrence of `c` in `v`, if any.
pub fn find_char(v: &Vec<char>, c: char) -> (r: Option<usize>)
    ensures
        match r {
            Some(i) => i < v@.len() && v@[i as int] == c && (forall|k: int|
                0 <= k < i ==> v@[k] != c),
            None => forall|k: int| 0 <= k < v@.len() ==> v@[k] != c,
        },
{
    let n: usize = v.len();
    let mut i: usize = 0;
    while i < n
        invariant
            n == v@.len(),
            i <= n,
            forall|k: int| 0 <= k < i ==> v@[k] != c,
        decreases n - i,
    {
        if v[i] == c {
            return Some(i);
        }
        i = i + 1;
    }
    None
}

/// Index of the last occurrence of `c` in `v`, if any.
pub fn rfind_char(v: &Vec<char>, c: char) -> (r: Option<usize>)
    ensures
        match r {
            Some(i) => i < v@.len() && v@[i as int] == c && (forall|k: int|
                i < k < v@.len() ==> v@[k] != c),
            None => forall|k: int| 0 <= k < v@.len() ==> v@[k] != c,
        },
{
    let n: usize = v.len();
    let mut i: usize = n;
    while i > 0
        invariant
            n == v@.len(),
            i <= n,
            forall|k: int| i <= k < n ==> v@[k] != c,
        decreases i,
    {
        i = i - 1;
        if v[i] == c {
            return Some(i);
        }
    }
    None
}

/// The fields of `s` separated by `sep`; always at least one field.
pub open spec fn split_str(s: Seq<char>, sep: char) -> Seq<Seq<char>>
    decreases s.len(),
{
    if s.len() == 0 {
        seq![Seq::<char>::empty()]
    } else if s[0] == sep {
        seq![Seq::<char>::empty()] + split_str(s.drop_first(), sep)
    } else {
        let rest = split_str(s.drop_first(), sep);
        seq![seq![s[0]] + rest[0]] + rest.drop_first()
    }
}

/// Splitting never yields an empty field list.
pub proof fn lemma_split_len(s: Seq<char>, sep: char)
    ensures
        split_str(s, sep).len() >= 1,
    decreases s.len(),
{
    if s.len() != 0 {
        lemma_split_len(s.drop_first(), sep);
    }
}

/// How one more character extends a split.
pub proof fn lemma_split_push(s: Seq<char>, sep: char, c: char)
    ensures
        c == sep ==> split_str(s.push(c), sep) == split_str(s, sep) + seq![
            Seq::<char>::empty(),
        ],
        c != sep ==> split_str(s.push(c), sep) == split_str(s, sep).update(
            split_str(s, sep).len() - 1,
            split_str(s, sep).last().push(c),
        ),
    decreases s.len(),
{
    lemma_split_len(s, sep);
    if s.len() == 0 {
        assert(s.push(c).drop_first() =~= s);
        if c == sep {
            assert(split_str(s.push(c), sep) =~= split_str(s, sep) + seq![
                Seq::<char>::empty(),
            ]);
        } else {
            assert(seq![s.push(c)[0]] + split_str(s, sep)[0] =~= seq![c]);
            assert(split_str(s.push(c), sep) =~= split_str(s, sep).update(
                0,
                split_str(s, sep).last().push(c),
            ));
        }
    } else {
        lemma_split_push(s.drop_first(), sep, c);
        lemma_split_len(s.drop_first(), sep);
        assert(s.push(c).drop_first() =~= s.drop_first().push(c));
        if c == sep {
            assert(split_str(s.push(c), sep) =~= split_str(s, sep) + seq![
                Seq::<char>::empty(),
            ]);
        } else {
            assert(split_str(s.push(c), sep) =~= split_str(s, sep).update(
                split_str(s, sep).len() - 1,
                split_str(s, sep).last().push(c),
            ));
        }
    }
}

/// Splits `v` on `sep`, mirroring `split_str`.
pub fn split_chars(v: &Vec<char>, sep: char) -> (r: Vec<Vec<char>>)
    ensures
        r.deep_view() == split_str(v@, sep),
{
    let n: usize = v.len();
    let mut done: Vec<Vec<char>> = Vec::new();
    let mut cur: Vec<char> = Vec::new();
    assert(done.deep_view().push(cur@) =~~= split_str(v@.subrange(0, 0), sep));
    let mut i: usize = 0;
    while i < n
        invariant
            n == v@.len(),
            i <= n,
            done.deep_view().push(cur@) == split_str(v@.subrange(0, i as int), sep),
        decreases n - i,
    {
        let ghost pre = v@.subrange(0, i as int);
        proof {
            lemma_split_push(pre, sep, v@[i as int]);
            lemma_split_len(pre, sep);
            assert(pre.push(v@[i as int]) =~= v@.subrange(0, (i + 1) as int));
        }
        if v[i] == sep {
            done.push(cur);
            cur = Vec::new();
            assert(done.deep_view().push(cur@) =~~= split_str(
                v@.subrange(0, (i + 1) as int),
                sep,
            ));
        } else {
            let c: char = v[i];
            cur.push(c);
            assert(done.deep_view().push(cur@) =~~= split_str(
                v@.subrange(0, (i + 1) as int),
                sep,
            ));
        }
        i = i + 1;
    }
    done.push(cur);
    assert(v@.subrange(0, n as int) =~= v@);
    assert(done.deep_view() =~~= split_str(v@, sep));
    done
}

/// The fields joined with `sep` between consecutive fields.
pub open spec fn join_str(parts: Seq<Seq<char>>, sep: char) -> Seq<char>
    decreases parts.len(),
{
    if parts.len() == 0 {
        Seq::<char>::empty()
    } else if parts.len() == 1 {
        parts[0]
    } else {
        parts[0] + seq![sep] + join_str(parts.drop_first(), sep)
    }
}

/// How one more field extends a join.
pub proof fn lemma_join_push(parts: Seq<Seq<char>>, sep: char, p: Seq<char>)
    requires
        parts.len() >= 1,
    ensures
        join_str(parts.push(p), sep) == join_str(parts, sep) + seq![sep] + p,
    decreases parts.len(),
{
    if parts.len() == 1 {
        assert(parts.push(p).drop_first() =~= seq![p]);
        assert(parts.push(p)[0] == parts[0]);
        assert(join_str(seq![p], sep) == p);
        assert(join_str(parts.push(p), sep) =~= join_str(parts, sep) + seq![sep] + p);
    } else {
        lemma_join_push(parts.drop_first(), sep, p);
        assert(parts.push(p).drop_first() =~= parts.drop_first().push(p));
        assert(parts.push(p)[0] == parts[0]);
        assert(join_str(parts.push(p), sep) =~= join_str(parts, sep) + seq![sep] + p);
    }
}

/// Joins the fields with `sep`, mirroring `join_str`.
pub fn join_chars(parts: &Vec<Vec<char>>, sep: char) -> (r: Vec<char>)
    ensures
        r@ == join_str(parts.deep_view(), sep),
{
    let n: usize = parts.len();
    let mut out: Vec<char> = Vec::new();
    if n == 0 {
        return out;
    }
    append_chars(&mut out, &parts[0]);
    assert(parts.deep_view().subrange(0, 1) =~= seq![parts.deep_view()[0]]);
    assert(out@ == join_str(parts.deep_view().subrange(0, 1), sep));
    let mut i: usize = 1;
    while i < n
        invariant
            n == parts@.len(),
            parts.deep_view().len() == n,
            1 <= i <= n,
            out@ == join_str(parts.deep_view().subrange(0, i as int), sep),
        decreases n - i,
    {
        proof {
            lemma_join_push(parts.deep_view().subrange(0, i as int), sep, parts.deep_view()[i as int]);
            assert(parts.deep_view().subrange(0, i as int).push(parts.deep_view()[i as int])
                =~= parts.deep_view().subrange(0, (i + 1) as int));
        }
        out.push(sep);
        append_chars(&mut out, &parts[i]);
        assert(out@ =~= join_str(parts.deep_view().subrange(0, i as int), sep) + seq![sep]
            + parts.deep_view()[i as int]);
        i = i + 1;
    }
    assert(parts.deep_view().subrange(0, n as int) =~= parts.deep_view());
    out
}

/// Decimal representation of `n` as a string, with a sign when negative.
pub fn i64_to_string(n: i64) -> (r: String)
    ensures
        r@ == int_str(n as int),
{
    let v: Vec<char> = i64_to_chars(n);
    chars_to_string(&v)
}

/// An ASCII whitespace character, as trimming recognizes it.
pub open spec fn is_blank(c: char) -> bool {
    c == ' ' || c == '\t' || c == '\n' || c == '\r'
}

/// The number of leading blanks.
pub open spec fn head_blanks(s: Seq<char>) -> int
    decreases s.len(),
{
    if s.len() == 0 {
        0
    } else if is_blank(s[0]) {
        1 + head_blanks(s.drop_first())
    } else {
        0
    }
}

/// The number of trailing blanks.
pub open spec fn tail_blanks(s: Seq<char>) -> int
    decreases s.len(),
{
    if s.len() == 0 {
        0
    } else if is_blank(s.last()) {
        1 + tail_blanks(s.drop_last())
    } else {
        0
    }
}

/// `s` without its leading and trailing blanks.
pub open spec fn trimmed(s: Seq<char>) -> Seq<char> {
    if head_blanks(s) == s.len() {
        Seq::<char>::empty()
    } else {
        s.subrange(head_blanks(s), s.len() - tail_blanks(s))
    }
}

/// `head_blanks` counts exactly up to the first non-blank.
proof fn lemma_head_blanks(s: Seq<char>, a: int)
    requires
        0 <= a <= s.len(),
        forall|k: int| 0 <= k < a ==> is_blank(s[k]),
        a < s.len() ==> !is_blank(s[a]),
    ensures
        head_blanks(s) == a,
    decreases a,
{
    if a == 0 {
    } else {
        assert(is_blank(s[0]));
        lemma_head_blanks(s.drop_first(), a - 1);
    }
}

/// `tail_blanks` counts exactly back to the last non-blank.
proof fn lemma_tail_blanks(s: Seq<char>, b: int)
    requires
        0 <= b <= s.len(),
        forall|k: int| b <= k < s.len() ==> is_blank(s[k]),
        b > 0 ==> !is_blank(s[b - 1]),
    ensures
        tail_blanks(s) == s.len() - b,
    decreases s.len() - b,
{
    if b == s.len() {
    } else {
        assert(is_blank(s.last()));
        lemma_tail_blanks(s.drop_last(), b);
    }
}

/// Whether `c` is trimmed away.
fn blank_char(c: char) -> (r: bool)
    ensures
        r == is_blank(c),
{
    c == ' ' || c == '\t' || c == '\n' || c == '\r'
}

/// The characters of `v` without leading and trailing blanks.
pub fn trim_chars(v: &Vec<char>) -> (r: Vec<char>)
    ensures
        r@ == trimmed(v@),
{
    let n: usize = v.len();
    let mut a: usize = 0;
    while a < n && blank_char(v[a])
        invariant
            n == v@.len(),
            a <= n,
            forall|k: int| 0 <= k < a ==> is_blank(v@[k]),
        decreases n - a,
    {
        a = a + 1;
    }
    if a == n {
        proof {
            lemma_head_blanks(v@, n as int);
        }
        Vec::new()
    } else {
        proof {
            lemma_head_blanks(v@, a as int);
        }
        let mut b: usize = n;
        while b > a && blank_char(v[b - 1])
            invariant
                n == v@.len(),
                a < n,
                a <= b <= n,
                forall|k: int| b <= k < n ==> is_blank(v@[k]),
            decreases b,
        {
            b = b - 1;
        }
        proof {
            if b == a {
                assert(!is_blank(v@[a as int]));
            }
            lemma_tail_blanks(v@, b as int);
        }
        let mut out: Vec<char> = Vec::new();
        let mut k: usize = a;
        while k < b
            invariant
                n == v@.len(),
                a <= k <= b <= n,
                out@ == v@.subrange(a as int, k as int),
            decreases b - k,
        {
            out.push(v[k]);
            assert(out@ =~= v@.subrange(a as int, (k + 1) as int));
            k = k + 1;
        }
        out
    }
}

/// `s` without leading and trailing blanks.
pub fn trim_str(s: &str) -> (r: String)
    ensures
        r@ == trimmed(s@),
{
    let v: Vec<char> = to_chars(s);
    let t: Vec<char> = trim_chars(&v);
    chars_to_string(&t)
}

} // verus!
