//! Verified text utilities: string equality, comma splitting, whitespace
//! trimming, and decimal rendering of counters.  Everything here is exec
//! code proved against small recursive spec functions.

use vstd::prelude::*;
use vstd::string::StrSliceExecFns;
use vstd::string::StringExecFns;

verus! {

/// The views of a sequence of owned strings.
pub open spec fn strs_of(v: Seq<String>) -> Seq<Seq<char>> {
    v.map_values(|s: String| s@)
}

/// Character-for-character string equality, usable where the verifier
/// needs to know that two views coincide.
pub fn eq_str(a: &str, b: &str) -> (r: bool)
    ensures
        r == (a@ == b@),
{
    let na: usize = a.unicode_len();
    let nb: usize = b.unicode_len();
    if na != nb {
        return false;
    }
    let mut i: usize = 0;
    while i < na
        invariant
            na == a@.len(),
            nb == b@.len(),
            na == nb,
            i <= na,
            forall|j: int| 0 <= j < i ==> a@[j] == b@[j],
        decreases na - i,
    {
        if a.get_char(i) != b.get_char(i) {
            return false;
        }
        i += 1;
    }
    proof {
        assert(a@ =~= b@);
    }
    true
}

/// Splitting a character sequence at every comma; the commas themselves
/// are dropped, and `n` commas always yield `n + 1` (possibly empty)
/// fields, as the standard splitter does.
pub open spec fn split_at_commas(s: Seq<char>) -> Seq<Seq<char>>
    decreases s.len(),
{
    if s.len() == 0 {
        seq![Seq::<char>::empty()]
    } else if s[0] == ',' {
        seq![Seq::<char>::empty()] + split_at_commas(s.subrange(1, s.len() as int))
    } else {
        let r = split_at_commas(s.subrange(1, s.len() as int));
        seq![seq![s[0]] + r[0]] + r.subrange(1, r.len() as int)
    }
}

pub proof fn lemma_split_len(s: Seq<char>)
    ensures
        split_at_commas(s).len() >= 1,
    decreases s.len(),
{
    if s.len() > 0 {
        lemma_split_len(s.subrange(1, s.len() as int));
    }
}

/// A comma-free sequence is a single field.
pub proof fn lemma_split_no_comma(s: Seq<char>)
    requires
        forall|i: int| 0 <= i < s.len() ==> s[i] != ',',
    ensures
        split_at_commas(s) == seq![s],
    decreases s.len(),
{
    if s.len() == 0 {
        assert(split_at_commas(s) =~~= seq![s]);
    } else {
        let tail = s.subrange(1, s.len() as int);
        lemma_split_no_comma(tail);
        lemma_split_len(tail);
        assert(seq![s[0]] + tail =~= s);
        assert(split_at_commas(s) =~~= seq![s]);
    }
}

/// With the first comma at position `k`, the split is the field before
/// `k` followed by the split of what comes after `k`.
pub proof fn lemma_split_first_comma(s: Seq<char>, k: int)
    requires
        0 <= k < s.len(),
        s[k] == ',',
        forall|j: int| 0 <= j < k ==> s[j] != ',',
    ensures
        split_at_commas(s) == seq![s.subrange(0, k)] + split_at_commas(
            s.subrange(k + 1, s.len() as int),
        ),
    decreases k,
{
    let rest = s.subrange(k + 1, s.len() as int);
    if k == 0 {
        assert(s.subrange(1, s.len() as int) =~= rest);
        assert(s.subrange(0, 0) =~= Seq::<char>::empty());
        assert(split_at_commas(s) =~~= seq![s.subrange(0, k)] + split_at_commas(rest));
    } else {
        let tail = s.subrange(1, s.len() as int);
        lemma_split_first_comma(tail, k - 1);
        lemma_split_len(tail.subrange(k, tail.len() as int));
        assert(tail.subrange(k, tail.len() as int) =~= rest);
        let a = tail.subrange(0, k - 1);
        let b = split_at_commas(rest);
        assert(split_at_commas(tail) == seq![a] + b);
        assert(split_at_commas(tail)[0] == a);
        assert(seq![s[0]] + a =~= s.subrange(0, k));
        assert((seq![a] + b).subrange(1, (seq![a] + b).len() as int) =~= b);
        assert(split_at_commas(s) =~~= seq![s.subrange(0, k)] + b);
    }
}

/// Splits `s` at every comma, exactly as `split_at_commas` describes.
pub fn split_commas(s: &str) -> (r: Vec<String>)
    ensures
        strs_of(r@) == split_at_commas(s@),
        r@.len() >= 1,
{
    let n: usize = s.unicode_len();
    let mut out: Vec<String> = Vec::new();
    let mut start: usize = 0;
    let mut i: usize = 0;
    proof {
        assert(s@.subrange(0, n as int) =~= s@);
        assert(strs_of(out@) + split_at_commas(s@) =~= split_at_commas(s@));
    }
    while i < n
        invariant
            n == s@.len(),
            start <= i <= n,
            forall|j: int| start <= j < i ==> s@[j] != ',',
            split_at_commas(s@) == strs_of(out@) + split_at_commas(
                s@.subrange(start as int, n as int),
            ),
        decreases n - i,
    {
        if s.get_char(i) == ',' {
            let field = s.substring_char(start, i).to_owned();
            proof {
                let suffix = s@.subrange(start as int, n as int);
                lemma_split_first_comma(suffix, i - start);
                assert(suffix.subrange(0, i - start) =~= s@.subrange(start as int, i as int));
                assert(suffix.subrange(i - start + 1, suffix.len() as int) =~= s@.subrange(
                    i + 1,
                    n as int,
                ));
                assert(strs_of(out@.push(field)) =~= strs_of(out@) + seq![field@]);
                assert(strs_of(out@) + (seq![field@] + split_at_commas(
                    s@.subrange(i + 1, n as int),
                )) =~~= strs_of(out@.push(field)) + split_at_commas(s@.subrange(i + 1, n as int)));
            }
            out.push(field);
            start = i + 1;
        }
        i += 1;
    }
    let field = s.substring_char(start, n).to_owned();
    proof {
        lemma_split_no_comma(s@.subrange(start as int, n as int));
        assert(strs_of(out@.push(field)) =~= strs_of(out@) + seq![field@]);
    }
    out.push(field);
    proof {
        assert(strs_of(out@) =~~= split_at_commas(s@));
    }
    out
}

/// ASCII whitespace, the kind an interactive line of input carries.
pub open spec fn is_space(c: char) -> bool {
    c == ' ' || c == '\t' || c == '\r' || c == '\n'
}

pub open spec fn trim_start_rec(s: Seq<char>) -> Seq<char>
    decreases s.len(),
{
    if s.len() > 0 && is_space(s[0]) {
        trim_start_rec(s.subrange(1, s.len() as int))
    } else {
        s
    }
}

pub open spec fn trim_end_rec(s: Seq<char>) -> Seq<char>
    decreases s.len(),
{
    if s.len() > 0 && is_space(s[s.len() - 1]) {
        trim_end_rec(s.subrange(0, s.len() - 1))
    } else {
        s
    }
}

/// `s` with leading and trailing ASCII whitespace removed.
pub open spec fn trim_rec(s: Seq<char>) -> Seq<char> {
    trim_end_rec(trim_start_rec(s))
}

proof fn lemma_trim_start_step(s: Seq<char>, a: int)
    requires
        0 <= a < s.len(),
        forall|j: int| 0 <= j < a ==> is_space(s[j]),
    ensures
        trim_start_rec(s) == trim_start_rec(s.subrange(a, s.len() as int)),
    decreases a,
{
    if a > 0 {
        let tail = s.subrange(1, s.len() as int);
        assert(trim_start_rec(s) == trim_start_rec(tail));
        lemma_trim_start_step(tail, a - 1);
        assert(tail.subrange(a - 1, tail.len() as int) =~= s.subrange(a, s.len() as int));
    } else {
        assert(s.subrange(0, s.len() as int) =~= s);
    }
}

proof fn lemma_trim_start_all_space(s: Seq<char>)
    requires
        forall|j: int| 0 <= j < s.len() ==> is_space(s[j]),
    ensures
        trim_start_rec(s) == Seq::<char>::empty(),
    decreases s.len(),
{
    if s.len() > 0 {
        lemma_trim_start_all_space(s.subrange(1, s.len() as int));
    } else {
        assert(s =~= Seq::<char>::empty());
    }
}

proof fn lemma_trim_end_step(s: Seq<char>, b: int)
    requires
        0 <= b < s.len(),
        forall|j: int| b < j < s.len() ==> is_space(s[j]),
    ensures
        trim_end_rec(s) == trim_end_rec(s.subrange(0, b + 1)),
    decreases s.len(),
{
    if b + 1 < s.len() {
        let head = s.subrange(0, s.len() - 1);
        assert(trim_end_rec(s) == trim_end_rec(head));
        lemma_trim_end_step(head, b);
        assert(head.subrange(0, b + 1) =~= s.subrange(0, b + 1));
    } else {
        assert(s.subrange(0, b + 1) =~= s);
    }
}

/// Removes leading and trailing ASCII whitespace, exactly as `trim_rec`
/// describes.
pub fn trim_ascii<'a>(s: &'a str) -> (r: &'a str)
    ensures
        r@ == trim_rec(s@),
{
    let n: usize = s.unicode_len();
    let mut a: usize = 0;
    while a < n && is_space_char(s.get_char(a))
        invariant
            n == s@.len(),
            a <= n,
            forall|j: int| 0 <= j < a ==> is_space(s@[j]),
        decreases n - a,
    {
        a += 1;
    }
    proof {
        if a == n {
            lemma_trim_start_all_space(s@);
        } else {
            if a > 0 {
                lemma_trim_start_step(s@, a as int);
            } else {
                assert(s@.subrange(0, n as int) =~= s@);
            }
            assert(trim_start_rec(s@) == trim_start_rec(s@.subrange(a as int, n as int)));
            assert(trim_start_rec(s@.subrange(a as int, n as int)) == s@.subrange(
                a as int,
                n as int,
            ));
        }
    }
    let mut b: usize = n;
    while b > a && is_space_char(s.get_char(b - 1))
        invariant
            n == s@.len(),
            a <= b <= n,
            forall|j: int| b <= j < n ==> is_space(s@[j]),
        decreases b,
    {
        b -= 1;
    }
    let r = s.substring_char(a, b);
    proof {
        let mid = s@.subrange(a as int, n as int);
        if a == n {
            assert(mid =~= Seq::<char>::empty());
            assert(trim_rec(s@) =~= r@);
        } else {
            assert(trim_start_rec(s@) == mid);
            if b == a {
                assert(forall|j: int| 0 <= j < mid.len() ==> is_space(mid[j]));
                lemma_trim_end_all_space(mid);
                assert(r@ =~= trim_rec(s@));
            } else {
                if b < n {
                    lemma_trim_end_step(mid, b - a - 1);
                }
                assert(mid.subrange(0, b - a) =~= s@.subrange(a as int, b as int));
                assert(!is_space(mid[b - a - 1]));
                assert(trim_end_rec(s@.subrange(a as int, b as int)) == s@.subrange(
                    a as int,
                    b as int,
                ));
                assert(r@ =~= trim_rec(s@));
            }
        }
    }
    r
}

proof fn lemma_trim_end_all_space(s: Seq<char>)
    requires
        forall|j: int| 0 <= j < s.len() ==> is_space(s[j]),
    ensures
        trim_end_rec(s) == Seq::<char>::empty(),
    decreases s.len(),
{
    if s.len() > 0 {
        lemma_trim_end_all_space(s.subrange(0, s.len() - 1));
    } else {
        assert(s =~= Seq::<char>::empty());
    }
}

/// Exec twin of `is_space`.
pub fn is_space_char(c: char) -> (r: bool)
    ensures
        r == is_space(c),
{
    c == ' ' || c == '\t' || c == '\r' || c == '\n'
}

/// The character for one decimal digit.
pub open spec fn digit_char(d: int) -> char {
    if d == 0 {
        '0'
    } else if d == 1 {
        '1'
    } else if d == 2 {
        '2'
    } else if d == 3 {
        '3'
    } else if d == 4 {
        '4'
    } else if d == 5 {
        '5'
    } else if d == 6 {
        '6'
    } else if d == 7 {
        '7'
    } else if d == 8 {
        '8'
    } else {
        '9'
    }
}

/// The usual decimal rendering of a nonnegative integer, most
/// significant digit first, no leading zeros.
pub open spec fn dec_rep(n: int) -> Seq<char>
    decreases n,
{
    if n < 10 {
        seq![digit_char(n)]
    } else {
        dec_rep(n / 10) + seq![digit_char(n % 10)]
    }
}

fn digit_str(d: u64) -> (r: &'static str)
    requires
        d < 10,
    ensures
        r@ == seq![digit_char(d as int)],
{
    proof {
        reveal_strlit("0");
        reveal_strlit("1");
        reveal_strlit("2");
        reveal_strlit("3");
        reveal_strlit("4");
        reveal_strlit("5");
        reveal_strlit("6");
        reveal_strlit("7");
        reveal_strlit("8");
        reveal_strlit("9");
    }
    if d == 0 {
        "0"
    } else if d == 1 {
        "1"
    } else if d == 2 {
        "2"
    } else if d == 3 {
        "3"
    } else if d == 4 {
        "4"
    } else if d == 5 {
        "5"
    } else if d == 6 {
        "6"
    } else if d == 7 {
        "7"
    } else if d == 8 {
        "8"
    } else {
        "9"
    }
}

/// Renders `n` in decimal, exactly as `dec_rep` describes.
pub fn u64_to_dec(n: u64) -> (r: String)
    ensures
        r@ == dec_rep(n as int),
    decreases n,
{
    if n < 10 {
        digit_str(n).to_owned()
    } else {
        let mut s = u64_to_dec(n / 10);
        s.append(digit_str(n % 10));
        s
    }
}

} // verus!
