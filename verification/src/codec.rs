//! The catalog's record format: a JSON-shaped text codec written here so that
//! what is persisted can be stated and proved exactly. Strings escape `"` and
//! `\` with a backslash; numbers are plain decimals.
use vstd::prelude::*;

verus! {

// ------------------------------------------------------------------
// decimal numbers
// ------------------------------------------------------------------

pub open spec fn is_digit_char(c: char) -> bool {
    48 <= c as u32 && c as u32 <= 57
}

pub open spec fn digit_val(c: char) -> nat {
    (c as u32 - 48) as nat
}

pub open spec fn digit_char(d: nat) -> char {
    if d == 0 {
        '0'
    } else if d == 1 {
        '1'
    } else if d == 2 {
        '2'
    } else if d == 3 {
        '3'
    } else if d == 4 {
        '4'
    } else if d == 5 {
        '5'
    } else if d == 6 {
        '6'
    } else if d == 7 {
        '7'
    } else if d == 8 {
        '8'
    } else {
        '9'
    }
}

/// Decimal representation of `n`, most significant digit first.
pub open spec fn dec_rep(n: nat) -> Seq<char>
    decreases n,
{
    if n < 10 {
        seq![digit_char(n)]
    } else {
        dec_rep(n / 10).push(digit_char(n % 10))
    }
}

pub open spec fn all_digits(s: Seq<char>) -> bool {
    forall|i: int| 0 <= i < s.len() ==> is_digit_char(s[i])
}

/// Length of the run of digits at the head of `s`.
pub open spec fn digit_run_len(s: Seq<char>) -> int
    decreases s.len(),
{
    if s.len() > 0 && is_digit_char(s[0]) {
        1 + digit_run_len(s.drop_first())
    } else {
        0
    }
}

/// Value of a digit string, most significant digit first.
pub open spec fn val_digits(s: Seq<char>) -> nat
    decreases s.len(),
{
    if s.len() == 0 {
        0
    } else {
        val_digits(s.drop_last()) * 10 + digit_val(s.last())
    }
}

/// Parses the digit run at the head of `s`: its value and the remainder.
/// Fails when there is no digit or the value does not fit in a `u64`.
pub open spec fn sp_u64(s: Seq<char>) -> Option<(u64, Seq<char>)> {
    let k = digit_run_len(s);
    if k == 0 {
        None
    } else if val_digits(s.take(k)) > u64::MAX {
        None
    } else {
        Some((val_digits(s.take(k)) as u64, s.skip(k)))
    }
}

/// Concatenation is associative; as a broadcast lemma it lets regrouped
/// concatenations close by congruence.
pub broadcast proof fn lemma_seq_add_assoc<A>(a: Seq<A>, b: Seq<A>, c: Seq<A>)
    ensures
        #![trigger (a + b) + c]
        #![trigger a + (b + c)]
        a + (b + c) == (a + b) + c,
{
    assert(a + (b + c) =~= (a + b) + c);
}

pub proof fn lemma_digit_char_val(d: nat)
    requires
        d < 10,
    ensures
        is_digit_char(digit_char(d)),
        digit_val(digit_char(d)) == d,
{
}

pub proof fn lemma_dec_rep_digits(n: nat)
    ensures
        dec_rep(n).len() >= 1,
        all_digits(dec_rep(n)),
    decreases n,
{
    if n < 10 {
        lemma_digit_char_val(n);
    } else {
        lemma_dec_rep_digits(n / 10);
        lemma_digit_char_val(n % 10);
        assert forall|i: int| 0 <= i < dec_rep(n).len() implies is_digit_char(dec_rep(n)[i]) by {
            if i < dec_rep(n / 10).len() {
                assert(dec_rep(n)[i] == dec_rep(n / 10)[i]);
            }
        }
    }
}

pub proof fn lemma_val_dec_rep(n: nat)
    ensures
        val_digits(dec_rep(n)) == n,
    decreases n,
{
    let d = dec_rep(n);
    assert(d.len() >= 1) by {
        lemma_dec_rep_digits(n);
    }
    assert(val_digits(d) == val_digits(d.drop_last()) * 10 + digit_val(d.last()));
    if n < 10 {
        lemma_digit_char_val(n);
        assert(d.drop_last() =~= Seq::<char>::empty());
        assert(val_digits(d.drop_last()) == 0);
        assert(d.last() == digit_char(n));
    } else {
        lemma_val_dec_rep(n / 10);
        lemma_digit_char_val(n % 10);
        assert(d.drop_last() =~= dec_rep(n / 10));
        assert(d.last() == digit_char(n % 10));
        assert(n / 10 * 10 + n % 10 == n);
    }
}

pub proof fn lemma_digit_run_concat(a: Seq<char>, b: Seq<char>)
    requires
        all_digits(a),
        b.len() == 0 || !is_digit_char(b[0]),
    ensures
        digit_run_len(a + b) == a.len(),
    decreases a.len(),
{
    if a.len() == 0 {
        assert(a + b =~= b);
    } else {
        assert((a + b)[0] == a[0]);
        assert((a + b).drop_first() =~= a.drop_first() + b);
        lemma_digit_run_concat(a.drop_first(), b);
    }
}

pub proof fn lemma_digit_run_bounds(s: Seq<char>)
    ensures
        0 <= digit_run_len(s) <= s.len(),
        all_digits(s.take(digit_run_len(s))),
    decreases s.len(),
{
    if s.len() > 0 && is_digit_char(s[0]) {
        lemma_digit_run_bounds(s.drop_first());
        let k = digit_run_len(s);
        assert forall|i: int| 0 <= i < k implies is_digit_char(s.take(k)[i]) by {
            if i > 0 {
                assert(s.take(k)[i] == s.drop_first().take(k - 1)[i - 1]);
            }
        }
    }
}

/// Appending more digits never shrinks the value.
pub proof fn lemma_val_digits_monotone(s: Seq<char>, m1: int, m2: int)
    requires
        0 <= m1 <= m2 <= s.len(),
    ensures
        val_digits(s.take(m1)) <= val_digits(s.take(m2)),
    decreases m2 - m1,
{
    if m1 < m2 {
        lemma_val_digits_monotone(s, m1, m2 - 1);
        assert(s.take(m2).drop_last() =~= s.take(m2 - 1));
        assert(val_digits(s.take(m2 - 1)) * 10 >= val_digits(s.take(m2 - 1)));
    }
}

pub proof fn lemma_sp_u64_round(n: nat, rest: Seq<char>)
    requires
        n <= u64::MAX,
        rest.len() == 0 || !is_digit_char(rest[0]),
    ensures
        sp_u64(dec_rep(n) + rest) == Some((n as u64, rest)),
{
    let d = dec_rep(n);
    lemma_dec_rep_digits(n);
    lemma_digit_run_concat(d, rest);
    let s = d + rest;
    assert(digit_run_len(s) == d.len());
    assert(s.take(d.len() as int) =~= d);
    assert(s.skip(d.len() as int) =~= rest);
    lemma_val_dec_rep(n);
}

fn digit_to_char(d: u64) -> (c: char)
    requires
        d < 10,
    ensures
        c == digit_char(d as nat),
{
    if d == 0 {
        '0'
    } else if d == 1 {
        '1'
    } else if d == 2 {
        '2'
    } else if d == 3 {
        '3'
    } else if d == 4 {
        '4'
    } else if d == 5 {
        '5'
    } else if d == 6 {
        '6'
    } else if d == 7 {
        '7'
    } else if d == 8 {
        '8'
    } else {
        '9'
    }
}

/// Appends the decimal representation of `n` to `out`.
pub fn push_dec_u64(out: &mut Vec<char>, n: u64)
    ensures
        final(out)@ == old(out)@ + dec_rep(n as nat),
    decreases n,
{
    if n < 10 {
        let c = digit_to_char(n);
        out.push(c);
        assert(out@ =~= old(out)@ + dec_rep(n as nat));
    } else {
        push_dec_u64(out, n / 10);
        let c = digit_to_char(n % 10);
        out.push(c);
        assert(out@ =~= old(out)@ + dec_rep(n as nat));
    }
}

fn exec_is_digit(c: char) -> (r: bool)
    ensures
        r == is_digit_char(c),
{
    '0' <= c && c <= '9'
}

fn exec_digit_val(c: char) -> (r: u64)
    requires
        is_digit_char(c),
    ensures
        r == digit_val(c),
{
    (c as u32 - 48) as u64
}

/// Parses the digit run of `s` starting at `i`; mirrors `sp_u64` on the
/// remainder `s@.skip(i)`.
pub fn parse_u64_at(s: &Vec<char>, i: usize) -> (r: Option<(u64, usize)>)
    requires
        i <= s@.len(),
    ensures
        match r {
            Some(p) => i < p.1 <= s@.len() && sp_u64(s@.skip(i as int)) == Some(
                (p.0, s@.skip(p.1 as int)),
            ),
            None => sp_u64(s@.skip(i as int)) is None,
        },
{
    let ghost full = s@.skip(i as int);
    let n = s.len();
    if i >= n || !exec_is_digit(s[i]) {
        assert(full.len() == 0 || !is_digit_char(full[0]));
        return None;
    }
    let mut j: usize = i;
    let mut acc: u64 = 0;
    proof {
        lemma_digit_run_bounds(full);
        assert(full.skip(0) =~= full);
        assert(full.take(0) =~= Seq::<char>::empty());
    }
    while j < n && exec_is_digit(s[j])
        invariant
            i <= j <= n,
            n == s@.len(),
            full == s@.skip(i as int),
            all_digits(full.take(j - i)),
            digit_run_len(full) == (j - i) + digit_run_len(full.skip(j - i)),
            acc == val_digits(full.take(j - i)),
        decreases n - j,
    {
        let d = exec_digit_val(s[j]);
        assert(full[j - i] == s@[j as int]);
        proof {
            // the digit at j - i extends the run
            assert(full.skip(j - i)[0] == full[j - i]);
            assert(full.skip(j - i).drop_first() =~= full.skip(j - i + 1));
        }
        let next = match acc.checked_mul(10) {
            Some(t) => t.checked_add(d),
            None => None,
        };
        match next {
            Some(v) => {
                acc = v;
                j = j + 1;
                proof {
                    assert(full.take(j - i).drop_last() =~= full.take(j - i - 1));
                    assert(full.take(j - i).last() == full[j - i - 1]);
                    assert forall|m: int| 0 <= m < j - i implies is_digit_char(
                        #[trigger] full.take(j - i)[m],
                    ) by {
                        if m < j - i - 1 {
                            assert(full.take(j - i)[m] == full.take(j - i - 1)[m]);
                        }
                    }
                }
            },
            None => {
                // the value of the whole run exceeds u64::MAX
                proof {
                    let k = digit_run_len(full);
                    lemma_digit_run_bounds(full);
                    lemma_digit_run_bounds(full.skip(j - i + 1));
                    assert(full.skip(j - i).drop_first() =~= full.skip(j - i + 1));
                    assert(digit_run_len(full.skip(j - i)) == 1 + digit_run_len(
                        full.skip(j - i + 1),
                    ));
                    assert(digit_run_len(full.skip(j - i)) >= 1);
                    assert(k >= j - i + 1);
                    assert(full.take(j - i + 1).drop_last() =~= full.take(j - i));
                    assert(full.take(j - i + 1).last() == full[j - i]);
                    assert(val_digits(full.take(j - i + 1)) > u64::MAX);
                    lemma_val_digits_monotone(full, j - i + 1, k);
                }
                return None;
            },
        }
    }
    proof {
        if j < n {
            assert(full.skip(j - i)[0] == full[j - i]);
        }
        assert(digit_run_len(full.skip(j - i)) == 0);
        assert(digit_run_len(full) == j - i);
        assert(full.take(j - i) =~= full.take(digit_run_len(full)));
        assert(full.skip(j - i) =~= s@.skip(j as int));
    }
    Some((acc, j))
}

// ------------------------------------------------------------------
// escaped strings
// ------------------------------------------------------------------

/// A character in a quoted string: `"` and `\` take a backslash before them,
/// everything else stands for itself.
pub open spec fn esc_char(c: char) -> Seq<char> {
    if c == '"' || c == '\\' {
        seq!['\\', c]
    } else {
        seq![c]
    }
}

pub open spec fn esc(s: Seq<char>) -> Seq<char>
    decreases s.len(),
{
    if s.len() == 0 {
        Seq::empty()
    } else {
        esc_char(s[0]) + esc(s.drop_first())
    }
}

pub proof fn lemma_esc_push(s: Seq<char>, c: char)
    ensures
        esc(s.push(c)) == esc(s) + esc_char(c),
    decreases s.len(),
{
    if s.len() == 0 {
        assert(s.push(c)[0] == c);
        assert(s.push(c).drop_first() =~= Seq::<char>::empty());
        assert(esc(s.push(c)) == esc_char(c) + esc(Seq::<char>::empty()));
        assert(esc_char(c) + Seq::<char>::empty() =~= esc_char(c));
        assert(esc(s) + esc_char(c) =~= esc_char(c));
    } else {
        assert(s.push(c)[0] == s[0]);
        assert(s.push(c).drop_first() =~= s.drop_first().push(c));
        lemma_esc_push(s.drop_first(), c);
        assert(esc(s.push(c)) =~= esc(s) + esc_char(c));
    }
}

/// Parses a quoted string's content up to and including the closing quote:
/// the unescaped value and the remainder after the quote.
pub open spec fn sp_str(s: Seq<char>) -> Option<(Seq<char>, Seq<char>)>
    decreases s.len(),
{
    if s.len() == 0 {
        None
    } else if s[0] == '"' {
        Some((Seq::empty(), s.drop_first()))
    } else if s[0] == '\\' {
        if s.len() < 2 {
            None
        } else {
            match sp_str(s.skip(2)) {
                Some(p) => Some((seq![s[1]] + p.0, p.1)),
                None => None,
            }
        }
    } else {
        match sp_str(s.drop_first()) {
            Some(p) => Some((seq![s[0]] + p.0, p.1)),
            None => None,
        }
    }
}

/// What the escape of `x`, a closing quote, and `rest` parse back to:
/// exactly `x`, with `rest` left over.
pub proof fn lemma_sp_str_round(x: Seq<char>, rest: Seq<char>)
    ensures
        sp_str(esc(x) + seq!['"'] + rest) == Some((x, rest)),
    decreases x.len(),
{
    let s = esc(x) + seq!['"'] + rest;
    if x.len() == 0 {
        assert(esc(x) =~= Seq::<char>::empty());
        assert(s =~= seq!['"'] + rest);
        assert(s[0] == '"');
        assert(s.drop_first() =~= rest);
    } else {
        let c = x[0];
        let xs = x.drop_first();
        lemma_sp_str_round(xs, rest);
        if c == '"' || c == '\\' {
            assert(esc_char(c) == seq!['\\', c]);
            assert(s[0] == '\\');
            assert(s[1] == c);
            assert(s.len() >= 2);
            assert(s.skip(2) =~= esc(xs) + seq!['"'] + rest);
            assert(seq![c] + xs =~= x);
        } else {
            assert(esc_char(c) == seq![c]);
            assert(s[0] == c);
            assert(s.drop_first() =~= esc(xs) + seq!['"'] + rest);
            assert(seq![c] + xs =~= x);
        }
    }
}

/// Appends the escape of `s` to `out`.
pub fn push_esc(out: &mut Vec<char>, s: &str)
    ensures
        final(out)@ == old(out)@ + esc(s@),
{
    let n = s.unicode_len();
    let mut i: usize = 0;
    while i < n
        invariant
            i <= n,
            n == s@.len(),
            out@ == old(out)@ + esc(s@.subrange(0, i as int)),
        decreases n - i,
    {
        let c = s.get_char(i);
        if c == '"' || c == '\\' {
            out.push('\\');
            out.push(c);
        } else {
            out.push(c);
        }
        i = i + 1;
        proof {
            assert(s@.subrange(0, i as int) =~= s@.subrange(0, i - 1).push(s@[i - 1]));
            lemma_esc_push(s@.subrange(0, i - 1), s@[i - 1]);
            assert(out@ =~= old(out)@ + esc(s@.subrange(0, i as int)));
        }
    }
    assert(s@.subrange(0, n as int) =~= s@);
}

/// Parses a quoted string's content starting at `i`; mirrors `sp_str` on
/// `s@.skip(i)`.
pub fn parse_str_at(s: &Vec<char>, i: usize) -> (r: Option<(Vec<char>, usize)>)
    requires
        i <= s@.len(),
    ensures
        match r {
            Some(p) => i < p.1 <= s@.len() && sp_str(s@.skip(i as int)) == Some(
                (p.0@, s@.skip(p.1 as int)),
            ),
            None => sp_str(s@.skip(i as int)) is None,
        },
    decreases s@.len() - i,
{
    let ghost full = s@.skip(i as int);
    if i >= s.len() {
        return None;
    }
    let c = s[i];
    assert(full[0] == c);
    if c == '"' {
        assert(full.drop_first() =~= s@.skip(i + 1));
        return Some((Vec::new(), i + 1));
    }
    if c == '\\' {
        if i + 1 >= s.len() {
            assert(full.len() < 2);
            return None;
        }
        let lit = s[i + 1];
        assert(full[1] == lit);
        assert(full.skip(2) =~= s@.skip(i + 2));
        match parse_str_at(s, i + 2) {
            Some((mut v, j)) => {
                let ghost v0 = v@;
                v.insert(0, lit);
                assert(v@ =~= seq![lit] + v0);
                Some((v, j))
            },
            None => None,
        }
    } else {
        assert(full.drop_first() =~= s@.skip(i + 1));
        match parse_str_at(s, i + 1) {
            Some((mut v, j)) => {
                let ghost v0 = v@;
                v.insert(0, c);
                assert(v@ =~= seq![c] + v0);
                Some((v, j))
            },
            None => None,
        }
    }
}

// ------------------------------------------------------------------
// literals
// ------------------------------------------------------------------

/// Consumes the literal `l` at the head of `s`.
pub open spec fn sp_lit(s: Seq<char>, l: Seq<char>) -> Option<Seq<char>> {
    if l.len() <= s.len() && s.take(l.len() as int) == l {
        Some(s.skip(l.len() as int))
    } else {
        None
    }
}

pub proof fn lemma_sp_lit(l: Seq<char>, rest: Seq<char>)
    ensures
        sp_lit(l + rest, l) == Some(rest),
{
    assert((l + rest).take(l.len() as int) =~= l);
    assert((l + rest).skip(l.len() as int) =~= rest);
}

/// Checks the literal `l` at position `i` of `s`; mirrors `sp_lit` on
/// `s@.skip(i)`.
pub fn expect_lit(s: &Vec<char>, i: usize, l: &str) -> (r: Option<usize>)
    requires
        i <= s@.len(),
    ensures
        match r {
            Some(j) => i <= j <= s@.len() && sp_lit(s@.skip(i as int), l@) == Some(
                s@.skip(j as int),
            ),
            None => sp_lit(s@.skip(i as int), l@) is None,
        },
{
    let ghost full = s@.skip(i as int);
    let n = l.unicode_len();
    let slen = s.len();
    if n > slen - i {
        return None;
    }
    let mut k: usize = 0;
    while k < n
        invariant
            0 <= k <= n,
            n == l@.len(),
            i + n <= slen,
            slen == s@.len(),
            full == s@.skip(i as int),
            forall|m: int| 0 <= m < k ==> full[m] == l@[m],
        decreases n - k,
    {
        let c = s[i + k];
        let lc = l.get_char(k);
        assert(full[k as int] == c);
        if c != lc {
            assert(full.take(n as int)[k as int] != l@[k as int]);
            return None;
        }
        k = k + 1;
    }
    assert(full.take(n as int) =~= l@);
    assert(full.skip(n as int) =~= s@.skip((i + n) as int));
    Some(i + n)
}

} // verus!
