//! Character-sequence helpers: ASCII lowercasing, decimal rendering of
//! timestamps, lexicographic ordering and `;`-joining. The fingerprint is built
//! from these, so each executable function is pinned to a spec-level
//! counterpart and the orderings come with the algebraic facts the fingerprint
//! proofs need.

use vstd::prelude::*;
use vstd::relations::total_ordering;

verus! {

/// ASCII lowercasing of one character, as `to_ascii_lowercase` does it.
pub open spec fn lower_char(c: char) -> char {
    if 65 <= c as int && c as int <= 90 {
        ((c as int) + 32) as char
    } else {
        c
    }
}

/// ASCII lowercasing of a character sequence.
pub open spec fn lower_chars(s: Seq<char>) -> Seq<char> {
    s.map_values(|c: char| lower_char(c))
}

/// The characters of `s`, ASCII-lowercased.
pub fn lower_ascii_chars(s: &str) -> (r: Vec<char>)
    ensures
        r@ == lower_chars(s@),
{
    let n = s.unicode_len();
    let mut out: Vec<char> = Vec::new();
    let mut i: usize = 0;
    while i < n
        invariant
            i <= n,
            n == s@.len(),
            out@.len() == i,
            forall|j: int| 0 <= j < i ==> out@[j] == lower_char(s@[j]),
        decreases n - i,
    {
        let c = s.get_char(i);
        let u = c as u32;
        let l: char = if 65 <= u && u <= 90 {
            ((u + 32) as u8) as char
        } else {
            c
        };
        assert(l == lower_char(s@[i as int]));
        out.push(l);
        i = i + 1;
    }
    proof {
        assert(out@ =~= lower_chars(s@));
    }
    out
}

/// Lexicographic order on character sequences by code point, the order in
/// which the fingerprint entries are laid out.
pub open spec fn lex_leq(a: Seq<char>, b: Seq<char>) -> bool
    decreases a.len(),
{
    if a.len() == 0 {
        true
    } else if b.len() == 0 {
        false
    } else if (a[0] as int) < (b[0] as int) {
        true
    } else if a[0] == b[0] {
        lex_leq(a.drop_first(), b.drop_first())
    } else {
        false
    }
}

/// The order above as a first-class relation, for the sorting lemmas.
pub open spec fn lex_leq_fn() -> spec_fn(Seq<char>, Seq<char>) -> bool {
    |a: Seq<char>, b: Seq<char>| lex_leq(a, b)
}

pub proof fn lemma_lex_leq_reflexive(a: Seq<char>)
    ensures
        lex_leq(a, a),
    decreases a.len(),
{
    if a.len() > 0 {
        lemma_lex_leq_reflexive(a.drop_first());
    }
}

pub proof fn lemma_lex_leq_connected(a: Seq<char>, b: Seq<char>)
    ensures
        lex_leq(a, b) || lex_leq(b, a),
    decreases a.len(),
{
    if a.len() > 0 && b.len() > 0 && a[0] == b[0] {
        lemma_lex_leq_connected(a.drop_first(), b.drop_first());
    }
}

pub proof fn lemma_lex_leq_antisymmetric(a: Seq<char>, b: Seq<char>)
    requires
        lex_leq(a, b),
        lex_leq(b, a),
    ensures
        a == b,
    decreases a.len(),
{
    if a.len() == 0 {
        assert(b.len() == 0);
        assert(a =~= b);
    } else {
        assert(b.len() > 0);
        assert(a[0] == b[0]);
        lemma_lex_leq_antisymmetric(a.drop_first(), b.drop_first());
        assert(a =~= seq![a[0]] + a.drop_first());
        assert(b =~= seq![b[0]] + b.drop_first());
    }
}

pub proof fn lemma_lex_leq_transitive(a: Seq<char>, b: Seq<char>, c: Seq<char>)
    requires
        lex_leq(a, b),
        lex_leq(b, c),
    ensures
        lex_leq(a, c),
    decreases a.len(),
{
    if a.len() > 0 && b.len() > 0 && c.len() > 0 && a[0] == b[0] && b[0] == c[0] {
        lemma_lex_leq_transitive(a.drop_first(), b.drop_first(), c.drop_first());
    }
}

/// The lexicographic order is a total order, so a sorted arrangement of any
/// multiset of entries is unique.
pub proof fn lemma_lex_leq_total_ordering()
    ensures
        total_ordering(lex_leq_fn()),
{
    let leq = lex_leq_fn();
    assert forall|a: Seq<char>| #[trigger] leq(a, a) by {
        lemma_lex_leq_reflexive(a);
    }
    assert forall|a: Seq<char>, b: Seq<char>| #[trigger] leq(a, b) && #[trigger] leq(b, a)
        implies a == b by {
        lemma_lex_leq_antisymmetric(a, b);
    }
    assert forall|a: Seq<char>, b: Seq<char>, c: Seq<char>|
        #[trigger] leq(a, b) && #[trigger] leq(b, c) implies leq(a, c) by {
        lemma_lex_leq_transitive(a, b, c);
    }
    assert forall|a: Seq<char>, b: Seq<char>| #[trigger] leq(a, b) || #[trigger] leq(b, a) by {
        lemma_lex_leq_connected(a, b);
    }
}

/// If the first `i` characters agree, the order is decided by the tails.
pub proof fn lemma_lex_leq_skip(a: Seq<char>, b: Seq<char>, i: int)
    requires
        0 <= i <= a.len(),
        i <= b.len(),
        forall|j: int| 0 <= j < i ==> a[j] == b[j],
    ensures
        lex_leq(a, b) == lex_leq(a.skip(i), b.skip(i)),
    decreases i,
{
    if i == 0 {
        assert(a.skip(0) =~= a);
        assert(b.skip(0) =~= b);
    } else {
        assert(a.len() > 0 && b.len() > 0 && a[0] == b[0]);
        assert(!((a[0] as int) < (b[0] as int)));
        lemma_lex_leq_skip(a.drop_first(), b.drop_first(), i - 1);
        assert(a.drop_first().skip(i - 1) =~= a.skip(i));
        assert(b.drop_first().skip(i - 1) =~= b.skip(i));
    }
}

/// Whether `a@` comes no later than `b@` in the lexicographic order.
pub fn chars_leq(a: &Vec<char>, b: &Vec<char>) -> (r: bool)
    ensures
        r == lex_leq(a@, b@),
{
    let mut i: usize = 0;
    while i < a.len() && i < b.len()
        invariant
            i <= a@.len(),
            i <= b@.len(),
            forall|j: int| 0 <= j < i ==> a@[j] == b@[j],
        decreases a@.len() - i,
    {
        let x: char = a[i];
        let y: char = b[i];
        if x < y {
            proof {
                lemma_lex_leq_skip(a@, b@, i as int);
            }
            return true;
        }
        if y < x {
            proof {
                lemma_lex_leq_skip(a@, b@, i as int);
            }
            return false;
        }
        assert(a@[i as int] == b@[i as int]);
        i = i + 1;
    }
    proof {
        lemma_lex_leq_skip(a@, b@, i as int);
    }
    i == a.len()
}

/// The decimal digit for `d`, which must lie in `0 ..= 9`.
pub open spec fn digit_char(d: int) -> char {
    (48 + d) as char
}

/// Decimal rendering of `n`, most significant digit first, no leading zeros
/// (a single `'0'` for zero).
pub open spec fn dec_digits(n: nat) -> Seq<char>
    decreases n,
{
    if n < 10 {
        seq![digit_char(n as int)]
    } else {
        dec_digits(n / 10).push(digit_char((n % 10) as int))
    }
}

/// Every character of a decimal rendering is a digit.
pub proof fn lemma_dec_digits_range(n: nat)
    ensures
        dec_digits(n).len() >= 1,
        forall|i: int|
            0 <= i < dec_digits(n).len() ==> 48 <= #[trigger] (dec_digits(n)[i] as int) <= 57,
    decreases n,
{
    if n < 10 {
        assert(dec_digits(n)[0] == digit_char(n as int));
        assert(48 <= digit_char(n as int) as int <= 57);
    } else {
        lemma_dec_digits_range(n / 10);
        assert(48 <= digit_char((n % 10) as int) as int <= 57);
    }
}

/// Distinct numbers have distinct decimal renderings.
pub proof fn lemma_dec_digits_injective(m: nat, n: nat)
    requires
        dec_digits(m) == dec_digits(n),
    ensures
        m == n,
    decreases m,
{
    lemma_dec_digits_range(m);
    lemma_dec_digits_range(n);
    if m < 10 && n < 10 {
        assert(dec_digits(m)[0] == digit_char(m as int));
        assert(dec_digits(n)[0] == digit_char(n as int));
        assert(digit_char(m as int) == digit_char(n as int));
        assert(digit_char(m as int) as int == 48 + m);
        assert(digit_char(n as int) as int == 48 + n);
    } else if m >= 10 && n >= 10 {
        assert(dec_digits(m).last() == digit_char((m % 10) as int));
        assert(dec_digits(n).last() == digit_char((n % 10) as int));
        assert(digit_char((m % 10) as int) as int == 48 + m % 10);
        assert(digit_char((n % 10) as int) as int == 48 + n % 10);
        assert(m % 10 == n % 10);
        assert(dec_digits(m).drop_last() =~= dec_digits(n).drop_last());
        assert(dec_digits(m).drop_last() =~= dec_digits(m / 10));
        assert(dec_digits(n).drop_last() =~= dec_digits(n / 10));
        lemma_dec_digits_injective(m / 10, n / 10);
        assert(m == (m / 10) * 10 + (m % 10));
        assert(n == (n / 10) * 10 + (n % 10));
    } else if m < 10 {
        lemma_dec_digits_range(n / 10);
        assert(dec_digits(n).len() >= 2);
        assert(false);
    } else {
        lemma_dec_digits_range(m / 10);
        assert(dec_digits(m).len() >= 2);
        assert(false);
    }
}

/// The decimal rendering of `n@`.
pub fn dec_u64(n: u64) -> (r: Vec<char>)
    ensures
        r@ == dec_digits(n as nat),
    decreases n,
{
    if n < 10 {
        let c: char = ((48 + n) as u8) as char;
        assert(c == digit_char(n as int));
        let mut out: Vec<char> = Vec::new();
        out.push(c);
        proof {
            assert(out@ =~= dec_digits(n as nat));
        }
        out
    } else {
        let mut out = dec_u64(n / 10);
        let d = n % 10;
        let c: char = ((48 + d) as u8) as char;
        assert(c == digit_char(d as int));
        out.push(c);
        out
    }
}

/// The sequences `parts` joined with a single `';'` between neighbours.
pub open spec fn join_semi(parts: Seq<Seq<char>>) -> Seq<char>
    decreases parts.len(),
{
    if parts.len() == 0 {
        Seq::empty()
    } else if parts.len() == 1 {
        parts[0]
    } else {
        parts[0] + seq![';'] + join_semi(parts.drop_first())
    }
}

/// Joining one more part appends it after a separator.
pub proof fn lemma_join_semi_push(parts: Seq<Seq<char>>, x: Seq<char>)
    ensures
        parts.len() == 0 ==> join_semi(parts.push(x)) == x,
        parts.len() > 0 ==> join_semi(parts.push(x)) == join_semi(parts) + seq![';'] + x,
    decreases parts.len(),
{
    if parts.len() == 0 {
        assert(parts.push(x)[0] =~= x);
    } else if parts.len() == 1 {
        assert(parts.push(x).drop_first() =~= seq![x]);
        assert(parts.push(x)[0] == parts[0]);
        assert(seq![x].len() == 1);
        assert(join_semi(seq![x]) == seq![x][0]);
        assert(join_semi(parts.push(x)) == parts[0] + seq![';'] + x);
        assert(join_semi(parts) == parts[0]);
    } else {
        lemma_join_semi_push(parts.drop_first(), x);
        assert(parts.push(x).drop_first() =~= parts.drop_first().push(x));
        assert(parts.push(x)[0] == parts[0]);
        assert(parts[0] + seq![';'] + (join_semi(parts.drop_first()) + seq![';'] + x) =~= (parts[0]
            + seq![';'] + join_semi(parts.drop_first())) + seq![';'] + x);
    }
}

/// The views of a list of character vectors.
pub open spec fn seq_views(parts: Seq<Vec<char>>) -> Seq<Seq<char>> {
    parts.map_values(|v: Vec<char>| v@)
}

/// `parts` joined with `';'`.
pub fn join_with_semi(parts: &Vec<Vec<char>>) -> (r: Vec<char>)
    ensures
        r@ == join_semi(seq_views(parts@)),
{
    let mut out: Vec<char> = Vec::new();
    let mut i: usize = 0;
    while i < parts.len()
        invariant
            i <= parts@.len(),
            out@ == join_semi(seq_views(parts@.subrange(0, i as int))),
        decreases parts@.len() - i,
    {
        if i > 0 {
            out.push(';');
        }
        let part = &parts[i];
        let mut j: usize = 0;
        let ghost base = out@;
        while j < part.len()
            invariant
                j <= part@.len(),
                out@ == base + part@.subrange(0, j as int),
            decreases part@.len() - j,
        {
            out.push(part[j]);
            proof {
                assert(base + part@.subrange(0, j + 1) =~= (base + part@.subrange(
                    0,
                    j as int,
                )).push(part@[j as int]));
            }
            j = j + 1;
        }
        proof {
            assert(part@.subrange(0, part@.len() as int) =~= part@);
            let prefix = seq_views(parts@.subrange(0, i as int));
            lemma_join_semi_push(prefix, parts@[i as int]@);
            assert(seq_views(parts@.subrange(0, i + 1)) =~= prefix.push(parts@[i as int]@));
            assert(out@ =~= join_semi(seq_views(parts@.subrange(0, i + 1))));
        }
        i = i + 1;
    }
    proof {
        assert(parts@.subrange(0, parts@.len() as int) =~= parts@);
    }
    out
}

/// Whether `a@` and `b@` are the same character sequence.
pub fn chars_eq(a: &Vec<char>, b: &Vec<char>) -> (r: bool)
    ensures
        r == (a@ == b@),
{
    if a.len() != b.len() {
        return false;
    }
    let mut i: usize = 0;
    while i < a.len()
        invariant
            i <= a@.len(),
            a@.len() == b@.len(),
            forall|j: int| 0 <= j < i ==> a@[j] == b@[j],
        decreases a@.len() - i,
    {
        let x: char = a[i];
        let y: char = b[i];
        if x != y {
            return false;
        }
        i = i + 1;
    }
    proof {
        assert(a@ =~= b@);
    }
    true
}

/// Relies on std's `String: FromIterator<char>`: the collected string holds
/// exactly the given characters, in order.
#[verifier::external_body]
pub fn chars_to_string(v: &Vec<char>) -> (r: String)
    ensures
        r@ == v@,
{
    v.iter().collect()
}

} // verus!
