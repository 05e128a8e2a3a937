use vstd::prelude::*;

verus! {

// ---------------------------------------------------------------------------
// Lexicographic order on character sequences.
//
// Task file paths are sorted so that loading is reproducible whatever order
// the file system listed them in. For valid UTF-8 text, code-point order
// coincides with byte order, so the order below is stated over `Seq<char>`.
// ---------------------------------------------------------------------------

/// Strict lexicographic order: `a` comes before `b`.
pub open spec fn lex_lt(a: Seq<char>, b: Seq<char>) -> bool
    decreases a.len(),
{
    if b.len() == 0 {
        false
    } else if a.len() == 0 {
        true
    } else if a[0] as u32 != b[0] as u32 {
        (a[0] as u32) < (b[0] as u32)
    } else {
        lex_lt(a.skip(1), b.skip(1))
    }
}

/// Non-strict lexicographic order.
pub open spec fn lex_le(a: Seq<char>, b: Seq<char>) -> bool {
    !lex_lt(b, a)
}

/// The strict order never holds in both directions at once.
pub proof fn lemma_lex_lt_asymmetric(a: Seq<char>, b: Seq<char>)
    ensures
        !(lex_lt(a, b) && lex_lt(b, a)),
    decreases a.len(),
{
    if a.len() > 0 && b.len() > 0 && a[0] as u32 == b[0] as u32 {
        lemma_lex_lt_asymmetric(a.skip(1), b.skip(1));
    }
}

/// The non-strict order is total: any two sequences are comparable.
pub proof fn lemma_lex_le_total(a: Seq<char>, b: Seq<char>)
    ensures
        lex_le(a, b) || lex_le(b, a),
{
    lemma_lex_lt_asymmetric(a, b);
}

/// If the strict order rejects both directions, the heads agree step by step.
pub proof fn lemma_lex_lt_or(a: Seq<char>, b: Seq<char>, c: Seq<char>)
    ensures
        lex_lt(a, c) ==> lex_lt(a, b) || lex_lt(b, c),
    decreases a.len(), b.len(), c.len(),
{
    if lex_lt(a, c) {
        assert(c.len() > 0);
        if a.len() == 0 {
            if b.len() == 0 {
                assert(lex_lt(b, c));
            } else {
                assert(lex_lt(a, b));
            }
        } else if b.len() == 0 {
            assert(lex_lt(b, c));
        } else {
            let a0 = a[0] as u32;
            let b0 = b[0] as u32;
            let c0 = c[0] as u32;
            if a0 != c0 {
                assert(a0 < c0);
                if a0 != b0 && a0 < b0 {
                    assert(lex_lt(a, b));
                } else if b0 != c0 && b0 < c0 {
                    assert(lex_lt(b, c));
                } else {
                    // b0 <= a0 and c0 <= b0, contradicting a0 < c0
                    assert(false);
                }
            } else {
                assert(lex_lt(a.skip(1), c.skip(1)));
                if a0 == b0 {
                    lemma_lex_lt_or(a.skip(1), b.skip(1), c.skip(1));
                    if lex_lt(a.skip(1), b.skip(1)) {
                        assert(lex_lt(a, b));
                    } else {
                        assert(lex_lt(b.skip(1), c.skip(1)));
                        assert(lex_lt(b, c));
                    }
                } else if a0 < b0 {
                    assert(lex_lt(a, b));
                } else {
                    assert(b0 < c0);
                    assert(lex_lt(b, c));
                }
            }
        }
    }
}

/// Transitivity of the non-strict order.
pub proof fn lemma_lex_le_trans(a: Seq<char>, b: Seq<char>, c: Seq<char>)
    ensures
        lex_le(a, b) && lex_le(b, c) ==> lex_le(a, c),
{
    lemma_lex_lt_or(c, b, a);
}

/// Executable strict comparison, equal to `lex_lt` on the views.
pub fn str_lt(a: &str, b: &str) -> (r: bool)
    ensures
        r == lex_lt(a@, b@),
{
    let a_len = a.unicode_len();
    let b_len = b.unicode_len();
    let mut i: usize = 0;
    proof {
        assert(a@.skip(0) =~= a@);
        assert(b@.skip(0) =~= b@);
    }
    while i < a_len && i < b_len
        invariant
            i <= a_len,
            i <= b_len,
            a_len == a@.len(),
            b_len == b@.len(),
            lex_lt(a@, b@) == lex_lt(a@.skip(i as int), b@.skip(i as int)),
        decreases a_len - i,
    {
        let ca = a.get_char(i);
        let cb = b.get_char(i);
        proof {
            assert(a@.skip(i as int)[0] == a@[i as int]);
            assert(b@.skip(i as int)[0] == b@[i as int]);
            assert(a@.skip(i as int).skip(1) =~= a@.skip(i as int + 1));
            assert(b@.skip(i as int).skip(1) =~= b@.skip(i as int + 1));
        }
        if (ca as u32) != (cb as u32) {
            return (ca as u32) < (cb as u32);
        }
        i = i + 1;
    }
    proof {
        assert(a@.skip(i as int).len() == a@.len() - i);
        assert(b@.skip(i as int).len() == b@.len() - i);
    }
    a_len < b_len
}

/// Executable non-strict comparison, equal to `lex_le` on the views.
pub fn str_le(a: &str, b: &str) -> (r: bool)
    ensures
        r == lex_le(a@, b@),
{
    !str_lt(b, a)
}

// ---------------------------------------------------------------------------
// Decimal rendering of machine integers, used for human-readable labels.
// ---------------------------------------------------------------------------

/// The character for one decimal digit.
pub open spec fn digit_char(d: nat) -> char {
    if d == 0 { '0' }
    else if d == 1 { '1' }
    else if d == 2 { '2' }
    else if d == 3 { '3' }
    else if d == 4 { '4' }
    else if d == 5 { '5' }
    else if d == 6 { '6' }
    else if d == 7 { '7' }
    else if d == 8 { '8' }
    else { '9' }
}

/// The usual decimal rendering of a natural number, without leading zeros.
pub open spec fn dec_digits(n: nat) -> Seq<char>
    decreases n,
{
    if n < 10 {
        seq![digit_char(n)]
    } else {
        dec_digits(n / 10).push(digit_char(n % 10))
    }
}

/// One decimal digit as a string slice.
fn digit_str(d: usize) -> (r: &'static str)
    requires
        d < 10,
    ensures
        r@ =~= seq![digit_char(d as nat)],
{
    proof {
        reveal_strlit("0");
        reveal_strlit("1");
        reveal_strlit("2");
        reveal_strlit("3");
        reveal_strlit("4");
        reveal_strlit("5");
        reveal_strlit("6");
        reveal_strlit("7");
        reveal_strlit("8");
        reveal_strlit("9");
    }
    if d == 0 { "0" }
    else if d == 1 { "1" }
    else if d == 2 { "2" }
    else if d == 3 { "3" }
    else if d == 4 { "4" }
    else if d == 5 { "5" }
    else if d == 6 { "6" }
    else if d == 7 { "7" }
    else if d == 8 { "8" }
    else { "9" }
}

/// Renders a machine integer in decimal.
pub fn usize_to_decimal(n: usize) -> (r: String)
    ensures
        r@ == dec_digits(n as nat),
    decreases n,
{
    if n < 10 {
        digit_str(n).to_owned()
    } else {
        let mut s = usize_to_decimal(n / 10);
        s.append(digit_str(n % 10));
        proof {
            assert(dec_digits((n / 10) as nat) + seq![digit_char((n % 10) as nat)]
                =~= dec_digits((n / 10) as nat).push(digit_char((n % 10) as nat)));
        }
        s
    }
}

// ---------------------------------------------------------------------------
// Plain-string path handling.
//
// Paths are carried as plain strings; the rules below are the library's own,
// deterministic reading of them: the base name is everything after the last
// separator, the stem drops an extension introduced by a dot that is not the
// base name's first character.
// ---------------------------------------------------------------------------

/// The position of the last occurrence of `c` in `s`, if any.
pub open spec fn last_index_of(s: Seq<char>, c: char) -> Option<int>
    decreases s.len(),
{
    if s.len() == 0 {
        None
    } else if s.last() == c {
        Some(s.len() - 1)
    } else {
        last_index_of(s.drop_last(), c)
    }
}

/// A found index is in range and holds the sought character.
pub proof fn lemma_last_index_of_in_range(s: Seq<char>, c: char)
    ensures
        last_index_of(s, c) matches Some(k) ==> 0 <= k < s.len() && s[k] == c,
    decreases s.len(),
{
    if s.len() > 0 && s.last() != c {
        lemma_last_index_of_in_range(s.drop_last(), c);
    }
}

/// Executable search for the last occurrence of `c`.
pub fn find_last(s: &str, c: char) -> (r: Option<usize>)
    ensures
        match r {
            Some(i) => last_index_of(s@, c) == Some(i as int),
            None => last_index_of(s@, c) is None,
        },
{
    let len = s.unicode_len();
    let mut i: usize = len;
    proof {
        assert(s@.take(len as int) =~= s@);
    }
    while i > 0
        invariant
            i <= len,
            len == s@.len(),
            last_index_of(s@, c) == last_index_of(s@.take(i as int), c),
        decreases i,
    {
        let ch = s.get_char(i - 1);
        proof {
            assert(s@.take(i as int).last() == s@[i as int - 1]);
            assert(s@.take(i as int).drop_last() =~= s@.take(i as int - 1));
        }
        if ch == c {
            return Some(i - 1);
        }
        i = i - 1;
    }
    proof {
        assert(s@.take(0).len() == 0);
    }
    None
}

/// Everything after the last path separator, or the whole string.
pub open spec fn spec_basename(s: Seq<char>) -> Seq<char> {
    match last_index_of(s, '/') {
        Some(k) => s.skip(k + 1),
        None => s,
    }
}

/// The base name with an extension removed; a dot in first position does not
/// introduce an extension.
pub open spec fn spec_stem(b: Seq<char>) -> Seq<char> {
    match last_index_of(b, '.') {
        Some(k) => if k > 0 { b.take(k) } else { b },
        None => b,
    }
}

/// The extension of a base name, if a dot after the first position gives one.
pub open spec fn spec_extension(b: Seq<char>) -> Option<Seq<char>> {
    match last_index_of(b, '.') {
        Some(k) => if k > 0 { Some(b.skip(k + 1)) } else { None },
        None => None,
    }
}

/// Executable base name of a path string.
pub fn path_basename(path: &str) -> (r: String)
    ensures
        r@ == spec_basename(path@),
{
    let len = path.unicode_len();
    match find_last(path, '/') {
        Some(k) => {
            proof {
                lemma_last_index_of_in_range(path@, '/');
            }
            path.substring_char(k + 1, len).to_owned()
        },
        None => path.to_owned(),
    }
}

/// Executable stem of a base name.
pub fn basename_stem(b: &str) -> (r: String)
    ensures
        r@ == spec_stem(b@),
{
    match find_last(b, '.') {
        Some(k) => {
            proof {
                lemma_last_index_of_in_range(b@, '.');
            }
            if k > 0 {
                b.substring_char(0, k).to_owned()
            } else {
                b.to_owned()
            }
        },
        None => b.to_owned(),
    }
}

/// Case-insensitive match of an extension against the fixed task-file suffix.
pub open spec fn is_toml_ext(e: Seq<char>) -> bool {
    &&& e.len() == 4
    &&& (e[0] == 't' || e[0] == 'T')
    &&& (e[1] == 'o' || e[1] == 'O')
    &&& (e[2] == 'm' || e[2] == 'M')
    &&& (e[3] == 'l' || e[3] == 'L')
}

/// A path names a task file when its base name carries the task-file
/// extension, compared without regard to ASCII case.
pub open spec fn has_task_ext(path: Seq<char>) -> bool {
    match spec_extension(spec_basename(path)) {
        Some(e) => is_toml_ext(e),
        None => false,
    }
}

/// Executable task-file extension test on a path string.
pub fn path_has_task_ext(path: &str) -> (r: bool)
    ensures
        r == has_task_ext(path@),
{
    let b = path_basename(path);
    let blen = b.as_str().unicode_len();
    match find_last(b.as_str(), '.') {
        Some(k) => {
            proof {
                lemma_last_index_of_in_range(b@, '.');
            }
            if k == 0 {
                return false;
            }
            if blen - k - 1 != 4 {
                return false;
            }
            let c0 = b.as_str().get_char(k + 1);
            let c1 = b.as_str().get_char(k + 2);
            let c2 = b.as_str().get_char(k + 3);
            let c3 = b.as_str().get_char(k + 4);
            proof {
                let e = b@.skip(k as int + 1);
                assert(e[0] == b@[k as int + 1]);
                assert(e[1] == b@[k as int + 2]);
                assert(e[2] == b@[k as int + 3]);
                assert(e[3] == b@[k as int + 4]);
            }
            (c0 == 't' || c0 == 'T') && (c1 == 'o' || c1 == 'O')
                && (c2 == 'm' || c2 == 'M') && (c3 == 'l' || c3 == 'L')
        },
        None => false,
    }
}

} // verus!
