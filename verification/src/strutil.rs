//! Verified helpers over strings: equality, prefix tests, trimming,
//! splitting, character scans, and decimal formatting. SQL text is assembled
//! from these, so each one carries an exact contract over character
//! sequences.

use vstd::prelude::*;

verus! {

/// The whitespace characters recognized when trimming or blank-testing text.
pub open spec fn is_space_char(c: char) -> bool {
    c == ' ' || c == '\t' || c == '\n' || c == '\r'
}

/// A sequence of characters is blank when every character is whitespace.
pub open spec fn is_blank_text(s: Seq<char>) -> bool {
    forall|i: int| 0 <= i < s.len() ==> is_space_char(#[trigger] s[i])
}

/// Whether every character of `s` is whitespace.
pub fn check_blank_text(s: &str) -> (r: bool)
    ensures
        r == is_blank_text(s@),
{
    let n = s.unicode_len();
    let mut i: usize = 0;
    while i < n
        invariant
            0 <= i <= n,
            n == s@.len(),
            forall|j: int| 0 <= j < i ==> is_space_char(#[trigger] s@[j]),
        decreases n - i,
    {
        let c = s.get_char(i);
        if !(c == ' ' || c == '\t' || c == '\n' || c == '\r') {
            return false;
        }
        i = i + 1;
    }
    true
}

/// Whether two string slices hold the same characters.
pub fn str_eq(a: &str, b: &str) -> (r: bool)
    ensures
        r == (a@ == b@),
{
    let x: String = a.to_owned();
    let y: String = b.to_owned();
    x == y
}

/// `p` is a prefix of `s`.
pub open spec fn has_prefix(s: Seq<char>, p: Seq<char>) -> bool {
    p.len() <= s.len() && s.subrange(0, p.len() as int) == p
}

/// Whether `s` starts with the characters of `p`.
pub fn starts_with_str(s: &str, p: &str) -> (r: bool)
    ensures
        r == has_prefix(s@, p@),
{
    let sl = s.unicode_len();
    let pl = p.unicode_len();
    if pl > sl {
        return false;
    }
    let mut i: usize = 0;
    while i < pl
        invariant
            0 <= i <= pl,
            pl == p@.len(),
            sl == s@.len(),
            pl <= sl,
            forall|j: int| 0 <= j < i ==> s@[j] == p@[j],
        decreases pl - i,
    {
        if s.get_char(i) != p.get_char(i) {
            proof {
                assert(s@.subrange(0, pl as int)[i as int] != p@[i as int]);
            }
            return false;
        }
        i = i + 1;
    }
    proof {
        assert(s@.subrange(0, pl as int) =~= p@);
    }
    true
}

/// `a` equals the word whose lower-case form is `l` and upper-case form is
/// `u`, comparing character by character against either form.
pub open spec fn ci_eq(a: Seq<char>, l: Seq<char>, u: Seq<char>) -> bool {
    a.len() == l.len() && forall|i: int|
        0 <= i < a.len() ==> (#[trigger] a[i] == l[i] || a[i] == u[i])
}

/// Whether `s` matches the word given in its lower- and upper-case forms,
/// each character matching either form.
pub fn match_ci(s: &str, lower: &str, upper: &str) -> (r: bool)
    requires
        lower@.len() == upper@.len(),
    ensures
        r == ci_eq(s@, lower@, upper@),
{
    let n = s.unicode_len();
    let ln = lower.unicode_len();
    if n != ln {
        return false;
    }
    let mut i: usize = 0;
    while i < n
        invariant
            0 <= i <= n,
            n == s@.len(),
            n == lower@.len(),
            lower@.len() == upper@.len(),
            forall|j: int| 0 <= j < i ==> (#[trigger] s@[j] == lower@[j] || s@[j] == upper@[j]),
        decreases n - i,
    {
        let c = s.get_char(i);
        if c != lower.get_char(i) && c != upper.get_char(i) {
            return false;
        }
        i = i + 1;
    }
    true
}

/// The characters of `sep` occur in `s` at position `i`.
pub open spec fn match_at(s: Seq<char>, sep: Seq<char>, i: int) -> bool {
    0 <= i && i + sep.len() <= s.len() && s.subrange(i, i + sep.len()) == sep
}

/// Whether `sep` occurs in `s` at position `i`.
pub fn str_match_at(s: &str, sep: &str, i: usize) -> (r: bool)
    requires
        i + sep@.len() <= s@.len(),
    ensures
        r == match_at(s@, sep@, i as int),
{
    let sl = s.unicode_len();
    let pl = sep.unicode_len();
    let mut j: usize = 0;
    while j < pl
        invariant
            0 <= j <= pl,
            pl == sep@.len(),
            sl == s@.len(),
            i + pl <= sl,
            forall|k: int| 0 <= k < j ==> s@[i + k] == sep@[k],
        decreases pl - j,
    {
        if s.get_char(i + j) != sep.get_char(j) {
            proof {
                assert(s@.subrange(i as int, i + sep@.len())[j as int] != sep@[j as int]);
            }
            return false;
        }
        j = j + 1;
    }
    proof {
        assert(s@.subrange(i as int, i + sep@.len()) =~= sep@);
    }
    true
}

/// The text with leading and trailing whitespace removed.
pub open spec fn trim_text(s: Seq<char>) -> Seq<char>
    decreases s.len(),
{
    if s.len() == 0 {
        s
    } else if is_space_char(s.first()) {
        trim_text(s.drop_first())
    } else if is_space_char(s.last()) {
        trim_text(s.drop_last())
    } else {
        s
    }
}

proof fn lemma_trim_blank(s: Seq<char>)
    requires
        is_blank_text(s),
    ensures
        trim_text(s) == Seq::<char>::empty(),
    decreases s.len(),
{
    if s.len() == 0 {
        assert(s =~= Seq::<char>::empty());
    } else {
        lemma_trim_blank(s.drop_first());
    }
}

proof fn lemma_trim_subrange(s: Seq<char>, f: int, l: int)
    requires
        0 <= f <= l < s.len(),
        forall|j: int| 0 <= j < f ==> is_space_char(#[trigger] s[j]),
        forall|j: int| l < j < s.len() ==> is_space_char(#[trigger] s[j]),
        !is_space_char(s[f]),
        !is_space_char(s[l]),
    ensures
        trim_text(s) == s.subrange(f, l + 1),
    decreases s.len(),
{
    if f > 0 {
        let t = s.drop_first();
        assert(is_space_char(s.first()));
        lemma_trim_subrange(t, f - 1, l - 1);
        assert(t.subrange(f - 1, l) =~= s.subrange(f, l + 1));
    } else if l < s.len() - 1 {
        let t = s.drop_last();
        assert(!is_space_char(s.first()));
        assert(is_space_char(s.last()));
        lemma_trim_subrange(t, f, l);
        assert(t.subrange(f, l + 1) =~= s.subrange(f, l + 1));
    } else {
        assert(s.subrange(0, s.len() as int) =~= s);
    }
}

/// Copy of `s` with leading and trailing whitespace removed.
pub fn trim_str(s: &str) -> (r: String)
    ensures
        r@ == trim_text(s@),
{
    let n = s.unicode_len();
    let mut f: usize = 0;
    while f < n
        invariant
            0 <= f <= n,
            n == s@.len(),
            forall|j: int| 0 <= j < f ==> is_space_char(#[trigger] s@[j]),
        ensures
            0 <= f <= n,
            forall|j: int| 0 <= j < f ==> is_space_char(#[trigger] s@[j]),
            f < n ==> !is_space_char(s@[f as int]),
        decreases n - f,
    {
        let c = s.get_char(f);
        if !(c == ' ' || c == '\t' || c == '\n' || c == '\r') {
            break;
        }
        f = f + 1;
    }
    if f == n {
        proof {
            lemma_trim_blank(s@);
        }
        return String::new();
    }
    let mut l: usize = n - 1;
    while l > f
        invariant
            f <= l <= n - 1,
            n == s@.len(),
            f < n,
            !is_space_char(s@[f as int]),
            forall|j: int| l < j < n ==> is_space_char(#[trigger] s@[j]),
        ensures
            f <= l <= n - 1,
            forall|j: int| l < j < n ==> is_space_char(#[trigger] s@[j]),
            !is_space_char(s@[l as int]),
        decreases l,
    {
        let c = s.get_char(l);
        if !(c == ' ' || c == '\t' || c == '\n' || c == '\r') {
            break;
        }
        l = l - 1;
    }
    let piece = s.substring_char(f, l + 1);
    proof {
        lemma_trim_subrange(s@, f as int, l as int);
    }
    piece.to_owned()
}

/// The pieces of `s` cut at each occurrence of `sep`, scanning left to
/// right; `head` is the part of the current piece read so far.
pub open spec fn split_from(s: Seq<char>, sep: Seq<char>, head: Seq<char>) -> Seq<Seq<char>>
    decreases s.len(),
{
    if sep.len() == 0 || s.len() < sep.len() {
        seq![head + s]
    } else if s.subrange(0, sep.len() as int) == sep {
        seq![head] + split_from(s.skip(sep.len() as int), sep, Seq::empty())
    } else {
        split_from(s.skip(1), sep, head.push(s[0]))
    }
}

/// The pieces of `s` cut at each occurrence of `sep`.
pub open spec fn split_text(s: Seq<char>, sep: Seq<char>) -> Seq<Seq<char>> {
    split_from(s, sep, Seq::empty())
}

/// The views of a vector of strings.
pub open spec fn views_of_strs(s: Seq<String>) -> Seq<Seq<char>> {
    s.map_values(|x: String| x@)
}

/// Split `s` at each occurrence of `sep`.
pub fn split_on(s: &str, sep: &str) -> (r: Vec<String>)
    requires
        sep@.len() > 0,
    ensures
        views_of_strs(r@) =~~= split_text(s@, sep@),
{
    let n = s.unicode_len();
    let pl = sep.unicode_len();
    let mut pieces: Vec<String> = Vec::new();
    let mut start: usize = 0;
    let mut i: usize = 0;
    proof {
        assert(s@.skip(0) =~= s@);
        assert(s@.subrange(0, 0) =~= Seq::<char>::empty());
        assert(views_of_strs(pieces@) =~= Seq::<Seq<char>>::empty());
        assert(views_of_strs(pieces@) + split_from(s@, sep@, Seq::<char>::empty()) =~= split_from(
            s@,
            sep@,
            Seq::<char>::empty(),
        ));
    }
    if pl <= n {
        while i <= n - pl
            invariant
                0 <= start <= i <= n,
                n == s@.len(),
                pl == sep@.len(),
                pl > 0,
                pl <= n,
                views_of_strs(pieces@) + split_from(
                    s@.skip(i as int),
                    sep@,
                    s@.subrange(start as int, i as int),
                ) =~~= split_text(s@, sep@),
            decreases n - i,
        {
            let ghost rest = s@.skip(i as int);
            let ghost head = s@.subrange(start as int, i as int);
            let ghost old_pieces = pieces@;
            proof {
                assert(rest.len() == n - i >= pl);
                assert(rest.subrange(0, sep@.len() as int) =~= s@.subrange(
                    i as int,
                    i + sep@.len(),
                ));
            }
            if str_match_at(s, sep, i) {
                let piece = s.substring_char(start, i);
                pieces.push(piece.to_owned());
                proof {
                    assert(rest.subrange(0, sep@.len() as int) == sep@);
                    assert(split_from(rest, sep@, head) == seq![head] + split_from(
                        rest.skip(sep@.len() as int),
                        sep@,
                        Seq::<char>::empty(),
                    ));
                    assert(rest.skip(sep@.len() as int) =~= s@.skip(i + pl));
                    assert(s@.subrange((i + pl) as int, (i + pl) as int) =~= Seq::<
                        char,
                    >::empty());
                    assert(views_of_strs(pieces@) =~~= views_of_strs(old_pieces).push(head));
                    assert(views_of_strs(old_pieces).push(head) + split_from(
                        s@.skip(i + pl),
                        sep@,
                        Seq::<char>::empty(),
                    ) =~~= views_of_strs(old_pieces) + (seq![head] + split_from(
                        s@.skip(i + pl),
                        sep@,
                        Seq::<char>::empty(),
                    )));
                }
                i = i + pl;
                start = i;
            } else {
                proof {
                    assert(rest.subrange(0, sep@.len() as int) != sep@);
                    assert(split_from(rest, sep@, head) == split_from(
                        rest.skip(1),
                        sep@,
                        head.push(rest[0]),
                    ));
                    assert(rest.skip(1) =~= s@.skip(i + 1));
                    assert(rest[0] == s@[i as int]);
                    assert(head.push(s@[i as int]) =~= s@.subrange(start as int, i + 1));
                }
                i = i + 1;
            }
        }
    }
    let piece = s.substring_char(start, n);
    let ghost old_pieces = pieces@;
    pieces.push(piece.to_owned());
    proof {
        let rest = s@.skip(i as int);
        let head = s@.subrange(start as int, i as int);
        assert(rest.len() == n - i < pl);
        assert(split_from(rest, sep@, head) == seq![head + rest]);
        assert(head + rest =~= s@.subrange(start as int, n as int));
        assert(views_of_strs(pieces@) =~~= views_of_strs(old_pieces).push(
            s@.subrange(start as int, n as int),
        ));
        assert(views_of_strs(old_pieces).push(head + rest) =~~= views_of_strs(old_pieces) + seq![
            head + rest,
        ]);
    }
    pieces
}

/// The digit character for a value between 0 and 9.
pub open spec fn digit_char(d: int) -> char {
    if d == 0 {
        '0'
    } else if d == 1 {
        '1'
    } else if d == 2 {
        '2'
    } else if d == 3 {
        '3'
    } else if d == 4 {
        '4'
    } else if d == 5 {
        '5'
    } else if d == 6 {
        '6'
    } else if d == 7 {
        '7'
    } else if d == 8 {
        '8'
    } else {
        '9'
    }
}

/// The decimal digits of a non-negative number.
pub open spec fn dec_digits(n: int) -> Seq<char>
    recommends
        n >= 0,
    decreases n,
{
    if n < 10 {
        seq![digit_char(n)]
    } else {
        dec_digits(n / 10).push(digit_char(n % 10))
    }
}

/// The decimal notation of a number, with a leading minus sign when negative.
pub open spec fn dec_text(n: int) -> Seq<char> {
    if n < 0 {
        seq!['-'] + dec_digits(-n)
    } else {
        dec_digits(n)
    }
}

/// One digit as a string slice, cut out of a literal digit table.
fn digit_str(d: u64) -> (r: String)
    requires
        d < 10,
    ensures
        r@ =~= seq![digit_char(d as int)],
{
    let table = "0123456789";
    proof {
        reveal_strlit("0123456789");
    }
    let piece = table.substring_char(d as usize, d as usize + 1);
    piece.to_owned()
}

/// The decimal notation of `n`.
pub fn i64_to_string(n: i64) -> (r: String)
    ensures
        r@ == dec_text(n as int),
{
    let neg = n < 0;
    let wide: i128 = n as i128;
    let mut m: u64 = if n >= 0 {
        n as u64
    } else {
        (-wide) as u64
    };
    proof {
        assert(n >= 0 ==> m == n as int);
        assert(n < 0 ==> m == -(n as int));
    }
    let ghost m0 = m as int;
    let mut digits: Vec<u64> = Vec::new();
    proof {
        assert(Seq::new(0, |j: int| digit_char(digits@[digits@.len() - 1 - j] as int)) =~= Seq::<
            char,
        >::empty());
        assert(dec_digits(m0) =~= dec_digits(m as int) + Seq::new(
            0,
            |j: int| digit_char(digits@[digits@.len() - 1 - j] as int),
        ));
    }
    loop
        invariant_except_break
            forall|j: int| 0 <= j < digits@.len() ==> #[trigger] digits@[j] < 10,
            dec_digits(m0) =~= dec_digits(m as int) + Seq::new(
                digits@.len(),
                |j: int| digit_char(digits@[digits@.len() - 1 - j] as int),
            ),
        ensures
            forall|j: int| 0 <= j < digits@.len() ==> #[trigger] digits@[j] < 10,
            digits@.len() >= 1,
            dec_digits(m0) =~= Seq::new(
                digits@.len(),
                |j: int| digit_char(digits@[digits@.len() - 1 - j] as int),
            ),
        decreases m,
    {
        let d = m % 10;
        let next = m / 10;
        let ghost old_digits = digits@;
        digits.push(d);
        proof {
            let k = digits@.len() as int;
            assert(digits@[k - 1] == d);
            assert(forall|j: int| 0 <= j < k - 1 ==> digits@[j] == old_digits[j]);
            assert(Seq::new(k as nat, |j: int| digit_char(digits@[k - 1 - j] as int)) =~= seq![
                digit_char(d as int),
            ] + Seq::new((k - 1) as nat, |j: int| digit_char(old_digits[k - 2 - j] as int)));
            if next >= 1 {
                assert(m >= 10);
                assert(dec_digits(m as int) == dec_digits(m as int / 10).push(
                    digit_char(m as int % 10),
                ));
                assert(dec_digits(next as int).push(digit_char(d as int)) =~= dec_digits(
                    next as int,
                ) + seq![digit_char(d as int)]);
                assert((dec_digits(next as int) + seq![digit_char(d as int)]) + Seq::new(
                    (k - 1) as nat,
                    |j: int| digit_char(old_digits[k - 2 - j] as int),
                ) =~= dec_digits(next as int) + (seq![digit_char(d as int)] + Seq::new(
                    (k - 1) as nat,
                    |j: int| digit_char(old_digits[k - 2 - j] as int),
                )));
            } else {
                assert(m < 10);
                assert(dec_digits(m as int) == seq![digit_char(m as int)]);
                assert(seq![digit_char(d as int)] + Seq::new(
                    (k - 1) as nat,
                    |j: int| digit_char(old_digits[k - 2 - j] as int),
                ) =~= dec_digits(m as int) + Seq::new(
                    (k - 1) as nat,
                    |j: int| digit_char(old_digits[k - 2 - j] as int),
                ));
            }
        }
        if next == 0 {
            break;
        }
        m = next;
    }
    let mut out: String = if neg {
        let h = "-";
        proof {
            reveal_strlit("-");
        }
        h.to_owned()
    } else {
        String::new()
    };
    let ghost sign: Seq<char> = if neg {
        seq!['-']
    } else {
        Seq::empty()
    };
    proof {
        assert(out@ =~= sign);
    }
    let total = digits.len();
    let mut k: usize = 0;
    while k < total
        invariant
            0 <= k <= total,
            total == digits@.len(),
            forall|j: int| 0 <= j < digits@.len() ==> #[trigger] digits@[j] < 10,
            out@ =~= sign + Seq::new(
                k as nat,
                |j: int| digit_char(digits@[total - 1 - j] as int),
            ),
        decreases total - k,
    {
        let d = digits[total - 1 - k];
        let ds = digit_str(d);
        out.append(ds.as_str());
        proof {
            assert(out@ =~= sign + Seq::new(
                (k + 1) as nat,
                |j: int| digit_char(digits@[total - 1 - j] as int),
            ));
        }
        k = k + 1;
    }
    proof {
        assert(Seq::new(total as nat, |j: int| digit_char(digits@[total - 1 - j] as int))
            =~= dec_digits(m0));
        if n < 0 {
            assert(out@ =~= dec_text(n as int));
        } else {
            assert(sign + dec_digits(m0) =~= dec_digits(m0));
        }
    }
    out
}

/// The text with every whitespace character removed.
pub open spec fn strip_spaces(s: Seq<char>) -> Seq<char>
    decreases s.len(),
{
    if s.len() == 0 {
        s
    } else if is_space_char(s.first()) {
        strip_spaces(s.drop_first())
    } else {
        seq![s.first()] + strip_spaces(s.drop_first())
    }
}

proof fn lemma_strip_spaces_step(s: Seq<char>, i: int)
    requires
        0 <= i < s.len(),
    ensures
        strip_spaces(s.skip(i)) == if is_space_char(s[i]) {
            strip_spaces(s.skip(i + 1))
        } else {
            seq![s[i]] + strip_spaces(s.skip(i + 1))
        },
{
    assert(s.skip(i).len() > 0);
    assert(s.skip(i).first() == s[i]);
    assert(s.skip(i).drop_first() =~= s.skip(i + 1));
}

/// Copy of `s` with every whitespace character removed.
pub fn remove_spaces(s: &str) -> (r: String)
    ensures
        r@ == strip_spaces(s@),
{
    let n = s.unicode_len();
    let mut out = String::new();
    let mut i: usize = 0;
    proof {
        assert(s@.skip(0) =~= s@);
        assert(out@ + strip_spaces(s@) =~= strip_spaces(s@));
    }
    while i < n
        invariant
            0 <= i <= n,
            n == s@.len(),
            out@ + strip_spaces(s@.skip(i as int)) =~= strip_spaces(s@),
        decreases n - i,
    {
        let c = s.get_char(i);
        proof {
            lemma_strip_spaces_step(s@, i as int);
        }
        if !(c == ' ' || c == '\t' || c == '\n' || c == '\r') {
            let piece = s.substring_char(i, i + 1);
            let ghost old_out = out@;
            out.append(piece);
            proof {
                assert(s@.subrange(i as int, i + 1) =~= seq![s@[i as int]]);
                assert(out@ =~= old_out + seq![s@[i as int]]);
                assert((old_out + seq![s@[i as int]]) + strip_spaces(s@.skip(i + 1)) =~= old_out + (
                seq![s@[i as int]] + strip_spaces(s@.skip(i + 1))));
            }
        }
        i = i + 1;
    }
    proof {
        assert(s@.skip(n as int) =~= Seq::<char>::empty());
        assert(strip_spaces(Seq::<char>::empty()) =~= Seq::<char>::empty());
    }
    out
}

/// The two characters occur adjacently in `s`.
pub open spec fn text_has_pair(s: Seq<char>, c1: char, c2: char) -> bool {
    exists|i: int| 0 <= i && i + 1 < s.len() && #[trigger] s[i] == c1 && s[i + 1] == c2
}

/// Whether the characters `c1` and `c2` occur adjacently in `s`.
pub fn contains_pair(s: &str, c1: char, c2: char) -> (r: bool)
    ensures
        r == text_has_pair(s@, c1, c2),
{
    let n = s.unicode_len();
    if n < 2 {
        return false;
    }
    let mut i: usize = 0;
    while i + 1 < n
        invariant
            0 <= i,
            i + 1 <= n,
            n == s@.len(),
            forall|j: int| 0 <= j < i ==> !(#[trigger] s@[j] == c1 && s@[j + 1] == c2),
        decreases n - i,
    {
        if s.get_char(i) == c1 && s.get_char(i + 1) == c2 {
            return true;
        }
        i = i + 1;
    }
    false
}

/// The name `k` occurs among the strings of `s`.
pub open spec fn contains_name(s: Seq<String>, k: Seq<char>) -> bool {
    exists|i: int| 0 <= i < s.len() && s[i]@ == k
}

/// Whether the name `k` occurs in the list.
pub fn name_in_list(v: &Vec<String>, k: &str) -> (r: bool)
    ensures
        r == contains_name(v@, k@),
{
    let mut i: usize = 0;
    while i < v.len()
        invariant
            0 <= i <= v@.len(),
            forall|j: int| 0 <= j < i ==> v@[j]@ != k@,
        decreases v@.len() - i,
    {
        if str_eq(v[i].as_str(), k) {
            return true;
        }
        i = i + 1;
    }
    false
}

} // verus!
