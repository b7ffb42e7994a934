//! Character-level text rules shared by the library: pattern search and
//! removal, decimal rendering, padding, whitespace and index parsing.
use vstd::prelude::*;

verus! {

/// `pat` occurs in `s` starting at position `i`.
pub open spec fn occurs_at(s: Seq<char>, pat: Seq<char>, i: int) -> bool {
    0 <= i && i + pat.len() <= s.len() && s.subrange(i, i + pat.len()) == pat
}

/// `pat` occurs somewhere in `s` (as `str::contains` decides).
pub open spec fn contains_pattern(s: Seq<char>, pat: Seq<char>) -> bool {
    exists|i: int| occurs_at(s, pat, i)
}

/// Appends one character to a string.
/// Calls `String::push`, which std documents as appending the given `char`
/// to the end of the string.
#[verifier::external_body]
pub(crate) fn push_char(s: &mut String, c: char)
    ensures
        final(s)@ == old(s)@.push(c),
{
    s.push(c);
}

/// The characters of `s`, in order.
pub fn chars_of(s: &str) -> (v: Vec<char>)
    ensures
        v@ == s@,
{
    let n = s.unicode_len();
    let mut v: Vec<char> = Vec::new();
    let mut i: usize = 0;
    while i < n
        invariant
            n == s@.len(),
            i <= n,
            v@ == s@.take(i as int),
        decreases n - i,
    {
        let c = s.get_char(i);
        v.push(c);
        i = i + 1;
        assert(v@ =~= s@.take(i as int));
    }
    assert(v@ =~= s@);
    v
}

/// Whether `pat` occurs in `s` at position `i`.
pub fn occurs_at_exec(s: &Vec<char>, pat: &Vec<char>, i: usize) -> (r: bool)
    requires
        i + pat@.len() <= s@.len(),
    ensures
        r == occurs_at(s@, pat@, i as int),
{
    let m = pat.len();
    let mut j: usize = 0;
    while j < m
        invariant
            m == pat@.len(),
            i + m <= s.len(),
            s@.len() == s.len(),
            j <= m,
            forall|k: int| 0 <= k < j ==> s@[i + k] == pat@[k],
        decreases m - j,
    {
        if s[i + j] != pat[j] {
            assert(s@.subrange(i as int, i + m)[j as int] != pat@[j as int]);
            return false;
        }
        j = j + 1;
    }
    assert(s@.subrange(i as int, i + m) =~= pat@);
    true
}

/// Whether `pat` occurs in `s`; `str::contains` with a string pattern.
pub fn contains_chars(s: &Vec<char>, pat: &Vec<char>) -> (r: bool)
    ensures
        r == contains_pattern(s@, pat@),
{
    let n = s.len();
    let m = pat.len();
    if m > n {
        return false;
    }
    let last = n - m;
    let mut i: usize = 0;
    loop
        invariant
            n == s@.len(),
            m == pat@.len(),
            last == n - m,
            i <= last,
            forall|k: int| 0 <= k < i ==> !occurs_at(s@, pat@, k),
        decreases last - i,
    {
        if occurs_at_exec(s, pat, i) {
            return true;
        }
        if i == last {
            return false;
        }
        i = i + 1;
    }
}


/// `s` with every occurrence of `pat` taken out, scanning from the left and
/// never letting two occurrences overlap (as `str::replace(pat, "")` does).
pub open spec fn remove_pattern(s: Seq<char>, pat: Seq<char>) -> Seq<char>
    recommends
        pat.len() > 0,
    decreases s.len(),
{
    if s.len() == 0 || pat.len() == 0 {
        s
    } else if occurs_at(s, pat, 0) {
        remove_pattern(s.skip(pat.len() as int), pat)
    } else {
        seq![s[0]] + remove_pattern(s.drop_first(), pat)
    }
}

/// Builds a string from characters.
pub fn string_from_chars(cs: &Vec<char>) -> (r: String)
    ensures
        r@ == cs@,
{
    let mut r = String::new();
    let mut i: usize = 0;
    while i < cs.len()
        invariant
            i <= cs@.len(),
            r@ == cs@.take(i as int),
        decreases cs@.len() - i,
    {
        push_char(&mut r, cs[i]);
        i = i + 1;
        assert(r@ =~= cs@.take(i as int));
    }
    assert(cs@.take(cs@.len() as int) =~= cs@);
    r
}

/// `s` without the occurrences of `pat`; `str::replace(pat, "")`.
pub fn remove_chars(s: &Vec<char>, pat: &Vec<char>) -> (r: Vec<char>)
    requires
        pat@.len() > 0,
    ensures
        r@ == remove_pattern(s@, pat@),
{
    let n = s.len();
    let m = pat.len();
    let mut r: Vec<char> = Vec::new();
    let mut i: usize = 0;
    assert(s@.skip(0) =~= s@);
    assert(r@ + remove_pattern(s@, pat@) =~= remove_pattern(s@, pat@));
    while i < n
        invariant
            n == s@.len(),
            m == pat@.len(),
            m > 0,
            i <= n,
            r@ + remove_pattern(s@.skip(i as int), pat@) == remove_pattern(s@, pat@),
        decreases n - i,
    {
        let ghost rest = s@.skip(i as int);
        if m <= n - i && occurs_at_exec(s, pat, i) {
            assert(rest.subrange(0, m as int) =~= s@.subrange(i as int, i + m));
            assert(rest.skip(m as int) =~= s@.skip(i + m));
            i = i + m;
        } else {
            assert(!occurs_at(rest, pat@, 0)) by {
                if i + m <= n {
                    assert(rest.subrange(0, m as int) =~= s@.subrange(i as int, i + m));
                }
            }
            assert(rest.drop_first() =~= s@.skip(i + 1));
            assert(rest[0] == s@[i as int]);
            let ghost old_r = r@;
            r.push(s[i]);
            assert(r@ + remove_pattern(s@.skip(i + 1), pat@) =~= old_r + (seq![rest[0]] + remove_pattern(rest.drop_first(), pat@)));
            i = i + 1;
        }
    }
    assert(s@.skip(n as int) =~= Seq::<char>::empty());
    assert(r@ + Seq::<char>::empty() =~= r@);
    r
}


/// The decimal digit character for `d` (below ten).
pub open spec fn digit_char(d: nat) -> char {
    (48 + d) as char
}

/// The decimal rendering of `n`, without sign or leading zeros
/// (as `Display` writes an unsigned integer).
pub open spec fn decimal(n: nat) -> Seq<char>
    decreases n,
{
    if n < 10 {
        seq![digit_char(n)]
    } else {
        decimal(n / 10).push(digit_char(n % 10))
    }
}

/// Appends the decimal rendering of `n` to `out`.
pub fn push_decimal(out: &mut String, n: usize)
    ensures
        final(out)@ == old(out)@ + decimal(n as nat),
    decreases n,
{
    if n >= 10 {
        push_decimal(out, n / 10);
    }
    let d: u8 = (n % 10) as u8;
    let c = (48u8 + d) as char;
    push_char(out, c);
    assert(out@ =~= old(out)@ + decimal(n as nat));
}

/// `s` padded with spaces on the right to at least `width` characters
/// (as the format spec `{:<width}` pads).
pub open spec fn pad_right(s: Seq<char>, width: nat) -> Seq<char> {
    if s.len() >= width {
        s
    } else {
        s + Seq::new((width - s.len()) as nat, |i: int| ' ')
    }
}

/// Appends `s` padded on the right to `width` characters.
pub fn push_padded(out: &mut String, s: &str, width: usize)
    ensures
        final(out)@ == old(out)@ + pad_right(s@, width as nat),
{
    out.append(s);
    let n = s.unicode_len();
    assert(out@ =~= old(out)@ + s@ + Seq::new(0, |i: int| ' '));
    let mut k: usize = n;
    while k < width
        invariant
            n == s@.len(),
            k == n || k <= width,
            k >= n,
            out@ == old(out)@ + s@ + Seq::new((k - n) as nat, |i: int| ' '),
        decreases width - k,
    {
        push_char(out, ' ');
        k = k + 1;
        assert(out@ =~= old(out)@ + s@ + Seq::new((k - n) as nat, |i: int| ' '));
    }
    if n >= width {
        assert(k == n);
        assert(out@ =~= old(out)@ + s@);
    }
    assert(out@ =~= old(out)@ + pad_right(s@, width as nat));
}


/// The characters with the Unicode `White_Space` property
/// (those for which `char::is_whitespace` holds).
pub open spec fn is_whitespace(c: char) -> bool {
    ||| c == '\t'
    ||| c == '\n'
    ||| c == '\u{0B}'
    ||| c == '\u{0C}'
    ||| c == '\r'
    ||| c == ' '
    ||| c == '\u{85}'
    ||| c == '\u{A0}'
    ||| c == '\u{1680}'
    ||| ('\u{2000}' <= c && c <= '\u{200A}')
    ||| c == '\u{2028}'
    ||| c == '\u{2029}'
    ||| c == '\u{202F}'
    ||| c == '\u{205F}'
    ||| c == '\u{3000}'
}

/// Whether `c` is white space; `char::is_whitespace`.
pub fn whitespace(c: char) -> (r: bool)
    ensures
        r == is_whitespace(c),
{
    c == '\t' || c == '\n' || c == '\u{0B}' || c == '\u{0C}' || c == '\r' || c == ' '
        || c == '\u{85}' || c == '\u{A0}' || c == '\u{1680}' || ('\u{2000}' <= c && c
        <= '\u{200A}') || c == '\u{2028}' || c == '\u{2029}' || c == '\u{202F}' || c
        == '\u{205F}' || c == '\u{3000}'
}

/// An ASCII decimal digit.
pub open spec fn is_digit(c: char) -> bool {
    '0' <= c && c <= '9'
}

/// The value of a decimal digit character.
pub open spec fn digit_value(c: char) -> nat {
    (c as int - 48) as nat
}

/// The value of a string of decimal digits (leading zeros allowed).
pub open spec fn digits_value(d: Seq<char>) -> nat
    decreases d.len(),
{
    if d.len() == 0 {
        0
    } else {
        digits_value(d.drop_last()) * 10 + digit_value(d.last())
    }
}

/// Every character of `d` is a decimal digit.
pub open spec fn all_digits(d: Seq<char>) -> bool {
    forall|i: int| 0 <= i < d.len() ==> is_digit(#[trigger] d[i])
}

/// The digits of a token: the token without one leading `+`.
pub open spec fn unsigned_digits(t: Seq<char>) -> Seq<char> {
    if t.len() > 0 && t[0] == '+' {
        t.drop_first()
    } else {
        t
    }
}

/// What `str::parse::<usize>` gives for `t`: an optional `+`, then at
/// least one decimal digit and nothing else, of a value that fits in `usize`.
pub open spec fn parse_usize(t: Seq<char>) -> Option<usize> {
    let d = unsigned_digits(t);
    if d.len() > 0 && all_digits(d) && digits_value(d) <= usize::MAX {
        Some(digits_value(d) as usize)
    } else {
        None
    }
}

proof fn lemma_digits_value_prefix(d: Seq<char>, k: int)
    requires
        0 <= k <= d.len(),
    ensures
        digits_value(d.take(k)) <= digits_value(d),
    decreases d.len(),
{
    if k < d.len() {
        lemma_digits_value_prefix(d.drop_last(), k);
        assert(d.drop_last().take(k) =~= d.take(k));
    } else {
        assert(d.take(k) =~= d);
    }
}

/// Parses the characters `cs[start..end]` as `str::parse::<usize>` does.
pub fn parse_usize_range(cs: &Vec<char>, start: usize, end: usize) -> (r: Option<usize>)
    requires
        start <= end <= cs@.len(),
    ensures
        r == parse_usize(cs@.subrange(start as int, end as int)),
{
    let ghost t = cs@.subrange(start as int, end as int);
    let mut from = start;
    if start < end && cs[start] == '+' {
        from = start + 1;
    }
    let ghost d = unsigned_digits(t);
    assert(d =~= cs@.subrange(from as int, end as int));
    if from == end {
        return None;
    }
    let mut value: usize = 0;
    let mut i = from;
    while i < end
        invariant
            start <= from <= i <= end <= cs@.len(),
            d == cs@.subrange(from as int, end as int),
            d == unsigned_digits(t),
            t == cs@.subrange(start as int, end as int),
            d.len() > 0,
            all_digits(d.take(i - from)),
            value as nat == digits_value(d.take(i - from)),
        decreases end - i,
    {
        let c = cs[i];
        let ghost k = i - from;
        assert(d[k] == c);
        assert(d.take(k + 1).drop_last() =~= d.take(k));
        if !('0' <= c && c <= '9') {
            assert(!all_digits(d));
            return None;
        }
        let digit: u8 = ((c as u32) - 48) as u8;
        assert(digit as nat == digit_value(c));
        match value.checked_mul(10) {
            Some(tens) => match tens.checked_add(digit as usize) {
                Some(v) => {
                    value = v;
                },
                None => {
                    proof {
                        lemma_digits_value_prefix(d, k + 1);
                    }
                    return None;
                },
            },
            None => {
                proof {
                    lemma_digits_value_prefix(d, k + 1);
                }
                return None;
            },
        }
        i = i + 1;
        assert(all_digits(d.take(i - from)));
    }
    assert(d.take(end - from) =~= d);
    Some(value)
}


/// The pieces of `s` between white space characters, empty pieces included
/// (as `str::split(char::is_whitespace)` yields them).
pub open spec fn whitespace_pieces(s: Seq<char>) -> Seq<Seq<char>>
    decreases s.len(),
{
    if s.len() == 0 {
        seq![Seq::<char>::empty()]
    } else {
        let prev = whitespace_pieces(s.drop_last());
        if is_whitespace(s.last()) {
            prev.push(Seq::<char>::empty())
        } else {
            prev.update(prev.len() - 1, prev.last().push(s.last()))
        }
    }
}

/// The values of the pieces that parse as `usize`, in order; pieces that do
/// not parse are left out.
pub open spec fn parsed_pieces(pieces: Seq<Seq<char>>) -> Seq<usize>
    decreases pieces.len(),
{
    if pieces.len() == 0 {
        Seq::<usize>::empty()
    } else {
        let rest = parsed_pieces(pieces.drop_last());
        match parse_usize(pieces.last()) {
            Some(v) => rest.push(v),
            None => rest,
        }
    }
}

/// The row indices written in `s`: its white-space separated pieces that
/// parse as `usize`.
pub open spec fn indices_of(s: Seq<char>) -> Seq<usize> {
    parsed_pieces(whitespace_pieces(s))
}

/// The indices written in `cs[start..]`, as the command line lists them.
pub fn parse_indices(cs: &Vec<char>, start: usize) -> (r: Vec<usize>)
    requires
        start <= cs@.len(),
    ensures
        r@ == indices_of(cs@.skip(start as int)),
{
    let ghost s = cs@.skip(start as int);
    let n = cs.len();
    let mut done: Vec<usize> = Vec::new();
    let mut piece_start: usize = start;
    let mut i: usize = start;
    proof {
        assert(s.take(0) =~= Seq::<char>::empty());
    }
    while i < n
        invariant
            n == cs@.len(),
            start <= piece_start <= i <= n,
            s == cs@.skip(start as int),
            whitespace_pieces(s.take(i - start)).len() >= 1,
            whitespace_pieces(s.take(i - start)).last() == cs@.subrange(piece_start as int, i as int),
            done@ == parsed_pieces(whitespace_pieces(s.take(i - start)).drop_last()),
        decreases n - i,
    {
        let ghost k = i - start;
        let ghost prev = whitespace_pieces(s.take(k));
        let ghost next = whitespace_pieces(s.take(k + 1));
        assert(s.take(k + 1).drop_last() =~= s.take(k));
        assert(s.take(k + 1).last() == cs@[i as int]);
        let c = cs[i];
        if whitespace(c) {
            assert(next == prev.push(Seq::<char>::empty()));
            assert(next.drop_last() =~= prev);
            assert(prev == prev.drop_last().push(prev.last()));
            match parse_usize_range(cs, piece_start, i) {
                Some(v) => {
                    done.push(v);
                },
                None => {},
            }
            piece_start = i + 1;
            i = i + 1;
            assert(next.last() =~= cs@.subrange(piece_start as int, i as int));
        } else {
            assert(next == prev.update(prev.len() - 1, prev.last().push(c)));
            assert(next.drop_last() =~= prev.drop_last());
            i = i + 1;
            assert(next.last() =~= cs@.subrange(piece_start as int, i as int));
        }
    }
    let ghost all = whitespace_pieces(s.take(n - start));
    assert(s.take(n - start) =~= s);
    assert(all == all.drop_last().push(all.last()));
    match parse_usize_range(cs, piece_start, n) {
        Some(v) => {
            done.push(v);
        },
        None => {},
    }
    done
}

/// Where `cs` first holds a white space character, if anywhere
/// (the split point of `str::split_once(char::is_whitespace)`).
pub fn first_whitespace(cs: &Vec<char>) -> (r: Option<usize>)
    ensures
        match r {
            Some(k) => k < cs@.len() && is_whitespace(cs@[k as int]) && forall|j: int|
                0 <= j < k ==> !is_whitespace(#[trigger] cs@[j]),
            None => forall|j: int| 0 <= j < cs@.len() ==> !is_whitespace(#[trigger] cs@[j]),
        },
{
    let mut i: usize = 0;
    while i < cs.len()
        invariant
            i <= cs@.len(),
            forall|j: int| 0 <= j < i ==> !is_whitespace(#[trigger] cs@[j]),
        decreases cs@.len() - i,
    {
        if whitespace(cs[i]) {
            return Some(i);
        }
        i = i + 1;
    }
    None
}


/// Whether two strings hold the same text.
pub fn same_text(a: &str, b: &str) -> (r: bool)
    ensures
        r == (a@ == b@),
{
    let n = a.unicode_len();
    if n != b.unicode_len() {
        return false;
    }
    let mut i: usize = 0;
    while i < n
        invariant
            n == a@.len(),
            n == b@.len(),
            i <= n,
            forall|j: int| 0 <= j < i ==> a@[j] == b@[j],
        decreases n - i,
    {
        if a.get_char(i) != b.get_char(i) {
            return false;
        }
        i = i + 1;
    }
    assert(a@ =~= b@);
    true
}


/// The numbers `ns` written in decimal, separated by single spaces.
pub open spec fn spaced(ns: Seq<usize>) -> Seq<char>
    decreases ns.len(),
{
    if ns.len() == 0 {
        Seq::<char>::empty()
    } else if ns.len() == 1 {
        decimal(ns[0] as nat)
    } else {
        spaced(ns.drop_last()) + seq![' '] + decimal(ns.last() as nat)
    }
}

proof fn lemma_digit_char(d: nat)
    requires
        d < 10,
    ensures
        is_digit(digit_char(d)),
        digit_value(digit_char(d)) == d,
        !is_whitespace(digit_char(d)),
{
}

/// The decimal rendering of a number is a non-empty run of digits whose
/// value is the number.
pub proof fn lemma_decimal_digits(n: nat)
    ensures
        decimal(n).len() > 0,
        all_digits(decimal(n)),
        digits_value(decimal(n)) == n,
        forall|i: int| 0 <= i < decimal(n).len() ==> !is_whitespace(#[trigger] decimal(n)[i]),
    decreases n,
{
    if n < 10 {
        lemma_digit_char(n);
        let d = decimal(n);
        assert(d.drop_last() =~= Seq::<char>::empty());
        assert(digits_value(d) == digits_value(d.drop_last()) * 10 + digit_value(d.last()));
    } else {
        lemma_decimal_digits(n / 10);
        lemma_digit_char(n % 10);
        let d = decimal(n);
        assert(d.drop_last() =~= decimal(n / 10));
        assert(d.last() == digit_char(n % 10));
        assert((n / 10) * 10 + n % 10 == n);
        assert(digits_value(d) == digits_value(d.drop_last()) * 10 + digit_value(d.last()));
        assert(all_digits(d)) by {
            assert forall|i: int| 0 <= i < d.len() implies is_digit(#[trigger] d[i]) by {
                if i < d.len() - 1 {
                    assert(d[i] == decimal(n / 10)[i]);
                }
            }
        }
        assert forall|i: int| 0 <= i < d.len() implies !is_whitespace(#[trigger] d[i]) by {
            if i < d.len() - 1 {
                assert(d[i] == decimal(n / 10)[i]);
            }
        }
    }
}

/// Parsing the decimal rendering of a `usize` gives the number back.
pub proof fn lemma_parse_decimal(n: usize)
    ensures
        parse_usize(decimal(n as nat)) == Some(n),
{
    lemma_decimal_digits(n as nat);
    let d = decimal(n as nat);
    assert(is_digit(d[0]));
    assert(unsigned_digits(d) == d);
}

proof fn lemma_pieces_len(s: Seq<char>)
    ensures
        whitespace_pieces(s).len() >= 1,
    decreases s.len(),
{
    if s.len() > 0 {
        lemma_pieces_len(s.drop_last());
    }
}

/// Appending text without white space extends the last piece by it.
proof fn lemma_pieces_append_word(s: Seq<char>, w: Seq<char>)
    requires
        forall|i: int| 0 <= i < w.len() ==> !is_whitespace(#[trigger] w[i]),
    ensures
        whitespace_pieces(s + w) == whitespace_pieces(s).update(
            whitespace_pieces(s).len() - 1,
            whitespace_pieces(s).last() + w,
        ),
    decreases w.len(),
{
    lemma_pieces_len(s);
    let p = whitespace_pieces(s);
    if w.len() == 0 {
        assert(s + w =~= s);
        assert(p.last() + w =~= p.last());
        assert(p.update(p.len() - 1, p.last()) =~= p);
    } else {
        let w0 = w.drop_last();
        lemma_pieces_append_word(s, w0);
        lemma_pieces_len(s + w0);
        assert((s + w).drop_last() =~= s + w0);
        assert((s + w).last() == w.last());
        assert(!is_whitespace(w[w.len() - 1]));
        let q = whitespace_pieces(s + w0);
        assert(q == p.update(p.len() - 1, p.last() + w0));
        assert(q.last() == p.last() + w0);
        assert((p.last() + w0).push(w.last()) =~= p.last() + w);
        assert(q.update(q.len() - 1, q.last().push(w.last())) =~= p.update(p.len() - 1, p.last() + w));
    }
}

/// Numbers written in decimal and separated by single spaces are read back
/// as the same numbers, in order.
pub proof fn lemma_indices_of_spaced(ns: Seq<usize>)
    ensures
        indices_of(spaced(ns)) == ns,
{
    if ns.len() == 0 {
        assert(whitespace_pieces(Seq::<char>::empty()) == seq![Seq::<char>::empty()]);
        assert(seq![Seq::<char>::empty()].drop_last() =~= Seq::<Seq<char>>::empty());
        assert(parse_usize(Seq::<char>::empty()) is None);
        assert(ns =~= Seq::<usize>::empty());
        assert(spaced(ns) == Seq::<char>::empty());
        let p = seq![Seq::<char>::empty()];
        assert(parsed_pieces(p) == parsed_pieces(p.drop_last()));
        assert(parsed_pieces(p.drop_last()) == Seq::<usize>::empty());
    } else {
        lemma_spaced_pieces(ns);
        lemma_parsed_decimals(ns);
        assert(indices_of(spaced(ns)) == parsed_pieces(whitespace_pieces(spaced(ns))));
    }
}

/// The pieces of numbers written with single spaces are their renderings.
proof fn lemma_spaced_pieces(ns: Seq<usize>)
    requires
        ns.len() > 0,
    ensures
        whitespace_pieces(spaced(ns)) == Seq::new(ns.len(), |i: int| decimal(ns[i] as nat)),
    decreases ns.len(),
{
    let last = ns.last();
    lemma_decimal_digits(last as nat);
    if ns.len() == 1 {
        assert(Seq::<char>::empty() + decimal(ns[0] as nat) =~= spaced(ns));
        lemma_pieces_append_word(Seq::<char>::empty(), decimal(ns[0] as nat));
        assert(whitespace_pieces(Seq::<char>::empty()) == seq![Seq::<char>::empty()]);
        assert(Seq::<char>::empty() + decimal(ns[0] as nat) =~= decimal(ns[0] as nat));
        assert(whitespace_pieces(spaced(ns)) =~= Seq::new(ns.len(), |i: int| decimal(ns[i] as nat)));
    } else {
        let prefix = ns.drop_last();
        lemma_spaced_pieces(prefix);
        let sp = spaced(prefix) + seq![' '];
        assert(sp.drop_last() =~= spaced(prefix));
        assert(sp.last() == ' ');
        let p = whitespace_pieces(spaced(prefix));
        assert(whitespace_pieces(sp) == p.push(Seq::<char>::empty()));
        lemma_pieces_append_word(sp, decimal(last as nat));
        assert(Seq::<char>::empty() + decimal(last as nat) =~= decimal(last as nat));
        assert(whitespace_pieces(spaced(ns)) =~= Seq::new(ns.len(), |i: int| decimal(ns[i] as nat)));
    }
}

proof fn lemma_parsed_decimals(ns: Seq<usize>)
    ensures
        parsed_pieces(Seq::new(ns.len(), |i: int| decimal(ns[i] as nat))) == ns,
    decreases ns.len(),
{
    let pieces = Seq::new(ns.len(), |i: int| decimal(ns[i] as nat));
    if ns.len() == 0 {
        assert(ns =~= Seq::<usize>::empty());
    } else {
        let prefix = ns.drop_last();
        lemma_parsed_decimals(prefix);
        assert(pieces.drop_last() =~= Seq::new(prefix.len(), |i: int| decimal(prefix[i] as nat)));
        lemma_parse_decimal(ns.last());
        assert(pieces.last() == decimal(ns.last() as nat));
        assert(prefix.push(ns.last()) =~= ns);
    }
}

} // verus!
