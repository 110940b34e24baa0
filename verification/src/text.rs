//! Character classes and small string operations shared by the parsers.

use vstd::prelude::*;

verus! {

/// `String::push` appends one character to the end of the string.
pub assume_specification[ String::push ](s: &mut String, c: char)
    ensures
        final(s)@ == old(s)@.push(c),
;

/// The characters of `s`, in order.
pub fn to_chars(s: &str) -> (r: Vec<char>)
    ensures
        r@ == s@,
{
    let mut out: Vec<char> = Vec::new();
    for c in it: s.chars()
        invariant
            out@ == it.seq().take(it.index()),
            it.seq() == s@,
    {
        out.push(c);
    }
    out
}

/// The string made of the characters `v`, in order.
pub fn from_chars(v: &Vec<char>) -> (r: String)
    ensures
        r@ == v@,
{
    let mut out = String::new();
    let mut i: usize = 0;
    while i < v.len()
        invariant
            i <= v.len(),
            out@ == v@.take(i as int),
        decreases v.len() - i,
    {
        out.push(v[i]);
        i += 1;
    }
    out
}

/// The code points with the Unicode `White_Space` property.
pub open spec fn is_whitespace(c: char) -> bool {
    let n = c as u32;
    (0x09 <= n && n <= 0x0D) || n == 0x20 || n == 0x85 || n == 0xA0 || n == 0x1680 || (0x2000 <= n
        && n <= 0x200A) || n == 0x2028 || n == 0x2029 || n == 0x202F || n == 0x205F || n == 0x3000
}

/// Whether `c` is white space in the sense of [`is_whitespace`].
pub fn char_is_whitespace(c: char) -> (r: bool)
    ensures
        r == is_whitespace(c),
{
    let n: u32 = c as u32;
    (0x09 <= n && n <= 0x0D) || n == 0x20 || n == 0x85 || n == 0xA0 || n == 0x1680 || (0x2000 <= n
        && n <= 0x200A) || n == 0x2028 || n == 0x2029 || n == 0x202F || n == 0x205F || n == 0x3000
}

/// The strings `v` as plain sequences of characters.
pub open spec fn strings_view(v: Seq<String>) -> Seq<Seq<char>> {
    v.map_values(|s: String| s@)
}

/// Pairs of strings as plain sequences of characters.
pub open spec fn pairs_view(pairs: Seq<(String, String)>) -> Seq<(Seq<char>, Seq<char>)> {
    pairs.map_values(|p: (String, String)| (p.0@, p.1@))
}

/// Whether `a` and `b` hold the same characters.
pub fn same_text(a: &str, b: &str) -> (r: bool)
    ensures
        r == (a@ == b@),
{
    a.to_owned() == b.to_owned()
}

/// `a` followed by `b`.
pub fn join_text(a: &str, b: &str) -> (r: String)
    ensures
        r@ == a@ + b@,
{
    let mut out = String::from_str(a);
    out.append(b);
    out
}

/// The characters of `v` from position `from` up to, not including, `to`.
pub fn substring(v: &Vec<char>, from: usize, to: usize) -> (r: String)
    requires
        from <= to <= v.len(),
    ensures
        r@ == v@.subrange(from as int, to as int),
{
    let mut out = String::new();
    let mut i: usize = from;
    while i < to
        invariant
            from <= i <= to <= v.len(),
            out@ == v@.subrange(from as int, i as int),
        decreases to - i,
    {
        out.push(v[i]);
        assert(v@.subrange(from as int, i + 1) =~= v@.subrange(from as int, i as int).push(
            v@[i as int],
        ));
        i += 1;
    }
    out
}

/// The first position at or after `i` that holds no white space, or the
/// length of `s` where only white space follows.
pub open spec fn skip_whitespace(s: Seq<char>, i: int) -> int
    decreases s.len() - i,
{
    if 0 <= i < s.len() && is_whitespace(s[i]) {
        skip_whitespace(s, i + 1)
    } else {
        i
    }
}

/// The first position at or after `i` that holds white space, or the length
/// of `s` where none follows.
pub open spec fn skip_word(s: Seq<char>, i: int) -> int
    decreases s.len() - i,
{
    if 0 <= i < s.len() && !is_whitespace(s[i]) {
        skip_word(s, i + 1)
    } else {
        i
    }
}

/// The bounds of the word of `s` that comes after `n` other words, looking
/// from position `i` on. A word is a longest run of characters that are no
/// white space.
pub open spec fn nth_word(s: Seq<char>, i: int, n: nat) -> Option<(int, int)>
    decreases n,
{
    let start = skip_whitespace(s, i);
    if start >= s.len() {
        None
    } else if n == 0 {
        Some((start, skip_word(s, start)))
    } else {
        nth_word(s, skip_word(s, start), (n - 1) as nat)
    }
}

/// [`skip_whitespace`] stays inside the text and passes white space only.
pub proof fn lemma_skip_whitespace(s: Seq<char>, i: int)
    requires
        0 <= i <= s.len(),
    ensures
        i <= skip_whitespace(s, i) <= s.len(),
        forall|k: int| i <= k < skip_whitespace(s, i) ==> is_whitespace(#[trigger] s[k]),
        skip_whitespace(s, i) < s.len() ==> !is_whitespace(s[skip_whitespace(s, i)]),
    decreases s.len() - i,
{
    if i < s.len() && is_whitespace(s[i]) {
        lemma_skip_whitespace(s, i + 1);
    }
}

/// [`skip_word`] stays inside the text and passes no white space.
pub proof fn lemma_skip_word(s: Seq<char>, i: int)
    requires
        0 <= i <= s.len(),
    ensures
        i <= skip_word(s, i) <= s.len(),
        forall|k: int| i <= k < skip_word(s, i) ==> !is_whitespace(#[trigger] s[k]),
        skip_word(s, i) < s.len() ==> is_whitespace(s[skip_word(s, i)]),
        i < s.len() && !is_whitespace(s[i]) ==> i < skip_word(s, i),
    decreases s.len() - i,
{
    if i < s.len() && !is_whitespace(s[i]) {
        lemma_skip_word(s, i + 1);
    }
}

/// Computes [`skip_whitespace`].
pub fn find_word_start(v: &Vec<char>, i: usize) -> (r: usize)
    requires
        i <= v.len(),
    ensures
        r == skip_whitespace(v@, i as int),
        i <= r <= v.len(),
{
    let mut j: usize = i;
    while j < v.len() && char_is_whitespace(v[j])
        invariant
            i <= j <= v.len(),
            skip_whitespace(v@, i as int) == skip_whitespace(v@, j as int),
        decreases v.len() - j,
    {
        j += 1;
    }
    j
}

/// Computes [`skip_word`].
pub fn find_word_end(v: &Vec<char>, i: usize) -> (r: usize)
    requires
        i <= v.len(),
    ensures
        r == skip_word(v@, i as int),
        i <= r <= v.len(),
{
    let mut j: usize = i;
    while j < v.len() && !char_is_whitespace(v[j])
        invariant
            i <= j <= v.len(),
            skip_word(v@, i as int) == skip_word(v@, j as int),
        decreases v.len() - j,
    {
        j += 1;
    }
    j
}

/// Computes [`nth_word`].
pub fn find_nth_word(v: &Vec<char>, i: usize, n: usize) -> (r: Option<(usize, usize)>)
    requires
        i <= v.len(),
    ensures
        match r {
            Some((a, b)) => nth_word(v@, i as int, n as nat) == Some((a as int, b as int)) && a < b
                <= v.len(),
            None => nth_word(v@, i as int, n as nat) is None,
        },
{
    let mut from: usize = i;
    let mut left: usize = n;
    loop
        invariant
            from <= v.len(),
            left <= n,
            nth_word(v@, i as int, n as nat) == nth_word(v@, from as int, left as nat),
        decreases left,
    {
        let start = find_word_start(v, from);
        if start >= v.len() {
            return None;
        }
        let end = find_word_end(v, start);
        proof {
            lemma_skip_whitespace(v@, from as int);
            lemma_skip_word(v@, start as int);
        }
        if left == 0 {
            return Some((start, end));
        }
        from = end;
        left -= 1;
    }
}

/// The decimal digit that stands for `d`, for `d` below ten.
pub open spec fn digit(d: nat) -> char {
    if d == 0 {
        '0'
    } else if d == 1 {
        '1'
    } else if d == 2 {
        '2'
    } else if d == 3 {
        '3'
    } else if d == 4 {
        '4'
    } else if d == 5 {
        '5'
    } else if d == 6 {
        '6'
    } else if d == 7 {
        '7'
    } else if d == 8 {
        '8'
    } else {
        '9'
    }
}

/// The decimal numeral of `n`, without leading zeros.
pub open spec fn decimal(n: nat) -> Seq<char>
    decreases n,
{
    if n < 10 {
        seq![digit(n)]
    } else {
        decimal(n / 10).push(digit(n % 10))
    }
}

/// Computes [`digit`].
pub fn digit_char(d: usize) -> (c: char)
    requires
        d < 10,
    ensures
        c == digit(d as nat),
{
    if d == 0 {
        '0'
    } else if d == 1 {
        '1'
    } else if d == 2 {
        '2'
    } else if d == 3 {
        '3'
    } else if d == 4 {
        '4'
    } else if d == 5 {
        '5'
    } else if d == 6 {
        '6'
    } else if d == 7 {
        '7'
    } else if d == 8 {
        '8'
    } else {
        '9'
    }
}

/// Computes [`decimal`].
pub fn decimal_string(n: usize) -> (r: String)
    ensures
        r@ == decimal(n as nat),
    decreases n,
{
    if n < 10 {
        let mut out = String::new();
        out.push(digit_char(n));
        assert(out@ =~= seq![digit(n as nat)]);
        out
    } else {
        let mut out = decimal_string(n / 10);
        out.push(digit_char(n % 10));
        out
    }
}

/// The length of the first `n` characters of `s` once white space at their
/// end is dropped.
pub open spec fn trimmed_end(s: Seq<char>, n: int) -> int
    decreases n,
{
    if 0 < n <= s.len() && is_whitespace(s[n - 1]) {
        trimmed_end(s, n - 1)
    } else {
        n
    }
}

/// `s` without the white space at its two ends.
pub open spec fn trimmed(s: Seq<char>) -> Seq<char> {
    let end = trimmed_end(s, s.len() as int);
    let start = skip_whitespace(s.take(end), 0);
    s.subrange(start, end)
}

/// Drops the white space at the two ends of `text`.
pub fn trim(text: &str) -> (r: String)
    ensures
        r@ == trimmed(text@),
{
    let mut chars = to_chars(text);
    let mut end: usize = chars.len();
    while end > 0 && char_is_whitespace(chars[end - 1])
        invariant
            end <= chars.len(),
            chars@ == text@,
            trimmed_end(text@, text@.len() as int) == trimmed_end(text@, end as int),
        decreases end,
    {
        end -= 1;
    }
    chars.truncate(end);
    let start = find_word_start(&chars, 0);
    assert(chars@.subrange(start as int, end as int) =~= text@.subrange(start as int, end as int));
    substring(&chars, start, end)
}

/// The pieces into which the separator `sep` cuts the first `n` characters
/// of `s`. There is always at least one piece; it is empty where `s` is.
pub open spec fn split_prefix(s: Seq<char>, sep: char, n: int) -> Seq<Seq<char>>
    decreases n,
{
    if n <= 0 {
        seq![Seq::empty()]
    } else {
        let earlier = split_prefix(s, sep, n - 1);
        if s[n - 1] == sep {
            earlier.push(Seq::empty())
        } else {
            earlier.update(earlier.len() - 1, earlier.last().push(s[n - 1]))
        }
    }
}

/// The pieces into which the separator `sep` cuts `s`.
pub open spec fn split_on(s: Seq<char>, sep: char) -> Seq<Seq<char>> {
    split_prefix(s, sep, s.len() as int)
}

/// [`split_prefix`] gives at least one piece.
pub proof fn lemma_split_prefix(s: Seq<char>, sep: char, n: int)
    ensures
        split_prefix(s, sep, n).len() >= 1,
    decreases n,
{
    if n > 0 {
        lemma_split_prefix(s, sep, n - 1);
    }
}

/// Cuts `text` at every `sep`.
pub fn split(text: &str, sep: char) -> (r: Vec<String>)
    ensures
        strings_view(r@) == split_on(text@, sep),
{
    let chars = to_chars(text);
    let mut pieces: Vec<String> = Vec::new();
    let mut piece = String::new();
    let mut i: usize = 0;
    proof {
        assert(strings_view(pieces@).push(piece@) =~= split_prefix(text@, sep, 0));
    }
    while i < chars.len()
        invariant
            i <= chars.len(),
            chars@ == text@,
            strings_view(pieces@).push(piece@) == split_prefix(text@, sep, i as int),
        decreases chars.len() - i,
    {
        let ghost before = strings_view(pieces@);
        let ghost current = piece@;
        let c = chars[i];
        if c == sep {
            pieces.push(piece);
            piece = String::new();
            assert(strings_view(pieces@) =~= before.push(current));
        } else {
            piece.push(c);
            assert(before.push(piece@) =~= before.push(current).update(
                before.len() as int,
                current.push(c),
            ));
        }
        i += 1;
    }
    let ghost before = strings_view(pieces@);
    let ghost last = piece@;
    pieces.push(piece);
    assert(strings_view(pieces@) =~= before.push(last));
    pieces
}

/// Whether `s` begins with `prefix`.
pub open spec fn begins_with(s: Seq<char>, prefix: Seq<char>) -> bool {
    prefix.len() <= s.len() && s.take(prefix.len() as int) == prefix
}

/// Whether `s` ends with `suffix`.
pub open spec fn finishes_with(s: Seq<char>, suffix: Seq<char>) -> bool {
    suffix.len() <= s.len() && s.skip(s.len() - suffix.len()) == suffix
}

/// Whether `pattern` occurs in `s` at position `i`.
pub open spec fn occurs_at(s: Seq<char>, pattern: Seq<char>, i: int) -> bool {
    0 <= i && i + pattern.len() <= s.len() && s.subrange(i, i + pattern.len()) == pattern
}

/// Whether the characters `pattern` occur in `v` at position `i`.
pub fn found_at(v: &Vec<char>, pattern: &Vec<char>, i: usize) -> (r: bool)
    ensures
        r == occurs_at(v@, pattern@, i as int),
{
    if pattern.len() > v.len() || i > v.len() - pattern.len() {
        return false;
    }
    let mut k: usize = 0;
    while k < pattern.len()
        invariant
            k <= pattern.len(),
            i + pattern.len() <= v.len(),
            v@.subrange(i as int, i + k) == pattern@.take(k as int),
        decreases pattern.len() - k,
    {
        if v[i + k] != pattern[k] {
            assert(v@.subrange(i as int, i + pattern.len())[k as int] != pattern@[k as int]);
            return false;
        }
        assert(v@.subrange(i as int, i + k + 1) =~= v@.subrange(i as int, i + k).push(
            v@[i + k],
        ));
        assert(pattern@.take(k + 1) =~= pattern@.take(k as int).push(pattern@[k as int]));
        k += 1;
    }
    assert(pattern@.take(pattern.len() as int) =~= pattern@);
    true
}

/// Whether `text` begins with `prefix`.
pub fn starts_with(text: &str, prefix: &str) -> (r: bool)
    ensures
        r == begins_with(text@, prefix@),
{
    let v = to_chars(text);
    let p = to_chars(prefix);
    if p.len() > v.len() {
        return false;
    }
    assert(v@.subrange(0, 0 + p@.len() as int) =~= v@.take(p@.len() as int));
    found_at(&v, &p, 0)
}

/// `s` from position `i` on, with every occurrence of `pattern` replaced by
/// `with`, reading from left to right; occurrences do not overlap, and an
/// empty pattern occurs nowhere.
pub open spec fn replaced_from(s: Seq<char>, pattern: Seq<char>, with: Seq<char>, i: int) -> Seq<
    char,
>
    decreases s.len() - i,
{
    if i < 0 || i >= s.len() {
        Seq::empty()
    } else if pattern.len() > 0 && occurs_at(s, pattern, i) {
        with + replaced_from(s, pattern, with, i + pattern.len())
    } else {
        seq![s[i]] + replaced_from(s, pattern, with, i + 1)
    }
}

/// `s` with every occurrence of `pattern` replaced by `with`.
pub open spec fn replaced(s: Seq<char>, pattern: Seq<char>, with: Seq<char>) -> Seq<char> {
    replaced_from(s, pattern, with, 0)
}

/// Replaces every occurrence of `pattern` in `text` by `with`.
pub fn replace(text: &str, pattern: &str, with: &str) -> (r: String)
    ensures
        r@ == replaced(text@, pattern@, with@),
{
    let v = to_chars(text);
    let p = to_chars(pattern);
    let mut out = String::new();
    let mut i: usize = 0;
    while i < v.len()
        invariant
            i <= v.len(),
            v@ == text@,
            p@ == pattern@,
            replaced(text@, pattern@, with@) == out@ + replaced_from(
                text@,
                pattern@,
                with@,
                i as int,
            ),
        decreases v.len() - i,
    {
        let ghost before = out@;
        if p.len() > 0 && found_at(&v, &p, i) {
            out.append(with);
            assert(out@ + replaced_from(text@, pattern@, with@, i + p.len()) =~= before + (with@
                + replaced_from(text@, pattern@, with@, i + p.len())));
            i += p.len();
        } else {
            out.push(v[i]);
            assert(out@ + replaced_from(text@, pattern@, with@, i + 1) =~= before + (seq![
                text@[i as int],
            ] + replaced_from(text@, pattern@, with@, i + 1)));
            i += 1;
        }
    }
    assert(out@ + Seq::<char>::empty() =~= out@);
    out
}

/// `piece` without a carriage return at its end.
pub open spec fn without_carriage_return(piece: Seq<char>) -> Seq<char> {
    if piece.len() > 0 && piece.last() == '\r' {
        piece.drop_last()
    } else {
        piece
    }
}

/// The lines of `s`: the pieces between its line feeds, each without a
/// carriage return before the line feed; what follows the last line feed is
/// a line only where it is not empty.
pub open spec fn lines_of(s: Seq<char>) -> Seq<Seq<char>> {
    let pieces = split_on(s, '\n');
    let ended = pieces.drop_last().map_values(|p: Seq<char>| without_carriage_return(p));
    if pieces.last().len() > 0 {
        ended.push(pieces.last())
    } else {
        ended
    }
}

/// The lines of `text`.
pub fn lines(text: &str) -> (r: Vec<String>)
    ensures
        strings_view(r@) == lines_of(text@),
{
    let mut pieces = split(text, '\n');
    proof {
        lemma_split_prefix(text@, '\n', text@.len() as int);
    }
    let ghost model = strings_view(pieces@);
    let last = pieces.pop();
    let ghost ended = model.drop_last().map_values(|p: Seq<char>| without_carriage_return(p));
    assert(strings_view(pieces@) =~= model.drop_last());
    let mut out: Vec<String> = Vec::new();
    let mut i: usize = 0;
    while i < pieces.len()
        invariant
            i <= pieces.len(),
            strings_view(pieces@) == model.drop_last(),
            ended == model.drop_last().map_values(|p: Seq<char>| without_carriage_return(p)),
            strings_view(out@) == ended.take(i as int),
        decreases pieces.len() - i,
    {
        let ghost before = strings_view(out@);
        let chars = to_chars(pieces[i].as_str());
        assert(chars@ == model.drop_last()[i as int]);
        let n = chars.len();
        let line = if n > 0 && chars[n - 1] == '\r' {
            let l = substring(&chars, 0, n - 1);
            assert(chars@.subrange(0, n - 1) =~= chars@.drop_last());
            l
        } else {
            from_chars(&chars)
        };
        out.push(line);
        assert(strings_view(out@) =~= before.push(line@));
        assert(ended.take(i + 1) =~= ended.take(i as int).push(ended[i as int]));
        i += 1;
    }
    assert(ended.take(pieces.len() as int) =~= ended);
    match last {
        Some(piece) => {
            assert(piece@ == model.last());
            if piece.as_str().unicode_len() > 0 {
                let ghost before = strings_view(out@);
                out.push(piece);
                assert(strings_view(out@) =~= before.push(model.last()));
            }
        },
        None => {},
    }
    out
}

/// Whether `a` comes before `b` in the order of the dictionary, character by
/// character.
pub open spec fn text_less(a: Seq<char>, b: Seq<char>) -> bool
    decreases a.len(),
{
    if b.len() == 0 {
        false
    } else if a.len() == 0 {
        true
    } else if a[0] != b[0] {
        a[0] < b[0]
    } else {
        text_less(a.drop_first(), b.drop_first())
    }
}

/// Whether `a` comes before `b` in the order of the dictionary.
pub fn comes_before(a: &str, b: &str) -> (r: bool)
    ensures
        r == text_less(a@, b@),
{
    let x = to_chars(a);
    let y = to_chars(b);
    let mut i: usize = 0;
    proof {
        assert(a@.skip(0) =~= a@);
        assert(b@.skip(0) =~= b@);
    }
    while i < x.len() && i < y.len()
        invariant
            i <= x.len(),
            i <= y.len(),
            x@ == a@,
            y@ == b@,
            text_less(a@, b@) == text_less(a@.skip(i as int), b@.skip(i as int)),
        decreases x.len() - i,
    {
        proof {
            assert(a@.skip(i as int)[0] == a@[i as int]);
            assert(b@.skip(i as int)[0] == b@[i as int]);
            assert(a@.skip(i as int).drop_first() =~= a@.skip(i + 1));
            assert(b@.skip(i as int).drop_first() =~= b@.skip(i + 1));
        }
        if x[i] != y[i] {
            return x[i] < y[i];
        }
        i += 1;
    }
    proof {
        assert(a@.skip(i as int).len() == a@.len() - i);
        assert(b@.skip(i as int).len() == b@.len() - i);
    }
    i < y.len()
}

/// The order of the dictionary is transitive.
pub proof fn lemma_text_less_transitive(a: Seq<char>, b: Seq<char>, c: Seq<char>)
    requires
        text_less(a, b),
        text_less(b, c),
    ensures
        text_less(a, c),
    decreases a.len(),
{
    if a.len() > 0 && a[0] == b[0] && b[0] == c[0] {
        lemma_text_less_transitive(a.drop_first(), b.drop_first(), c.drop_first());
    }
}

/// No text comes before itself.
pub proof fn lemma_text_less_irreflexive(a: Seq<char>)
    ensures
        !text_less(a, a),
    decreases a.len(),
{
    if a.len() > 0 {
        lemma_text_less_irreflexive(a.drop_first());
    }
}

} // verus!
