//! Text as sequences of characters: the spec functions that the contracts of
//! this crate speak of, and the executable helpers that compute them.

use vstd::prelude::*;
use vstd::string::StringExecFns;

verus! {

/// Appends one character to a string.
///
/// Trusted: calls `String::push`, which appends the given `char` to the end
/// of the string.
#[verifier::external_body]
pub(crate) fn push_char(s: &mut String, c: char)
    ensures
        final(s)@ == old(s)@.push(c),
{
    s.push(c)
}

/// The characters of a string, in order.
pub fn chars_of(s: &str) -> (r: Vec<char>)
    ensures
        r@ == s@,
{
    let mut r: Vec<char> = Vec::new();
    for c in it: s.chars()
        invariant
            r@ == it.seq().take(it.index()),
            it.seq() == s@,
    {
        r.push(c);
    }
    r
}

/// The string made of the characters `v[from..to]`.
pub fn string_of_range(v: &Vec<char>, from: usize, to: usize) -> (r: String)
    requires
        from <= to <= v.len(),
    ensures
        r@ == v@.subrange(from as int, to as int),
{
    let mut r = String::new();
    let mut i: usize = from;
    while i < to
        invariant
            from <= i <= to <= v.len(),
            r@ == v@.subrange(from as int, i as int),
        decreases to - i,
    {
        push_char(&mut r, v[i]);
        i += 1;
    }
    r
}

/// The string made of the given characters.
pub fn string_of(v: &Vec<char>) -> (r: String)
    ensures
        r@ == v@,
{
    let r = string_of_range(v, 0, v.len());
    assert(v@.subrange(0, v.len() as int) == v@);
    r
}

/// Index of the first `c` in `s`, or the length of `s` where it has none.
pub open spec fn first_index(s: Seq<char>, c: char) -> int
    decreases s.len(),
{
    if s.len() == 0 || s[0] == c {
        0
    } else {
        1 + first_index(s.drop_first(), c)
    }
}

/// `first_index` is the least position that holds `c`.
pub proof fn lemma_first_index(s: Seq<char>, c: char)
    ensures
        0 <= first_index(s, c) <= s.len(),
        forall|j: int| 0 <= j < first_index(s, c) ==> s[j] != c,
        first_index(s, c) < s.len() ==> s[first_index(s, c)] == c,
        first_index(s, c) == s.len() <==> !s.contains(c),
    decreases s.len(),
{
    if s.len() == 0 || s[0] == c {
    } else {
        let t = s.drop_first();
        lemma_first_index(t, c);
        assert forall|j: int| 0 <= j < first_index(s, c) implies s[j] != c by {
            if j > 0 {
                assert(s[j] == t[j - 1]);
            }
        }
        if first_index(s, c) < s.len() {
            assert(s[first_index(s, c)] == t[first_index(t, c)]);
        }
        if t.contains(c) {
            let k = choose|k: int| 0 <= k < t.len() && t[k] == c;
            assert(s[k + 1] == c);
        }
        if s.contains(c) {
            let k = choose|k: int| 0 <= k < s.len() && s[k] == c;
            assert(t[k - 1] == c);
        }
    }
}

/// A position that holds the first `c` is `first_index`.
pub proof fn lemma_first_index_at(s: Seq<char>, c: char, i: int)
    requires
        0 <= i <= s.len(),
        forall|j: int| 0 <= j < i ==> s[j] != c,
        i < s.len() ==> s[i] == c,
    ensures
        first_index(s, c) == i,
{
    lemma_first_index(s, c);
}

/// The pieces of `s` between occurrences of `sep`; a text without `sep` is
/// one piece, and so is the empty text.
pub open spec fn split(s: Seq<char>, sep: char) -> Seq<Seq<char>>
    decreases s.len(),
{
    let i = first_index(s, sep);
    if 0 <= i < s.len() {
        seq![s.take(i)] + split(s.skip(i + 1), sep)
    } else {
        seq![s]
    }
}

/// Each of `parts` followed by `sep`, one after the other.
pub open spec fn terminated(parts: Seq<Seq<char>>, sep: char) -> Seq<char>
    decreases parts.len(),
{
    if parts.len() == 0 {
        Seq::empty()
    } else {
        terminated(parts.drop_last(), sep) + parts.last().push(sep)
    }
}

/// `parts` with `sep` between each two neighbours.
pub open spec fn join(parts: Seq<Seq<char>>, sep: Seq<char>) -> Seq<char>
    decreases parts.len(),
{
    if parts.len() == 0 {
        Seq::empty()
    } else if parts.len() == 1 {
        parts[0]
    } else {
        join(parts.drop_last(), sep) + sep + parts.last()
    }
}

/// The non-empty pieces of `parts`, each kept where it first occurs.
pub open spec fn tokens(parts: Seq<Seq<char>>) -> Seq<Seq<char>>
    decreases parts.len(),
{
    if parts.len() == 0 {
        Seq::empty()
    } else {
        let before = tokens(parts.drop_last());
        let p = parts.last();
        if p.len() == 0 || before.contains(p) {
            before
        } else {
            before.push(p)
        }
    }
}

/// No piece is empty, none occurs twice and none holds `sep` or `\n`.
pub open spec fn are_tokens(parts: Seq<Seq<char>>, sep: char) -> bool {
    &&& forall|i: int| 0 <= i < parts.len() ==> (#[trigger] parts[i]).len() > 0
    &&& forall|i: int| 0 <= i < parts.len() ==> !(#[trigger] parts[i]).contains(sep)
    &&& forall|i: int| 0 <= i < parts.len() ==> !(#[trigger] parts[i]).contains('\n')
    &&& forall|i: int, j: int| 0 <= i < j < parts.len() ==> parts[i] != parts[j]
}

/// The views of stored strings, in order.
pub open spec fn views(v: Seq<String>) -> Seq<Seq<char>> {
    Seq::new(v.len(), |i: int| v[i]@)
}

/// The view of a string that may be missing.
pub open spec fn opt_view(o: Option<String>) -> Option<Seq<char>> {
    match o {
        Some(s) => Some(s@),
        None => None,
    }
}

/// The view of a string slice that may be missing.
pub open spec fn opt_str_view(o: Option<&str>) -> Option<Seq<char>> {
    match o {
        Some(s) => Some(s@),
        None => None,
    }
}

/// The views of stored character vectors, in order.
pub open spec fn char_views(v: Seq<Vec<char>>) -> Seq<Seq<char>> {
    Seq::new(v.len(), |i: int| v[i]@)
}

/// Splitting a text that starts with a piece free of `sep`, followed by
/// `sep`, gives that piece and then the pieces of the rest.
pub proof fn lemma_split_first(piece: Seq<char>, rest: Seq<char>, sep: char)
    requires
        !piece.contains(sep),
    ensures
        split(piece.push(sep) + rest, sep) == seq![piece] + split(rest, sep),
{
    let s = piece.push(sep) + rest;
    assert(s[piece.len() as int] == sep);
    assert forall|j: int| 0 <= j < piece.len() implies s[j] != sep by {
        assert(s[j] == piece[j]);
    }
    lemma_first_index_at(s, sep, piece.len() as int);
    assert(s.take(piece.len() as int) == piece);
    assert(s.skip(piece.len() as int + 1) == rest);
}

/// Splitting a text without `sep` gives the text as the only piece.
pub proof fn lemma_split_none(s: Seq<char>, sep: char)
    requires
        !s.contains(sep),
    ensures
        split(s, sep) == seq![s],
{
    lemma_first_index(s, sep);
}

/// `terminated` of a concatenation is the concatenation of both.
pub proof fn lemma_terminated_concat(a: Seq<Seq<char>>, b: Seq<Seq<char>>, sep: char)
    ensures
        terminated(a + b, sep) == terminated(a, sep) + terminated(b, sep),
    decreases b.len(),
{
    if b.len() == 0 {
        assert(a + b == a);
        assert(terminated(a, sep) + Seq::<char>::empty() == terminated(a, sep));
    } else {
        assert((a + b).drop_last() == a + b.drop_last());
        assert((a + b).last() == b.last());
        lemma_terminated_concat(a, b.drop_last(), sep);
        assert(terminated(a, sep) + (terminated(b.drop_last(), sep) + b.last().push(sep)) == (
        terminated(a, sep) + terminated(b.drop_last(), sep)) + b.last().push(sep));
    }
}

/// `terminated` of one piece before others.
pub proof fn lemma_terminated_first(parts: Seq<Seq<char>>, sep: char)
    requires
        parts.len() > 0,
    ensures
        terminated(parts, sep) == parts[0].push(sep) + terminated(parts.drop_first(), sep),
{
    let head = seq![parts[0]];
    assert(parts == head + parts.drop_first());
    lemma_terminated_concat(head, parts.drop_first(), sep);
    assert(head.drop_last() == Seq::<Seq<char>>::empty());
    assert(terminated(head.drop_last(), sep) == Seq::<char>::empty());
    assert(head.last() == parts[0]);
    assert(terminated(head, sep) == Seq::<char>::empty() + parts[0].push(sep));
    assert(Seq::<char>::empty() + parts[0].push(sep) == parts[0].push(sep));
}

/// Splitting what `terminated` wrote gives the pieces back, and one empty
/// piece behind the last separator.
pub proof fn lemma_split_terminated(parts: Seq<Seq<char>>, sep: char)
    requires
        forall|i: int| 0 <= i < parts.len() ==> !(#[trigger] parts[i]).contains(sep),
    ensures
        split(terminated(parts, sep), sep) == parts.push(Seq::empty()),
    decreases parts.len(),
{
    if parts.len() == 0 {
        assert(parts.push(Seq::<char>::empty()) == seq![Seq::<char>::empty()]);
    } else {
        let rest = parts.drop_first();
        lemma_terminated_first(parts, sep);
        assert forall|i: int| 0 <= i < rest.len() implies !(#[trigger] rest[i]).contains(sep) by {
            assert(rest[i] == parts[i + 1]);
        }
        lemma_split_terminated(rest, sep);
        lemma_split_first(parts[0], terminated(rest, sep), sep);
        assert(seq![parts[0]] + rest.push(Seq::<char>::empty()) == parts.push(Seq::empty()));
    }
}

/// A trailing empty piece adds no token.
pub proof fn lemma_tokens_of_tokens(parts: Seq<Seq<char>>, sep: char)
    requires
        are_tokens(parts, sep),
    ensures
        tokens(parts) == parts,
        tokens(parts.push(Seq::empty())) == parts,
    decreases parts.len(),
{
    if parts.len() > 0 {
        let before = parts.drop_last();
        assert forall|i: int, j: int| 0 <= i < j < before.len() implies before[i] != before[j] by {
            assert(before[i] == parts[i] && before[j] == parts[j]);
        }
        assert(are_tokens(before, sep)) by {
            assert forall|i: int| 0 <= i < before.len() implies (#[trigger] before[i]).len() > 0
                && !before[i].contains(sep) && !before[i].contains('\n') by {
                assert(before[i] == parts[i]);
            }
        }
        lemma_tokens_of_tokens(before, sep);
        assert(!before.contains(parts.last())) by {
            if before.contains(parts.last()) {
                let k = choose|k: int| 0 <= k < before.len() && before[k] == parts.last();
                assert(parts[k] != parts[parts.len() - 1]);
            }
        }
        assert(before.push(parts.last()) == parts);
    }
    assert(parts.push(Seq::<char>::empty()).drop_last() == parts);
}

/// What `tokens` keeps are tokens, whatever character separated the pieces.
pub proof fn lemma_tokens_are_tokens(parts: Seq<Seq<char>>, sep: char)
    requires
        forall|i: int| 0 <= i < parts.len() ==> !(#[trigger] parts[i]).contains(sep),
        forall|i: int| 0 <= i < parts.len() ==> !(#[trigger] parts[i]).contains('\n'),
    ensures
        are_tokens(tokens(parts), sep),
        forall|p: Seq<char>| tokens(parts).contains(p) ==> parts.contains(p),
    decreases parts.len(),
{
    if parts.len() > 0 {
        let before = parts.drop_last();
        assert forall|i: int| 0 <= i < before.len() implies !(#[trigger] before[i]).contains(sep)
            && !before[i].contains('\n') by {
            assert(before[i] == parts[i]);
        }
        lemma_tokens_are_tokens(before, sep);
        let t = tokens(before);
        let p = parts.last();
        assert forall|q: Seq<char>| tokens(parts).contains(q) implies parts.contains(q) by {
            if t.contains(q) {
                assert(before.contains(q));
                let k = choose|k: int| 0 <= k < before.len() && before[k] == q;
                assert(parts[k] == q);
            } else {
                assert(q == p);
                assert(parts[parts.len() - 1] == q);
            }
        }
        if !(p.len() == 0 || t.contains(p)) {
            let r = t.push(p);
            assert forall|i: int, j: int| 0 <= i < j < r.len() implies r[i] != r[j] by {
                if j == t.len() {
                    assert(t.contains(r[i]));
                }
            }
        }
    }
}

/// The pieces of `v` between occurrences of `sep`.
pub fn split_chars(v: &Vec<char>, sep: char) -> (r: Vec<Vec<char>>)
    ensures
        char_views(r@) == split(v@, sep),
        forall|i: int| 0 <= i < r.len() ==> !(#[trigger] r[i])@.contains(sep),
{
    let mut parts: Vec<Vec<char>> = Vec::new();
    let mut piece: Vec<char> = Vec::new();
    let mut start: usize = 0;
    let mut i: usize = 0;
    proof {
        assert(v@.skip(0) == v@);
        assert(char_views(parts@) + split(v@, sep) == split(v@, sep));
    }
    while i < v.len()
        invariant
            start <= i <= v.len(),
            piece@ == v@.subrange(start as int, i as int),
            !piece@.contains(sep),
            split(v@, sep) == char_views(parts@) + split(v@.skip(start as int), sep),
            forall|k: int| 0 <= k < parts.len() ==> !(#[trigger] parts[k])@.contains(sep),
        decreases v.len() - i,
    {
        let c = v[i];
        if c == sep {
            proof {
                let rest = v@.skip(start as int);
                let after = v@.skip(i + 1);
                assert(rest == piece@.push(sep) + after);
                lemma_split_first(piece@, after, sep);
                assert(char_views(parts@.push(piece)) == char_views(parts@) + seq![piece@]);
            }
            parts.push(piece);
            piece = Vec::new();
            start = i + 1;
            assert(v@.subrange(start as int, start as int) == Seq::<char>::empty());
        } else {
            proof {
                let grown = piece@.push(c);
                assert(grown == v@.subrange(start as int, i + 1));
                assert forall|k: int| 0 <= k < grown.len() implies grown[k] != sep by {
                    if k < piece@.len() {
                        assert(piece@.contains(piece@[k]));
                    }
                }
            }
            piece.push(c);
        }
        i += 1;
    }
    proof {
        assert(v@.skip(start as int) == piece@);
        lemma_split_none(piece@, sep);
        assert(char_views(parts@.push(piece)) == char_views(parts@) + seq![piece@]);
    }
    parts.push(piece);
    parts
}

/// `parts` with `sep` between each two neighbours.
pub fn join_strings(parts: &Vec<String>, sep: &str) -> (r: String)
    ensures
        r@ == join(views(parts@), sep@),
{
    let mut r = String::new();
    let mut i: usize = 0;
    while i < parts.len()
        invariant
            i <= parts.len(),
            r@ == join(views(parts@).take(i as int), sep@),
        decreases parts.len() - i,
    {
        proof {
            let all = views(parts@);
            assert(all.take(i + 1).drop_last() == all.take(i as int));
            assert(all.take(i + 1).last() == parts[i as int]@);
            if i == 0 {
                assert(all.take(1)[0] == parts[0]@);
                assert(Seq::<char>::empty() + parts[0]@ == parts[0]@);
            }
        }
        if i > 0 {
            r.append(sep);
        }
        r.append(parts[i].as_str());
        i += 1;
    }
    assert(views(parts@).take(parts.len() as int) == views(parts@));
    r
}

/// Whether two strings hold the same characters.
pub fn same_text(a: &String, b: &String) -> (r: bool)
    ensures
        r == (a@ == b@),
{
    *a == *b
}

/// Whether `list` holds a string with the characters of `s`.
pub fn holds_text(list: &Vec<String>, s: &String) -> (r: bool)
    ensures
        r == views(list@).contains(s@),
{
    let mut i: usize = 0;
    while i < list.len()
        invariant
            i <= list.len(),
            forall|k: int| 0 <= k < i ==> list[k]@ != s@,
        decreases list.len() - i,
    {
        if same_text(&list[i], s) {
            assert(views(list@)[i as int] == s@);
            return true;
        }
        i += 1;
    }
    proof {
        if views(list@).contains(s@) {
            let k = choose|k: int| 0 <= k < views(list@).len() && views(list@)[k] == s@;
            assert(list[k]@ != s@);
        }
    }
    false
}

/// The non-empty pieces, each kept where it first occurs, as strings.
pub fn unique_tokens(pieces: &Vec<Vec<char>>) -> (r: Vec<String>)
    ensures
        views(r@) == tokens(char_views(pieces@)),
{
    let mut r: Vec<String> = Vec::new();
    let mut i: usize = 0;
    assert(char_views(pieces@).take(0) == Seq::<Seq<char>>::empty());
    assert(views(r@) == Seq::<Seq<char>>::empty());
    while i < pieces.len()
        invariant
            i <= pieces.len(),
            views(r@) == tokens(char_views(pieces@).take(i as int)),
        decreases pieces.len() - i,
    {
        let s = string_of(&pieces[i]);
        proof {
            let all = char_views(pieces@);
            assert(all.take(i + 1).drop_last() == all.take(i as int));
            assert(all.take(i + 1).last() == pieces[i as int]@);
        }
        if pieces[i].len() > 0 && !holds_text(&r, &s) {
            assert(views(r@.push(s)) == views(r@).push(s@));
            r.push(s);
        }
        i += 1;
    }
    assert(char_views(pieces@).take(pieces.len() as int) == char_views(pieces@));
    r
}

/// The order of two texts: by the first character in which they differ,
/// and a proper prefix before the longer text.
pub open spec fn lex_lt(a: Seq<char>, b: Seq<char>) -> bool
    decreases a.len(),
{
    if b.len() == 0 {
        false
    } else if a.len() == 0 {
        true
    } else if a[0] != b[0] {
        a[0] < b[0]
    } else {
        lex_lt(a.drop_first(), b.drop_first())
    }
}

/// No text is before itself, and of two texts at most one is before the other.
pub proof fn lemma_lex_asymmetric(a: Seq<char>, b: Seq<char>)
    requires
        lex_lt(a, b),
    ensures
        !lex_lt(b, a),
        a != b,
    decreases a.len(),
{
    if b.len() > 0 && a.len() > 0 && a[0] == b[0] {
        lemma_lex_asymmetric(a.drop_first(), b.drop_first());
    }
}

/// The order of texts is transitive.
pub proof fn lemma_lex_transitive(a: Seq<char>, b: Seq<char>, c: Seq<char>)
    requires
        lex_lt(a, b),
        lex_lt(b, c),
    ensures
        lex_lt(a, c),
    decreases a.len(),
{
    if a.len() > 0 && b.len() > 0 && c.len() > 0 && a[0] == b[0] && b[0] == c[0] {
        lemma_lex_transitive(a.drop_first(), b.drop_first(), c.drop_first());
    }
}

/// Texts with a common prefix are ordered as what follows the prefix.
pub proof fn lemma_lex_skip(a: Seq<char>, b: Seq<char>, n: int)
    requires
        0 <= n <= a.len(),
        n <= b.len(),
        a.take(n) == b.take(n),
    ensures
        lex_lt(a, b) == lex_lt(a.skip(n), b.skip(n)),
    decreases n,
{
    if n == 0 {
        assert(a.skip(0) == a);
        assert(b.skip(0) == b);
    } else {
        assert(a[0] == a.take(n)[0]);
        assert(b[0] == b.take(n)[0]);
        let a1 = a.drop_first();
        let b1 = b.drop_first();
        assert(a1.take(n - 1) == a.take(n).drop_first());
        assert(b1.take(n - 1) == b.take(n).drop_first());
        lemma_lex_skip(a1, b1, n - 1);
        assert(a1.skip(n - 1) == a.skip(n));
        assert(b1.skip(n - 1) == b.skip(n));
    }
}

/// How one text stands to another in the order of `lex_lt`.
#[derive(Clone, Copy, Debug, PartialEq, Eq)]
pub enum Order {
    Less,
    Equal,
    Greater,
}

/// Compares two texts character by character.
pub fn compare_chars(a: &Vec<char>, b: &Vec<char>) -> (r: Order)
    ensures
        r is Less <==> lex_lt(a@, b@),
        r is Equal <==> a@ == b@,
        r is Greater <==> lex_lt(b@, a@),
{
    let mut i: usize = 0;
    while i < a.len() && i < b.len()
        invariant
            i <= a.len(),
            i <= b.len(),
            a@.take(i as int) == b@.take(i as int),
        decreases a.len() - i,
    {
        let x = a[i];
        let y = b[i];
        if x != y {
            proof {
                lemma_lex_skip(a@, b@, i as int);
                lemma_lex_skip(b@, a@, i as int);
                assert(a@.skip(i as int)[0] == x);
                assert(b@.skip(i as int)[0] == y);
                assert(a@[i as int] != b@[i as int]);
            }
            if x < y {
                proof {
                    lemma_lex_asymmetric(a@, b@);
                }
                return Order::Less;
            } else {
                proof {
                    lemma_lex_asymmetric(b@, a@);
                }
                return Order::Greater;
            }
        }
        assert(a@.take(i + 1) == a@.take(i as int).push(x));
        assert(b@.take(i + 1) == b@.take(i as int).push(y));
        i += 1;
    }
    proof {
        lemma_lex_skip(a@, b@, i as int);
        lemma_lex_skip(b@, a@, i as int);
        if i == a.len() {
            assert(a@.take(i as int) == a@);
        }
        if i == b.len() {
            assert(b@.take(i as int) == b@);
        }
    }
    if i < b.len() {
        proof {
            lemma_lex_asymmetric(a@, b@);
        }
        Order::Less
    } else if i < a.len() {
        proof {
            lemma_lex_asymmetric(b@, a@);
        }
        Order::Greater
    } else {
        Order::Equal
    }
}

/// Compares two strings character by character.
pub fn compare_text(a: &str, b: &str) -> (r: Order)
    ensures
        r is Less <==> lex_lt(a@, b@),
        r is Equal <==> a@ == b@,
        r is Greater <==> lex_lt(b@, a@),
{
    let x = chars_of(a);
    let y = chars_of(b);
    compare_chars(&x, &y)
}

/// Whether a character is white space, as `char::is_whitespace` answers.
pub uninterp spec fn is_whitespace(c: char) -> bool;

/// Whether a character is white space.
///
/// Trusted: calls `char::is_whitespace`, which tells whether the character
/// has the Unicode property `White_Space`; the answer is named, not stated.
#[verifier::external_body]
pub(crate) fn char_is_whitespace(c: char) -> (r: bool)
    ensures
        r == is_whitespace(c),
{
    c.is_whitespace()
}

/// Number of white-space characters at the start of `s`.
pub open spec fn leading_space(s: Seq<char>) -> int
    decreases s.len(),
{
    if s.len() > 0 && is_whitespace(s[0]) {
        1 + leading_space(s.drop_first())
    } else {
        0
    }
}

/// Number of white-space characters at the end of `s`.
pub open spec fn trailing_space(s: Seq<char>) -> int
    decreases s.len(),
{
    if s.len() > 0 && is_whitespace(s.last()) {
        1 + trailing_space(s.drop_last())
    } else {
        0
    }
}

/// `s` without the white space at its start and at its end.
pub open spec fn trimmed(s: Seq<char>) -> Seq<char> {
    let rest = s.skip(leading_space(s));
    rest.take(rest.len() - trailing_space(rest))
}

/// A position before which all is white space, and which holds none, is
/// `leading_space`.
pub proof fn lemma_leading_space(s: Seq<char>, n: int)
    requires
        0 <= n <= s.len(),
        forall|j: int| 0 <= j < n ==> is_whitespace(s[j]),
        n < s.len() ==> !is_whitespace(s[n]),
    ensures
        leading_space(s) == n,
    decreases n,
{
    if n > 0 {
        let t = s.drop_first();
        assert forall|j: int| 0 <= j < n - 1 implies is_whitespace(t[j]) by {
            assert(t[j] == s[j + 1]);
        }
        lemma_leading_space(t, n - 1);
    }
}

/// A number of white-space characters at the end, with none before them, is
/// `trailing_space`.
pub proof fn lemma_trailing_space(s: Seq<char>, n: int)
    requires
        0 <= n <= s.len(),
        forall|j: int| s.len() - n <= j < s.len() ==> is_whitespace(s[j]),
        n < s.len() ==> !is_whitespace(s[s.len() - n - 1]),
    ensures
        trailing_space(s) == n,
    decreases n,
{
    if n > 0 {
        let t = s.drop_last();
        assert forall|j: int| t.len() - (n - 1) <= j < t.len() implies is_whitespace(t[j]) by {
            assert(t[j] == s[j]);
        }
        lemma_trailing_space(t, n - 1);
    }
}

/// `v` without the white space at its start and at its end.
pub fn trim_chars(v: &Vec<char>) -> (r: String)
    ensures
        r@ == trimmed(v@),
{
    let mut from: usize = 0;
    while from < v.len() && char_is_whitespace(v[from])
        invariant
            from <= v.len(),
            forall|j: int| 0 <= j < from ==> is_whitespace(v@[j]),
        decreases v.len() - from,
    {
        from += 1;
    }
    let mut to: usize = v.len();
    while to > from && char_is_whitespace(v[to - 1])
        invariant
            from <= to <= v.len(),
            forall|j: int| to <= j < v.len() ==> is_whitespace(v@[j]),
        decreases to,
    {
        to -= 1;
    }
    proof {
        lemma_leading_space(v@, from as int);
        let rest = v@.skip(from as int);
        assert forall|j: int| rest.len() - (v.len() - to) <= j < rest.len() implies is_whitespace(
            rest[j],
        ) by {
            assert(rest[j] == v@[j + from]);
        }
        if v.len() - to < rest.len() {
            assert(rest[rest.len() - (v.len() - to) - 1] == v@[to - 1]);
        }
        lemma_trailing_space(rest, v.len() - to);
        assert(rest.take(rest.len() - (v.len() - to)) == v@.subrange(from as int, to as int));
    }
    string_of_range(v, from, to)
}

/// Index of the first `c` in `v`, or the length of `v` where it has none.
pub fn first_index_of(v: &Vec<char>, c: char) -> (r: usize)
    ensures
        r == first_index(v@, c),
{
    let mut i: usize = 0;
    while i < v.len() && v[i] != c
        invariant
            i <= v.len(),
            forall|j: int| 0 <= j < i ==> v@[j] != c,
        decreases v.len() - i,
    {
        i += 1;
    }
    proof {
        lemma_first_index_at(v@, c, i as int);
    }
    i
}

/// The characters of `v` from a position on.
pub fn chars_from(v: &Vec<char>, from: usize) -> (r: Vec<char>)
    requires
        from <= v.len(),
    ensures
        r@ == v@.skip(from as int),
{
    let mut r: Vec<char> = Vec::new();
    let mut i: usize = from;
    while i < v.len()
        invariant
            from <= i <= v.len(),
            r@ == v@.subrange(from as int, i as int),
        decreases v.len() - i,
    {
        r.push(v[i]);
        i += 1;
    }
    assert(v@.subrange(from as int, v.len() as int) == v@.skip(from as int));
    r
}

/// The pieces of a text hold only characters of the text.
pub proof fn lemma_split_chars(s: Seq<char>, sep: char, c: char)
    requires
        !s.contains(c),
    ensures
        forall|i: int| 0 <= i < split(s, sep).len() ==> !(#[trigger] split(s, sep)[i]).contains(c),
    decreases s.len(),
{
    let i = first_index(s, sep);
    lemma_first_index(s, sep);
    if 0 <= i < s.len() {
        let head = s.take(i);
        let rest = s.skip(i + 1);
        if head.contains(c) {
            let k = choose|k: int| 0 <= k < head.len() && head[k] == c;
            assert(s[k] == c);
        }
        if rest.contains(c) {
            let k = choose|k: int| 0 <= k < rest.len() && rest[k] == c;
            assert(s[k + i + 1] == c);
        }
        lemma_split_chars(rest, sep, c);
        assert forall|j: int| 0 <= j < split(s, sep).len() implies !(#[trigger] split(
            s,
            sep,
        )[j]).contains(c) by {
            if j > 0 {
                assert(split(s, sep)[j] == split(rest, sep)[j - 1]);
            }
        }
    }
}

/// No piece of a text holds the separator.
pub proof fn lemma_split_pieces(s: Seq<char>, sep: char)
    ensures
        forall|i: int| 0 <= i < split(s, sep).len() ==> !(#[trigger] split(s, sep)[i]).contains(sep),
    decreases s.len(),
{
    let i = first_index(s, sep);
    lemma_first_index(s, sep);
    if 0 <= i < s.len() {
        let head = s.take(i);
        let rest = s.skip(i + 1);
        if head.contains(sep) {
            let k = choose|k: int| 0 <= k < head.len() && head[k] == sep;
            assert(s[k] == sep);
        }
        lemma_split_pieces(rest, sep);
        assert forall|j: int| 0 <= j < split(s, sep).len() implies !(#[trigger] split(
            s,
            sep,
        )[j]).contains(sep) by {
            if j > 0 {
                assert(split(s, sep)[j] == split(rest, sep)[j - 1]);
            }
        }
    }
}

/// What `terminated` writes ends with the separator, and holds a
/// character only where a piece holds it or it is the separator.
pub proof fn lemma_terminated_chars(parts: Seq<Seq<char>>, sep: char, c: char)
    requires
        forall|i: int| 0 <= i < parts.len() ==> !(#[trigger] parts[i]).contains(c),
        c != sep,
    ensures
        !terminated(parts, sep).contains(c),
        parts.len() > 0 ==> terminated(parts, sep).len() > 0 && terminated(parts, sep).last()
            == sep,
    decreases parts.len(),
{
    if parts.len() > 0 {
        let before = parts.drop_last();
        assert forall|i: int| 0 <= i < before.len() implies !(#[trigger] before[i]).contains(c) by {
            assert(before[i] == parts[i]);
        }
        lemma_terminated_chars(before, sep, c);
        let t = terminated(parts, sep);
        let b = terminated(before, sep);
        let p = parts.last();
        assert(!p.contains(c));
        if t.contains(c) {
            let k = choose|k: int| 0 <= k < t.len() && t[k] == c;
            if k < b.len() {
                assert(b[k] == c);
            } else if k < b.len() + p.len() {
                assert(p[k - b.len()] == c);
            }
        }
    }
}

/// `s` without the white space at its end.
pub open spec fn trimmed_end(s: Seq<char>) -> Seq<char> {
    s.take(s.len() - trailing_space(s))
}

/// `s` without the white space at its end.
pub fn trim_end(s: &str) -> (r: String)
    ensures
        r@ == trimmed_end(s@),
{
    let v = chars_of(s);
    let mut to: usize = v.len();
    while to > 0 && char_is_whitespace(v[to - 1])
        invariant
            to <= v.len(),
            forall|j: int| to <= j < v.len() ==> is_whitespace(v@[j]),
        decreases to,
    {
        to -= 1;
    }
    proof {
        lemma_trailing_space(v@, v.len() - to);
        assert(v@.subrange(0, to as int) == v@.take(to as int));
    }
    string_of_range(&v, 0, to)
}

/// A copy of a list of strings.
pub fn clone_strings(v: &Vec<String>) -> (r: Vec<String>)
    ensures
        views(r@) == views(v@),
{
    let mut r: Vec<String> = Vec::new();
    let mut i: usize = 0;
    while i < v.len()
        invariant
            i <= v.len(),
            r.len() == i,
            forall|k: int| 0 <= k < i ==> r[k]@ == v[k]@,
        decreases v.len() - i,
    {
        r.push(v[i].clone());
        i += 1;
    }
    assert(views(r@) == views(v@));
    r
}

/// Whether two lists hold the same strings in the same order.
pub fn same_strings(a: &Vec<String>, b: &Vec<String>) -> (r: bool)
    ensures
        r == (views(a@) == views(b@)),
{
    if a.len() != b.len() {
        assert(views(a@).len() != views(b@).len());
        return false;
    }
    let mut i: usize = 0;
    while i < a.len()
        invariant
            i <= a.len(),
            a.len() == b.len(),
            forall|k: int| 0 <= k < i ==> a[k]@ == b[k]@,
        decreases a.len() - i,
    {
        if !same_text(&a[i], &b[i]) {
            assert(views(a@)[i as int] != views(b@)[i as int]);
            return false;
        }
        i += 1;
    }
    assert(views(a@) == views(b@));
    true
}

} // verus!
