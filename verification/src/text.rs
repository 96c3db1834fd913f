//! Text helpers: white space, words, decimal numbers, prefixes and byte order.
use vstd::prelude::*;
use vstd::string::*;

verus! {

/// The Unicode `White_Space` property.
pub open spec fn is_white_space(c: char) -> bool {
    let n = c as u32;
    ||| 0x9 <= n <= 0xd
    ||| n == 0x20
    ||| n == 0x85
    ||| n == 0xa0
    ||| n == 0x1680
    ||| 0x2000 <= n <= 0x200a
    ||| n == 0x2028
    ||| n == 0x2029
    ||| n == 0x202f
    ||| n == 0x205f
    ||| n == 0x3000
}

/// `char::is_whitespace`: true of the characters that have the Unicode `White_Space` property.
pub assume_specification[ char::is_whitespace ](c: char) -> (r: bool)
    ensures
        r == is_white_space(c),
;

/// `String::push`: appends one character.
pub assume_specification[ String::push ](s: &mut String, c: char)
    ensures
        final(s)@ == old(s)@.push(c),
;

/// `String::push_str`: appends a string slice.
pub assume_specification[ String::push_str ](s: &mut String, other: &str)
    ensures
        final(s)@ == old(s)@ + other@,
;

/// `s` without its leading white space.
pub open spec fn trim_start(s: Seq<char>) -> Seq<char>
    decreases s.len(),
{
    if s.len() > 0 && is_white_space(s[0]) {
        trim_start(s.drop_first())
    } else {
        s
    }
}

/// `s` without its trailing white space.
pub open spec fn trim_end(s: Seq<char>) -> Seq<char>
    decreases s.len(),
{
    if s.len() > 0 && is_white_space(s.last()) {
        trim_end(s.drop_last())
    } else {
        s
    }
}

/// `s` without white space at either end.
pub open spec fn trimmed(s: Seq<char>) -> Seq<char> {
    trim_end(trim_start(s))
}

/// Every character of `s` is white space.
pub open spec fn is_blank(s: Seq<char>) -> bool {
    forall|i: int| 0 <= i < s.len() ==> is_white_space(#[trigger] s[i])
}

/// The parts in order, with `sep` between neighbours.
pub open spec fn join(parts: Seq<Seq<char>>, sep: Seq<char>) -> Seq<char>
    decreases parts.len(),
{
    if parts.len() == 0 {
        Seq::empty()
    } else if parts.len() == 1 {
        parts[0]
    } else {
        join(parts.drop_last(), sep) + sep + parts.last()
    }
}

/// How many characters at the start of `s` are not white space.
pub open spec fn word_len(s: Seq<char>) -> nat
    decreases s.len(),
{
    if s.len() == 0 || is_white_space(s[0]) {
        0
    } else {
        1 + word_len(s.drop_first())
    }
}

/// The maximal runs of characters that are not white space, in order.
pub open spec fn words(s: Seq<char>) -> Seq<Seq<char>>
    decreases s.len(),
    via words_decreases
{
    if s.len() == 0 {
        Seq::empty()
    } else if is_white_space(s[0]) {
        words(s.drop_first())
    } else {
        seq![s.take(word_len(s) as int)] + words(s.skip(word_len(s) as int))
    }
}

#[via_fn]
proof fn words_decreases(s: Seq<char>) {
    lemma_word_len(s);
}

pub proof fn lemma_word_len(s: Seq<char>)
    ensures
        word_len(s) <= s.len(),
        forall|i: int| 0 <= i < word_len(s) ==> !is_white_space(#[trigger] s[i]),
        word_len(s) < s.len() ==> is_white_space(s[word_len(s) as int]),
        s.len() > 0 && !is_white_space(s[0]) ==> word_len(s) > 0,
    decreases s.len(),
{
    if s.len() > 0 && !is_white_space(s[0]) {
        lemma_word_len(s.drop_first());
        assert forall|i: int| 0 <= i < word_len(s) implies !is_white_space(#[trigger] s[i]) by {
            if i > 0 {
                assert(s[i] == s.drop_first()[i - 1]);
            }
        }
        if word_len(s) < s.len() {
            assert(s[word_len(s) as int] == s.drop_first()[word_len(s) - 1]);
        }
    }
}

/// A word: characters, none of them white space.
pub open spec fn is_word(w: Seq<char>) -> bool {
    w.len() > 0 && forall|i: int| 0 <= i < w.len() ==> !is_white_space(#[trigger] w[i])
}

/// `words` yields words only.
pub proof fn lemma_words_are_words(s: Seq<char>)
    ensures
        forall|i: int| 0 <= i < words(s).len() ==> is_word(#[trigger] words(s)[i]),
    decreases s.len(),
{
    if s.len() > 0 {
        if is_white_space(s[0]) {
            lemma_words_are_words(s.drop_first());
            assert(words(s) == words(s.drop_first()));
        } else {
            lemma_word_len(s);
            let n = word_len(s) as int;
            lemma_words_are_words(s.skip(n));
            assert forall|i: int| 0 <= i < words(s).len() implies is_word(#[trigger] words(s)[i]) by {
                if i == 0 {
                    assert(words(s)[0] == s.take(n));
                    assert forall|k: int| 0 <= k < n implies !is_white_space(
                        #[trigger] s.take(n)[k],
                    ) by {
                        assert(s.take(n)[k] == s[k]);
                    }
                } else {
                    assert(words(s)[i] == words(s.skip(n))[i - 1]);
                }
            }
        }
    } else {
        assert(words(s).len() == 0);
    }
}

/// How long the first word is, given where it ends.
proof fn lemma_word_len_is(s: Seq<char>, n: int)
    requires
        0 <= n <= s.len(),
        forall|i: int| 0 <= i < n ==> !is_white_space(#[trigger] s[i]),
        n < s.len() ==> is_white_space(s[n]),
    ensures
        word_len(s) == n,
{
    lemma_word_len(s);
    if word_len(s) < n {
        assert(is_white_space(s[word_len(s) as int]));
    }
    if n < word_len(s) {
        assert(!is_white_space(s[n]));
    }
}

/// White space between two texts separates their words.
pub proof fn lemma_words_apart(a: Seq<char>, c: char, b: Seq<char>)
    requires
        is_white_space(c),
    ensures
        words(a.push(c) + b) == words(a) + words(b),
    decreases a.len(),
{
    let s = a.push(c) + b;
    if a.len() == 0 {
        assert(s[0] == c);
        assert(s.drop_first() == b);
        assert(words(a) + words(b) == words(b));
    } else if is_white_space(a[0]) {
        assert(s[0] == a[0]);
        assert(s.drop_first() == a.drop_first().push(c) + b);
        lemma_words_apart(a.drop_first(), c, b);
    } else {
        assert(s[0] == a[0]);
        lemma_word_len(a);
        let n = word_len(a) as int;
        assert forall|i: int| 0 <= i < n implies !is_white_space(#[trigger] s[i]) by {
            assert(s[i] == a[i]);
        }
        assert(s[n] == (if n < a.len() {
            a[n]
        } else {
            c
        }));
        lemma_word_len_is(s, n);
        assert(s.take(n) == a.take(n));
        assert(s.skip(n) == a.skip(n).push(c) + b);
        lemma_words_apart(a.skip(n), c, b);
        assert(seq![a.take(n)] + (words(a.skip(n)) + words(b)) == (seq![a.take(n)] + words(
            a.skip(n),
        )) + words(b));
    }
}

/// Words joined by a space have themselves for words.
pub proof fn lemma_words_of_join(parts: Seq<Seq<char>>)
    requires
        forall|i: int| 0 <= i < parts.len() ==> is_word(#[trigger] parts[i]),
    ensures
        words(join(parts, seq![' '])) == parts,
        join(parts, seq![' ']).len() == 0 <==> parts.len() == 0,
    decreases parts.len(),
{
    let sep = seq![' '];
    if parts.len() > 0 {
        let w = parts.last();
        assert(is_word(w));
        assert(words(w) == seq![w]) by {
            lemma_word_len_is(w, w.len() as int);
            assert(w.take(w.len() as int) == w);
            assert(w.skip(w.len() as int).len() == 0);
            assert(seq![w] + words(w.skip(w.len() as int)) == seq![w]);
        }
        if parts.len() > 1 {
            let head = parts.drop_last();
            assert forall|i: int| 0 <= i < head.len() implies is_word(#[trigger] head[i]) by {
                assert(head[i] == parts[i]);
            }
            lemma_words_of_join(head);
            assert(join(parts, sep) == join(head, sep).push(' ') + w);
            lemma_words_apart(join(head, sep), ' ', w);
            assert(head + seq![w] == parts);
        } else {
            assert(parts == seq![w]);
        }
    }
}

/// A text has no words exactly when it is blank.
pub proof fn lemma_no_words_iff_blank(s: Seq<char>)
    ensures
        words(s).len() == 0 <==> is_blank(s),
    decreases s.len(),
{
    if s.len() > 0 && is_white_space(s[0]) {
        let t = s.drop_first();
        lemma_no_words_iff_blank(t);
        if is_blank(t) {
            assert forall|i: int| 0 <= i < s.len() implies is_white_space(#[trigger] s[i]) by {
                if i > 0 {
                    assert(s[i] == t[i - 1]);
                }
            }
        }
        if is_blank(s) {
            assert forall|i: int| 0 <= i < t.len() implies is_white_space(#[trigger] t[i]) by {
                assert(t[i] == s[i + 1]);
            }
        }
    }
}

/// The characters of `s`.
pub fn chars_of(s: &str) -> (r: Vec<char>)
    ensures
        r@ == s@,
{
    let mut out: Vec<char> = Vec::new();
    for c in it: s.chars()
        invariant
            it.seq() == s@,
            out@ == s@.take(it.index() as int),
    {
        out.push(c);
        assert(out@ == s@.take(it.index() + 1));
    }
    assert(s@.take(s@.len() as int) == s@);
    out
}

/// Both texts have the same characters.
pub fn same(a: &str, b: &str) -> (r: bool)
    ensures
        r == (a@ == b@),
{
    let x = chars_of(a);
    let y = chars_of(b);
    if x.len() != y.len() {
        return false;
    }
    let mut i: usize = 0;
    while i < x.len()
        invariant
            i <= x@.len(),
            x@ == a@,
            y@ == b@,
            x@.len() == y@.len(),
            forall|k: int| 0 <= k < i ==> x@[k] == y@[k],
        decreases x@.len() - i,
    {
        if x[i] != y[i] {
            assert(a@[i as int] != b@[i as int]);
            return false;
        }
        i = i + 1;
    }
    assert(a@ == b@);
    true
}

/// `a` stands before `b` in the order of their code points, or is `b`. UTF-8 orders bytes the
/// same way.
pub open spec fn at_most(a: Seq<char>, b: Seq<char>) -> bool
    decreases a.len(),
{
    if a.len() == 0 {
        true
    } else if b.len() == 0 {
        false
    } else if a[0] == b[0] {
        at_most(a.drop_first(), b.drop_first())
    } else {
        a[0] < b[0]
    }
}

/// Of two texts one stands before the other, or they are the same.
pub proof fn at_most_is_total(a: Seq<char>, b: Seq<char>)
    ensures
        at_most(a, b) || at_most(b, a),
    decreases a.len(),
{
    if a.len() > 0 && b.len() > 0 && a[0] == b[0] {
        at_most_is_total(a.drop_first(), b.drop_first());
    }
}

/// Only the same text stands both before and behind another.
pub proof fn at_most_is_antisymmetric(a: Seq<char>, b: Seq<char>)
    requires
        at_most(a, b),
        at_most(b, a),
    ensures
        a == b,
    decreases a.len(),
{
    if a.len() > 0 && b.len() > 0 {
        at_most_is_antisymmetric(a.drop_first(), b.drop_first());
        assert(a == seq![a[0]] + a.drop_first());
        assert(b == seq![b[0]] + b.drop_first());
    } else {
        assert(a == b);
    }
}

/// The order of texts is transitive.
pub proof fn at_most_is_transitive(a: Seq<char>, b: Seq<char>, c: Seq<char>)
    requires
        at_most(a, b),
        at_most(b, c),
    ensures
        at_most(a, c),
    decreases a.len(),
{
    if a.len() > 0 && a[0] == b[0] && b[0] == c[0] {
        at_most_is_transitive(a.drop_first(), b.drop_first(), c.drop_first());
    }
}

/// `a` stands before `b`, or is `b`.
pub fn is_at_most(a: &str, b: &str) -> (r: bool)
    ensures
        r == at_most(a@, b@),
{
    let x = chars_of(a);
    let y = chars_of(b);
    let mut i: usize = 0;
    assert(a@.skip(0) == a@);
    assert(b@.skip(0) == b@);
    loop
        invariant
            x@ == a@,
            y@ == b@,
            i <= x@.len(),
            i <= y@.len(),
            at_most(a@, b@) == at_most(a@.skip(i as int), b@.skip(i as int)),
        decreases x@.len() - i,
    {
        if i >= x.len() {
            return true;
        }
        if i >= y.len() {
            return false;
        }
        assert(a@.skip(i as int)[0] == x@[i as int]);
        assert(b@.skip(i as int)[0] == y@[i as int]);
        if x[i] != y[i] {
            return x[i] < y[i];
        }
        assert(a@.skip(i as int).drop_first() == a@.skip(i + 1));
        assert(b@.skip(i as int).drop_first() == b@.skip(i + 1));
        i = i + 1;
    }
}

/// Trimming at the start drops exactly the leading run of white space.
proof fn lemma_trim_start_at(s: Seq<char>, i: int)
    requires
        0 <= i <= s.len(),
        forall|k: int| 0 <= k < i ==> is_white_space(#[trigger] s[k]),
        i < s.len() ==> !is_white_space(s[i]),
    ensures
        trim_start(s) == s.skip(i),
    decreases i,
{
    if i == 0 {
        assert(s.skip(0) == s);
    } else {
        let t = s.drop_first();
        assert forall|k: int| 0 <= k < i - 1 implies is_white_space(#[trigger] t[k]) by {
            assert(t[k] == s[k + 1]);
        }
        if i < s.len() {
            assert(t[i - 1] == s[i]);
        }
        assert(is_white_space(s[0]));
        lemma_trim_start_at(t, i - 1);
        assert(t.skip(i - 1) == s.skip(i));
    }
}

/// Trimming at the end drops exactly the trailing run of white space.
proof fn lemma_trim_end_at(s: Seq<char>, j: int)
    requires
        0 <= j <= s.len(),
        forall|k: int| j <= k < s.len() ==> is_white_space(#[trigger] s[k]),
        j > 0 ==> !is_white_space(s[j - 1]),
    ensures
        trim_end(s) == s.take(j),
    decreases s.len() - j,
{
    if j == s.len() {
        assert(s.take(j) == s);
    } else {
        let t = s.drop_last();
        assert(is_white_space(s.last()));
        lemma_trim_end_at(t, j);
        assert(t.take(j) == s.take(j));
    }
}

/// `s` without white space at either end.
pub fn trim(s: &str) -> (r: &str)
    ensures
        r@ == trimmed(s@),
{
    let chars = chars_of(s);
    let n: usize = chars.len();
    let mut i: usize = 0;
    while i < n && chars[i].is_whitespace()
        invariant
            n == chars@.len(),
            i <= n,
            forall|k: int| 0 <= k < i ==> is_white_space(#[trigger] chars@[k]),
        decreases n - i,
    {
        i = i + 1;
    }
    let mut j: usize = n;
    while j > i && chars[j - 1].is_whitespace()
        invariant
            n == chars@.len(),
            i <= j <= n,
            i < n ==> !is_white_space(chars@[i as int]),
            forall|k: int| j <= k < n ==> is_white_space(#[trigger] chars@[k]),
        decreases j,
    {
        j = j - 1;
    }
    proof {
        lemma_trim_start_at(s@, i as int);
        let t = s@.skip(i as int);
        assert forall|k: int| j - i <= k < t.len() implies is_white_space(#[trigger] t[k]) by {
            assert(t[k] == s@[k + i]);
        }
        if j > i {
            assert(t[j - i - 1] == s@[j - 1]);
        }
        lemma_trim_end_at(t, j - i);
        assert(t.take(j - i) == s@.subrange(i as int, j as int));
    }
    s.substring_char(i, j)
}

/// A text is blank exactly when nothing is left of it after trimming.
pub proof fn trimmed_is_empty_iff_blank(s: Seq<char>)
    ensures
        trimmed(s).len() == 0 <==> is_blank(s),
{
    lemma_trim_start_shape(s);
    let t = trim_start(s);
    lemma_trim_end_shape(t);
    let i = s.len() - t.len();
    if t.len() > 0 {
        assert(!is_white_space(t[0]));
        assert(t[0] == s[i]);
        if trimmed(s).len() == 0 {
            assert(is_white_space(t[0]));
        }
        assert(trimmed(s).len() > 0);
        assert(!is_blank(s));
    } else {
        assert forall|k: int| 0 <= k < s.len() implies is_white_space(#[trigger] s[k]) by {}
        assert(is_blank(s));
    }
}

/// Every character of `s` is white space.
pub fn blank(s: &str) -> (r: bool)
    ensures
        r == is_blank(s@),
{
    proof {
        trimmed_is_empty_iff_blank(s@);
    }
    trim(s).is_empty()
}

/// What `trim_start` keeps: a suffix that does not begin with white space, after nothing else.
pub proof fn lemma_trim_start_shape(s: Seq<char>)
    ensures
        trim_start(s).len() <= s.len(),
        trim_start(s) == s.skip(s.len() - trim_start(s).len()),
        forall|k: int|
            0 <= k < s.len() - trim_start(s).len() ==> is_white_space(#[trigger] s[k]),
        trim_start(s).len() > 0 ==> !is_white_space(trim_start(s)[0]),
    decreases s.len(),
{
    if s.len() > 0 && is_white_space(s[0]) {
        let t = s.drop_first();
        lemma_trim_start_shape(t);
        let d = s.len() - trim_start(s).len();
        assert(t.skip(d - 1) == s.skip(d));
        assert forall|k: int| 0 <= k < d implies is_white_space(#[trigger] s[k]) by {
            if k > 0 {
                assert(s[k] == t[k - 1]);
            }
        }
    } else {
        assert(s.skip(0) == s);
    }
}

/// What `trim_end` keeps: a prefix that does not end in white space, before nothing else.
pub proof fn lemma_trim_end_shape(s: Seq<char>)
    ensures
        trim_end(s).len() <= s.len(),
        trim_end(s) == s.take(trim_end(s).len() as int),
        forall|k: int| trim_end(s).len() <= k < s.len() ==> is_white_space(#[trigger] s[k]),
        trim_end(s).len() > 0 ==> !is_white_space(trim_end(s).last()),
    decreases s.len(),
{
    if s.len() > 0 && is_white_space(s.last()) {
        let t = s.drop_last();
        lemma_trim_end_shape(t);
        assert(t.take(trim_end(s).len() as int) == s.take(trim_end(s).len() as int));
        assert forall|k: int| trim_end(s).len() <= k < s.len() implies is_white_space(
            #[trigger] s[k],
        ) by {
            if k < s.len() - 1 {
                assert(s[k] == t[k]);
            }
        }
    } else {
        assert(s.take(s.len() as int) == s);
    }
}

/// Joining one list behind another, where neither is empty.
pub proof fn join_of_two(a: Seq<Seq<char>>, b: Seq<Seq<char>>, sep: Seq<char>)
    requires
        a.len() > 0,
        b.len() > 0,
    ensures
        join(a + b, sep) == join(a, sep) + sep + join(b, sep),
    decreases b.len(),
{
    let s = a + b;
    assert(s.last() == b.last());
    assert(s.drop_last() == a + b.drop_last());
    if b.len() == 1 {
        assert(a + b.drop_last() == a);
    } else {
        join_of_two(a, b.drop_last(), sep);
        assert((join(a, sep) + sep + join(b.drop_last(), sep)) + sep + b.last() == join(a, sep) + sep
            + (join(b.drop_last(), sep) + sep + b.last()));
    }
}

/// An optional text, by its characters.
pub open spec fn optional(o: Option<String>) -> Option<Seq<char>> {
    match o {
        Some(s) => Some(s@),
        None => None,
    }
}

/// A list of texts, by their characters.
pub open spec fn texts(v: Seq<String>) -> Seq<Seq<char>> {
    v.map_values(|s: String| s@)
}

/// A copy of an optional text.
pub fn copy_optional(o: &Option<String>) -> (r: Option<String>)
    ensures
        optional(r) == optional(*o),
{
    match o {
        Some(s) => Some(s.clone()),
        None => None,
    }
}

/// One of the texts is `wanted`.
pub fn any_is(v: &Vec<String>, wanted: &str) -> (r: bool)
    ensures
        r == texts(v@).contains(wanted@),
{
    let mut i: usize = 0;
    while i < v.len()
        invariant
            i <= v@.len(),
            forall|k: int| 0 <= k < i ==> #[trigger] texts(v@)[k] != wanted@,
        decreases v@.len() - i,
    {
        assert(texts(v@)[i as int] == v@[i as int]@);
        if same(v[i].as_str(), wanted) {
            return true;
        }
        i = i + 1;
    }
    false
}

/// The texts in order, with `sep` between neighbours.
pub fn join_texts(v: &Vec<String>, sep: &str) -> (r: String)
    ensures
        r@ == join(texts(v@), sep@),
{
    let ghost all = texts(v@);
    let mut out = String::new();
    let mut i: usize = 0;
    assert(all.take(0).len() == 0);
    while i < v.len()
        invariant
            i <= v@.len(),
            all == texts(v@),
            out@ == join(all.take(i as int), sep@),
        decreases v@.len() - i,
    {
        assert(all.take(i + 1).drop_last() == all.take(i as int));
        assert(all.take(i + 1).last() == v@[i as int]@);
        if i > 0 {
            out.push_str(sep);
        }
        out.push_str(v[i].as_str());
        if i == 0 {
            assert(out@ == v@[0]@);
        }
        i = i + 1;
    }
    assert(all.take(i as int) == all);
    out
}

/// How many characters stand before the first comma, or all of them.
pub open spec fn comma_at(s: Seq<char>) -> nat
    decreases s.len(),
{
    if s.len() == 0 || s[0] == ',' {
        0
    } else {
        1 + comma_at(s.drop_first())
    }
}

proof fn lemma_comma_at(s: Seq<char>)
    ensures
        comma_at(s) <= s.len(),
        comma_at(s) < s.len() ==> s[comma_at(s) as int] == ',',
        forall|i: int| 0 <= i < comma_at(s) ==> #[trigger] s[i] != ',',
    decreases s.len(),
{
    if s.len() > 0 && s[0] != ',' {
        lemma_comma_at(s.drop_first());
        assert forall|i: int| 0 <= i < comma_at(s) implies #[trigger] s[i] != ',' by {
            if i > 0 {
                assert(s[i] == s.drop_first()[i - 1]);
            }
        }
        if comma_at(s) < s.len() {
            assert(s[comma_at(s) as int] == s.drop_first()[comma_at(s) - 1]);
        }
    }
}

/// `piece` trimmed, as a list that is empty where nothing is left.
pub open spec fn trimmed_piece(piece: Seq<char>) -> Seq<Seq<char>> {
    if trimmed(piece).len() == 0 {
        Seq::empty()
    } else {
        seq![trimmed(piece)]
    }
}

/// What stands between the commas, trimmed, without what is blank.
pub open spec fn comma_list(s: Seq<char>) -> Seq<Seq<char>>
    decreases s.len(),
    via comma_list_decreases
{
    if comma_at(s) >= s.len() {
        trimmed_piece(s)
    } else {
        trimmed_piece(s.take(comma_at(s) as int)) + comma_list(s.skip(comma_at(s) as int + 1))
    }
}

#[via_fn]
proof fn comma_list_decreases(s: Seq<char>) {
    lemma_comma_at(s);
}

/// What stands between the commas, trimmed, without what is blank.
pub fn split_commas(s: &str) -> (r: Vec<String>)
    ensures
        texts(r@) == comma_list(s@),
{
    let chars = chars_of(s);
    let n: usize = chars.len();
    let mut out: Vec<String> = Vec::new();
    let mut i: usize = 0;
    assert(s@.skip(0) == s@);
    assert(texts(out@) + comma_list(s@) == comma_list(s@));
    loop
        invariant
            n == chars@.len(),
            chars@ == s@,
            i <= n,
            texts(out@) + comma_list(s@.skip(i as int)) == comma_list(s@),
        decreases n - i,
    {
        let ghost rest = s@.skip(i as int);
        let mut j: usize = i;
        while j < n && chars[j] != ','
            invariant
                n == chars@.len(),
                i <= j <= n,
                forall|k: int| i <= k < j ==> #[trigger] chars@[k] != ',',
            decreases n - j,
        {
            j = j + 1;
        }
        proof {
            lemma_comma_at(rest);
            let c = comma_at(rest) as int;
            if c < j - i {
                assert(rest[c] == chars@[i + c]);
            }
            if c > j - i {
                assert(rest[j - i] == chars@[j as int]);
            }
            assert(c == j - i);
            assert(rest.take(c) == s@.subrange(i as int, j as int));
        }
        let piece = trim(s.substring_char(i, j));
        let ghost before = texts(out@);
        if !piece.is_empty() {
            out.push(piece.to_owned());
        }
        assert(texts(out@) == before + trimmed_piece(rest.take(j - i)));
        if j >= n {
            assert(rest.take(j - i) == rest);
            return out;
        }
        assert(rest.skip(j - i + 1) == s@.skip(j + 1));
        assert(before + (trimmed_piece(rest.take(j - i)) + comma_list(s@.skip(j + 1))) == (before
            + trimmed_piece(rest.take(j - i))) + comma_list(s@.skip(j + 1)));
        i = j + 1;
    }
}

/// The digit that stands for `d`.
pub open spec fn digit(d: nat) -> char {
    (48 + d) as char
}

/// `n` in decimal, without leading zeros.
pub open spec fn decimal(n: nat) -> Seq<char>
    decreases n,
{
    if n < 10 {
        seq![digit(n)]
    } else {
        decimal(n / 10).push(digit(n % 10))
    }
}

/// `n` in decimal, without leading zeros.
pub fn decimal_text(n: u64) -> (r: String)
    ensures
        r@ == decimal(n as nat),
    decreases n,
{
    if n < 10 {
        let mut s = String::new();
        s.push((48u8 + n as u8) as char);
        assert(s@ == seq![digit(n as nat)]);
        s
    } else {
        let mut s = decimal_text(n / 10);
        s.push((48u8 + (n % 10) as u8) as char);
        s
    }
}

/// A decimal text holds digits only, and is never empty.
pub proof fn lemma_decimal_digits(n: nat)
    ensures
        decimal(n).len() > 0,
        forall|i: int| 0 <= i < decimal(n).len() ==> '0' <= #[trigger] decimal(n)[i] <= '9',
    decreases n,
{
    if n >= 10 {
        lemma_decimal_digits(n / 10);
    }
}

/// Different numbers have different decimal texts.
pub proof fn decimal_is_injective(m: nat, n: nat)
    ensures
        decimal(m) == decimal(n) ==> m == n,
    decreases m,
{
    if decimal(m) == decimal(n) {
        lemma_decimal_digits(m / 10);
        lemma_decimal_digits(n / 10);
        if m < 10 {
            if n < 10 {
                assert(decimal(m)[0] == decimal(n)[0]);
            } else {
                assert(decimal(n).len() > 1);
            }
        } else if n < 10 {
            assert(decimal(m).len() > 1);
        } else {
            assert(decimal(m).last() == decimal(n).last());
            assert(decimal(m).drop_last() == decimal(m / 10));
            assert(decimal(n).drop_last() == decimal(n / 10));
            decimal_is_injective(m / 10, n / 10);
        }
    }
}

/// A join is the parts and nothing else: one part is itself, none is nothing, and each further
/// part stands at the end, behind a separator.
pub proof fn join_is_the_parts_apart(parts: Seq<Seq<char>>, next: Seq<char>, sep: Seq<char>)
    ensures
        join(Seq::empty(), sep).len() == 0,
        join(seq![next], sep) == next,
        parts.len() > 0 ==> join(parts.push(next), sep) == join(parts, sep) + sep + next,
{
    assert(parts.push(next).drop_last() == parts);
}

/// Trimming takes white space from the ends and nothing else: what is left begins and ends with
/// another character, and stands in the text between white space.
pub proof fn trimming_takes_only_the_ends(s: Seq<char>)
    ensures
        trimmed(s).len() > 0 ==> !is_white_space(trimmed(s)[0]) && !is_white_space(
            trimmed(s).last(),
        ),
        exists|from: int, to: int|
            #![trigger s.subrange(from, to)]
            0 <= from <= to <= s.len() && trimmed(s) == s.subrange(from, to) && (forall|i: int|
                0 <= i < from || to <= i < s.len() ==> is_white_space(#[trigger] s[i])),
{
    lemma_trim_start_shape(s);
    let t = trim_start(s);
    lemma_trim_end_shape(t);
    let from = s.len() - t.len();
    let to = from + trimmed(s).len();
    assert(t == s.skip(from));
    assert(trimmed(s) == s.subrange(from, to));
    assert forall|i: int| 0 <= i < from || to <= i < s.len() implies is_white_space(
        #[trigger] s[i],
    ) by {
        if i >= to {
            assert(s[i] == t[i - from]);
        }
    }
    if trimmed(s).len() > 0 {
        assert(trimmed(s)[0] == t[0]);
    }
}

/// Texts stand in the order of their characters: what two texts begin with in common plays no
/// part, the first character in which they differ decides, and a text stands before any longer
/// one that begins with it.
pub proof fn texts_stand_in_the_order_of_their_characters(
    common: Seq<char>,
    c: char,
    d: char,
    x: Seq<char>,
    y: Seq<char>,
)
    ensures
        c != d ==> (at_most(common.push(c) + x, common.push(d) + y) <==> c < d),
        at_most(common, common + x),
        x.len() > 0 ==> !at_most(common + x, common),
    decreases common.len(),
{
    let a = common.push(c) + x;
    let b = common.push(d) + y;
    if common.len() == 0 {
        assert(a[0] == c && b[0] == d);
    } else {
        let t = common.drop_first();
        texts_stand_in_the_order_of_their_characters(t, c, d, x, y);
        assert(a[0] == common[0] && b[0] == common[0]);
        assert(a.drop_first() == t.push(c) + x);
        assert(b.drop_first() == t.push(d) + y);
        assert((common + x)[0] == common[0]);
        assert((common + x).drop_first() == t + x);
    }
}

proof fn lemma_comma_is(s: Seq<char>, n: int)
    requires
        0 <= n <= s.len(),
        forall|i: int| 0 <= i < n ==> #[trigger] s[i] != ',',
        n < s.len() ==> s[n] == ',',
    ensures
        comma_at(s) == n,
{
    lemma_comma_at(s);
    if comma_at(s) < n {
        assert(s[comma_at(s) as int] != ',');
    }
    if n < comma_at(s) {
        assert(s[n] != ',');
    }
}

/// A list goes comma by comma: what stands before a comma and what stands behind it are listed one
/// behind the other, and what holds no comma is one item without the white space around it, or
/// none where there is nothing but white space.
pub proof fn lists_go_comma_by_comma(a: Seq<char>, b: Seq<char>, piece: Seq<char>)
    ensures
        comma_list(a.push(',') + b) == comma_list(a) + comma_list(b),
        !piece.contains(',') && is_blank(piece) ==> comma_list(piece).len() == 0,
        !piece.contains(',') && !is_blank(piece) ==> comma_list(piece) == seq![trimmed(piece)],
    decreases a.len(),
{
    trimmed_is_empty_iff_blank(piece);
    if !piece.contains(',') {
        lemma_comma_is(piece, piece.len() as int);
    }
    let s = a.push(',') + b;
    lemma_comma_at(a);
    let n = comma_at(a) as int;
    assert forall|i: int| 0 <= i < n implies #[trigger] s[i] != ',' by {
        assert(s[i] == a[i]);
    }
    if n == a.len() {
        lemma_comma_is(s, n);
        assert(s.take(n) == a);
        assert(s.skip(n + 1) == b);
    } else {
        assert(s[n] == a[n]);
        lemma_comma_is(s, n);
        let rest = a.skip(n + 1);
        assert(s.take(n) == a.take(n));
        assert(s.skip(n + 1) == rest.push(',') + b);
        lists_go_comma_by_comma(rest, b, piece);
        assert(trimmed_piece(a.take(n)) + (comma_list(rest) + comma_list(b)) == (trimmed_piece(
            a.take(n),
        ) + comma_list(rest)) + comma_list(b));
    }
}

} // verus!
