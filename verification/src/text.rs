//! Verified operations on text.
//!
//! A `str` or `String` is viewed as its sequence of characters. Order on text is the
//! lexicographic order of code points, which is also the order that `String` has.

use vstd::prelude::*;

verus! {

/// `String::push` appends the given character to the end of the string.
pub assume_specification[ String::push ](s: &mut String, c: char)
    ensures
        final(s)@ == old(s)@.push(c),
;

/// Whether a character is shown as it is between quotes.
pub open spec fn is_plain(c: char) -> bool {
    ' ' <= c && c <= '~' && c != '"' && c != '\'' && c != '\\'
}

/// What the `Debug` implementation of `str` makes of a text.
pub uninterp spec fn quoted(text: Seq<char>) -> Seq<char>;

/// Calls the `Debug` implementation of `str`, which puts a text between quotes and escapes what
/// needs it. Claimed of it: the result depends on the text alone, and printable ASCII other
/// than quotes and backslashes stands there as it is.
#[verifier::external_body]
pub(crate) fn quote(text: &str) -> (quotes: String)
    ensures
        quotes@ == quoted(text@),
        (forall|i: int| 0 <= i < text@.len() ==> is_plain(#[trigger] text@[i])) ==> quotes@
            == seq!['"'] + text@ + seq!['"'],
{
    format!("{text:?}")
}

/// How two texts compare.
#[derive(Clone, Copy, PartialEq, Eq, Structural, Debug)]
pub enum Order {
    Before,
    Same,
    After,
}

/// `a` and `b` agree up to position `k`, where `a` ends or holds the smaller character.
pub open spec fn precedes_at(a: Seq<char>, b: Seq<char>, k: int) -> bool {
    &&& 0 <= k <= a.len()
    &&& k < b.len()
    &&& forall|j: int| 0 <= j < k ==> a[j] == b[j]
    &&& k == a.len() || a[k] < b[k]
}

/// Whether `a` comes strictly before `b`.
pub open spec fn precedes(a: Seq<char>, b: Seq<char>) -> bool {
    exists|k: int| precedes_at(a, b, k)
}

/// No text comes before itself.
pub proof fn precedes_irreflexive(a: Seq<char>)
    ensures
        !precedes(a, a),
{
}

/// Two texts never come before each other.
pub proof fn precedes_asymmetric(a: Seq<char>, b: Seq<char>)
    requires
        precedes(a, b),
    ensures
        !precedes(b, a),
        a != b,
{
    let i = choose|k: int| precedes_at(a, b, k);
    if precedes(b, a) {
        let j = choose|k: int| precedes_at(b, a, k);
        if i < j {
            assert(b[i] == a[i]);
        } else if j < i {
            assert(a[j] == b[j]);
        }
        assert(false);
    }
}

/// The order on text is transitive.
pub proof fn precedes_transitive(a: Seq<char>, b: Seq<char>, c: Seq<char>)
    requires
        precedes(a, b),
        precedes(b, c),
    ensures
        precedes(a, c),
{
    let i = choose|k: int| precedes_at(a, b, k);
    let j = choose|k: int| precedes_at(b, c, k);
    let k = if i <= j { i } else { j };
    assert(precedes_at(a, c, k));
}

/// The characters of `s`.
pub fn chars_of(s: &str) -> (chars: Vec<char>)
    ensures
        chars@ == s@,
{
    let mut chars: Vec<char> = Vec::new();
    for c in it: s.chars()
        invariant
            it.seq() == s@,
            chars@ == s@.take(it.index()),
    {
        chars.push(c);
        assert(chars@ =~= s@.take(it.index() + 1));
    }
    assert(s@.take(s@.len() as int) =~= s@);
    chars
}

/// The text made of `chars[from..to]`.
pub fn text_of(chars: &Vec<char>, from: usize, to: usize) -> (s: String)
    requires
        from <= to <= chars@.len(),
    ensures
        s@ == chars@.subrange(from as int, to as int),
{
    let mut s = String::new();
    let mut i: usize = from;
    assert(s@ =~= chars@.subrange(from as int, from as int));
    while i < to
        invariant
            from <= i <= to <= chars@.len(),
            s@ == chars@.subrange(from as int, i as int),
        decreases to - i,
    {
        s.push(chars[i]);
        i += 1;
        assert(s@ =~= chars@.subrange(from as int, i as int));
    }
    s
}

/// Compares two texts.
pub fn compare(a: &str, b: &str) -> (order: Order)
    ensures
        order == Order::Before <==> precedes(a@, b@),
        order == Order::Same <==> a@ == b@,
        order == Order::After <==> precedes(b@, a@),
{
    let x = chars_of(a);
    let y = chars_of(b);
    let mut i: usize = 0;
    while i < x.len() && i < y.len() && x[i] == y[i]
        invariant
            x@ == a@,
            y@ == b@,
            i <= x@.len(),
            i <= y@.len(),
            forall|j: int| 0 <= j < i ==> x@[j] == y@[j],
        decreases x@.len() - i,
    {
        i += 1;
    }
    if i == x.len() {
        if i == y.len() {
            assert(a@ =~= b@);
            proof {
                precedes_irreflexive(a@);
            }
            Order::Same
        } else {
            proof {
                assert(precedes_at(a@, b@, i as int));
                precedes_asymmetric(a@, b@);
            }
            Order::Before
        }
    } else if i == y.len() || y[i] < x[i] {
        proof {
            assert(precedes_at(b@, a@, i as int));
            precedes_asymmetric(b@, a@);
        }
        Order::After
    } else {
        proof {
            assert(precedes_at(a@, b@, i as int));
            precedes_asymmetric(a@, b@);
        }
        Order::Before
    }
}

/// Whether two texts are equal.
pub fn same_text(a: &str, b: &str) -> (same: bool)
    ensures
        same == (a@ == b@),
{
    match compare(a, b) {
        Order::Same => true,
        _ => false,
    }
}

/// Whether `s` begins with `prefix`.
pub open spec fn begins_with(s: Seq<char>, prefix: Seq<char>) -> bool {
    prefix.len() <= s.len() && s.take(prefix.len() as int) == prefix
}

/// Whether `s` ends with `suffix`.
pub open spec fn ends_with(s: Seq<char>, suffix: Seq<char>) -> bool {
    suffix.len() <= s.len() && s.skip(s.len() - suffix.len()) == suffix
}

/// `s` without its leading `prefix`, or `None` where `s` does not begin with it.
pub open spec fn without_prefix(s: Seq<char>, prefix: Seq<char>) -> Option<Seq<char>> {
    if begins_with(s, prefix) {
        Some(s.skip(prefix.len() as int))
    } else {
        None
    }
}

/// `s` without its trailing `suffix`, or `None` where `s` does not end with it.
pub open spec fn without_suffix(s: Seq<char>, suffix: Seq<char>) -> Option<Seq<char>> {
    if ends_with(s, suffix) {
        Some(s.take(s.len() - suffix.len()))
    } else {
        None
    }
}

/// `s` with each occurrence of `pattern` taken out, read from the left.
pub open spec fn without_all(s: Seq<char>, pattern: Seq<char>) -> Seq<char>
    decreases s.len(),
{
    if pattern.len() == 0 || s.len() == 0 {
        s
    } else if begins_with(s, pattern) {
        without_all(s.skip(pattern.len() as int), pattern)
    } else {
        seq![s[0]] + without_all(s.skip(1), pattern)
    }
}

/// The pieces of `s` between the occurrences of `separator`.
pub open spec fn pieces(s: Seq<char>, separator: char) -> Seq<Seq<char>>
    decreases s.len(),
{
    if s.len() == 0 {
        seq![Seq::<char>::empty()]
    } else {
        let before = pieces(s.drop_last(), separator);
        if s.last() == separator {
            before.push(Seq::<char>::empty())
        } else {
            before.update(before.len() - 1, before.last().push(s.last()))
        }
    }
}

/// The views of a list of texts.
pub open spec fn views(list: Seq<String>) -> Seq<Seq<char>> {
    list.map_values(|s: String| s@)
}

/// Whether `chars[at..]` begins with `pattern`.
fn matches_at(chars: &Vec<char>, at: usize, pattern: &Vec<char>) -> (found: bool)
    requires
        at <= chars@.len(),
    ensures
        found == begins_with(chars@.skip(at as int), pattern@),
{
    let n: usize = pattern.len();
    let total: usize = chars.len();
    if n > total - at {
        return false;
    }
    let ghost tail = chars@.skip(at as int);
    let mut i: usize = 0;
    while i < n
        invariant
            i <= n == pattern@.len(),
            at + n <= total == chars@.len(),
            tail == chars@.skip(at as int),
            forall|j: int| 0 <= j < i ==> tail[j] == pattern@[j],
        decreases n - i,
    {
        if chars[at + i] != pattern[i] {
            assert(tail[i as int] != pattern@[i as int]);
            assert(tail.take(n as int)[i as int] == tail[i as int]);
            return false;
        }
        i += 1;
    }
    assert(tail.take(n as int) =~= pattern@);
    true
}

/// `s` without its leading `prefix`, or `None` where `s` does not begin with it.
pub fn strip_prefix(s: &str, prefix: &str) -> (rest: Option<String>)
    ensures
        rest matches Some(r) ==> without_prefix(s@, prefix@) == Some(r@),
        rest is None <==> without_prefix(s@, prefix@) is None,
{
    let chars = chars_of(s);
    let pattern = chars_of(prefix);
    assert(chars@.skip(0) =~= chars@);
    if matches_at(&chars, 0, &pattern) {
        Some(text_of(&chars, pattern.len(), chars.len()))
    } else {
        None
    }
}

/// `s` without its trailing `suffix`, or `None` where `s` does not end with it.
pub fn strip_suffix(s: &str, suffix: &str) -> (rest: Option<String>)
    ensures
        rest matches Some(r) ==> without_suffix(s@, suffix@) == Some(r@),
        rest is None <==> without_suffix(s@, suffix@) is None,
{
    let chars = chars_of(s);
    let pattern = chars_of(suffix);
    if pattern.len() > chars.len() {
        return None;
    }
    let at: usize = chars.len() - pattern.len();
    assert(chars@.skip(at as int).take(pattern@.len() as int) =~= chars@.skip(at as int));
    if matches_at(&chars, at, &pattern) {
        assert(chars@.subrange(0, at as int) =~= chars@.take(at as int));
        Some(text_of(&chars, 0, at))
    } else {
        None
    }
}

/// `s` with each occurrence of `pattern` taken out, read from the left.
pub fn remove_all(s: &str, pattern: &str) -> (rest: String)
    ensures
        rest@ == without_all(s@, pattern@),
{
    let chars = chars_of(s);
    let out = chars_of(pattern);
    if out.len() == 0 {
        assert(chars@.subrange(0, chars@.len() as int) =~= chars@);
        return text_of(&chars, 0, chars.len());
    }
    let mut rest = String::new();
    let mut i: usize = 0;
    assert(s@.skip(0) =~= s@);
    while i < chars.len()
        invariant
            chars@ == s@,
            out@ == pattern@,
            out@.len() > 0,
            i <= chars@.len(),
            without_all(s@, pattern@) =~= rest@ + without_all(s@.skip(i as int), pattern@),
        decreases chars@.len() - i,
    {
        if matches_at(&chars, i, &out) {
            assert(s@.skip(i as int).skip(out@.len() as int) =~= s@.skip(i + out@.len()));
            i += out.len();
        } else {
            assert(s@.skip(i as int).skip(1) =~= s@.skip(i + 1));
            rest.push(chars[i]);
            i += 1;
        }
    }
    rest
}

/// The pieces of `s` between the occurrences of `separator`.
pub fn split(s: &str, separator: char) -> (list: Vec<String>)
    ensures
        views(list@) == pieces(s@, separator),
        list@.len() > 0,
{
    let chars = chars_of(s);
    let mut list: Vec<String> = Vec::new();
    let mut piece = String::new();
    let mut i: usize = 0;
    assert(s@.take(0) =~= Seq::<char>::empty());
    assert(views(list@).push(piece@) =~= pieces(s@.take(0), separator));
    while i < chars.len()
        invariant
            chars@ == s@,
            i <= chars@.len(),
            views(list@).push(piece@) =~= pieces(s@.take(i as int), separator),
        decreases chars@.len() - i,
    {
        assert(s@.take(i + 1).drop_last() =~= s@.take(i as int));
        let ghost before = pieces(s@.take(i as int), separator);
        assert(before.len() == list@.len() + 1);
        assert(before.last() == piece@);
        if chars[i] == separator {
            let ghost done = list@;
            list.push(piece);
            piece = String::new();
            assert(views(list@) =~= views(done).push(before.last()));
        } else {
            piece.push(chars[i]);
        }
        i += 1;
    }
    assert(s@.take(s@.len() as int) =~= s@);
    let ghost done = list@;
    let ghost last = piece@;
    list.push(piece);
    assert(views(list@) =~= views(done).push(last));
    list
}

/// Of two different texts, one comes before the other.
pub proof fn precedes_total(a: Seq<char>, b: Seq<char>)
    requires
        a != b,
    ensures
        precedes(a, b) || precedes(b, a),
{
    let n = if a.len() < b.len() {
        a.len() as int
    } else {
        b.len() as int
    };
    if forall|j: int| 0 <= j < n ==> a[j] == b[j] {
        if a.len() == b.len() {
            assert(a =~= b);
        } else if a.len() < b.len() {
            assert(precedes_at(a, b, n));
        } else {
            assert(precedes_at(b, a, n));
        }
    } else {
        let k = first_difference(a, b, n);
        if a[k] < b[k] {
            assert(precedes_at(a, b, k));
        } else {
            assert(precedes_at(b, a, k));
        }
    }
}

/// Where two texts differ among their first `n` characters, there is a first such place.
proof fn first_difference(a: Seq<char>, b: Seq<char>, n: int) -> (k: int)
    requires
        0 <= n <= a.len(),
        n <= b.len(),
        !(forall|j: int| 0 <= j < n ==> a[j] == b[j]),
    ensures
        0 <= k < n,
        a[k] != b[k],
        forall|j: int| 0 <= j < k ==> a[j] == b[j],
    decreases n,
{
    if forall|j: int| 0 <= j < n - 1 ==> a[j] == b[j] {
        n - 1
    } else {
        first_difference(a, b, n - 1)
    }
}

/// Behind what two texts share, the smaller character decides, whatever follows.
pub proof fn smaller_character_comes_first(
    shared: Seq<char>,
    x: char,
    a: Seq<char>,
    y: char,
    b: Seq<char>,
)
    requires
        x < y,
    ensures
        precedes(shared.push(x) + a, shared.push(y) + b),
{
    let (s, t) = (shared.push(x) + a, shared.push(y) + b);
    assert(precedes_at(s, t, shared.len() as int));
}

/// A text comes before every longer one that begins with it.
pub proof fn beginning_comes_first(a: Seq<char>, more: Seq<char>)
    requires
        more.len() > 0,
    ensures
        precedes(a, a + more),
{
    assert(precedes_at(a, a + more, a.len() as int));
}

/// Stripping a prefix undoes putting it in front, and nothing else is a prefix.
pub proof fn prefix_is_what_stands_in_front(s: Seq<char>, prefix: Seq<char>, rest: Seq<char>)
    ensures
        without_prefix(prefix + rest, prefix) == Some(rest),
        without_prefix(s, prefix) == Some(rest) <==> s == prefix + rest,
        without_prefix(s, prefix) is None <==> !(prefix.len() <= s.len() && forall|i: int|
            0 <= i < prefix.len() ==> s[i] == prefix[i]),
{
    let whole = prefix + rest;
    assert(whole.take(prefix.len() as int) =~= prefix);
    assert(whole.skip(prefix.len() as int) =~= rest);
    if begins_with(s, prefix) {
        assert(s =~= s.take(prefix.len() as int) + s.skip(prefix.len() as int));
        assert forall|i: int| 0 <= i < prefix.len() implies s[i] == prefix[i] by {
            assert(s.take(prefix.len() as int)[i] == prefix[i]);
        }
    } else if prefix.len() <= s.len() && forall|i: int| 0 <= i < prefix.len() ==> s[i] == prefix[i] {
        assert(s.take(prefix.len() as int) =~= prefix);
    }
}

/// Stripping a suffix undoes putting it behind, and nothing else is a suffix.
pub proof fn suffix_is_what_stands_behind(s: Seq<char>, rest: Seq<char>, suffix: Seq<char>)
    ensures
        without_suffix(rest + suffix, suffix) == Some(rest),
        without_suffix(s, suffix) == Some(rest) <==> s == rest + suffix,
        without_suffix(s, suffix) is None <==> !(suffix.len() <= s.len() && forall|i: int|
            0 <= i < suffix.len() ==> s[s.len() - suffix.len() + i] == suffix[i]),
{
    let whole = rest + suffix;
    assert(whole.skip(whole.len() - suffix.len()) =~= suffix);
    assert(whole.take(whole.len() - suffix.len()) =~= rest);
    if suffix.len() <= s.len() {
        let cut = s.len() - suffix.len();
        assert(s =~= s.take(cut) + s.skip(cut));
        if ends_with(s, suffix) {
            assert forall|i: int| 0 <= i < suffix.len() implies s[cut + i] == suffix[i] by {
                assert(s.skip(cut)[i] == suffix[i]);
            }
        } else if forall|i: int| 0 <= i < suffix.len() ==> s[cut + i] == suffix[i] {
            assert(s.skip(cut) =~= suffix);
        }
    }
}

/// Removing a pattern takes out its first occurrence, and goes on behind it. A text without
/// occurrence stays as it is.
pub proof fn occurrences_are_taken_out(before: Seq<char>, pattern: Seq<char>, behind: Seq<char>)
    requires
        pattern.len() > 0,
        forall|i: int|
            0 <= i < before.len() ==> !begins_with(
                #[trigger] (before + pattern + behind).skip(i),
                pattern,
            ),
    ensures
        without_all(before + pattern + behind, pattern) == before + without_all(behind, pattern),
    decreases before.len(),
{
    let s = before + pattern + behind;
    assert(s.skip(0) =~= s);
    if before.len() == 0 {
        assert(s =~= pattern + behind);
        prefix_is_what_stands_in_front(s, pattern, behind);
        assert(s.skip(pattern.len() as int) =~= behind);
        assert(before + without_all(behind, pattern) =~= without_all(behind, pattern));
    } else {
        let rest = before.skip(1);
        assert(s.skip(1) =~= rest + pattern + behind);
        assert forall|i: int| 0 <= i < rest.len() implies !begins_with(
            #[trigger] (rest + pattern + behind).skip(i),
            pattern,
        ) by {
            assert(s.skip(i + 1) =~= (rest + pattern + behind).skip(i));
        }
        occurrences_are_taken_out(rest, pattern, behind);
        assert(!begins_with(s.skip(0), pattern));
        assert(seq![s[0]] + (rest + without_all(behind, pattern)) =~= before + without_all(
            behind,
            pattern,
        ));
    }
}

/// Removing a pattern leaves a text as it is where the pattern does not occur.
pub proof fn nothing_else_is_taken_out(s: Seq<char>, pattern: Seq<char>)
    requires
        pattern.len() > 0,
        forall|i: int| 0 <= i < s.len() ==> !begins_with(#[trigger] s.skip(i), pattern),
    ensures
        without_all(s, pattern) == s,
    decreases s.len(),
{
    if s.len() > 0 {
        assert(s.skip(0) =~= s);
        assert(!begins_with(s.skip(0), pattern));
        let rest = s.skip(1);
        assert forall|i: int| 0 <= i < rest.len() implies !begins_with(
            #[trigger] rest.skip(i),
            pattern,
        ) by {
            assert(s.skip(i + 1) =~= rest.skip(i));
        }
        nothing_else_is_taken_out(rest, pattern);
        assert(seq![s[0]] + rest =~= s);
    }
}

/// Splitting takes the text apart at each separator.
pub proof fn separators_split(a: Seq<char>, separator: char, b: Seq<char>)
    ensures
        pieces(a.push(separator) + b, separator) == pieces(a, separator) + pieces(b, separator),
        pieces(a, separator).len() > 0,
    decreases a.len() + b.len(),
{
    if a.len() > 0 {
        separators_split(a.drop_last(), separator, Seq::empty());
    }
    let whole = a.push(separator) + b;
    if b.len() == 0 {
        assert(whole =~= a.push(separator));
        assert(whole.drop_last() =~= a);
        assert(pieces(whole, separator) =~= pieces(a, separator) + pieces(b, separator));
    } else {
        assert(whole.drop_last() =~= a.push(separator) + b.drop_last());
        assert(whole.last() == b.last());
        separators_split(a, separator, b.drop_last());
        if b.len() > 1 {
            separators_split(b.drop_last().drop_last(), separator, Seq::empty());
        }
        let (x, y) = (pieces(a, separator), pieces(b.drop_last(), separator));
        assert((x + y).last() == y.last());
        assert((x + y).drop_last() =~= x + y.drop_last());
        assert(pieces(whole, separator) =~= x + pieces(b, separator));
    }
}

/// A text without separator is one piece.
pub proof fn text_without_separator_is_whole(s: Seq<char>, separator: char)
    requires
        forall|i: int| 0 <= i < s.len() ==> s[i] != separator,
    ensures
        pieces(s, separator) == seq![s],
    decreases s.len(),
{
    if s.len() > 0 {
        text_without_separator_is_whole(s.drop_last(), separator);
        assert(s.last() != separator);
        assert(s.drop_last().push(s.last()) =~= s);
        assert(pieces(s, separator) =~= seq![s]);
    } else {
        assert(s =~= Seq::<char>::empty());
    }
}

/// The views of texts are theirs, one for one.
pub proof fn views_are_of_each(list: Seq<String>)
    ensures
        views(list).len() == list.len(),
        forall|i: int| 0 <= i < list.len() ==> #[trigger] views(list)[i] == list[i]@,
{
}

} // verus!
