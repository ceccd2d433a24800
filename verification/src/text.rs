//! Text as sequences of characters: searching, cutting, splitting and joining.
//!
//! Positions count characters, not bytes.

use vstd::prelude::*;
use vstd::utf8::is_ascii_chars;

verus! {

/// `part` stands in `s` at position `i`.
pub open spec fn stands_at<T>(s: Seq<T>, part: Seq<T>, i: int) -> bool {
    &&& 0 <= i
    &&& i + part.len() <= s.len()
    &&& s.subrange(i, i + part.len()) =~= part
}

/// `part` stands in `s` at position `i` and at no position before `i`.
pub open spec fn first_at<T>(s: Seq<T>, part: Seq<T>, i: int) -> bool {
    &&& stands_at(s, part, i)
    &&& forall|j: int| 0 <= j < i ==> !#[trigger] stands_at(s, part, j)
}

/// `part` stands somewhere in `s`.
pub open spec fn occurs<T>(s: Seq<T>, part: Seq<T>) -> bool {
    exists|i: int| #[trigger] stands_at(s, part, i)
}

/// What is left of `s` from the first place on where `part` stands.
pub open spec fn from_first<T>(s: Seq<T>, part: Seq<T>) -> Seq<T> {
    s.skip(choose|i: int| first_at(s, part, i))
}

/// How many items of `s` come before its first `c`; all of them where there is none.
pub open spec fn count_before<T>(s: Seq<T>, c: T) -> int
    decreases s.len(),
{
    if s.len() == 0 || s[0] == c {
        0
    } else {
        1 + count_before(s.skip(1), c)
    }
}

/// The part of `s` before its first `c`; all of `s` where there is none.
pub open spec fn before_first<T>(s: Seq<T>, c: T) -> Seq<T> {
    s.take(count_before(s, c))
}

/// The part of `s` after its last `c`; all of `s` where there is none.
pub open spec fn after_last<T>(s: Seq<T>, c: T) -> Seq<T>
    decreases s.len(),
{
    if s.len() == 0 || s.last() == c {
        Seq::empty()
    } else {
        after_last(s.drop_last(), c).push(s.last())
    }
}

/// The pieces of `s` between the items equal to `c`; one piece more than there are such items.
pub open spec fn split<T>(s: Seq<T>, c: T) -> Seq<Seq<T>>
    decreases s.len(),
{
    let n = count_before(s, c);
    if 0 <= n < s.len() {
        seq![s.take(n)] + split(s.skip(n + 1), c)
    } else {
        seq![s]
    }
}

/// The pieces of `s` between the places where `separator` stands, looked for from the left.
pub open spec fn split_at_each<T>(s: Seq<T>, separator: Seq<T>) -> Seq<Seq<T>>
    decreases s.len(),
{
    let i = choose|i: int| first_at(s, separator, i);
    if separator.len() > 0 && first_at(s, separator, i) {
        seq![s.take(i)] + split_at_each(s.skip(i + separator.len()), separator)
    } else {
        seq![s]
    }
}

/// The pieces one after the other, with `separator` between each two.
pub open spec fn join<T>(pieces: Seq<Seq<T>>, separator: Seq<T>) -> Seq<T>
    decreases pieces.len(),
{
    if pieces.len() == 0 {
        Seq::empty()
    } else if pieces.len() == 1 {
        pieces[0]
    } else {
        join(pieces.drop_last(), separator) + separator + pieces.last()
    }
}

/// The lower case letter of an ASCII capital; any other character as it is.
pub open spec fn ascii_lower(c: char) -> char {
    if 'A' <= c <= 'Z' {
        ((c as u8) + 32) as char
    } else {
        c
    }
}

/// `s` with its ASCII capitals in lower case.
pub open spec fn ascii_lowered(s: Seq<char>) -> Seq<char> {
    s.map_values(|c: char| ascii_lower(c))
}

/// The capital of an ASCII small letter; any other character as it is.
pub open spec fn ascii_upper(c: char) -> char {
    if 'a' <= c <= 'z' {
        ((c as u8) - 32) as char
    } else {
        c
    }
}

/// `s` with its ASCII small letters as capitals.
pub open spec fn ascii_raised(s: Seq<char>) -> Seq<char> {
    s.map_values(|c: char| ascii_upper(c))
}

/// There is at most one first place.
pub proof fn lemma_first_at_unique<T>(s: Seq<T>, part: Seq<T>, i: int, j: int)
    requires
        first_at(s, part, i),
        first_at(s, part, j),
    ensures
        i == j,
{
    if i < j {
        assert(!stands_at(s, part, i));
    }
    if j < i {
        assert(!stands_at(s, part, j));
    }
}

/// From the first place on, `s` is what `from_first` gives.
pub proof fn lemma_from_first<T>(s: Seq<T>, part: Seq<T>, i: int)
    requires
        first_at(s, part, i),
    ensures
        from_first(s, part) == s.skip(i),
{
    let k = choose|k: int| first_at(s, part, k);
    lemma_first_at_unique(s, part, i, k);
}

/// `count_before` is the length of the longest beginning without `c`.
pub proof fn lemma_count_before<T>(s: Seq<T>, c: T)
    ensures
        0 <= count_before(s, c) <= s.len(),
        forall|j: int| 0 <= j < count_before(s, c) ==> s[j] != c,
        count_before(s, c) < s.len() ==> s[count_before(s, c)] == c,
        s.contains(c) <==> count_before(s, c) < s.len(),
    decreases s.len(),
{
    if s.len() > 0 && s[0] != c {
        let rest = s.skip(1);
        lemma_count_before(rest, c);
        assert forall|j: int| 0 <= j < count_before(s, c) implies s[j] != c by {
            if j > 0 {
                assert(rest[j - 1] == s[j]);
            }
        }
        if count_before(s, c) < s.len() {
            assert(rest[count_before(rest, c)] == s[count_before(s, c)]);
        }
    }
    if s.contains(c) {
        let k = choose|k: int| 0 <= k < s.len() && s[k] == c;
        assert(s[k] == c);
    }
}

/// A beginning without `c` that ends at `c` or at the end is all that comes before `c`.
pub proof fn lemma_count_before_is<T>(s: Seq<T>, c: T, n: int)
    requires
        0 <= n <= s.len(),
        forall|j: int| 0 <= j < n ==> s[j] != c,
        n < s.len() ==> s[n] == c,
    ensures
        count_before(s, c) == n,
{
    lemma_count_before(s, c);
    let k = count_before(s, c);
    if k < n {
        assert(s[k] != c);
    }
    if n < k {
        assert(s[n] != c);
    }
}

/// There is always at least one piece.
pub proof fn lemma_split_nonempty<T>(s: Seq<T>, c: T)
    ensures
        split(s, c).len() > 0,
{
}

/// Two texts with a separator between them split into the pieces of both.
pub proof fn lemma_split_append<T>(a: Seq<T>, b: Seq<T>, c: T)
    ensures
        split(a.push(c) + b, c) == split(a, c) + split(b, c),
    decreases a.len(),
{
    let whole = a.push(c) + b;
    let n = count_before(a, c);
    lemma_count_before(a, c);
    assert forall|j: int| 0 <= j < n implies whole[j] != c by {
        assert(whole[j] == a[j]);
    }
    assert(n < a.len() ==> whole[n] == a[n]);
    lemma_count_before_is(whole, c, n);
    if n < a.len() {
        assert(whole.take(n) =~= a.take(n));
        assert(whole.skip(n + 1) =~= a.skip(n + 1).push(c) + b);
        lemma_split_append(a.skip(n + 1), b, c);
        assert(split(whole, c) =~= split(a, c) + split(b, c));
    } else {
        assert(whole.take(n) =~= a);
        assert(whole.skip(n + 1) =~= b);
        assert(split(whole, c) =~= split(a, c) + split(b, c));
    }
}

/// A text without the separator is one piece.
pub proof fn lemma_split_single<T>(s: Seq<T>, c: T)
    requires
        !s.contains(c),
    ensures
        split(s, c) == seq![s],
{
    lemma_count_before(s, c);
}

/// No piece holds the separator.
pub proof fn lemma_split_pieces<T>(s: Seq<T>, c: T)
    ensures
        forall|i: int| 0 <= i < split(s, c).len() ==> !(#[trigger] split(s, c)[i]).contains(c),
    decreases s.len(),
{
    let n = count_before(s, c);
    lemma_count_before(s, c);
    if n < s.len() {
        let rest = s.skip(n + 1);
        lemma_split_pieces(rest, c);
        assert forall|i: int| 0 <= i < split(s, c).len() implies !(#[trigger] split(
            s,
            c,
        )[i]).contains(c) by {
            if i > 0 {
                assert(split(s, c)[i] == split(rest, c)[i - 1]);
            }
        }
    }
}

/// Splitting undoes joining, where no piece holds the separator.
pub proof fn lemma_split_join<T>(pieces: Seq<Seq<T>>, c: T)
    requires
        pieces.len() > 0,
        forall|i: int| 0 <= i < pieces.len() ==> !(#[trigger] pieces[i]).contains(c),
    ensures
        split(join(pieces, seq![c]), c) == pieces,
    decreases pieces.len(),
{
    if pieces.len() == 1 {
        lemma_split_single(pieces[0], c);
        assert(pieces =~= seq![pieces[0]]);
    } else {
        let before = pieces.drop_last();
        assert forall|i: int| 0 <= i < before.len() implies !(#[trigger] before[i]).contains(c) by {
            assert(before[i] == pieces[i]);
        }
        lemma_split_join(before, c);
        assert(!pieces[pieces.len() - 1].contains(c));
        lemma_split_single(pieces.last(), c);
        assert(join(pieces, seq![c]) =~= join(before, seq![c]).push(c) + pieces.last());
        lemma_split_append(join(before, seq![c]), pieces.last(), c);
        assert(pieces =~= before + seq![pieces.last()]);
    }
}

/// A joined row of pieces begins with its first piece.
pub proof fn lemma_join_first<T>(pieces: Seq<Seq<T>>, separator: Seq<T>)
    requires
        pieces.len() > 1,
    ensures
        join(pieces, separator) == pieces[0] + separator + join(pieces.skip(1), separator),
    decreases pieces.len(),
{
    reveal_with_fuel(join, 2);
    let before = pieces.drop_last();
    let rest = pieces.skip(1);
    if pieces.len() == 2 {
        assert(before[0] == pieces[0]);
        assert(rest[0] == pieces[1]);
    } else {
        lemma_join_first(before, separator);
        assert(before.skip(1) =~= rest.drop_last());
        assert(rest.last() == pieces.last());
        assert(join(pieces, separator) =~= pieces[0] + separator + join(rest, separator));
    }
}

/// Whether two texts hold the same characters.
pub fn same_text(a: &str, b: &str) -> (same: bool)
    ensures
        same == (a@ == b@),
{
    a.to_owned() == b.to_owned()
}

/// Whether `s` begins with `prefix`.
pub fn starts_with(s: &str, prefix: &str) -> (yes: bool)
    ensures
        yes == prefix@.is_prefix_of(s@),
{
    let n = prefix.unicode_len();
    if n <= s.unicode_len() {
        same_text(s.substring_char(0, n), prefix)
    } else {
        false
    }
}

/// Whether `s` ends with `suffix`.
pub fn ends_with(s: &str, suffix: &str) -> (yes: bool)
    ensures
        yes == suffix@.is_suffix_of(s@),
{
    let n = suffix.unicode_len();
    let len = s.unicode_len();
    if n <= len {
        same_text(s.substring_char(len - n, len), suffix)
    } else {
        false
    }
}

/// `s` from position `start` on.
pub fn text_from(s: &str, start: usize) -> (rest: &str)
    requires
        start <= s@.len(),
    ensures
        rest@ == s@.skip(start as int),
{
    let len = s.unicode_len();
    assert(s@.skip(start as int) =~= s@.subrange(start as int, len as int));
    s.substring_char(start, len)
}

/// What follows `prefix` in `s`, if `s` begins with it.
pub fn strip_prefix<'a>(s: &'a str, prefix: &str) -> (rest: Option<&'a str>)
    ensures
        match rest {
            Some(r) => prefix@.is_prefix_of(s@) && r@ == s@.skip(prefix@.len() as int),
            None => !prefix@.is_prefix_of(s@),
        },
{
    if starts_with(s, prefix) {
        Some(text_from(s, prefix.unicode_len()))
    } else {
        None
    }
}

/// The characters of `s`, in order.
pub fn chars_of(s: &str) -> (chars: Vec<char>)
    ensures
        chars@ == s@,
{
    let mut chars: Vec<char> = Vec::new();
    for c in it: s.chars()
        invariant
            it.seq() == s@,
            chars@ == s@.take(it.index()),
    {
        chars.push(c);
    }
    assert(s@.take(s@.len() as int) == s@);
    chars
}

/// Whether `part` stands in `s` at position `i`.
fn stands_here(s: &Vec<char>, part: &Vec<char>, i: usize) -> (yes: bool)
    requires
        i + part@.len() <= s@.len(),
    ensures
        yes == stands_at(s@, part@, i as int),
{
    let mut k: usize = 0;
    while k < part.len()
        invariant
            k <= part@.len(),
            i + part.len() <= s.len(),
            forall|j: int| 0 <= j < k ==> s@[i + j] == part@[j],
        decreases part@.len() - k,
    {
        if s[i + k] != part[k] {
            assert(s@.subrange(i as int, i + part@.len())[k as int] != part@[k as int]);
            return false;
        }
        k += 1;
    }
    assert(s@.subrange(i as int, i + part@.len()) =~= part@);
    true
}

/// The first position of `part` in `s`.
pub fn find(s: &str, part: &str) -> (position: Option<usize>)
    ensures
        match position {
            Some(i) => i <= s@.len() && first_at(s@, part@, i as int),
            None => !occurs(s@, part@),
        },
{
    let chars = chars_of(s);
    let wanted = chars_of(part);
    let mut i: usize = 0;
    while i <= chars.len()
        invariant
            chars@ == s@,
            wanted@ == part@,
            i <= chars@.len(),
            forall|j: int| 0 <= j < i ==> !#[trigger] stands_at(s@, part@, j),
        decreases chars@.len() - i,
    {
        if chars.len() - i < wanted.len() {
            return None;
        }
        if stands_here(&chars, &wanted, i) {
            return Some(i);
        }
        if i == chars.len() {
            return None;
        }
        i += 1;
    }
    None
}

/// Whether `part` stands somewhere in `s`.
pub fn contains(s: &str, part: &str) -> (yes: bool)
    ensures
        yes == occurs(s@, part@),
{
    match find(s, part) {
        Some(i) => {
            assert(stands_at(s@, part@, i as int));
            true
        },
        None => false,
    }
}

/// How many characters stand between position `start` and the next `c`, or the end.
fn run_length(s: &Vec<char>, start: usize, c: char) -> (n: usize)
    requires
        start <= s@.len(),
    ensures
        start + n <= s.len(),
        n == count_before(s@.skip(start as int), c),
{
    let ghost rest = s@.skip(start as int);
    let mut n: usize = 0;
    while start + n < s.len() && s[start + n] != c
        invariant
            start + n <= s.len(),
            rest == s@.skip(start as int),
            forall|j: int| 0 <= j < n ==> rest[j] != c,
        decreases s@.len() - start - n,
    {
        assert(rest[n as int] == s@[start + n]);
        n += 1;
    }
    proof {
        lemma_count_before_is(rest, c, n as int);
    }
    n
}

/// The part of `s` before its first `c`; all of `s` where there is none.
pub fn text_before_first(s: &str, c: char) -> (part: &str)
    ensures
        part@ == before_first(s@, c),
{
    let chars = chars_of(s);
    let n = run_length(&chars, 0, c);
    assert(s@.skip(0) =~= s@);
    s.substring_char(0, n)
}

/// The part of `s` after its last `c`; all of `s` where there is none.
pub fn text_after_last(s: &str, c: char) -> (part: &str)
    ensures
        part@ == after_last(s@, c),
{
    let chars = chars_of(s);
    let mut start: usize = chars.len();
    assert(s@.take(s@.len() as int) =~= s@);
    assert(after_last(s@, c) =~= after_last(s@.take(start as int), c) + s@.skip(start as int));
    while start > 0 && chars[start - 1] != c
        invariant
            chars@ == s@,
            start <= s@.len(),
            after_last(s@, c) =~= after_last(s@.take(start as int), c) + s@.skip(start as int),
        decreases start,
    {
        assert(s@.take(start as int).drop_last() =~= s@.take(start - 1));
        start -= 1;
    }
    text_from(s, start)
}

/// The pieces of `s` between its characters `c`.
pub fn split_text(s: &str, c: char) -> (pieces: Vec<String>)
    ensures
        pieces.deep_view() == split(s@, c),
{
    let chars = chars_of(s);
    let mut pieces: Vec<String> = Vec::new();
    let mut start: usize = 0;
    assert(s@.skip(0) =~= s@);
    assert(pieces.deep_view() + split(s@.skip(0), c) =~= split(s@, c));
    loop
        invariant
            chars@ == s@,
            start <= s@.len(),
            pieces.deep_view() + split(s@.skip(start as int), c) == split(s@, c),
        decreases s@.len() - start,
    {
        let n = run_length(&chars, start, c);
        let ghost rest = s@.skip(start as int);
        let ghost before = pieces.deep_view();
        let piece = s.substring_char(start, start + n).to_owned();
        assert(piece@ =~= rest.take(n as int));
        pieces.push(piece);
        assert(pieces.deep_view() =~= before.push(rest.take(n as int)));
        if start + n == chars.len() {
            assert(rest.take(n as int) =~= rest);
            assert(before + split(rest, c) =~= pieces.deep_view());
            return pieces;
        }
        proof {
            assert(rest.skip(n + 1) =~= s@.skip(start + n + 1));
            assert(before + split(rest, c) =~= pieces.deep_view() + split(rest.skip(n + 1), c));
        }
        start = start + n + 1;
    }
}

/// The pieces one after the other, with `separator` between each two.
pub fn join_text(pieces: &Vec<String>, separator: &str) -> (joined: String)
    ensures
        joined@ == join(pieces.deep_view(), separator@),
{
    let mut joined = String::new();
    let ghost all = pieces.deep_view();
    let mut i: usize = 0;
    while i < pieces.len()
        invariant
            i <= pieces@.len(),
            all == pieces.deep_view(),
            joined@ == join(all.take(i as int), separator@),
        decreases pieces@.len() - i,
    {
        proof {
            assert(all.take(i + 1).drop_last() =~= all.take(i as int));
            assert(all[i as int] == pieces@[i as int]@);
        }
        if i > 0 {
            joined.append(separator);
        }
        joined.append(pieces[i].as_str());
        i += 1;
    }
    assert(all.take(all.len() as int) =~= all);
    joined
}

/// `c`, in lower case if it is an ASCII capital.
fn lower(c: char) -> (l: char)
    ensures
        l == ascii_lower(c),
{
    if 'A' <= c && c <= 'Z' {
        ((c as u8) + 32) as char
    } else {
        c
    }
}

/// Whether two texts are the same but for the case of ASCII letters.
pub fn same_ignoring_ascii_case(a: &str, b: &str) -> (same: bool)
    ensures
        same == (ascii_lowered(a@) == ascii_lowered(b@)),
{
    let left = chars_of(a);
    let right = chars_of(b);
    if left.len() != right.len() {
        assert(ascii_lowered(a@).len() != ascii_lowered(b@).len());
        return false;
    }
    let mut i: usize = 0;
    while i < left.len()
        invariant
            left@ == a@,
            right@ == b@,
            left@.len() == right@.len(),
            i <= left@.len(),
            forall|j: int| 0 <= j < i ==> ascii_lower(a@[j]) == ascii_lower(b@[j]),
        decreases left@.len() - i,
    {
        if lower(left[i]) != lower(right[i]) {
            assert(ascii_lowered(a@)[i as int] != ascii_lowered(b@)[i as int]);
            return false;
        }
        i += 1;
    }
    assert(ascii_lowered(a@) =~= ascii_lowered(b@));
    true
}

/// The lower case text that std's `str::to_lowercase` makes of `s`.
pub uninterp spec fn lowercased(s: Seq<char>) -> Seq<char>;

/// The upper case text that std's `str::to_uppercase` makes of `s`.
pub uninterp spec fn uppercased(s: Seq<char>) -> Seq<char>;

/// `s` in lower case: of ASCII text only the capitals change, and any other text becomes what
/// `str::to_lowercase` makes of it.
pub open spec fn lower_text(s: Seq<char>) -> Seq<char> {
    if is_ascii_chars(s) {
        ascii_lowered(s)
    } else {
        lowercased(s)
    }
}

/// `s` in upper case: of ASCII text only the small letters change, and any other text becomes what
/// `str::to_uppercase` makes of it.
pub open spec fn upper_text(s: Seq<char>) -> Seq<char> {
    if is_ascii_chars(s) {
        ascii_raised(s)
    } else {
        uppercased(s)
    }
}

/// Calls std's `str::to_lowercase`. Claimed of it: the result depends on the text alone, and of
/// ASCII text it changes the capitals and nothing else.
#[verifier::external_body]
pub(crate) fn to_lowercase(s: &str) -> (lowered: String)
    ensures
        lowered@ == lowercased(s@),
        is_ascii_chars(s@) ==> lowered@ == ascii_lowered(s@),
{
    s.to_lowercase()
}

/// Calls std's `str::to_uppercase`. Claimed of it: the result depends on the text alone, and of
/// ASCII text it changes the small letters and nothing else.
#[verifier::external_body]
pub(crate) fn to_uppercase(s: &str) -> (raised: String)
    ensures
        raised@ == uppercased(s@),
        is_ascii_chars(s@) ==> raised@ == ascii_raised(s@),
{
    s.to_uppercase()
}

/// What is put between two texts occurs in the whole, and what occurs was put between two texts.
pub proof fn theorem_what_occurs_stands_between<T>(s: Seq<T>, a: Seq<T>, part: Seq<T>, b: Seq<T>)
    ensures
        occurs(a + part + b, part),
        occurs(s, part) ==> exists|x: Seq<T>, y: Seq<T>| s == #[trigger] (x + part + y),
{
    let whole = a + part + b;
    assert(whole.subrange(a.len() as int, a.len() as int + part.len()) =~= part);
    assert(stands_at(whole, part, a.len() as int));
    if occurs(s, part) {
        let i = choose|i: int| stands_at(s, part, i);
        let (x, y) = (s.take(i), s.skip(i + part.len()));
        assert(s =~= x + part + y);
    }
}

/// From the first place on where a text stands, nothing is lost: it is that text and all that
/// follows it.
pub proof fn theorem_from_first_keeps_the_rest<T>(a: Seq<T>, part: Seq<T>, b: Seq<T>)
    requires
        forall|j: int|
            0 <= j < a.len() ==> #[trigger] (a + part + b).subrange(j, j + part.len()) != part,
    ensures
        from_first(a + part + b, part) == part + b,
{
    let whole = a + part + b;
    let n = a.len() as int;
    assert(whole.subrange(n, n + part.len()) =~= part);
    assert forall|j: int| 0 <= j < n implies !#[trigger] stands_at(whole, part, j) by {
        assert(whole.subrange(j, j + part.len()) != part);
    }
    lemma_from_first(whole, part, n);
    assert(whole.skip(n) =~= part + b);
}

/// Before the first separator stands what was put before it, and all of a text that has none.
pub proof fn theorem_before_first_is_the_beginning<T>(a: Seq<T>, b: Seq<T>, c: T)
    requires
        !a.contains(c),
    ensures
        before_first(a.push(c) + b, c) == a,
        before_first(a, c) == a,
{
    let whole = a.push(c) + b;
    let n = a.len() as int;
    assert forall|j: int| 0 <= j < n implies whole[j] != c && a[j] != c by {
        assert(whole[j] == a[j]);
        assert(a.contains(a[j]));
    }
    assert(whole[n] == c);
    lemma_count_before_is(whole, c, n);
    lemma_count_before_is(a, c, n);
    assert(whole.take(n) =~= a);
    assert(a.take(n) =~= a);
}

/// After the last separator stands what was put after it, and all of a text that has none.
pub proof fn theorem_after_last_is_the_end<T>(a: Seq<T>, b: Seq<T>, c: T)
    requires
        !b.contains(c),
    ensures
        after_last(a.push(c) + b, c) == b,
        after_last(b, c) == b,
    decreases b.len(),
{
    let whole = a.push(c) + b;
    if b.len() == 0 {
        assert(whole.last() == c);
        assert(b =~= Seq::empty());
    } else {
        let before = b.drop_last();
        assert(b.contains(b[b.len() - 1]));
        assert forall|x: T| before.contains(x) implies b.contains(x) by {
            let k = choose|k: int| 0 <= k < before.len() && before[k] == x;
            assert(b[k] == x);
        }
        theorem_after_last_is_the_end(a, before, c);
        assert(whole.drop_last() =~= a.push(c) + before);
        assert(whole.last() == b.last());
        assert(before.push(b.last()) =~= b);
    }
}

/// Joining keeps every piece: one piece is the whole, and two rows of pieces are the one, the
/// separator and the other.
pub proof fn theorem_joining_adds_up<T>(a: Seq<Seq<T>>, b: Seq<Seq<T>>, separator: Seq<T>)
    requires
        a.len() > 0,
        b.len() > 0,
    ensures
        join(seq![a[0]], separator) == a[0],
        join(a + b, separator) == join(a, separator) + separator + join(b, separator),
    decreases b.len(),
{
    let whole = a + b;
    let before = b.drop_last();
    assert(whole.drop_last() =~= a + before);
    assert(whole.last() == b.last());
    if b.len() == 1 {
        assert(a + before =~= a);
        assert(join(b, separator) == b[0]);
    } else {
        theorem_joining_adds_up(a, before, separator);
        assert(join(whole, separator) =~= join(a, separator) + separator + join(b, separator));
    }
}

/// Splitting loses nothing: joined again, the pieces are the whole.
pub proof fn theorem_splitting_keeps_all<T>(s: Seq<T>, c: T)
    ensures
        split(s, c).len() > 0,
        join(split(s, c), seq![c]) == s,
    decreases s.len(),
{
    let n = count_before(s, c);
    lemma_count_before(s, c);
    if n < s.len() {
        let rest = s.skip(n + 1);
        theorem_splitting_keeps_all(rest, c);
        theorem_joining_adds_up(seq![s.take(n)], split(rest, c), seq![c]);
        assert(s =~= s.take(n) + seq![c] + rest);
    }
}

/// Only the ASCII letters have another case here: a capital and its small letter are 32 apart, and
/// every other character is its own.
pub proof fn theorem_ascii_letters_change_case(c: char)
    ensures
        'A' <= c <= 'Z' ==> ascii_lower(c) as u32 == c as u32 + 32,
        !('A' <= c <= 'Z') ==> ascii_lower(c) == c,
        'a' <= c <= 'z' ==> ascii_upper(c) as u32 == c as u32 - 32,
        !('a' <= c <= 'z') ==> ascii_upper(c) == c,
{
}

/// Text changes its case character by character, and no character is lost.
pub proof fn theorem_ascii_text_changes_case(s: Seq<char>)
    ensures
        ascii_lowered(s).len() == s.len(),
        ascii_raised(s).len() == s.len(),
        forall|i: int| 0 <= i < s.len() ==> #[trigger] ascii_lowered(s)[i] == ascii_lower(s[i]),
        forall|i: int| 0 <= i < s.len() ==> #[trigger] ascii_raised(s)[i] == ascii_upper(s[i]),
        is_ascii_chars(s) ==> lower_text(s) == ascii_lowered(s),
        is_ascii_chars(s) ==> upper_text(s) == ascii_raised(s),
        !is_ascii_chars(s) ==> lower_text(s) == lowercased(s),
        !is_ascii_chars(s) ==> upper_text(s) == uppercased(s),
{
}

} // verus!
