//! File system paths as Unix has them: bytes, with `/` between the names. The rules are those of
//! `std::path` on Unix, and no other system is served. On Windows no folder could be synchronised
//! in any case: a path without links has the extended form there, and so lies under no home
//! directory as the system tells it.
//!
//! Two paths count as the same where their parts are the same, so `a//b/.` and `a/b` are one path.

use crate::text::{
    count_before, lemma_count_before, lemma_count_before_is, lemma_split_append,
    lemma_split_nonempty, lemma_split_single, split,
};
use vstd::prelude::*;
use vstd::utf8::{decode_utf8, encode_scalar, encode_utf8, valid_utf8};

verus! {

/// The byte between two names of a path.
pub const SEPARATOR: u8 = 47;

/// The byte of which the names `.` and `..` are made.
pub const DOT: u8 = 46;

/// One part of a path.
#[derive(Debug, PartialEq, Eq)]
pub enum PathPart {
    /// The path begins at the root directory.
    RootDir,
    /// The path begins with `.`.
    CurDir,
    /// The name `..`.
    ParentDir,
    /// Any other name.
    Normal(Vec<u8>),
}

/// What a part stands for.
pub enum PartView {
    RootDir,
    CurDir,
    ParentDir,
    Normal(Seq<u8>),
}

impl DeepView for PathPart {
    type V = PartView;

    open spec fn deep_view(&self) -> PartView {
        match *self {
            PathPart::RootDir => PartView::RootDir,
            PathPart::CurDir => PartView::CurDir,
            PathPart::ParentDir => PartView::ParentDir,
            PathPart::Normal(name) => PartView::Normal(name@),
        }
    }
}

/// Whether a path begins at the root directory.
pub open spec fn is_absolute(path: Seq<u8>) -> bool {
    path.len() > 0 && path[0] == SEPARATOR
}

/// The parts that one name between separators gives: none for an empty name, and `.` counts only
/// at the very beginning.
pub open spec fn name_parts(name: Seq<u8>, at_start: bool) -> Seq<PartView> {
    if name.len() == 0 {
        seq![]
    } else if name =~= seq![DOT] {
        if at_start {
            seq![PartView::CurDir]
        } else {
            seq![]
        }
    } else if name =~= seq![DOT, DOT] {
        seq![PartView::ParentDir]
    } else {
        seq![PartView::Normal(name)]
    }
}

/// The parts that names after the first give.
pub open spec fn later_parts(names: Seq<Seq<u8>>) -> Seq<PartView>
    decreases names.len(),
{
    if names.len() == 0 {
        seq![]
    } else {
        later_parts(names.drop_last()) + name_parts(names.last(), false)
    }
}

/// The parts of a path.
pub open spec fn parts(path: Seq<u8>) -> Seq<PartView> {
    let names = split(path, SEPARATOR);
    let root: Seq<PartView> = if is_absolute(path) {
        seq![PartView::RootDir]
    } else {
        seq![]
    };
    root + name_parts(names[0], true) + later_parts(names.skip(1))
}

/// `path` seen from the directory `base`.
pub open spec fn joined(base: Seq<u8>, path: Seq<u8>) -> Seq<u8> {
    if is_absolute(path) {
        path
    } else if base.len() == 0 || base.last() == SEPARATOR {
        base + path
    } else {
        base.push(SEPARATOR) + path
    }
}

/// Whether `path` is `base` or lies under it.
pub open spec fn is_under(path: Seq<u8>, base: Seq<u8>) -> bool {
    parts(base).is_prefix_of(parts(path))
}

/// The text that std's `String::from_utf8_lossy` makes of `bytes`.
pub uninterp spec fn utf8_lossy(bytes: Seq<u8>) -> Seq<char>;

/// Calls std's `String::from_utf8_lossy`. Claimed of it: the text depends on the bytes alone, and
/// bytes that are UTF-8 give the text that they encode.
#[verifier::external_body]
pub(crate) fn lossy_text(bytes: &[u8]) -> (text: String)
    ensures
        text@ == utf8_lossy(bytes@),
        valid_utf8(bytes@) ==> text@ == decode_utf8(bytes@),
{
    String::from_utf8_lossy(bytes).into_owned()
}

/// The text in which a path is told: what it encodes where it is UTF-8, and otherwise what
/// `String::from_utf8_lossy` makes of it.
pub open spec fn path_text(path: Seq<u8>) -> Seq<char> {
    if valid_utf8(path) {
        decode_utf8(path)
    } else {
        utf8_lossy(path)
    }
}

/// `path` seen from the directory `base`, both as text.
pub open spec fn joined_text(base: Seq<char>, path: Seq<char>) -> Seq<char> {
    if path.len() > 0 && path[0] == '/' {
        path
    } else if base.len() == 0 || base.last() == '/' {
        base + path
    } else {
        base.push('/') + path
    }
}

/// The parts of a row of names are those of its beginning and then those of its end.
proof fn lemma_later_parts_append(a: Seq<Seq<u8>>, b: Seq<Seq<u8>>)
    ensures
        later_parts(a + b) == later_parts(a) + later_parts(b),
    decreases b.len(),
{
    if b.len() == 0 {
        assert(a + b =~= a);
        assert(later_parts(a) + later_parts(b) =~= later_parts(a));
    } else {
        assert((a + b).drop_last() =~= a + b.drop_last());
        lemma_later_parts_append(a, b.drop_last());
        assert(later_parts(a + b) =~= later_parts(a) + later_parts(b));
    }
}

/// Seen from a directory, a relative path is the directory's parts and then its own, in which a
/// leading `.` no longer counts.
pub proof fn lemma_joined_parts(base: Seq<u8>, path: Seq<u8>)
    requires
        base.len() > 0,
        !is_absolute(path),
    ensures
        parts(joined(base, path)) == parts(base) + later_parts(split(path, SEPARATOR)),
{
    let names = split(path, SEPARATOR);
    let stem = if base.last() == SEPARATOR {
        base.drop_last()
    } else {
        base
    };
    let whole = joined(base, path);
    assert(whole =~= stem.push(SEPARATOR) + path);
    lemma_split_append(stem, path, SEPARATOR);
    lemma_split_nonempty(stem, SEPARATOR);
    let stem_names = split(stem, SEPARATOR);
    assert((stem_names + names)[0] == stem_names[0]);
    assert((stem_names + names).skip(1) =~= stem_names.skip(1) + names);
    lemma_later_parts_append(stem_names.skip(1), names);
    assert(whole[0] == base[0]);
    if base.last() == SEPARATOR {
        let none: Seq<u8> = seq![];
        assert(base =~= stem.push(SEPARATOR) + none);
        lemma_split_append(stem, none, SEPARATOR);
        let last = split(none, SEPARATOR);
        assert(last =~= seq![none]);
        assert((stem_names + last).skip(1) =~= stem_names.skip(1) + last);
        assert((stem_names + last)[0] == stem_names[0]);
        lemma_later_parts_append(stem_names.skip(1), last);
        reveal_with_fuel(later_parts, 2);
        assert(later_parts(last) =~= seq![]);
        assert(later_parts(stem_names.skip(1)) + later_parts(last) =~= later_parts(
            stem_names.skip(1),
        ));
    }
    assert(parts(whole) =~= parts(base) + later_parts(names));
}

/// An empty path has no parts.
pub proof fn lemma_no_parts(path: Seq<u8>)
    requires
        path.len() == 0,
    ensures
        parts(path).len() == 0,
{
    assert(split(path, SEPARATOR) =~= seq![path]);
    assert(split(path, SEPARATOR).skip(1) =~= seq![]);
}

/// Names after the first give only names and `..`.
proof fn lemma_later_parts_kinds(names: Seq<Seq<u8>>)
    ensures
        forall|i: int|
            0 <= i < later_parts(names).len() ==> later_parts(names)[i] is Normal
                || later_parts(names)[i] is ParentDir,
    decreases names.len(),
{
    if names.len() > 0 {
        lemma_later_parts_kinds(names.drop_last());
    }
}

/// Where a path nowhere goes up, all that it adds to a directory is names.
pub proof fn lemma_parts_within(path: Seq<u8>)
    requires
        !parts(path).contains(PartView::ParentDir),
    ensures
        forall|i: int|
            0 <= i < later_parts(split(path, SEPARATOR)).len() ==> later_parts(
                split(path, SEPARATOR),
            )[i] is Normal,
{
    let names = split(path, SEPARATOR);
    let below = later_parts(names);
    lemma_split_nonempty(path, SEPARATOR);
    lemma_later_parts_kinds(names);
    assert(names =~= seq![names[0]] + names.skip(1));
    lemma_later_parts_append(seq![names[0]], names.skip(1));
    assert(seq![names[0]].drop_last() =~= seq![]);
    reveal_with_fuel(later_parts, 2);
    let first = name_parts(names[0], false);
    assert(later_parts(seq![names[0]]) =~= first);
    let end = parts(path);
    let shift = end.len() - below.len();
    assert forall|i: int| 0 <= i < below.len() implies below[i] is Normal by {
        if below[i] is ParentDir {
            if i < first.len() {
                assert(name_parts(names[0], true) == first);
            }
            assert(end[i + shift] == below[i]);
            assert(end.contains(end[i + shift]));
        }
    }
}

/// A text is encoded one piece after the other.
proof fn lemma_encode_append(a: Seq<char>, b: Seq<char>)
    ensures
        encode_utf8(a + b) == encode_utf8(a) + encode_utf8(b),
    decreases a.len(),
{
    if a.len() == 0 {
        assert(a + b =~= b);
        assert(encode_utf8(a) + encode_utf8(b) =~= encode_utf8(b));
    } else {
        assert((a + b).drop_first() =~= a.drop_first() + b);
        lemma_encode_append(a.drop_first(), b);
        assert(encode_utf8(a + b) =~= encode_utf8(a) + encode_utf8(b));
    }
}

/// In the encoding of a character the separator stands at neither end, save in that of `/`, which
/// it is.
proof fn lemma_encoded_ends(c: char)
    ensures
        encode_scalar(c as u32).len() > 0,
        encode_scalar(c as u32)[0] == SEPARATOR <==> c == '/',
        encode_scalar(c as u32).last() == SEPARATOR <==> c == '/',
        c == '/' ==> encode_scalar(c as u32) == seq![SEPARATOR],
{
    let v = c as u32;
    assert(v <= 127 ==> (v & 0x7F) as u8 == v) by (bit_vector);
    assert(0xC0 | ((v >> 6) & 0x1F) as u8 >= 128u8) by (bit_vector);
    assert(0xE0 | ((v >> 12) & 0x0F) as u8 >= 128u8) by (bit_vector);
    assert(0xF0 | ((v >> 18) & 0x7) as u8 >= 128u8) by (bit_vector);
    assert(0x80 | (v & 0x3F) as u8 >= 128u8) by (bit_vector);
}

/// The encoding of a text begins and ends with the separator where the text does.
proof fn lemma_encoded_text_ends(text: Seq<char>)
    requires
        text.len() > 0,
    ensures
        encode_utf8(text).len() > 0,
        encode_utf8(text)[0] == SEPARATOR <==> text[0] == '/',
        encode_utf8(text).last() == SEPARATOR <==> text.last() == '/',
{
    let end = seq![text.last()];
    lemma_encoded_ends(text[0]);
    lemma_encoded_ends(text.last());
    assert(text =~= text.drop_last() + end);
    lemma_encode_append(text.drop_last(), end);
    assert(end.drop_first() =~= seq![]);
    assert(encode_utf8(end.drop_first()) =~= seq![]);
    assert(encode_utf8(end) =~= encode_scalar(text.last() as u32));
}

/// A path that was made from text is told as that text, and so is one that was joined from two
/// texts.
pub proof fn theorem_paths_tell_their_text(base: Seq<char>, path: Seq<char>)
    ensures
        path_text(encode_utf8(path)) == path,
        path_text(joined(encode_utf8(base), encode_utf8(path))) == joined_text(base, path),
{
    let whole = joined_text(base, path);
    vstd::utf8::encode_utf8_valid_utf8(path);
    vstd::utf8::encode_utf8_decode_utf8(path);
    vstd::utf8::encode_utf8_valid_utf8(whole);
    vstd::utf8::encode_utf8_decode_utf8(whole);
    if path.len() > 0 {
        lemma_encoded_text_ends(path);
    }
    if base.len() > 0 {
        lemma_encoded_text_ends(base);
    }
    lemma_encode_append(base, path);
    let slash = seq!['/'];
    lemma_encoded_ends('/');
    assert(slash.drop_first() =~= seq![]);
    assert(encode_utf8(slash.drop_first()) =~= seq![]);
    assert(encode_utf8(slash) =~= seq![SEPARATOR]);
    lemma_encode_append(base, slash);
    assert(base + slash =~= base.push('/'));
    lemma_encode_append(base.push('/'), path);
    assert(encode_utf8(base) + seq![SEPARATOR] =~= encode_utf8(base).push(SEPARATOR));
    assert(joined(encode_utf8(base), encode_utf8(path)) == encode_utf8(whole));
}

/// How many bytes stand between position `start` and the next separator, or the end.
fn name_length(path: &[u8], start: usize) -> (n: usize)
    requires
        start <= path@.len(),
    ensures
        start + n <= path.len(),
        n == count_before(path@.skip(start as int), SEPARATOR),
{
    let ghost rest = path@.skip(start as int);
    let mut n: usize = 0;
    while start + n < path.len() && path[start + n] != SEPARATOR
        invariant
            start + n <= path.len(),
            rest == path@.skip(start as int),
            forall|j: int| 0 <= j < n ==> rest[j] != SEPARATOR,
        decreases path@.len() - start - n,
    {
        assert(rest[n as int] == path@[start + n]);
        n += 1;
    }
    proof {
        lemma_count_before_is(rest, SEPARATOR, n as int);
    }
    n
}

/// The `n` bytes of `path` from position `start` on.
fn name_at(path: &[u8], start: usize, n: usize) -> (name: Vec<u8>)
    requires
        start + n <= path@.len(),
    ensures
        name@ == path@.subrange(start as int, start + n),
{
    let mut name: Vec<u8> = Vec::new();
    let mut i: usize = 0;
    while i < n
        invariant
            i <= n,
            start + n <= path.len(),
            name@ == path@.subrange(start as int, start + i),
        decreases n - i,
    {
        name.push(path[start + i]);
        i += 1;
        assert(name@ =~= path@.subrange(start as int, start + i));
    }
    name
}

/// Adds what `name` gives to `found`.
fn push_name(found: &mut Vec<PathPart>, name: Vec<u8>, at_start: bool)
    ensures
        final(found).deep_view() == old(found).deep_view() + name_parts(name@, at_start),
{
    let ghost before = found.deep_view();
    if name.len() == 1 && name[0] == DOT {
        assert(name@ =~= seq![DOT]);
        if at_start {
            found.push(PathPart::CurDir);
            assert(found.deep_view() =~= before.push(PartView::CurDir));
        }
    } else if name.len() == 2 && name[0] == DOT && name[1] == DOT {
        assert(name@ =~= seq![DOT, DOT]);
        found.push(PathPart::ParentDir);
        assert(found.deep_view() =~= before.push(PartView::ParentDir));
    } else if name.len() > 0 {
        let ghost bytes = name@;
        found.push(PathPart::Normal(name));
        assert(found.deep_view() =~= before.push(PartView::Normal(bytes)));
    }
    assert(found.deep_view() =~= before + name_parts(name@, at_start));
}

/// The parts of a path, in order.
pub fn components(path: &[u8]) -> (found: Vec<PathPart>)
    ensures
        found.deep_view() == parts(path@),
{
    let mut found: Vec<PathPart> = Vec::new();
    let ghost names = split(path@, SEPARATOR);
    if path.len() > 0 && path[0] == SEPARATOR {
        found.push(PathPart::RootDir);
    }
    let n = name_length(path, 0);
    assert(path@.skip(0) =~= path@);
    proof {
        lemma_count_before(path@, SEPARATOR);
        assert(path@.take(n as int) =~= path@.subrange(0, n as int));
        assert(n == path@.len() ==> path@.take(n as int) =~= path@);
    }
    let ghost root: Seq<PartView> = found.deep_view();
    assert(root =~= (if is_absolute(path@) { seq![PartView::RootDir] } else { seq![] }));
    push_name(&mut found, name_at(path, 0, n), true);
    let ghost head = found.deep_view();
    let mut end: usize = n;
    let ghost mut read: Seq<Seq<u8>> = seq![];
    assert(n < path@.len() ==> names.skip(1) =~= split(path@.skip(n + 1), SEPARATOR));
    assert(n == path@.len() ==> names.skip(1) =~= seq![]);
    assert(head + later_parts(read) =~= head);
    assert(end < path@.len() ==> read + split(path@.skip(end + 1), SEPARATOR) =~= names.skip(1));
    while end < path.len()
        invariant
            end <= path@.len(),
            names == split(path@, SEPARATOR),
            end < path@.len() ==> read + split(path@.skip(end + 1), SEPARATOR) == names.skip(1),
            end == path@.len() ==> read == names.skip(1),
            found.deep_view() == head + later_parts(read),
        decreases path@.len() - end,
    {
        let start = end + 1;
        let n = name_length(path, start);
        let name = name_at(path, start, n);
        let ghost rest = path@.skip(start as int);
        let ghost before = read;
        proof {
            lemma_count_before(rest, SEPARATOR);
            assert(name@ =~= rest.take(n as int));
            read = read.push(name@);
            assert(read.drop_last() =~= before);
            if start + n < path@.len() {
                assert(rest.skip(n + 1) =~= path@.skip(start + n + 1));
                assert(before + split(rest, SEPARATOR) =~= read + split(
                    rest.skip(n + 1),
                    SEPARATOR,
                ));
            } else {
                assert(rest.take(n as int) =~= rest);
                assert(before + split(rest, SEPARATOR) =~= read);
            }
        }
        push_name(&mut found, name, false);
        assert(found.deep_view() =~= head + later_parts(read));
        end = start + n;
    }
    found
}

/// `path` seen from the directory `base`.
pub fn join(base: &[u8], path: &[u8]) -> (whole: Vec<u8>)
    ensures
        whole@ == joined(base@, path@),
{
    if path.len() > 0 && path[0] == SEPARATOR {
        let whole = name_at(path, 0, path.len());
        assert(whole@ =~= path@);
        return whole;
    }
    let mut whole = name_at(base, 0, base.len());
    assert(whole@ =~= base@);
    if base.len() > 0 && base[base.len() - 1] != SEPARATOR {
        whole.push(SEPARATOR);
    }
    let mut rest = name_at(path, 0, path.len());
    assert(rest@ =~= path@);
    whole.append(&mut rest);
    whole
}

/// Whether two names hold the same bytes.
fn same_bytes(a: &Vec<u8>, b: &Vec<u8>) -> (same: bool)
    ensures
        same == (a@ == b@),
{
    if a.len() != b.len() {
        return false;
    }
    let mut i: usize = 0;
    while i < a.len()
        invariant
            i <= a@.len(),
            a@.len() == b@.len(),
            forall|j: int| 0 <= j < i ==> a@[j] == b@[j],
        decreases a@.len() - i,
    {
        if a[i] != b[i] {
            return false;
        }
        i += 1;
    }
    assert(a@ =~= b@);
    true
}

/// Whether two parts stand for the same.
fn same_part(a: &PathPart, b: &PathPart) -> (same: bool)
    ensures
        same == (a.deep_view() == b.deep_view()),
{
    match (a, b) {
        (PathPart::RootDir, PathPart::RootDir) => true,
        (PathPart::CurDir, PathPart::CurDir) => true,
        (PathPart::ParentDir, PathPart::ParentDir) => true,
        (PathPart::Normal(x), PathPart::Normal(y)) => same_bytes(x, y),
        _ => false,
    }
}

/// Whether `path` is `base` or lies under it.
pub fn starts_with(path: &[u8], base: &[u8]) -> (yes: bool)
    ensures
        yes == is_under(path@, base@),
{
    let whole = components(path);
    let start = components(base);
    let ghost w = parts(path@);
    let ghost b = parts(base@);
    if whole.len() < start.len() {
        assert(w.len() == whole@.len() && b.len() == start@.len());
        return false;
    }
    let mut i: usize = 0;
    while i < start.len()
        invariant
            i <= start@.len() <= whole@.len(),
            w == parts(path@),
            b == parts(base@),
            whole.deep_view() == w,
            start.deep_view() == b,
            forall|j: int| 0 <= j < i ==> w[j] == b[j],
        decreases start@.len() - i,
    {
        assert(w[i as int] == whole@[i as int].deep_view());
        assert(b[i as int] == start@[i as int].deep_view());
        if !same_part(&whole[i], &start[i]) {
            assert(w.subrange(0, b.len() as int)[i as int] != b[i as int]);
            return false;
        }
        i += 1;
    }
    assert(w.subrange(0, b.len() as int) =~= b);
    true
}

/// Whether two paths have the same parts.
pub fn same_path(a: &[u8], b: &[u8]) -> (same: bool)
    ensures
        same == (parts(a@) == parts(b@)),
{
    let under = starts_with(a, b);
    let over = starts_with(b, a);
    proof {
        if under && over {
            assert(parts(a@) =~= parts(b@));
        }
        if parts(a@) == parts(b@) {
            assert(parts(a@).subrange(0, parts(b@).len() as int) =~= parts(b@));
        }
    }
    under && over
}

/// A path of one name has that name as its only part; an empty name is none.
pub proof fn theorem_one_name_is_one_part(name: Seq<u8>)
    requires
        !name.contains(47),
    ensures
        name.len() == 0 ==> parts(name) == Seq::<PartView>::empty(),
        name == seq![46u8] ==> parts(name) == seq![PartView::CurDir],
        name == seq![46u8, 46u8] ==> parts(name) == seq![PartView::ParentDir],
        name.len() > 0 && name != seq![46u8] && name != seq![46u8, 46u8] ==> parts(name) == seq![
            PartView::Normal(name),
        ],
{
    lemma_split_single(name, SEPARATOR);
    assert(split(name, SEPARATOR).skip(1) =~= seq![]);
    if is_absolute(name) {
        assert(name.contains(name[0]));
    }
    assert(parts(name) =~= name_parts(name, true));
}

/// A separator and a name add that name to a path, however many parts it has: all parts before
/// stay, an empty name and `.` add nothing, and a path without a beginning begins at the root.
pub proof fn theorem_each_name_adds_a_part(base: Seq<u8>, name: Seq<u8>)
    requires
        !name.contains(47),
    ensures
        ({
            let before = if base.len() == 0 {
                seq![PartView::RootDir]
            } else {
                parts(base)
            };
            let whole = parts(base.push(47) + name);
            &&& name.len() == 0 || name == seq![46u8] ==> whole == before
            &&& name == seq![46u8, 46u8] ==> whole == before.push(PartView::ParentDir)
            &&& name.len() > 0 && name != seq![46u8] && name != seq![46u8, 46u8] ==> whole
                == before.push(PartView::Normal(name))
        }),
{
    let whole = base.push(SEPARATOR) + name;
    let last = seq![name];
    let names = split(base, SEPARATOR);
    lemma_split_single(name, SEPARATOR);
    lemma_split_append(base, name, SEPARATOR);
    lemma_split_nonempty(base, SEPARATOR);
    assert((names + last)[0] == names[0]);
    assert((names + last).skip(1) =~= names.skip(1) + last);
    lemma_later_parts_append(names.skip(1), last);
    reveal_with_fuel(later_parts, 2);
    assert(last.drop_last() =~= seq![]);
    assert(later_parts(last) =~= name_parts(name, false));
    if base.len() == 0 {
        assert(names =~= seq![base]);
        assert(names.skip(1) =~= seq![]);
        assert(whole[0] == SEPARATOR);
        assert(parts(whole) =~= seq![PartView::RootDir] + name_parts(name, false));
    } else {
        assert(whole[0] == base[0]);
        assert(parts(whole) =~= parts(base) + name_parts(name, false));
    }
}

/// Of names after the first, those are parts that go up which are `..`.
proof fn lemma_later_parts_going_up(names: Seq<Seq<u8>>)
    ensures
        later_parts(names).contains(PartView::ParentDir) <==> names.contains(seq![DOT, DOT]),
    decreases names.len(),
{
    let up = PartView::ParentDir;
    let dots = seq![DOT, DOT];
    if names.len() > 0 {
        let before = names.drop_last();
        lemma_later_parts_going_up(before);
        let (head, tail) = (later_parts(before), name_parts(names.last(), false));
        if names.last() == dots {
            assert(names[names.len() - 1] == dots);
            assert((head + tail)[head.len() as int] == up);
        }
        if names.contains(dots) && names.last() != dots {
            let k = choose|k: int| 0 <= k < names.len() && names[k] == dots;
            assert(before[k] == dots);
        }
        if before.contains(dots) {
            let k = choose|k: int| 0 <= k < before.len() && before[k] == dots;
            assert(names[k] == dots);
            let m = choose|m: int| 0 <= m < head.len() && head[m] == up;
            assert((head + tail)[m] == up);
        }
        if (head + tail).contains(up) && names.last() != dots {
            let m = choose|m: int| 0 <= m < (head + tail).len() && (head + tail)[m] == up;
            assert(head[m] == up);
        }
    }
}

/// A path begins at the root where its first byte is the separator, and goes up where one of the
/// names between its separators is `..`; nowhere else.
pub proof fn theorem_roots_and_ways_up_are_seen(path: Seq<u8>)
    ensures
        parts(path).contains(PartView::RootDir) <==> path.len() > 0 && path[0] == 47,
        parts(path).contains(PartView::ParentDir) <==> split(path, 47u8).contains(
            seq![46u8, 46u8],
        ),
{
    let names = split(path, SEPARATOR);
    let all = parts(path);
    let up = PartView::ParentDir;
    let dots = seq![DOT, DOT];
    lemma_split_nonempty(path, SEPARATOR);
    let root: Seq<PartView> = if is_absolute(path) {
        seq![PartView::RootDir]
    } else {
        seq![]
    };
    let first = name_parts(names[0], true);
    let later = later_parts(names.skip(1));
    lemma_later_parts_kinds(names.skip(1));
    lemma_later_parts_going_up(names.skip(1));
    assert(all == root + first + later);
    if is_absolute(path) {
        assert(all[0] == PartView::RootDir);
    }
    if names[0] == dots {
        assert(all[root.len() as int] == up);
    }
    if names.contains(dots) && names[0] != dots {
        let k = choose|k: int| 0 <= k < names.len() && names[k] == dots;
        assert(names.skip(1)[k - 1] == dots);
    }
    if later.contains(up) {
        let m = choose|m: int| 0 <= m < later.len() && later[m] == up;
        assert(all[m + root.len() + first.len()] == up);
    }
    if names.skip(1).contains(dots) {
        let k = choose|k: int| 0 <= k < names.len() - 1 && names.skip(1)[k] == dots;
        assert(names[k + 1] == dots);
    }
    if all.contains(up) && names[0] != dots {
        let m = choose|m: int| 0 <= m < all.len() && all[m] == up;
        assert(later[m - root.len() - first.len()] == up);
    }
}

/// Seen from a directory, a path that begins at the root is itself, and any other is put behind the
/// directory, with one separator between the two.
pub proof fn theorem_joining_puts_one_separator_between(base: Seq<u8>, path: Seq<u8>)
    ensures
        path.len() > 0 && path[0] == 47 ==> joined(base, path) == path,
        !(path.len() > 0 && path[0] == 47) ==> {
            &&& base.len() == 0 ==> joined(base, path) == path
            &&& joined(base.push(47), path) == base.push(47) + path
            &&& base.len() > 0 && base.last() != 47 ==> joined(base, path) == base.push(47) + path
        },
{
    assert(base.len() == 0 ==> base + path =~= path);
}

/// Under a directory lie the directory itself and all that a relative path adds to it, and what
/// lies under something that lies under it; nothing lies under two unlike directories of as many
/// parts.
pub proof fn theorem_what_lies_under(base: Seq<u8>, path: Seq<u8>, other: Seq<u8>)
    ensures
        is_under(base, base),
        base.len() > 0 && !(path.len() > 0 && path[0] == 47) ==> is_under(joined(base, path), base),
        is_under(other, path) && is_under(path, base) ==> is_under(other, base),
        is_under(other, path) && is_under(other, base) && parts(path).len() == parts(base).len()
            ==> parts(path) == parts(base),
        is_under(path, base) <==> exists|tail: Seq<PartView>|
            parts(path) == #[trigger] (parts(base) + tail),
{
    let (b, p, o) = (parts(base), parts(path), parts(other));
    assert(b.subrange(0, b.len() as int) =~= b);
    if base.len() > 0 && !is_absolute(path) {
        lemma_joined_parts(base, path);
        assert(parts(joined(base, path)).subrange(0, b.len() as int) =~= b);
    }
    if is_under(other, path) && is_under(path, base) {
        assert(o.subrange(0, b.len() as int) =~= o.subrange(0, p.len() as int).subrange(
            0,
            b.len() as int,
        ));
    }
    if is_under(path, base) {
        assert(p =~= b + p.skip(b.len() as int));
    }
    if exists|tail: Seq<PartView>| p == #[trigger] (b + tail) {
        assert(p.subrange(0, b.len() as int) =~= b);
    }
}

/// Bytes that are UTF-8 are told as what they encode, and others as `String::from_utf8_lossy` has
/// them.
pub proof fn theorem_texts_of_paths(path: Seq<u8>)
    ensures
        valid_utf8(path) ==> encode_utf8(path_text(path)) == path,
        !valid_utf8(path) ==> path_text(path) == utf8_lossy(path),
{
    if valid_utf8(path) {
        vstd::utf8::decode_utf8_encode_utf8(path);
    }
}

/// A part stands for its kind and, where it is a name, for all bytes of it.
pub proof fn theorem_parts_stand_for_themselves(name: Vec<u8>)
    ensures
        PathPart::Normal(name).deep_view() == PartView::Normal(name@),
        PathPart::RootDir.deep_view() == PartView::RootDir,
        PathPart::CurDir.deep_view() == PartView::CurDir,
        PathPart::ParentDir.deep_view() == PartView::ParentDir,
{
}

} // verus!
