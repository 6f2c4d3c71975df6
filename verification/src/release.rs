//! Versions of the program and which of two is the newer.

use vstd::prelude::*;

use crate::room_info::{comes_before, lemma_text_order, text_less};
use crate::text::{chars_of, decimal, same_text, split_on, split_text, string_of, texts};
use crate::tokens::{number_in, parse_number};

verus! {

/// The first position of a character, or the length of the text where it is missing.
pub open spec fn first_of(s: Seq<char>, c: char) -> int
    decreases s.len(),
{
    if s.len() == 0 || s[0] == c {
        0
    } else {
        1 + first_of(s.skip(1), c)
    }
}

/// The first position of a character.
fn find_first(cs: &Vec<char>, c: char) -> (n: usize)
    ensures
        n == first_of(cs@, c),
        n <= cs.len(),
{
    let mut i: usize = 0;
    assert(cs@.skip(0) =~= cs@);
    while i < cs.len() && cs[i] != c
        invariant
            i <= cs.len(),
            i + first_of(cs@.skip(i as int), c) == first_of(cs@, c),
        decreases cs.len() - i,
    {
        assert(cs@.skip(i as int).skip(1) =~= cs@.skip(i + 1));
        i += 1;
    }
    i
}

/// What stands before the first place of a character.
pub open spec fn before_char(s: Seq<char>, c: char) -> Seq<char> {
    s.take(first_of(s, c))
}

/// What stands after the first place of a character, where it has one.
pub open spec fn after_char(s: Seq<char>, c: char) -> Option<Seq<char>> {
    if first_of(s, c) < s.len() {
        Some(s.skip(first_of(s, c) + 1))
    } else {
        None
    }
}

/// A text before and after the first place of a character.
fn cut_at(s: &str, c: char) -> (r: (String, Option<String>))
    ensures
        r.0@ == before_char(s@, c),
        crate::text::opt_text(r.1) == after_char(s@, c),
{
    let cs = chars_of(s);
    let n = find_first(&cs, c);
    let head = string_of(&cs, 0, n);
    assert(head@ =~= s@.take(n as int));
    if n < cs.len() {
        let tail = string_of(&cs, n + 1, cs.len());
        assert(tail@ =~= s@.skip(n + 1));
        (head, Some(tail))
    } else {
        (head, None)
    }
}

/// Whether two parts of a version count as the same: the same number or the same text.
pub open spec fn part_same(a: Seq<char>, b: Seq<char>) -> bool {
    match (number_in(a), number_in(b)) {
        (Some(m), Some(n)) => m == n,
        (None, None) => a == b,
        _ => false,
    }
}

/// Whether a part of a version comes before another: numbers by their value, other texts in the
/// order of their characters, and numbers before other texts.
pub open spec fn part_less(a: Seq<char>, b: Seq<char>) -> bool {
    match (number_in(a), number_in(b)) {
        (Some(m), Some(n)) => m < n,
        (Some(_), None) => true,
        (None, Some(_)) => false,
        (None, None) => text_less(a, b),
    }
}

/// Whether a list of parts comes before another: the first parts that differ decide, and where
/// none do, the shorter list comes first.
pub open spec fn parts_less(a: Seq<Seq<char>>, b: Seq<Seq<char>>) -> bool
    decreases a.len(),
{
    if b.len() == 0 {
        false
    } else if a.len() == 0 {
        true
    } else if part_same(a[0], b[0]) {
        parts_less(a.skip(1), b.skip(1))
    } else {
        part_less(a[0], b[0])
    }
}

/// Whether a list of parts comes before another.
fn is_parts_less(a: &Vec<String>, b: &Vec<String>) -> (r: bool)
    ensures
        r == parts_less(texts(a@), texts(b@)),
{
    let ghost x = texts(a@);
    let ghost y = texts(b@);
    let mut i: usize = 0;
    assert(x.skip(0) =~= x);
    assert(y.skip(0) =~= y);
    while i < a.len() && i < b.len()
        invariant
            i <= a.len(),
            i <= b.len(),
            x == texts(a@),
            y == texts(b@),
            parts_less(x.skip(i as int), y.skip(i as int)) == parts_less(x, y),
        decreases a.len() - i,
    {
        let p = a[i].as_str();
        let q = b[i].as_str();
        assert(x.skip(i as int)[0] == p@);
        assert(y.skip(i as int)[0] == q@);
        let m = parse_number(p);
        let n = parse_number(q);
        let same = match (m, n) {
            (Some(m), Some(n)) => m == n,
            (None, None) => same_text(p, q),
            _ => false,
        };
        if !same {
            return match (m, n) {
                (Some(m), Some(n)) => m < n,
                (Some(_), None) => true,
                (None, Some(_)) => false,
                (None, None) => comes_before(p, q),
            };
        }
        assert(x.skip(i as int).skip(1) =~= x.skip(i + 1));
        assert(y.skip(i as int).skip(1) =~= y.skip(i + 1));
        i += 1;
    }
    i < b.len()
}

/// The numbers of a version: what stands before the build and the name of a prerelease, without
/// its dots.
pub open spec fn release_numbers(v: Seq<char>) -> Seq<Seq<char>> {
    split_on(before_char(before_char(v, '+'), '-'), "."@)
}

/// The name of a prerelease without its dots, where the version is one.
pub open spec fn prerelease(v: Seq<char>) -> Option<Seq<Seq<char>>> {
    match after_char(before_char(v, '+'), '-') {
        Some(p) => Some(split_on(p, "."@)),
        None => None,
    }
}

/// Whether a version is newer than another, as versions are ordered that have numbers and may
/// have a prerelease and a build: the numbers decide; where they agree, a prerelease comes before
/// its release, and two prereleases are ordered by their names. The build does not count.
pub open spec fn is_newer(v: Seq<char>, than: Seq<char>) -> bool {
    let a = release_numbers(than);
    let b = release_numbers(v);
    if parts_less(a, b) {
        true
    } else if parts_less(b, a) {
        false
    } else {
        match (prerelease(than), prerelease(v)) {
            (Some(p), Some(q)) => parts_less(p, q),
            (Some(_), None) => true,
            (None, _) => false,
        }
    }
}

/// The numbers of a version, and the name of a prerelease.
fn read_version(v: &str) -> (r: (Vec<String>, Option<Vec<String>>))
    ensures
        texts(r.0@) == release_numbers(v@),
        match r.1 {
            Some(p) => prerelease(v@) == Some(texts(p@)),
            None => prerelease(v@) is None,
        },
{
    let (plain, _) = cut_at(v, '+');
    let (core, rest) = cut_at(plain.as_str(), '-');
    let numbers = split_text(core.as_str(), ".");
    match rest {
        Some(p) => {
            let parts = split_text(p.as_str(), ".");
            (numbers, Some(parts))
        },
        None => (numbers, None),
    }
}

/// Whether a version is newer than another.
pub fn newer(v: &str, than: &str) -> (r: bool)
    ensures
        r == is_newer(v@, than@),
{
    let (a, p) = read_version(than);
    let (b, q) = read_version(v);
    if is_parts_less(&a, &b) {
        true
    } else if is_parts_less(&b, &a) {
        false
    } else {
        match (p, q) {
            (Some(p), Some(q)) => is_parts_less(&p, &q),
            (Some(_), None) => true,
            (None, _) => false,
        }
    }
}

/// Of two lists at most one comes before the other.
proof fn lemma_parts_less(a: Seq<Seq<char>>, b: Seq<Seq<char>>)
    ensures
        !(parts_less(a, b) && parts_less(b, a)),
    decreases a.len(),
{
    if a.len() > 0 && b.len() > 0 {
        if part_same(a[0], b[0]) {
            lemma_parts_less(a.skip(1), b.skip(1));
        } else {
            lemma_text_order(a[0], b[0], a[0]);
        }
    }
}

/// Of two versions at most one is newer than the other, and none is newer than itself.
pub proof fn law_at_most_one_is_newer(v: Seq<char>, w: Seq<char>)
    ensures
        !(is_newer(v, w) && is_newer(w, v)),
        !is_newer(v, v),
{
    lemma_parts_less(release_numbers(v), release_numbers(v));
    if prerelease(v) is Some {
        lemma_parts_less(prerelease(v)->0, prerelease(v)->0);
        if prerelease(w) is Some {
            lemma_parts_less(prerelease(v)->0, prerelease(w)->0);
        }
    }
    lemma_parts_less(release_numbers(v), release_numbers(w));
}

/// A text is divided at the first place of a character; without the character all of it stands
/// before.
pub proof fn law_divided_at_the_first(a: Seq<char>, c: char, b: Seq<char>)
    requires
        !a.contains(c),
    ensures
        before_char(a + seq![c] + b, c) == a,
        after_char(a + seq![c] + b, c) == Some(b),
        before_char(a, c) == a,
        after_char(a, c) is None,
{
    lemma_first_of(a, c, b);
    let s = a + seq![c] + b;
    assert(s.take(a.len() as int) =~= a);
    assert(s.skip(a.len() as int + 1) =~= b);
    assert(a.take(a.len() as int) =~= a);
}

/// The first place of a character lies behind what does not hold it.
proof fn lemma_first_of(a: Seq<char>, c: char, b: Seq<char>)
    requires
        !a.contains(c),
    ensures
        first_of(a + seq![c] + b, c) == a.len(),
        first_of(a, c) == a.len(),
    decreases a.len(),
{
    let s = a + seq![c] + b;
    if a.len() > 0 {
        assert(a.contains(a[0]));
        let rest = a.skip(1);
        assert forall|d: char| rest.contains(d) implies a.contains(d) by {
            let j = choose|j: int| 0 <= j < rest.len() && rest[j] == d;
            assert(a[j + 1] == d);
        }
        lemma_first_of(rest, c, b);
        assert(s.skip(1) =~= rest + seq![c] + b);
    }
}

/// Numbers are ordered by their values, not by their digits, and come before all that is no
/// number.
pub proof fn law_numbers_by_their_values(m: u64, n: u64, t: Seq<char>)
    ensures
        part_less(decimal(m as nat), decimal(n as nat)) <==> m < n,
        part_same(decimal(m as nat), decimal(n as nat)) <==> m == n,
        number_in(t) is None ==> part_less(decimal(m as nat), t) && !part_less(
            t,
            decimal(m as nat),
        ),
{
    crate::tokens::law_number_reads_back(m);
    crate::tokens::law_number_reads_back(n);
}

/// The first part in which two versions differ decides, whatever stands behind it; where there is
/// none the shorter one comes first.
pub proof fn law_first_part_decides(
    front: Seq<Seq<char>>,
    x: Seq<char>,
    y: Seq<char>,
    a: Seq<Seq<char>>,
    b: Seq<Seq<char>>,
)
    ensures
        !part_same(x, y) ==> parts_less(front.push(x) + a, front.push(y) + b) == part_less(x, y),
        parts_less(front, front.push(x) + a),
        !parts_less(front.push(x) + a, front),
    decreases front.len(),
{
    let s = front.push(x) + a;
    let t = front.push(y) + b;
    if front.len() == 0 {
        assert(s[0] == x);
        assert(t[0] == y);
    } else {
        law_first_part_decides(front.skip(1), x, y, a, b);
        assert(s[0] == front[0]);
        assert(t[0] == front[0]);
        assert(s.skip(1) =~= front.skip(1).push(x) + a);
        assert(t.skip(1) =~= front.skip(1).push(y) + b);
    }
}

/// A release is newer than its prereleases, of two prereleases of it the names decide, the build
/// makes no difference, and greater numbers make a version newer whatever else it has.
pub proof fn law_what_makes_a_version_newer(
    release: Seq<char>,
    p: Seq<char>,
    q: Seq<char>,
    build: Seq<char>,
    v: Seq<char>,
    w: Seq<char>,
)
    requires
        !release.contains('-'),
        !release.contains('+'),
        !p.contains('+'),
        !q.contains('+'),
        !v.contains('+'),
    ensures
        is_newer(release, release + seq!['-'] + p),
        !is_newer(release + seq!['-'] + p, release),
        is_newer(release + seq!['-'] + q, release + seq!['-'] + p) == parts_less(
            split_on(p, "."@),
            split_on(q, "."@),
        ),
        is_newer(v + seq!['+'] + build, w) == is_newer(v, w),
        is_newer(w, v + seq!['+'] + build) == is_newer(w, v),
        parts_less(release_numbers(w), release_numbers(v)) ==> is_newer(v, w),
        release_numbers(release) == split_on(release, "."@),
{
    let pre = release + seq!['-'] + p;
    let other = release + seq!['-'] + q;
    assert(!pre.contains('+')) by {
        lemma_three_lack(release, '-', p, '+');
    }
    assert(!other.contains('+')) by {
        lemma_three_lack(release, '-', q, '+');
    }
    law_divided_at_the_first(release, '+', Seq::empty());
    law_divided_at_the_first(release, '-', p);
    law_divided_at_the_first(release, '-', q);
    law_divided_at_the_first(pre, '+', Seq::empty());
    law_divided_at_the_first(other, '+', Seq::empty());
    law_divided_at_the_first(v, '+', build);
    lemma_parts_less(split_on(release, "."@), split_on(release, "."@));
}

/// What two texts and the character between them lack, all of it lacks.
proof fn lemma_three_lack(a: Seq<char>, c: char, b: Seq<char>, d: char)
    requires
        !a.contains(d),
        !b.contains(d),
        c != d,
    ensures
        !(a + seq![c] + b).contains(d),
{
    let s = a + seq![c] + b;
    if s.contains(d) {
        let i = choose|i: int| 0 <= i < s.len() && s[i] == d;
        if i < a.len() {
            assert(a[i] == d);
        } else if i > a.len() {
            assert(b[i - a.len() - 1] == d);
        }
    }
}

} // verus!
