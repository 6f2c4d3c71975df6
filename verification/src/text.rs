//! Text, modelled as sequences of characters.
//!
//! Every operation here is stated over `Seq<char>`, the view of `str` and `String`.

use vstd::prelude::*;

verus! {

/// `String::push` appends one character at the end of the text.
pub assume_specification[ String::push ](s: &mut String, c: char)
    ensures
        final(s)@ == old(s)@.push(c),
;

/// The contents of a list of texts.
pub open spec fn texts(list: Seq<String>) -> Seq<Seq<char>> {
    list.map_values(|s: String| s@)
}

/// The contents of an optional text.
pub open spec fn opt_text(t: Option<String>) -> Option<Seq<char>> {
    match t {
        Some(s) => Some(s@),
        None => None,
    }
}

/// The contents of an optional borrowed text.
pub open spec fn opt_str(t: Option<&str>) -> Option<Seq<char>> {
    match t {
        Some(s) => Some(s@),
        None => None,
    }
}

/// The characters that Unicode gives the property White_Space.
pub open spec fn is_white(c: char) -> bool {
    let n = c as u32;
    ||| 0x9 <= n <= 0xd
    ||| n == 0x20
    ||| n == 0x85
    ||| n == 0xa0
    ||| n == 0x1680
    ||| 0x2000 <= n <= 0x200a
    ||| n == 0x2028
    ||| n == 0x2029
    ||| n == 0x202f
    ||| n == 0x205f
    ||| n == 0x3000
}

/// The text without its leading white space.
pub open spec fn trimmed_start(s: Seq<char>) -> Seq<char>
    decreases s.len(),
{
    if s.len() > 0 && is_white(s[0]) {
        trimmed_start(s.skip(1))
    } else {
        s
    }
}

/// The text without its trailing white space.
pub open spec fn trimmed_end(s: Seq<char>) -> Seq<char>
    decreases s.len(),
{
    if s.len() > 0 && is_white(s.last()) {
        trimmed_end(s.drop_last())
    } else {
        s
    }
}

/// The text without leading and trailing white space.
pub open spec fn trimmed(s: Seq<char>) -> Seq<char> {
    trimmed_end(trimmed_start(s))
}

/// The text without any white space.
pub open spec fn without_white(s: Seq<char>) -> Seq<char>
    decreases s.len(),
{
    if s.len() == 0 {
        s
    } else if is_white(s.last()) {
        without_white(s.drop_last())
    } else {
        without_white(s.drop_last()).push(s.last())
    }
}

/// Whether `p` stands in `s` at position `i`.
pub open spec fn occurs_at(s: Seq<char>, p: Seq<char>, i: int) -> bool {
    &&& 0 <= i
    &&& i + p.len() <= s.len()
    &&& s.subrange(i, i + p.len()) == p
}

/// Whether `p` stands somewhere in `s`.
pub open spec fn occurs(s: Seq<char>, p: Seq<char>) -> bool {
    exists|i: int| occurs_at(s, p, i)
}

/// The text with every occurrence of `from`, read from the left and without overlap, replaced
/// by `to`. An empty `from` is not looked for.
pub open spec fn replaced(s: Seq<char>, from: Seq<char>, to: Seq<char>) -> Seq<char>
    decreases s.len(),
{
    if from.len() == 0 || s.len() < from.len() {
        s
    } else if occurs_at(s, from, 0) {
        to + replaced(s.skip(from.len() as int), from, to)
    } else {
        seq![s[0]] + replaced(s.skip(1), from, to)
    }
}

/// The parts between the occurrences of `sep` in `s`, read from the left; `head` is what the
/// first part already holds.
pub open spec fn split_scan(head: Seq<char>, s: Seq<char>, sep: Seq<char>) -> Seq<Seq<char>>
    decreases s.len(),
{
    if sep.len() == 0 || s.len() < sep.len() {
        seq![head + s]
    } else if occurs_at(s, sep, 0) {
        seq![head] + split_scan(seq![], s.skip(sep.len() as int), sep)
    } else {
        split_scan(head.push(s[0]), s.skip(1), sep)
    }
}

/// Each character as a text of its own.
pub open spec fn singletons(s: Seq<char>) -> Seq<Seq<char>> {
    Seq::new(s.len(), |i: int| seq![s[i]])
}

/// The parts of `s` between the occurrences of `sep`. An empty separator stands before, between
/// and after all characters.
pub open spec fn split_on(s: Seq<char>, sep: Seq<char>) -> Seq<Seq<char>> {
    if sep.len() == 0 {
        seq![Seq::<char>::empty()] + singletons(s) + seq![Seq::<char>::empty()]
    } else {
        split_scan(seq![], s, sep)
    }
}

/// The parts, one after the other, with `sep` between neighbours.
pub open spec fn joined(parts: Seq<Seq<char>>, sep: Seq<char>) -> Seq<char>
    decreases parts.len(),
{
    if parts.len() == 0 {
        seq![]
    } else if parts.len() == 1 {
        parts[0]
    } else {
        joined(parts.drop_last(), sep) + sep + parts.last()
    }
}

/// How often `c` stands in `s`.
pub open spec fn count_char(s: Seq<char>, c: char) -> nat
    decreases s.len(),
{
    if s.len() == 0 {
        0
    } else {
        count_char(s.drop_last(), c) + if s.last() == c {
            1nat
        } else {
            0nat
        }
    }
}

/// The decimal digit of value `d`.
pub open spec fn digit_char(d: nat) -> char {
    (48 + d) as char
}

/// The decimal notation of a natural number.
pub open spec fn decimal(n: nat) -> Seq<char>
    decreases n,
{
    if n < 10 {
        seq![digit_char(n)]
    } else {
        decimal(n / 10).push(digit_char(n % 10))
    }
}

/// The small letter of an ASCII capital; any other character unchanged.
pub open spec fn ascii_lower_char(c: char) -> char {
    if 'A' <= c <= 'Z' {
        ((c as u32) + 32) as char
    } else {
        c
    }
}

/// The text with its ASCII capitals made small.
pub open spec fn ascii_lower(s: Seq<char>) -> Seq<char> {
    s.map_values(|c: char| ascii_lower_char(c))
}

/// The capital of an ASCII small letter; any other character unchanged.
pub open spec fn ascii_upper_char(c: char) -> char {
    if 'a' <= c <= 'z' {
        ((c as u32) - 32) as char
    } else {
        c
    }
}

/// The text with its ASCII small letters made capitals.
pub open spec fn ascii_upper(s: Seq<char>) -> Seq<char> {
    s.map_values(|c: char| ascii_upper_char(c))
}

/// Whether all characters are white space.
pub open spec fn all_white(s: Seq<char>) -> bool {
    forall|i: int| 0 <= i < s.len() ==> is_white(#[trigger] s[i])
}

/// Whether all characters are ASCII characters.
pub open spec fn all_ascii(s: Seq<char>) -> bool {
    forall|i: int| 0 <= i < s.len() ==> (#[trigger] s[i] as u32) < 128
}

/// What `str::to_lowercase` returns.
pub uninterp spec fn lower_text(s: Seq<char>) -> Seq<char>;

/// What `str::to_uppercase` returns.
pub uninterp spec fn upper_text(s: Seq<char>) -> Seq<char>;

/// Calls `str::to_lowercase`. Its result depends on the text alone and is named; of an ASCII
/// text it is the text with the capitals made small.
#[verifier::external_body]
pub(crate) fn to_lower(s: &str) -> (out: String)
    ensures
        out@ == lower_text(s@),
        all_ascii(s@) ==> out@ == ascii_lower(s@),
{
    s.to_lowercase()
}

/// Calls `str::to_uppercase`. Its result depends on the text alone and is named; of an ASCII
/// text it is the text with the small letters made capitals.
#[verifier::external_body]
pub(crate) fn to_upper(s: &str) -> (out: String)
    ensures
        out@ == upper_text(s@),
        all_ascii(s@) ==> out@ == ascii_upper(s@),
{
    s.to_uppercase()
}

/// Trimming leaves a text alone that neither begins nor ends with white space.
pub proof fn lemma_trimmed_same(s: Seq<char>)
    requires
        s.len() > 0 ==> !is_white(s[0]) && !is_white(s.last()),
    ensures
        trimmed(s) == s,
{
}

/// Trimming takes away white space in front.
proof fn lemma_trimmed_front(a: Seq<char>, s: Seq<char>)
    requires
        all_white(a),
    ensures
        trimmed_start(a + s) == trimmed_start(s),
    decreases a.len(),
{
    if a.len() == 0 {
        assert(a + s =~= s);
    } else {
        assert(is_white(a[0]));
        assert((a + s).skip(1) =~= a.skip(1) + s);
        assert forall|i: int| 0 <= i < a.skip(1).len() implies is_white(#[trigger] a.skip(1)[i]) by {
            assert(is_white(a[i + 1]));
        }
        lemma_trimmed_front(a.skip(1), s);
    }
}

/// Trimming takes away white space at the end.
proof fn lemma_trimmed_back(s: Seq<char>, b: Seq<char>)
    requires
        all_white(b),
    ensures
        trimmed_end(s + b) == trimmed_end(s),
    decreases b.len(),
{
    if b.len() == 0 {
        assert(s + b =~= s);
    } else {
        assert(is_white(b[b.len() - 1]));
        assert((s + b).drop_last() =~= s + b.drop_last());
        assert forall|i: int| 0 <= i < b.drop_last().len() implies is_white(
            #[trigger] b.drop_last()[i],
        ) by {
            assert(is_white(b[i]));
        }
        lemma_trimmed_back(s, b.drop_last());
    }
}

/// What white space in front leaves of a text with white space at its end.
proof fn lemma_trimmed_start_back(s: Seq<char>, b: Seq<char>)
    requires
        all_white(b),
    ensures
        trimmed_start(s + b) == if all_white(s) {
            Seq::empty()
        } else {
            trimmed_start(s) + b
        },
        all_white(s) ==> trimmed_start(s) == Seq::<char>::empty(),
    decreases s.len(),
{
    if s.len() == 0 {
        assert(s + b =~= b);
        lemma_trimmed_front(b, Seq::empty());
        assert(b + Seq::<char>::empty() =~= b);
        assert(trimmed_start(s) =~= Seq::<char>::empty());
    } else if is_white(s[0]) {
        assert((s + b).skip(1) =~= s.skip(1) + b);
        lemma_trimmed_start_back(s.skip(1), b);
        if all_white(s) {
            assert forall|i: int| 0 <= i < s.skip(1).len() implies is_white(
                #[trigger] s.skip(1)[i],
            ) by {
                assert(is_white(s[i + 1]));
            }
        }
        if all_white(s.skip(1)) {
            assert forall|i: int| 0 <= i < s.len() implies is_white(#[trigger] s[i]) by {
                if i > 0 {
                    assert(is_white(s.skip(1)[i - 1]));
                }
            }
        }
    } else {
        assert((s + b)[0] == s[0]);
        assert(!all_white(s));
    }
}

/// White space around a text makes no difference once it is trimmed.
pub proof fn lemma_trimmed_around(a: Seq<char>, s: Seq<char>, b: Seq<char>)
    requires
        all_white(a),
        all_white(b),
    ensures
        trimmed(a + s + b) == trimmed(s),
{
    assert(a + s + b =~= a + (s + b));
    lemma_trimmed_front(a, s + b);
    lemma_trimmed_start_back(s, b);
    if !all_white(s) {
        lemma_trimmed_back(trimmed_start(s), b);
    }
}

/// Replacing leaves a text alone in which the sought character does not stand.
pub proof fn lemma_replaced_absent(s: Seq<char>, from: Seq<char>, to: Seq<char>)
    requires
        from.len() == 1,
        !s.contains(from[0]),
    ensures
        replaced(s, from, to) == s,
    decreases s.len(),
{
    if s.len() > 0 {
        assert(s.subrange(0, 1)[0] == s[0]);
        assert(s.contains(s[0]));
        assert forall|c: char| s.skip(1).contains(c) implies s.contains(c) by {
            let j = choose|j: int| 0 <= j < s.skip(1).len() && s.skip(1)[j] == c;
            assert(s[j + 1] == c);
        }
        lemma_replaced_absent(s.skip(1), from, to);
        assert(seq![s[0]] + s.skip(1) =~= s);
    }
}

/// Splitting gives at least one part.
pub proof fn lemma_split_nonempty(head: Seq<char>, s: Seq<char>, sep: Seq<char>)
    ensures
        split_scan(head, s, sep).len() > 0,
        split_on(s, sep).len() > 0,
    decreases s.len(), head.len(),
{
    if sep.len() > 0 && s.len() >= sep.len() && !occurs_at(s, sep, 0) {
        lemma_split_nonempty(head.push(s[0]), s.skip(1), sep);
    }
    if head.len() > 0 {
        lemma_split_nonempty(Seq::empty(), s, sep);
    } else {
        assert(head =~= Seq::empty());
    }
}

/// The characters of a text, in order.
pub fn chars_of(s: &str) -> (out: Vec<char>)
    ensures
        out@ == s@,
{
    let mut out: Vec<char> = Vec::new();
    for c in it: s.chars()
        invariant
            out@ == s@.take(it.index()),
            it.seq() == s@,
    {
        out.push(c);
    }
    out
}

/// The text made of the characters from `from` up to `to`.
pub fn string_of(cs: &Vec<char>, from: usize, to: usize) -> (out: String)
    requires
        from <= to <= cs.len(),
    ensures
        out@ == cs@.subrange(from as int, to as int),
{
    let mut out = String::new();
    let mut i: usize = from;
    while i < to
        invariant
            from <= i <= to <= cs.len(),
            out@ == cs@.subrange(from as int, i as int),
        decreases to - i,
    {
        out.push(cs[i]);
        i += 1;
        assert(cs@.subrange(from as int, i as int) =~= cs@.subrange(from as int, i - 1).push(
            cs@[i - 1],
        ));
    }
    out
}

/// Whether two texts are the same.
pub fn same_text(a: &str, b: &str) -> (r: bool)
    ensures
        r == (a@ == b@),
{
    let x = chars_of(a);
    let y = chars_of(b);
    if x.len() != y.len() {
        return false;
    }
    let mut i: usize = 0;
    while i < x.len()
        invariant
            i <= x.len(),
            x.len() == y.len(),
            x@ == a@,
            y@ == b@,
            forall|j: int| 0 <= j < i ==> x@[j] == y@[j],
        decreases x.len() - i,
    {
        if x[i] != y[i] {
            assert(a@[i as int] != b@[i as int]);
            return false;
        }
        i += 1;
    }
    assert(a@ =~= b@);
    true
}

/// Whether the character has the property White_Space.
pub fn is_whitespace(c: char) -> (r: bool)
    ensures
        r == is_white(c),
{
    let n: u32 = c as u32;
    (0x9 <= n && n <= 0xd) || n == 0x20 || n == 0x85 || n == 0xa0 || n == 0x1680 || (0x2000 <= n
        && n <= 0x200a) || n == 0x2028 || n == 0x2029 || n == 0x202f || n == 0x205f || n == 0x3000
}

/// The text without leading and trailing white space.
pub fn trim(s: &str) -> (out: String)
    ensures
        out@ == trimmed(s@),
{
    let cs = chars_of(s);
    let mut a: usize = 0;
    assert(cs@.skip(0) =~= cs@);
    while a < cs.len() && is_whitespace(cs[a])
        invariant
            a <= cs.len(),
            trimmed_start(cs@.skip(a as int)) == trimmed_start(cs@),
        decreases cs.len() - a,
    {
        a += 1;
        assert(cs@.skip(a - 1).skip(1) =~= cs@.skip(a as int));
    }
    let ghost rest = cs@.skip(a as int);
    assert(trimmed_start(cs@) == rest);
    let mut b: usize = cs.len();
    assert(cs@.subrange(a as int, b as int) =~= rest);
    while b > a && is_whitespace(cs[b - 1])
        invariant
            a <= b <= cs.len(),
            trimmed_end(cs@.subrange(a as int, b as int)) == trimmed_end(rest),
        decreases b,
    {
        b -= 1;
        assert(cs@.subrange(a as int, b + 1).drop_last() =~= cs@.subrange(a as int, b as int));
    }
    string_of(&cs, a, b)
}

/// The text without trailing white space.
pub fn trim_end(s: &str) -> (out: String)
    ensures
        out@ == trimmed_end(s@),
{
    let cs = chars_of(s);
    let mut b: usize = cs.len();
    assert(cs@.subrange(0, b as int) =~= cs@);
    while b > 0 && is_whitespace(cs[b - 1])
        invariant
            b <= cs.len(),
            trimmed_end(cs@.subrange(0, b as int)) == trimmed_end(cs@),
        decreases b,
    {
        b -= 1;
        assert(cs@.subrange(0, b + 1).drop_last() =~= cs@.subrange(0, b as int));
    }
    string_of(&cs, 0, b)
}

/// Whether nothing is left of the text once white space is trimmed.
pub fn is_blank(s: &str) -> (r: bool)
    ensures
        r == (trimmed(s@).len() == 0),
{
    let t = trim(s);
    t.as_str().is_empty()
}

/// The text without any white space.
pub fn remove_white(s: &str) -> (out: String)
    ensures
        out@ == without_white(s@),
{
    let cs = chars_of(s);
    let mut out = String::new();
    let mut i: usize = 0;
    while i < cs.len()
        invariant
            i <= cs.len(),
            out@ == without_white(cs@.take(i as int)),
        decreases cs.len() - i,
    {
        if !is_whitespace(cs[i]) {
            out.push(cs[i]);
        }
        i += 1;
        assert(cs@.take(i as int).drop_last() =~= cs@.take(i - 1));
    }
    assert(cs@.take(cs@.len() as int) =~= cs@);
    out
}

/// Whether `p` stands in `cs` at position `i`.
pub fn matches_at(cs: &Vec<char>, p: &Vec<char>, i: usize) -> (r: bool)
    requires
        i <= cs.len(),
    ensures
        r == occurs_at(cs@, p@, i as int),
{
    if cs.len() - i < p.len() {
        return false;
    }
    let mut k: usize = 0;
    while k < p.len()
        invariant
            i + p.len() <= cs.len(),
            k <= p.len(),
            forall|j: int| 0 <= j < k ==> cs@[i + j] == p@[j],
        decreases p.len() - k,
    {
        if cs[i + k] != p[k] {
            assert(cs@.subrange(i as int, i + p@.len())[k as int] != p@[k as int]);
            return false;
        }
        k += 1;
    }
    assert(cs@.subrange(i as int, i + p@.len()) =~= p@);
    true
}

/// Whether the text begins with `p`.
pub fn starts_with(s: &str, p: &str) -> (r: bool)
    ensures
        r == p@.is_prefix_of(s@),
{
    let cs = chars_of(s);
    let ps = chars_of(p);
    let r = matches_at(&cs, &ps, 0);
    r
}

/// Whether the text ends with `p`.
pub fn ends_with(s: &str, p: &str) -> (r: bool)
    ensures
        r == p@.is_suffix_of(s@),
{
    let cs = chars_of(s);
    let ps = chars_of(p);
    if cs.len() < ps.len() {
        return false;
    }
    let at: usize = cs.len() - ps.len();
    let r = matches_at(&cs, &ps, at);
    assert(at + p@.len() == s@.len());
    r
}

/// Whether the character stands in the text.
pub fn contains_char(s: &str, c: char) -> (r: bool)
    ensures
        r == s@.contains(c),
{
    let cs = chars_of(s);
    let mut i: usize = 0;
    while i < cs.len()
        invariant
            i <= cs.len(),
            cs@ == s@,
            forall|j: int| 0 <= j < i ==> cs@[j] != c,
        decreases cs.len() - i,
    {
        if cs[i] == c {
            return true;
        }
        i += 1;
    }
    false
}

/// How often the character stands in the text.
pub fn count_of(s: &str, c: char) -> (n: usize)
    ensures
        n == count_char(s@, c),
{
    let cs = chars_of(s);
    let mut i: usize = 0;
    let mut n: usize = 0;
    while i < cs.len()
        invariant
            n <= i <= cs.len(),
            n == count_char(cs@.take(i as int), c),
        decreases cs.len() - i,
    {
        if cs[i] == c {
            n += 1;
        }
        i += 1;
        assert(cs@.take(i as int).drop_last() =~= cs@.take(i - 1));
    }
    assert(cs@.take(cs@.len() as int) =~= cs@);
    n
}

/// Whether `p` stands somewhere in the text.
pub fn contains_text(s: &str, p: &str) -> (r: bool)
    ensures
        r == occurs(s@, p@),
{
    let cs = chars_of(s);
    let ps = chars_of(p);
    let mut i: usize = 0;
    while i < cs.len()
        invariant
            i <= cs.len(),
            cs@ == s@,
            ps@ == p@,
            forall|j: int| 0 <= j < i ==> !occurs_at(cs@, ps@, j),
        decreases cs.len() - i,
    {
        if matches_at(&cs, &ps, i) {
            return true;
        }
        i += 1;
    }
    let last = matches_at(&cs, &ps, i);
    assert(last ==> occurs_at(s@, p@, i as int));
    last
}

/// Replaces every occurrence of `from` by `to`.
pub fn replace_text(s: &str, from: &str, to: &str) -> (out: String)
    ensures
        out@ == replaced(s@, from@, to@),
{
    let cs = chars_of(s);
    let ps = chars_of(from);
    let mut out = String::new();
    let mut i: usize = 0;
    assert(cs@.skip(0) =~= cs@);
    while ps.len() > 0 && cs.len() - i >= ps.len()
        invariant
            i <= cs.len(),
            cs@ == s@,
            ps@ == from@,
            out@ + replaced(cs@.skip(i as int), from@, to@) == replaced(s@, from@, to@),
        decreases cs.len() - i,
    {
        let ghost before = out@;
        let ghost rest = cs@.skip(i as int);
        if matches_at(&cs, &ps, i) {
            assert(rest.subrange(0, from@.len() as int) =~= cs@.subrange(i as int, i + from@.len()));
            assert(occurs_at(rest, from@, 0));
            assert(rest.skip(from@.len() as int) =~= cs@.skip(i + from@.len()));
            out.append(to);
            i += ps.len();
            assert(out@ + replaced(cs@.skip(i as int), from@, to@) =~= before + (to@ + replaced(
                cs@.skip(i as int),
                from@,
                to@,
            )));
        } else {
            assert(occurs_at(rest, from@, 0) ==> occurs_at(cs@, from@, i as int)) by {
                assert(rest.subrange(0, from@.len() as int) =~= cs@.subrange(
                    i as int,
                    i + from@.len(),
                ));
            }
            assert(rest.skip(1) =~= cs@.skip(i + 1));
            assert(rest[0] == cs@[i as int]);
            out.push(cs[i]);
            i += 1;
            assert(out@ + replaced(cs@.skip(i as int), from@, to@) =~= before + (seq![
                cs@[i - 1],
            ] + replaced(cs@.skip(i as int), from@, to@)));
        }
    }
    let tail = string_of(&cs, i, cs.len());
    assert(tail@ =~= cs@.skip(i as int));
    out.append(tail.as_str());
    out
}

/// The parts of the text between the occurrences of the separator.
pub fn split_text(s: &str, sep: &str) -> (out: Vec<String>)
    ensures
        texts(out@) == split_on(s@, sep@),
{
    let cs = chars_of(s);
    let ps = chars_of(sep);
    let mut out: Vec<String> = Vec::new();
    if ps.len() == 0 {
        out.push(String::new());
        let mut i: usize = 0;
        while i < cs.len()
            invariant
                i <= cs.len(),
                texts(out@) == seq![Seq::<char>::empty()] + singletons(cs@.take(i as int)),
            decreases cs.len() - i,
        {
            let ghost before = texts(out@);
            out.push(string_of(&cs, i, i + 1));
            i += 1;
            assert(cs@.subrange(i - 1, i as int) =~= seq![cs@[i - 1]]);
            assert(texts(out@) =~= before.push(seq![cs@[i - 1]]));
            assert(singletons(cs@.take(i as int)) =~= singletons(cs@.take(i - 1)).push(
                seq![cs@[i - 1]],
            ));
            assert(texts(out@) =~= seq![Seq::<char>::empty()] + singletons(cs@.take(i as int)));
        }
        assert(cs@.take(cs@.len() as int) =~= cs@);
        out.push(String::new());
        assert(texts(out@) =~= split_on(s@, sep@));
        return out;
    }
    let mut a: usize = 0;
    let mut i: usize = 0;
    assert(cs@.skip(0) =~= cs@);
    assert(cs@.subrange(0, 0) =~= Seq::<char>::empty());
    assert(texts(out@) + split_scan(seq![], cs@, sep@) =~= split_on(s@, sep@));
    while cs.len() - i >= ps.len()
        invariant
            a <= i <= cs.len(),
            ps.len() > 0,
            cs@ == s@,
            ps@ == sep@,
            texts(out@) + split_scan(cs@.subrange(a as int, i as int), cs@.skip(i as int), sep@)
                == split_on(s@, sep@),
        decreases cs.len() - i,
    {
        let ghost before = texts(out@);
        let ghost head = cs@.subrange(a as int, i as int);
        let ghost rest = cs@.skip(i as int);
        assert(rest.subrange(0, sep@.len() as int) =~= cs@.subrange(i as int, i + sep@.len()));
        if matches_at(&cs, &ps, i) {
            assert(occurs_at(rest, sep@, 0));
            assert(rest.skip(sep@.len() as int) =~= cs@.skip(i + sep@.len()));
            out.push(string_of(&cs, a, i));
            assert(texts(out@) =~= before.push(head));
            i += ps.len();
            a = i;
            assert(cs@.subrange(a as int, i as int) =~= Seq::<char>::empty());
            assert(texts(out@) + split_scan(seq![], cs@.skip(i as int), sep@) =~= before + (seq![
                head,
            ] + split_scan(seq![], cs@.skip(i as int), sep@)));
        } else {
            assert(!occurs_at(rest, sep@, 0));
            assert(rest.skip(1) =~= cs@.skip(i + 1));
            assert(rest[0] == cs@[i as int]);
            i += 1;
            assert(cs@.subrange(a as int, i as int) =~= head.push(cs@[i - 1]));
        }
    }
    out.push(string_of(&cs, a, cs.len()));
    assert(cs@.subrange(a as int, i as int) + cs@.skip(i as int) =~= cs@.subrange(
        a as int,
        cs@.len() as int,
    ));
    assert(texts(out@) =~= split_on(s@, sep@));
    out
}

/// The parts joined by the separator.
pub fn join(parts: &Vec<String>, sep: &str) -> (out: String)
    ensures
        out@ == joined(texts(parts@), sep@),
{
    let mut out = String::new();
    let mut i: usize = 0;
    while i < parts.len()
        invariant
            i <= parts.len(),
            out@ == joined(texts(parts@).take(i as int), sep@),
        decreases parts.len() - i,
    {
        if i > 0 {
            out.append(sep);
        }
        out.append(parts[i].as_str());
        i += 1;
        assert(texts(parts@).take(i as int).drop_last() =~= texts(parts@).take(i - 1));
        assert(out@ =~= joined(texts(parts@).take(i as int), sep@));
    }
    assert(texts(parts@).take(parts@.len() as int) =~= texts(parts@));
    out
}

/// The decimal notation of a number.
pub fn decimal_of(n: u64) -> (out: String)
    ensures
        out@ == decimal(n as nat),
    decreases n,
{
    if n < 10 {
        let mut out = String::new();
        out.push(digit(n as u8));
        assert(out@ =~= decimal(n as nat));
        out
    } else {
        let mut out = decimal_of(n / 10);
        out.push(digit((n % 10) as u8));
        out
    }
}

/// The decimal digit of value `d`.
fn digit(d: u8) -> (c: char)
    requires
        d < 10,
    ensures
        c == digit_char(d as nat),
{
    (48 + d) as char
}

/// A copy of a list of texts.
pub fn copy_texts(list: &Vec<String>) -> (out: Vec<String>)
    ensures
        texts(out@) == texts(list@),
{
    let mut out: Vec<String> = Vec::new();
    let mut i: usize = 0;
    while i < list.len()
        invariant
            i <= list.len(),
            texts(out@) == texts(list@).take(i as int),
        decreases list.len() - i,
    {
        let ghost before = texts(out@);
        out.push(list[i].clone());
        i += 1;
        assert(texts(out@) =~= before.push(texts(list@)[i - 1]));
        assert(texts(out@) =~= texts(list@).take(i as int));
    }
    assert(texts(list@).take(list@.len() as int) =~= texts(list@));
    out
}

/// Two lists that are joined one after the other give what each of them gives, with the separator
/// between; a single text is joined to itself, and nothing to nothing.
pub proof fn law_joined_in_pieces(a: Seq<Seq<char>>, b: Seq<Seq<char>>, t: Seq<char>, sep: Seq<char>)
    ensures
        joined(Seq::<Seq<char>>::empty(), sep) == Seq::<char>::empty(),
        joined(seq![t], sep) == t,
        a.len() > 0 && b.len() > 0 ==> joined(a + b, sep) == joined(a, sep) + sep + joined(b, sep),
    decreases b.len(),
{
    if a.len() > 0 && b.len() > 0 {
        assert((a + b).drop_last() =~= a + b.drop_last());
        if b.len() == 1 {
            assert(a + b.drop_last() =~= a);
        } else {
            law_joined_in_pieces(a, b.drop_last(), t, sep);
        }
        assert(joined(a + b, sep) =~= joined(a, sep) + sep + joined(b, sep));
    }
}

/// Two texts joined.
pub proof fn lemma_joined_two(a: Seq<char>, b: Seq<char>, sep: Seq<char>)
    ensures
        joined(seq![a].push(b), sep) == a + sep + b,
{
    assert(seq![a].push(b).drop_last() =~= seq![a]);
    assert(joined(seq![a], sep) == a);
}

/// Three texts joined.
pub proof fn lemma_joined_three(a: Seq<char>, b: Seq<char>, c: Seq<char>, sep: Seq<char>)
    ensures
        joined(seq![a].push(b).push(c), sep) == a + sep + b + sep + c,
{
    lemma_joined_two(a, b, sep);
    assert(seq![a].push(b).push(c).drop_last() =~= seq![a].push(b));
}

/// Four texts joined.
pub proof fn lemma_joined_four(
    a: Seq<char>,
    b: Seq<char>,
    c: Seq<char>,
    d: Seq<char>,
    sep: Seq<char>,
)
    ensures
        joined(seq![a].push(b).push(c).push(d), sep) == a + sep + b + sep + c + sep + d,
{
    lemma_joined_three(a, b, c, sep);
    assert(seq![a].push(b).push(c).push(d).drop_last() =~= seq![a].push(b).push(c));
}

/// Five texts joined.
pub proof fn lemma_joined_five(
    a: Seq<char>,
    b: Seq<char>,
    c: Seq<char>,
    d: Seq<char>,
    e: Seq<char>,
    sep: Seq<char>,
)
    ensures
        joined(seq![a].push(b).push(c).push(d).push(e), sep) == a + sep + b + sep + c + sep + d
            + sep + e,
{
    lemma_joined_four(a, b, c, d, sep);
    assert(seq![a].push(b).push(c).push(d).push(e).drop_last() =~= seq![a].push(b).push(c).push(d));
}

/// Texts that differ still differ with the same text in front of both and the same behind both.
pub proof fn lemma_differ_inside(front: Seq<char>, x: Seq<char>, y: Seq<char>, back: Seq<char>)
    requires
        x != y,
    ensures
        front + x + back != front + y + back,
{
    let a = front + x + back;
    let b = front + y + back;
    if a == b {
        assert(a.len() == front.len() + x.len() + back.len());
        assert(b.len() == front.len() + y.len() + back.len());
        assert(a.subrange(front.len() as int, (front.len() + x.len()) as int) =~= x);
        assert(b.subrange(front.len() as int, (front.len() + y.len()) as int) =~= y);
    }
}

/// Trimming takes away white space only, from both ends, and all that stands there.
pub proof fn law_trimmed_is_the_core(s: Seq<char>)
    ensures
        exists|a: Seq<char>, b: Seq<char>|
            all_white(a) && all_white(b) && s == #[trigger] (a + trimmed(s) + b),
        trimmed(s).len() > 0 ==> !is_white(trimmed(s)[0]) && !is_white(trimmed(s).last()),
{
    lemma_trimmed_start_split(s);
    let t = trimmed_start(s);
    lemma_trimmed_end_split(t);
    let a = choose|a: Seq<char>| all_white(a) && s == #[trigger] (a + t);
    let b = choose|b: Seq<char>| all_white(b) && t == #[trigger] (trimmed_end(t) + b);
    assert(s =~= a + trimmed(s) + b);
    if trimmed(s).len() > 0 {
        assert(trimmed(s)[0] == t[0]);
    }
}

/// What is trimmed at the front is white space.
proof fn lemma_trimmed_start_split(s: Seq<char>)
    ensures
        exists|a: Seq<char>| all_white(a) && s == #[trigger] (a + trimmed_start(s)),
        trimmed_start(s).len() > 0 ==> !is_white(trimmed_start(s)[0]),
    decreases s.len(),
{
    if s.len() > 0 && is_white(s[0]) {
        lemma_trimmed_start_split(s.skip(1));
        let a = choose|a: Seq<char>|
            all_white(a) && s.skip(1) == #[trigger] (a + trimmed_start(s.skip(1)));
        let whole = seq![s[0]] + a;
        assert(all_white(whole)) by {
            assert forall|i: int| 0 <= i < whole.len() implies is_white(#[trigger] whole[i]) by {
                if i > 0 {
                    assert(whole[i] == a[i - 1]);
                }
            }
        }
        assert(s =~= seq![s[0]] + s.skip(1));
        assert(s =~= whole + trimmed_start(s));
    } else {
        let a = Seq::<char>::empty();
        assert(all_white(a));
        assert(s =~= a + trimmed_start(s));
    }
}

/// What is trimmed at the end is white space.
proof fn lemma_trimmed_end_split(s: Seq<char>)
    ensures
        exists|b: Seq<char>| all_white(b) && s == #[trigger] (trimmed_end(s) + b),
        trimmed_end(s).len() > 0 ==> !is_white(trimmed_end(s).last()),
    decreases s.len(),
{
    if s.len() > 0 && is_white(s.last()) {
        lemma_trimmed_end_split(s.drop_last());
        let b = choose|b: Seq<char>|
            all_white(b) && s.drop_last() == #[trigger] (trimmed_end(s.drop_last()) + b);
        let whole = b.push(s.last());
        assert(all_white(whole)) by {
            assert forall|i: int| 0 <= i < whole.len() implies is_white(#[trigger] whole[i]) by {
                if i < b.len() {
                    assert(whole[i] == b[i]);
                }
            }
        }
        assert(s =~= s.drop_last().push(s.last()));
        assert(s =~= trimmed_end(s) + whole);
    } else {
        let b = Seq::<char>::empty();
        assert(all_white(b));
        assert(s =~= trimmed_end(s) + b);
    }
}

/// White space is taken out of each part of a text by itself: a white character is dropped, any
/// other is kept.
pub proof fn law_white_is_dropped_everywhere(a: Seq<char>, b: Seq<char>, c: char)
    ensures
        without_white(a + b) == without_white(a) + without_white(b),
        is_white(c) ==> without_white(seq![c]) == Seq::<char>::empty(),
        !is_white(c) ==> without_white(seq![c]) == seq![c],
    decreases b.len(),
{
    assert(seq![c].drop_last() =~= Seq::<char>::empty());
    assert(without_white(Seq::<char>::empty()) =~= Seq::<char>::empty());
    assert(Seq::<char>::empty().push(c) =~= seq![c]);
    if b.len() == 0 {
        assert(a + b =~= a);
        assert(without_white(a) + without_white(b) =~= without_white(a));
    } else {
        law_white_is_dropped_everywhere(a, b.drop_last(), c);
        assert((a + b).drop_last() =~= a + b.drop_last());
        assert((a + b).last() == b.last());
        assert(without_white(a + b) =~= without_white(a) + without_white(b));
    }
}

/// A character is counted in each part of a text by itself, once for each place where it stands.
pub proof fn law_count_in_pieces(a: Seq<char>, b: Seq<char>, c: char, d: char)
    ensures
        count_char(a + b, c) == count_char(a, c) + count_char(b, c),
        count_char(seq![c], c) == 1,
        c != d ==> count_char(seq![d], c) == 0,
    decreases b.len(),
{
    assert(seq![c].drop_last() =~= Seq::<char>::empty());
    assert(seq![d].drop_last() =~= Seq::<char>::empty());
    assert(count_char(Seq::<char>::empty(), c) == 0);
    if b.len() == 0 {
        assert(a + b =~= a);
    } else {
        law_count_in_pieces(a, b.drop_last(), c, d);
        assert((a + b).drop_last() =~= a + b.drop_last());
        assert((a + b).last() == b.last());
    }
}

/// Texts that are joined by the separator at which they were split give the text again, and to
/// replace a text is to split at it and to join with the other.
pub proof fn law_split_and_join(s: Seq<char>, sep: Seq<char>, to: Seq<char>)
    requires
        sep.len() > 0,
    ensures
        joined(split_on(s, sep), sep) == s,
        joined(split_on(s, sep), to) == replaced(s, sep, to),
{
    lemma_split_joined(Seq::empty(), s, sep, to);
    assert(Seq::<char>::empty() + s =~= s);
    assert(Seq::<char>::empty() + replaced(s, sep, to) =~= replaced(s, sep, to));
}

/// Joining what a scan has split.
proof fn lemma_split_joined(head: Seq<char>, s: Seq<char>, sep: Seq<char>, to: Seq<char>)
    requires
        sep.len() > 0,
    ensures
        joined(split_scan(head, s, sep), sep) == head + s,
        joined(split_scan(head, s, sep), to) == head + replaced(s, sep, to),
        split_scan(head, s, sep).len() > 0,
    decreases s.len(),
{
    if s.len() < sep.len() {
        assert(joined(seq![head + s], sep) == head + s);
    } else if occurs_at(s, sep, 0) {
        let rest = s.skip(sep.len() as int);
        let parts = split_scan(Seq::empty(), rest, sep);
        lemma_split_joined(Seq::empty(), rest, sep, to);
        law_joined_in_pieces(seq![head], parts, head, sep);
        law_joined_in_pieces(seq![head], parts, head, to);
        assert(s =~= sep + rest) by {
            assert(s.subrange(0, sep.len() as int) =~= sep);
        }
        assert(Seq::<char>::empty() + rest =~= rest);
        assert(split_scan(head, s, sep) == seq![head] + parts);
        assert(head + s =~= head + sep + rest);
        assert(head + to + (Seq::<char>::empty() + replaced(rest, sep, to)) =~= head + (to + replaced(
            rest,
            sep,
            to,
        )));
    } else {
        lemma_split_joined(head.push(s[0]), s.skip(1), sep, to);
        assert(head.push(s[0]) + s.skip(1) =~= head + s);
        assert(head.push(s[0]) + replaced(s.skip(1), sep, to) =~= head + (seq![s[0]] + replaced(
            s.skip(1),
            sep,
            to,
        )));
    }
}

/// Small letters have no capital left in them and capitals no small letter; a character that is
/// neither, as all that are not letters, stays where it is; and it makes no difference to the one
/// whether the other was done before.
pub proof fn law_letters_change_their_case(s: Seq<char>, i: int)
    requires
        0 <= i < s.len(),
    ensures
        ascii_lower(s).len() == s.len(),
        ascii_upper(s).len() == s.len(),
        !('A' <= ascii_lower(s)[i] <= 'Z'),
        !('a' <= ascii_upper(s)[i] <= 'z'),
        !('A' <= s[i] <= 'Z') ==> ascii_lower(s)[i] == s[i],
        !('a' <= s[i] <= 'z') ==> ascii_upper(s)[i] == s[i],
        'A' <= s[i] <= 'Z' ==> ascii_upper(ascii_lower(s)) [i] == s[i],
        'a' <= s[i] <= 'z' ==> ascii_lower(ascii_upper(s)) [i] == s[i],
{
}

/// None of the parts into which a text is split holds the separator.
pub proof fn law_split_leaves_no_separator(s: Seq<char>, sep: Seq<char>, i: int)
    requires
        sep.len() > 0,
        0 <= i < split_on(s, sep).len(),
    ensures
        !occurs(split_on(s, sep)[i], sep),
{
    assert(Seq::<char>::empty() + s =~= s);
    lemma_scan_leaves_no_separator(Seq::empty(), s, sep, i);
}

/// None of the parts of a scan holds the separator.
proof fn lemma_scan_leaves_no_separator(head: Seq<char>, s: Seq<char>, sep: Seq<char>, i: int)
    requires
        sep.len() > 0,
        forall|k: int| 0 <= k < head.len() ==> !(#[trigger] occurs_at(head + s, sep, k)),
        0 <= i < split_scan(head, s, sep).len(),
    ensures
        !occurs(split_scan(head, s, sep)[i], sep),
    decreases s.len(),
{
    if s.len() < sep.len() {
        let whole = head + s;
        assert(split_scan(head, s, sep)[i] == whole);
        assert forall|k: int| !occurs_at(whole, sep, k) by {
            if occurs_at(whole, sep, k) {
                assert(k < head.len());
            }
        }
    } else if occurs_at(s, sep, 0) {
        let rest = s.skip(sep.len() as int);
        let parts = split_scan(Seq::empty(), rest, sep);
        assert(split_scan(head, s, sep) == seq![head] + parts);
        if i == 0 {
            assert forall|k: int| !occurs_at(head, sep, k) by {
                if occurs_at(head, sep, k) {
                    assert((head + s).subrange(k, k + sep.len()) =~= head.subrange(
                        k,
                        k + sep.len(),
                    ));
                    assert(occurs_at(head + s, sep, k));
                }
            }
        } else {
            assert((seq![head] + parts)[i] == parts[i - 1]);
            lemma_scan_leaves_no_separator(Seq::empty(), rest, sep, i - 1);
        }
    } else {
        let longer = head.push(s[0]);
        assert(longer + s.skip(1) =~= head + s);
        assert(!occurs_at(head + s, sep, head.len() as int)) by {
            assert((head + s).subrange(head.len() as int, (head.len() + sep.len()) as int) =~= s.subrange(
                0,
                sep.len() as int,
            ));
        }
        lemma_scan_leaves_no_separator(longer, s.skip(1), sep, i);
    }
}

/// A text that does not hold what is to be replaced stays as it is.
pub proof fn law_absent_text_is_not_replaced(s: Seq<char>, from: Seq<char>, to: Seq<char>)
    requires
        !occurs(s, from),
    ensures
        replaced(s, from, to) == s,
    decreases s.len(),
{
    if from.len() > 0 && s.len() >= from.len() {
        assert(!occurs_at(s, from, 0));
        assert forall|i: int| !occurs_at(s.skip(1), from, i) by {
            if occurs_at(s.skip(1), from, i) {
                assert(s.subrange(i + 1, i + 1 + from.len()) =~= s.skip(1).subrange(
                    i,
                    i + from.len(),
                ));
                assert(occurs_at(s, from, i + 1));
            }
        }
        law_absent_text_is_not_replaced(s.skip(1), from, to);
        assert(seq![s[0]] + s.skip(1) =~= s);
    }
}

/// What stands in a text has all its characters in it.
pub proof fn lemma_occurs_contains(s: Seq<char>, p: Seq<char>, i: int)
    requires
        occurs(s, p),
        0 <= i < p.len(),
    ensures
        s.contains(p[i]),
{
    let k = choose|k: int| occurs_at(s, p, k);
    assert(s.subrange(k, k + p.len())[i] == p[i]);
    assert(s[k + i] == p[i]);
}

/// A text is split at the first separator: what stands before it is the first part, and what
/// stands behind it is split by itself. A text without the separator is its only part.
pub proof fn law_split_at_the_first_separator(a: Seq<char>, sep: Seq<char>, b: Seq<char>)
    requires
        sep.len() > 0,
        !a.contains(sep[0]),
    ensures
        split_on(a + sep + b, sep) == seq![a] + split_on(b, sep),
        split_on(a, sep) == seq![a],
{
    let none = Seq::<char>::empty();
    lemma_scan_to_separator(none, a, sep, b);
    assert(none + a =~= a);
}

/// A scan goes on to the first separator.
proof fn lemma_scan_to_separator(head: Seq<char>, a: Seq<char>, sep: Seq<char>, b: Seq<char>)
    requires
        sep.len() > 0,
        !a.contains(sep[0]),
    ensures
        split_scan(head, a + sep + b, sep) == seq![head + a] + split_scan(Seq::empty(), b, sep),
        split_scan(head, a, sep) == seq![head + a],
    decreases a.len(),
{
    let s = a + sep + b;
    if a.len() == 0 {
        assert(s.subrange(0, sep.len() as int) =~= sep);
        assert(occurs_at(s, sep, 0));
        assert(s.skip(sep.len() as int) =~= b);
        assert(head + a =~= head);
    } else {
        let rest = a.skip(1);
        assert(a.contains(a[0]));
        assert(s[0] == a[0]);
        if occurs_at(s, sep, 0) {
            assert(s.subrange(0, sep.len() as int)[0] == a[0]);
        }
        if occurs_at(a, sep, 0) {
            assert(a.subrange(0, sep.len() as int)[0] == a[0]);
        }
        assert forall|c: char| rest.contains(c) implies a.contains(c) by {
            let j = choose|j: int| 0 <= j < rest.len() && rest[j] == c;
            assert(a[j + 1] == c);
        }
        lemma_scan_to_separator(head.push(s[0]), rest, sep, b);
        assert(s.skip(1) =~= rest + sep + b);
        assert(head.push(s[0]) + rest =~= head + a);
    }
}

/// Replacing brings no other characters than those that replace.
pub proof fn lemma_replaced_contains(s: Seq<char>, from: Seq<char>, to: Seq<char>, c: char)
    requires
        replaced(s, from, to).contains(c),
    ensures
        s.contains(c) || to.contains(c),
    decreases s.len(),
{
    let out = replaced(s, from, to);
    let i = choose|i: int| 0 <= i < out.len() && out[i] == c;
    if from.len() == 0 || s.len() < from.len() {
    } else if occurs_at(s, from, 0) {
        let rest = s.skip(from.len() as int);
        if i < to.len() {
            assert(to[i] == c);
        } else {
            assert(replaced(rest, from, to)[i - to.len()] == c);
            lemma_replaced_contains(rest, from, to, c);
            if rest.contains(c) {
                let j = choose|j: int| 0 <= j < rest.len() && rest[j] == c;
                assert(s[j + from.len()] == c);
            }
        }
    } else {
        let rest = s.skip(1);
        if i == 0 {
            assert(s[0] == c);
        } else {
            assert(replaced(rest, from, to)[i - 1] == c);
            lemma_replaced_contains(rest, from, to, c);
            if rest.contains(c) {
                let j = choose|j: int| 0 <= j < rest.len() && rest[j] == c;
                assert(s[j + 1] == c);
            }
        }
    }
}

/// A digit behind the decimal notation of a number is one more digit of a number ten times as
/// great.
pub proof fn law_decimal_grows_by_digits(n: nat, d: nat)
    requires
        d < 10,
    ensures
        n > 0 ==> decimal(10 * n + d) == decimal(n) + decimal(d),
        decimal(d).len() == 1,
        decimal(d)[0] as u32 == '0' as u32 + d,
{
    if n > 0 {
        assert((10 * n + d) / 10 == n);
        assert((10 * n + d) % 10 == d);
        assert(decimal(10 * n + d) =~= decimal(n) + decimal(d));
    }
}

/// White space are the blank, the control characters from tab to carriage return, the next line,
/// the separators of lines and paragraphs, and the blanks of other widths; nothing else is.
pub proof fn law_what_is_white(c: char)
    ensures
        (c as u32) < 128 ==> (is_white(c) <==> c == ' ' || c == '\t' || c == '\n' || c == '\u{b}' || c
            == '\u{c}' || c == '\r'),
        (c as u32) >= 128 ==> (is_white(c) <==> c == '\u{85}' || c == '\u{a0}' || c == '\u{1680}' || (
        '\u{2000}' <= c <= '\u{200a}') || c == '\u{2028}' || c == '\u{2029}' || c == '\u{202f}' || c
            == '\u{205f}' || c == '\u{3000}'),
{
}

/// Each of the texts that are joined stands in what they are joined to.
pub proof fn law_joined_parts_stand_in_it(parts: Seq<Seq<char>>, sep: Seq<char>, i: int)
    requires
        0 <= i < parts.len(),
    ensures
        occurs(joined(parts, sep), parts[i]),
    decreases parts.len(),
{
    let all = joined(parts, sep);
    let last = parts.last();
    if parts.len() == 1 {
        lemma_stands_inside(Seq::empty(), last, Seq::empty());
        assert(Seq::<char>::empty() + last + Seq::<char>::empty() =~= all);
    } else if i == parts.len() - 1 {
        let front = joined(parts.drop_last(), sep) + sep;
        lemma_stands_inside(front, last, Seq::empty());
        assert(front + last + Seq::<char>::empty() =~= all);
    } else {
        let head = joined(parts.drop_last(), sep);
        law_joined_parts_stand_in_it(parts.drop_last(), sep, i);
        let k = choose|k: int| occurs_at(head, parts.drop_last()[i], k);
        let p = parts[i];
        assert(all.subrange(k, k + p.len()) =~= head.subrange(k, k + p.len()));
        assert(occurs_at(all, p, k));
    }
}

/// A text stands in what it is put into.
pub proof fn lemma_stands_inside(front: Seq<char>, p: Seq<char>, back: Seq<char>)
    ensures
        occurs_at(front + p + back, p, front.len() as int),
        occurs(front + p + back, p),
{
    let s = front + p + back;
    let k = front.len() as int;
    assert(s.subrange(k, k + p.len()) =~= p);
    assert(occurs_at(s, p, k));
}

/// An empty separator parts all characters, with an empty text before the first and one behind the
/// last.
pub proof fn law_empty_separator_parts_all(s: Seq<char>, i: int)
    requires
        0 <= i < s.len(),
    ensures
        split_on(s, Seq::empty()).len() == s.len() + 2,
        split_on(s, Seq::empty())[0].len() == 0,
        split_on(s, Seq::empty()).last().len() == 0,
        split_on(s, Seq::empty())[i + 1] == seq![s[i]],
{
}

} // verus!
