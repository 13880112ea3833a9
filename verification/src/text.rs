//! Operations on text, stated over sequences of characters.

use vstd::prelude::*;

verus! {

/// `String::push` appends one character at the end of the text.
pub assume_specification[ String::push ](s: &mut String, c: char)
    ensures
        final(s)@ == old(s)@.push(c),
;

/// What is left of `s` once every leading character equal to `c` is gone.
pub open spec fn without_leading(s: Seq<char>, c: char) -> Seq<char>
    decreases s.len(),
{
    if s.len() > 0 && s[0] == c {
        without_leading(s.drop_first(), c)
    } else {
        s
    }
}

/// What is left of `s` once every trailing character equal to `c` is gone.
pub open spec fn without_trailing(s: Seq<char>, c: char) -> Seq<char>
    decreases s.len(),
{
    if s.len() > 0 && s.last() == c {
        without_trailing(s.drop_last(), c)
    } else {
        s
    }
}

/// The characters with the Unicode property `White_Space`.
pub open spec fn is_space(c: char) -> bool {
    let n = c as u32;
    ||| 0x9 <= n <= 0xd
    ||| n == 0x20
    ||| n == 0x85
    ||| n == 0xa0
    ||| n == 0x1680
    ||| 0x2000 <= n <= 0x200a
    ||| n == 0x2028
    ||| n == 0x2029
    ||| n == 0x202f
    ||| n == 0x205f
    ||| n == 0x3000
}

/// `s` without leading white space.
pub open spec fn without_leading_space(s: Seq<char>) -> Seq<char>
    decreases s.len(),
{
    if s.len() > 0 && is_space(s[0]) {
        without_leading_space(s.drop_first())
    } else {
        s
    }
}

/// `s` without trailing white space.
pub open spec fn without_trailing_space(s: Seq<char>) -> Seq<char>
    decreases s.len(),
{
    if s.len() > 0 && is_space(s.last()) {
        without_trailing_space(s.drop_last())
    } else {
        s
    }
}

/// `s` without white space at either end.
pub open spec fn trimmed(s: Seq<char>) -> Seq<char> {
    without_trailing_space(without_leading_space(s))
}

/// `part` stands in `s` at position `at`.
pub open spec fn occurs_at(s: Seq<char>, part: Seq<char>, at: int) -> bool {
    0 <= at && at + part.len() <= s.len() && s.subrange(at, at + part.len()) == part
}

/// `part` stands somewhere in `s`.
pub open spec fn has_part(s: Seq<char>, part: Seq<char>) -> bool {
    exists|at: int| #[trigger] occurs_at(s, part, at)
}

/// The pieces of `s` between the occurrences of `sep`.
pub open spec fn pieces(s: Seq<char>, sep: char) -> Seq<Seq<char>>
    decreases s.len(),
{
    if s.len() == 0 {
        seq![Seq::<char>::empty()]
    } else {
        let before = pieces(s.drop_last(), sep);
        if s.last() == sep {
            before.push(Seq::<char>::empty())
        } else {
            before.drop_last().push(before.last().push(s.last()))
        }
    }
}

/// Where `part` stands in `s` first, from position `from` on.
pub open spec fn first_at(s: Seq<char>, part: Seq<char>, from: int) -> Option<int>
    decreases s.len() - from + 1,
{
    if from < 0 || from + part.len() > s.len() {
        None
    } else if occurs_at(s, part, from) {
        Some(from)
    } else {
        first_at(s, part, from + 1)
    }
}

/// The pieces of `s` between the occurrences of the text `sep`, which is not empty, from
/// the left to the right.
pub open spec fn text_pieces(s: Seq<char>, sep: Seq<char>) -> Seq<Seq<char>>
    decreases s.len(),
{
    match first_at(s, sep, 0) {
        Some(i) => if sep.len() > 0 && 0 <= i && i + sep.len() <= s.len() {
            seq![s.take(i)] + text_pieces(s.skip(i + sep.len()), sep)
        } else {
            seq![s]
        },
        None => seq![s],
    }
}

/// `s` with each occurrence of the character `from` replaced by `to`.
pub open spec fn replaced(s: Seq<char>, from: char, to: Seq<char>) -> Seq<char>
    decreases s.len(),
{
    if s.len() == 0 {
        Seq::<char>::empty()
    } else {
        replaced(s.drop_last(), from, to) + (if s.last() == from {
            to
        } else {
            seq![s.last()]
        })
    }
}

/// The texts of `list` one after the other, with `sep` between neighbours.
pub open spec fn joined(list: Seq<Seq<char>>, sep: Seq<char>) -> Seq<char>
    decreases list.len(),
{
    if list.len() == 0 {
        Seq::<char>::empty()
    } else if list.len() == 1 {
        list[0]
    } else {
        joined(list.drop_last(), sep) + sep + list.last()
    }
}

/// The digit of value `d`.
pub open spec fn digit(d: nat) -> char {
    ('0' as u32 + d) as char
}

/// The decimal numeral of `n`, without leading zeros.
pub open spec fn numeral(n: nat) -> Seq<char>
    decreases n,
{
    if n < 10 {
        seq![digit(n)]
    } else {
        numeral(n / 10).push(digit(n % 10))
    }
}

/// The characters of a list of strings.
pub open spec fn views(list: Seq<String>) -> Seq<Seq<char>> {
    list.map_values(|s: String| s@)
}

/// The characters of an optional string.
pub open spec fn opt_view(s: Option<String>) -> Option<Seq<char>> {
    match s {
        Some(t) => Some(t@),
        None => None,
    }
}

/// The characters of `s` as a vector.
pub fn chars_of(s: &str) -> (r: Vec<char>)
    ensures
        r@ == s@,
{
    let mut out: Vec<char> = Vec::new();
    for c in it: s.chars()
        invariant
            out@ =~= it.seq().take(it.index() as int),
            it.seq() == s@,
    {
        out.push(c);
    }
    out
}

/// The text made of the characters `from .. to` of `chars`.
pub fn text_of(chars: &Vec<char>, from: usize, to: usize) -> (r: String)
    requires
        from <= to <= chars.len(),
    ensures
        r@ == chars@.subrange(from as int, to as int),
{
    let mut out = String::new();
    let mut i: usize = from;
    while i < to
        invariant
            from <= i <= to <= chars.len(),
            out@ =~= chars@.subrange(from as int, i as int),
        decreases to - i,
    {
        out.push(chars[i]);
        i += 1;
    }
    out
}

/// The two texts hold the same characters.
pub fn same_text(a: &str, b: &str) -> (r: bool)
    ensures
        r == (a@ == b@),
{
    let x = chars_of(a);
    let y = chars_of(b);
    if x.len() != y.len() {
        return false;
    }
    let mut i: usize = 0;
    while i < x.len()
        invariant
            x@ == a@,
            y@ == b@,
            x.len() == y.len(),
            i <= x.len(),
            forall|j: int| 0 <= j < i ==> x[j] == y[j],
        decreases x.len() - i,
    {
        if x[i] != y[i] {
            assert(a@[i as int] != b@[i as int]);
            return false;
        }
        i += 1;
    }
    assert(a@ =~= b@);
    true
}

/// The part stands in the characters at that position.
fn matches_at(s: &Vec<char>, part: &Vec<char>, at: usize) -> (r: bool)
    requires
        at + part.len() <= s.len(),
    ensures
        r == occurs_at(s@, part@, at as int),
{
    let mut i: usize = 0;
    while i < part.len()
        invariant
            at + part.len() <= s.len(),
            i <= part.len(),
            forall|j: int| 0 <= j < i ==> s[at + j] == part[j],
        decreases part.len() - i,
    {
        if s[at + i] != part[i] {
            assert(s@.subrange(at as int, at + part.len())[i as int] != part@[i as int]);
            return false;
        }
        i += 1;
    }
    assert(s@.subrange(at as int, at + part.len()) =~= part@);
    true
}

/// `s` begins with `prefix`.
pub fn starts_with(s: &str, prefix: &str) -> (r: bool)
    ensures
        r == prefix@.is_prefix_of(s@),
{
    let x = chars_of(s);
    let y = chars_of(prefix);
    if y.len() > x.len() {
        return false;
    }
    matches_at(&x, &y, 0)
}

/// `s` ends with `suffix`.
pub fn ends_with(s: &str, suffix: &str) -> (r: bool)
    ensures
        r == suffix@.is_suffix_of(s@),
{
    let x = chars_of(s);
    let y = chars_of(suffix);
    if y.len() > x.len() {
        return false;
    }
    matches_at(&x, &y, x.len() - y.len())
}

/// `part` stands somewhere in `s`.
pub fn contains(s: &str, part: &str) -> (r: bool)
    ensures
        r == has_part(s@, part@),
{
    let x = chars_of(s);
    let y = chars_of(part);
    if y.len() > x.len() {
        return false;
    }
    let last: usize = x.len() - y.len();
    let mut i: usize = 0;
    while i <= last
        invariant
            x@ == s@,
            y@ == part@,
            last + y.len() == x.len(),
            i <= last + 1,
            forall|at: int| 0 <= at < i ==> !#[trigger] occurs_at(s@, part@, at),
        decreases last + 1 - i,
    {
        if matches_at(&x, &y, i) {
            return true;
        }
        if i == last {
            return false;
        }
        i += 1;
    }
    false
}

/// Where `part` stands in `s` first.
pub fn find(s: &str, part: &str) -> (r: Option<usize>)
    ensures
        match r {
            Some(i) => first_at(s@, part@, 0) == Some(i as int) && occurs_at(s@, part@, i as int),
            None => first_at(s@, part@, 0) is None,
        },
{
    let x = chars_of(s);
    let y = chars_of(part);
    if y.len() > x.len() {
        return None;
    }
    let last: usize = x.len() - y.len();
    let mut i: usize = 0;
    while i < last
        invariant
            x@ == s@,
            y@ == part@,
            last + y.len() == x.len(),
            i <= last,
            first_at(s@, part@, 0) == first_at(s@, part@, i as int),
        decreases last - i,
    {
        if matches_at(&x, &y, i) {
            return Some(i);
        }
        i += 1;
    }
    if matches_at(&x, &y, last) {
        Some(last)
    } else {
        proof {
            reveal_with_fuel(first_at, 2);
        }
        None
    }
}

/// The pieces of `s` between the occurrences of the text `sep`, from the left to the right.
pub fn split_text(s: &str, sep: &str) -> (r: Vec<String>)
    requires
        sep@.len() > 0,
    ensures
        views(r@) == text_pieces(s@, sep@),
    decreases s@.len(),
{
    match find(s, sep) {
        Some(i) => {
            let x = chars_of(s);
            let n: usize = sep.unicode_len();
            assert(occurs_at(s@, sep@, i as int));
            assert(x.len() == s@.len());
            assert(i + n <= x.len());
            let head = text_of(&x, 0, i);
            let rest = text_of(&x, i + n, x.len());
            proof {
                assert(head@ =~= s@.take(i as int));
                assert(rest@ =~= s@.skip(i + n));
            }
            let mut tail = split_text(rest.as_str(), sep);
            let mut out: Vec<String> = Vec::new();
            out.push(head);
            let ghost after = views(tail@);
            out.append(&mut tail);
            proof {
                assert(views(out@) =~= seq![s@.take(i as int)] + after);
            }
            out
        },
        None => {
            let mut out: Vec<String> = Vec::new();
            out.push(s.to_string());
            proof {
                assert(views(out@) =~= seq![s@]);
            }
            out
        },
    }
}

/// `s` without the trailing characters equal to `c`.
pub fn trim_end_matches(s: &str, c: char) -> (r: String)
    ensures
        r@ == without_trailing(s@, c),
{
    let x = chars_of(s);
    let mut end: usize = x.len();
    proof {
        assert(x@.take(end as int) =~= s@);
    }
    while end > 0 && x[end - 1] == c
        invariant
            x@ == s@,
            end <= x.len(),
            without_trailing(x@.take(end as int), c) == without_trailing(s@, c),
        decreases end,
    {
        proof {
            assert(x@.take(end as int).drop_last() =~= x@.take(end - 1));
        }
        end -= 1;
    }
    proof {
        assert(x@.take(end as int) =~= x@.subrange(0, end as int));
    }
    text_of(&x, 0, end)
}

/// `s` without the leading characters equal to `c`.
pub fn trim_start_matches(s: &str, c: char) -> (r: String)
    ensures
        r@ == without_leading(s@, c),
{
    let x = chars_of(s);
    let mut start: usize = 0;
    proof {
        assert(x@.skip(0) =~= s@);
    }
    while start < x.len() && x[start] == c
        invariant
            x@ == s@,
            start <= x.len(),
            without_leading(x@.skip(start as int), c) == without_leading(s@, c),
        decreases x.len() - start,
    {
        proof {
            assert(x@.skip(start as int).drop_first() =~= x@.skip(start + 1));
        }
        start += 1;
    }
    proof {
        assert(x@.skip(start as int) =~= x@.subrange(start as int, x.len() as int));
    }
    text_of(&x, start, x.len())
}

/// `c` has the Unicode property `White_Space`.
pub fn is_whitespace(c: char) -> (r: bool)
    ensures
        r == is_space(c),
{
    let n: u32 = c as u32;
    (0x9 <= n && n <= 0xd) || n == 0x20 || n == 0x85 || n == 0xa0 || n == 0x1680 || (0x2000 <= n
        && n <= 0x200a) || n == 0x2028 || n == 0x2029 || n == 0x202f || n == 0x205f || n == 0x3000
}

/// `s` without white space at either end.
pub fn trim(s: &str) -> (r: String)
    ensures
        r@ == trimmed(s@),
{
    let x = chars_of(s);
    let mut start: usize = 0;
    proof {
        assert(x@.skip(0) =~= s@);
    }
    while start < x.len() && is_whitespace(x[start])
        invariant
            x@ == s@,
            start <= x.len(),
            without_leading_space(x@.skip(start as int)) == without_leading_space(s@),
        decreases x.len() - start,
    {
        proof {
            assert(x@.skip(start as int).drop_first() =~= x@.skip(start + 1));
        }
        start += 1;
    }
    let ghost rest = x@.skip(start as int);
    let mut end: usize = x.len();
    proof {
        assert(x@.subrange(start as int, end as int) =~= rest);
    }
    while end > start && is_whitespace(x[end - 1])
        invariant
            x@ == s@,
            start <= end <= x.len(),
            without_trailing_space(x@.subrange(start as int, end as int))
                == without_trailing_space(rest),
        decreases end,
    {
        proof {
            assert(x@.subrange(start as int, end as int).drop_last() =~= x@.subrange(
                start as int,
                end - 1,
            ));
        }
        end -= 1;
    }
    text_of(&x, start, end)
}

/// The pieces of `s` between the occurrences of `sep`.
pub fn split(s: &str, sep: char) -> (r: Vec<String>)
    ensures
        views(r@) == pieces(s@, sep),
{
    let x = chars_of(s);
    let mut out: Vec<String> = Vec::new();
    let mut piece = String::new();
    let mut i: usize = 0;
    proof {
        assert(x@.take(0) =~= Seq::<char>::empty());
        assert(views(out@).push(piece@) =~= pieces(x@.take(0), sep));
    }
    while i < x.len()
        invariant
            x@ == s@,
            i <= x.len(),
            views(out@).push(piece@) == pieces(x@.take(i as int), sep),
        decreases x.len() - i,
    {
        let ghost before = views(out@).push(piece@);
        proof {
            assert(x@.take(i + 1).drop_last() =~= x@.take(i as int));
            assert(before.drop_last() =~= views(out@));
        }
        if x[i] == sep {
            let ghost finished = out@.push(piece);
            out.push(piece);
            piece = String::new();
            proof {
                assert(views(out@) =~= before);
            }
        } else {
            piece.push(x[i]);
        }
        i += 1;
    }
    proof {
        assert(x@.take(i as int) =~= s@);
    }
    let ghost done = views(out@).push(piece@);
    out.push(piece);
    proof {
        assert(views(out@) =~= done);
    }
    out
}

/// `s` with each occurrence of `from` replaced by `to`.
pub fn replace(s: &str, from: char, to: &str) -> (r: String)
    ensures
        r@ == replaced(s@, from, to@),
{
    let x = chars_of(s);
    let mut out = String::new();
    let mut i: usize = 0;
    proof {
        assert(x@.take(0) =~= Seq::<char>::empty());
    }
    while i < x.len()
        invariant
            x@ == s@,
            i <= x.len(),
            out@ =~= replaced(x@.take(i as int), from, to@),
        decreases x.len() - i,
    {
        proof {
            assert(x@.take(i + 1).drop_last() =~= x@.take(i as int));
        }
        if x[i] == from {
            out.append(to);
        } else {
            out.push(x[i]);
        }
        i += 1;
    }
    proof {
        assert(x@.take(i as int) =~= s@);
    }
    out
}

/// The texts of `list` one after the other, with `sep` between neighbours.
pub fn join(list: &Vec<String>, sep: &str) -> (r: String)
    ensures
        r@ == joined(views(list@), sep@),
{
    let mut out = String::new();
    let mut i: usize = 0;
    while i < list.len()
        invariant
            i <= list.len(),
            out@ =~= joined(views(list@).take(i as int), sep@),
        decreases list.len() - i,
    {
        proof {
            assert(views(list@).take(i + 1).drop_last() =~= views(list@).take(i as int));
        }
        if i > 0 {
            out.append(sep);
        }
        out.append(list[i].as_str());
        i += 1;
    }
    proof {
        assert(views(list@).take(i as int) =~= views(list@));
    }
    out
}

/// The decimal numeral of `n`.
pub fn decimal(n: u64) -> (r: String)
    ensures
        r@ == numeral(n as nat),
    decreases n,
{
    let last: u32 = (n % 10) as u32;
    let mut out = if n < 10 {
        String::new()
    } else {
        decimal(n / 10)
    };
    out.push(digit_char(last));
    out
}

/// The digit of value `d`.
fn digit_char(d: u32) -> (r: char)
    requires
        d < 10,
    ensures
        r == digit(d as nat),
{
    match d {
        0 => '0',
        1 => '1',
        2 => '2',
        3 => '3',
        4 => '4',
        5 => '5',
        6 => '6',
        7 => '7',
        8 => '8',
        _ => '9',
    }
}

/// The two optional texts are the same.
pub(crate) fn same_option(a: &Option<String>, b: &Option<String>) -> (r: bool)
    ensures
        r == (opt_view(*a) == opt_view(*b)),
{
    match (a, b) {
        (None, None) => true,
        (Some(x), Some(y)) => same_text(x.as_str(), y.as_str()),
        _ => false,
    }
}

/// A copy of a list of texts.
pub(crate) fn copied(list: &Vec<String>) -> (r: Vec<String>)
    ensures
        views(r@) == views(list@),
{
    let mut out: Vec<String> = Vec::new();
    let mut i: usize = 0;
    while i < list.len()
        invariant
            i <= list.len(),
            views(out@) =~= views(list@).take(i as int),
        decreases list.len() - i,
    {
        let ghost before = views(out@);
        out.push(list[i].clone());
        proof {
            assert(views(out@) =~= before.push(list@[i as int]@));
        }
        i += 1;
    }
    proof {
        assert(views(out@) =~= views(list@));
    }
    out
}

/// What is left of a text without the characters `c` at its end is its beginning: what was
/// taken away are such characters, and what is left does not end in one.
pub proof fn trailing_are_taken(s: Seq<char>, c: char)
    ensures
        without_trailing(s, c).len() <= s.len(),
        without_trailing(s, c) == s.take(without_trailing(s, c).len() as int),
        forall|i: int| without_trailing(s, c).len() <= i < s.len() ==> #[trigger] s[i] == c,
        without_trailing(s, c).len() > 0 ==> without_trailing(s, c).last() != c,
    decreases s.len(),
{
    if s.len() > 0 && s.last() == c {
        let front = s.drop_last();
        trailing_are_taken(front, c);
        let n = without_trailing(s, c).len() as int;
        assert(front.take(n) =~= s.take(n));
        assert forall|i: int| n <= i < s.len() implies #[trigger] s[i] == c by {
            if i < front.len() {
                assert(front[i] == c);
            }
        }
    } else {
        assert(s.take(s.len() as int) =~= s);
    }
}

/// What is left of a text without the characters `c` at its start is its end: what was taken
/// away are such characters, and what is left does not start with one.
pub proof fn leading_are_taken(s: Seq<char>, c: char)
    ensures
        without_leading(s, c).len() <= s.len(),
        without_leading(s, c) == s.skip(s.len() - without_leading(s, c).len()),
        forall|i: int| 0 <= i < s.len() - without_leading(s, c).len() ==> #[trigger] s[i] == c,
        without_leading(s, c).len() > 0 ==> without_leading(s, c)[0] != c,
    decreases s.len(),
{
    if s.len() > 0 && s[0] == c {
        let rest = s.drop_first();
        leading_are_taken(rest, c);
        let n = s.len() - without_leading(s, c).len();
        assert(rest.skip(n - 1) =~= s.skip(n));
        assert forall|i: int| 0 <= i < n implies #[trigger] s[i] == c by {
            if i > 0 {
                assert(rest[i - 1] == c);
            }
        }
    } else {
        assert(s.skip(0) =~= s);
    }
}

/// A trimmed text is a part of the text: what was taken away on either side is white space,
/// and what is left neither starts nor ends with white space.
pub proof fn trimming_takes_space(s: Seq<char>) -> (from: int)
    ensures
        0 <= from <= from + trimmed(s).len() <= s.len(),
        trimmed(s) == s.subrange(from, from + trimmed(s).len()),
        forall|i: int| 0 <= i < from ==> is_space(#[trigger] s[i]),
        forall|i: int| from + trimmed(s).len() <= i < s.len() ==> is_space(#[trigger] s[i]),
        trimmed(s).len() > 0 ==> !is_space(trimmed(s)[0]) && !is_space(trimmed(s).last()),
{
    let rest = without_leading_space(s);
    lemma_leading_space(s);
    lemma_trailing_space(rest);
    let from = s.len() - rest.len();
    let n = trimmed(s).len() as int;
    assert(s.skip(from).take(n) =~= s.subrange(from, from + n));
    assert forall|i: int| from + n <= i < s.len() implies is_space(#[trigger] s[i]) by {
        assert(rest[i - from] == s[i]);
    }
    from
}

proof fn lemma_leading_space(s: Seq<char>)
    ensures
        without_leading_space(s).len() <= s.len(),
        without_leading_space(s) == s.skip(s.len() - without_leading_space(s).len()),
        forall|i: int|
            0 <= i < s.len() - without_leading_space(s).len() ==> is_space(#[trigger] s[i]),
        without_leading_space(s).len() > 0 ==> !is_space(without_leading_space(s)[0]),
    decreases s.len(),
{
    if s.len() > 0 && is_space(s[0]) {
        let rest = s.drop_first();
        lemma_leading_space(rest);
        let n = s.len() - without_leading_space(s).len();
        assert(rest.skip(n - 1) =~= s.skip(n));
        assert forall|i: int| 0 <= i < n implies is_space(#[trigger] s[i]) by {
            if i > 0 {
                assert(is_space(rest[i - 1]));
            }
        }
    } else {
        assert(s.skip(0) =~= s);
    }
}

proof fn lemma_trailing_space(s: Seq<char>)
    ensures
        without_trailing_space(s).len() <= s.len(),
        without_trailing_space(s) == s.take(without_trailing_space(s).len() as int),
        forall|i: int|
            without_trailing_space(s).len() <= i < s.len() ==> is_space(#[trigger] s[i]),
        without_trailing_space(s).len() > 0 ==> !is_space(without_trailing_space(s).last()),
        s.len() > 0 && !is_space(s[0]) ==> without_trailing_space(s).len() > 0,
    decreases s.len(),
{
    if s.len() > 0 && is_space(s.last()) {
        let front = s.drop_last();
        lemma_trailing_space(front);
        let n = without_trailing_space(s).len() as int;
        assert(front.take(n) =~= s.take(n));
        assert forall|i: int| n <= i < s.len() implies is_space(#[trigger] s[i]) by {
            if i < front.len() {
                assert(is_space(front[i]));
            }
        }
    } else {
        assert(s.take(s.len() as int) =~= s);
    }
}

/// The white space of ASCII is white space, and no visible character of ASCII is.
pub proof fn space_is_blank(c: char)
    ensures
        c == ' ' || c == '\t' || c == '\n' || c == '\r' ==> is_space(c),
        '!' <= c <= '~' ==> !is_space(c),
{
}

/// A text has a part exactly if it is that part with something before and behind it.
pub proof fn part_stands_between(s: Seq<char>, part: Seq<char>)
    ensures
        has_part(s, part) <==> exists|a: Seq<char>, b: Seq<char>| s == #[trigger] ((a + part) + b),
{
    if has_part(s, part) {
        let at = choose|at: int| #[trigger] occurs_at(s, part, at);
        let (a, b) = (s.take(at), s.skip(at + part.len()));
        assert(s =~= (a + part) + b);
    }
    if exists|a: Seq<char>, b: Seq<char>| s == #[trigger] ((a + part) + b) {
        let (a, b) = choose|a: Seq<char>, b: Seq<char>| s == #[trigger] ((a + part) + b);
        assert(s.subrange(a.len() as int, (a.len() + part.len()) as int) =~= part);
        assert(occurs_at(s, part, a.len() as int));
    }
}

/// The pieces of a text, joined by the separator, are the text, and none of them has the
/// separator in it.
pub proof fn pieces_make_the_text(s: Seq<char>, sep: char)
    ensures
        pieces(s, sep).len() > 0,
        joined(pieces(s, sep), seq![sep]) == s,
        forall|i: int|
            0 <= i < pieces(s, sep).len() ==> !(#[trigger] pieces(s, sep)[i]).contains(sep),
    decreases s.len(),
{
    let all = pieces(s, sep);
    if s.len() > 0 {
        let front = s.drop_last();
        pieces_make_the_text(front, sep);
        let before = pieces(front, sep);
        if s.last() == sep {
            assert(all.drop_last() =~= before);
            assert(joined(all, seq![sep]) =~= s);
        } else {
            let last = before.last().push(s.last());
            assert(all.drop_last() =~= before.drop_last());
            if before.len() > 1 {
                let j = joined(before.drop_last(), seq![sep]);
                assert(joined(before, seq![sep]) == j + seq![sep] + before.last());
                assert(all.last() == last && all.len() > 1);
                assert(joined(all, seq![sep]) == j + seq![sep] + last);
                assert(j + seq![sep] + last =~= (j + seq![sep] + before.last()).push(s.last()));
                assert(front.push(s.last()) =~= s);
            } else {
                assert(all[0] =~= s);
            }
            assert forall|i: int| 0 <= i < all.len() implies !(#[trigger] all[i]).contains(sep) by {
                if i < before.len() - 1 {
                    assert(all[i] == before[i]);
                } else {
                    assert(!before[i].contains(sep));
                    if last.contains(sep) {
                        let k = choose|k: int| 0 <= k < last.len() && last[k] == sep;
                        assert(before[i][k] == sep);
                    }
                }
            }
        }
    }
}

/// A joined list starts with its first text, and goes on with the separator and the rest.
pub proof fn joining_goes_in_order(first: Seq<char>, rest: Seq<Seq<char>>, sep: Seq<char>)
    requires
        rest.len() > 0,
    ensures
        joined(seq![first], sep) == first,
        joined(seq![first] + rest, sep) == first + sep + joined(rest, sep),
    decreases rest.len(),
{
    let all = seq![first] + rest;
    assert(all.drop_last() =~= seq![first] + rest.drop_last());
    if rest.len() > 1 {
        joining_goes_in_order(first, rest.drop_last(), sep);
        assert(joined(all, sep) =~= first + sep + joined(rest, sep));
    } else {
        assert(all.drop_last() =~= seq![first]);
        assert(joined(seq![first], sep) == first);
        assert(all.len() == 2 && all.last() == rest[0]);
        assert(joined(all, sep) == joined(all.drop_last(), sep) + sep + all.last());
        assert(joined(all, sep) =~= first + sep + joined(rest, sep));
    }
}
/// The contents of a list of texts are those of each of them, in order; an optional text has
/// contents exactly if it is there.
pub proof fn texts_are_what_they_hold(list: Seq<String>, s: String)
    ensures
        views(list).len() == list.len(),
        forall|i: int| 0 <= i < list.len() ==> #[trigger] views(list)[i] == list[i]@,
        opt_view(Some(s)) == Some(s@),
        opt_view(None) is None,
{
}

/// A part is found where it stands first, and nowhere exactly if it does not stand in the text
/// from there on.
pub proof fn first_place_is_the_first(s: Seq<char>, part: Seq<char>, from: int)
    requires
        0 <= from,
    ensures
        match first_at(s, part, from) {
            Some(i) => from <= i && i + part.len() <= s.len() && s.subrange(i, i + part.len())
                == part && forall|k: int| from <= k < i ==> !#[trigger] occurs_at(s, part, k),
            None => forall|k: int| from <= k ==> !#[trigger] occurs_at(s, part, k),
        },
        forall|k: int| #[trigger]
            occurs_at(s, part, k) <==> 0 <= k && k + part.len() <= s.len() && s.subrange(
                k,
                k + part.len(),
            ) == part,
    decreases s.len() - from + 1,
{
    if from + part.len() <= s.len() && !occurs_at(s, part, from) {
        first_place_is_the_first(s, part, from + 1);
    }
}

/// The pieces of a text between the occurrences of a separator, joined by it, are the text. The
/// first piece goes up to the first separator, and the others are those of what stands behind
/// it; where there is no separator, the text is the only piece.
pub proof fn text_pieces_make_the_text(s: Seq<char>, sep: Seq<char>)
    requires
        sep.len() > 0,
    ensures
        text_pieces(s, sep).len() > 0,
        joined(text_pieces(s, sep), sep) == s,
        !has_part(s, sep) ==> text_pieces(s, sep) == seq![s],
        first_at(s, sep, 0) is Some ==> {
            let i = first_at(s, sep, 0)->0;
            &&& text_pieces(s, sep)[0] == s.take(i)
            &&& text_pieces(s, sep).drop_first() == text_pieces(s.skip(i + sep.len()), sep)
        },
    decreases s.len(),
{
    first_place_is_the_first(s, sep, 0);
    match first_at(s, sep, 0) {
        Some(i) => {
            let rest = s.skip(i + sep.len());
            text_pieces_make_the_text(rest, sep);
            joining_goes_in_order(s.take(i), text_pieces(rest, sep), sep);
            assert(s =~= s.take(i) + sep + rest);
            assert(occurs_at(s, sep, i));
            assert(text_pieces(s, sep).drop_first() =~= text_pieces(rest, sep));
        },
        None => {
            assert(joined(seq![s], sep) == s);
        },
    }
}

/// Each character that is to be replaced is, and no other; of two texts in a row each is treated
/// on its own.
pub proof fn replacing_goes_by_character(
    a: Seq<char>,
    b: Seq<char>,
    c: char,
    from: char,
    to: Seq<char>,
)
    ensures
        replaced(a + b, from, to) == replaced(a, from, to) + replaced(b, from, to),
        replaced(seq![from], from, to) == to,
        c != from ==> replaced(seq![c], from, to) == seq![c],
    decreases b.len(),
{
    let none = Seq::<char>::empty();
    assert(seq![from].drop_last() =~= none);
    assert(seq![c].drop_last() =~= none);
    assert(replaced(none, from, to) =~= none);
    assert(replaced(seq![from], from, to) =~= to);
    if c != from {
        assert(replaced(seq![c], from, to) =~= seq![c]);
    }
    if b.len() == 0 {
        assert(a + b =~= a);
        assert(replaced(a, from, to) + replaced(b, from, to) =~= replaced(a, from, to));
    } else {
        replacing_goes_by_character(a, b.drop_last(), c, from, to);
        assert((a + b).drop_last() =~= a + b.drop_last());
        assert((a + b).last() == b.last());
        assert(replaced(a + b, from, to) =~= replaced(a, from, to) + replaced(b, from, to));
    }
}

/// A number is written in decimal digits: below ten by one digit, and from there on by the
/// digits of its tenth and its last one.
pub proof fn numbers_are_written_in_digits(n: nat, d: nat)
    ensures
        d < 10 ==> numeral(d).len() == 1 && numeral(d)[0] as u32 == '0' as u32 + d,
        n > 0 && d < 10 ==> numeral(n * 10 + d) == numeral(n) + numeral(d),
{
    if n > 0 && d < 10 {
        let m = n * 10 + d;
        assert(m / 10 == n && m % 10 == d);
        assert(numeral(m) == numeral(n).push(digit(d)));
        assert(numeral(n).push(digit(d)) =~= numeral(n) + numeral(d));
    }
}

} // verus!
