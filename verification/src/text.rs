//! Text as sequences of characters: trimming, searching, case and digits.
use vstd::prelude::*;

verus! {

/// `String::push` of the standard library puts one character behind the text.
pub assume_specification[ String::push ](s: &mut String, c: char)
    ensures
        final(s)@ == old(s)@.push(c),
;

/// The characters of `s`, in order.
pub fn chars_of(s: &str) -> (r: Vec<char>)
    ensures
        r@ == s@,
{
    let mut out: Vec<char> = Vec::new();
    for c in it: s.chars()
        invariant
            it.seq() == s@,
            out@ == s@.take(it.index()),
    {
        out.push(c);
    }
    assert(s@.take(s@.len() as int) == s@);
    out
}

/// The text whose characters are `chars`.
pub fn text_of(chars: &[char]) -> (r: String)
    ensures
        r@ == chars@,
{
    let mut out = String::new();
    let n = chars.len();
    for i in 0..n
        invariant
            n == chars@.len(),
            out@ == chars@.take(i as int),
    {
        out.push(chars[i]);
        assert(chars@.take(i + 1) == chars@.take(i as int).push(chars@[i as int]));
    }
    assert(chars@.take(n as int) == chars@);
    out
}

/// Whether two texts hold the same characters.
pub fn same_text(a: &str, b: &str) -> (r: bool)
    ensures
        r == (a@ == b@),
{
    a.to_string() == b.to_string()
}

/// Whether `s` begins with `prefix`.
pub fn starts_with(s: &str, prefix: &str) -> (r: bool)
    ensures
        r == prefix@.is_prefix_of(s@),
{
    let a = chars_of(s);
    let b = chars_of(prefix);
    if b.len() > a.len() {
        return false;
    }
    let n = b.len();
    for i in 0..n
        invariant
            n == b@.len(),
            n <= a@.len(),
            a@ == s@,
            b@ == prefix@,
            forall|j: int| 0 <= j < i ==> a@[j] == b@[j],
    {
        if a[i] != b[i] {
            assert(s@.subrange(0, n as int)[i as int] != prefix@[i as int]);
            return false;
        }
    }
    assert(s@.subrange(0, n as int) == prefix@);
    true
}

/// The characters with Unicode's `White_Space` property.
pub open spec fn white_space(c: char) -> bool {
    ||| 0x9 <= c as u32 <= 0xD
    ||| c as u32 == 0x20
    ||| c as u32 == 0x85
    ||| c as u32 == 0xA0
    ||| c as u32 == 0x1680
    ||| 0x2000 <= c as u32 <= 0x200A
    ||| 0x2028 <= c as u32 <= 0x2029
    ||| c as u32 == 0x202F
    ||| c as u32 == 0x205F
    ||| c as u32 == 0x3000
}

/// The control characters: Unicode's general category `Cc`.
pub open spec fn control(c: char) -> bool {
    ||| c as u32 <= 0x1F
    ||| 0x7F <= c as u32 <= 0x9F
}

/// Whether `c` is white space.
pub fn is_white_space(c: char) -> (r: bool)
    ensures
        r == white_space(c),
{
    let n: u32 = c as u32;
    (0x9 <= n && n <= 0xD) || n == 0x20 || n == 0x85 || n == 0xA0 || n == 0x1680 || (0x2000 <= n && n
        <= 0x200A) || (0x2028 <= n && n <= 0x2029) || n == 0x202F || n == 0x205F || n == 0x3000
}

/// Whether `c` is a control character.
pub fn is_control(c: char) -> (r: bool)
    ensures
        r == control(c),
{
    let n: u32 = c as u32;
    n <= 0x1F || (0x7F <= n && n <= 0x9F)
}

/// `s` without the characters at its front that `drop` picks.
pub open spec fn trim_front(s: Seq<char>, drop: spec_fn(char) -> bool) -> Seq<char>
    decreases s.len(),
{
    if s.len() > 0 && drop(s.first()) {
        trim_front(s.drop_first(), drop)
    } else {
        s
    }
}

/// `s` without the characters at its back that `drop` picks.
pub open spec fn trim_back(s: Seq<char>, drop: spec_fn(char) -> bool) -> Seq<char>
    decreases s.len(),
{
    if s.len() > 0 && drop(s.last()) {
        trim_back(s.drop_last(), drop)
    } else {
        s
    }
}

/// `s` without the white space around it.
pub open spec fn trimmed(s: Seq<char>) -> Seq<char> {
    trim_back(trim_front(s, |c: char| white_space(c)), |c: char| white_space(c))
}

/// `s` without the full stops at its end.
pub open spec fn without_final_dots(s: Seq<char>) -> Seq<char> {
    trim_back(s, |c: char| c == '.')
}

/// Trimming the back keeps a prefix, and what it keeps does not end in a
/// dropped character.
pub proof fn lemma_trim_back(s: Seq<char>, drop: spec_fn(char) -> bool)
    ensures
        trim_back(s, drop).is_prefix_of(s),
        trim_back(s, drop).len() > 0 ==> !drop(trim_back(s, drop).last()),
    decreases s.len(),
{
    if s.len() > 0 && drop(s.last()) {
        lemma_trim_back(s.drop_last(), drop);
        let t = trim_back(s, drop);
        assert(s.subrange(0, t.len() as int) == s.drop_last().subrange(0, t.len() as int));
    } else {
        assert(s.subrange(0, s.len() as int) == s);
    }
}

/// The slice of `chars` without the white space around it.
pub fn trim(chars: &[char]) -> (r: Vec<char>)
    ensures
        r@ == trimmed(chars@),
{
    let ghost ws = |c: char| white_space(c);
    let mut start: usize = 0;
    assert(chars@.skip(0) == chars@);
    while start < chars.len() && is_white_space(chars[start])
        invariant
            start <= chars@.len(),
            ws == (|c: char| white_space(c)),
            trim_front(chars@, ws) == trim_front(chars@.skip(start as int), ws),
        decreases chars@.len() - start,
    {
        assert(chars@.skip(start as int).drop_first() == chars@.skip(start + 1));
        start += 1;
    }
    let ghost front = chars@.skip(start as int);
    assert(trim_front(chars@, ws) == front);
    let mut end: usize = chars.len();
    assert(chars@.subrange(start as int, end as int) == front);
    while end > start && is_white_space(chars[end - 1])
        invariant
            start <= end <= chars@.len(),
            ws == (|c: char| white_space(c)),
            trim_back(front, ws) == trim_back(chars@.subrange(start as int, end as int), ws),
        decreases end,
    {
        assert(chars@.subrange(start as int, end as int).drop_last() == chars@.subrange(
            start as int,
            end - 1,
        ));
        end -= 1;
    }
    let ghost kept = chars@.subrange(start as int, end as int);
    assert(trim_back(kept, ws) == kept);
    let mut out: Vec<char> = Vec::new();
    for i in start..end
        invariant
            start <= end <= chars@.len(),
            kept == chars@.subrange(start as int, end as int),
            out@ == kept.take(i - start),
    {
        out.push(chars[i]);
        assert(kept.take(i + 1 - start) == kept.take(i - start).push(kept[i - start]));
    }
    assert(kept.take(end - start) == kept);
    out
}

/// Drops the full stops at the end of `chars`.
pub fn drop_final_dots(chars: &mut Vec<char>)
    ensures
        final(chars)@ == without_final_dots(old(chars)@),
{
    let ghost dot = |c: char| c == '.';
    while chars.len() > 0 && chars[chars.len() - 1] == '.'
        invariant
            dot == (|c: char| c == '.'),
            trim_back(old(chars)@, dot) == trim_back(chars@, dot),
        decreases chars@.len(),
    {
        assert(chars@.drop_last() == chars@.subrange(0, chars@.len() - 1));
        let _ = chars.pop();
    }
}

/// The first position at or behind `from` at which `needle` stands in `hay`.
pub open spec fn find_from(hay: Seq<char>, needle: Seq<char>, from: int) -> Option<int>
    decreases hay.len() - from + 1,
{
    if from < 0 || from + needle.len() > hay.len() {
        None
    } else if hay.subrange(from, from + needle.len()) == needle {
        Some(from)
    } else {
        find_from(hay, needle, from + 1)
    }
}

/// `find_from` gives the earliest occurrence, and none only where there is none.
pub proof fn lemma_find_from(hay: Seq<char>, needle: Seq<char>, from: int)
    requires
        0 <= from,
    ensures
        find_from(hay, needle, from) matches Some(i) ==> {
            &&& from <= i <= hay.len() - needle.len()
            &&& hay.subrange(i, i + needle.len()) == needle
            &&& forall|j: int|
                from <= j < i ==> #[trigger] hay.subrange(j, j + needle.len()) != needle
        },
        find_from(hay, needle, from) is None ==> forall|j: int|
            from <= j <= hay.len() - needle.len() ==> #[trigger] hay.subrange(j, j + needle.len())
                != needle,
    decreases hay.len() - from + 1,
{
    if from + needle.len() > hay.len() {
    } else if hay.subrange(from, from + needle.len()) == needle {
    } else {
        lemma_find_from(hay, needle, from + 1);
    }
}

/// Whether `needle` stands in `hay` at `at`.
fn stands_at(hay: &[char], needle: &[char], at: usize) -> (r: bool)
    requires
        at + needle@.len() <= hay@.len(),
    ensures
        r == (hay@.subrange(at as int, at + needle@.len()) == needle@),
{
    let n = needle.len();
    let ghost window = hay@.subrange(at as int, at + needle@.len());
    for i in 0..n
        invariant
            n == needle@.len(),
            at + n <= hay.len(),
            window == hay@.subrange(at as int, at + needle@.len()),
            forall|j: int| 0 <= j < i ==> hay@[at + j] == needle@[j],
    {
        if hay[at + i] != needle[i] {
            assert(window[i as int] != needle@[i as int]);
            return false;
        }
    }
    assert(window == needle@);
    true
}

/// Searches `hay` for `needle`, starting at `from`.
pub fn find(hay: &[char], needle: &[char], from: usize) -> (r: Option<usize>)
    ensures
        (match r {
            Some(i) => Some(i as int),
            None => None,
        }) == find_from(hay@, needle@, from as int),
{
    let mut at = from;
    while at <= hay.len() && needle.len() <= hay.len() - at
        invariant
            find_from(hay@, needle@, from as int) == find_from(hay@, needle@, at as int),
        decreases hay@.len() - at,
    {
        if stands_at(hay, needle, at) {
            return Some(at);
        }
        if at == hay.len() {
            assert(find_from(hay@, needle@, at + 1) is None);
            return None;
        }
        at += 1;
    }
    None
}

/// The last position of `c` in `s`.
pub open spec fn last_index_of(s: Seq<char>, c: char) -> Option<int>
    decreases s.len(),
{
    if s.len() == 0 {
        None
    } else if s.last() == c {
        Some(s.len() - 1)
    } else {
        last_index_of(s.drop_last(), c)
    }
}

/// `last_index_of` gives a position of `c` with no other `c` behind it.
pub proof fn lemma_last_index_of(s: Seq<char>, c: char)
    ensures
        last_index_of(s, c) matches Some(i) ==> {
            &&& 0 <= i < s.len()
            &&& s[i] == c
            &&& forall|j: int| i < j < s.len() ==> s[j] != c
        },
        last_index_of(s, c) is None ==> forall|j: int| 0 <= j < s.len() ==> s[j] != c,
    decreases s.len(),
{
    if s.len() > 0 && s.last() != c {
        lemma_last_index_of(s.drop_last(), c);
        assert(forall|j: int| 0 <= j < s.len() - 1 ==> s[j] == s.drop_last()[j]);
    }
}

/// Searches `s` for `c` from the back.
pub fn find_last(s: &[char], c: char) -> (r: Option<usize>)
    ensures
        (match r {
            Some(i) => Some(i as int),
            None => None,
        }) == last_index_of(s@, c),
{
    let mut n: usize = s.len();
    assert(s@.take(n as int) == s@);
    while n > 0
        invariant
            n <= s@.len(),
            last_index_of(s@, c) == last_index_of(s@.take(n as int), c),
        decreases n,
    {
        if s[n - 1] == c {
            return Some(n - 1);
        }
        assert(s@.take(n as int).drop_last() == s@.take(n - 1));
        n -= 1;
    }
    None
}

/// `c`, with the letters `A` to `Z` in lower case.
pub open spec fn ascii_lower(c: char) -> char {
    if 'A' <= c <= 'Z' {
        (c as u8 + 0x20) as char
    } else {
        c
    }
}

/// The text with the letters `A` to `Z` in lower case.
pub open spec fn ascii_lower_text(s: Seq<char>) -> Seq<char> {
    s.map_values(|c: char| ascii_lower(c))
}

/// Puts the letters `A` to `Z` of `s` in lower case.
pub fn to_ascii_lower(s: &[char]) -> (r: String)
    ensures
        r@ == ascii_lower_text(s@),
{
    let mut out = String::new();
    let n = s.len();
    for i in 0..n
        invariant
            n == s@.len(),
            out@ == ascii_lower_text(s@).take(i as int),
    {
        let c = s[i];
        let low: char = if 'A' <= c && c <= 'Z' {
            (c as u8 + 0x20) as char
        } else {
            c
        };
        out.push(low);
        assert(ascii_lower_text(s@).take(i + 1) == ascii_lower_text(s@).take(i as int).push(
            ascii_lower(s@[i as int]),
        ));
    }
    assert(ascii_lower_text(s@).take(n as int) == ascii_lower_text(s@));
    out
}

/// The decimal digit for `d`.
pub open spec fn digit(d: int) -> char {
    (0x30 + d) as char
}

/// `n` written in decimal, without leading zeros.
pub open spec fn decimal(n: nat) -> Seq<char>
    decreases n,
{
    if n < 10 {
        seq![digit(n as int)]
    } else {
        decimal(n / 10).push(digit(n as int % 10))
    }
}

/// Writes `n` in decimal.
pub fn to_decimal(n: u32) -> (r: String)
    ensures
        r@ == decimal(n as nat),
    decreases n,
{
    if n < 10 {
        let mut out = String::new();
        out.push((0x30u8 + n as u8) as char);
        assert(out@ == decimal(n as nat));
        out
    } else {
        let mut out = to_decimal(n / 10);
        out.push((0x30u8 + (n % 10) as u8) as char);
        out
    }
}

/// Every character of a decimal is one of `0` to `9`.
pub proof fn lemma_decimal_digits(n: nat)
    ensures
        decimal(n).len() > 0,
        forall|i: int| 0 <= i < decimal(n).len() ==> '0' <= #[trigger] decimal(n)[i] <= '9',
    decreases n,
{
    if n >= 10 {
        lemma_decimal_digits(n / 10);
        let p = decimal(n / 10);
        assert forall|i: int| 0 <= i < decimal(n).len() implies '0' <= #[trigger] decimal(n)[i]
            <= '9' by {
            if i < p.len() {
                assert(decimal(n)[i] == p[i]);
            }
        }
    }
}

/// Different numbers have different decimals.
pub proof fn lemma_decimal_injective(a: nat, b: nat)
    requires
        decimal(a) == decimal(b),
    ensures
        a == b,
    decreases a,
{
    assert(decimal(a).last() == digit(a as int % 10));
    assert(decimal(b).last() == digit(b as int % 10));
    if a >= 10 || b >= 10 {
        if a < 10 {
            lemma_decimal_digits(b / 10);
            assert(decimal(b).len() == decimal(b / 10).len() + 1);
        } else if b < 10 {
            lemma_decimal_digits(a / 10);
            assert(decimal(a).len() == decimal(a / 10).len() + 1);
        } else {
            assert(decimal(a).drop_last() == decimal(a / 10));
            assert(decimal(b).drop_last() == decimal(b / 10));
            lemma_decimal_injective(a / 10, b / 10);
        }
    }
}

proof fn lemma_trim_front(s: Seq<char>, drop: spec_fn(char) -> bool)
    ensures
        trim_front(s, drop).len() <= s.len(),
        trim_front(s, drop) == s.skip(s.len() - trim_front(s, drop).len()),
        forall|i: int| 0 <= i < s.len() - trim_front(s, drop).len() ==> drop(#[trigger] s[i]),
        trim_front(s, drop).len() > 0 ==> !drop(trim_front(s, drop)[0]),
    decreases s.len(),
{
    if s.len() > 0 && drop(s.first()) {
        let rest = s.drop_first();
        lemma_trim_front(rest, drop);
        let t = trim_front(rest, drop);
        assert(t =~= s.skip(s.len() - t.len()));
        assert forall|i: int| 0 <= i < s.len() - t.len() implies drop(#[trigger] s[i]) by {
            if i > 0 {
                assert(rest[i - 1] == s[i]);
            }
        }
    } else {
        assert(s.skip(0) =~= s);
    }
}

proof fn lemma_trim_back_drops(s: Seq<char>, drop: spec_fn(char) -> bool)
    ensures
        trim_back(s, drop).len() <= s.len(),
        trim_back(s, drop) == s.take(trim_back(s, drop).len() as int),
        forall|i: int| trim_back(s, drop).len() <= i < s.len() ==> drop(#[trigger] s[i]),
    decreases s.len(),
{
    if s.len() > 0 && drop(s.last()) {
        let rest = s.drop_last();
        lemma_trim_back_drops(rest, drop);
        let t = trim_back(rest, drop);
        assert(t =~= s.take(t.len() as int));
        assert forall|i: int| t.len() <= i < s.len() implies drop(#[trigger] s[i]) by {
            if i < s.len() - 1 {
                assert(rest[i] == s[i]);
            }
        }
    } else {
        assert(s.take(s.len() as int) =~= s);
    }
}

/// Trimming takes white space off both ends and nothing else: what stands
/// between two white-space ends and itself neither begins nor ends with white
/// space is what is left.
pub proof fn law_trimming_takes_only_outer_white_space(
    front: Seq<char>,
    middle: Seq<char>,
    back: Seq<char>,
)
    requires
        forall|i: int| 0 <= i < front.len() ==> white_space(#[trigger] front[i]),
        forall|i: int| 0 <= i < back.len() ==> white_space(#[trigger] back[i]),
        middle.len() > 0 ==> !white_space(middle.first()) && !white_space(middle.last()),
    ensures
        trimmed(front + middle + back) == middle,
{
    let ws = |c: char| white_space(c);
    let s = front + middle + back;
    lemma_trim_front(s, ws);
    let t = trim_front(s, ws);
    lemma_trim_back_drops(t, ws);
    lemma_trim_back(t, ws);
    let r = trim_back(t, ws);
    let f = s.len() - t.len();
    if middle.len() > 0 {
        let m = front.len() as int;
        let e = m + middle.len() - 1;
        assert(s[m] == middle.first());
        assert(s[e] == middle.last());
        assert(f <= m);
        if f < m {
            assert(t[0] == s[f]);
            assert(s[f] == front[f]);
        }
        assert(t =~= middle + back);
        if r.len() < middle.len() {
            assert(t[middle.len() - 1] == middle.last());
        }
        if r.len() > middle.len() {
            assert(r.last() == t[r.len() - 1]);
            assert(t[r.len() - 1] == back[r.len() - 1 - middle.len()]);
        }
        assert(r =~= middle);
    } else {
        if t.len() > 0 {
            assert(t[0] == s[f]);
            if f < front.len() {
                assert(s[f] == front[f]);
            } else {
                assert(s[f] == back[f - front.len()]);
            }
        }
        assert(r =~= middle);
    }
}

/// Every text is a trimmed text between two white-space ends.
pub proof fn law_trimmed_text_stands_between_white_space(s: Seq<char>)
    ensures
        exists|front: Seq<char>, back: Seq<char>|
            {
                &&& s == #[trigger] (front + trimmed(s) + back)
                &&& forall|i: int| 0 <= i < front.len() ==> white_space(#[trigger] front[i])
                &&& forall|i: int| 0 <= i < back.len() ==> white_space(#[trigger] back[i])
            },
        trimmed(s).len() > 0 ==> !white_space(trimmed(s).first()) && !white_space(
            trimmed(s).last(),
        ),
{
    let ws = |c: char| white_space(c);
    lemma_trim_front(s, ws);
    let t = trim_front(s, ws);
    lemma_trim_back_drops(t, ws);
    lemma_trim_back(t, ws);
    let r = trimmed(s);
    let front = s.take(s.len() - t.len());
    let back = t.skip(r.len() as int);
    assert(s =~= front + r + back);
    assert forall|i: int| 0 <= i < back.len() implies white_space(#[trigger] back[i]) by {
        assert(ws(t[i + r.len()]));
    }
    assert forall|i: int| 0 <= i < front.len() implies white_space(#[trigger] front[i]) by {
        assert(ws(s[i]));
    }
    if r.len() > 0 {
        assert(r.first() == t[0]);
        assert(!ws(t[0]));
        assert(!ws(r.last()));
    }
}

/// Dropping the full stops at the end drops exactly those.
pub proof fn law_only_final_dots_are_dropped(s: Seq<char>, dots: Seq<char>)
    requires
        s.len() > 0 ==> s.last() != '.',
        forall|i: int| 0 <= i < dots.len() ==> #[trigger] dots[i] == '.',
    ensures
        without_final_dots(s + dots) == s,
{
    let dot = |c: char| c == '.';
    let all = s + dots;
    lemma_trim_back_drops(all, dot);
    lemma_trim_back(all, dot);
    let r = trim_back(all, dot);
    if r.len() < s.len() {
        assert(dot(all[s.len() - 1]));
    }
    if r.len() > s.len() {
        assert(r.last() == all[r.len() - 1]);
        assert(all[r.len() - 1] == dots[r.len() - 1 - s.len()]);
    }
    assert(r =~= s);
}

/// A search finds the first place at or behind `from`, and one only where there
/// is one.
pub proof fn law_search_finds_the_first_place(hay: Seq<char>, needle: Seq<char>, from: int, at: int)
    requires
        0 <= from <= at <= hay.len() - needle.len(),
        hay.subrange(at, at + needle.len()) == needle,
        forall|j: int| from <= j < at ==> #[trigger] hay.subrange(j, j + needle.len()) != needle,
    ensures
        find_from(hay, needle, from) == Some(at),
{
    lemma_find_from(hay, needle, from);
    match find_from(hay, needle, from) {
        Some(i) => {
            if i != at {
                assert(hay.subrange(i, i + needle.len()) == needle);
                assert(hay.subrange(at, at + needle.len()) == needle);
            }
        },
        None => {
            assert(hay.subrange(at, at + needle.len()) != needle);
        },
    }
}

/// A search that finds nothing means that there is nothing to find.
pub proof fn law_search_misses_nothing(hay: Seq<char>, needle: Seq<char>, from: int, at: int)
    requires
        0 <= from <= at <= hay.len() - needle.len(),
        hay.subrange(at, at + needle.len()) == needle,
    ensures
        find_from(hay, needle, from) matches Some(i) && from <= i <= at && hay.subrange(
            i,
            i + needle.len(),
        ) == needle,
{
    lemma_find_from(hay, needle, from);
    if find_from(hay, needle, from) is None {
        assert(hay.subrange(at, at + needle.len()) != needle);
    } else {
        let i = find_from(hay, needle, from)->0;
        if i > at {
            assert(hay.subrange(at, at + needle.len()) != needle);
        }
    }
}

/// What a search finds is there, and where nothing is there it finds nothing.
pub proof fn law_search_finds_only_what_is_there(hay: Seq<char>, needle: Seq<char>, from: int)
    requires
        0 <= from,
    ensures
        find_from(hay, needle, from) matches Some(i) ==> from <= i <= hay.len() - needle.len()
            && hay.subrange(i, i + needle.len()) == needle,
        (forall|j: int|
            from <= j <= hay.len() - needle.len() ==> #[trigger] hay.subrange(j, j + needle.len())
                != needle) ==> find_from(hay, needle, from) is None,
{
    lemma_find_from(hay, needle, from);
}

/// The last position of a character has none of it behind, and is missing only
/// where the character is.
pub proof fn law_last_position_is_the_last(front: Seq<char>, c: char, back: Seq<char>)
    requires
        !back.contains(c),
    ensures
        last_index_of(front + seq![c] + back, c) == Some(front.len() as int),
        last_index_of(back, c) is None,
{
    let s = front + seq![c] + back;
    lemma_last_index_of(s, c);
    lemma_last_index_of(back, c);
    assert(s[front.len() as int] == c);
    if let Some(i) = last_index_of(s, c) {
        if i > front.len() {
            assert(s[i] == back[i - front.len() - 1]);
        }
    }
    if let Some(i) = last_index_of(back, c) {
        assert(back.contains(back[i]));
    }
}

/// Lower case moves the letters from `A` to `Z` by 32 places and leaves every
/// other character alone, one for one.
pub proof fn law_lower_case_moves_ascii_letters(s: Seq<char>)
    ensures
        ascii_lower_text(s).len() == s.len(),
        forall|i: int|
            0 <= i < s.len() ==> {
                let low = #[trigger] ascii_lower_text(s)[i];
                if 0x41 <= s[i] as u32 && s[i] as u32 <= 0x5A {
                    low as u32 == s[i] as u32 + 32
                } else {
                    low == s[i]
                }
            },
{
}

/// The number that decimal digits stand for.
pub open spec fn decimal_value(digits: Seq<char>) -> int
    decreases digits.len(),
{
    if digits.len() == 0 {
        0
    } else {
        decimal_value(digits.drop_last()) * 10 + (digits.last() as int - '0' as int)
    }
}

/// A number written in decimal stands for that number, and has no leading zero
/// but in `0` itself.
pub proof fn law_decimal_reads_back(n: nat)
    ensures
        decimal_value(decimal(n)) == n,
        n > 0 ==> decimal(n)[0] != '0',
        forall|i: int|
            0 <= i < decimal(n).len() ==> '0' <= #[trigger] decimal(n)[i] && decimal(n)[i] <= '9',
    decreases n,
{
    lemma_decimal_digits(n);
    if n < 10 {
        let d = decimal(n);
        assert(d.drop_last() =~= Seq::<char>::empty());
        assert(decimal_value(d.drop_last()) == 0);
    } else {
        law_decimal_reads_back(n / 10);
        assert(decimal(n).drop_last() =~= decimal(n / 10));
        lemma_decimal_digits(n / 10);
        assert(decimal(n)[0] == decimal(n / 10)[0]);
    }
}

} // verus!
