//! Character-level text operations shared by the rest of the library.
//!
//! Text is modelled as `Seq<char>`. Functions that scan or rebuild text work
//! on `Vec<char>`, so that every position is reached in constant time;
//! [`chars_of`] and [`text_of`] convert from and to strings.

use vstd::prelude::*;

verus! {

pub assume_specification[ String::push ](s: &mut String, c: char)
    ensures
        final(s)@ == old(s)@.push(c),
;

/// Whether `c` has the Unicode `White_Space` property.
pub open spec fn is_space(c: char) -> bool {
    let u = c as u32;
    ||| 0x09 <= u <= 0x0D
    ||| u == 0x20
    ||| u == 0x85
    ||| u == 0xA0
    ||| u == 0x1680
    ||| 0x2000 <= u <= 0x200A
    ||| u == 0x2028
    ||| u == 0x2029
    ||| u == 0x202F
    ||| u == 0x205F
    ||| u == 0x3000
}

/// `s` without its leading white space.
pub open spec fn trimmed_start(s: Seq<char>) -> Seq<char>
    decreases s.len(),
{
    if s.len() > 0 && is_space(s[0]) {
        trimmed_start(s.skip(1))
    } else {
        s
    }
}

/// `s` without its trailing white space.
pub open spec fn trimmed_end(s: Seq<char>) -> Seq<char>
    decreases s.len(),
{
    if s.len() > 0 && is_space(s.last()) {
        trimmed_end(s.drop_last())
    } else {
        s
    }
}

/// `s` without leading and trailing white space.
pub open spec fn trimmed(s: Seq<char>) -> Seq<char> {
    trimmed_end(trimmed_start(s))
}

/// The first `n` characters of `s`, or all of `s` if it has fewer.
pub open spec fn prefix(s: Seq<char>, n: nat) -> Seq<char> {
    if n <= s.len() {
        s.take(n as int)
    } else {
        s
    }
}

/// `pat` stands in `s` at position `i`.
pub open spec fn occurs_at(s: Seq<char>, pat: Seq<char>, i: int) -> bool {
    &&& 0 <= i
    &&& i + pat.len() <= s.len()
    &&& s.subrange(i, i + pat.len()) == pat
}

/// `pat` stands somewhere in `s`.
pub open spec fn contains_text(s: Seq<char>, pat: Seq<char>) -> bool {
    exists|i: int| occurs_at(s, pat, i)
}

/// `pat` stands in `s` at `i` and nowhere before.
pub open spec fn is_first_occurrence(s: Seq<char>, pat: Seq<char>, i: int) -> bool {
    &&& occurs_at(s, pat, i)
    &&& forall|j: int| 0 <= j < i ==> !occurs_at(s, pat, j)
}

/// The position of the first occurrence of `pat` in `s`; meaningful where
/// `contains_text(s, pat)` holds.
pub open spec fn first_index(s: Seq<char>, pat: Seq<char>) -> int {
    choose|i: int| is_first_occurrence(s, pat, i)
}

/// `s` begins with `pat`.
pub open spec fn has_prefix(s: Seq<char>, pat: Seq<char>) -> bool {
    occurs_at(s, pat, 0)
}

/// What separates the pieces of a text.
#[derive(Clone, Copy, Debug)]
pub enum Separator {
    /// Any character with the `White_Space` property.
    WhiteSpace,
    /// One given character.
    Character(char),
}

impl Separator {
    /// Whether `c` is a separator.
    pub open spec fn holds(self, c: char) -> bool {
        match self {
            Separator::WhiteSpace => is_space(c),
            Separator::Character(x) => c == x,
        }
    }

    /// Whether `c` is a separator.
    pub fn test(&self, c: char) -> (r: bool)
        ensures
            r == self.holds(c),
    {
        match self {
            Separator::WhiteSpace => is_whitespace(c),
            Separator::Character(x) => c == *x,
        }
    }
}

/// The pieces of `s` between its separators, empty pieces included: one
/// piece more than there are separators.
pub open spec fn split_on(s: Seq<char>, sep: Separator) -> Seq<Seq<char>>
    decreases s.len(),
{
    if s.len() == 0 {
        seq![Seq::<char>::empty()]
    } else {
        let before = split_on(s.drop_last(), sep);
        if sep.holds(s.last()) {
            before.push(Seq::<char>::empty())
        } else {
            before.drop_last().push(before.last().push(s.last()))
        }
    }
}

/// The members of `parts` that are not empty, in order.
pub open spec fn non_empty(parts: Seq<Seq<char>>) -> Seq<Seq<char>>
    decreases parts.len(),
{
    if parts.len() == 0 {
        parts
    } else if parts.last().len() > 0 {
        non_empty(parts.drop_last()).push(parts.last())
    } else {
        non_empty(parts.drop_last())
    }
}

/// The maximal runs of characters of `s` that are not white space.
pub open spec fn words(s: Seq<char>) -> Seq<Seq<char>> {
    non_empty(split_on(s, Separator::WhiteSpace))
}

/// The members of `parts` in order, with `sep` between neighbours.
pub open spec fn joined(parts: Seq<Seq<char>>, sep: Seq<char>) -> Seq<char>
    decreases parts.len(),
{
    if parts.len() == 0 {
        Seq::empty()
    } else if parts.len() == 1 {
        parts[0]
    } else {
        joined(parts.drop_last(), sep) + sep + parts.last()
    }
}

/// The words of `s` separated by single spaces.
pub open spec fn collapsed(s: Seq<char>) -> Seq<char> {
    joined(words(s), seq![' '])
}

/// `s` with every white-space character removed.
pub open spec fn without_spaces(s: Seq<char>) -> Seq<char>
    decreases s.len(),
{
    if s.len() == 0 {
        s
    } else if is_space(s.last()) {
        without_spaces(s.drop_last())
    } else {
        without_spaces(s.drop_last()).push(s.last())
    }
}

/// The views of the rows of a table of characters.
pub open spec fn rows(v: Seq<Vec<char>>) -> Seq<Seq<char>> {
    v.map_values(|r: Vec<char>| r@)
}

/// The view of a text that may be absent.
pub open spec fn text_view(o: Option<String>) -> Option<Seq<char>> {
    match o {
        Some(s) => Some(s@),
        None => None,
    }
}

/// The views of a sequence of strings.
pub open spec fn texts(v: Seq<String>) -> Seq<Seq<char>> {
    v.map_values(|r: String| r@)
}

/// Whether `c` has the Unicode `White_Space` property.
pub fn is_whitespace(c: char) -> (r: bool)
    ensures
        r == is_space(c),
{
    let u: u32 = c as u32;
    (0x09 <= u && u <= 0x0D) || u == 0x20 || u == 0x85 || u == 0xA0 || u == 0x1680 || (0x2000 <= u
        && u <= 0x200A) || u == 0x2028 || u == 0x2029 || u == 0x202F || u == 0x205F || u == 0x3000
}

/// The characters of a text.
pub fn chars_of(s: &str) -> (r: Vec<char>)
    ensures
        r@ == s@,
{
    let mut out: Vec<char> = Vec::new();
    for c in it: s.chars()
        invariant
            out@ == s@.take(it.index() as int),
            it.seq() == s@,
    {
        out.push(c);
    }
    out
}

/// The text of some characters.
pub fn text_of(v: &Vec<char>) -> (r: String)
    ensures
        r@ == v@,
{
    let mut out = String::new();
    let mut i: usize = 0;
    while i < v.len()
        invariant
            i <= v.len(),
            out@ == v@.take(i as int),
        decreases v.len() - i,
    {
        out.push(v[i]);
        i += 1;
    }
    out
}

/// Appends `more` to `out`.
pub fn append(out: &mut Vec<char>, more: &Vec<char>)
    ensures
        final(out)@ == old(out)@ + more@,
{
    let mut i: usize = 0;
    while i < more.len()
        invariant
            i <= more.len(),
            out@ == old(out)@ + more@.take(i as int),
        decreases more.len() - i,
    {
        out.push(more[i]);
        i += 1;
    }
}

/// The characters of `v` from `from` up to `to`.
pub fn slice(v: &Vec<char>, from: usize, to: usize) -> (r: Vec<char>)
    requires
        from <= to <= v.len(),
    ensures
        r@ == v@.subrange(from as int, to as int),
{
    let mut out: Vec<char> = Vec::new();
    let mut i: usize = from;
    while i < to
        invariant
            from <= i <= to <= v.len(),
            out@ == v@.subrange(from as int, i as int),
        decreases to - i,
    {
        out.push(v[i]);
        i += 1;
    }
    out
}

/// The first `n` characters of `v`, or all of `v` if it has fewer.
pub fn take_chars(v: &Vec<char>, n: usize) -> (r: Vec<char>)
    ensures
        r@ == prefix(v@, n as nat),
{
    let end: usize = if n <= v.len() {
        n
    } else {
        v.len()
    };
    slice(v, 0, end)
}

proof fn lemma_trimmed_start_skip(s: Seq<char>, i: int)
    requires
        0 <= i <= s.len(),
        forall|j: int| 0 <= j < i ==> is_space(s[j]),
    ensures
        trimmed_start(s) == trimmed_start(s.skip(i)),
    decreases i,
{
    if i > 0 {
        lemma_trimmed_start_skip(s, i - 1);
        assert(s.skip(i - 1).skip(1) == s.skip(i));
    } else {
        assert(s.skip(0) == s);
    }
}

proof fn lemma_trimmed_end_take(s: Seq<char>, i: int)
    requires
        0 <= i <= s.len(),
        forall|j: int| i <= j < s.len() ==> is_space(s[j]),
    ensures
        trimmed_end(s) == trimmed_end(s.take(i)),
    decreases s.len() - i,
{
    if i < s.len() {
        lemma_trimmed_end_take(s, i + 1);
        assert(s.take(i + 1).drop_last() == s.take(i));
    } else {
        assert(s.take(i) == s);
    }
}

/// `v` without leading and trailing white space.
pub fn trim(v: &Vec<char>) -> (r: Vec<char>)
    ensures
        r@ == trimmed(v@),
{
    let mut start: usize = 0;
    while start < v.len() && is_whitespace(v[start])
        invariant
            start <= v.len(),
            forall|j: int| 0 <= j < start ==> is_space(v@[j]),
        decreases v.len() - start,
    {
        start += 1;
    }
    let mut end: usize = v.len();
    while end > start && is_whitespace(v[end - 1])
        invariant
            start <= end <= v.len(),
            forall|j: int| end <= j < v.len() ==> is_space(v@[j]),
        decreases end,
    {
        end -= 1;
    }
    proof {
        let rest = v@.skip(start as int);
        lemma_trimmed_start_skip(v@, start as int);
        assert(trimmed_start(v@) == rest);
        lemma_trimmed_end_take(rest, end - start);
        assert(rest.take(end - start) == v@.subrange(start as int, end as int));
    }
    slice(v, start, end)
}

/// Whether `pat` stands in `v` at position `i`.
pub fn occurs(v: &Vec<char>, pat: &Vec<char>, i: usize) -> (r: bool)
    ensures
        r == occurs_at(v@, pat@, i as int),
{
    if pat.len() > v.len() || i > v.len() - pat.len() {
        return false;
    }
    let mut k: usize = 0;
    while k < pat.len()
        invariant
            k <= pat.len(),
            i + pat.len() <= v.len(),
            forall|j: int| 0 <= j < k ==> v@[i + j] == pat@[j],
        decreases pat.len() - k,
    {
        if v[i + k] != pat[k] {
            proof {
                assert(v@.subrange(i as int, i + pat.len())[k as int] == v@[i + k]);
            }
            return false;
        }
        k += 1;
    }
    proof {
        assert(v@.subrange(i as int, i + pat.len()) =~= pat@);
    }
    true
}

/// The position of the first occurrence of `pat` in `v`.
pub fn find(v: &Vec<char>, pat: &Vec<char>) -> (r: Option<usize>)
    ensures
        r is Some <==> contains_text(v@, pat@),
        r matches Some(i) ==> i == first_index(v@, pat@) && is_first_occurrence(v@, pat@, i as int),
{
    let mut i: usize = 0;
    while i < v.len()
        invariant
            i <= v.len(),
            forall|j: int| 0 <= j < i ==> !occurs_at(v@, pat@, j),
        decreases v.len() - i,
    {
        if occurs(v, pat, i) {
            proof {
                lemma_first_occurrence_unique(v@, pat@, i as int);
            }
            return Some(i);
        }
        i += 1;
    }
    if occurs(v, pat, i) {
        proof {
            lemma_first_occurrence_unique(v@, pat@, i as int);
        }
        return Some(i);
    }
    None
}

/// A first occurrence is the one that `first_index` names.
pub proof fn lemma_first_occurrence_unique(s: Seq<char>, pat: Seq<char>, i: int)
    requires
        is_first_occurrence(s, pat, i),
    ensures
        contains_text(s, pat),
        first_index(s, pat) == i,
{
    let c = first_index(s, pat);
    assert(is_first_occurrence(s, pat, c));
    if c < i {
        assert(!occurs_at(s, pat, c));
    }
    if i < c {
        assert(!occurs_at(s, pat, i));
    }
}

/// Whether `pat` stands somewhere in `v`.
pub fn contains(v: &Vec<char>, pat: &Vec<char>) -> (r: bool)
    ensures
        r == contains_text(v@, pat@),
{
    find(v, pat).is_some()
}

/// Whether `v` begins with `pat`.
pub fn starts_with(v: &Vec<char>, pat: &Vec<char>) -> (r: bool)
    ensures
        r == has_prefix(v@, pat@),
{
    occurs(v, pat, 0)
}

/// A text always splits into at least one piece.
pub proof fn lemma_split_on_len(s: Seq<char>, sep: Separator)
    ensures
        split_on(s, sep).len() >= 1,
    decreases s.len(),
{
    if s.len() > 0 {
        lemma_split_on_len(s.drop_last(), sep);
    }
}

/// The pieces of `v` between its separators.
pub fn split(v: &Vec<char>, sep: Separator) -> (r: Vec<Vec<char>>)
    ensures
        rows(r@) == split_on(v@, sep),
{
    let mut done: Vec<Vec<char>> = Vec::new();
    let mut cur: Vec<char> = Vec::new();
    let mut i: usize = 0;
    while i < v.len()
        invariant
            i <= v.len(),
            split_on(v@.take(i as int), sep).len() >= 1,
            split_on(v@.take(i as int), sep).drop_last() == rows(done@),
            split_on(v@.take(i as int), sep).last() == cur@,
        decreases v.len() - i,
    {
        let c = v[i];
        proof {
            let next = v@.take(i + 1);
            assert(next.drop_last() == v@.take(i as int));
            assert(next.last() == c);
            lemma_split_on_len(next, sep);
        }
        if sep.test(c) {
            let ghost before = rows(done@);
            done.push(cur);
            cur = Vec::new();
            proof {
                assert(rows(done@) == before.push(split_on(v@.take(i as int), sep).last()));
                let pieces = split_on(v@.take(i as int), sep);
                assert(pieces.drop_last().push(pieces.last()) == pieces);
                assert(split_on(v@.take(i + 1), sep).drop_last() == pieces);
            }
        } else {
            cur.push(c);
            proof {
                let pieces = split_on(v@.take(i as int), sep);
                assert(split_on(v@.take(i + 1), sep).drop_last() == pieces.drop_last());
            }
        }
        i += 1;
    }
    proof {
        assert(v@.take(i as int) == v@);
        let pieces = split_on(v@, sep);
        assert(pieces.drop_last().push(pieces.last()) == pieces);
    }
    let ghost before = rows(done@);
    let ghost last = cur@;
    done.push(cur);
    proof {
        assert(rows(done@) == before.push(last));
    }
    done
}

/// Copies the rows of `parts` that are not empty.
pub fn keep_non_empty(parts: &Vec<Vec<char>>) -> (r: Vec<Vec<char>>)
    ensures
        rows(r@) == non_empty(rows(parts@)),
{
    let mut out: Vec<Vec<char>> = Vec::new();
    let mut i: usize = 0;
    while i < parts.len()
        invariant
            i <= parts.len(),
            rows(out@) == non_empty(rows(parts@).take(i as int)),
        decreases parts.len() - i,
    {
        proof {
            let next = rows(parts@).take(i + 1);
            assert(next.drop_last() == rows(parts@).take(i as int));
            assert(next.last() == parts@[i as int]@);
        }
        if parts[i].len() > 0 {
            let ghost before = rows(out@);
            let row = slice(&parts[i], 0, parts[i].len());
            proof {
                assert(row@ == parts@[i as int]@);
            }
            out.push(row);
            proof {
                assert(rows(out@) == before.push(parts@[i as int]@));
            }
        }
        i += 1;
    }
    proof {
        assert(rows(parts@).take(i as int) == rows(parts@));
    }
    out
}

/// The words of `v`: its maximal runs of characters that are not white space.
pub fn split_words(v: &Vec<char>) -> (r: Vec<Vec<char>>)
    ensures
        rows(r@) == words(v@),
{
    let pieces = split(v, Separator::WhiteSpace);
    keep_non_empty(&pieces)
}

/// The rows of `parts` in order, with `sep` between neighbours.
pub fn join(parts: &Vec<Vec<char>>, sep: &Vec<char>) -> (r: Vec<char>)
    ensures
        r@ == joined(rows(parts@), sep@),
{
    let mut out: Vec<char> = Vec::new();
    let mut i: usize = 0;
    while i < parts.len()
        invariant
            i <= parts.len(),
            out@ == joined(rows(parts@).take(i as int), sep@),
        decreases parts.len() - i,
    {
        proof {
            let next = rows(parts@).take(i + 1);
            assert(next.drop_last() == rows(parts@).take(i as int));
            assert(next.last() == parts@[i as int]@);
            assert(next[0] == parts@[0]@);
        }
        if i > 0 {
            append(&mut out, sep);
        }
        append(&mut out, &parts[i]);
        i += 1;
    }
    proof {
        assert(rows(parts@).take(i as int) == rows(parts@));
    }
    out
}

/// The words of `v` separated by single spaces.
pub fn collapse_whitespace(v: &Vec<char>) -> (r: Vec<char>)
    ensures
        r@ == collapsed(v@),
{
    let parts = split_words(v);
    let mut sep: Vec<char> = Vec::new();
    sep.push(' ');
    proof {
        assert(sep@ == seq![' ']);
    }
    join(&parts, &sep)
}

/// `v` with every white-space character removed.
pub fn remove_whitespace(v: &Vec<char>) -> (r: Vec<char>)
    ensures
        r@ == without_spaces(v@),
{
    let mut out: Vec<char> = Vec::new();
    let mut i: usize = 0;
    while i < v.len()
        invariant
            i <= v.len(),
            out@ == without_spaces(v@.take(i as int)),
        decreases v.len() - i,
    {
        proof {
            assert(v@.take(i + 1).drop_last() == v@.take(i as int));
        }
        if !is_whitespace(v[i]) {
            out.push(v[i]);
        }
        i += 1;
    }
    proof {
        assert(v@.take(i as int) == v@);
    }
    out
}

/// The rows of characters of a list of strings.
pub fn rows_of(parts: &Vec<String>) -> (r: Vec<Vec<char>>)
    ensures
        rows(r@) == texts(parts@),
{
    let mut out: Vec<Vec<char>> = Vec::new();
    let mut i: usize = 0;
    while i < parts.len()
        invariant
            i <= parts.len(),
            rows(out@) == texts(parts@).take(i as int),
        decreases parts.len() - i,
    {
        let ghost before = rows(out@);
        let row = chars_of(parts[i].as_str());
        out.push(row);
        proof {
            assert(rows(out@) == before.push(parts@[i as int]@));
        }
        i += 1;
    }
    proof {
        assert(texts(parts@).take(i as int) == texts(parts@));
    }
    out
}

/// A copy of a list of strings.
pub fn copy_texts(parts: &Vec<String>) -> (r: Vec<String>)
    ensures
        texts(r@) == texts(parts@),
{
    let mut out: Vec<String> = Vec::new();
    let mut i: usize = 0;
    while i < parts.len()
        invariant
            i <= parts.len(),
            texts(out@) == texts(parts@).take(i as int),
        decreases parts.len() - i,
    {
        let ghost before = texts(out@);
        out.push(parts[i].clone());
        proof {
            assert(texts(out@) == before.push(parts@[i as int]@));
        }
        i += 1;
    }
    proof {
        assert(texts(parts@).take(i as int) == texts(parts@));
    }
    out
}

/// Trimming at the start takes a suffix.
pub proof fn lemma_trimmed_start_len(s: Seq<char>)
    ensures
        trimmed_start(s).len() <= s.len(),
    decreases s.len(),
{
    if s.len() > 0 && is_space(s[0]) {
        lemma_trimmed_start_len(s.skip(1));
    }
}

/// Trimming at the end takes a prefix.
pub proof fn lemma_trimmed_end_len(s: Seq<char>)
    ensures
        trimmed_end(s).len() <= s.len(),
    decreases s.len(),
{
    if s.len() > 0 && is_space(s.last()) {
        lemma_trimmed_end_len(s.drop_last());
    }
}

/// Trimming never lengthens a text.
pub proof fn lemma_trimmed_len(s: Seq<char>)
    ensures
        trimmed(s).len() <= s.len(),
{
    lemma_trimmed_start_len(s);
    lemma_trimmed_end_len(trimmed_start(s));
}

/// Appends the text `more` to `out`.
pub fn push_text(out: &mut String, more: &str)
    ensures
        final(out)@ == old(out)@ + more@,
{
    for c in it: more.chars()
        invariant
            out@ == old(out)@ + more@.take(it.index() as int),
            it.seq() == more@,
    {
        out.push(c);
    }
}

/// Whether two texts are the same.
pub fn equals(a: &Vec<char>, b: &Vec<char>) -> (r: bool)
    ensures
        r == (a@ == b@),
{
    if a.len() != b.len() {
        return false;
    }
    let r = occurs(a, b, 0);
    proof {
        assert(a@.subrange(0, a@.len() as int) == a@);
    }
    r
}

/// What `str::to_lowercase` makes of a text: its lower-case equivalent by
/// the Unicode rules, which take no locale.
pub uninterp spec fn lowercased(s: Seq<char>) -> Seq<char>;

/// Calls `str::to_lowercase`. Believed: the result depends on `s` alone.
#[verifier::external_body]
pub(crate) fn to_lowercase(s: &str) -> (r: String)
    ensures
        r@ == lowercased(s@),
{
    s.to_lowercase()
}

/// The decimal digit for `d`, which is below 10.
pub open spec fn digit(d: nat) -> char {
    (0x30 + d) as char
}

/// The decimal numeral of `n`, without leading zeros.
pub open spec fn decimal(n: nat) -> Seq<char>
    decreases n,
{
    if n < 10 {
        seq![digit(n)]
    } else {
        decimal(n / 10).push(digit(n % 10))
    }
}

/// Appends the decimal numeral of `n` to `out`.
pub fn push_decimal(out: &mut Vec<char>, n: u64)
    ensures
        final(out)@ == old(out)@ + decimal(n as nat),
    decreases n,
{
    if n >= 10 {
        push_decimal(out, n / 10);
    }
    let d: u8 = (n % 10) as u8;
    out.push((0x30u8 + d) as char);
    proof {
        if n >= 10 {
            assert(out@ == old(out)@ + decimal(n as nat / 10).push(digit(n as nat % 10)));
        } else {
            assert(out@ == old(out)@ + seq![digit(n as nat)]);
        }
    }
}

/// `s` with `to` in the place of each `from`.
pub open spec fn replaced(s: Seq<char>, from: char, to: char) -> Seq<char> {
    Seq::new(
        s.len(),
        |i: int|
            if s[i] == from {
                to
            } else {
                s[i]
            },
    )
}

/// `v` with `to` in the place of each `from`.
pub fn replace_char(v: &Vec<char>, from: char, to: char) -> (r: Vec<char>)
    ensures
        r@ == replaced(v@, from, to),
{
    let mut out: Vec<char> = Vec::new();
    let mut i: usize = 0;
    while i < v.len()
        invariant
            i <= v.len(),
            out@ == replaced(v@, from, to).take(i as int),
        decreases v.len() - i,
    {
        if v[i] == from {
            out.push(to);
        } else {
            out.push(v[i]);
        }
        i += 1;
    }
    proof {
        assert(replaced(v@, from, to).take(i as int) == replaced(v@, from, to));
    }
    out
}

/// A line as it stood before a line feed: without the carriage return that
/// ended it, if one did.
pub open spec fn without_carriage_return(line: Seq<char>) -> Seq<char> {
    if line.len() > 0 && line.last() == '\r' {
        line.drop_last()
    } else {
        line
    }
}

/// Each of `pieces` without the carriage return at its end.
pub open spec fn ended_lines(pieces: Seq<Seq<char>>) -> Seq<Seq<char>> {
    pieces.map_values(|l: Seq<char>| without_carriage_return(l))
}

/// The lines of a text. A line ends with a line feed, or with a carriage
/// return and a line feed, which are not part of it. What follows the last
/// line feed is a line as it stands, unless it is empty.
pub open spec fn lines_of(s: Seq<char>) -> Seq<Seq<char>> {
    let pieces = split_on(s, Separator::Character('\n'));
    let ended = ended_lines(pieces.drop_last());
    if pieces.last().len() > 0 {
        ended.push(pieces.last())
    } else {
        ended
    }
}

/// The lines of `v`.
pub fn lines(v: &Vec<char>) -> (r: Vec<Vec<char>>)
    ensures
        rows(r@) == lines_of(v@),
{
    let pieces = split(v, Separator::Character('\n'));
    proof {
        lemma_split_on_len(v@, Separator::Character('\n'));
    }
    let ghost all = split_on(v@, Separator::Character('\n'));
    let ghost ended = ended_lines(all.drop_last());
    let mut out: Vec<Vec<char>> = Vec::new();
    let last: usize = pieces.len() - 1;
    let mut i: usize = 0;
    while i < last
        invariant
            i <= last,
            last + 1 == pieces.len(),
            rows(pieces@) == all,
            ended == ended_lines(all.drop_last()),
            rows(out@) == ended.take(i as int),
        decreases last - i,
    {
        let ghost before = rows(out@);
        let piece = &pieces[i];
        proof {
            assert(rows(pieces@)[i as int] == piece@);
        }
        let n = piece.len();
        let line = if n > 0 && piece[n - 1] == '\r' {
            slice(piece, 0, n - 1)
        } else {
            slice(piece, 0, n)
        };
        proof {
            assert(piece@.subrange(0, n as int) == piece@);
            assert(line@ == without_carriage_return(piece@));
        }
        out.push(line);
        proof {
            assert(rows(out@) == before.push(without_carriage_return(all[i as int])));
        }
        i += 1;
    }
    proof {
        assert(ended.take(i as int) == ended);
        assert(rows(pieces@)[last as int] == pieces@[last as int]@);
    }
    if pieces[last].len() > 0 {
        let ghost before = rows(out@);
        let tail = slice(&pieces[last], 0, pieces[last].len());
        proof {
            assert(tail@ == pieces@[last as int]@);
        }
        out.push(tail);
        proof {
            assert(rows(out@) == before.push(all.last()));
        }
    }
    out
}

/// No white space is left in a text that all white space was taken out of.
pub proof fn lemma_without_spaces_has_none(s: Seq<char>, i: int)
    requires
        0 <= i < without_spaces(s).len(),
    ensures
        !is_space(without_spaces(s)[i]),
    decreases s.len(),
{
    if s.len() > 0 {
        if i < without_spaces(s.drop_last()).len() {
            lemma_without_spaces_has_none(s.drop_last(), i);
        }
    }
}

} // verus!
