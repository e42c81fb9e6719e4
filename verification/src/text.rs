//! Text primitives: the spec-level vocabulary the rest of the crate states its
//! contracts in, and the executable functions that compute it.
//!
//! A `String` or `&str` is modelled by its characters, a `Seq<char>`.
use vstd::prelude::*;
use vstd::string::*;

verus! {

/// `String::push`: the character is appended at the end.
pub assume_specification[ String::push ](s: &mut String, c: char)
    ensures
        final(s)@ == old(s)@.push(c),
;

/// The characters of each string of a list.
pub open spec fn texts(v: Seq<String>) -> Seq<Seq<char>> {
    v.map_values(|s: String| s@)
}

/// The characters of an optional string.
pub open spec fn text_option(o: Option<String>) -> Option<Seq<char>> {
    match o {
        Some(s) => Some(s@),
        None => None,
    }
}

/// The characters of an optional string slice.
pub open spec fn str_option(o: Option<&str>) -> Option<Seq<char>> {
    match o {
        Some(s) => Some(s@),
        None => None,
    }
}

/// The characters of each name and value of a list of fields.
pub open spec fn pairs(v: Seq<(String, String)>) -> Seq<(Seq<char>, Seq<char>)> {
    v.map_values(|p: (String, String)| (p.0@, p.1@))
}

/// Whether two texts hold the same characters.
pub fn same_text(a: &str, b: &str) -> (r: bool)
    ensures
        r == (a@ == b@),
{
    a.to_owned() == b.to_owned()
}

/// The characters of a text, indexable in constant time.
pub fn chars_of(s: &str) -> (r: Vec<char>)
    ensures
        r@ == s@,
{
    let mut out: Vec<char> = Vec::new();
    for c in it: s.chars()
        invariant
            out@ == it.seq().take(it.index() as int),
            it.seq() == s@,
    {
        out.push(c);
    }
    out
}

/// The text made of the characters in `[from, to)`.
pub fn text_of(v: &Vec<char>, from: usize, to: usize) -> (r: String)
    requires
        from <= to <= v@.len(),
    ensures
        r@ == v@.subrange(from as int, to as int),
{
    let mut out = String::new();
    let mut i: usize = from;
    while i < to
        invariant
            from <= i <= to <= v@.len(),
            out@ == v@.subrange(from as int, i as int),
        decreases to - i,
    {
        out.push(v[i]);
        i += 1;
    }
    out
}

/// Appending a string appends its characters.
pub proof fn lemma_texts_push(v: Seq<String>, s: String)
    ensures
        texts(v.push(s)) == texts(v).push(s@),
{
    assert(texts(v.push(s)) =~= texts(v).push(s@));
}

/// A copy of a list of texts.
pub fn copy_texts(v: &[String]) -> (r: Vec<String>)
    ensures
        texts(r@) == texts(v@),
{
    let mut out: Vec<String> = Vec::new();
    let mut i: usize = 0;
    while i < v.len()
        invariant
            i <= v@.len(),
            texts(out@) == texts(v@).take(i as int),
        decreases v@.len() - i,
    {
        proof {
            lemma_texts_push(out@, v@[i as int]);
            assert(texts(v@).take(i as int + 1) =~= texts(v@).take(i as int).push(v@[i as int]@));
        }
        out.push(v[i].clone());
        i += 1;
    }
    proof {
        assert(texts(v@).take(i as int) =~= texts(v@));
    }
    out
}

/// A copy of an optional text.
pub fn copy_option(o: &Option<String>) -> (r: Option<String>)
    ensures
        text_option(r) == text_option(*o),
{
    match o {
        Some(s) => Some(s.clone()),
        None => None,
    }
}

/// A copy of a list of fields.
pub fn copy_pairs(v: &Vec<(String, String)>) -> (r: Vec<(String, String)>)
    ensures
        pairs(r@) == pairs(v@),
{
    let mut out: Vec<(String, String)> = Vec::new();
    let mut i: usize = 0;
    while i < v.len()
        invariant
            i <= v@.len(),
            pairs(out@) == pairs(v@).take(i as int),
        decreases v@.len() - i,
    {
        let ghost before = out@;
        out.push((v[i].0.clone(), v[i].1.clone()));
        proof {
            let x = (v@[i as int].0@, v@[i as int].1@);
            assert(pairs(out@) =~= pairs(before).push(x));
            assert(pairs(v@).take(i as int + 1) =~= pairs(v@).take(i as int).push(x));
        }
        i += 1;
    }
    proof {
        assert(pairs(v@).take(i as int) =~= pairs(v@));
    }
    out
}

/// Whether a list of texts holds `word`.
pub fn contains_text(v: &[String], word: &str) -> (r: bool)
    ensures
        r == texts(v@).contains(word@),
{
    let mut i: usize = 0;
    while i < v.len()
        invariant
            i <= v@.len(),
            forall|j: int| 0 <= j < i ==> texts(v@)[j] != word@,
        decreases v@.len() - i,
    {
        if same_text(v[i].as_str(), word) {
            proof {
                assert(texts(v@)[i as int] == word@);
            }
            return true;
        }
        i += 1;
    }
    false
}

/// Whether a table of names holds `word`.
pub open spec fn listed(table: Seq<&'static str>, word: Seq<char>) -> bool {
    exists|i: int| 0 <= i < table.len() && #[trigger] table[i]@ == word
}

/// Whether a table of names holds `word`.
pub fn in_table(table: &[&'static str], word: &str) -> (r: bool)
    ensures
        r == listed(table@, word@),
{
    let mut i: usize = 0;
    while i < table.len()
        invariant
            i <= table@.len(),
            forall|j: int| 0 <= j < i ==> (#[trigger] table@[j])@ != word@,
        decreases table@.len() - i,
    {
        if same_text(table[i], word) {
            return true;
        }
        i += 1;
    }
    false
}

// ---------------------------------------------------------------------------
// Numbers
// ---------------------------------------------------------------------------
/// The decimal digit of a number below ten.
pub open spec fn digit(d: nat) -> char {
    ('0' as u32 + d) as char
}

/// The decimal digits of a number, most significant first, without padding.
pub open spec fn decimal(n: nat) -> Seq<char>
    decreases n,
{
    if n < 10 {
        seq![digit(n)]
    } else {
        decimal(n / 10).push(digit(n % 10))
    }
}

/// Whether a character is one of `0` to `9`.
pub open spec fn is_digit(c: char) -> bool {
    '0' <= c && c <= '9'
}

/// The number a run of decimal digits stands for.
pub open spec fn decimal_value(s: Seq<char>) -> nat
    decreases s.len(),
{
    if s.len() == 0 {
        0
    } else {
        decimal_value(s.drop_last()) * 10 + (s.last() as u32 - '0' as u32) as nat
    }
}

/// The decimal text of `n`.
pub fn decimal_text(n: u64) -> (r: String)
    ensures
        r@ == decimal(n as nat),
    decreases n,
{
    let low: u8 = (n % 10) as u8;
    let c = (48u8 + low) as char;
    if n < 10 {
        let mut out = String::new();
        out.push(c);
        proof {
            assert(out@ =~= decimal(n as nat));
        }
        out
    } else {
        let mut out = decimal_text(n / 10);
        out.push(c);
        out
    }
}

/// The digits of `s` after an optional leading plus sign.
pub open spec fn unsigned_digits(s: Seq<char>) -> Seq<char> {
    if s.len() > 0 && s[0] == '+' {
        s.skip(1)
    } else {
        s
    }
}

/// The number `s` names, where it names one that fits 32 bits: one or more
/// decimal digits, after an optional leading plus sign.
pub open spec fn parse_u32(s: Seq<char>) -> Option<u32> {
    let digits = unsigned_digits(s);
    if digits.len() > 0 && (forall|i: int| 0 <= i < digits.len() ==> is_digit(#[trigger] digits[i]))
        && decimal_value(digits) <= u32::MAX {
        Some(decimal_value(digits) as u32)
    } else {
        None
    }
}

proof fn lemma_decimal_value_grows(s: Seq<char>, n: int)
    requires
        0 <= n <= s.len(),
    ensures
        decimal_value(s.take(n)) <= decimal_value(s),
    decreases s.len(),
{
    if n == s.len() {
        assert(s.take(n) =~= s);
    } else {
        lemma_decimal_value_grows(s.drop_last(), n);
        assert(s.drop_last().take(n) =~= s.take(n));
    }
}

/// Read an unsigned 32-bit number.
pub fn read_u32(s: &str) -> (r: Option<u32>)
    ensures
        r == parse_u32(s@),
{
    let v = chars_of(s);
    let start: usize = if v.len() > 0 && v[0] == '+' {
        1
    } else {
        0
    };
    let ghost digits = unsigned_digits(s@);
    proof {
        assert(digits =~= s@.skip(start as int));
    }
    if start == v.len() {
        return None;
    }
    let mut value: u64 = 0;
    let mut i: usize = start;
    while i < v.len()
        invariant
            v@ == s@,
            start <= i <= v@.len(),
            start <= 1,
            digits == s@.skip(start as int),
            value == decimal_value(digits.take(i - start)),
            value <= u32::MAX,
            forall|j: int| 0 <= j < i - start ==> is_digit(#[trigger] digits[j]),
            digits == unsigned_digits(s@),
        decreases v@.len() - i,
    {
        let c = v[i];
        proof {
            assert(digits[i - start] == c);
        }
        if !('0' <= c && c <= '9') {
            return None;
        }
        let d: u64 = (c as u32 - '0' as u32) as u64;
        proof {
            assert(digits.take(i - start + 1).drop_last() =~= digits.take(i - start));
            assert(digits.take(i - start + 1).last() == c);
            lemma_decimal_value_grows(digits, i - start + 1);
        }
        value = value * 10 + d;
        if value > u32::MAX as u64 {
            return None;
        }
        i += 1;
    }
    proof {
        assert(digits.take(i - start) =~= digits);
    }
    Some(value as u32)
}

/// The decimal text of a number holds digits, and stands for that number.
pub proof fn lemma_decimal_digits(n: nat)
    ensures
        decimal(n).len() > 0,
        forall|i: int| 0 <= i < decimal(n).len() ==> is_digit(#[trigger] decimal(n)[i]),
        decimal_value(decimal(n)) == n,
    decreases n,
{
    if n < 10 {
        assert(decimal(n).drop_last() =~= Seq::<char>::empty());
        assert(decimal_value(decimal(n).drop_last()) == 0);
    } else {
        lemma_decimal_digits(n / 10);
        assert(decimal(n).drop_last() =~= decimal(n / 10));
        assert(decimal(n).last() == digit(n % 10));
    }
}

/// A number written in decimal is read back as itself.
pub proof fn law_a_written_number_is_read_back(n: u32)
    ensures
        parse_u32(decimal(n as nat)) == Some(n),
{
    lemma_decimal_digits(n as nat);
    assert(is_digit(decimal(n as nat)[0]));
    assert(unsigned_digits(decimal(n as nat)) == decimal(n as nat));
}

// ---------------------------------------------------------------------------
// Searching and splitting
// ---------------------------------------------------------------------------
/// Whether `p` stands in `s` at position `i`.
pub open spec fn occurs_at(s: Seq<char>, p: Seq<char>, i: int) -> bool {
    0 <= i && i + p.len() <= s.len() && s.subrange(i, i + p.len()) == p
}

/// The first position at or after `i` where `p` stands in `s`.
pub open spec fn find_from(s: Seq<char>, p: Seq<char>, i: int) -> Option<int>
    decreases s.len() - i + 1,
{
    if i + p.len() > s.len() {
        None
    } else if occurs_at(s, p, i) {
        Some(i)
    } else {
        find_from(s, p, i + 1)
    }
}

/// Whether `p` stands anywhere in `s`.
pub open spec fn has_text(s: Seq<char>, p: Seq<char>) -> bool {
    exists|i: int| occurs_at(s, p, i)
}

/// What stands before and after the first `p` in `s`.
pub open spec fn split_once(s: Seq<char>, p: Seq<char>) -> Option<(Seq<char>, Seq<char>)> {
    match find_from(s, p, 0) {
        Some(i) => Some((s.take(i), s.skip(i + p.len()))),
        None => None,
    }
}

/// The pieces of `s` between occurrences of `c`; a text without `c` is one
/// piece.
pub open spec fn split(s: Seq<char>, c: char) -> Seq<Seq<char>>
    decreases s.len(),
{
    if s.len() == 0 {
        seq![Seq::<char>::empty()]
    } else if s.last() == c {
        split(s.drop_last(), c).push(Seq::<char>::empty())
    } else {
        let head = split(s.drop_last(), c);
        head.update(head.len() - 1, head.last().push(s.last()))
    }
}

/// What stands after the last `c` in `s`; all of `s` where there is none.
pub open spec fn after_last(s: Seq<char>, c: char) -> Seq<char> {
    split(s, c).last()
}

/// `find_from` is the least position at which the pattern occurs.
pub proof fn lemma_find_from(s: Seq<char>, p: Seq<char>, i: int)
    requires
        0 <= i,
    ensures
        match find_from(s, p, i) {
            Some(k) => i <= k && occurs_at(s, p, k) && forall|j: int|
                i <= j < k ==> !occurs_at(s, p, j),
            None => forall|j: int| i <= j ==> !occurs_at(s, p, j),
        },
    decreases s.len() - i + 1,
{
    if i + p.len() > s.len() {
    } else if occurs_at(s, p, i) {
    } else {
        lemma_find_from(s, p, i + 1);
    }
}

/// A split has at least one piece.
pub proof fn lemma_split_nonempty(s: Seq<char>, c: char)
    ensures
        split(s, c).len() > 0,
    decreases s.len(),
{
    if s.len() > 0 {
        lemma_split_nonempty(s.drop_last(), c);
    }
}

proof fn lemma_find_single(head: Seq<char>, c: char, tail: Seq<char>, i: int)
    requires
        0 <= i <= head.len(),
        !head.contains(c),
    ensures
        find_from(head + seq![c] + tail, seq![c], i) == Some(head.len() as int),
    decreases head.len() - i,
{
    let s = head + seq![c] + tail;
    if i == head.len() {
        assert(s.subrange(i, i + 1) =~= seq![c]);
    } else {
        assert(s.subrange(i, i + 1)[0] == head[i]);
        assert(head[i] != c);
        assert(s.subrange(i, i + 1) != seq![c]);
        lemma_find_single(head, c, tail, i + 1);
    }
}

/// A text is split at the first separator that stands in it.
pub proof fn lemma_split_at_first(head: Seq<char>, c: char, tail: Seq<char>)
    requires
        !head.contains(c),
    ensures
        split_once(head + seq![c] + tail, seq![c]) == Some((head, tail)),
{
    let s = head + seq![c] + tail;
    lemma_find_single(head, c, tail, 0);
    assert(s.take(head.len() as int) =~= head);
    assert(s.skip(head.len() as int + 1) =~= tail);
}

/// A text that does not hold a separator is not split at it.
pub proof fn lemma_not_split(s: Seq<char>, c: char)
    requires
        !s.contains(c),
    ensures
        split_once(s, seq![c]) is None,
{
    lemma_find_from(s, seq![c], 0);
    match find_from(s, seq![c], 0) {
        Some(k) => {
            assert(s.subrange(k, k + 1)[0] == c);
            assert(s[k] == c);
        },
        None => {},
    }
}

/// What stands between two texts stands in the whole.
pub proof fn lemma_has_middle(head: Seq<char>, middle: Seq<char>, tail: Seq<char>)
    ensures
        has_text(head + middle + tail, middle),
{
    let s = head + middle + tail;
    let i = head.len() as int;
    assert(s.subrange(i, i + middle.len()) =~= middle);
    assert(occurs_at(s, middle, i));
}

/// What stands behind a text stands in the whole.
pub proof fn lemma_has_end(head: Seq<char>, tail: Seq<char>)
    ensures
        has_text(head + tail, tail),
{
    let none = Seq::<char>::empty();
    assert(head + tail + none =~= head + tail);
    lemma_has_middle(head, tail, none);
}

/// Texts can be put together from either side.
pub proof fn lemma_together(a: Seq<char>, b: Seq<char>, c: Seq<char>)
    ensures
        a + b + c == a + (b + c),
{
    assert(a + b + c =~= a + (b + c));
}

/// What stands in a part stands in the whole.
pub proof fn lemma_has_inner(s: Seq<char>, part: Seq<char>, inner: Seq<char>)
    requires
        has_text(s, part),
        has_text(part, inner),
    ensures
        has_text(s, inner),
{
    let i = choose|i: int| occurs_at(s, part, i);
    let j = choose|j: int| occurs_at(part, inner, j);
    assert(s.subrange(i + j, i + j + inner.len()) =~= part.subrange(j, j + inner.len()));
    assert(occurs_at(s, inner, i + j));
}

/// Whether the characters of `p` stand in `v` at position `i`.
fn matches_at(v: &Vec<char>, p: &Vec<char>, i: usize) -> (r: bool)
    requires
        i + p@.len() <= v@.len(),
    ensures
        r == occurs_at(v@, p@, i as int),
{
    let mut k: usize = 0;
    let n: usize = v.len();
    while k < p.len()
        invariant
            k <= p@.len(),
            n == v@.len(),
            i + p@.len() <= n,
            forall|j: int| 0 <= j < k ==> v@[i + j] == p@[j],
        decreases p@.len() - k,
    {
        if v[i + k] != p[k] {
            proof {
                assert(v@.subrange(i as int, i + p@.len())[k as int] != p@[k as int]);
            }
            return false;
        }
        k += 1;
    }
    proof {
        assert(v@.subrange(i as int, i + p@.len()) =~= p@);
    }
    true
}

/// The first position of `p` in `v`.
fn position_of(v: &Vec<char>, p: &Vec<char>) -> (r: Option<usize>)
    ensures
        match r {
            Some(i) => find_from(v@, p@, 0) == Some(i as int) && i + p@.len() <= v@.len(),
            None => find_from(v@, p@, 0) is None,
        },
{
    let mut i: usize = 0;
    if p.len() > v.len() {
        return None;
    }
    let last: usize = v.len() - p.len();
    while i <= last
        invariant
            i <= last + 1,
            last + p@.len() == v@.len(),
            find_from(v@, p@, 0) == find_from(v@, p@, i as int),
        decreases last + 1 - i,
    {
        if matches_at(v, p, i) {
            return Some(i);
        }
        proof {
            assert(find_from(v@, p@, i as int) == find_from(v@, p@, i + 1));
        }
        if i == last {
            return None;
        }
        i += 1;
    }
    None
}

/// Whether `p` stands anywhere in `s`.
pub fn includes_text(s: &str, p: &str) -> (r: bool)
    ensures
        r == has_text(s@, p@),
{
    proof {
        lemma_find_from(s@, p@, 0);
    }
    match position_of(&chars_of(s), &chars_of(p)) {
        Some(_) => true,
        None => false,
    }
}

/// Split `s` at its first `p`.
pub fn split_text_once(s: &str, p: &str) -> (r: Option<(String, String)>)
    ensures
        match r {
            Some(halves) => split_once(s@, p@) == Some((halves.0@, halves.1@)),
            None => split_once(s@, p@) is None,
        },
{
    let v = chars_of(s);
    let q = chars_of(p);
    match position_of(&v, &q) {
        Some(i) => {
            let n: usize = v.len();
            let head = text_of(&v, 0, i);
            let tail = text_of(&v, i + q.len(), n);
            proof {
                assert(head@ =~= s@.take(i as int));
                assert(tail@ =~= s@.skip(i + q@.len()));
            }
            Some((head, tail))
        },
        None => None,
    }
}

/// Split `s` at every `c`.
pub fn split_text(s: &str, c: char) -> (r: Vec<String>)
    ensures
        texts(r@) == split(s@, c),
{
    let v = chars_of(s);
    let mut out: Vec<String> = Vec::new();
    let mut piece = String::new();
    let mut i: usize = 0;
    proof {
        assert(texts(out@).push(piece@) =~= split(s@.take(0), c));
    }
    while i < v.len()
        invariant
            v@ == s@,
            i <= v@.len(),
            texts(out@).push(piece@) == split(s@.take(i as int), c),
        decreases v@.len() - i,
    {
        let ghost done = texts(out@);
        let ghost current = piece@;
        proof {
            assert(s@.take(i as int + 1).drop_last() =~= s@.take(i as int));
            assert(s@.take(i as int + 1).last() == v@[i as int]);
        }
        if v[i] == c {
            proof {
                lemma_texts_push(out@, piece);
            }
            out.push(piece);
            piece = String::new();
        } else {
            piece.push(v[i]);
            proof {
                let head = done.push(current);
                assert(head.last() == current);
                assert(done.push(piece@) =~= head.update(head.len() - 1, current.push(v@[i as int])));
            }
        }
        i += 1;
    }
    proof {
        assert(s@.take(i as int) =~= s@);
        lemma_texts_push(out@, piece);
    }
    out.push(piece);
    out
}

/// Whether a character stands in a text.
pub fn has_char(s: &str, c: char) -> (r: bool)
    ensures
        r == s@.contains(c),
{
    let v = chars_of(s);
    let mut i: usize = 0;
    while i < v.len()
        invariant
            v@ == s@,
            i <= v@.len(),
            forall|j: int| 0 <= j < i ==> v@[j] != c,
        decreases v@.len() - i,
    {
        if v[i] == c {
            proof {
                assert(s@[i as int] == c);
            }
            return true;
        }
        i += 1;
    }
    false
}

/// Copy what stands after the last `c` in `s`.
pub fn text_after_last(s: &str, c: char) -> (r: String)
    ensures
        r@ == after_last(s@, c),
{
    let pieces = split_text(s, c);
    proof {
        lemma_split_nonempty(s@, c);
    }
    let last: usize = pieces.len() - 1;
    pieces[last].clone()
}

// ---------------------------------------------------------------------------
// Trimming, prefixes, joining, case
// ---------------------------------------------------------------------------
/// Whether a character has the Unicode property `White_Space`.
pub open spec fn is_space(c: char) -> bool {
    let u = c as u32;
    ||| 0x9 <= u <= 0xd
    ||| u == 0x20
    ||| u == 0x85
    ||| u == 0xa0
    ||| u == 0x1680
    ||| 0x2000 <= u <= 0x200a
    ||| u == 0x2028
    ||| u == 0x2029
    ||| u == 0x202f
    ||| u == 0x205f
    ||| u == 0x3000
}

/// Whether a character is in the Unicode category `Cc`.
pub open spec fn is_control(c: char) -> bool {
    let u = c as u32;
    u < 0x20 || 0x7f <= u <= 0x9f
}

/// `s` without its leading white space.
pub open spec fn trim_start(s: Seq<char>) -> Seq<char>
    decreases s.len(),
{
    if s.len() > 0 && is_space(s[0]) {
        trim_start(s.skip(1))
    } else {
        s
    }
}

/// `s` without its trailing white space.
pub open spec fn trim_end(s: Seq<char>) -> Seq<char>
    decreases s.len(),
{
    if s.len() > 0 && is_space(s.last()) {
        trim_end(s.drop_last())
    } else {
        s
    }
}

/// `s` without the white space around it.
pub open spec fn trim(s: Seq<char>) -> Seq<char> {
    trim_end(trim_start(s))
}

/// `s` without the copies of `c` at its end.
pub open spec fn trim_end_char(s: Seq<char>, c: char) -> Seq<char>
    decreases s.len(),
{
    if s.len() > 0 && s.last() == c {
        trim_end_char(s.drop_last(), c)
    } else {
        s
    }
}

/// The parts in order, with `sep` between neighbours.
pub open spec fn join(parts: Seq<Seq<char>>, sep: Seq<char>) -> Seq<char>
    decreases parts.len(),
{
    if parts.len() == 0 {
        Seq::empty()
    } else if parts.len() == 1 {
        parts[0]
    } else {
        join(parts.drop_last(), sep) + sep + parts.last()
    }
}

/// Every part stands in the joined text.
pub proof fn lemma_join_has_parts(parts: Seq<Seq<char>>, sep: Seq<char>, i: int)
    requires
        0 <= i < parts.len(),
    ensures
        has_text(join(parts, sep), parts[i]),
    decreases parts.len(),
{
    let all = join(parts, sep);
    let none = Seq::<char>::empty();
    if parts.len() == 1 {
        lemma_has_middle(none, parts[0], none);
        assert(none + parts[0] + none =~= all);
    } else if i == parts.len() - 1 {
        lemma_has_middle(join(parts.drop_last(), sep) + sep, parts.last(), none);
        assert(join(parts.drop_last(), sep) + sep + parts.last() + none =~= all);
    } else {
        let before = join(parts.drop_last(), sep);
        lemma_join_has_parts(parts.drop_last(), sep, i);
        lemma_has_middle(none, before, sep + parts.last());
        assert(none + before + (sep + parts.last()) =~= all);
        lemma_has_inner(all, before, parts[i]);
    }
}

/// The lower-case form of an ASCII letter; any other character unchanged.
pub open spec fn lower_char(c: char) -> char {
    if 'A' <= c && c <= 'Z' {
        (c as u32 + 32) as char
    } else {
        c
    }
}

/// `s` with its ASCII letters in lower case.
pub open spec fn lower(s: Seq<char>) -> Seq<char> {
    s.map_values(|c: char| lower_char(c))
}

/// Decide `is_space`.
pub fn space_char(c: char) -> (r: bool)
    ensures
        r == is_space(c),
{
    let u: u32 = c as u32;
    (0x9 <= u && u <= 0xd) || u == 0x20 || u == 0x85 || u == 0xa0 || u == 0x1680 || (0x2000 <= u
        && u <= 0x200a) || u == 0x2028 || u == 0x2029 || u == 0x202f || u == 0x205f || u == 0x3000
}

/// Decide `is_control`.
pub fn control_char(c: char) -> (r: bool)
    ensures
        r == is_control(c),
{
    let u: u32 = c as u32;
    u < 0x20 || (0x7f <= u && u <= 0x9f)
}

/// Strip the white space around `s`.
pub fn trim_text(s: &str) -> (r: String)
    ensures
        r@ == trim(s@),
{
    let v = chars_of(s);
    let mut lo: usize = 0;
    proof {
        assert(s@.skip(0) =~= s@);
    }
    while lo < v.len() && space_char(v[lo])
        invariant
            v@ == s@,
            lo <= v@.len(),
            trim_start(s@) == trim_start(s@.skip(lo as int)),
        decreases v@.len() - lo,
    {
        proof {
            assert(s@.skip(lo as int).skip(1) =~= s@.skip(lo as int + 1));
        }
        lo += 1;
    }
    let ghost tail = s@.skip(lo as int);
    let mut hi: usize = v.len();
    proof {
        assert(s@.subrange(lo as int, hi as int) =~= tail);
    }
    while hi > lo && space_char(v[hi - 1])
        invariant
            v@ == s@,
            lo <= hi <= v@.len(),
            trim_end(tail) == trim_end(s@.subrange(lo as int, hi as int)),
        decreases hi,
    {
        proof {
            let cut = s@.subrange(lo as int, hi as int);
            assert(cut.drop_last() =~= s@.subrange(lo as int, hi - 1));
        }
        hi -= 1;
    }
    text_of(&v, lo, hi)
}

/// Strip the copies of `c` at the end of `s`.
pub fn trim_text_end_char(s: &str, c: char) -> (r: String)
    ensures
        r@ == trim_end_char(s@, c),
{
    let v = chars_of(s);
    let mut hi: usize = v.len();
    proof {
        assert(s@.take(hi as int) =~= s@);
    }
    while hi > 0 && v[hi - 1] == c
        invariant
            v@ == s@,
            hi <= v@.len(),
            trim_end_char(s@, c) == trim_end_char(s@.take(hi as int), c),
        decreases hi,
    {
        proof {
            assert(s@.take(hi as int).drop_last() =~= s@.take(hi - 1));
        }
        hi -= 1;
    }
    let r = text_of(&v, 0, hi);
    proof {
        assert(r@ =~= s@.take(hi as int));
    }
    r
}

/// Whether `s` begins with `p`.
pub fn begins_with(s: &str, p: &str) -> (r: bool)
    ensures
        r == p@.is_prefix_of(s@),
{
    let v = chars_of(s);
    let q = chars_of(p);
    if q.len() > v.len() {
        return false;
    }
    let r = matches_at(&v, &q, 0);
    proof {
        assert(s@.subrange(0, p@.len() as int) =~= s@.take(p@.len() as int));
    }
    r
}

/// Join texts with a separator.
pub fn join_texts(parts: &Vec<String>, sep: &str) -> (r: String)
    ensures
        r@ == join(texts(parts@), sep@),
{
    let mut out = String::new();
    let mut i: usize = 0;
    while i < parts.len()
        invariant
            i <= parts@.len(),
            out@ == join(texts(parts@).take(i as int), sep@),
        decreases parts@.len() - i,
    {
        proof {
            let upto = texts(parts@).take(i as int + 1);
            assert(upto.drop_last() =~= texts(parts@).take(i as int));
            assert(upto.last() == parts@[i as int]@);
        }
        if i > 0 {
            out.append(sep);
        }
        let ghost before = out@;
        out.append(parts[i].as_str());
        proof {
            if i == 0 {
                assert(before + parts@[0]@ =~= parts@[0]@);
            }
        }
        i += 1;
    }
    proof {
        assert(texts(parts@).take(i as int) =~= texts(parts@));
    }
    out
}

/// `s` with its ASCII letters in lower case.
pub fn lower_text(s: &str) -> (r: String)
    ensures
        r@ == lower(s@),
{
    let v = chars_of(s);
    let mut out = String::new();
    let mut i: usize = 0;
    while i < v.len()
        invariant
            v@ == s@,
            i <= v@.len(),
            out@ == lower(s@.take(i as int)),
        decreases v@.len() - i,
    {
        let c = v[i];
        let l = if 'A' <= c && c <= 'Z' {
            (c as u8 + 32) as char
        } else {
            c
        };
        out.push(l);
        proof {
            assert(out@ =~= lower(s@.take(i as int + 1)));
        }
        i += 1;
    }
    proof {
        assert(s@.take(i as int) =~= s@);
    }
    out
}

// ---------------------------------------------------------------------------
// Named values
// ---------------------------------------------------------------------------
/// Whether the value at a place of a list of named values is the only one of
/// its name.
pub open spec fn sole_at(
    fields: Seq<(Seq<char>, Seq<char>)>,
    i: int,
    name: Seq<char>,
    value: Seq<char>,
) -> bool {
    &&& 0 <= i < fields.len()
    &&& fields[i] == (name, value)
    &&& forall|j: int| 0 <= j < fields.len() && j != i ==> (#[trigger] fields[j]).0 != name
}

/// Whether a list of named values holds a name exactly once, with this value.
pub open spec fn carries(
    fields: Seq<(Seq<char>, Seq<char>)>,
    name: Seq<char>,
    value: Seq<char>,
) -> bool {
    exists|i: int| sole_at(fields, i, name, value)
}

/// Whether a list of named values does not hold a name.
pub open spec fn lacks(fields: Seq<(Seq<char>, Seq<char>)>, name: Seq<char>) -> bool {
    forall|j: int| 0 <= j < fields.len() ==> (#[trigger] fields[j]).0 != name
}

/// Whether a list of named values holds a name exactly once where there is a
/// value, and not at all where there is none.
pub open spec fn carries_option(
    fields: Seq<(Seq<char>, Seq<char>)>,
    name: Seq<char>,
    value: Option<Seq<char>>,
) -> bool {
    match value {
        Some(value) => carries(fields, name, value),
        None => lacks(fields, name),
    }
}

/// A name that is carried stands for one value only.
pub proof fn law_a_carried_value_is_the_only_one(
    fields: Seq<(Seq<char>, Seq<char>)>,
    name: Seq<char>,
    a: Seq<char>,
    b: Seq<char>,
)
    requires
        carries(fields, name, a),
        carries(fields, name, b),
    ensures
        a == b,
        !lacks(fields, name),
{
    let i = choose|i: int| sole_at(fields, i, name, a);
    let j = choose|j: int| sole_at(fields, j, name, b);
    assert(fields[i].0 == name);
    assert(fields[j].0 == name);
}

// ---------------------------------------------------------------------------
// Pieces and edges
// ---------------------------------------------------------------------------
/// A text without the separator is one piece.
pub proof fn lemma_split_single(s: Seq<char>, c: char)
    requires
        !s.contains(c),
    ensures
        split(s, c) == seq![s],
    decreases s.len(),
{
    if s.len() == 0 {
        assert(s =~= Seq::<char>::empty());
    } else {
        let front = s.drop_last();
        assert(s[s.len() - 1] != c);
        assert(!front.contains(c)) by {
            if front.contains(c) {
                let k = choose|k: int| 0 <= k < front.len() && front[k] == c;
                assert(s[k] == c);
            }
        }
        lemma_split_single(front, c);
        assert(front.push(s.last()) =~= s);
        assert(split(s, c) =~= seq![s]);
    }
}

/// A piece that follows a separator is a piece of its own.
pub proof fn lemma_split_last_piece(head: Seq<char>, c: char, piece: Seq<char>)
    requires
        !piece.contains(c),
    ensures
        split(head + seq![c] + piece, c) == split(head, c).push(piece),
    decreases piece.len(),
{
    let s = head + seq![c] + piece;
    if piece.len() == 0 {
        assert(s.last() == c);
        assert(s.drop_last() =~= head);
        assert(piece =~= Seq::<char>::empty());
    } else {
        let front = piece.drop_last();
        assert(piece[piece.len() - 1] != c);
        assert(!front.contains(c)) by {
            if front.contains(c) {
                let k = choose|k: int| 0 <= k < front.len() && front[k] == c;
                assert(piece[k] == c);
            }
        }
        lemma_split_last_piece(head, c, front);
        assert(s.drop_last() =~= head + seq![c] + front);
        assert(s.last() == piece.last());
        assert(front.push(piece.last()) =~= piece);
        assert(split(s, c) =~= split(head, c).push(piece));
    }
}

/// No piece holds the separator.
pub proof fn lemma_split_pieces(s: Seq<char>, c: char)
    ensures
        forall|i: int| 0 <= i < split(s, c).len() ==> !(#[trigger] split(s, c)[i]).contains(c),
    decreases s.len(),
{
    if s.len() > 0 {
        lemma_split_pieces(s.drop_last(), c);
        lemma_split_nonempty(s.drop_last(), c);
        let before = split(s.drop_last(), c);
        let now = split(s, c);
        assert forall|i: int| 0 <= i < now.len() implies !(#[trigger] now[i]).contains(c) by {
            if i < before.len() - 1 {
                assert(now[i] == before[i]);
            } else if now[i].contains(c) {
                let k = choose|k: int| 0 <= k < now[i].len() && now[i][k] == c;
                assert(before[i].contains(c)) by {
                    assert(before[i][k] == c);
                }
            }
        }
    }
}

/// Pieces that hold no separator are given back when what joins them is split.
pub proof fn law_splitting_undoes_joining(pieces: Seq<Seq<char>>, c: char)
    requires
        pieces.len() > 0,
        forall|i: int| 0 <= i < pieces.len() ==> !(#[trigger] pieces[i]).contains(c),
    ensures
        split(join(pieces, seq![c]), c) == pieces,
    decreases pieces.len(),
{
    if pieces.len() == 1 {
        lemma_split_single(pieces[0], c);
        assert(seq![pieces[0]] =~= pieces);
    } else {
        let front = pieces.drop_last();
        assert forall|i: int| 0 <= i < front.len() implies !(#[trigger] front[i]).contains(c) by {
            assert(front[i] == pieces[i]);
        }
        law_splitting_undoes_joining(front, c);
        assert(!pieces[pieces.len() - 1].contains(c));
        lemma_split_last_piece(join(front, seq![c]), c, pieces.last());
        assert(front.push(pieces.last()) =~= pieces);
    }
}

/// Whether a text has no white space at its edges.
pub open spec fn is_trimmed(s: Seq<char>) -> bool {
    s.len() > 0 ==> !is_space(s[0]) && !is_space(s.last())
}

proof fn lemma_trim_start_edge(s: Seq<char>)
    ensures
        trim_start(s).len() > 0 ==> !is_space(trim_start(s)[0]),
        trim_start(s).len() <= s.len(),
        trim_start(s) == s.skip(s.len() - trim_start(s).len()),
    decreases s.len(),
{
    if s.len() > 0 && is_space(s[0]) {
        lemma_trim_start_edge(s.skip(1));
        let k = trim_start(s).len();
        assert(s.skip(1).skip(s.skip(1).len() - k) =~= s.skip(s.len() - k));
    } else {
        assert(s.skip(0) =~= s);
    }
}

proof fn lemma_trim_end_edge(s: Seq<char>)
    ensures
        trim_end(s).len() > 0 ==> !is_space(trim_end(s).last()),
        trim_end(s).len() <= s.len(),
        trim_end(s) == s.take(trim_end(s).len() as int),
    decreases s.len(),
{
    if s.len() > 0 && is_space(s.last()) {
        lemma_trim_end_edge(s.drop_last());
        let k = trim_end(s).len() as int;
        assert(s.drop_last().take(k) =~= s.take(k));
    } else {
        assert(s.take(s.len() as int) =~= s);
    }
}

/// Trimming takes white space off the edges and nothing else: what is left has
/// none there and stands in the text, and a text without any there is left as
/// it is.
pub proof fn law_trimming_takes_off_the_edges(s: Seq<char>)
    ensures
        is_trimmed(trim(s)),
        is_trimmed(s) ==> trim(s) == s,
        forall|c: char| trim(s).contains(c) ==> s.contains(c),
        trim(s).len() == 0 <==> forall|i: int| 0 <= i < s.len() ==> is_space(#[trigger] s[i]),
{
    let middle = trim_start(s);
    lemma_trim_start_edge(s);
    lemma_trim_end_edge(middle);
    let from = s.len() - middle.len();
    assert forall|i: int| 0 <= i < trim(s).len() implies #[trigger] trim(s)[i] == s[from + i] by {
        assert(trim(s)[i] == middle[i]);
    }
    assert forall|c: char| trim(s).contains(c) implies s.contains(c) by {
        let k = choose|k: int| 0 <= k < trim(s).len() && trim(s)[k] == c;
        assert(s[from + k] == c);
    }
    if trim(s).len() > 0 {
        assert(trim(s)[0] == middle[0]);
        assert(!is_space(s[from]));
    }
    lemma_trim_blank(s);
}

proof fn lemma_trim_blank(s: Seq<char>)
    ensures
        trim(s).len() == 0 ==> forall|i: int| 0 <= i < s.len() ==> is_space(#[trigger] s[i]),
    decreases s.len(),
{
    if trim(s).len() == 0 {
        if s.len() > 0 && is_space(s[0]) {
            lemma_trim_blank(s.skip(1));
            assert forall|i: int| 0 <= i < s.len() implies is_space(#[trigger] s[i]) by {
                if i > 0 {
                    assert(s.skip(1)[i - 1] == s[i]);
                }
            }
        } else {
            lemma_trim_end_blank(s);
        }
    }
}

proof fn lemma_trim_end_blank(s: Seq<char>)
    ensures
        trim_end(s).len() == 0 ==> forall|i: int| 0 <= i < s.len() ==> is_space(#[trigger] s[i]),
    decreases s.len(),
{
    if s.len() > 0 && is_space(s.last()) {
        lemma_trim_end_blank(s.drop_last());
        assert forall|i: int|
            trim_end(s).len() == 0 && 0 <= i < s.len() implies is_space(#[trigger] s[i]) by {
            if i < s.len() - 1 {
                assert(s.drop_last()[i] == s[i]);
            }
        }
    }
}

/// What splits a text joins to the text again.
pub proof fn law_joining_undoes_splitting(s: Seq<char>, c: char)
    ensures
        join(split(s, c), seq![c]) == s,
    decreases s.len(),
{
    if s.len() == 0 {
        assert(s =~= Seq::<char>::empty());
    } else {
        let front = s.drop_last();
        let pieces = split(front, c);
        law_joining_undoes_splitting(front, c);
        lemma_split_nonempty(front, c);
        assert(front.push(s.last()) =~= s);
        if s.last() == c {
            let all = pieces.push(Seq::<char>::empty());
            assert(all.drop_last() =~= pieces);
            assert(join(all, seq![c]) =~= s);
        } else {
            let all = split(s, c);
            let last = pieces.last().push(s.last());
            if pieces.len() == 1 {
                assert(join(all, seq![c]) =~= s);
            } else {
                assert(all.drop_last() =~= pieces.drop_last());
                assert(all.last() == last);
                assert(join(all, seq![c]) =~= join(pieces, seq![c]).push(s.last()));
            }
        }
    }
}

/// What is split at a separator is split on either side of it.
pub proof fn lemma_split_in_two(head: Seq<char>, c: char, tail: Seq<char>)
    ensures
        split(head + seq![c] + tail, c) == split(head, c) + split(tail, c),
    decreases tail.len(),
{
    let s = head + seq![c] + tail;
    lemma_split_nonempty(head, c);
    if tail.len() == 0 {
        assert(s.last() == c);
        assert(s.drop_last() =~= head);
        assert(split(s, c) =~= split(head, c) + split(tail, c));
    } else {
        let front = tail.drop_last();
        lemma_split_in_two(head, c, front);
        lemma_split_nonempty(front, c);
        assert(s.drop_last() =~= head + seq![c] + front);
        assert(s.last() == tail.last());
        assert(split(s, c) =~= split(head, c) + split(tail, c));
    }
}

// ---------------------------------------------------------------------------
// Numbers and letters
// ---------------------------------------------------------------------------
/// A number is written without leading zeros.
pub proof fn law_a_number_is_written_plainly(n: nat)
    ensures
        n == 0 ==> decimal(n) == seq!['0'],
        n > 0 ==> '1' <= decimal(n)[0] <= '9',
    decreases n,
{
    lemma_decimal_digits(n);
    if n == 0 {
        assert(decimal(n) =~= seq!['0']);
    } else if n >= 10 {
        law_a_number_is_written_plainly(n / 10);
        lemma_decimal_digits(n / 10);
        assert(decimal(n)[0] == decimal(n / 10)[0]);
    }
}

/// A text is read as a number exactly when it is one or more digits, after a
/// plus sign or not, and the number fits; a digit behind others counts its
/// value and ten times theirs.
pub proof fn law_what_is_read_as_a_number(s: Seq<char>, c: char, n: u32)
    requires
        '0' <= c <= '9',
        s.len() > 0 && s[0] != '+',
    ensures
        parse_u32(seq![c]) == Some((c as u32 - '0' as u32) as u32),
        parse_u32(seq!['+'] + s) == parse_u32(s),
        parse_u32(Seq::<char>::empty()) is None,
        parse_u32(seq!['+']) is None,
        parse_u32(s) is Some ==> forall|i: int| 0 <= i < s.len() ==> is_digit(#[trigger] s[i]),
        parse_u32(s) == Some(n) && n * 10 + 9 <= u32::MAX ==> parse_u32(s.push(c)) == Some(
            (n * 10 + (c as u32 - '0' as u32)) as u32,
        ),
{
    let one = seq![c];
    assert(unsigned_digits(one) == one);
    assert(one.drop_last() =~= Seq::<char>::empty());
    assert(decimal_value(one.drop_last()) == 0);
    assert((seq!['+'] + s).skip(1) =~= s);
    assert(unsigned_digits(seq!['+'] + s) == s);
    assert(seq!['+'].skip(1).len() == 0);
    assert(s.push(c).drop_last() =~= s);
    if parse_u32(s) == Some(n) && n * 10 + 9 <= u32::MAX {
        let longer = s.push(c);
        assert(longer[0] == s[0]);
        assert forall|i: int| 0 <= i < longer.len() implies is_digit(#[trigger] longer[i]) by {
            if i < s.len() {
                assert(longer[i] == s[i]);
            }
        }
    }
}

/// Lower case changes the letters from `A` to `Z` to those from `a` to `z`, and
/// nothing else.
pub proof fn law_lower_case_changes_capitals_alone(s: Seq<char>, i: int)
    requires
        0 <= i < s.len(),
    ensures
        lower(s).len() == s.len(),
        'A' <= s[i] <= 'Z' ==> 'a' <= lower(s)[i] <= 'z' && lower(s)[i] as u32 - 'a' as u32
            == s[i] as u32 - 'A' as u32,
        !('A' <= s[i] <= 'Z') ==> lower(s)[i] == s[i],
{
}

/// A number that does not fit is not read as another.
pub proof fn law_a_number_that_does_not_fit_is_not_read(n: nat)
    requires
        n > 0xffff_ffff,
    ensures
        parse_u32(decimal(n)) is None,
{
    lemma_decimal_digits(n);
    assert(is_digit(decimal(n)[0]));
    assert(unsigned_digits(decimal(n)) == decimal(n));
}

} // verus!
