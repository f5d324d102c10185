//! Text as sequences of characters: splitting, trimming, prefixes, decimal
//! numbers, and the part of a text that a C string can carry.

use vstd::prelude::*;
use vstd::string::*;

verus! {

/// The parts of `s` between the elements that `sep` accepts, in order. There is
/// always one part more than there are separators.
pub open spec fn pieces<T>(s: Seq<T>, sep: spec_fn(T) -> bool) -> Seq<Seq<T>>
    decreases s.len(),
{
    if s.len() == 0 {
        seq![Seq::empty()]
    } else {
        let before = pieces(s.drop_last(), sep);
        if sep(s.last()) {
            before.push(Seq::empty())
        } else {
            before.drop_last().push(before.last().push(s.last()))
        }
    }
}

/// The parts of `s` between the occurrences of `sep`.
pub open spec fn split<T>(s: Seq<T>, sep: T) -> Seq<Seq<T>> {
    pieces(s, |c: T| c == sep)
}

/// The parts one after the other, with `sep` between neighbours.
pub open spec fn join<T>(parts: Seq<Seq<T>>, sep: T) -> Seq<T>
    decreases parts.len(),
{
    if parts.len() == 0 {
        Seq::empty()
    } else if parts.len() == 1 {
        parts[0]
    } else {
        join(parts.drop_last(), sep).push(sep) + parts.last()
    }
}

/// The characters with the Unicode property `White_Space`.
pub open spec fn is_white_space(c: char) -> bool {
    ||| '\u{9}' <= c <= '\u{d}'
    ||| c == '\u{20}'
    ||| c == '\u{85}'
    ||| c == '\u{a0}'
    ||| c == '\u{1680}'
    ||| '\u{2000}' <= c <= '\u{200a}'
    ||| '\u{2028}' <= c <= '\u{2029}'
    ||| c == '\u{202f}'
    ||| c == '\u{205f}'
    ||| c == '\u{3000}'
}

/// The words of `s`: its longest parts without white space.
pub open spec fn words(s: Seq<char>) -> Seq<Seq<char>> {
    pieces(s, |c: char| is_white_space(c)).filter(|word: Seq<char>| word.len() > 0)
}

/// `s` without the white space it begins with.
pub open spec fn trim_start(s: Seq<char>) -> Seq<char>
    decreases s.len(),
{
    if s.len() > 0 && is_white_space(s[0]) {
        trim_start(s.drop_first())
    } else {
        s
    }
}

/// `s` without the white space it ends with.
pub open spec fn trim_end(s: Seq<char>) -> Seq<char>
    decreases s.len(),
{
    if s.len() > 0 && is_white_space(s.last()) {
        trim_end(s.drop_last())
    } else {
        s
    }
}

/// `s` without white space at either end.
pub open spec fn trimmed(s: Seq<char>) -> Seq<char> {
    trim_end(trim_start(s))
}

/// What follows `prefix` in `s`, if `s` begins with it.
pub open spec fn after_prefix(s: Seq<char>, prefix: Seq<char>) -> Option<Seq<char>> {
    if prefix.is_prefix_of(s) {
        Some(s.skip(prefix.len() as int))
    } else {
        None
    }
}

/// `n` in decimal digits, without leading zeros.
pub open spec fn decimal(n: nat) -> Seq<char>
    decreases n,
{
    if n < 10 {
        seq![digit(n)]
    } else {
        decimal(n / 10).push(digit(n % 10))
    }
}

/// The digit for a number below ten.
pub open spec fn digit(n: nat) -> char {
    ('0' as nat + n) as char
}

/// The part of `s` before its first null character: what a C string made of
/// `s` carries.
pub open spec fn until_nul(s: Seq<char>) -> Seq<char>
    decreases s.len(),
{
    if s.len() == 0 || s[0] == '\0' {
        Seq::empty()
    } else {
        seq![s[0]] + until_nul(s.drop_first())
    }
}

/// `a`, a slash, `b`.
pub open spec fn slashed(a: Seq<char>, b: Seq<char>) -> Seq<char> {
    a.push('/') + b
}

/// The contents of a vector of vectors.
pub open spec fn texts<T>(v: Seq<Vec<T>>) -> Seq<Seq<T>> {
    v.map_values(|t: Vec<T>| t@)
}

/// The contents of a vector of strings.
pub open spec fn strings(v: Seq<String>) -> Seq<Seq<char>> {
    v.map_values(|t: String| t@)
}

/// The text of an optional string.
pub open spec fn opt_text(t: Option<String>) -> Option<Seq<char>> {
    match t {
        Some(s) => Some(s@),
        None => None,
    }
}

/// The text of an optional string slice.
pub open spec fn opt_str(t: Option<&str>) -> Option<Seq<char>> {
    match t {
        Some(s) => Some(s@),
        None => None,
    }
}

/// There is always at least one part.
pub proof fn lemma_split_nonempty<T>(s: Seq<T>, sep: T)
    ensures
        split(s, sep).len() >= 1,
    decreases s.len(),
{
    if s.len() > 0 {
        lemma_split_nonempty(s.drop_last(), sep);
    }
}

/// Splitting takes nothing away: joining the parts gives the text back.
pub proof fn law_join_undoes_split<T>(s: Seq<T>, sep: T)
    ensures
        join(split(s, sep), sep) == s,
    decreases s.len(),
{
    let parts = split(s, sep);
    if s.len() > 0 {
        let before = split(s.drop_last(), sep);
        law_join_undoes_split(s.drop_last(), sep);
        lemma_split_nonempty(s.drop_last(), sep);
        if s.last() == sep {
            assert(parts.drop_last() =~= before);
            assert(join(parts, sep) =~= s);
        } else {
            assert(parts.drop_last() =~= before.drop_last());
            assert(join(parts, sep) =~= join(before, sep).push(s.last()));
            assert(s.drop_last().push(s.last()) =~= s);
        }
    } else {
        assert(join(parts, sep) =~= s);
    }
}

/// No part that splitting yields holds the separator.
pub proof fn law_split_parts_lack_separator<T>(s: Seq<T>, sep: T)
    ensures
        forall|i: int| 0 <= i < split(s, sep).len() ==> !(#[trigger] split(s, sep)[i]).contains(sep),
    decreases s.len(),
{
    if s.len() > 0 {
        let before = split(s.drop_last(), sep);
        law_split_parts_lack_separator(s.drop_last(), sep);
        lemma_split_nonempty(s.drop_last(), sep);
        let parts = split(s, sep);
        assert forall|i: int| 0 <= i < parts.len() implies !(#[trigger] parts[i]).contains(sep) by {
            if i < parts.len() - 1 {
                assert(parts[i] == before[i]);
            } else if s.last() != sep {
                let part = before.last().push(s.last());
                assert(parts[i] == part);
                assert(!before[before.len() - 1].contains(sep));
                if part.contains(sep) {
                    let k = choose|k: int| 0 <= k < part.len() && part[k] == sep;
                    assert(before.last()[k] == sep);
                }
            }
        }
    }
}

/// A text without the separator is its own single part.
pub proof fn lemma_split_single<T>(s: Seq<T>, sep: T)
    requires
        !s.contains(sep),
    ensures
        split(s, sep) == seq![s],
    decreases s.len(),
{
    if s.len() > 0 {
        assert(!s.drop_last().contains(sep)) by {
            assert forall|k: int| 0 <= k < s.len() - 1 implies s.drop_last()[k] != sep by {
                assert(s[k] != sep);
            }
        }
        lemma_split_single(s.drop_last(), sep);
        assert(s[s.len() - 1] != sep);
        assert(s.drop_last().push(s.last()) =~= s);
        assert(split(s, sep) =~= seq![s]);
    } else {
        assert(s =~= Seq::empty());
    }
}

/// A separator between two texts separates their parts.
pub proof fn lemma_split_concat<T>(a: Seq<T>, sep: T, b: Seq<T>)
    ensures
        split(a.push(sep) + b, sep) == split(a, sep) + split(b, sep),
    decreases b.len(),
{
    let whole = a.push(sep) + b;
    if b.len() == 0 {
        assert(whole.drop_last() =~= a);
        assert(split(whole, sep) =~= split(a, sep) + split(b, sep));
    } else {
        lemma_split_concat(a, sep, b.drop_last());
        lemma_split_nonempty(b.drop_last(), sep);
        assert(whole.drop_last() =~= a.push(sep) + b.drop_last());
        assert(whole.last() == b.last());
        let before = split(b.drop_last(), sep);
        assert((split(a, sep) + before).drop_last() =~= split(a, sep) + before.drop_last());
        assert(split(whole, sep) =~= split(a, sep) + split(b, sep));
    }
}

/// Joining takes nothing away either: splitting gives the parts back, where
/// there is a part and none holds the separator.
pub proof fn law_split_undoes_join<T>(parts: Seq<Seq<T>>, sep: T)
    requires
        parts.len() > 0,
        forall|i: int| 0 <= i < parts.len() ==> !(#[trigger] parts[i]).contains(sep),
    ensures
        split(join(parts, sep), sep) == parts,
    decreases parts.len(),
{
    if parts.len() == 1 {
        lemma_split_single(parts[0], sep);
        assert(parts =~= seq![parts[0]]);
    } else {
        let front = parts.drop_last();
        assert forall|i: int| 0 <= i < front.len() implies !(#[trigger] front[i]).contains(sep) by {
            assert(front[i] == parts[i]);
        }
        law_split_undoes_join(front, sep);
        assert(!parts[parts.len() - 1].contains(sep));
        lemma_split_single(parts.last(), sep);
        lemma_split_concat(join(front, sep), sep, parts.last());
        assert(front + seq![parts.last()] =~= parts);
    }
}

/// A text without null characters is carried whole by a C string.
pub proof fn lemma_until_nul_whole(s: Seq<char>)
    requires
        !s.contains('\0'),
    ensures
        until_nul(s) == s,
    decreases s.len(),
{
    if s.len() > 0 {
        assert(s[0] != '\0');
        assert forall|k: int| 0 <= k < s.len() - 1 implies s.drop_first()[k] != '\0' by {
            assert(s[k + 1] != '\0');
        }
        lemma_until_nul_whole(s.drop_first());
        assert(seq![s[0]] + s.drop_first() =~= s);
    } else {
        assert(s =~= Seq::empty());
    }
}

/// What a C string carries of a text is the longest beginning of it without a
/// null character.
pub proof fn law_until_nul(s: Seq<char>)
    ensures
        !until_nul(s).contains('\0'),
        until_nul(s).is_prefix_of(s),
        until_nul(s).len() < s.len() ==> s[until_nul(s).len() as int] == '\0',
    decreases s.len(),
{
    if s.len() > 0 && s[0] != '\0' {
        let rest = s.drop_first();
        law_until_nul(rest);
        let kept = until_nul(s);
        let inner = until_nul(rest);
        assert forall|i: int| 0 <= i < kept.len() implies kept[i] != '\0' && kept[i] == s[i] by {
            if i > 0 {
                assert(kept[i] == inner[i - 1]);
                assert(!inner.contains('\0'));
                assert(inner[i - 1] == rest.subrange(0, inner.len() as int)[i - 1]);
            }
        }
        assert(kept =~= s.subrange(0, kept.len() as int));
    } else {
        assert(until_nul(s) =~= s.subrange(0, 0));
    }
}

/// A trimmed text neither begins nor ends with white space, and white space is
/// all that it lacks.
pub proof fn law_trimmed(s: Seq<char>)
    ensures
        trimmed(s).len() > 0 ==> !is_white_space(trimmed(s)[0]) && !is_white_space(
            trimmed(s).last(),
        ),
        exists|before: Seq<char>, after: Seq<char>|
            s == #[trigger] (before + trimmed(s) + after) && all_white_space(before)
                && all_white_space(after),
{
    let start = trim_start(s);
    lemma_trim_start(s);
    lemma_trim_end(start);
    let before = s.take(s.len() - start.len());
    let after = start.skip(trimmed(s).len() as int);
    assert(s =~= before + trimmed(s) + after);
    if trimmed(s).len() > 0 {
        assert(trimmed(s)[0] == start[0]);
    }
}

/// A text of white space alone.
pub open spec fn all_white_space(s: Seq<char>) -> bool {
    forall|i: int| 0 <= i < s.len() ==> is_white_space(#[trigger] s[i])
}

proof fn lemma_trim_start(s: Seq<char>)
    ensures
        trim_start(s).len() <= s.len(),
        trim_start(s) == s.skip(s.len() - trim_start(s).len()),
        trim_start(s).len() > 0 ==> !is_white_space(trim_start(s)[0]),
        all_white_space(s.take(s.len() - trim_start(s).len())),
    decreases s.len(),
{
    if s.len() > 0 && is_white_space(s[0]) {
        let rest = s.drop_first();
        lemma_trim_start(rest);
        let n = s.len() - trim_start(s).len();
        assert(rest.skip(n - 1) =~= s.skip(n));
        assert forall|i: int| 0 <= i < n implies is_white_space(#[trigger] s.take(n)[i]) by {
            if i > 0 {
                assert(s.take(n)[i] == rest.take(n - 1)[i - 1]);
            }
        }
    } else {
        assert(s.skip(0) =~= s);
    }
}

proof fn lemma_trim_end(s: Seq<char>)
    ensures
        trim_end(s).len() <= s.len(),
        trim_end(s) == s.take(trim_end(s).len() as int),
        trim_end(s).len() > 0 ==> !is_white_space(trim_end(s).last()),
        all_white_space(s.skip(trim_end(s).len() as int)),
    decreases s.len(),
{
    let n = trim_end(s).len() as int;
    if s.len() > 0 && is_white_space(s.last()) {
        let front = s.drop_last();
        lemma_trim_end(front);
        assert(front.take(n) =~= s.take(n));
        assert forall|i: int| 0 <= i < s.skip(n).len() implies is_white_space(
            #[trigger] s.skip(n)[i],
        ) by {
            if i < front.skip(n).len() {
                assert(s.skip(n)[i] == front.skip(n)[i]);
            }
        }
    } else {
        assert(s.take(s.len() as int) =~= s);
    }
}

/// The number that decimal digits stand for.
pub open spec fn digits_value(s: Seq<char>) -> nat
    decreases s.len(),
{
    if s.len() == 0 {
        0
    } else {
        (10 * digits_value(s.drop_last()) + (s.last() as int - '0' as int)) as nat
    }
}

/// A number in decimal stands for that number, so that different users have
/// different texts for their numbers.
pub proof fn law_decimal(n: nat)
    ensures
        digits_value(decimal(n)) == n,
    decreases n,
{
    reveal_with_fuel(digits_value, 2);
    if n < 10 {
        assert(decimal(n).drop_last() =~= Seq::empty());
    } else {
        law_decimal(n / 10);
        assert(decimal(n).drop_last() =~= decimal(n / 10));
    }
}

/// The characters of a string.
pub(crate) fn to_chars(s: &str) -> (chars: Vec<char>)
    ensures
        chars@ == s@,
{
    let mut chars: Vec<char> = Vec::new();
    for c in it: s.chars()
        invariant
            it.seq() == s@,
            chars@ == s@.take(it.index() as int),
    {
        chars.push(c);
    }
    assert(s@.take(s@.len() as int) == s@);
    chars
}

/// The string of the characters.
pub(crate) fn from_chars(chars: &Vec<char>) -> (s: String)
    ensures
        s@ == chars@,
{
    let mut s: String = String::new();
    for i in 0..chars.len()
        invariant
            s@ == chars@.take(i as int),
    {
        s.push(chars[i]);
    }
    assert(chars@.take(chars@.len() as int) == chars@);
    s
}

/// Whether two character vectors hold the same text.
pub(crate) fn same(a: &Vec<char>, b: &Vec<char>) -> (r: bool)
    ensures
        r == (a@ == b@),
{
    if a.len() != b.len() {
        return false;
    }
    for i in 0..a.len()
        invariant
            a.len() == b.len(),
            forall|j: int| 0 <= j < i ==> a@[j] == b@[j],
    {
        if a[i] != b[i] {
            assert(a@[i as int] != b@[i as int]);
            return false;
        }
    }
    assert(a@ == b@);
    true
}

/// Whether a character vector holds the text `lit`.
pub(crate) fn same_as(a: &Vec<char>, lit: &str) -> (r: bool)
    ensures
        r == (a@ == lit@),
{
    let b = to_chars(lit);
    same(a, &b)
}

/// Splits at every `sep`.
pub(crate) fn split_at_char(s: &Vec<char>, sep: char) -> (parts: Vec<Vec<char>>)
    ensures
        texts(parts@) == split(s@, sep),
{
    let mut parts: Vec<Vec<char>> = Vec::new();
    let mut part: Vec<char> = Vec::new();
    assert(texts(parts@).push(part@) =~= split(s@.take(0), sep));
    for i in 0..s.len()
        invariant
            texts(parts@).push(part@) == split(s@.take(i as int), sep),
    {
        let ghost before = texts(parts@).push(part@);
        assert(s@.take(i + 1).drop_last() == s@.take(i as int));
        assert(before.drop_last() =~= texts(parts@));
        if s[i] == sep {
            parts.push(part);
            part = Vec::new();
            assert(texts(parts@) =~= before);
        } else {
            part.push(s[i]);
        }
        assert(texts(parts@).push(part@) =~= split(s@.take(i + 1), sep));
    }
    assert(s@.take(s@.len() as int) == s@);
    let ghost before = texts(parts@).push(part@);
    parts.push(part);
    assert(texts(parts@) =~= before);
    parts
}

/// Splits bytes at every `sep`.
pub(crate) fn split_at_byte(s: &Vec<u8>, sep: u8) -> (parts: Vec<Vec<u8>>)
    ensures
        texts(parts@) == split(s@, sep),
{
    let mut parts: Vec<Vec<u8>> = Vec::new();
    let mut part: Vec<u8> = Vec::new();
    assert(texts(parts@).push(part@) =~= split(s@.take(0), sep));
    for i in 0..s.len()
        invariant
            texts(parts@).push(part@) == split(s@.take(i as int), sep),
    {
        let ghost before = texts(parts@).push(part@);
        assert(s@.take(i + 1).drop_last() == s@.take(i as int));
        assert(before.drop_last() =~= texts(parts@));
        if s[i] == sep {
            parts.push(part);
            part = Vec::new();
            assert(texts(parts@) =~= before);
        } else {
            part.push(s[i]);
        }
        assert(texts(parts@).push(part@) =~= split(s@.take(i + 1), sep));
    }
    assert(s@.take(s@.len() as int) == s@);
    let ghost before = texts(parts@).push(part@);
    parts.push(part);
    assert(texts(parts@) =~= before);
    parts
}

/// Whether a character is white space.
pub fn is_whitespace(c: char) -> (r: bool)
    ensures
        r == is_white_space(c),
{
    ('\u{9}' <= c && c <= '\u{d}') || c == '\u{20}' || c == '\u{85}' || c == '\u{a0}' || c
        == '\u{1680}' || ('\u{2000}' <= c && c <= '\u{200a}') || ('\u{2028}' <= c && c
        <= '\u{2029}') || c == '\u{202f}' || c == '\u{205f}' || c == '\u{3000}'
}

/// The words of a text.
pub(crate) fn split_words(s: &Vec<char>) -> (found: Vec<Vec<char>>)
    ensures
        texts(found@) == words(s@),
{
    let ghost space = |c: char| is_white_space(c);
    let ghost full = |word: Seq<char>| word.len() > 0;
    let mut found: Vec<Vec<char>> = Vec::new();
    let mut part: Vec<char> = Vec::new();
    let ghost mut done: Seq<Seq<char>> = Seq::empty();
    proof {
        reveal(Seq::filter);
        assert(done.push(part@) =~= pieces(s@.take(0), space));
    }
    for i in 0..s.len()
        invariant
            space == |c: char| is_white_space(c),
            full == |word: Seq<char>| word.len() > 0,
            done.push(part@) == pieces(s@.take(i as int), space),
            texts(found@) == done.filter(full),
    {
        assert(s@.take(i + 1).drop_last() == s@.take(i as int));
        assert(done.push(part@).drop_last() =~= done);
        if is_whitespace(s[i]) {
            proof {
                done.lemma_filter_push(part@, full);
                done = done.push(part@);
            }
            if part.len() > 0 {
                let ghost before = texts(found@);
                let ghost word = part@;
                found.push(part);
                part = Vec::new();
                assert(texts(found@) =~= before.push(word));
            }
            assert(part@ =~= Seq::<char>::empty());
        } else {
            part.push(s[i]);
        }
        assert(done.push(part@) =~= pieces(s@.take(i + 1), space));
    }
    assert(s@.take(s@.len() as int) == s@);
    proof {
        done.lemma_filter_push(part@, full);
    }
    if part.len() > 0 {
        let ghost before = texts(found@);
        let ghost word = part@;
        found.push(part);
        assert(texts(found@) =~= before.push(word));
    }
    found
}

/// Takes the white space off both ends.
pub(crate) fn trim(s: &Vec<char>) -> (r: Vec<char>)
    ensures
        r@ == trimmed(s@),
{
    let mut from: usize = 0;
    assert(s@.skip(0) == s@);
    while from < s.len() && is_whitespace(s[from])
        invariant
            from <= s.len(),
            trim_start(s@) == trim_start(s@.skip(from as int)),
        decreases s.len() - from,
    {
        assert(s@.skip(from as int).drop_first() == s@.skip(from + 1));
        from = from + 1;
    }
    assert(trim_start(s@) == s@.skip(from as int));
    let mut to: usize = s.len();
    assert(s@.subrange(from as int, to as int) == s@.skip(from as int));
    while to > from && is_whitespace(s[to - 1])
        invariant
            from <= to <= s.len(),
            trimmed(s@) == trim_end(s@.subrange(from as int, to as int)),
        decreases to,
    {
        assert(s@.subrange(from as int, to as int).drop_last() == s@.subrange(
            from as int,
            to - 1,
        ));
        to = to - 1;
    }
    assert(trimmed(s@) == s@.subrange(from as int, to as int));
    copy_range(s, from, to)
}

/// The characters from position `from` up to position `to`.
pub(crate) fn copy_range(s: &Vec<char>, from: usize, to: usize) -> (r: Vec<char>)
    requires
        from <= to <= s.len(),
    ensures
        r@ == s@.subrange(from as int, to as int),
{
    let mut r: Vec<char> = Vec::new();
    for i in from..to
        invariant
            from <= i <= to <= s.len(),
            r@ == s@.subrange(from as int, i as int),
    {
        r.push(s[i]);
    }
    r
}

/// Whether `s` has `prefix` at its beginning.
pub(crate) fn starts_with(s: &Vec<char>, prefix: &Vec<char>) -> (r: bool)
    ensures
        r == prefix@.is_prefix_of(s@),
{
    if prefix.len() > s.len() {
        return false;
    }
    for i in 0..prefix.len()
        invariant
            prefix.len() <= s.len(),
            forall|j: int| 0 <= j < i ==> prefix@[j] == s@[j],
    {
        if prefix[i] != s[i] {
            assert(s@.subrange(0, prefix@.len() as int)[i as int] != prefix@[i as int]);
            return false;
        }
    }
    assert(prefix@ =~= s@.subrange(0, prefix@.len() as int));
    true
}

/// What follows `prefix`, if the text begins with it.
pub(crate) fn strip_prefix(s: &Vec<char>, prefix: &str) -> (r: Option<String>)
    ensures
        opt_text(r) == after_prefix(s@, prefix@),
{
    let p = to_chars(prefix);
    if starts_with(s, &p) {
        let rest = copy_range(s, p.len(), s.len());
        assert(rest@ == s@.skip(p@.len() as int));
        Some(from_chars(&rest))
    } else {
        None
    }
}

/// `n` in decimal.
pub(crate) fn to_decimal(n: u32) -> (s: String)
    ensures
        s@ == decimal(n as nat),
    decreases n,
{
    let last: char = (('0' as u8) + (n % 10) as u8) as char;
    if n < 10 {
        let mut s: String = String::new();
        s.push(last);
        s
    } else {
        let mut s = to_decimal(n / 10);
        s.push(last);
        s
    }
}

/// A signed number in decimal.
pub open spec fn signed_decimal(n: int) -> Seq<char> {
    if n < 0 {
        seq!['-'] + decimal((-n) as nat)
    } else {
        decimal(n as nat)
    }
}

/// `n` in decimal, with a minus sign where it is negative.
pub(crate) fn to_signed_decimal(n: i32) -> (s: String)
    ensures
        s@ == signed_decimal(n as int),
{
    if n < 0 {
        let size: u32 = (-(n as i64)) as u32;
        let digits = to_decimal(size);
        let mut s: String = String::new();
        s.push('-');
        s.append(digits.as_str());
        s
    } else {
        to_decimal(n as u32)
    }
}

/// What a C string made of `s` carries: the text up to the first null
/// character.
pub fn cstr(s: &str) -> (r: String)
    ensures
        r@ == until_nul(s@),
{
    let chars = to_chars(s);
    let mut r: String = String::new();
    let mut i: usize = 0;
    assert(chars@.skip(0) == chars@);
    while i < chars.len() && chars[i] != '\0'
        invariant
            i <= chars.len(),
            until_nul(chars@) == r@ + until_nul(chars@.skip(i as int)),
        decreases chars.len() - i,
    {
        let ghost rest = chars@.skip(i as int);
        assert(rest.drop_first() == chars@.skip(i + 1));
        r.push(chars[i]);
        i = i + 1;
        assert(until_nul(chars@) == r@ + until_nul(chars@.skip(i as int)));
    }
    r
}

/// `a`, a slash, `b`.
pub(crate) fn with_slash(a: &str, b: &str) -> (r: String)
    ensures
        r@ == slashed(a@, b@),
{
    let mut r: String = String::new();
    r.append(a);
    r.push('/');
    r.append(b);
    r
}

/// The parts with `sep` between neighbours.
pub(crate) fn join_chars(parts: &Vec<Vec<char>>, sep: char) -> (r: String)
    ensures
        r@ == join(texts(parts@), sep),
{
    let ghost all = texts(parts@);
    let mut r: String = String::new();
    for i in 0..parts.len()
        invariant
            all == texts(parts@),
            r@ == join(all.take(i as int), sep),
    {
        let ghost upto = all.take(i + 1);
        assert(upto.drop_last() == all.take(i as int));
        if i > 0 {
            r.push(sep);
        }
        let part = from_chars(&parts[i]);
        r.append(part.as_str());
        assert(upto.last() == part@);
        assert(r@ =~= join(upto, sep));
    }
    assert(all.take(parts@.len() as int) == all);
    r
}

/// The contents of a vector of strings are its strings, each at its own place.
pub proof fn law_strings(v: Seq<String>)
    ensures
        strings(v).len() == v.len(),
        forall|i: int| 0 <= i < v.len() ==> #[trigger] strings(v)[i] == v[i]@,
{
}

/// The contents of a vector of vectors are its vectors, each at its own place.
pub proof fn law_texts<T>(v: Seq<Vec<T>>)
    ensures
        texts(v).len() == v.len(),
        forall|i: int| 0 <= i < v.len() ==> #[trigger] texts(v)[i] == v[i]@,
{
}

/// An optional text is there if and only if the string is, and then it is the
/// text of the string.
pub proof fn law_optional_text(owned: Option<String>, slice: Option<&str>)
    ensures
        opt_text(owned) is Some <==> owned is Some,
        owned matches Some(s) ==> opt_text(owned) == Some(s@),
        opt_str(slice) is Some <==> slice is Some,
        slice matches Some(s) ==> opt_str(slice) == Some(s@),
{
}

/// A slash, and nothing else, stands between the two.
pub proof fn law_slashed(a: Seq<char>, b: Seq<char>)
    ensures
        slashed(a, b) == a + "/"@ + b,
{
    reveal_strlit("/");
    assert(slashed(a, b) =~= a + "/"@ + b);
}

/// What splitting yields: a text without the separator is one part, and each
/// separator separates what is before it from what is behind it.
pub proof fn law_split<T>(a: Seq<T>, sep: T, b: Seq<T>)
    ensures
        !a.contains(sep) ==> split(a, sep) == seq![a],
        split(a + seq![sep] + b, sep) == split(a, sep) + split(b, sep),
{
    if !a.contains(sep) {
        lemma_split_single(a, sep);
    }
    lemma_split_concat(a, sep, b);
    assert(a + seq![sep] + b =~= a.push(sep) + b);
}

/// What joining yields: one part is itself, and each further part is added
/// behind a separator.
pub proof fn law_join<T>(parts: Seq<Seq<T>>, part: Seq<T>, sep: T)
    ensures
        join(Seq::<Seq<T>>::empty(), sep) == Seq::<T>::empty(),
        join(seq![part], sep) == part,
        parts.len() > 0 ==> join(parts.push(part), sep) == join(parts, sep) + seq![sep] + part,
{
    assert(parts.push(part).drop_last() =~= parts);
    if parts.len() > 0 {
        assert(join(parts, sep).push(sep) + part =~= join(parts, sep) + seq![sep] + part);
    }
}

/// A text begins with another one if and only if it is that one and what
/// follows it.
pub proof fn law_after_prefix(s: Seq<char>, prefix: Seq<char>, rest: Seq<char>)
    ensures
        after_prefix(s, prefix) == Some(rest) <==> s == prefix + rest,
        after_prefix(s, prefix) is None ==> s != prefix + rest,
{
    if prefix.is_prefix_of(s) {
        assert(s =~= prefix + s.skip(prefix.len() as int));
    }
    if s == prefix + rest {
        assert(s.subrange(0, prefix.len() as int) =~= prefix);
        assert(s.skip(prefix.len() as int) =~= rest);
    }
}

proof fn lemma_pieces_nonempty(s: Seq<char>, sep: spec_fn(char) -> bool)
    ensures
        pieces(s, sep).len() >= 1,
    decreases s.len(),
{
    if s.len() > 0 {
        lemma_pieces_nonempty(s.drop_last(), sep);
    }
}

proof fn lemma_pieces_concat(a: Seq<char>, c: char, b: Seq<char>, sep: spec_fn(char) -> bool)
    requires
        sep(c),
    ensures
        pieces(a + seq![c] + b, sep) == pieces(a, sep) + pieces(b, sep),
    decreases b.len(),
{
    let whole = a + seq![c] + b;
    if b.len() == 0 {
        assert(whole.drop_last() =~= a);
        assert(pieces(whole, sep) =~= pieces(a, sep) + pieces(b, sep));
    } else {
        lemma_pieces_concat(a, c, b.drop_last(), sep);
        lemma_pieces_nonempty(b.drop_last(), sep);
        assert(whole.drop_last() =~= a + seq![c] + b.drop_last());
        let before = pieces(b.drop_last(), sep);
        assert((pieces(a, sep) + before).drop_last() =~= pieces(a, sep) + before.drop_last());
        assert(pieces(whole, sep) =~= pieces(a, sep) + pieces(b, sep));
    }
}

proof fn lemma_pieces_single(s: Seq<char>, sep: spec_fn(char) -> bool)
    requires
        forall|i: int| 0 <= i < s.len() ==> !sep(#[trigger] s[i]),
    ensures
        pieces(s, sep) == seq![s],
    decreases s.len(),
{
    if s.len() > 0 {
        let front = s.drop_last();
        assert forall|i: int| 0 <= i < front.len() implies !sep(#[trigger] front[i]) by {
            assert(front[i] == s[i]);
        }
        lemma_pieces_single(front, sep);
        assert(!sep(s[s.len() - 1]));
        assert(front.push(s.last()) =~= s);
        assert(pieces(s, sep) =~= seq![s]);
    } else {
        assert(s =~= Seq::empty());
    }
}

/// What the words of a text are: a text without white space is one word, unless
/// it is empty, and white space separates the words before it from those behind
/// it.
pub proof fn law_words(a: Seq<char>, space: char, b: Seq<char>)
    ensures
        words(Seq::empty()) == Seq::<Seq<char>>::empty(),
        a.len() > 0 && (forall|i: int| 0 <= i < a.len() ==> !is_white_space(#[trigger] a[i]))
            ==> words(a) == seq![a],
        is_white_space(space) ==> words(a + seq![space] + b) == words(a) + words(b),
{
    let sep = |c: char| is_white_space(c);
    let full = |word: Seq<char>| word.len() > 0;
    let empty = Seq::<char>::empty();
    reveal(Seq::filter);
    let nothing = Seq::<Seq<char>>::empty();
    nothing.lemma_filter_push(empty, full);
    assert(nothing.push(empty) =~= pieces(empty, sep));
    assert(words(empty) =~= nothing);
    if a.len() > 0 && (forall|i: int| 0 <= i < a.len() ==> !is_white_space(#[trigger] a[i])) {
        lemma_pieces_single(a, sep);
        assert(seq![a].drop_last() =~= Seq::<Seq<char>>::empty());
        assert(words(a) =~= seq![a]);
    }
    if is_white_space(space) {
        lemma_pieces_concat(a, space, b, sep);
        Seq::filter_distributes_over_add(pieces(a, sep), pieces(b, sep), full);
    }
}

/// White space of any length separates words, as a single character of it does.
pub proof fn law_words_gap(a: Seq<char>, gap: Seq<char>, b: Seq<char>)
    requires
        gap.len() > 0,
        forall|i: int| 0 <= i < gap.len() ==> is_white_space(#[trigger] gap[i]),
    ensures
        words(a + gap + b) == words(a) + words(b),
        words(gap + b) == words(b),
        words(a + gap) == words(a),
    decreases gap.len(),
{
    let empty = Seq::<char>::empty();
    let first = gap[0];
    let rest = gap.drop_first();
    law_words(a, first, rest + b);
    law_words(empty, first, rest + b);
    law_words(a, first, rest);
    assert(a + gap + b =~= a + seq![first] + (rest + b));
    assert(gap + b =~= empty + seq![first] + (rest + b));
    assert(a + gap =~= a + seq![first] + rest);
    assert(words(empty) + words(rest + b) =~= words(rest + b));
    if rest.len() > 0 {
        assert forall|i: int| 0 <= i < rest.len() implies is_white_space(#[trigger] rest[i]) by {
            assert(rest[i] == gap[i + 1]);
        }
        law_words_gap(empty, rest, b);
        law_words_gap(empty, rest, empty);
        assert(rest + empty =~= rest);
        assert(words(a) + words(empty) =~= words(a));
    } else {
        assert(rest + b =~= b);
        assert(rest =~= empty);
        assert(words(a) + words(empty) =~= words(a));
    }
}

/// Trimming takes away the white space around a text, and nothing of the text.
pub proof fn law_trim_strips(before: Seq<char>, s: Seq<char>, after: Seq<char>)
    requires
        forall|i: int| 0 <= i < before.len() ==> is_white_space(#[trigger] before[i]),
        forall|i: int| 0 <= i < after.len() ==> is_white_space(#[trigger] after[i]),
        s.len() > 0 ==> !is_white_space(s[0]) && !is_white_space(s.last()),
    ensures
        trimmed(before + s + after) == s,
    decreases before.len() + after.len(),
{
    let whole = before + s + after;
    if before.len() > 0 {
        assert(whole[0] == before[0]);
        let rest = before.drop_first();
        assert forall|i: int| 0 <= i < rest.len() implies is_white_space(#[trigger] rest[i]) by {
            assert(rest[i] == before[i + 1]);
        }
        assert(whole.drop_first() =~= rest + s + after);
        law_trim_strips(rest, s, after);
    } else if s.len() > 0 {
        assert(whole[0] == s[0]);
        lemma_trim_end_strips(whole, s, after);
    } else if after.len() > 0 {
        assert(whole =~= after);
        let rest = after.drop_first();
        assert forall|i: int| 0 <= i < rest.len() implies is_white_space(#[trigger] rest[i]) by {
            assert(rest[i] == after[i + 1]);
        }
        assert(whole.drop_first() =~= before + s + rest);
        law_trim_strips(before, s, rest);
    } else {
        assert(whole =~= s);
    }
}

proof fn lemma_trim_end_strips(whole: Seq<char>, s: Seq<char>, after: Seq<char>)
    requires
        whole == s + after,
        s.len() > 0,
        !is_white_space(s.last()),
        forall|i: int| 0 <= i < after.len() ==> is_white_space(#[trigger] after[i]),
    ensures
        trim_end(whole) == s,
    decreases after.len(),
{
    if after.len() > 0 {
        assert(whole.last() == after[after.len() - 1]);
        let rest = after.drop_last();
        assert forall|i: int| 0 <= i < rest.len() implies is_white_space(#[trigger] rest[i]) by {
            assert(rest[i] == after[i]);
        }
        assert(whole.drop_last() =~= s + rest);
        lemma_trim_end_strips(whole.drop_last(), s, rest);
    } else {
        assert(whole =~= s);
    }
}

/// How a number is written: a last digit behind the rest, and no leading zero.
pub proof fn law_decimal_digits(n: nat, last: nat)
    requires
        last < 10,
    ensures
        decimal(last).len() == 1 && decimal(last)[0] as int == '0' as int + last,
        n > 0 ==> decimal(10 * n + last) == decimal(n) + decimal(last),
{
    if n > 0 {
        assert((10 * n + last) / 10 == n && (10 * n + last) % 10 == last);
        assert(decimal(n).push(digit(last)) =~= decimal(n) + decimal(last));
    }
}

/// A negative number is written with a minus sign before its size.
pub proof fn law_signed_decimal(n: nat)
    ensures
        signed_decimal(n as int) == decimal(n),
        n > 0 ==> signed_decimal(-n) == "-"@ + decimal(n),
{
    reveal_strlit("-");
    if n > 0 {
        assert(signed_decimal(-n) =~= "-"@ + decimal(n));
    }
}

} // verus!
