//! Character-level text helpers with exact specifications: Unicode
//! white space, trimming, splitting on a separator and joining.

use vstd::prelude::*;

verus! {

/// The Unicode `White_Space` property, the set of characters that
/// `char::is_whitespace` (and therefore `str::trim`) treats as blank.
pub open spec fn is_white_space(c: char) -> bool {
    ||| ('\u{9}' <= c && c <= '\u{d}')
    ||| c == ' '
    ||| c == '\u{85}'
    ||| c == '\u{a0}'
    ||| c == '\u{1680}'
    ||| ('\u{2000}' <= c && c <= '\u{200a}')
    ||| c == '\u{2028}'
    ||| c == '\u{2029}'
    ||| c == '\u{202f}'
    ||| c == '\u{205f}'
    ||| c == '\u{3000}'
}

/// `s` without its leading white space.
pub open spec fn trim_front(s: Seq<char>) -> Seq<char>
    decreases s.len(),
{
    if s.len() > 0 && is_white_space(s[0]) {
        trim_front(s.drop_first())
    } else {
        s
    }
}

/// `s` without its trailing white space.
pub open spec fn trim_back(s: Seq<char>) -> Seq<char>
    decreases s.len(),
{
    if s.len() > 0 && is_white_space(s.last()) {
        trim_back(s.drop_last())
    } else {
        s
    }
}

/// `s` without leading and trailing white space, as `str::trim` gives it.
pub open spec fn trim(s: Seq<char>) -> Seq<char> {
    trim_back(trim_front(s))
}

/// Tells whether `c` has the Unicode `White_Space` property.
pub fn white_space(c: char) -> (r: bool)
    ensures
        r == is_white_space(c),
{
    ('\u{9}' <= c && c <= '\u{d}') || c == ' ' || c == '\u{85}' || c == '\u{a0}' || c
        == '\u{1680}' || ('\u{2000}' <= c && c <= '\u{200a}') || c == '\u{2028}' || c
        == '\u{2029}' || c == '\u{202f}' || c == '\u{205f}' || c == '\u{3000}'
}

/// The characters of `s`, one by one.
pub fn chars_of(s: &str) -> (r: Vec<char>)
    ensures
        r@ == s@,
{
    let n = s.unicode_len();
    let mut out: Vec<char> = Vec::new();
    let mut i: usize = 0;
    while i < n
        invariant
            n == s@.len(),
            i <= n,
            out@ == s@.take(i as int),
        decreases n - i,
    {
        let c = s.get_char(i);
        out.push(c);
        i = i + 1;
        assert(out@ =~= s@.take(i as int));
    }
    assert(out@ =~= s@);
    out
}

proof fn lemma_trim_front_skip(s: Seq<char>, k: int)
    requires
        0 <= k <= s.len(),
        forall|j: int| 0 <= j < k ==> is_white_space(#[trigger] s[j]),
        k == s.len() || !is_white_space(s[k]),
    ensures
        trim_front(s) == s.skip(k),
    decreases k,
{
    if k == 0 {
        assert(s.skip(0) =~= s);
    } else {
        assert(s.drop_first().skip(k - 1) =~= s.skip(k));
        assert forall|j: int| 0 <= j < k - 1 implies is_white_space(#[trigger] s.drop_first()[j]) by {
            assert(s.drop_first()[j] == s[j + 1]);
        }
        lemma_trim_front_skip(s.drop_first(), k - 1);
    }
}

proof fn lemma_trim_back_take(s: Seq<char>, k: int)
    requires
        0 <= k <= s.len(),
        forall|j: int| k <= j < s.len() ==> is_white_space(#[trigger] s[j]),
        k == 0 || !is_white_space(s[k - 1]),
    ensures
        trim_back(s) == s.take(k),
    decreases s.len() - k,
{
    if k == s.len() {
        assert(s.take(k) =~= s);
    } else {
        assert(s.drop_last().take(k) =~= s.take(k));
        assert forall|j: int| k <= j < s.drop_last().len() implies is_white_space(#[trigger] s.drop_last()[j]) by {
            assert(s.drop_last()[j] == s[j]);
        }
        lemma_trim_back_take(s.drop_last(), k);
    }
}

/// The text of `s` without leading and trailing white space (`str::trim`).
pub fn trimmed(s: &str) -> (r: String)
    ensures
        r@ == trim(s@),
{
    let cs = chars_of(s);
    let n = cs.len();
    let mut start: usize = 0;
    while start < n && white_space(cs[start])
        invariant
            n == cs@.len(),
            cs@ == s@,
            start <= n,
            forall|j: int| 0 <= j < start ==> is_white_space(#[trigger] cs@[j]),
        decreases n - start,
    {
        start = start + 1;
    }
    proof {
        lemma_trim_front_skip(s@, start as int);
    }
    let mut end: usize = n;
    while end > start && white_space(cs[end - 1])
        invariant
            n == cs@.len(),
            cs@ == s@,
            start <= end <= n,
            forall|j: int| end <= j < n ==> is_white_space(#[trigger] cs@[j]),
        decreases end - start,
    {
        end = end - 1;
    }
    proof {
        let f = s@.skip(start as int);
        let k = end - start;
        assert forall|j: int| k <= j < f.len() implies is_white_space(#[trigger] f[j]) by {
            assert(f[j] == s@[j + start]);
        }
        if k > 0 {
            assert(f[k - 1] == s@[end - 1]);
        }
        lemma_trim_back_take(f, k as int);
        assert(f.take(k as int) =~= s@.subrange(start as int, end as int));
    }
    let piece = s.substring_char(start, end);
    String::from_str(piece)
}


/// The pieces of `s` between occurrences of `sep`, as `str::split` with a
/// character pattern yields them: `n` separators give `n + 1` pieces, and
/// empty pieces are kept.
pub open spec fn split_on(s: Seq<char>, sep: char) -> Seq<Seq<char>>
    decreases s.len(),
{
    if s.len() == 0 {
        seq![Seq::<char>::empty()]
    } else {
        let r = split_on(s.drop_last(), sep);
        if s.last() == sep {
            r.push(Seq::<char>::empty())
        } else {
            r.update(r.len() - 1, r.last().push(s.last()))
        }
    }
}

/// The items of `items` with `sep` between each two of them, as
/// `[String]::join` writes them.
pub open spec fn join(items: Seq<Seq<char>>, sep: Seq<char>) -> Seq<char>
    decreases items.len(),
{
    if items.len() == 0 {
        Seq::<char>::empty()
    } else if items.len() == 1 {
        items[0]
    } else {
        join(items.drop_last(), sep) + sep + items.last()
    }
}

/// The character sequences that a list of strings holds.
pub open spec fn texts(v: Seq<String>) -> Seq<Seq<char>> {
    v.map_values(|x: String| x@)
}

pub proof fn lemma_split_on_nonempty(s: Seq<char>, sep: char)
    ensures
        split_on(s, sep).len() >= 1,
    decreases s.len(),
{
    if s.len() > 0 {
        lemma_split_on_nonempty(s.drop_last(), sep);
    }
}

/// The pieces of `s` between occurrences of `sep` (`str::split`).
pub fn split_text(s: &str, sep: char) -> (r: Vec<String>)
    ensures
        texts(r@) == split_on(s@, sep),
{
    let cs = chars_of(s);
    let n = cs.len();
    let mut pieces: Vec<String> = Vec::new();
    let mut cur: usize = 0;
    let mut i: usize = 0;
    assert(s@.take(0) =~= Seq::<char>::empty());
    assert(texts(pieces@).push(s@.subrange(0, 0)) =~= seq![Seq::<char>::empty()]);
    while i < n
        invariant
            n == cs@.len(),
            cs@ == s@,
            cur <= i <= n,
            texts(pieces@).push(s@.subrange(cur as int, i as int)) == split_on(s@.take(i as int), sep),
        decreases n - i,
    {
        proof {
            lemma_split_on_nonempty(s@.take(i as int), sep);
            assert(s@.take(i as int + 1).drop_last() =~= s@.take(i as int));
            assert(s@.take(i as int + 1).last() == cs@[i as int]);
        }
        if cs[i] == sep {
            let ghost before = texts(pieces@).push(s@.subrange(cur as int, i as int));
            let piece = String::from_str(s.substring_char(cur, i));
            pieces.push(piece);
            assert(texts(pieces@) =~= before);
            cur = i + 1;
            i = i + 1;
            assert(s@.subrange(cur as int, i as int) =~= Seq::<char>::empty());
            assert(texts(pieces@).push(s@.subrange(cur as int, i as int)) =~= before.push(Seq::<char>::empty()));
        } else {
            let ghost before = texts(pieces@).push(s@.subrange(cur as int, i as int));
            i = i + 1;
            assert(s@.subrange(cur as int, i as int) =~= s@.subrange(cur as int, i - 1).push(cs@[i - 1]));
            assert(texts(pieces@).push(s@.subrange(cur as int, i as int)) =~= before.update(before.len() - 1, before.last().push(cs@[i - 1])));
        }
    }
    let last = String::from_str(s.substring_char(cur, n));
    pieces.push(last);
    assert(s@.take(n as int) =~= s@);
    assert(texts(pieces@) =~= split_on(s@, sep));
    pieces
}

/// The strings of `items` with `sep` between each two of them (`join`).
pub fn join_texts(items: &Vec<String>, sep: &str) -> (r: String)
    ensures
        r@ == join(texts(items@), sep@),
{
    let mut out = String::new();
    let n = items.len();
    let mut i: usize = 0;
    while i < n
        invariant
            n == items@.len(),
            i <= n,
            out@ == join(texts(items@).take(i as int), sep@),
        decreases n - i,
    {
        assert(texts(items@).take(i as int + 1).drop_last() =~= texts(items@).take(i as int));
        if i > 0 {
            out.append(sep);
        }
        out.append(items[i].as_str());
        i = i + 1;
        assert(out@ =~= join(texts(items@).take(i as int), sep@));
    }
    assert(texts(items@).take(n as int) =~= texts(items@));
    out
}


/// Tells whether two texts hold the same characters.
pub fn same_text(a: &str, b: &str) -> (r: bool)
    ensures
        r == (a@ == b@),
{
    let n = a.unicode_len();
    let m = b.unicode_len();
    if n != m {
        return false;
    }
    let mut i: usize = 0;
    while i < n
        invariant
            n == a@.len(),
            m == b@.len(),
            n == m,
            i <= n,
            forall|j: int| 0 <= j < i ==> a@[j] == b@[j],
        decreases n - i,
    {
        if a.get_char(i) != b.get_char(i) {
            return false;
        }
        i = i + 1;
    }
    assert(a@ =~= b@);
    true
}


/// The pieces of `s` between white-space characters, empty pieces kept.
pub open spec fn split_on_white_space(s: Seq<char>) -> Seq<Seq<char>>
    decreases s.len(),
{
    if s.len() == 0 {
        seq![Seq::<char>::empty()]
    } else {
        let r = split_on_white_space(s.drop_last());
        if is_white_space(s.last()) {
            r.push(Seq::<char>::empty())
        } else {
            r.update(r.len() - 1, r.last().push(s.last()))
        }
    }
}

/// The non-empty pieces of `pieces`, in their order.
pub open spec fn non_empty(pieces: Seq<Seq<char>>) -> Seq<Seq<char>>
    decreases pieces.len(),
{
    if pieces.len() == 0 {
        Seq::<Seq<char>>::empty()
    } else {
        let r = non_empty(pieces.drop_last());
        if pieces.last().len() > 0 {
            r.push(pieces.last())
        } else {
            r
        }
    }
}

/// The words of `s`, as `str::split_whitespace` yields them: the pieces
/// between white space that are not empty.
pub open spec fn words(s: Seq<char>) -> Seq<Seq<char>> {
    non_empty(split_on_white_space(s))
}

pub proof fn lemma_split_on_white_space_nonempty(s: Seq<char>)
    ensures
        split_on_white_space(s).len() >= 1,
    decreases s.len(),
{
    if s.len() > 0 {
        lemma_split_on_white_space_nonempty(s.drop_last());
    }
}

/// The words of `s` (`str::split_whitespace`).
pub fn words_of(s: &str) -> (r: Vec<String>)
    ensures
        texts(r@) == words(s@),
{
    let cs = chars_of(s);
    let n = cs.len();
    let mut pieces: Vec<String> = Vec::new();
    let mut cur: usize = 0;
    let mut i: usize = 0;
    assert(s@.take(0) =~= Seq::<char>::empty());
    assert(texts(pieces@).push(s@.subrange(0, 0)) =~= seq![Seq::<char>::empty()]);
    while i < n
        invariant
            n == cs@.len(),
            cs@ == s@,
            cur <= i <= n,
            texts(pieces@).push(s@.subrange(cur as int, i as int)) == split_on_white_space(s@.take(i as int)),
        decreases n - i,
    {
        proof {
            lemma_split_on_white_space_nonempty(s@.take(i as int));
            assert(s@.take(i as int + 1).drop_last() =~= s@.take(i as int));
            assert(s@.take(i as int + 1).last() == cs@[i as int]);
        }
        if white_space(cs[i]) {
            let ghost before = texts(pieces@).push(s@.subrange(cur as int, i as int));
            let piece = String::from_str(s.substring_char(cur, i));
            pieces.push(piece);
            assert(texts(pieces@) =~= before);
            cur = i + 1;
            i = i + 1;
            assert(s@.subrange(cur as int, i as int) =~= Seq::<char>::empty());
            assert(texts(pieces@).push(s@.subrange(cur as int, i as int)) =~= before.push(Seq::<char>::empty()));
        } else {
            let ghost before = texts(pieces@).push(s@.subrange(cur as int, i as int));
            i = i + 1;
            assert(s@.subrange(cur as int, i as int) =~= s@.subrange(cur as int, i - 1).push(cs@[i - 1]));
            assert(texts(pieces@).push(s@.subrange(cur as int, i as int)) =~= before.update(before.len() - 1, before.last().push(cs@[i - 1])));
        }
    }
    let last = String::from_str(s.substring_char(cur, n));
    pieces.push(last);
    assert(s@.take(n as int) =~= s@);
    assert(texts(pieces@) =~= split_on_white_space(s@));
    let ghost all = texts(pieces@);
    let mut out: Vec<String> = Vec::new();
    let m = pieces.len();
    let mut j: usize = 0;
    while j < m
        invariant
            m == pieces@.len(),
            j <= m,
            all == texts(pieces@),
            texts(out@) == non_empty(all.take(j as int)),
        decreases m - j,
    {
        assert(all.take(j as int + 1).drop_last() =~= all.take(j as int));
        assert(all.take(j as int + 1).last() == pieces@[j as int]@);
        let ghost before = texts(out@);
        if pieces[j].unicode_len() > 0 {
            out.push(pieces[j].clone());
            assert(texts(out@) =~= before.push(pieces@[j as int]@));
        }
        j = j + 1;
    }
    assert(all.take(m as int) =~= all);
    out
}


/// A text without any white-space character.
pub open spec fn free_of_white_space(w: Seq<char>) -> bool {
    forall|i: int| 0 <= i < w.len() ==> !is_white_space(#[trigger] w[i])
}

proof fn lemma_split_ws_concat(a: Seq<char>, c: char, b: Seq<char>)
    requires
        is_white_space(c),
    ensures
        split_on_white_space(a + seq![c] + b) == split_on_white_space(a) + split_on_white_space(b),
    decreases b.len(),
{
    let x = a + seq![c] + b;
    if b.len() == 0 {
        assert(x.drop_last() =~= a);
        assert(x.last() == c);
        assert(split_on_white_space(b) =~= seq![Seq::<char>::empty()]);
        assert(split_on_white_space(x) =~= split_on_white_space(a) + split_on_white_space(b));
    } else {
        assert(x.drop_last() =~= a + seq![c] + b.drop_last());
        lemma_split_ws_concat(a, c, b.drop_last());
        lemma_split_on_white_space_nonempty(b.drop_last());
        lemma_split_on_white_space_nonempty(a);
        assert(x.last() == b.last());
        let pa = split_on_white_space(a);
        let pb = split_on_white_space(b.drop_last());
        if is_white_space(b.last()) {
            assert(split_on_white_space(x) =~= pa + pb.push(Seq::<char>::empty()));
        } else {
            assert((pa + pb).update((pa + pb).len() - 1, (pa + pb).last().push(b.last())) =~= pa + pb.update(
                pb.len() - 1,
                pb.last().push(b.last()),
            ));
        }
        assert(split_on_white_space(x) =~= split_on_white_space(a) + split_on_white_space(b));
    }
}

proof fn lemma_non_empty_concat(p: Seq<Seq<char>>, q: Seq<Seq<char>>)
    ensures
        non_empty(p + q) == non_empty(p) + non_empty(q),
    decreases q.len(),
{
    if q.len() == 0 {
        assert(p + q =~= p);
        assert(non_empty(p) + non_empty(q) =~= non_empty(p));
    } else {
        assert((p + q).drop_last() =~= p + q.drop_last());
        assert((p + q).last() == q.last());
        lemma_non_empty_concat(p, q.drop_last());
        if q.last().len() > 0 {
            assert(non_empty(p + q) =~= non_empty(p) + non_empty(q));
        } else {
            assert(non_empty(p + q) =~= non_empty(p) + non_empty(q));
        }
    }
}

proof fn lemma_split_ws_of_word(w: Seq<char>)
    requires
        free_of_white_space(w),
    ensures
        split_on_white_space(w) == seq![w],
    decreases w.len(),
{
    if w.len() == 0 {
        assert(w =~= Seq::<char>::empty());
    } else {
        assert(free_of_white_space(w.drop_last())) by {
            assert forall|i: int| 0 <= i < w.drop_last().len() implies !is_white_space(#[trigger] w.drop_last()[i]) by {
                assert(w.drop_last()[i] == w[i]);
            }
        }
        lemma_split_ws_of_word(w.drop_last());
        assert(!is_white_space(w[w.len() - 1]));
        assert(w.drop_last().push(w.last()) =~= w);
        assert(split_on_white_space(w) =~= seq![w]);
    }
}

/// The words of a text are its maximal runs of characters other than white
/// space: an empty text has none; a non-empty run alone is one word, itself;
/// white space in front of a text adds no word; and a run followed by white
/// space is the first word, the words of the rest coming after it. These
/// four facts fix the words of every text.
pub proof fn lemma_words_are_maximal_runs(w: Seq<char>, c: char, rest: Seq<char>)
    ensures
        words(Seq::<char>::empty()).len() == 0,
        (w.len() > 0 && free_of_white_space(w)) ==> words(w) == seq![w],
        is_white_space(c) ==> words(seq![c] + rest) == words(rest),
        (w.len() > 0 && free_of_white_space(w) && is_white_space(c)) ==> words(w + seq![c] + rest)
            == seq![w] + words(rest),
{
    assert(split_on_white_space(Seq::<char>::empty()) =~= seq![Seq::<char>::empty()]);
    assert(non_empty(Seq::<Seq<char>>::empty()) == Seq::<Seq<char>>::empty());
    assert(non_empty(seq![Seq::<char>::empty()]).len() == 0) by {
        assert(seq![Seq::<char>::empty()].drop_last() =~= Seq::<Seq<char>>::empty());
    }
    if w.len() > 0 && free_of_white_space(w) {
        lemma_split_ws_of_word(w);
        assert(seq![w].drop_last() =~= Seq::<Seq<char>>::empty());
        assert(seq![w].last() == w);
        assert(Seq::<Seq<char>>::empty().push(w) =~= seq![w]);
        assert(non_empty(seq![w]) =~= seq![w]);
    }
    if is_white_space(c) {
        lemma_split_ws_concat(Seq::<char>::empty(), c, rest);
        assert(Seq::<char>::empty() + seq![c] + rest =~= seq![c] + rest);
        lemma_non_empty_concat(seq![Seq::<char>::empty()], split_on_white_space(rest));
        assert(non_empty(seq![Seq::<char>::empty()]) + words(rest) =~= words(rest));
        if w.len() > 0 && free_of_white_space(w) {
            lemma_split_ws_concat(w, c, rest);
            lemma_non_empty_concat(seq![w], split_on_white_space(rest));
        }
    }
}


proof fn lemma_leading_white_space(s: Seq<char>) -> (i: int)
    ensures
        0 <= i <= s.len(),
        trim_front(s) == s.skip(i),
        forall|k: int| 0 <= k < i ==> is_white_space(#[trigger] s[k]),
        i < s.len() ==> !is_white_space(s[i]),
    decreases s.len(),
{
    if s.len() > 0 && is_white_space(s[0]) {
        let i = lemma_leading_white_space(s.drop_first());
        assert(s.drop_first().skip(i) =~= s.skip(i + 1));
        assert forall|k: int| 0 <= k < i + 1 implies is_white_space(#[trigger] s[k]) by {
            if k > 0 {
                assert(s[k] == s.drop_first()[k - 1]);
            }
        }
        if i + 1 < s.len() {
            assert(s[i + 1] == s.drop_first()[i]);
        }
        i + 1
    } else {
        assert(s.skip(0) =~= s);
        0
    }
}

proof fn lemma_trailing_white_space(s: Seq<char>) -> (j: int)
    ensures
        0 <= j <= s.len(),
        trim_back(s) == s.take(j),
        forall|k: int| j <= k < s.len() ==> is_white_space(#[trigger] s[k]),
        j > 0 ==> !is_white_space(s[j - 1]),
    decreases s.len(),
{
    if s.len() > 0 && is_white_space(s.last()) {
        let j = lemma_trailing_white_space(s.drop_last());
        assert(s.drop_last().take(j) =~= s.take(j));
        assert forall|k: int| j <= k < s.len() implies is_white_space(#[trigger] s[k]) by {
            if k < s.len() - 1 {
                assert(s[k] == s.drop_last()[k]);
            }
        }
        if j > 0 {
            assert(s[j - 1] == s.drop_last()[j - 1]);
        }
        j
    } else {
        assert(s.take(s.len() as int) =~= s);
        s.len() as int
    }
}

/// Trimming removes white space at the two ends and nothing else: the
/// trimmed text is a slice `s[i..j]` of the text with only white space
/// before `i` and from `j` on, and, when not empty, it starts and ends with
/// a character that is not white space.
pub proof fn lemma_trim_strips_only_outer_white_space(s: Seq<char>)
    ensures
        exists|i: int, j: int|
            #![trigger s.subrange(i, j)]
            0 <= i <= j <= s.len() && trim(s) == s.subrange(i, j) && (forall|k: int|
                0 <= k < i ==> is_white_space(#[trigger] s[k])) && (forall|k: int|
                j <= k < s.len() ==> is_white_space(#[trigger] s[k])) && (i < j ==> !is_white_space(s[i])
                && !is_white_space(s[j - 1])),
{
    let i = lemma_leading_white_space(s);
    let t = s.skip(i);
    let j = lemma_trailing_white_space(t);
    assert(t.take(j) =~= s.subrange(i, i + j));
    assert forall|k: int| i + j <= k < s.len() implies is_white_space(#[trigger] s[k]) by {
        assert(s[k] == t[k - i]);
    }
    if j > 0 {
        assert(s[i + j - 1] == t[j - 1]);
    }
    assert(trim(s) == s.subrange(i, i + j));
}

/// Splitting a text at a separator splits it into the pieces before and
/// after that separator, and a text without the separator is one piece;
/// these two facts fix the pieces of every text.
pub proof fn lemma_split_on_separator(a: Seq<char>, sep: char, b: Seq<char>)
    ensures
        !b.contains(sep) ==> split_on(b, sep) == seq![b],
        split_on(a + seq![sep] + b, sep) == split_on(a, sep) + split_on(b, sep),
    decreases b.len(),
{
    let x = a + seq![sep] + b;
    if b.len() == 0 {
        assert(x.drop_last() =~= a);
        assert(x.last() == sep);
        assert(b =~= Seq::<char>::empty());
        assert(split_on(b, sep) =~= seq![Seq::<char>::empty()]);
        assert(split_on(x, sep) =~= split_on(a, sep) + split_on(b, sep));
    } else {
        assert(x.drop_last() =~= a + seq![sep] + b.drop_last());
        lemma_split_on_separator(a, sep, b.drop_last());
        lemma_split_on_nonempty(b.drop_last(), sep);
        lemma_split_on_nonempty(a, sep);
        assert(x.last() == b.last());
        let pa = split_on(a, sep);
        let pb = split_on(b.drop_last(), sep);
        if b.last() == sep {
            assert(split_on(x, sep) =~= pa + pb.push(Seq::<char>::empty()));
        } else {
            assert((pa + pb).update((pa + pb).len() - 1, (pa + pb).last().push(b.last())) =~= pa + pb.update(
                pb.len() - 1,
                pb.last().push(b.last()),
            ));
        }
        assert(split_on(x, sep) =~= split_on(a, sep) + split_on(b, sep));
        if !b.contains(sep) {
            assert(!b.drop_last().contains(sep)) by {
                if b.drop_last().contains(sep) {
                    let k = choose|k: int| 0 <= k < b.drop_last().len() && b.drop_last()[k] == sep;
                    assert(b[k] == sep);
                }
            }
            assert(b[b.len() - 1] != sep);
            assert(b.drop_last().push(b.last()) =~= b);
            assert(split_on(b, sep) =~= seq![b]);
        }
    }
}

/// Joining nothing gives the empty text, joining one item gives that item,
/// and joining one more item adds the separator and that item at the end.
pub proof fn lemma_join_appends(list: Seq<Seq<char>>, x: Seq<char>, sep: Seq<char>)
    ensures
        join(Seq::<Seq<char>>::empty(), sep).len() == 0,
        join(seq![x], sep) == x,
        list.len() > 0 ==> join(list.push(x), sep) == join(list, sep) + sep + x,
{
    if list.len() > 0 {
        assert(list.push(x).drop_last() =~= list);
        assert(list.push(x).last() == x);
    }
}

} // verus!
