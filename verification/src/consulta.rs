//! The list of tokens that the user follows: how it is written to and read
//! back from its file, and how it is reconciled with the tokens that the
//! database already holds.

use vstd::prelude::*;
use crate::text::{join, join_texts, split_on, split_text, texts, trim, trimmed};

verus! {

/// The tokens that the user chose to follow.
#[derive(Debug, Clone)]
pub struct ConsultaCrypto {
    pub crypto_list: Vec<String>,
}

/// The tokens that one line of the token file names: the pieces between
/// commas, each without surrounding white space.
pub open spec fn token_line(line: Seq<char>) -> Seq<Seq<char>> {
    split_on(line, ',').map_values(|p: Seq<char>| trim(p))
}

/// The tokens that a whole token file names: those of its last line, or
/// none when it has no line.
pub open spec fn tokens_of_lines(lines: Seq<Seq<char>>) -> Seq<Seq<char>> {
    if lines.len() == 0 {
        Seq::<Seq<char>>::empty()
    } else {
        token_line(lines.last())
    }
}

/// The text with which the token file stores `list`: the tokens joined by
/// commas.
pub open spec fn file_text(list: Seq<Seq<char>>) -> Seq<char> {
    join(list, seq![','])
}

/// Reads the tokens of one line of the token file.
pub fn parse_token_line(line: &str) -> (r: Vec<String>)
    ensures
        texts(r@) == token_line(line@),
{
    let pieces = split_text(line, ',');
    let mut out: Vec<String> = Vec::new();
    let n = pieces.len();
    let mut i: usize = 0;
    while i < n
        invariant
            n == pieces@.len(),
            i <= n,
            texts(pieces@) == split_on(line@, ','),
            texts(out@) == split_on(line@, ',').take(i as int).map_values(|p: Seq<char>| trim(p)),
        decreases n - i,
    {
        let ghost before = texts(out@);
        let t = trimmed(pieces[i].as_str());
        out.push(t);
        assert(texts(out@) =~= before.push(trim(split_on(line@, ',')[i as int])));
        assert(split_on(line@, ',').take(i as int + 1) =~= split_on(line@, ',').take(i as int).push(split_on(line@, ',')[i as int]));
        i = i + 1;
        assert(texts(out@) =~= split_on(line@, ',').take(i as int).map_values(|p: Seq<char>| trim(p)));
    }
    assert(split_on(line@, ',').take(n as int) =~= split_on(line@, ','));
    out
}

/// Reads the token list from the lines of its file. Each line replaces what
/// the lines before it gave, so the last line decides; a file without lines
/// gives an empty list.
pub fn tokens_from_lines(lines: &Vec<String>) -> (r: Vec<String>)
    ensures
        texts(r@) == tokens_of_lines(texts(lines@)),
{
    let mut tokens: Vec<String> = Vec::new();
    let n = lines.len();
    let mut i: usize = 0;
    while i < n
        invariant
            n == lines@.len(),
            i <= n,
            texts(tokens@) == tokens_of_lines(texts(lines@).take(i as int)),
        decreases n - i,
    {
        tokens = parse_token_line(lines[i].as_str());
        i = i + 1;
        assert(texts(lines@).take(i as int).last() == lines@[i - 1]@);
    }
    assert(texts(lines@).take(n as int) =~= texts(lines@));
    tokens
}

impl ConsultaCrypto {
    /// The text that the token file holds for this list.
    pub fn to_file_text(&self) -> (r: String)
        ensures
            r@ == file_text(texts(self.crypto_list@)),
    {
        proof {
            reveal_strlit(",");
            assert(","@ =~= seq![',']);
        }
        join_texts(&self.crypto_list, ",")
    }
}

proof fn lemma_split_without_sep(b: Seq<char>, sep: char)
    requires
        !b.contains(sep),
    ensures
        split_on(b, sep) == seq![b],
    decreases b.len(),
{
    if b.len() > 0 {
        assert(b.drop_last().len() < b.len());
        assert(!b.drop_last().contains(sep)) by {
            if b.drop_last().contains(sep) {
                let k = choose|k: int| 0 <= k < b.drop_last().len() && b.drop_last()[k] == sep;
                assert(b[k] == sep);
            }
        }
        lemma_split_without_sep(b.drop_last(), sep);
        assert(b[b.len() - 1] != sep);
        assert(b.drop_last().push(b.last()) =~= b);
        assert(split_on(b, sep) =~= seq![b]);
    } else {
        assert(b =~= Seq::<char>::empty());
    }
}

proof fn lemma_split_after_sep(a: Seq<char>, b: Seq<char>, sep: char)
    requires
        !b.contains(sep),
    ensures
        split_on(a + seq![sep] + b, sep) == split_on(a, sep).push(b),
    decreases b.len(),
{
    if b.len() == 0 {
        let x = a + seq![sep] + b;
        assert(x.drop_last() =~= a);
        assert(x.last() == sep);
        assert(b =~= Seq::<char>::empty());
        assert(split_on(x, sep) == split_on(x.drop_last(), sep).push(Seq::<char>::empty()));
    } else {
        let x = a + seq![sep] + b;
        assert(x.drop_last() =~= a + seq![sep] + b.drop_last());
        assert(!b.drop_last().contains(sep)) by {
            if b.drop_last().contains(sep) {
                let k = choose|k: int| 0 <= k < b.drop_last().len() && b.drop_last()[k] == sep;
                assert(b[k] == sep);
            }
        }
        lemma_split_after_sep(a, b.drop_last(), sep);
        assert(x.last() == b.last());
        assert(b[b.len() - 1] != sep);
        assert(b.drop_last().push(b.last()) =~= b);
        assert(split_on(x, sep) =~= split_on(a, sep).push(b));
    }
}

proof fn lemma_split_of_join(list: Seq<Seq<char>>)
    requires
        list.len() > 0,
        forall|i: int| 0 <= i < list.len() ==> !(#[trigger] list[i]).contains(','),
    ensures
        split_on(join(list, seq![',']), ',') == list,
    decreases list.len(),
{
    if list.len() == 1 {
        lemma_split_without_sep(list[0], ',');
        assert(list =~= seq![list[0]]);
    } else {
        let front = list.drop_last();
        assert forall|i: int| 0 <= i < front.len() implies !(#[trigger] front[i]).contains(',') by {
            assert(front[i] == list[i]);
        }
        lemma_split_of_join(front);
        assert(!list.last().contains(','));
        lemma_split_after_sep(join(front, seq![',']), list.last(), ',');
        assert(front.push(list.last()) =~= list);
    }
}

/// Reading back what was saved gives the saved list: when every token is
/// non-empty, free of commas and line breaks and carries no surrounding
/// white space, the file text of a non-empty list is one non-empty line
/// whose tokens are the list again, and the file text of an empty list is
/// empty (a file without lines, which reads as the empty list).
pub proof fn lemma_saved_list_reads_back(list: Seq<Seq<char>>)
    requires
        forall|i: int|
            0 <= i < list.len() ==> {
                &&& (#[trigger] list[i]).len() > 0
                &&& !list[i].contains(',')
                &&& !list[i].contains('\n')
                &&& trim(list[i]) == list[i]
            },
    ensures
        list.len() == 0 ==> file_text(list).len() == 0 && tokens_of_lines(Seq::empty()) == list,
        list.len() > 0 ==> file_text(list).len() > 0,
        list.len() > 0 ==> !file_text(list).contains('\n'),
        list.len() > 0 ==> tokens_of_lines(seq![file_text(list)]) == list,
{
    if list.len() > 0 {
        assert(list[list.len() - 1].len() > 0);
        assert(file_text(list).len() >= list.last().len());
        lemma_split_of_join(list);
        assert(token_line(file_text(list)) =~= list);
        assert(seq![file_text(list)].last() == file_text(list));
        lemma_join_free_of(list, seq![','], '\n');
    } else {
        assert(tokens_of_lines(Seq::empty()) =~= list);
    }
}

/// A character that neither the items nor the separator hold is not in the
/// joined text.
pub proof fn lemma_join_free_of(list: Seq<Seq<char>>, sep: Seq<char>, c: char)
    requires
        !sep.contains(c),
        forall|i: int| 0 <= i < list.len() ==> !(#[trigger] list[i]).contains(c),
    ensures
        !join(list, sep).contains(c),
    decreases list.len(),
{
    if list.len() > 1 {
        let front = list.drop_last();
        assert forall|i: int| 0 <= i < front.len() implies !(#[trigger] front[i]).contains(c) by {
            assert(front[i] == list[i]);
        }
        lemma_join_free_of(front, sep, c);
        let j = join(list, sep);
        let a = join(front, sep);
        assert(!list.last().contains(c));
        if j.contains(c) {
            let k = choose|k: int| 0 <= k < j.len() && j[k] == c;
            if k < a.len() {
                assert(a[k] == c);
            } else if k < a.len() + sep.len() {
                assert(sep[k - a.len()] == c);
            } else {
                assert(list.last()[k - a.len() - sep.len()] == c);
            }
        }
    } else if list.len() == 1 {
        assert(!list[0].contains(c));
    }
}


/// The tokens of `existing` that `keep` does not name, in their order.
pub open spec fn not_kept(existing: Seq<Seq<char>>, keep: Seq<Seq<char>>) -> Seq<Seq<char>>
    decreases existing.len(),
{
    if existing.len() == 0 {
        Seq::<Seq<char>>::empty()
    } else {
        let r = not_kept(existing.drop_last(), keep);
        if keep.contains(existing.last()) {
            r
        } else {
            r.push(existing.last())
        }
    }
}

/// The tokens that registering `names` one after the other adds to a
/// database that already holds `known`: each name is trimmed, and it is
/// added unless the database holds it by then.
pub open spec fn register_plan(names: Seq<Seq<char>>, known: Seq<Seq<char>>) -> Seq<Seq<char>>
    decreases names.len(),
{
    if names.len() == 0 {
        Seq::<Seq<char>>::empty()
    } else {
        let p = register_plan(names.drop_last(), known);
        let t = trim(names.last());
        if known.contains(t) || p.contains(t) {
            p
        } else {
            p.push(t)
        }
    }
}

/// Tells whether `list` holds a string equal to `t`.
pub fn contains_text(list: &Vec<String>, t: &String) -> (r: bool)
    ensures
        r == texts(list@).contains(t@),
{
    let n = list.len();
    let mut i: usize = 0;
    while i < n
        invariant
            n == list@.len(),
            i <= n,
            forall|j: int| 0 <= j < i ==> list@[j]@ != t@,
        decreases n - i,
    {
        if list[i] == *t {
            assert(texts(list@)[i as int] == t@);
            return true;
        }
        i = i + 1;
    }
    proof {
        if texts(list@).contains(t@) {
            let k = choose|k: int| 0 <= k < texts(list@).len() && texts(list@)[k] == t@;
            assert(list@[k]@ == t@);
        }
    }
    false
}

/// The tokens of the database that the followed list does not name any
/// more, and that are therefore removed from it.
pub fn tokens_to_delete(existing: &Vec<String>, consulta: &ConsultaCrypto) -> (r: Vec<String>)
    ensures
        texts(r@) == not_kept(texts(existing@), texts(consulta.crypto_list@)),
{
    let mut out: Vec<String> = Vec::new();
    let n = existing.len();
    let mut i: usize = 0;
    while i < n
        invariant
            n == existing@.len(),
            i <= n,
            texts(out@) == not_kept(texts(existing@).take(i as int), texts(consulta.crypto_list@)),
        decreases n - i,
    {
        assert(texts(existing@).take(i as int + 1).drop_last() =~= texts(existing@).take(i as int));
        assert(texts(existing@).take(i as int + 1).last() == existing@[i as int]@);
        let ghost before = texts(out@);
        if !contains_text(&consulta.crypto_list, &existing[i]) {
            out.push(existing[i].clone());
            assert(texts(out@) =~= before.push(existing@[i as int]@));
        }
        i = i + 1;
    }
    assert(texts(existing@).take(n as int) =~= texts(existing@));
    out
}

/// The tokens that registering the followed list adds to a database that
/// holds `existing`: the trimmed names that it does not hold yet, each once,
/// in the order of the list.
pub fn tokens_to_register(consulta: &ConsultaCrypto, existing: &Vec<String>) -> (r: Vec<String>)
    ensures
        texts(r@) == register_plan(texts(consulta.crypto_list@), texts(existing@)),
{
    let names = &consulta.crypto_list;
    let mut plan: Vec<String> = Vec::new();
    let n = names.len();
    let mut i: usize = 0;
    while i < n
        invariant
            n == names@.len(),
            i <= n,
            texts(plan@) == register_plan(texts(names@).take(i as int), texts(existing@)),
        decreases n - i,
    {
        assert(texts(names@).take(i as int + 1).drop_last() =~= texts(names@).take(i as int));
        assert(texts(names@).take(i as int + 1).last() == names@[i as int]@);
        let ghost before = texts(plan@);
        let t = trimmed(names[i].as_str());
        if !contains_text(existing, &t) && !contains_text(&plan, &t) {
            plan.push(t);
            assert(texts(plan@) =~= before.push(trim(names@[i as int]@)));
        }
        i = i + 1;
    }
    assert(texts(names@).take(n as int) =~= texts(names@));
    plan
}

/// Removal takes exactly the tokens that the database holds and the
/// followed list does not name.
pub proof fn lemma_deleted_tokens(existing: Seq<Seq<char>>, keep: Seq<Seq<char>>, t: Seq<char>)
    ensures
        not_kept(existing, keep).contains(t) <==> (existing.contains(t) && !keep.contains(t)),
    decreases existing.len(),
{
    if existing.len() > 0 {
        let front = existing.drop_last();
        let l = existing.last();
        lemma_deleted_tokens(front, keep, t);
        lemma_push_contains(front, l, t);
        assert(front.push(l) =~= existing);
        let r = not_kept(front, keep);
        lemma_push_contains(r, l, t);
    } else {
        assert(not_kept(existing, keep) =~= Seq::<Seq<char>>::empty());
    }
}

proof fn lemma_push_contains(s: Seq<Seq<char>>, x: Seq<char>, y: Seq<char>)
    ensures
        s.push(x).contains(y) <==> (s.contains(y) || x == y),
{
    if s.contains(y) {
        let k = choose|k: int| 0 <= k < s.len() && s[k] == y;
        assert(s.push(x)[k] == y);
    }
    if x == y {
        assert(s.push(x)[s.len() as int] == y);
    }
    if s.push(x).contains(y) {
        let k = choose|k: int| 0 <= k < s.push(x).len() && s.push(x)[k] == y;
        if k < s.len() {
            assert(s[k] == y);
        }
    }
}

/// Registration adds no token twice, none that the database already holds,
/// only trimmed names of the list, and afterwards the database holds every
/// trimmed name of the list.
pub proof fn lemma_register_plan(names: Seq<Seq<char>>, known: Seq<Seq<char>>)
    ensures
        forall|i: int, j: int|
            0 <= i < j < register_plan(names, known).len() ==> register_plan(names, known)[i]
                != register_plan(names, known)[j],
        forall|i: int|
            0 <= i < register_plan(names, known).len() ==> !known.contains(
                #[trigger] register_plan(names, known)[i],
            ),
        forall|i: int|
            0 <= i < register_plan(names, known).len() ==> exists|j: int|
                0 <= j < names.len() && #[trigger] register_plan(names, known)[i] == trim(names[j]),
        forall|i: int|
            0 <= i < names.len() ==> known.contains(trim(#[trigger] names[i])) || register_plan(
                names,
                known,
            ).contains(trim(names[i])),
    decreases names.len(),
{
    if names.len() > 0 {
        let front = names.drop_last();
        lemma_register_plan(front, known);
        let p = register_plan(front, known);
        let t = trim(names.last());
        let q = register_plan(names, known);
        assert forall|i: int| 0 <= i < q.len() implies exists|j: int|
            0 <= j < names.len() && #[trigger] q[i] == trim(names[j]) by {
            if i < p.len() {
                let j = choose|j: int| 0 <= j < front.len() && p[i] == trim(front[j]);
                assert(names[j] == front[j]);
            } else {
                assert(q[i] == trim(names[names.len() - 1]));
            }
        }
        assert forall|i: int| 0 <= i < names.len() implies known.contains(trim(#[trigger] names[i]))
            || q.contains(trim(names[i])) by {
            if i < names.len() - 1 {
                assert(names[i] == front[i]);
                if p.contains(trim(front[i])) {
                    let k = choose|k: int| 0 <= k < p.len() && p[k] == trim(front[i]);
                    assert(q[k] == p[k]);
                }
            } else if !known.contains(t) && !p.contains(t) {
                assert(q[p.len() as int] == t);
            }
        }
        if !known.contains(t) && !p.contains(t) {
            assert forall|i: int, j: int| 0 <= i < j < q.len() implies q[i] != q[j] by {
                if j == p.len() {
                    assert(q[i] == p[i]);
                }
            }
        }
    }
}

/// Registering the same list again, once the first registration is in the
/// database, adds nothing: the refresh that repeats it is idempotent.
pub proof fn lemma_register_again_adds_nothing(names: Seq<Seq<char>>, known: Seq<Seq<char>>)
    ensures
        register_plan(names, known + register_plan(names, known)).len() == 0,
{
    lemma_register_plan(names, known);
    let all = known + register_plan(names, known);
    assert forall|i: int| 0 <= i < names.len() implies all.contains(trim(#[trigger] names[i])) by {
        if known.contains(trim(names[i])) {
            let k = choose|k: int| 0 <= k < known.len() && known[k] == trim(names[i]);
            assert(all[k] == known[k]);
        } else {
            let p = register_plan(names, known);
            let k = choose|k: int| 0 <= k < p.len() && p[k] == trim(names[i]);
            assert(all[known.len() + k] == p[k]);
        }
    }
    lemma_register_nothing_new(names, all);
}

proof fn lemma_register_nothing_new(names: Seq<Seq<char>>, known: Seq<Seq<char>>)
    requires
        forall|i: int| 0 <= i < names.len() ==> known.contains(trim(#[trigger] names[i])),
    ensures
        register_plan(names, known).len() == 0,
    decreases names.len(),
{
    if names.len() > 0 {
        let front = names.drop_last();
        assert forall|i: int| 0 <= i < front.len() implies known.contains(trim(#[trigger] front[i])) by {
            assert(front[i] == names[i]);
        }
        lemma_register_nothing_new(front, known);
        assert(known.contains(trim(names[names.len() - 1])));
    }
}


/// A file without lines names no token, and adding a line to a file makes
/// the tokens of that line the file's tokens, whatever came before.
pub proof fn lemma_last_line_decides(lines: Seq<Seq<char>>, line: Seq<char>)
    ensures
        tokens_of_lines(Seq::<Seq<char>>::empty()).len() == 0,
        tokens_of_lines(lines.push(line)) == split_on(line, ',').map_values(|p: Seq<char>| trim(p)),
{
    assert(lines.push(line).last() == line);
}

} // verus!
