//! Lists of names: splitting and joining them, looking one up, and keeping
//! them in order.

use vstd::prelude::*;
use vstd::string::*;

use crate::text;

verus! {

/// What stands between the occurrences of `c` in `s`, empty stretches too.
pub open spec fn pieces(s: Seq<char>, c: char) -> Seq<Seq<char>>
    decreases s.len(),
{
    match s.index_of_first(c) {
        Some(i) => if 0 <= i < s.len() {
            seq![s.take(i)] + pieces(s.skip(i + 1), c)
        } else {
            seq![s]
        },
        None => seq![s],
    }
}

/// Split `s` at every `c`.
pub fn split(s: &str, c: char) -> (r: Vec<String>)
    ensures
        text::texts(r@) == pieces(s@, c),
{
    let chars: Vec<char> = text::to_chars(s);
    let mut out: Vec<String> = Vec::new();
    let mut start: usize = 0;
    let mut i: usize = 0;
    assert(s@.skip(0) =~= s@);
    assert(text::texts(out@) + pieces(s@, c) =~= pieces(s@, c));
    while i < chars.len()
        invariant
            chars@ == s@,
            start <= i <= chars@.len(),
            forall|j: int| start <= j < i ==> s@[j] != c,
            text::texts(out@) + pieces(s@.skip(start as int), c) == pieces(s@, c),
        decreases chars@.len() - i,
    {
        if chars[i] == c {
            let ghost rest = s@.skip(start as int);
            let ghost k = i - start;
            proof {
                rest.index_of_first_ensures(c);
                assert(rest[k] == c);
                assert(rest.contains(c));
                assert(forall|j: int| 0 <= j < k ==> rest[j] == s@[start + j]);
                assert(rest.index_of_first(c) == Some(k));
            }
            let piece: String = text::text_between(&chars, start, i);
            assert(piece@ =~= rest.take(k));
            let ghost before = out@;
            out.push(piece);
            start = i + 1;
            proof {
                assert(rest.skip(k + 1) =~= s@.skip(start as int));
                assert(text::texts(out@) =~= text::texts(before).push(piece@));
                assert(text::texts(out@) + pieces(s@.skip(start as int), c) =~= text::texts(before)
                    + pieces(rest, c));
            }
        }
        i += 1;
    }
    let ghost rest = s@.skip(start as int);
    proof {
        rest.index_of_first_ensures(c);
        assert(forall|j: int| 0 <= j < rest.len() ==> rest[j] == s@[start + j]);
        assert(!rest.contains(c));
    }
    let piece: String = text::text_between(&chars, start, chars.len());
    let ghost before = out@;
    out.push(piece);
    proof {
        assert(piece@ =~= rest);
        assert(text::texts(out@) =~= text::texts(before).push(piece@));
        assert(text::texts(out@) =~= text::texts(before) + pieces(rest, c));
    }
    out
}

/// The texts one after the other, with `sep` between them.
pub open spec fn joined(parts: Seq<Seq<char>>, sep: Seq<char>) -> Seq<char>
    decreases parts.len(),
{
    if parts.len() == 0 {
        Seq::empty()
    } else if parts.len() == 1 {
        parts[0]
    } else {
        joined(parts.drop_last(), sep) + sep + parts.last()
    }
}

/// Join the texts with `sep` between them.
pub fn join(parts: &Vec<String>, sep: &str) -> (r: String)
    ensures
        r@ == joined(text::texts(parts@), sep@),
{
    let mut out: String = String::new();
    let ghost views = text::texts(parts@);
    let mut i: usize = 0;
    while i < parts.len()
        invariant
            i <= parts@.len(),
            views == text::texts(parts@),
            out@ == joined(views.take(i as int), sep@),
        decreases parts@.len() - i,
    {
        assert(views.take(i + 1).drop_last() =~= views.take(i as int));
        assert(views.take(i + 1).last() == parts@[i as int]@);
        if i > 0 {
            out.append(sep);
        }
        out.append(parts[i].as_str());
        i += 1;
        assert(out@ =~= joined(views.take(i as int), sep@));
    }
    assert(views.take(views.len() as int) =~= views);
    out
}

/// Joining from the front: the first text, then the rest behind a separator.
proof fn lemma_joined_front(parts: Seq<Seq<char>>, sep: Seq<char>)
    requires
        parts.len() >= 2,
    ensures
        joined(parts, sep) == parts[0] + sep + joined(parts.skip(1), sep),
    decreases parts.len(),
{
    let init = parts.drop_last();
    if parts.len() == 2 {
        assert(init.len() == 1 && init[0] == parts[0]);
        assert(parts.skip(1).len() == 1 && parts.skip(1)[0] == parts.last());
        assert(joined(init, sep) == parts[0]);
        assert(joined(parts.skip(1), sep) == parts.last());
    } else {
        lemma_joined_front(init, sep);
        assert(init.skip(1) =~= parts.skip(1).drop_last());
        assert(parts.skip(1).last() == parts.last());
        assert(joined(parts, sep) =~= parts[0] + sep + joined(parts.skip(1), sep));
    }
}

/// Splitting what was joined gives the texts back, as long as there is one and
/// none holds the separator.
pub proof fn law_split_undoes_join(parts: Seq<Seq<char>>, c: char)
    requires
        parts.len() > 0,
        forall|i: int| 0 <= i < parts.len() ==> !(#[trigger] parts[i]).contains(c),
    ensures
        pieces(joined(parts, seq![c]), c) == parts,
    decreases parts.len(),
{
    let whole = joined(parts, seq![c]);
    whole.index_of_first_ensures(c);
    if parts.len() == 1 {
        assert(!parts[0].contains(c));
        assert(pieces(whole, c) =~= parts);
    } else {
        let rest = parts.skip(1);
        lemma_joined_front(parts, seq![c]);
        assert forall|i: int| 0 <= i < rest.len() implies !(#[trigger] rest[i]).contains(c) by {
            assert(rest[i] == parts[i + 1]);
        }
        law_split_undoes_join(rest, c);
        let k = parts[0].len() as int;
        assert(!parts[0].contains(c));
        assert(whole[k] == c);
        assert(whole.contains(c));
        assert forall|j: int| 0 <= j < k implies whole[j] != c by {
            assert(whole[j] == parts[0][j]);
        }
        assert(whole.index_of_first(c) == Some(k));
        assert(whole.take(k) =~= parts[0]);
        assert(whole.skip(k + 1) =~= joined(rest, seq![c]));
        assert(pieces(whole, c) =~= parts);
    }
}

/// Whether a list has a text.
pub fn has(names: &Vec<String>, name: &str) -> (r: bool)
    ensures
        r == text::texts(names@).contains(name@),
{
    let ghost views = text::texts(names@);
    let mut i: usize = 0;
    while i < names.len()
        invariant
            i <= names@.len(),
            views == text::texts(names@),
            forall|j: int| 0 <= j < i ==> views[j] != name@,
        decreases names@.len() - i,
    {
        assert(views[i as int] == names@[i as int]@);
        if text::same_text(names[i].as_str(), name) {
            return true;
        }
        i += 1;
    }
    false
}

/// Copy a list of texts.
pub fn copy(names: &Vec<String>) -> (r: Vec<String>)
    ensures
        text::texts(r@) == text::texts(names@),
{
    let mut out: Vec<String> = Vec::new();
    let mut i: usize = 0;
    while i < names.len()
        invariant
            i <= names@.len(),
            out@ == names@.take(i as int),
        decreases names@.len() - i,
    {
        out.push(names[i].clone());
        i += 1;
    }
    assert(names@.take(names@.len() as int) =~= names@);
    out
}

/// Whether `a` comes before `b` in the order of their characters, or is the
/// same.
pub open spec fn at_most(a: Seq<char>, b: Seq<char>) -> bool
    decreases a.len(),
{
    if a.len() == 0 {
        true
    } else if b.len() == 0 {
        false
    } else if a[0] != b[0] {
        a[0] < b[0]
    } else {
        at_most(a.skip(1), b.skip(1))
    }
}

/// Whether a list of texts is in order.
pub open spec fn in_order(names: Seq<Seq<char>>) -> bool {
    forall|i: int, j: int| 0 <= i <= j < names.len() ==> at_most(names[i], names[j])
}

proof fn lemma_at_most_self(a: Seq<char>)
    ensures
        at_most(a, a),
    decreases a.len(),
{
    if a.len() > 0 {
        lemma_at_most_self(a.skip(1));
    }
}

proof fn lemma_at_most_total(a: Seq<char>, b: Seq<char>)
    ensures
        at_most(a, b) || at_most(b, a),
    decreases a.len(),
{
    if a.len() > 0 && b.len() > 0 && a[0] == b[0] {
        lemma_at_most_total(a.skip(1), b.skip(1));
    }
}

proof fn lemma_at_most_trans(a: Seq<char>, b: Seq<char>, c: Seq<char>)
    requires
        at_most(a, b),
        at_most(b, c),
    ensures
        at_most(a, c),
    decreases a.len(),
{
    if a.len() > 0 && a[0] == b[0] && b[0] == c[0] {
        lemma_at_most_trans(a.skip(1), b.skip(1), c.skip(1));
    }
}

/// Whether `a` comes before `b` in the order of their characters, or is the
/// same.
pub fn not_after(a: &str, b: &str) -> (r: bool)
    ensures
        r == at_most(a@, b@),
{
    let x: Vec<char> = text::to_chars(a);
    let y: Vec<char> = text::to_chars(b);
    let mut i: usize = 0;
    assert(a@.skip(0) =~= a@ && b@.skip(0) =~= b@);
    while i < x.len() && i < y.len() && x[i] == y[i]
        invariant
            x@ == a@,
            y@ == b@,
            i <= x@.len(),
            i <= y@.len(),
            at_most(a@, b@) == at_most(a@.skip(i as int), b@.skip(i as int)),
        decreases x@.len() - i,
    {
        i += 1;
        assert(a@.skip(i - 1).skip(1) =~= a@.skip(i as int));
        assert(b@.skip(i - 1).skip(1) =~= b@.skip(i as int));
    }
    if i == x.len() {
        true
    } else if i == y.len() {
        false
    } else {
        x[i] < y[i]
    }
}

/// Put a name into a list in order, behind those that come no later.
fn insert_ordered(names: &mut Vec<String>, name: String)
    requires
        in_order(text::texts(old(names)@)),
    ensures
        in_order(text::texts(final(names)@)),
        text::texts(final(names)@).to_multiset() == text::texts(old(names)@).to_multiset().insert(
            name@,
        ),
{
    let ghost views = text::texts(names@);
    let mut i: usize = names.len();
    while i > 0 && !not_after(names[i - 1].as_str(), name.as_str())
        invariant
            i <= names@.len(),
            views == text::texts(names@),
            forall|j: int| i <= j < views.len() ==> !at_most(#[trigger] views[j], name@),
        decreases i,
    {
        i -= 1;
        assert(views[i as int] == names@[i as int]@);
    }
    let ghost before = names@;
    names.insert(i, name);
    proof {
        let after = text::texts(names@);
        assert(after =~= views.insert(i as int, name@));
        assert forall|p: int, q: int| 0 <= p <= q < after.len() implies at_most(
            after[p],
            after[q],
        ) by {
            if p == q {
                lemma_at_most_self(after[p]);
            } else if q == i {
                assert(views[i - 1] == before[i - 1]@);
                lemma_at_most_trans(views[p], views[i - 1], name@);
            } else if p == i {
                lemma_at_most_total(name@, views[q - 1]);
            }
        }
        after.to_multiset_ensures();
        assert(after.remove(i as int) =~= views);
        assert(after.contains(after[i as int]));
        assert(after.to_multiset() =~= views.to_multiset().insert(name@));
    }
}

/// The names in order.
pub fn sorted(names: &Vec<String>) -> (r: Vec<String>)
    ensures
        in_order(text::texts(r@)),
        text::texts(r@).to_multiset() == text::texts(names@).to_multiset(),
{
    let mut out: Vec<String> = Vec::new();
    let ghost views = text::texts(names@);
    let mut i: usize = 0;
    assert(text::texts(out@) =~= views.take(0));
    while i < names.len()
        invariant
            i <= names@.len(),
            views == text::texts(names@),
            in_order(text::texts(out@)),
            text::texts(out@).to_multiset() == views.take(i as int).to_multiset(),
        decreases names@.len() - i,
    {
        insert_ordered(&mut out, names[i].clone());
        proof {
            views.take(i as int).to_multiset_ensures();
            assert(views.take(i + 1) =~= views.take(i as int).push(names@[i as int]@));
        }
        i += 1;
    }
    assert(views.take(views.len() as int) =~= views);
    out
}

/// Whether `names` lists the members of a set: in order, each once.
pub open spec fn lists(names: Seq<Seq<char>>, set: Set<Seq<char>>) -> bool {
    &&& in_order(names)
    &&& names.no_duplicates()
    &&& names.to_set() == set
}

proof fn lemma_at_most_antisymmetric(a: Seq<char>, b: Seq<char>)
    requires
        at_most(a, b),
        at_most(b, a),
    ensures
        a == b,
    decreases a.len(),
{
    if a.len() > 0 && b.len() > 0 {
        lemma_at_most_antisymmetric(a.skip(1), b.skip(1));
        assert(a =~= seq![a[0]] + a.skip(1));
        assert(b =~= seq![b[0]] + b.skip(1));
    } else {
        assert(a =~= b);
    }
}

/// The rest of a listing lists the set without its first name.
proof fn lemma_lists_rest(names: Seq<Seq<char>>, set: Set<Seq<char>>)
    requires
        lists(names, set),
        names.len() > 0,
    ensures
        lists(names.skip(1), set.remove(names[0])),
{
    let rest = names.skip(1);
    assert forall|i: int, j: int| 0 <= i <= j < rest.len() implies at_most(rest[i], rest[j]) by {
        assert(rest[i] == names[i + 1] && rest[j] == names[j + 1]);
    }
    assert forall|t: Seq<char>|
        rest.to_set().contains(t) == set.remove(names[0]).contains(t) by {
        if rest.contains(t) {
            let k = choose|k: int| 0 <= k < rest.len() && rest[k] == t;
            assert(names[k + 1] == t);
            assert(names.contains(t));
        }
        if set.contains(t) && t != names[0] {
            assert(names.contains(t));
            let k = choose|k: int| 0 <= k < names.len() && names[k] == t;
            assert(rest[k - 1] == t);
        }
    }
    assert(rest.to_set() =~= set.remove(names[0]));
}

/// A set is listed in one way only.
pub proof fn law_listing_is_unique(a: Seq<Seq<char>>, b: Seq<Seq<char>>, set: Set<Seq<char>>)
    requires
        lists(a, set),
        lists(b, set),
    ensures
        a == b,
    decreases a.len(),
{
    if a.len() == 0 || b.len() == 0 {
        if a.len() > 0 {
            assert(a.contains(a[0]));
            assert(b.to_set().contains(a[0]));
        }
        if b.len() > 0 {
            assert(b.contains(b[0]));
            assert(a.to_set().contains(b[0]));
        }
        assert(a =~= b);
    } else {
        assert(a.contains(a[0]) && b.contains(b[0]));
        assert(a.to_set().contains(b[0]) && b.to_set().contains(a[0]));
        let i = choose|i: int| 0 <= i < b.len() && b[i] == a[0];
        let j = choose|j: int| 0 <= j < a.len() && a[j] == b[0];
        assert(at_most(b[0], b[i]) && at_most(a[0], a[j]));
        lemma_at_most_antisymmetric(a[0], b[0]);
        lemma_lists_rest(a, set);
        lemma_lists_rest(b, set);
        law_listing_is_unique(a.skip(1), b.skip(1), set.remove(a[0]));
        assert(a =~= seq![a[0]] + a.skip(1));
        assert(b =~= seq![b[0]] + b.skip(1));
    }
}

/// Sorting a list without duplicates lists its members.
pub fn listing(names: &Vec<String>) -> (r: Vec<String>)
    requires
        text::texts(names@).no_duplicates(),
    ensures
        lists(text::texts(r@), text::texts(names@).to_set()),
{
    let r: Vec<String> = sorted(names);
    proof {
        let before = text::texts(names@);
        let after = text::texts(r@);
        before.to_multiset_ensures();
        after.to_multiset_ensures();
        before.lemma_multiset_has_no_duplicates();
        after.lemma_multiset_has_no_duplicates_conv();
        assert forall|t: Seq<char>| after.to_set().contains(t) == before.to_set().contains(t) by {
            assert(after.contains(t) <==> after.to_multiset().count(t) > 0);
            assert(before.contains(t) <==> before.to_multiset().count(t) > 0);
        }
        assert(after.to_set() =~= before.to_set());
    }
    r
}

/// Add a name to a list that has it at most once.
pub fn add_name(names: &mut Vec<String>, name: String)
    requires
        text::texts(old(names)@).no_duplicates(),
    ensures
        text::texts(final(names)@).no_duplicates(),
        text::texts(final(names)@).to_set() == text::texts(old(names)@).to_set().insert(name@),
{
    let ghost before = text::texts(names@);
    if has(names, name.as_str()) {
        assert(before.to_set() =~= before.to_set().insert(name@));
        return;
    }
    let ghost held = names@;
    names.push(name);
    proof {
        let after = text::texts(names@);
        assert(after =~= before.push(name@));
        assert forall|t: Seq<char>|
            after.to_set().contains(t) == before.to_set().insert(name@).contains(t) by {
            if before.contains(t) {
                let k = choose|k: int| 0 <= k < before.len() && before[k] == t;
                assert(after[k] == t);
            }
            assert(after[before.len() as int] == name@);
            if after.contains(t) {
                let k = choose|k: int| 0 <= k < after.len() && after[k] == t;
                if k < before.len() {
                    assert(before[k] == t);
                }
            }
        }
        assert(after.to_set() =~= before.to_set().insert(name@));
        assert forall|i: int, j: int|
            0 <= i < after.len() && 0 <= j < after.len() && i != j implies after[i] != after[j] by {
            if i == before.len() {
                assert(before.contains(before[j]));
            } else if j == before.len() {
                assert(before.contains(before[i]));
            }
        }
    }
}

/// Take a name out of a list that has it at most once.
pub fn remove_name(names: &mut Vec<String>, name: &str)
    requires
        text::texts(old(names)@).no_duplicates(),
    ensures
        text::texts(final(names)@).no_duplicates(),
        text::texts(final(names)@).to_set() == text::texts(old(names)@).to_set().remove(name@),
{
    let ghost before = text::texts(names@);
    let mut i: usize = 0;
    while i < names.len()
        invariant
            i <= names@.len(),
            before == text::texts(names@),
            *names == *old(names),
            before.no_duplicates(),
            forall|j: int| 0 <= j < i ==> before[j] != name@,
        decreases names@.len() - i,
    {
        assert(before[i as int] == names@[i as int]@);
        if text::same_text(names[i].as_str(), name) {
            let _taken: String = names.remove(i);
            proof {
                let after = text::texts(names@);
                assert(after =~= before.remove(i as int));
                assert forall|t: Seq<char>|
                    after.to_set().contains(t) == before.to_set().remove(name@).contains(t) by {
                    if after.contains(t) {
                        let k = choose|k: int| 0 <= k < after.len() && after[k] == t;
                        if k < i {
                            assert(before[k] == t);
                        } else {
                            assert(before[k + 1] == t);
                        }
                    }
                    if before.contains(t) && t != name@ {
                        let k = choose|k: int| 0 <= k < before.len() && before[k] == t;
                        if k < i {
                            assert(after[k] == t);
                        } else {
                            assert(after[k - 1] == t);
                        }
                    }
                }
                assert(after.to_set() =~= before.to_set().remove(name@));
            }
            return;
        }
        i += 1;
    }
    assert(!before.contains(name@));
    assert(before.to_set() =~= before.to_set().remove(name@));
}

/// A list is cut at every separator: what stands before the first is the first
/// piece, and the rest is cut on its own.
pub proof fn law_first_piece_first(a: Seq<char>, b: Seq<char>, c: char)
    requires
        !a.contains(c),
    ensures
        pieces(a.push(c) + b, c) == seq![a] + pieces(b, c),
        pieces(a, c) == seq![a],
{
    let s = a.push(c) + b;
    text::law_cut_at_the_first(a, b, c);
    s.index_of_first_ensures(c);
    a.index_of_first_ensures(c);
    let i = s.index_of_first(c).unwrap();
    assert(s.take(i) == a && s.skip(i + 1) == b);
}

/// A list is put together with the separator between its parts and nowhere
/// else.
pub proof fn law_separator_stands_between(
    parts: Seq<Seq<char>>,
    part: Seq<char>,
    sep: Seq<char>,
)
    requires
        parts.len() > 0,
    ensures
        joined(seq![part], sep) == part,
        joined(parts.push(part), sep) == joined(parts, sep) + sep + part,
{
    assert(parts.push(part).drop_last() =~= parts);
}

/// Names are in the order of their first difference; of two that have none, the
/// shorter comes first.
pub proof fn law_first_difference_decides(
    common: Seq<char>,
    x: char,
    y: char,
    a: Seq<char>,
    b: Seq<char>,
)
    requires
        x < y,
    ensures
        at_most(common.push(x) + a, common.push(y) + b),
        !at_most(common.push(y) + b, common.push(x) + a),
        at_most(common, common.push(x) + a),
        !at_most(common.push(x) + a, common),
    decreases common.len(),
{
    let p = common.push(x) + a;
    let q = common.push(y) + b;
    if common.len() > 0 {
        let rest = common.skip(1);
        assert(p.skip(1) =~= rest.push(x) + a);
        assert(q.skip(1) =~= rest.push(y) + b);
        assert(p[0] == common[0] && q[0] == common[0]);
        law_first_difference_decides(rest, x, y, a, b);
    } else {
        assert(p[0] == x && q[0] == y);
    }
}

/// A listing has the members of its set, each once, from the lowest name up.
pub proof fn law_listing_is_sorted(names: Seq<Seq<char>>, set: Set<Seq<char>>, i: int, j: int)
    requires
        lists(names, set),
    ensures
        0 <= i < names.len() ==> set.contains(names[i]),
        0 <= i < j < names.len() ==> at_most(names[i], names[j]) && names[i] != names[j]
            && !at_most(names[j], names[i]),
        forall|name: Seq<char>| set.contains(name) ==> names.contains(name),
{
    if 0 <= i < names.len() {
        assert(names.to_set().contains(names[i]));
    }
    if 0 <= i < j < names.len() && at_most(names[j], names[i]) {
        lemma_at_most_antisymmetric(names[i], names[j]);
    }
    assert forall|name: Seq<char>| set.contains(name) implies names.contains(name) by {
        assert(names.to_set().contains(name));
    }
}

} // verus!
