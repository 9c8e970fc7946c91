//! Lexical handling of POSIX paths.
//!
//! A path is read as text: an optional leading slash and the elements between
//! slashes. Nothing here looks at a file system.
use vstd::prelude::*;

use crate::text::{chars_of, join2, join3, same_text, text_of, texts};

verus! {

/// The element that names the parent directory.
pub open spec fn parent_element() -> Seq<char> {
    seq!['.', '.']
}

/// Whether a path starts at the root.
pub open spec fn is_absolute(p: Seq<char>) -> bool {
    p.len() > 0 && p[0] == '/'
}

/// The texts between the slashes of a path, empty ones among them.
pub open spec fn pieces(p: Seq<char>) -> Seq<Seq<char>>
    decreases p.len(),
{
    if p.len() == 0 {
        seq![Seq::empty()]
    } else {
        let front = pieces(p.drop_last());
        if p.last() == '/' {
            front.push(Seq::empty())
        } else {
            front.drop_last().push(front.last().push(p.last()))
        }
    }
}

/// Whether a piece says where the path leads: not empty, and not the current
/// directory.
pub open spec fn is_element(piece: Seq<char>) -> bool {
    piece.len() > 0 && piece != seq!['.']
}

/// `is_element` as a predicate value.
pub open spec fn element_test() -> spec_fn(Seq<char>) -> bool {
    |piece: Seq<char>| is_element(piece)
}

/// Whether each of `es` can stand between two slashes as an element.
pub open spec fn proper(es: Seq<Seq<char>>) -> bool {
    forall|i: int|
        0 <= i < es.len() ==> is_element(#[trigger] es[i]) && !es[i].contains('/')
}

/// The elements of a path, from the left.
pub open spec fn elements(p: Seq<char>) -> Seq<Seq<char>> {
    pieces(p).filter(element_test())
}

/// What comes before the elements: the root of an absolute path, or the
/// current directory where the text starts with it.
pub open spec fn anchor(p: Seq<char>) -> Seq<Seq<char>> {
    if is_absolute(p) {
        seq![seq!['/']]
    } else if pieces(p)[0] == seq!['.'] {
        seq![seq!['.']]
    } else {
        seq![]
    }
}

/// The components of a path: its anchor and its elements.
pub open spec fn components(p: Seq<char>) -> Seq<Seq<char>> {
    anchor(p) + elements(p)
}

/// Whether `p` is `base` or lies below it, component by component.
pub open spec fn is_under(p: Seq<char>, base: Seq<char>) -> bool {
    components(base).is_prefix_of(components(p))
}

/// One more element on a path in normal form: a parent element takes the name
/// in front of it away, disappears at the root, and stays where nothing is
/// left to take.
pub open spec fn settle(rooted: bool, kept: Seq<Seq<char>>, element: Seq<char>) -> Seq<Seq<char>> {
    if element != parent_element() {
        kept.push(element)
    } else if kept.len() > 0 && kept.last() != parent_element() {
        kept.drop_last()
    } else if kept.len() == 0 && rooted {
        kept
    } else {
        kept.push(element)
    }
}

/// The elements of a path in normal form.
pub open spec fn settled(rooted: bool, es: Seq<Seq<char>>) -> Seq<Seq<char>>
    decreases es.len(),
{
    if es.len() == 0 {
        seq![]
    } else {
        settle(rooted, settled(rooted, es.drop_last()), es.last())
    }
}

/// Elements with a slash between each two.
pub open spec fn slashed(es: Seq<Seq<char>>) -> Seq<char>
    decreases es.len(),
{
    if es.len() == 0 {
        seq![]
    } else if es.len() == 1 {
        es[0]
    } else {
        slashed(es.drop_last()) + seq!['/'] + es.last()
    }
}

/// The text of a path with the given elements.
pub open spec fn path_text(rooted: bool, es: Seq<Seq<char>>) -> Seq<char> {
    if rooted {
        seq!['/'] + slashed(es)
    } else {
        slashed(es)
    }
}

/// The shortest path that leads where `p` does, found without looking at the
/// file system.
pub open spec fn clean(p: Seq<char>) -> Seq<char> {
    let es = settled(is_absolute(p), elements(p));
    if !is_absolute(p) && es.len() == 0 {
        seq!['.']
    } else {
        path_text(is_absolute(p), es)
    }
}

/// `rest` taken from the directory `base`; an absolute `rest` stands alone.
pub open spec fn joined(base: Seq<char>, rest: Seq<char>) -> Seq<char> {
    if is_absolute(rest) {
        rest
    } else if base.len() == 0 || base.last() == '/' {
        base + rest
    } else {
        base + seq!['/'] + rest
    }
}

/// The last element of a path, where it is a name.
pub open spec fn file_name(p: Seq<char>) -> Option<Seq<char>> {
    let es = elements(p);
    if es.len() == 0 || es.last() == parent_element() {
        None
    } else {
        Some(es.last())
    }
}

/// The shortest start of a path that has all its components: the text up to
/// the end of the last one.
pub open spec fn trimmed(p: Seq<char>) -> Seq<char>
    decreases p.len(),
{
    if p.len() > 0 && components(p.drop_last()) == components(p) {
        trimmed(p.drop_last())
    } else {
        p
    }
}

/// The longest end of a path that has the given components.
pub open spec fn end_with(p: Seq<char>, cs: Seq<Seq<char>>) -> Seq<char>
    decreases p.len(),
{
    if p.len() == 0 || components(p) == cs {
        p
    } else {
        end_with(p.skip(1), cs)
    }
}

/// The path without its last component, as it is spelled up to the end of the
/// one before; nothing for the root and the empty path.
pub open spec fn parent(p: Seq<char>) -> Option<Seq<char>> {
    let whole = trimmed(p);
    if whole.len() == 0 || whole == seq!['/'] {
        None
    } else {
        Some(trimmed(whole.take(last_index_of(whole, '/') + 1)))
    }
}

/// Where the last `c` of `s` stands, or -1.
pub open spec fn last_index_of(s: Seq<char>, c: char) -> int
    decreases s.len(),
{
    if s.len() == 0 {
        -1
    } else if s.last() == c {
        s.len() - 1
    } else {
        last_index_of(s.drop_last(), c)
    }
}

/// The part of the file name behind its last dot. A name without a dot has
/// none, and neither has one whose only dot is its first character.
pub open spec fn extension(p: Seq<char>) -> Option<Seq<char>> {
    match file_name(p) {
        None => None,
        Some(name) => {
            let dot = last_index_of(name, '.');
            if dot <= 0 {
                None
            } else {
                Some(name.skip(dot + 1))
            }
        },
    }
}

/// `path` as seen from `root`, where it is `root` or lies below it: its text
/// from the first component that `root` does not have to the end of the last
/// one. Else `path` itself.
pub open spec fn seen_from(root: Seq<char>, path: Seq<char>) -> Seq<char> {
    if is_under(path, root) {
        trimmed(end_with(path, components(path).skip(components(root).len() as int)))
    } else {
        path
    }
}

/// There is always a piece, and no piece holds a slash.
proof fn lemma_pieces_shape(p: Seq<char>)
    ensures
        pieces(p).len() > 0,
        forall|i: int| 0 <= i < pieces(p).len() ==> !(#[trigger] pieces(p)[i]).contains('/'),
    decreases p.len(),
{
    if p.len() > 0 {
        let front = pieces(p.drop_last());
        lemma_pieces_shape(p.drop_last());
        assert forall|i: int| 0 <= i < pieces(p).len() implies !(#[trigger] pieces(
            p,
        )[i]).contains('/') by {
            if p.last() != '/' && i == pieces(p).len() - 1 {
                let last = front.last();
                assert(!front[front.len() - 1].contains('/'));
                assert forall|j: int| 0 <= j < last.push(p.last()).len() implies last.push(
                    p.last(),
                )[j] != '/' by {
                    if j < last.len() {
                        assert(last.contains(last[j]));
                    }
                }
            } else if i < front.len() {
                assert(pieces(p)[i] == front[i]);
            }
        }
    }
}

/// A text without a slash is one piece.
pub proof fn lemma_pieces_of_name(name: Seq<char>)
    requires
        !name.contains('/'),
    ensures
        pieces(name) == seq![name],
    decreases name.len(),
{
    if name.len() > 0 {
        assert(name[name.len() - 1] != '/') by {
            assert(name.contains(name[name.len() - 1]));
        }
        assert forall|j: int| 0 <= j < name.drop_last().len() implies name.drop_last()[j]
            != '/' by {
            assert(name.contains(name[j]));
        }
        lemma_pieces_of_name(name.drop_last());
        assert(pieces(name) =~= seq![name.drop_last().push(name.last())]);
        assert(name.drop_last().push(name.last()) =~= name);
    } else {
        assert(name =~= Seq::empty());
    }
}

/// A slash parts the pieces on its two sides.
proof fn lemma_pieces_concat(a: Seq<char>, b: Seq<char>)
    ensures
        pieces(a + seq!['/'] + b) == pieces(a) + pieces(b),
    decreases b.len(),
{
    let whole = a + seq!['/'] + b;
    if b.len() == 0 {
        assert(whole.drop_last() =~= a);
        assert(pieces(b) == seq![Seq::<char>::empty()]);
        assert(pieces(whole) =~= pieces(a) + pieces(b));
    } else {
        lemma_pieces_concat(a, b.drop_last());
        lemma_pieces_shape(b.drop_last());
        assert(whole.drop_last() =~= a + seq!['/'] + b.drop_last());
        assert(whole.last() == b.last());
        assert(pieces(whole) =~= pieces(a) + pieces(b));
    }
}

/// Elements are not empty, hold no slash, and are not the current directory.
pub proof fn lemma_elements_shape(p: Seq<char>)
    ensures
        proper(elements(p)),
{
    let all = pieces(p);
    let test = element_test();
    lemma_pieces_shape(p);
    assert forall|i: int| 0 <= i < elements(p).len() implies is_element(#[trigger] elements(p)[i])
        && !elements(p)[i].contains('/') by {
        all.lemma_filter_pred(test, i);
        assert(all.filter(test).contains(all.filter(test)[i]));
        all.lemma_filter_contains_rev(test, elements(p)[i]);
        let k = choose|k: int| 0 <= k < all.len() && all[k] == elements(p)[i];
        assert(!all[k].contains('/'));
    }
}

/// A slash parts the elements on its two sides.
proof fn lemma_elements_concat(a: Seq<char>, b: Seq<char>)
    ensures
        elements(a + seq!['/'] + b) == elements(a) + elements(b),
{
    lemma_pieces_concat(a, b);
    Seq::filter_distributes_over_add(pieces(a), pieces(b), element_test());
}

/// The first piece of a path is fixed by what stands in front of its first
/// slash.
proof fn lemma_first_piece(a: Seq<char>, b: Seq<char>)
    ensures
        pieces(a + seq!['/'] + b)[0] == pieces(a)[0],
{
    lemma_pieces_concat(a, b);
    lemma_pieces_shape(a);
}

/// The one-element list passes the filter as it is.
proof fn lemma_filter_single(name: Seq<char>)
    requires
        is_element(name),
    ensures
        seq![name].filter(element_test()) == seq![name],
{
    let one = seq![name];
    reveal_with_fuel(Seq::filter, 2);
    assert(one.drop_last() =~= Seq::empty());
    assert(element_test()(one.last()));
    assert(one.filter(element_test()) =~= one);
}

/// The list of one empty text has no elements.
proof fn lemma_filter_empty_piece()
    ensures
        seq![Seq::<char>::empty()].filter(element_test()) == Seq::<Seq<char>>::empty(),
{
    let one = seq![Seq::<char>::empty()];
    reveal_with_fuel(Seq::filter, 2);
    assert(one.drop_last() =~= Seq::empty());
    assert(!element_test()(one.last()));
    assert(one.filter(element_test()) =~= Seq::empty());
}

/// A path taken from a directory has the directory's elements and then its
/// own.
pub proof fn lemma_elements_joined(base: Seq<char>, rest: Seq<char>)
    requires
        !is_absolute(rest),
    ensures
        elements(joined(base, rest)) == elements(base) + elements(rest),
        base.len() > 0 ==> anchor(joined(base, rest)) == anchor(base),
{
    if base.len() == 0 {
        assert(base + rest =~= rest);
        assert(base =~= Seq::<char>::empty());
        lemma_filter_empty_piece();
        assert(elements(base) =~= Seq::empty());
        assert(elements(base) + elements(rest) =~= elements(rest));
    } else if base.last() == '/' {
        let b = base.drop_last();
        assert(base =~= b + seq!['/'] + Seq::<char>::empty());
        assert(base + rest =~= b + seq!['/'] + rest);
        lemma_elements_concat(b, rest);
        lemma_elements_concat(b, Seq::empty());
        lemma_filter_empty_piece();
        assert(elements(Seq::<char>::empty()) =~= Seq::empty());
        assert(elements(base) =~= elements(b));
        lemma_first_piece(b, rest);
        lemma_first_piece(b, Seq::empty());
        assert((base + rest)[0] == base[0]);
    } else {
        lemma_elements_concat(base, rest);
        lemma_first_piece(base, rest);
        assert((base + seq!['/'] + rest)[0] == base[0]);
    }
}

/// A name taken from a directory is one more component.
pub proof fn lemma_components_joined_name(base: Seq<char>, name: Seq<char>)
    requires
        is_element(name),
        !name.contains('/'),
    ensures
        components(joined(base, name)) == components(base).push(name),
        !is_absolute(name),
        elements(name) == seq![name],
        joined(base, name).len() > 0,
        joined(base, name).last() != '/',
{
    assert(name.contains(name[0]));
    assert(name.contains(name[name.len() - 1]));
    lemma_pieces_of_name(name);
    lemma_filter_single(name);
    lemma_elements_joined(base, name);
    if base.len() == 0 {
        assert(base + name =~= name);
        assert(base =~= Seq::<char>::empty());
        assert(anchor(base) =~= Seq::empty());
        assert(anchor(name) =~= Seq::empty());
    }
    assert(components(joined(base, name)) =~= components(base).push(name));
}

/// Joining proper elements by slashes keeps them apart.
proof fn lemma_pieces_of_slashed(es: Seq<Seq<char>>)
    requires
        proper(es),
        es.len() > 0,
    ensures
        pieces(slashed(es)) == es,
        slashed(es).len() > 0,
        slashed(es)[0] != '/',
    decreases es.len(),
{
    if es.len() == 1 {
        let name = es[0];
        assert(name.contains(name[0]));
        lemma_pieces_of_name(name);
        assert(seq![name] =~= es);
    } else {
        let front = es.drop_last();
        assert forall|i: int| 0 <= i < front.len() implies is_element(#[trigger] front[i])
            && !front[i].contains('/') by {
            assert(front[i] == es[i]);
        }
        lemma_pieces_of_slashed(front);
        lemma_pieces_concat(slashed(front), es.last());
        assert(es[es.len() - 1] == es.last());
        lemma_pieces_of_name(es.last());
        assert(pieces(slashed(es)) =~= front + seq![es.last()]);
        assert(front + seq![es.last()] =~= es);
    }
}

/// The filter keeps a list of proper elements as it is.
proof fn lemma_filter_proper(es: Seq<Seq<char>>)
    requires
        proper(es),
    ensures
        es.filter(element_test()) == es,
    decreases es.len(),
{
    reveal(Seq::filter);
    if es.len() > 0 {
        let front = es.drop_last();
        assert forall|i: int| 0 <= i < front.len() implies is_element(#[trigger] front[i])
            && !front[i].contains('/') by {
            assert(front[i] == es[i]);
        }
        lemma_filter_proper(front);
        assert(is_element(es[es.len() - 1]));
        assert(element_test()(es.last()));
        assert(es.filter(element_test()) =~= front.push(es.last()));
        assert(front.push(es.last()) =~= es);
    } else {
        assert(es.filter(element_test()) =~= es);
    }
}

/// The text of a path gives its elements back.
pub proof fn lemma_elements_of_path_text(rooted: bool, es: Seq<Seq<char>>)
    requires
        proper(es),
    ensures
        elements(path_text(rooted, es)) == es,
        is_absolute(path_text(rooted, es)) == rooted,
        components(path_text(rooted, es)) == (if rooted {
            seq![seq!['/']] + es
        } else {
            es
        }),
{
    let body = slashed(es);
    lemma_filter_proper(es);
    lemma_filter_empty_piece();
    if es.len() > 0 {
        lemma_pieces_of_slashed(es);
    } else {
        assert(es =~= Seq::empty());
    }
    assert(elements(body) =~= es);
    if rooted {
        assert(seq!['/'] + body =~= Seq::<char>::empty() + seq!['/'] + body);
        lemma_elements_concat(Seq::empty(), body);
        assert(elements(Seq::<char>::empty()) =~= Seq::empty());
        assert(elements(path_text(rooted, es)) =~= es);
    } else if es.len() > 0 {
        assert(is_element(es[0]));
        assert(anchor(body) =~= Seq::empty());
        assert(components(body) =~= es);
    } else {
        assert(components(body) =~= es);
    }
}

/// Where a parent element is left in a normal form, nothing but parent
/// elements stand in front of it; in a rooted one none is left at all.
pub proof fn lemma_settled_shape(rooted: bool, es: Seq<Seq<char>>)
    ensures
        proper(es) ==> proper(settled(rooted, es)),
        forall|i: int, j: int|
            #![trigger settled(rooted, es)[i], settled(rooted, es)[j]]
            0 <= i <= j < settled(rooted, es).len() && settled(rooted, es)[j] == parent_element()
                ==> settled(rooted, es)[i] == parent_element(),
        rooted ==> forall|i: int|
            0 <= i < settled(rooted, es).len() ==> #[trigger] settled(rooted, es)[i]
                != parent_element(),
    decreases es.len(),
{
    if es.len() > 0 {
        let front = es.drop_last();
        let kept = settled(rooted, front);
        lemma_settled_shape(rooted, front);
        if proper(es) {
            assert forall|i: int| 0 <= i < front.len() implies is_element(#[trigger] front[i])
                && !front[i].contains('/') by {
                assert(front[i] == es[i]);
            }
            assert(is_element(es[es.len() - 1]));
        }
        let now = settled(rooted, es);
        assert forall|i: int, j: int|
            #![trigger now[i], now[j]]
            0 <= i <= j < now.len() && now[j] == parent_element() implies now[i]
            == parent_element() by {
            if j < kept.len() {
                assert(kept[j] == now[j]);
                assert(kept[i] == now[i]);
            } else if i < kept.len() {
                assert(kept[kept.len() - 1] == parent_element());
                assert(kept[i] == now[i]);
            }
        }
        if rooted {
            assert forall|i: int| 0 <= i < now.len() implies #[trigger] now[i]
                != parent_element() by {
                if i < kept.len() {
                    assert(kept[i] == now[i]);
                } else if kept.len() > 0 {
                    assert(kept[kept.len() - 1] != parent_element());
                }
            }
        }
    }
}

/// A list without parent elements is its own normal form.
pub proof fn lemma_settled_plain(rooted: bool, es: Seq<Seq<char>>)
    requires
        forall|i: int| 0 <= i < es.len() ==> #[trigger] es[i] != parent_element(),
    ensures
        settled(rooted, es) == es,
    decreases es.len(),
{
    if es.len() > 0 {
        let front = es.drop_last();
        assert forall|i: int| 0 <= i < front.len() implies #[trigger] front[i]
            != parent_element() by {
            assert(front[i] == es[i]);
        }
        lemma_settled_plain(rooted, front);
        assert(es[es.len() - 1] != parent_element());
        assert(front.push(es.last()) =~= es);
    }
}

/// How many parent elements a list starts with.
pub open spec fn climb(es: Seq<Seq<char>>) -> nat
    decreases es.len(),
{
    if es.len() == 0 || es[0] != parent_element() {
        0
    } else {
        1 + climb(es.skip(1))
    }
}

/// What `climb` counts: parent elements only, and no more behind them.
proof fn lemma_climb(es: Seq<Seq<char>>)
    ensures
        climb(es) <= es.len(),
        forall|i: int| 0 <= i < climb(es) ==> #[trigger] es[i] == parent_element(),
        climb(es) < es.len() ==> es[climb(es) as int] != parent_element(),
    decreases es.len(),
{
    if es.len() > 0 && es[0] == parent_element() {
        let rest = es.skip(1);
        lemma_climb(rest);
        assert forall|i: int| 0 <= i < climb(es) implies #[trigger] es[i] == parent_element() by {
            if i > 0 {
                assert(rest[i - 1] == es[i]);
            }
        }
        if climb(es) < es.len() {
            assert(es[climb(es) as int] == rest[climb(rest) as int]);
        }
    }
}

/// `climb` is the one number with that property.
proof fn lemma_climb_is(es: Seq<Seq<char>>, k: nat)
    requires
        k <= es.len(),
        forall|i: int| 0 <= i < k ==> #[trigger] es[i] == parent_element(),
        k < es.len() ==> es[k as int] != parent_element(),
    ensures
        climb(es) == k,
{
    lemma_climb(es);
    if climb(es) < k {
        assert(es[climb(es) as int] == parent_element());
    } else if climb(es) > k {
        assert(es[k as int] == parent_element());
    }
}

/// Behind names in front of it, a list settles by first taking as many of
/// them away as it climbs.
pub proof fn lemma_settled_climbing(names: Seq<Seq<char>>, es: Seq<Seq<char>>)
    requires
        forall|i: int| 0 <= i < names.len() ==> #[trigger] names[i] != parent_element(),
    ensures
        ({
            let own = settled(false, es);
            let k = climb(own);
            let left = if k > names.len() {
                0
            } else {
                names.len() - k
            };
            settled(true, names + es) == names.take(left) + own.skip(k as int)
        }),
    decreases es.len(),
{
    let own = settled(false, es);
    if es.len() == 0 {
        assert(names + es =~= names);
        lemma_settled_plain(true, names);
        assert(names.take(names.len() as int) + own.skip(0) =~= names);
    } else {
        let front = es.drop_last();
        let kept = settled(false, front);
        let k = climb(kept);
        let left = if k > names.len() {
            0
        } else {
            names.len() - k
        };
        lemma_settled_climbing(names, front);
        lemma_settled_shape(false, front);
        lemma_climb(kept);
        assert((names + es).drop_last() =~= names + front);
        assert((names + es).last() == es.last());
        let whole = names.take(left) + kept.skip(k as int);
        if es.last() != parent_element() {
            assert(own == kept.push(es.last()));
            assert forall|i: int| 0 <= i < k implies #[trigger] own[i] == parent_element() by {
                assert(own[i] == kept[i]);
            }
            lemma_climb_is(own, k);
            assert(whole.push(es.last()) =~= names.take(left) + own.skip(k as int));
        } else if k == kept.len() {
            if kept.len() > 0 {
                assert(kept[kept.len() - 1] == parent_element());
            }
            assert(own == kept.push(es.last()));
            assert forall|i: int| 0 <= i < k + 1 implies #[trigger] own[i] == parent_element() by {
                if i < k {
                    assert(own[i] == kept[i]);
                }
            }
            lemma_climb_is(own, k + 1);
            assert(whole =~= names.take(left));
            if left > 0 {
                assert(whole.last() == names[left - 1]);
                assert(whole.drop_last() =~= names.take(left - 1));
            }
            assert(own.skip((k + 1) as int) =~= Seq::empty());
            let next = if k + 1 > names.len() {
                0
            } else {
                names.len() - (k + 1)
            };
            assert(names.take(next) + own.skip((k + 1) as int) =~= names.take(next));
        } else {
            if kept.last() == parent_element() {
                assert(kept[kept.len() - 1] == parent_element());
                assert(kept[k as int] == parent_element());
            }
            assert(own == kept.drop_last());
            assert forall|i: int| 0 <= i < k implies #[trigger] own[i] == parent_element() by {
                assert(own[i] == kept[i]);
            }
            if k < own.len() {
                assert(own[k as int] == kept[k as int]);
            }
            lemma_climb_is(own, k);
            assert(whole.last() == kept.last());
            assert(whole.drop_last() =~= names.take(left) + own.skip(k as int));
        }
    }
}

/// The first piece is the current directory where the text says so: a dot
/// with nothing, or a slash, behind it.
proof fn lemma_first_piece_is_dot(p: Seq<char>)
    ensures
        (pieces(p)[0] == seq!['.']) == (p.len() > 0 && p[0] == '.' && (p.len() == 1 || p[1]
            == '/')),
{
    p.index_of_first_ensures('/');
    match p.index_of_first('/') {
        Some(k) => {
            let head = p.take(k);
            let tail = p.skip(k + 1);
            assert(p =~= head + seq!['/'] + tail);
            lemma_first_piece(head, tail);
            assert(!head.contains('/'));
            lemma_pieces_of_name(head);
            if p[0] == '.' && p.len() > 1 && p[1] == '/' {
                assert(k == 1);
                assert(head =~= seq!['.']);
            }
            if head == seq!['.'] {
                assert(head.len() == 1);
                assert(p[0] == head[0]);
            }
        },
        None => {
            lemma_pieces_of_name(p);
            if p.len() == 1 && p[0] == '.' {
                assert(p =~= seq!['.']);
            }
            if p.len() > 1 {
                assert(p.contains(p[1]));
            }
        },
    }
}

/// A text without a slash is an element or none at all.
proof fn lemma_elements_of_name(name: Seq<char>)
    requires
        !name.contains('/'),
    ensures
        elements(name) == (if is_element(name) {
            seq![name]
        } else {
            Seq::<Seq<char>>::empty()
        }),
{
    lemma_pieces_of_name(name);
    let one = seq![name];
    reveal_with_fuel(Seq::filter, 2);
    assert(one.drop_last() =~= Seq::empty());
    assert(element_test()(one.last()) == is_element(name));
    assert(one.filter(element_test()) =~= elements(name));
}

/// What stands in front of a slash decides on the anchor.
proof fn lemma_anchor_concat(a: Seq<char>, x: Seq<char>, y: Seq<char>)
    ensures
        anchor(a + seq!['/'] + x) == anchor(a + seq!['/'] + y),
{
    lemma_first_piece(a, x);
    lemma_first_piece(a, y);
    assert((a + seq!['/'] + x)[0] == (a + seq!['/'] + y)[0]);
}

/// A slash at the end adds no component, but for the root.
proof fn lemma_last_slash_adds_nothing(p: Seq<char>)
    requires
        p.len() > 1,
        p.last() == '/',
    ensures
        components(p.drop_last()) == components(p),
{
    let q = p.drop_last();
    assert(p =~= q + seq!['/'] + Seq::<char>::empty());
    lemma_elements_concat(q, Seq::empty());
    lemma_elements_of_name(Seq::empty());
    lemma_first_piece(q, Seq::empty());
    assert(p[0] == q[0]);
    assert(elements(p) =~= elements(q));
}

/// A dot behind a slash at the end adds no component.
proof fn lemma_last_dot_adds_nothing(p: Seq<char>)
    requires
        p.len() > 1,
        p.last() == '.',
        p[p.len() - 2] == '/',
    ensures
        components(p.drop_last()) == components(p),
{
    let a = p.take(p.len() - 2);
    let dot = seq!['.'];
    assert(p =~= a + seq!['/'] + dot);
    assert(p.drop_last() =~= a + seq!['/'] + Seq::<char>::empty());
    assert(!dot.contains('/'));
    lemma_elements_concat(a, dot);
    lemma_elements_concat(a, Seq::empty());
    lemma_elements_of_name(dot);
    lemma_elements_of_name(Seq::empty());
    lemma_anchor_concat(a, dot, Seq::empty());
}

/// Where the last of a character stands.
proof fn lemma_last_index_of(s: Seq<char>, c: char)
    ensures
        -1 <= last_index_of(s, c) < s.len(),
        last_index_of(s, c) >= 0 ==> s[last_index_of(s, c)] == c,
        !s.skip(last_index_of(s, c) + 1).contains(c),
    decreases s.len(),
{
    let k = last_index_of(s, c);
    if s.len() > 0 && s.last() != c {
        let front = s.drop_last();
        lemma_last_index_of(front, c);
        let tail = s.skip(k + 1);
        if tail.contains(c) {
            let i = choose|i: int| 0 <= i < tail.len() && tail[i] == c;
            assert(front.skip(k + 1)[i] == c);
        }
    }
}

/// A path is what stands in front of its last slash, the slash, and a text
/// without one.
proof fn lemma_cut_at_last_slash(p: Seq<char>)
    ensures
        ({
            let k = last_index_of(p, '/');
            &&& -1 <= k < p.len()
            &&& !p.skip(k + 1).contains('/')
            &&& k >= 0 ==> p == p.take(k) + seq!['/'] + p.skip(k + 1)
            &&& k >= 0 ==> p.take(k + 1) == p.take(k) + seq!['/'] + Seq::<char>::empty()
            &&& k < 0 ==> p.skip(k + 1) == p
        }),
{
    lemma_last_index_of(p, '/');
    let k = last_index_of(p, '/');
    if k >= 0 {
        assert(p =~= p.take(k) + seq!['/'] + p.skip(k + 1));
        assert(p.take(k + 1) =~= p.take(k) + seq!['/'] + Seq::<char>::empty());
    } else {
        assert(p.skip(0) =~= p);
    }
}

/// A text without a slash is one component.
pub proof fn lemma_components_of_name(name: Seq<char>)
    requires
        !name.contains('/'),
    ensures
        components(name) == (if name.len() == 0 {
            Seq::<Seq<char>>::empty()
        } else {
            seq![name]
        }),
{
    lemma_pieces_of_name(name);
    lemma_elements_of_name(name);
    if name.len() > 0 {
        assert(name.contains(name[0]));
        assert(components(name) =~= seq![name]);
    } else {
        assert(components(name) =~= Seq::empty());
    }
}

/// Any other last character counts: without it the path has other components.
proof fn lemma_last_character_counts(p: Seq<char>)
    requires
        p.len() > 0,
        p.len() > 1 ==> p.last() != '/' && !(p.last() == '.' && p[p.len() - 2] == '/'),
    ensures
        components(p.drop_last()) != components(p),
{
    let q = p.drop_last();
    lemma_cut_at_last_slash(p);
    let k = last_index_of(p, '/');
    let name = p.skip(k + 1);
    let shorter = name.drop_last();
    if name.len() > 0 {
        assert(!shorter.contains('/')) by {
            if shorter.contains('/') {
                let i = choose|i: int| 0 <= i < shorter.len() && shorter[i] == '/';
                assert(name[i] == '/');
            }
        }
    }
    if k < 0 {
        lemma_components_of_name(p);
        assert(shorter =~= q);
        lemma_components_of_name(q);
        if q.len() > 0 {
            assert(components(q)[0].len() != components(p)[0].len());
        }
    } else if name.len() == 0 {
        assert(p[k] == '/');
        assert(p.len() == 1);
        lemma_components_of_name(q);
        assert(components(p)[0] == seq!['/']);
    } else {
        let a = p.take(k);
        assert(name != seq!['.']) by {
            if name == seq!['.'] {
                assert(name.len() == 1);
                assert(p.last() == name[0]);
            }
        }
        assert(q =~= a + seq!['/'] + shorter);
        lemma_elements_concat(a, name);
        lemma_elements_concat(a, shorter);
        lemma_elements_of_name(name);
        lemma_elements_of_name(shorter);
        lemma_anchor_concat(a, name, shorter);
        if components(q) == components(p) {
            assert(components(p).last() == name);
            assert(elements(q).len() == elements(p).len());
            assert(components(q).last() == shorter);
        }
    }
}

/// The characters of some texts, counted together.
spec fn total_len(es: Seq<Seq<char>>) -> nat
    decreases es.len(),
{
    if es.len() == 0 {
        0
    } else {
        total_len(es.drop_last()) + es.last().len()
    }
}

/// Characters of two lists add up.
proof fn lemma_total_len_concat(a: Seq<Seq<char>>, b: Seq<Seq<char>>)
    ensures
        total_len(a + b) == total_len(a) + total_len(b),
    decreases b.len(),
{
    if b.len() == 0 {
        assert(a + b =~= a);
    } else {
        lemma_total_len_concat(a, b.drop_last());
        assert((a + b).drop_last() =~= a + b.drop_last());
    }
}

/// The elements that a text without a slash holds have as many characters as it
/// has, or none.
proof fn lemma_total_len_of_name(name: Seq<char>)
    requires
        !name.contains('/'),
    ensures
        total_len(elements(name)) == (if is_element(name) {
            name.len()
        } else {
            0
        }),
{
    lemma_elements_of_name(name);
    if is_element(name) {
        reveal_with_fuel(total_len, 2);
        assert(elements(name).drop_last() =~= Seq::empty());
    }
}

/// Without its first character a path has no more characters in its elements,
/// and fewer where it starts with one.
proof fn lemma_first_character_counts(p: Seq<char>)
    requires
        p.len() > 0,
    ensures
        total_len(elements(p.skip(1))) <= total_len(elements(p)),
        anchor(p).len() == 0 ==> total_len(elements(p.skip(1))) < total_len(elements(p)),
{
    p.index_of_first_ensures('/');
    lemma_first_piece_is_dot(p);
    let k = match p.index_of_first('/') {
        Some(k) => k,
        None => p.len() as int,
    };
    let head = p.take(k);
    assert(!head.contains('/'));
    lemma_total_len_of_name(head);
    if k == 0 {
        assert(p =~= head + seq!['/'] + p.skip(1));
        lemma_elements_concat(head, p.skip(1));
        lemma_total_len_concat(elements(head), elements(p.skip(1)));
    } else {
        let less = head.skip(1);
        assert(!less.contains('/')) by {
            if less.contains('/') {
                let i = choose|i: int| 0 <= i < less.len() && less[i] == '/';
                assert(head[i + 1] == '/');
            }
        }
        lemma_total_len_of_name(less);
        if anchor(p).len() == 0 {
            assert(head[0] == p[0]);
            if head == seq!['.'] {
                assert(head.len() == 1);
            }
        }
        if head == seq!['.'] {
            assert(head.len() == 1);
        }
        if k < p.len() {
            let tail = p.skip(k + 1);
            assert(p =~= head + seq!['/'] + tail);
            assert(p.skip(1) =~= less + seq!['/'] + tail);
            lemma_elements_concat(head, tail);
            lemma_elements_concat(less, tail);
            lemma_total_len_concat(elements(head), elements(tail));
            lemma_total_len_concat(elements(less), elements(tail));
        } else {
            assert(p =~= head);
            assert(p.skip(1) =~= less);
        }
    }
}

/// Without its first characters a path has no more characters in its elements.
proof fn lemma_first_characters_count(p: Seq<char>, n: int)
    requires
        0 <= n <= p.len(),
    ensures
        total_len(elements(p.skip(n))) <= total_len(elements(p)),
    decreases n,
{
    if n == 0 {
        assert(p.skip(0) =~= p);
    } else {
        lemma_first_character_counts(p);
        lemma_first_characters_count(p.skip(1), n - 1);
        assert(p.skip(1).skip(n - 1) =~= p.skip(n));
    }
}

/// An end of a path that starts with an element is the only one with its
/// components.
proof fn lemma_end_with(p: Seq<char>, at: int, cs: Seq<Seq<char>>)
    requires
        0 <= at <= p.len(),
        anchor(p.skip(at)).len() == 0,
        elements(p.skip(at)) == cs,
    ensures
        end_with(p, cs) == p.skip(at),
    decreases at,
{
    assert(components(p.skip(at)) =~= cs);
    if at == 0 {
        assert(p.skip(0) =~= p);
    } else {
        assert(p.skip(1).skip(at - 1) =~= p.skip(at));
        if components(p) == cs {
            lemma_elements_shape(p.skip(at));
            if anchor(p).len() > 0 {
                assert(components(p)[0] == anchor(p)[0]);
                assert(is_element(cs[0]) && !cs[0].contains('/'));
                assert(anchor(p)[0] == seq!['/'] ==> cs[0][0] == '/');
            }
            assert(elements(p) =~= cs);
            lemma_first_character_counts(p);
            lemma_first_characters_count(p.skip(1), at - 1);
        }
        lemma_end_with(p.skip(1), at - 1, cs);
    }
}

/// Behind the anchor stand the elements.
proof fn lemma_elements_behind_anchor(p: Seq<char>)
    requires
        anchor(p).len() > 0,
    ensures
        p.len() > 0,
        anchor(p).len() == 1,
        elements(p.skip(1)) == elements(p),
{
    lemma_first_piece_is_dot(p);
    let empty = Seq::<char>::empty();
    lemma_elements_of_name(empty);
    if is_absolute(p) {
        assert(p =~= empty + seq!['/'] + p.skip(1));
        lemma_elements_concat(empty, p.skip(1));
        assert(elements(p) =~= elements(p.skip(1)));
    } else {
        let dot = seq!['.'];
        assert(!dot.contains('/'));
        lemma_elements_of_name(dot);
        if p.len() == 1 {
            assert(p =~= dot);
            assert(p.skip(1) =~= empty);
        } else {
            let tail = p.skip(2);
            assert(p =~= dot + seq!['/'] + tail);
            assert(p.skip(1) =~= empty + seq!['/'] + tail);
            lemma_elements_concat(dot, tail);
            lemma_elements_concat(empty, tail);
        }
    }
}

/// Trimming keeps the components, and what is left cannot be trimmed.
proof fn lemma_trimmed(p: Seq<char>)
    ensures
        components(trimmed(p)) == components(p),
        trimmed(p).is_prefix_of(p),
        trimmed(p).len() > 0 ==> components(trimmed(p).drop_last()) != components(p),
    decreases p.len(),
{
    if p.len() > 0 && components(p.drop_last()) == components(p) {
        lemma_trimmed(p.drop_last());
    }
    assert(trimmed(p) =~= p.subrange(0, trimmed(p).len() as int));
}

/// Where the last component of a path is cut off that cannot be trimmed, the
/// others are left.
proof fn lemma_cut_last_component(p: Seq<char>)
    requires
        p.len() > 0,
        p != seq!['/'],
        components(p.drop_last()) != components(p),
    ensures
        components(p.take(last_index_of(p, '/') + 1)) == components(p).drop_last(),
        components(p).len() > 0,
        components(p).last() != seq!['/'],
        -1 <= last_index_of(p, '/') < p.len(),
{
    lemma_cut_at_last_slash(p);
    let k = last_index_of(p, '/');
    let name = p.skip(k + 1);
    let front = p.take(k + 1);
    let none = Seq::<char>::empty();
    if p.len() > 1 && p.last() == '/' {
        lemma_last_slash_adds_nothing(p);
    } else if p.len() > 1 && p.last() == '.' && p[p.len() - 2] == '/' {
        lemma_last_dot_adds_nothing(p);
    }
    assert(name.len() > 0) by {
        if name.len() == 0 {
            assert(p.last() == p[k]);
            assert(p =~= seq!['/']);
        }
    }
    assert(name != seq!['/']) by {
        assert(name.contains(name[0]));
    }
    lemma_components_of_name(none);
    if k < 0 {
        lemma_components_of_name(p);
        assert(front =~= none);
        assert(components(p).drop_last() =~= Seq::empty());
    } else {
        let a = p.take(k);
        assert(name != seq!['.']) by {
            if name == seq!['.'] {
                assert(name.len() == 1 && name[0] == '.');
                assert(p.last() == name[0]);
            }
        }
        lemma_elements_concat(a, name);
        lemma_elements_concat(a, none);
        lemma_elements_of_name(name);
        lemma_elements_of_name(none);
        lemma_anchor_concat(a, name, none);
        assert(components(p) =~= components(front).push(name));
        assert(components(p).drop_last() =~= components(front));
    }
}

/// The root has nothing but itself for a component.
proof fn lemma_components_of_root()
    ensures
        components(seq!['/']) == seq![seq!['/']],
{
    let none = Seq::<char>::empty();
    assert(seq!['/'] =~= none + seq!['/'] + none);
    lemma_elements_concat(none, none);
    lemma_elements_of_name(none);
    assert(components(seq!['/']) =~= seq![seq!['/']]);
}

/// Every path but the root and the empty one has a parent: a start of its text
/// that has all of its components but the last.
pub proof fn law_parent_has_all_but_the_last_component(p: Seq<char>)
    ensures
        parent(p) is None <==> p.len() == 0 || components(p) == seq![seq!['/']],
        parent(p) matches Some(up) ==> components(up) == components(p).drop_last()
            && up.is_prefix_of(p),
{
    let whole = trimmed(p);
    lemma_trimmed(p);
    lemma_components_of_root();
    if whole.len() == 0 {
        lemma_components_of_name(whole);
        if p.len() > 0 {
            lemma_nonempty_has_components(p);
        }
    } else if whole != seq!['/'] {
        lemma_cut_last_component(whole);
        let front = whole.take(last_index_of(whole, '/') + 1);
        lemma_trimmed(front);
        assert(seq![seq!['/']].last() == seq!['/']);
        assert(trimmed(front) =~= p.subrange(0, trimmed(front).len() as int));
    }
}

/// A path that is not empty has a component.
proof fn lemma_nonempty_has_components(p: Seq<char>)
    requires
        p.len() > 0,
    ensures
        components(p).len() > 0,
{
    if anchor(p).len() == 0 {
        lemma_first_character_counts(p);
    }
}

/// A path that is not empty starts with a piece that is an element or none, and
/// goes on behind it.
proof fn lemma_behind_first_piece(p: Seq<char>) -> (r: (Seq<char>, int))
    requires
        p.len() > 0,
    ensures
        0 < r.1 <= p.len(),
        elements(p) == (if is_element(r.0) {
            seq![r.0]
        } else {
            Seq::<Seq<char>>::empty()
        }) + elements(p.skip(r.1)),
        is_element(r.0) ==> anchor(p).len() == 0,
{
    p.index_of_first_ensures('/');
    let k = match p.index_of_first('/') {
        Some(k) => k,
        None => p.len() as int,
    };
    let head = p.take(k);
    assert(!head.contains('/'));
    lemma_elements_of_name(head);
    lemma_pieces_of_name(head);
    if is_element(head) {
        assert(head[0] == p[0]);
        assert(head.contains(head[0]));
    }
    if k < p.len() {
        let tail = p.skip(k + 1);
        assert(p =~= head + seq!['/'] + tail);
        lemma_elements_concat(head, tail);
        lemma_first_piece(head, tail);
        (head, k + 1)
    } else {
        let tail = p.skip(k);
        assert(p =~= head);
        assert(tail =~= Seq::empty());
        lemma_elements_of_name(tail);
        assert(elements(head) + elements(tail) =~= elements(head));
        (head, k)
    }
}

/// Behind any number of elements there is a place where the rest starts.
proof fn lemma_rest_of_elements(p: Seq<char>, n: int) -> (at: int)
    requires
        0 <= n <= elements(p).len(),
    ensures
        0 <= at <= p.len(),
        anchor(p.skip(at)).len() == 0,
        elements(p.skip(at)) == elements(p).skip(n),
    decreases p.len(),
{
    assert(p.skip(0) =~= p);
    if p.len() == 0 {
        lemma_components_of_name(p);
        assert(elements(p).skip(n) =~= elements(p));
        0
    } else {
        let (head, from) = lemma_behind_first_piece(p);
        let tail = p.skip(from);
        if is_element(head) && n == 0 {
            assert(elements(p).skip(0) =~= elements(p));
            0
        } else {
            let m: int = if is_element(head) {
                n - 1
            } else {
                n
            };
            let at = lemma_rest_of_elements(tail, m);
            assert(tail.skip(at) =~= p.skip(from + at));
            assert(elements(tail).skip(m) =~= elements(p).skip(n));
            from + at
        }
    }
}

/// What is seen of a path from a directory above it has the components that the
/// directory has not, and taken from there it leads back to the path.
pub proof fn law_seen_path_leads_back(root: Seq<char>, path: Seq<char>)
    requires
        root.len() > 0,
        is_under(path, root),
    ensures
        components(seen_from(root, path)) == components(path).skip(components(root).len() as int),
        components(joined(root, seen_from(root, path))) == components(path),
{
    lemma_nonempty_has_components(root);
    let above = components(root);
    let all = components(path);
    let left = all.skip(above.len() as int);
    assert(above[0] == all[0]) by {
        assert(all.subrange(0, above.len() as int)[0] == all[0]);
    }
    let n = above.len() - anchor(path).len();
    assert(left =~= elements(path).skip(n));
    let at = lemma_rest_of_elements(path, n);
    lemma_end_with(path, at, left);
    let rest = path.skip(at);
    assert(components(rest) =~= left);
    lemma_trimmed(rest);
    let seen = trimmed(rest);
    lemma_elements_shape(path);
    assert(anchor(seen).len() == 0) by {
        if anchor(seen).len() > 0 {
            assert(components(seen)[0] == anchor(seen)[0]);
            assert(components(seen)[0] == elements(path)[n]);
            assert(is_element(elements(path)[n]) && !elements(path)[n].contains('/'));
            assert(anchor(seen)[0] == seq!['/'] ==> elements(path)[n][0] == '/');
        }
    }
    assert(elements(seen) =~= left);
    lemma_elements_joined(root, seen);
    assert(components(joined(root, seen)) =~= above + left);
    assert(above + left =~= all);
}

/// Whether a path starts at the root.
pub fn starts_at_root(path: &str) -> (rooted: bool)
    ensures
        rooted == is_absolute(path@),
{
    let len: usize = path.unicode_len();
    len > 0 && path.get_char(0) == '/'
}

/// The elements of a path.
pub fn elements_of(path: &str) -> (es: Vec<String>)
    ensures
        texts(es@) == elements(path@),
{
    let mut out: Vec<String> = Vec::new();
    let mut piece = String::new();
    proof {
        assert(path@.take(0) =~= Seq::empty());
        assert(pieces(path@.take(0)) == seq![Seq::<char>::empty()]);
        assert(seq![Seq::<char>::empty()].drop_last() =~= Seq::empty());
        reveal(Seq::filter);
        assert(texts(out@) =~= pieces(path@.take(0)).drop_last().filter(element_test()));
    }
    for c in it: path.chars()
        invariant
            it.seq() == path@,
            piece@ == pieces(path@.take(it.index())).last(),
            texts(out@) == pieces(path@.take(it.index())).drop_last().filter(element_test()),
    {
        let ghost before = path@.take(it.index());
        let ghost now = path@.take(it.index() + 1);
        proof {
            reveal(Seq::filter);
            lemma_pieces_shape(before);
            assert(now.drop_last() =~= before);
            assert(now.last() == c);
        }
        if c == '/' {
            let ghost kept = texts(out@);
            assert(pieces(now).drop_last() =~= pieces(before));
            assert(pieces(now).last() =~= Seq::<char>::empty());
            if !piece.as_str().is_empty() && !same_text(piece.as_str(), ".") {
                proof {
                    reveal_strlit(".");
                    assert("."@ =~= seq!['.']);
                    assert(element_test()(piece@));
                }
                let ghost held = piece@;
                out.push(piece);
                assert(texts(out@) =~= kept.push(held));
            } else {
                proof {
                    reveal_strlit(".");
                    assert("."@ =~= seq!['.']);
                    assert(!element_test()(piece@));
                }
            }
            piece = String::new();
        } else {
            piece.push(c);
            assert(pieces(now).drop_last() =~= pieces(before).drop_last());
        }
    }
    proof {
        assert(path@.take(path@.len() as int) =~= path@);
        reveal(Seq::filter);
        lemma_pieces_shape(path@);
        reveal_strlit(".");
        assert("."@ =~= seq!['.']);
    }
    let ghost kept = texts(out@);
    if !piece.as_str().is_empty() && !same_text(piece.as_str(), ".") {
        let ghost held = piece@;
        out.push(piece);
        assert(texts(out@) =~= kept.push(held));
        assert(element_test()(held));
    } else {
        assert(!element_test()(piece@));
    }
    out
}

/// The components of a path.
pub fn components_of(path: &str) -> (cs: Vec<String>)
    ensures
        texts(cs@) == components(path@),
{
    let mut out: Vec<String> = Vec::new();
    let len: usize = path.unicode_len();
    proof {
        lemma_first_piece_is_dot(path@);
        reveal_strlit("/");
        reveal_strlit(".");
        assert("/"@ =~= seq!['/']);
        assert("."@ =~= seq!['.']);
    }
    if len > 0 && path.get_char(0) == '/' {
        out.push("/".to_string());
    } else if len > 0 && path.get_char(0) == '.' && (len == 1 || path.get_char(1) == '/') {
        out.push(".".to_string());
    }
    assert(texts(out@) =~= anchor(path@));
    let mut es = elements_of(path);
    let ghost head = out@;
    let ghost tail = es@;
    out.append(&mut es);
    assert(texts(head + tail) =~= texts(head) + texts(tail));
    out
}

/// Whether `path` is `base` or lies below it.
pub fn is_below(path: &str, base: &str) -> (below: bool)
    ensures
        below == is_under(path@, base@),
{
    let ps = components_of(path);
    let bs = components_of(base);
    let ghost full = components(path@);
    let ghost part = components(base@);
    assert(full.len() == ps@.len() && part.len() == bs@.len());
    if bs.len() > ps.len() {
        return false;
    }
    let mut i: usize = 0;
    while i < bs.len()
        invariant
            i <= bs@.len(),
            bs@.len() <= ps@.len(),
            full == texts(ps@),
            part == texts(bs@),
            full == components(path@),
            part == components(base@),
            forall|k: int| 0 <= k < i ==> part[k] == full[k],
        decreases bs@.len() - i,
    {
        if !same_text(bs[i].as_str(), ps[i].as_str()) {
            assert(part[i as int] != full[i as int]);
            assert(part[i as int] != full.subrange(0, part.len() as int)[i as int]);
            return false;
        }
        assert(part[i as int] == full[i as int]);
        i = i + 1;
    }
    assert(part =~= full.subrange(0, part.len() as int));
    true
}

/// `rest` taken from the directory `base`.
pub fn join_path(base: &str, rest: &str) -> (path: String)
    ensures
        path@ == joined(base@, rest@),
{
    let len: usize = base.unicode_len();
    if starts_at_root(rest) {
        rest.to_string()
    } else if len == 0 || base.get_char(len - 1) == '/' {
        join2(base, rest)
    } else {
        proof {
            reveal_strlit("/");
            assert("/"@ =~= seq!['/']);
        }
        join3(base, "/", rest)
    }
}

/// The last element of a path, where it is a name.
pub fn file_name_of(path: &str) -> (name: Option<String>)
    ensures
        match name {
            Some(n) => file_name(path@) == Some(n@),
            None => file_name(path@) is None,
        },
{
    let mut es = elements_of(path);
    let ghost all = es@;
    match es.pop() {
        None => None,
        Some(last) => {
            proof {
                reveal_strlit("..");
                assert(".."@ =~= parent_element());
                assert(elements(path@).last() == last@);
            }
            if same_text(last.as_str(), "..") {
                None
            } else {
                Some(last)
            }
        },
    }
}

/// Where the shortest start of a path ends that has all its components.
fn trim_end(path: &[char]) -> (end: usize)
    ensures
        end <= path@.len(),
        path@.take(end as int) == trimmed(path@),
{
    let mut end: usize = path.len();
    assert(path@.take(end as int) =~= path@);
    while end > 1 && (path[end - 1] == '/' || (path[end - 1] == '.' && path[end - 2] == '/'))
        invariant
            end <= path@.len(),
            trimmed(path@.take(end as int)) == trimmed(path@),
        decreases end,
    {
        let ghost now = path@.take(end as int);
        proof {
            if now.last() == '/' {
                lemma_last_slash_adds_nothing(now);
            } else {
                lemma_last_dot_adds_nothing(now);
            }
            assert(now.drop_last() =~= path@.take(end - 1));
        }
        end = end - 1;
    }
    proof {
        if end > 0 {
            lemma_last_character_counts(path@.take(end as int));
        }
    }
    end
}

/// The path without its last component.
pub fn parent_of(path: &str) -> (up: Option<String>)
    ensures
        match up {
            Some(u) => parent(path@) == Some(u@),
            None => parent(path@) is None,
        },
{
    let chars: Vec<char> = chars_of(path);
    let end: usize = trim_end(chars.as_slice());
    let ghost whole = trimmed(path@);
    assert(whole == chars@.take(end as int));
    if end == 0 {
        return None;
    }
    if end == 1 && chars[0] == '/' {
        assert(whole =~= seq!['/']);
        return None;
    }
    assert(whole != seq!['/']) by {
        if whole == seq!['/'] {
            assert(whole.len() == 1 && whole[0] == '/');
        }
    }
    let mut at: usize = end;
    assert(whole.take(at as int) =~= whole);
    while at > 0 && chars[at - 1] != '/'
        invariant
            at <= end <= chars@.len(),
            whole == chars@.take(end as int),
            last_index_of(whole, '/') == last_index_of(whole.take(at as int), '/'),
        decreases at,
    {
        assert(whole.take(at as int).drop_last() =~= whole.take(at - 1));
        assert(whole.take(at as int).last() == chars@[at - 1]);
        at = at - 1;
    }
    proof {
        if at > 0 {
            assert(whole.take(at as int).last() == chars@[at - 1]);
        }
        assert(last_index_of(whole, '/') == at - 1);
    }
    let front: &[char] = vstd::slice::slice_subrange(chars.as_slice(), 0, at);
    assert(front@ =~= whole.take(at as int));
    let keep: usize = trim_end(front);
    let kept: &[char] = vstd::slice::slice_subrange(front, 0, keep);
    assert(kept@ =~= front@.take(keep as int));
    Some(text_of(kept))
}

/// The part of the file name behind its last dot.
pub fn extension_of(path: &str) -> (ext: Option<String>)
    ensures
        match ext {
            Some(e) => extension(path@) == Some(e@),
            None => extension(path@) is None,
        },
{
    match file_name_of(path) {
        None => None,
        Some(name) => {
            let len: usize = name.as_str().unicode_len();
            let mut at: usize = len;
            assert(name@.take(at as int) =~= name@);
            while at > 0 && name.as_str().get_char(at - 1) != '.'
                invariant
                    at <= len,
                    len == name@.len(),
                    last_index_of(name@, '.') == last_index_of(name@.take(at as int), '.'),
                decreases at,
            {
                assert(name@.take(at as int).drop_last() =~= name@.take(at - 1));
                assert(name@.take(at as int).last() == name@[at - 1]);
                at = at - 1;
            }
            proof {
                if at > 0 {
                    assert(name@.take(at as int).last() == '.');
                    assert(last_index_of(name@, '.') == at - 1);
                } else {
                    assert(name@.take(0) =~= Seq::empty());
                }
            }
            if at <= 1 {
                None
            } else {
                Some(name.as_str().substring_char(at, len).to_string())
            }
        },
    }
}

/// Where the rest of a path starts behind its first components: at its next
/// element, or at its end.
fn rest_start(path: &[char], skipped: usize) -> (at: usize)
    requires
        1 <= skipped <= components(path@).len(),
    ensures
        at <= path@.len(),
        anchor(path@.skip(at as int)).len() == 0,
        elements(path@.skip(at as int)) == components(path@).skip(skipped as int),
{
    let ghost all = components(path@);
    let mut at: usize = 0;
    let mut passed: usize = 0;
    proof {
        lemma_first_piece_is_dot(path@);
        assert(path@.skip(0) =~= path@);
    }
    if path.len() > 0 && (path[0] == '/' || (path[0] == '.' && (path.len() == 1 || path[1]
        == '/'))) {
        proof {
            lemma_elements_behind_anchor(path@);
        }
        at = 1;
        passed = 1;
    }
    assert(elements(path@.skip(at as int)) =~= all.skip(passed as int));
    loop
        invariant_except_break
            at <= path@.len(),
            passed <= skipped <= all.len(),
            all == components(path@),
            elements(path@.skip(at as int)) == all.skip(passed as int),
        ensures
            at <= path@.len(),
            anchor(path@.skip(at as int)).len() == 0,
            elements(path@.skip(at as int)) == all.skip(skipped as int),
        decreases path@.len() - at,
    {
        let ghost rest = path@.skip(at as int);
        if at == path.len() {
            proof {
                assert(rest =~= Seq::empty());
                lemma_components_of_name(rest);
            }
            break;
        }
        let mut next: usize = at;
        while next < path.len() && path[next] != '/'
            invariant
                at <= next <= path@.len(),
                forall|i: int| at <= i < next ==> #[trigger] path@[i] != '/',
            decreases path@.len() - next,
        {
            next = next + 1;
        }
        let ghost piece = path@.subrange(at as int, next as int);
        let named: bool = next > at && !(next == at + 1 && path[at] == '.');
        proof {
            assert(!piece.contains('/')) by {
                if piece.contains('/') {
                    let i = choose|i: int| 0 <= i < piece.len() && piece[i] == '/';
                    assert(path@[at + i] == '/');
                }
            }
            assert(named == is_element(piece)) by {
                if next == at + 1 {
                    assert(path@[at as int] == piece[0]);
                    if piece[0] == '.' {
                        assert(piece =~= seq!['.']);
                    }
                }
            }
            lemma_elements_of_name(piece);
            if next < path@.len() {
                let behind = path@.skip(next + 1);
                assert(rest =~= piece + seq!['/'] + behind);
                lemma_elements_concat(piece, behind);
                lemma_first_piece(piece, behind);
            } else {
                assert(rest =~= piece);
                assert(path@.skip(next as int) =~= Seq::empty());
                lemma_elements_of_name(Seq::empty());
            }
            lemma_pieces_of_name(piece);
            assert(named ==> rest[0] == piece[0] && piece.contains(piece[0]));
        }
        if named && passed == skipped {
            break;
        }
        if named {
            assert(elements(rest).skip(1) =~= all.skip(passed + 1));
            passed = passed + 1;
        }
        if next < path.len() {
            assert(elements(path@.skip(next + 1)) =~= all.skip(passed as int));
            at = next + 1;
        } else {
            assert(elements(path@.skip(next as int)) =~= all.skip(passed as int));
            at = next;
        }
    }
    at
}

/// `path` as seen from `root`, where it lies below `root`.
pub fn relative_to(root: &str, path: &str) -> (seen: String)
    ensures
        seen@ == seen_from(root@, path@),
{
    if !is_below(path, root) {
        return path.to_string();
    }
    let chars: Vec<char> = chars_of(path);
    let above: usize = components_of(root).len();
    let ghost left = components(path@).skip(components(root@).len() as int);
    let start: usize = if above == 0 {
        proof {
            assert(left =~= components(path@));
            assert(path@.skip(0) =~= path@);
        }
        0
    } else {
        let start: usize = rest_start(chars.as_slice(), above);
        proof {
            assert(components(path@.skip(start as int)) =~= left);
            lemma_end_with(path@, start as int, left);
        }
        start
    };
    let rest: &[char] = vstd::slice::slice_subrange(chars.as_slice(), start, chars.len());
    assert(rest@ =~= path@.skip(start as int));
    let end: usize = trim_end(rest);
    let kept: &[char] = vstd::slice::slice_subrange(rest, 0, end);
    assert(kept@ =~= rest@.take(end as int));
    text_of(kept)
}

/// Cleans a path.
///
/// Calls `path_clean::clean`, which works on the text alone: repeated slashes
/// count once, `.` elements go, each `..` element goes together with the name
/// in front of it, `..` elements right behind the root go, those at the start
/// of a path that is not rooted stay, and `.` stands for an empty outcome.
#[verifier::external_body]
pub(crate) fn clean_path(path: &str) -> (cleaned: String)
    ensures
        cleaned@ == clean(path@),
{
    path_clean::clean(path).to_string_lossy().into_owned()
}

/// The pieces of a path are what stands between its slashes: a slash parts those
/// on its two sides, and a text without one is a single piece. Put together
/// again with slashes they are the path.
pub proof fn law_pieces_stand_between_slashes(a: Seq<char>, b: Seq<char>, name: Seq<char>)
    requires
        !name.contains('/'),
    ensures
        pieces(a + seq!['/'] + b) == pieces(a) + pieces(b),
        pieces(name) == seq![name],
        slashed(pieces(a)) == a,
{
    lemma_pieces_concat(a, b);
    lemma_pieces_of_name(name);
    lemma_slashed_pieces(a);
}

/// The pieces of a path make it up.
proof fn lemma_slashed_pieces(p: Seq<char>)
    ensures
        slashed(pieces(p)) == p,
    decreases p.len(),
{
    lemma_pieces_shape(p);
    if p.len() == 0 {
        assert(p =~= Seq::empty());
    } else {
        let front = pieces(p.drop_last());
        lemma_pieces_shape(p.drop_last());
        lemma_slashed_pieces(p.drop_last());
        if p.last() == '/' {
            assert(front.push(Seq::empty()).drop_last() =~= front);
            assert(slashed(pieces(p)) =~= p);
        } else {
            let last = front.last().push(p.last());
            assert(pieces(p).drop_last() =~= front.drop_last());
            assert(pieces(p).last() == last);
            if front.len() == 1 {
                assert(slashed(front) == front[0]);
                assert(slashed(pieces(p)) =~= p);
            } else {
                let head = slashed(front.drop_last()) + seq!['/'];
                assert(slashed(front) == head + front.last());
                assert(slashed(pieces(p)) == head + last);
                assert(head + last =~= (head + front.last()).push(p.last()));
                assert(p.drop_last().push(p.last()) =~= p);
            }
        }
    }
}

/// The elements of a path are its pieces but for empty ones and single dots.
pub proof fn law_elements_lead_somewhere(a: Seq<char>, b: Seq<char>, name: Seq<char>)
    requires
        !name.contains('/'),
    ensures
        elements(a + seq!['/'] + b) == elements(a) + elements(b),
        name.len() == 0 || name == seq!['.'] ==> elements(name) == Seq::<Seq<char>>::empty(),
        name.len() > 0 && name != seq!['.'] ==> elements(name) == seq![name],
{
    lemma_elements_concat(a, b);
    lemma_elements_of_name(name);
}

/// In front of its elements a path has the root as a component where it starts
/// with a slash, and the current directory where it starts with a single dot.
pub proof fn law_components_of_a_path(p: Seq<char>)
    ensures
        p.len() > 0 && p[0] == '/' ==> components(p) == seq![seq!['/']] + elements(p),
        p.len() > 0 && p[0] == '.' && (p.len() == 1 || p[1] == '/') ==> components(p) == seq![
            seq!['.'],
        ] + elements(p),
        !(p.len() > 0 && p[0] == '/') && !(p.len() > 0 && p[0] == '.' && (p.len() == 1 || p[1]
            == '/')) ==> components(p) == elements(p),
{
    lemma_first_piece_is_dot(p);
    assert(Seq::<Seq<char>>::empty() + elements(p) =~= elements(p));
}

/// Names with a slash between each two.
pub proof fn law_slashed_names(a: Seq<Seq<char>>, b: Seq<Seq<char>>, name: Seq<char>)
    ensures
        slashed(Seq::empty()) == Seq::<char>::empty(),
        slashed(seq![name]) == name,
        a.len() > 0 && b.len() > 0 ==> slashed(a + b) == slashed(a) + seq!['/'] + slashed(b),
    decreases b.len(),
{
    if a.len() > 0 && b.len() == 1 {
        assert((a + b).drop_last() =~= a);
        assert((a + b).last() == b[0]);
    } else if a.len() > 0 && b.len() > 1 {
        let front = b.drop_last();
        law_slashed_names(a, front, name);
        assert((a + b).drop_last() =~= a + front);
        assert((a + b).last() == b.last());
        assert(slashed(a + b) =~= slashed(a) + seq!['/'] + slashed(b));
    }
}

/// What a normal form is: names without parent elements stay as they are; a name
/// and a parent element behind it take each other away, wherever they stand;
/// parent elements behind the root go; and where there is no root, those in front
/// of all names stay.
pub proof fn law_normal_form(
    rooted: bool,
    a: Seq<Seq<char>>,
    name: Seq<char>,
    b: Seq<Seq<char>>,
    ups: Seq<Seq<char>>,
    names: Seq<Seq<char>>,
)
    requires
        name != seq!['.', '.'],
        forall|i: int| 0 <= i < ups.len() ==> #[trigger] ups[i] == seq!['.', '.'],
        forall|i: int| 0 <= i < names.len() ==> #[trigger] names[i] != seq!['.', '.'],
    ensures
        settled(rooted, names) == names,
        settled(rooted, a + seq![name, seq!['.', '.']] + b) == settled(rooted, a + b),
        settled(true, ups + b) == settled(true, b),
        settled(false, ups + names) == ups + names,
{
    lemma_settled_plain(rooted, names);
    lemma_name_and_parent_cancel(rooted, a, name, b);
    lemma_parents_behind_the_root(ups, b);
    lemma_leading_parents_stay(ups, names);
}

/// A name and a parent element behind it take each other away.
proof fn lemma_name_and_parent_cancel(
    rooted: bool,
    a: Seq<Seq<char>>,
    name: Seq<char>,
    b: Seq<Seq<char>>,
)
    requires
        name != parent_element(),
    ensures
        settled(rooted, a + seq![name, parent_element()] + b) == settled(rooted, a + b),
    decreases b.len(),
{
    let pair = seq![name, parent_element()];
    if b.len() == 0 {
        let one = a.push(name);
        let two = one.push(parent_element());
        assert(a + pair + b =~= two);
        assert(two.drop_last() =~= one);
        assert(one.drop_last() =~= a);
        assert(a + b =~= a);
        let kept = settled(rooted, a);
        assert(settled(rooted, one) == kept.push(name));
        assert(kept.push(name).drop_last() =~= kept);
    } else {
        let front = b.drop_last();
        lemma_name_and_parent_cancel(rooted, a, name, front);
        assert((a + pair + b).drop_last() =~= a + pair + front);
        assert((a + b).drop_last() =~= a + front);
    }
}

/// Parent elements behind the root go.
proof fn lemma_parents_behind_the_root(ups: Seq<Seq<char>>, b: Seq<Seq<char>>)
    requires
        forall|i: int| 0 <= i < ups.len() ==> #[trigger] ups[i] == parent_element(),
    ensures
        settled(true, ups + b) == settled(true, b),
    decreases b.len(), ups.len(),
{
    if b.len() > 0 {
        lemma_parents_behind_the_root(ups, b.drop_last());
        assert((ups + b).drop_last() =~= ups + b.drop_last());
    } else if ups.len() > 0 {
        let front = ups.drop_last();
        assert forall|i: int| 0 <= i < front.len() implies #[trigger] front[i]
            == parent_element() by {
            assert(front[i] == ups[i]);
        }
        lemma_parents_behind_the_root(front, b);
        assert(ups + b =~= ups);
        assert(front + b =~= front);
        assert(ups[ups.len() - 1] == parent_element());
    } else {
        assert(ups + b =~= b);
    }
}

/// Without a root, parent elements in front of all names stay.
proof fn lemma_leading_parents_stay(ups: Seq<Seq<char>>, names: Seq<Seq<char>>)
    requires
        forall|i: int| 0 <= i < ups.len() ==> #[trigger] ups[i] == parent_element(),
        forall|i: int| 0 <= i < names.len() ==> #[trigger] names[i] != parent_element(),
    ensures
        settled(false, ups + names) == ups + names,
    decreases names.len(), ups.len(),
{
    if names.len() > 0 {
        let front = names.drop_last();
        assert forall|i: int| 0 <= i < front.len() implies #[trigger] front[i]
            != parent_element() by {
            assert(front[i] == names[i]);
        }
        lemma_leading_parents_stay(ups, front);
        assert((ups + names).drop_last() =~= ups + front);
        assert(names[names.len() - 1] != parent_element());
        assert((ups + front).push(names.last()) =~= ups + names);
    } else if ups.len() > 0 {
        let front = ups.drop_last();
        assert forall|i: int| 0 <= i < front.len() implies #[trigger] front[i]
            == parent_element() by {
            assert(front[i] == ups[i]);
        }
        lemma_leading_parents_stay(front, names);
        assert(ups + names =~= ups);
        assert(front + names =~= front);
        assert(ups[ups.len() - 1] == parent_element());
        if front.len() > 0 {
            assert(front[front.len() - 1] == parent_element());
        }
        assert(front.push(ups.last()) =~= ups);
    } else {
        assert(ups + names =~= names);
    }
}

/// A clean path starts at the root exactly where the path does, and its pieces
/// are the elements of its normal form and nothing else. Where none is left, the
/// root or a single dot stands for it.
pub proof fn law_clean_path_is_the_normal_form(p: Seq<char>)
    ensures
        ({
            let rooted = p.len() > 0 && p[0] == '/';
            let es = settled(rooted, elements(p));
            &&& elements(clean(p)) == es
            &&& rooted && es.len() > 0 ==> pieces(clean(p)) == seq![Seq::<char>::empty()] + es
            &&& !rooted && es.len() > 0 ==> pieces(clean(p)) == es
            &&& rooted && es.len() == 0 ==> clean(p) == seq!['/']
            &&& !rooted && es.len() == 0 ==> clean(p) == seq!['.']
        }),
{
    let rooted = is_absolute(p);
    let es = settled(rooted, elements(p));
    lemma_elements_shape(p);
    lemma_settled_shape(rooted, elements(p));
    lemma_elements_of_path_text(rooted, es);
    if es.len() > 0 {
        lemma_pieces_of_slashed(es);
        if rooted {
            let none = Seq::<char>::empty();
            assert(clean(p) =~= none + seq!['/'] + slashed(es));
            lemma_pieces_concat(none, slashed(es));
            lemma_pieces_of_name(none);
        }
    } else if rooted {
        assert(clean(p) =~= seq!['/']);
    } else {
        assert(!seq!['.'].contains('/'));
        lemma_elements_of_name(seq!['.']);
    }
}

/// A path taken from a directory is the text of the directory and its own, with
/// one slash between them and none more than there has to be; one that starts at
/// the root stands alone.
pub proof fn law_paths_are_joined_by_one_slash(base: &str, rest: &str, path: String)
    requires
        call_ensures(join_path, (base, rest), path),
    ensures
        path@ == joined(base@, rest@),
        rest@.len() > 0 && rest@[0] == '/' ==> path@ == rest@,
        !(rest@.len() > 0 && rest@[0] == '/') ==> {
            let between = path@.len() - base@.len() - rest@.len();
            &&& base@.is_prefix_of(path@)
            &&& rest@.is_suffix_of(path@)
            &&& 0 <= between <= 1
            &&& between == 1 <==> base@.len() > 0 && base@.last() != '/'
            &&& between == 1 ==> path@[base@.len() as int] == '/'
        },
{
    let p = path@;
    if !is_absolute(rest@) {
        assert(base@ =~= p.subrange(0, base@.len() as int));
        assert(rest@ =~= p.subrange(p.len() - rest@.len(), p.len() as int));
    }
}

/// The name of a path is its last element, unless that is the parent element;
/// slashes and single dots behind it do not matter.
pub proof fn law_name_is_the_last_element(path: &str, name: Option<String>)
    requires
        call_ensures(file_name_of, (path,), name),
    ensures
        name is Some <==> elements(path@).len() > 0 && elements(path@).last() != seq!['.', '.'],
        name matches Some(n) ==> n@ == elements(path@).last() && file_name(path@) == Some(n@),
        name is None <==> file_name(path@) is None,
{
}

/// The extension is what stands behind the last dot of the name, where something
/// stands in front of that dot; any other name has none.
pub proof fn law_extension_stands_behind_the_last_dot(
    path: &str,
    stem: Seq<char>,
    ext: Seq<char>,
    found: Option<String>,
)
    requires
        call_ensures(extension_of, (path,), found),
    ensures
        file_name(path@) is None ==> found is None,
        file_name(path@) == Some(stem + seq!['.'] + ext) && stem.len() > 0 && !ext.contains('.')
            ==> (found matches Some(e) && e@ == ext),
        file_name(path@) matches Some(name) && !name.skip(1).contains('.') ==> found is None,
        found is None <==> extension(path@) is None,
        found matches Some(e) ==> extension(path@) == Some(e@),
{
    match file_name(path@) {
        Some(name) => {
            lemma_last_index_of(name, '.');
            let dot = last_index_of(name, '.');
            if name == stem + seq!['.'] + ext && stem.len() > 0 && !ext.contains('.') {
                let k = stem.len() as int;
                assert(name[k] == '.');
                if dot < k {
                    assert(name.skip(dot + 1)[k - dot - 1] == '.');
                } else if dot > k {
                    assert(ext[dot - k - 1] == '.');
                }
                assert(name.skip(dot + 1) =~= ext);
            }
            if !name.skip(1).contains('.') && dot > 0 {
                assert(name.skip(1)[dot - 1] == '.');
            }
        },
        None => {},
    }
}

/// The text of a parent goes no further than its last component, and neither does
/// what is seen of a path from above, which is a stretch of the path.
pub proof fn law_what_is_left_is_no_longer_than_needed(
    p: Seq<char>,
    root: Seq<char>,
    path: Seq<char>,
)
    ensures
        parent(p) matches Some(up) ==> up.len() > 0 ==> components(up.drop_last()) != components(
            up,
        ),
        is_under(path, root) ==> {
            let seen = seen_from(root, path);
            &&& seen.len() > 0 ==> components(seen.drop_last()) != components(seen)
            &&& exists|i: int, j: int|
                0 <= i <= j <= path.len() && #[trigger] path.subrange(i, j) == seen
        },
        !is_under(path, root) ==> seen_from(root, path) == path,
{
    let whole = trimmed(p);
    lemma_trimmed(whole.take(last_index_of(whole, '/') + 1));
    if is_under(path, root) {
        let cs = components(path).skip(components(root).len() as int);
        let rest = end_with(path, cs);
        lemma_trimmed(rest);
        let at = lemma_end_with_is_an_end(path, cs);
        let seen = trimmed(rest);
        assert(path.subrange(at, at + seen.len()) =~= rest.subrange(0, seen.len() as int));
        assert(path.subrange(at, at + seen.len()) == seen);
    }
}

/// The longest end with given components is an end.
proof fn lemma_end_with_is_an_end(p: Seq<char>, cs: Seq<Seq<char>>) -> (at: int)
    ensures
        0 <= at <= p.len(),
        end_with(p, cs) == p.skip(at),
    decreases p.len(),
{
    if p.len() == 0 || components(p) == cs {
        assert(p.skip(0) =~= p);
        0
    } else {
        let at = lemma_end_with_is_an_end(p.skip(1), cs);
        assert(p.skip(1).skip(at) =~= p.skip(at + 1));
        at + 1
    }
}

/// What is asked of paths is answered by their components.
pub proof fn law_questions_are_answered_by_components(
    path: &str,
    base: &str,
    below: bool,
    rooted: bool,
    seen: String,
    up: Option<String>,
)
    requires
        call_ensures(is_below, (path, base), below),
        call_ensures(starts_at_root, (path,), rooted),
        call_ensures(relative_to, (base, path), seen),
        call_ensures(parent_of, (path,), up),
    ensures
        rooted <==> path@.len() > 0 && path@[0] == '/',
        below <==> {
            &&& components(base@).len() <= components(path@).len()
            &&& forall|i: int|
                0 <= i < components(base@).len() ==> components(base@)[i] == #[trigger] components(
                    path@,
                )[i]
        },
        seen@ == seen_from(base@, path@),
        !below ==> seen@ == path@,
        up is None <==> parent(path@) is None,
        up matches Some(u) ==> parent(path@) == Some(u@),
{
    let part = components(base@);
    let full = components(path@);
    if is_under(path@, base@) {
        assert forall|i: int| 0 <= i < part.len() implies part[i] == #[trigger] full[i] by {
            assert(full.subrange(0, part.len() as int)[i] == full[i]);
        }
    }
    if part.len() <= full.len() && forall|i: int|
        0 <= i < part.len() ==> part[i] == #[trigger] full[i] {
        assert(part =~= full.subrange(0, part.len() as int));
    }
}

/// The elements and the components that are handed out are those of the path, each
/// as it is and in order.
pub proof fn law_elements_are_handed_out_in_order(path: &str, es: Vec<String>, cs: Vec<String>)
    requires
        call_ensures(elements_of, (path,), es),
        call_ensures(components_of, (path,), cs),
    ensures
        es@.len() == elements(path@).len(),
        forall|i: int| 0 <= i < es@.len() ==> (#[trigger] es@[i])@ == elements(path@)[i],
        cs@.len() == components(path@).len(),
        forall|i: int| 0 <= i < cs@.len() ==> (#[trigger] cs@[i])@ == components(path@)[i],
{
    assert forall|i: int| 0 <= i < es@.len() implies (#[trigger] es@[i])@ == elements(path@)[i] by {
        assert(texts(es@)[i] == es@[i]@);
    }
    assert forall|i: int| 0 <= i < cs@.len() implies (#[trigger] cs@[i])@ == components(
        path@,
    )[i] by {
        assert(texts(cs@)[i] == cs@[i]@);
    }
}

} // verus!
