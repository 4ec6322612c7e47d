//! Queries over a collection of cards: filtering by a predicate, and the
//! queries built on it.

use vstd::prelude::*;
use crate::text::{chars_of, ends_with, has_suffix, slice, string_of, texts};
use crate::value::{Data, Value};

verus! {

/// What marks a card as the default hero of a class, at the end of its name.
pub const STARTING_HERO_SUFFIX: &'static str = " Starting Hero";

/// The data of each value, in order.
pub open spec fn data_of(cards: Seq<Value>) -> Seq<Data> {
    cards.map_values(|c: Value| c@)
}

/// The items whose pick is `true`, in order: item `i` goes by `picks[i]`.
pub open spec fn selected<T>(items: Seq<T>, picks: Seq<bool>) -> Seq<T>
    decreases items.len(),
{
    if items.len() == 0 {
        Seq::empty()
    } else if picks[items.len() - 1] {
        selected(items.drop_last(), picks).push(items.last())
    } else {
        selected(items.drop_last(), picks)
    }
}

/// Picks beyond the last item do not matter.
pub proof fn lemma_selected_ignores_tail<T>(items: Seq<T>, p: Seq<bool>, q: Seq<bool>)
    requires
        forall|i: int| 0 <= i < items.len() ==> p[i] == q[i],
    ensures
        selected(items, p) == selected(items, q),
    decreases items.len(),
{
    if items.len() > 0 {
        lemma_selected_ignores_tail(items.drop_last(), p, q);
    }
}

/// Selecting by the answers of a predicate is filtering by it.
pub proof fn lemma_selected_is_filter<T>(items: Seq<T>, picks: Seq<bool>, pred: spec_fn(T) -> bool)
    requires
        forall|i: int| 0 <= i < items.len() ==> picks[i] == pred(items[i]),
    ensures
        selected(items, picks) == items.filter(pred),
    decreases items.len(),
{
    reveal(Seq::filter);
    if items.len() > 0 {
        lemma_selected_is_filter(items.drop_last(), picks, pred);
    }
}

/// Filtering keeps everything where every pick is `true`: a predicate that
/// accepts every card gives the cards back, in order.
pub proof fn lemma_selecting_all_keeps_all<T>(items: Seq<T>, picks: Seq<bool>)
    requires
        forall|i: int| 0 <= i < items.len() ==> picks[i],
    ensures
        selected(items, picks) == items,
    decreases items.len(),
{
    if items.len() > 0 {
        lemma_selecting_all_keeps_all(items.drop_last(), picks);
        assert(items.drop_last().push(items.last()) =~= items);
    }
}

/// Copies of the cards that `keep` accepts, in their order. The cards
/// themselves are left as they are.
pub fn filter_cards<F: Fn(&Value) -> bool>(cards: &[Value], keep: F) -> (r: Vec<Value>)
    requires
        forall|i: int| 0 <= i < cards@.len() ==> call_requires(keep, (&cards@[i],)),
    ensures
        exists|picks: Seq<bool>|
            {
                &&& picks.len() == cards@.len()
                &&& forall|i: int|
                    0 <= i < cards@.len() ==> call_ensures(keep, (&cards@[i],), #[trigger] picks[i])
                &&& data_of(r@) == selected(data_of(cards@), picks)
            },
{
    let mut out: Vec<Value> = Vec::new();
    let ghost mut picks: Seq<bool> = Seq::empty();
    let mut i: usize = 0;
    assert(data_of(out@) =~= Seq::<Data>::empty());
    while i < cards.len()
        invariant
            i <= cards@.len(),
            picks.len() == i,
            forall|j: int| 0 <= j < cards@.len() ==> call_requires(keep, (&cards@[j],)),
            forall|j: int| 0 <= j < i ==> call_ensures(keep, (&cards@[j],), #[trigger] picks[j]),
            data_of(out@) == selected(data_of(cards@).take(i as int), picks),
        decreases cards@.len() - i,
    {
        let card: &Value = &cards[i];
        let pick: bool = keep(card);
        let ghost before = out@;
        let ghost old_picks = picks;
        if pick {
            out.push(card.duplicate());
        }
        proof {
            picks = picks.push(pick);
            let all = data_of(cards@);
            let next = all.take(i + 1);
            assert(next.drop_last() =~= all.take(i as int));
            assert(next.last() == cards@[i as int]@);
            lemma_selected_ignores_tail(all.take(i as int), old_picks, picks);
            if pick {
                assert(data_of(out@) =~= data_of(before).push(card@));
            }
        }
        i += 1;
    }
    assert(data_of(cards@).take(i as int) =~= data_of(cards@));
    out
}

/// Whether a card's field `uncollectible` is there and is `true`.
pub open spec fn uncollectible(card: Data) -> bool {
    card.truth_field_or("uncollectible"@, false)
}

/// Whether a card's field `uncollectible` is there and is `true`.
pub fn is_uncollectible(card: &Value) -> (b: bool)
    ensures
        b == uncollectible(card@),
{
    card.get_bool_or("uncollectible", false)
}

/// Copies of the cards whose field `uncollectible` is there and is `true`,
/// in their order.
pub fn filter_uncollectible(cards: &[Value]) -> (r: Vec<Value>)
    ensures
        data_of(r@) == data_of(cards@).filter(|c: Data| uncollectible(c)),
{
    let r: Vec<Value> = filter_cards(cards, is_uncollectible);
    proof {
        let picks = choose|picks: Seq<bool>|
            {
                &&& picks.len() == cards@.len()
                &&& forall|i: int|
                    0 <= i < cards@.len() ==> call_ensures(
                        is_uncollectible,
                        (&cards@[i],),
                        #[trigger] picks[i],
                    )
                &&& data_of(r@) == selected(data_of(cards@), picks)
            };
        lemma_selected_is_filter(data_of(cards@), picks, |c: Data| uncollectible(c));
    }
    r
}

/// The class that a card stands for: its name without the starting-hero
/// suffix, where its name is a string that ends with that suffix.
pub open spec fn class_of(card: Data) -> Option<Seq<char>> {
    match card.text_field("name"@) {
        Some(name) => if ends_with(name, STARTING_HERO_SUFFIX@) {
            Some(name.take(name.len() - STARTING_HERO_SUFFIX@.len()))
        } else {
            None
        },
        None => None,
    }
}

/// The class names of the cards that stand for a class, in the cards' order;
/// a class that several cards stand for is named several times.
pub open spec fn class_names(cards: Seq<Data>) -> Seq<Seq<char>> {
    cards.filter(|c: Data| class_of(c) is Some).map_values(|c: Data| class_of(c)->0)
}

/// The class that a card stands for, if it stands for one.
pub fn class_name(card: &Value) -> (r: Option<String>)
    ensures
        match r {
            Some(name) => class_of(card@) == Some(name@),
            None => class_of(card@) is None,
        },
{
    match card.get_str("name") {
        None => None,
        Some(name) => {
            let text: Vec<char> = chars_of(name);
            let suffix: Vec<char> = chars_of(STARTING_HERO_SUFFIX);
            if has_suffix(&text, &suffix) {
                Some(string_of(&slice(&text, 0, text.len() - suffix.len())))
            } else {
                None
            }
        },
    }
}

/// Whether a card stands for a class.
pub fn is_starting_hero(card: &Value) -> (b: bool)
    ensures
        b == (class_of(card@) is Some),
{
    class_name(card).is_some()
}

/// The names of the classes, taken from the cards whose name ends with the
/// starting-hero suffix: each such name without the suffix, in the cards'
/// order, with nothing removed or sorted.
pub fn find_classes(cards: &[Value]) -> (r: Vec<String>)
    ensures
        texts(r@) == class_names(data_of(cards@)),
{
    let heroes: Vec<Value> = filter_cards(cards, is_starting_hero);
    proof {
        let picks = choose|picks: Seq<bool>|
            {
                &&& picks.len() == cards@.len()
                &&& forall|i: int|
                    0 <= i < cards@.len() ==> call_ensures(
                        is_starting_hero,
                        (&cards@[i],),
                        #[trigger] picks[i],
                    )
                &&& data_of(heroes@) == selected(data_of(cards@), picks)
            };
        lemma_selected_is_filter(data_of(cards@), picks, |c: Data| class_of(c) is Some);
    }
    let ghost kept = data_of(cards@).filter(|c: Data| class_of(c) is Some);
    proof {
        assert forall|j: int| 0 <= j < kept.len() implies class_of(#[trigger] kept[j]) is Some by {
            data_of(cards@).lemma_filter_pred(|c: Data| class_of(c) is Some, j);
        }
    }
    let mut classes: Vec<String> = Vec::new();
    let mut i: usize = 0;
    while i < heroes.len()
        invariant
            i <= heroes@.len(),
            data_of(heroes@) == kept,
            forall|j: int| 0 <= j < kept.len() ==> class_of(#[trigger] kept[j]) is Some,
            classes@.len() == i,
            forall|j: int| 0 <= j < i ==> (#[trigger] classes@[j])@ == class_of(kept[j])->0,
        decreases heroes@.len() - i,
    {
        assert(kept[i as int] == heroes@[i as int]@);
        match class_name(&heroes[i]) {
            Some(name) => {
                classes.push(name);
            },
            None => {
                assert(false);
            },
        }
        i += 1;
    }
    assert(texts(classes@) =~= class_names(data_of(cards@)));
    classes
}

} // verus!
