//! The fallback path: a food catalog assembled from the built-in list and
//! the user's own entries, minus the blacklist, and a uniform random pick
//! from it that never fails.

use vstd::prelude::*;

use crate::ambient::rand_below;
use crate::text::{contains_str, push_entry};

verus! {

/// The built-in candidate foods.
pub open spec fn spec_default_foods() -> Seq<Seq<char>> {
    seq![
        "火锅"@,
        "烧烤"@,
        "麻辣烫"@,
        "炸鸡"@,
        "披萨"@,
        "汉堡"@,
        "寿司"@,
        "拉面"@,
        "饺子"@,
        "小龙虾"@,
        "麻辣香锅"@,
        "黄焖鸡"@,
        "螺蛳粉"@,
        "酸菜鱼"@,
    ]
}

/// The built-in candidate foods, as owned values.
pub fn default_foods() -> (r: Vec<String>)
    ensures
        r.deep_view() == spec_default_foods(),
{
    let mut v: Vec<String> = Vec::new();
    push_entry(&mut v, String::from_str("火锅"));
    push_entry(&mut v, String::from_str("烧烤"));
    push_entry(&mut v, String::from_str("麻辣烫"));
    push_entry(&mut v, String::from_str("炸鸡"));
    push_entry(&mut v, String::from_str("披萨"));
    push_entry(&mut v, String::from_str("汉堡"));
    push_entry(&mut v, String::from_str("寿司"));
    push_entry(&mut v, String::from_str("拉面"));
    push_entry(&mut v, String::from_str("饺子"));
    push_entry(&mut v, String::from_str("小龙虾"));
    push_entry(&mut v, String::from_str("麻辣香锅"));
    push_entry(&mut v, String::from_str("黄焖鸡"));
    push_entry(&mut v, String::from_str("螺蛳粉"));
    push_entry(&mut v, String::from_str("酸菜鱼"));
    proof {
        assert(v.deep_view() =~= spec_default_foods());
    }
    v
}

proof fn lemma_push_contains(s: Seq<Seq<char>>, x: Seq<char>)
    ensures
        forall|y: Seq<char>| #[trigger] s.push(x).contains(y) <==> (s.contains(y) || y == x),
{
    assert forall|y: Seq<char>| #[trigger] s.push(x).contains(y) <==> (s.contains(y) || y == x) by {
        if s.push(x).contains(y) {
            let j = choose|j: int| 0 <= j < s.push(x).len() && s.push(x)[j] == y;
            if j < s.len() {
                assert(s[j] == y);
            }
        }
        if s.contains(y) {
            let j = choose|j: int| 0 <= j < s.len() && s[j] == y;
            assert(s.push(x)[j] == y);
        }
        if y == x {
            assert(s.push(x)[s.len() as int] == y);
        }
    }
}

fn push_if_allowed(r: &mut Vec<String>, item: &String, blacklist: &Vec<String>)
    ensures
        final(r).deep_view() == (if !old(r).deep_view().contains(item@)
            && !blacklist.deep_view().contains(item@) {
            old(r).deep_view().push(item@)
        } else {
            old(r).deep_view()
        }),
{
    if !contains_str(r, item.as_str()) && !contains_str(blacklist, item.as_str()) {
        push_entry(r, item.clone());
    }
}

/// Whether a catalog is sound with respect to its sources: duplicate-free,
/// free of blacklisted entries, and drawn from the given candidates.
pub open spec fn spec_catalog_sound(
    catalog: Seq<Seq<char>>,
    candidates: Seq<Seq<char>>,
    blacklist: Seq<Seq<char>>,
) -> bool {
    &&& catalog.no_duplicates()
    &&& forall|i: int|
        0 <= i < catalog.len() ==> !blacklist.contains(#[trigger] catalog[i]) && candidates.contains(
            catalog[i],
        )
}

/// Whether a catalog is complete: it holds every candidate that the
/// blacklist does not exclude.
pub open spec fn spec_catalog_complete(
    catalog: Seq<Seq<char>>,
    candidates: Seq<Seq<char>>,
    blacklist: Seq<Seq<char>>,
) -> bool {
    forall|x: Seq<char>|
        #[trigger] candidates.contains(x) && !blacklist.contains(x) ==> catalog.contains(x)
}

fn merge_allowed(r: &mut Vec<String>, source: &Vec<String>, blacklist: &Vec<String>)
    requires
        old(r).deep_view().no_duplicates(),
        forall|i: int|
            0 <= i < old(r).deep_view().len() ==> !blacklist.deep_view().contains(
                #[trigger] old(r).deep_view()[i],
            ),
    ensures
        final(r).deep_view().no_duplicates(),
        forall|i: int|
            0 <= i < final(r).deep_view().len() ==> !blacklist.deep_view().contains(
                #[trigger] final(r).deep_view()[i],
            ) && (old(r).deep_view().contains(final(r).deep_view()[i])
                || source.deep_view().contains(final(r).deep_view()[i])),
        forall|x: Seq<char>|
            #[trigger] source.deep_view().contains(x) && !blacklist.deep_view().contains(x)
                ==> final(r).deep_view().contains(x),
        forall|x: Seq<char>| old(r).deep_view().contains(x) ==> final(r).deep_view().contains(x),
{
    let mut i: usize = 0;
    while i < source.len()
        invariant
            i <= source.len(),
            r.deep_view().no_duplicates(),
            forall|k: int|
                0 <= k < r.deep_view().len() ==> !blacklist.deep_view().contains(
                    #[trigger] r.deep_view()[k],
                ) && (old(r).deep_view().contains(r.deep_view()[k])
                    || source.deep_view().contains(r.deep_view()[k])),
            forall|x: Seq<char>|
                #[trigger] source.deep_view().take(i as int).contains(x)
                    && !blacklist.deep_view().contains(x) ==> r.deep_view().contains(x),
            forall|x: Seq<char>| old(r).deep_view().contains(x) ==> r.deep_view().contains(x),
        decreases source.len() - i,
    {
        let ghost pre = r.deep_view();
        let ghost item = source.deep_view()[i as int];
        push_if_allowed(r, &source[i], blacklist);
        proof {
            assert(source.deep_view().contains(item));
            lemma_push_contains(pre, item);
            if !pre.contains(item) && !blacklist.deep_view().contains(item) {
                assert(r.deep_view() == pre.push(item));
                assert(r.deep_view().no_duplicates()) by {
                    assert forall|a: int, b: int|
                        0 <= a < b < r.deep_view().len() implies r.deep_view()[a]
                        != r.deep_view()[b] by {
                        if b == pre.len() {
                            if r.deep_view()[a] == item {
                                assert(pre[a] == item);
                                assert(pre.contains(item));
                            }
                        }
                    }
                }
            }
            assert(source.deep_view().take(i + 1) =~= source.deep_view().take(i as int).push(item));
            assert forall|x: Seq<char>|
                #[trigger] source.deep_view().take(i + 1).contains(x)
                    && !blacklist.deep_view().contains(x) implies r.deep_view().contains(x) by {
                lemma_push_contains(source.deep_view().take(i as int), item);
            }
        }
        i += 1;
    }
    proof {
        assert(source.deep_view().take(source.deep_view().len() as int) =~= source.deep_view());
    }
}

/// Builds the food catalog: the built-in foods and the user's own entries,
/// deduplicated, with every blacklisted name removed. The result is sound
/// and complete for those candidates; no order is promised.
pub fn build_catalog(extras: &Vec<String>, blacklist: &Vec<String>) -> (r: Vec<String>)
    ensures
        spec_catalog_sound(
            r.deep_view(),
            spec_default_foods() + extras.deep_view(),
            blacklist.deep_view(),
        ),
        spec_catalog_complete(
            r.deep_view(),
            spec_default_foods() + extras.deep_view(),
            blacklist.deep_view(),
        ),
{
    let defaults = default_foods();
    let mut r: Vec<String> = Vec::new();
    proof {
        assert(r.deep_view() =~= Seq::<Seq<char>>::empty());
    }
    merge_allowed(&mut r, &defaults, blacklist);
    merge_allowed(&mut r, extras, blacklist);
    proof {
        let cand = spec_default_foods() + extras.deep_view();
        assert forall|i: int| 0 <= i < r.deep_view().len() implies !blacklist.deep_view().contains(
            #[trigger] r.deep_view()[i],
        ) && cand.contains(r.deep_view()[i]) by {
            let x = r.deep_view()[i];
            if spec_default_foods().contains(x) {
                let j = choose|j: int|
                    0 <= j < spec_default_foods().len() && spec_default_foods()[j] == x;
                assert(cand[j] == x);
            } else {
                assert(extras.deep_view().contains(x));
                let j = choose|j: int|
                    0 <= j < extras.deep_view().len() && extras.deep_view()[j] == x;
                assert(cand[spec_default_foods().len() + j] == x);
            }
        }
        assert forall|x: Seq<char>|
            #[trigger] cand.contains(x) && !blacklist.deep_view().contains(x) implies
            r.deep_view().contains(x) by {
            let j = choose|j: int| 0 <= j < cand.len() && cand[j] == x;
            if j < spec_default_foods().len() {
                assert(spec_default_foods()[j] == x);
                assert(spec_default_foods().contains(x));
            } else {
                assert(extras.deep_view()[j - spec_default_foods().len()] == x);
                assert(extras.deep_view().contains(x));
            }
        }
    }
    r
}

/// Picks one entry uniformly from the catalog; a built-in default stands in
/// when the catalog is empty, so a pick is always returned.
pub fn pick_random(catalog: &Vec<String>) -> (r: String)
    ensures
        catalog.len() == 0 ==> r@ == "火锅"@,
        catalog.len() > 0 ==> catalog.deep_view().contains(r@),
{
    if catalog.len() == 0 {
        String::from_str("火锅")
    } else {
        let i = rand_below(catalog.len());
        proof {
            assert(catalog.deep_view()[i as int] == catalog@[i as int]@);
        }
        catalog[i].clone()
    }
}

/// Picks a food from the built-in list alone.
pub fn random_recommend() -> (r: String)
    ensures
        spec_default_foods().contains(r@),
{
    let foods = default_foods();
    proof {
        assert(foods.deep_view().len() == 14);
        assert(foods@.len() == foods.deep_view().len());
    }
    pick_random(&foods)
}

/// A pick from a catalog whose entries all avoid the blacklist is itself
/// never a blacklisted food.
pub proof fn lemma_pick_respects_blacklist(
    catalog: Seq<Seq<char>>,
    blacklist: Seq<Seq<char>>,
    picked: Seq<char>,
)
    requires
        catalog.contains(picked),
        forall|i: int| 0 <= i < catalog.len() ==> !blacklist.contains(#[trigger] catalog[i]),
    ensures
        !blacklist.contains(picked),
{
    let j = choose|j: int| 0 <= j < catalog.len() && catalog[j] == picked;
    assert(!blacklist.contains(catalog[j]));
}

} // verus!
