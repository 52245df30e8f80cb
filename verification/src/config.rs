//! The configuration model: provider settings, the user's taste profile and
//! the rolling rules, with the verified rule mutations.

use vstd::prelude::*;
use vstd::seq_lib::*;

use crate::text::{contains_str, str_eq};

verus! {

/// How many entries the rolling recent list keeps after a recommendation.
pub const RECENT_CAP: usize = 5;

/// How many entries the recent list may grow to when skipped foods are noted.
pub const SKIP_CAP: usize = 10;

/// Provider selection and the per-provider credentials.
#[derive(Debug, Clone)]
pub struct ApiConfig {
    pub provider: String,
    pub deepseek_key: String,
    pub zhipu_key: String,
    pub openai_key: String,
    pub openai_endpoint: String,
}

/// The user's taste profile, read-only to the recommendation engine.
#[derive(Debug, Clone)]
pub struct UserProfile {
    pub name: String,
    pub spicy: u8,
    pub sweet: u8,
    pub sour: u8,
    pub vegetarian: bool,
    pub halal: bool,
    pub allergies: Vec<String>,
    pub budget: String,
    pub cuisine: Vec<String>,
}

/// The rolling rules, mutated after recommendations.
#[derive(Debug, Clone)]
pub struct Rules {
    pub favorites: Vec<String>,
    pub blacklist: Vec<String>,
    pub recent: Vec<String>,
    pub custom_prompt: String,
}

/// The whole configuration handed in by the caller at each invocation.
#[derive(Debug, Clone)]
pub struct Config {
    pub api: ApiConfig,
    pub user: UserProfile,
    pub rules: Rules,
}

impl Default for Config {
    /// The defaults used when no stored configuration is available.
    fn default() -> (c: Config)
        ensures
            c.api.provider@ == "deepseek"@,
            c.api.deepseek_key@ =~= Seq::<char>::empty(),
            c.api.zhipu_key@ =~= Seq::<char>::empty(),
            c.api.openai_key@ =~= Seq::<char>::empty(),
            c.api.openai_endpoint@ =~= Seq::<char>::empty(),
            c.user.name@ =~= Seq::<char>::empty(),
            c.user.spicy == 3,
            c.user.sweet == 3,
            c.user.sour == 3,
            !c.user.vegetarian,
            !c.user.halal,
            c.user.allergies.deep_view() =~= Seq::<Seq<char>>::empty(),
            c.user.budget@ == "medium"@,
            c.user.cuisine.deep_view() =~= Seq::<Seq<char>>::empty(),
            c.rules.favorites.deep_view() =~= Seq::<Seq<char>>::empty(),
            c.rules.blacklist.deep_view() =~= Seq::<Seq<char>>::empty(),
            c.rules.recent.deep_view() =~= Seq::<Seq<char>>::empty(),
            c.rules.custom_prompt@ =~= Seq::<char>::empty(),
    {
        Config {
            api: ApiConfig {
                provider: String::from_str("deepseek"),
                deepseek_key: String::new(),
                zhipu_key: String::new(),
                openai_key: String::new(),
                openai_endpoint: String::new(),
            },
            user: UserProfile {
                name: String::new(),
                spicy: 3,
                sweet: 3,
                sour: 3,
                vegetarian: false,
                halal: false,
                allergies: Vec::new(),
                budget: String::from_str("medium"),
                cuisine: Vec::new(),
            },
            rules: Rules {
                favorites: Vec::new(),
                blacklist: Vec::new(),
                recent: Vec::new(),
                custom_prompt: String::new(),
            },
        }
    }
}

/// The first `n` entries of a list, or all of it when it is shorter.
pub open spec fn spec_clip(s: Seq<Seq<char>>, n: int) -> Seq<Seq<char>> {
    if s.len() <= n {
        s
    } else {
        s.take(n)
    }
}

/// The predicate holding of every entry other than the given one.
pub open spec fn spec_ne(v: Seq<char>) -> spec_fn(Seq<char>) -> bool {
    |f: Seq<char>| f != v
}

/// The recent list after recording a recommendation: the food moves to the
/// front, any earlier occurrence is dropped, and the list is clipped to its
/// capacity.
pub open spec fn spec_add_recent(recent: Seq<Seq<char>>, food: Seq<char>) -> Seq<Seq<char>> {
    spec_clip(seq![food] + recent.filter(spec_ne(food)), RECENT_CAP as int)
}

/// The recent list after noting a skipped food: appended at the back when it
/// is not already present, then clipped to the skip capacity.
pub open spec fn spec_add_skip(recent: Seq<Seq<char>>, food: Seq<char>) -> Seq<Seq<char>> {
    if recent.contains(food) {
        recent
    } else {
        spec_clip(recent.push(food), SKIP_CAP as int)
    }
}

/// A list extended with an entry under set semantics: a duplicate is a no-op.
pub open spec fn spec_add_unique(l: Seq<Seq<char>>, x: Seq<char>) -> Seq<Seq<char>> {
    if l.contains(x) {
        l
    } else {
        l.push(x)
    }
}

/// Records a recommended food at the front of the recent list, deduplicating
/// and clipping to the configured capacity. The other rules are untouched.
pub fn add_recent(rules: &mut Rules, food: &str)
    ensures
        final(rules).recent.deep_view() == spec_add_recent(old(rules).recent.deep_view(), food@),
        final(rules).favorites == old(rules).favorites,
        final(rules).blacklist == old(rules).blacklist,
        final(rules).custom_prompt == old(rules).custom_prompt,
{
    let ghost pred = spec_ne(food@);
    let mut kept: Vec<String> = Vec::new();
    kept.push(String::from_str(food));
    proof {
        reveal(Seq::filter);
        assert(old(rules).recent.deep_view().take(0).filter(pred) =~= Seq::<Seq<char>>::empty());
        assert(kept.deep_view() =~= seq![food@] + old(rules).recent.deep_view().take(0).filter(
            pred,
        ));
    }
    let mut i: usize = 0;
    while i < rules.recent.len()
        invariant
            *rules == *old(rules),
            i <= rules.recent.len(),
            kept.deep_view() == seq![food@] + old(rules).recent.deep_view().take(i as int).filter(
                spec_ne(food@),
            ),
        decreases rules.recent.len() - i,
    {
        let ghost prefix = old(rules).recent.deep_view().take(i as int);
        let ghost entry = old(rules).recent.deep_view()[i as int];
        let same = str_eq(rules.recent[i].as_str(), food);
        proof {
            reveal(Seq::filter);
            assert(entry == old(rules).recent@[i as int].deep_view());
            assert(old(rules).recent.deep_view().take(i + 1) =~= prefix.push(entry));
            assert(prefix.push(entry).drop_last() =~= prefix);
            assert(prefix.push(entry).last() == entry);
            assert(spec_ne(food@)(entry) == (entry != food@));
        }
        if !same {
            let cloned = rules.recent[i].clone();
            let ghost kept_pre = kept.deep_view();
            kept.push(cloned);
            proof {
                reveal(Seq::filter);
                assert(kept.deep_view() =~= kept_pre.push(entry));
                assert(prefix.push(entry).filter(spec_ne(food@)) == prefix.filter(
                    spec_ne(food@),
                ).push(entry));
                assert(kept_pre.push(entry) =~= seq![food@] + prefix.filter(spec_ne(food@)).push(
                    entry,
                ));
            }
        } else {
            proof {
                reveal(Seq::filter);
                assert(prefix.push(entry).filter(spec_ne(food@)) == prefix.filter(
                    spec_ne(food@),
                ));
            }
        }
        i += 1;
    }
    proof {
        assert(old(rules).recent.deep_view().take(old(rules).recent.deep_view().len() as int)
            =~= old(rules).recent.deep_view());
    }
    kept.truncate(RECENT_CAP);
    proof {
        let merged = seq![food@] + old(rules).recent.deep_view().filter(pred);
        if merged.len() > RECENT_CAP as int {
            assert(kept.deep_view() =~= merged.take(RECENT_CAP as int));
        }
    }
    rules.recent = kept;
}

/// Notes a food the user skipped: appended to the recent list when absent,
/// clipped to the skip capacity. Returns whether anything changed.
pub fn add_skip(rules: &mut Rules, food: &str) -> (added: bool)
    ensures
        final(rules).recent.deep_view() == spec_add_skip(old(rules).recent.deep_view(), food@),
        final(rules).favorites == old(rules).favorites,
        final(rules).blacklist == old(rules).blacklist,
        final(rules).custom_prompt == old(rules).custom_prompt,
        added == !old(rules).recent.deep_view().contains(food@),
{
    if contains_str(&rules.recent, food) {
        return false;
    }
    rules.recent.push(String::from_str(food));
    proof {
        assert(rules.recent.deep_view() =~= old(rules).recent.deep_view().push(food@));
    }
    rules.recent.truncate(SKIP_CAP);
    proof {
        let merged = old(rules).recent.deep_view().push(food@);
        if merged.len() > SKIP_CAP as int {
            assert(rules.recent.deep_view() =~= merged.take(SKIP_CAP as int));
        }
    }
    true
}

/// Adds a food to the blacklist; a duplicate is a no-op. Returns whether
/// anything changed.
pub fn add_to_blacklist(rules: &mut Rules, food: &str) -> (added: bool)
    ensures
        final(rules).blacklist.deep_view() == spec_add_unique(
            old(rules).blacklist.deep_view(),
            food@,
        ),
        final(rules).favorites == old(rules).favorites,
        final(rules).recent == old(rules).recent,
        final(rules).custom_prompt == old(rules).custom_prompt,
        added == !old(rules).blacklist.deep_view().contains(food@),
{
    if contains_str(&rules.blacklist, food) {
        return false;
    }
    rules.blacklist.push(String::from_str(food));
    proof {
        assert(rules.blacklist.deep_view() =~= old(rules).blacklist.deep_view().push(food@));
    }
    true
}

/// Adds a food to the user's own catalog entries; a duplicate is a no-op.
/// Returns whether anything changed.
pub fn add_to_catalog(rules: &mut Rules, food: &str) -> (added: bool)
    ensures
        final(rules).favorites.deep_view() == spec_add_unique(
            old(rules).favorites.deep_view(),
            food@,
        ),
        final(rules).blacklist == old(rules).blacklist,
        final(rules).recent == old(rules).recent,
        final(rules).custom_prompt == old(rules).custom_prompt,
        added == !old(rules).favorites.deep_view().contains(food@),
{
    if contains_str(&rules.favorites, food) {
        return false;
    }
    rules.favorites.push(String::from_str(food));
    proof {
        assert(rules.favorites.deep_view() =~= old(rules).favorites.deep_view().push(food@));
    }
    true
}

proof fn lemma_filter_absent(s: Seq<Seq<char>>, v: Seq<char>)
    requires
        !s.contains(v),
    ensures
        s.filter(spec_ne(v)) == s,
    decreases s.len(),
{
    reveal(Seq::filter);
    let pred = spec_ne(v);
    if s.len() == 0 {
        assert(s.filter(pred) =~= s);
    } else {
        assert(!s.drop_last().contains(v)) by {
            if s.drop_last().contains(v) {
                let j = choose|j: int| 0 <= j < s.drop_last().len() && s.drop_last()[j] == v;
                assert(s[j] == v);
                assert(s.contains(v));
            }
        }
        lemma_filter_absent(s.drop_last(), v);
        assert(s[s.len() - 1] != v) by {
            if s.last() == v {
                assert(s.contains(v));
            }
        }
        assert(s.filter(pred) == s.drop_last().filter(pred).push(s.last()));
        assert(s.drop_last().push(s.last()) =~= s);
    }
}

proof fn lemma_filter_removes_one(s: Seq<Seq<char>>, v: Seq<char>)
    requires
        s.no_duplicates(),
        s.contains(v),
    ensures
        s.filter(spec_ne(v)).len() == s.len() - 1,
    decreases s.len(),
{
    reveal(Seq::filter);
    let pred = spec_ne(v);
    if s.last() == v {
        assert(!s.drop_last().contains(v)) by {
            if s.drop_last().contains(v) {
                let j = choose|j: int| 0 <= j < s.drop_last().len() && s.drop_last()[j] == v;
                assert(s[j] == v && s[s.len() - 1] == v && j != s.len() - 1);
            }
        }
        lemma_filter_absent(s.drop_last(), v);
        assert(s.filter(pred) == s.drop_last().filter(pred));
    } else {
        assert(s.drop_last().contains(v)) by {
            let j = choose|j: int| 0 <= j < s.len() && s[j] == v;
            assert(j != s.len() - 1);
            assert(s.drop_last()[j] == v);
        }
        assert(s.drop_last().no_duplicates());
        lemma_filter_removes_one(s.drop_last(), v);
        assert(s.filter(pred) == s.drop_last().filter(pred).push(s.last()));
    }
}

/// The recent list never exceeds its configured capacity after recording a
/// recommendation.
pub proof fn lemma_recent_capacity(recent: Seq<Seq<char>>, food: Seq<char>)
    ensures
        spec_add_recent(recent, food).len() <= RECENT_CAP as int,
{
}

proof fn lemma_filter_subset(s: Seq<Seq<char>>, v: Seq<char>)
    ensures
        forall|x: Seq<char>| #[trigger] s.filter(spec_ne(v)).contains(x) ==> s.contains(x),
    decreases s.len(),
{
    reveal(Seq::filter);
    let pred = spec_ne(v);
    if s.len() > 0 {
        lemma_filter_subset(s.drop_last(), v);
        assert forall|x: Seq<char>| #[trigger] s.filter(pred).contains(x) implies s.contains(
            x,
        ) by {
            let f = s.filter(pred);
            let j = choose|j: int| 0 <= j < f.len() && f[j] == x;
            let sub = s.drop_last().filter(pred);
            if pred(s.last()) && j == f.len() - 1 {
                assert(s[s.len() - 1] == x);
            } else {
                assert(sub[j] == x);
                assert(sub.contains(x));
                assert(s.drop_last().contains(x));
                let k = choose|k: int|
                    0 <= k < s.drop_last().len() && s.drop_last()[k] == x;
                assert(s[k] == x);
            }
        }
    }
}

/// Recording a food that is already in a duplicate-free recent list within
/// capacity moves it to the front: the list does not grow, the food is first,
/// and the set of entries is unchanged.
pub proof fn lemma_recent_move_to_front(recent: Seq<Seq<char>>, food: Seq<char>)
    requires
        recent.no_duplicates(),
        recent.contains(food),
        recent.len() <= RECENT_CAP as int,
    ensures
        spec_add_recent(recent, food).len() == recent.len(),
        spec_add_recent(recent, food)[0] == food,
        forall|x: Seq<char>| spec_add_recent(recent, food).contains(x) <==> recent.contains(x),
{
    let pred = spec_ne(food);
    lemma_filter_removes_one(recent, food);
    lemma_filter_subset(recent, food);
    let merged = seq![food] + recent.filter(pred);
    assert(spec_add_recent(recent, food) == merged);
    assert(merged[0] == food);
    assert forall|x: Seq<char>| merged.contains(x) <==> recent.contains(x) by {
        if merged.contains(x) {
            let j = choose|j: int| 0 <= j < merged.len() && merged[j] == x;
            if j == 0 {
                assert(x == food);
                assert(recent.contains(x));
            } else {
                assert(recent.filter(pred)[j - 1] == x);
                assert(recent.filter(pred).contains(x));
                assert(recent.contains(x));
            }
        }
        if recent.contains(x) {
            if x == food {
                assert(merged[0] == x);
                assert(merged.contains(x));
            } else {
                let j = choose|j: int| 0 <= j < recent.len() && recent[j] == x;
                recent.lemma_filter_contains(pred, j);
                let k = choose|k: int|
                    0 <= k < recent.filter(pred).len() && recent.filter(pred)[k] == x;
                assert(merged[k + 1] == x);
                assert(merged.contains(x));
            }
        }
    }
}

/// Blacklist and catalog additions have set semantics: starting from a
/// duplicate-free list, the result is duplicate-free, holds the new entry,
/// holds exactly the old entries plus the new one, and a duplicate addition
/// is a no-op.
pub proof fn lemma_add_unique_set_semantics(l: Seq<Seq<char>>, x: Seq<char>)
    requires
        l.no_duplicates(),
    ensures
        spec_add_unique(l, x).no_duplicates(),
        spec_add_unique(l, x).contains(x),
        forall|y: Seq<char>| spec_add_unique(l, x).contains(y) <==> (l.contains(y) || y == x),
        l.contains(x) ==> spec_add_unique(l, x) == l,
{
    if !l.contains(x) {
        let r = l.push(x);
        assert(r.no_duplicates()) by {
            assert forall|i: int, j: int| 0 <= i < j < r.len() implies r[i] != r[j] by {
                if j == l.len() {
                    assert(r[j] == x);
                    if r[i] == x {
                        assert(l[i] == x);
                        assert(l.contains(x));
                    }
                }
            }
        }
        assert(r[l.len() as int] == x);
        assert forall|y: Seq<char>| r.contains(y) <==> (l.contains(y) || y == x) by {
            if r.contains(y) {
                let j = choose|j: int| 0 <= j < r.len() && r[j] == y;
                if j < l.len() {
                    assert(l[j] == y);
                }
            }
            if l.contains(y) {
                let j = choose|j: int| 0 <= j < l.len() && l[j] == y;
                assert(r[j] == y);
            }
            if y == x {
                assert(r[l.len() as int] == y);
            }
        }
    }
}

} // verus!
