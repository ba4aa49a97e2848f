//! Routing policy of the per-category file router.

use tracing_catty::CattyConfig;
use vstd::prelude::*;

use crate::fmt::strings_model;

verus! {

#[verifier::external_type_specification]
#[verifier::external_body]
pub struct ExCattyConfig(CattyConfig);

/// The categories that a policy mirrors to stdout in addition to their file.
pub uninterp spec fn console_cats(c: CattyConfig) -> Set<Seq<char>>;

/// The categories that a policy sends to stdout only.
pub uninterp spec fn console_only_cats(c: CattyConfig) -> Set<Seq<char>>;

/// Whether a policy mirrors errors to `errors.log`.
pub uninterp spec fn mirrors_errors(c: CattyConfig) -> bool;

/// Whether a policy mirrors warnings to `warnings.log`.
pub uninterp spec fn mirrors_warnings(c: CattyConfig) -> bool;

/// What a routing policy says.
#[verifier::ext_equal]
pub struct Policy {
    pub console_cats: Set<Seq<char>>,
    pub console_only_cats: Set<Seq<char>>,
    pub split_errors: bool,
    pub split_warnings: bool,
}

pub open spec fn policy(c: CattyConfig) -> Policy {
    Policy {
        console_cats: console_cats(c),
        console_only_cats: console_only_cats(c),
        split_errors: mirrors_errors(c),
        split_warnings: mirrors_warnings(c),
    }
}

/// `CattyConfig::new`: nothing goes to the console, errors are mirrored and
/// warnings are not.
#[verifier::external_body]
fn config_new() -> (r: CattyConfig)
    ensures
        console_cats(r) == Set::<Seq<char>>::empty(),
        console_only_cats(r) == Set::<Seq<char>>::empty(),
        mirrors_errors(r),
        !mirrors_warnings(r),
{
    CattyConfig::new()
}

/// `CattyConfig::console_cat`: one more category that is mirrored to stdout.
#[verifier::external_body]
fn with_console_cat(c: CattyConfig, cat: &str) -> (r: CattyConfig)
    ensures
        console_cats(r) == console_cats(c).insert(cat@),
        console_only_cats(r) == console_only_cats(c),
        mirrors_errors(r) == mirrors_errors(c),
        mirrors_warnings(r) == mirrors_warnings(c),
{
    c.console_cat(cat)
}

/// `CattyConfig::console_only_cat`: one more category that goes to stdout only.
#[verifier::external_body]
fn with_console_only_cat(c: CattyConfig, cat: &str) -> (r: CattyConfig)
    ensures
        console_cats(r) == console_cats(c),
        console_only_cats(r) == console_only_cats(c).insert(cat@),
        mirrors_errors(r) == mirrors_errors(c),
        mirrors_warnings(r) == mirrors_warnings(c),
{
    c.console_only_cat(cat)
}

/// `CattyConfig::split_errors`: whether errors are mirrored.
#[verifier::external_body]
fn with_split_errors(c: CattyConfig, yes: bool) -> (r: CattyConfig)
    ensures
        console_cats(r) == console_cats(c),
        console_only_cats(r) == console_only_cats(c),
        mirrors_errors(r) == yes,
        mirrors_warnings(r) == mirrors_warnings(c),
{
    c.split_errors(yes)
}

/// `CattyConfig::split_warnings`: whether warnings are mirrored.
#[verifier::external_body]
fn with_split_warnings(c: CattyConfig, yes: bool) -> (r: CattyConfig)
    ensures
        console_cats(r) == console_cats(c),
        console_only_cats(r) == console_only_cats(c),
        mirrors_errors(r) == mirrors_errors(c),
        mirrors_warnings(r) == yes,
{
    c.split_warnings(yes)
}

/// The stock policy.
pub open spec fn default_policy() -> Policy {
    Policy {
        console_cats: set!["progress"@],
        console_only_cats: set!["console"@],
        split_errors: true,
        split_warnings: false,
    }
}

/// The stock policy: `cat="progress"` mirrors to stdout (the user-facing
/// milestone stream), `cat="console"` is stdout-only ephemeral chatter, and
/// errors fan out to `errors.log`.
pub fn default_router_config() -> (r: CattyConfig)
    ensures
        policy(r) == default_policy(),
        console_cats(r) == set!["progress"@],
        console_only_cats(r) == set!["console"@],
        mirrors_errors(r),
        !mirrors_warnings(r),
{
    let c = with_console_only_cat(with_console_cat(config_new(), "progress"), "console");
    assert(policy(c) =~= default_policy());
    c
}

/// The categories in a list, or the stock category where there is no list.
pub open spec fn cats_or(cats: Option<Vec<String>>, stock: Seq<char>) -> Set<Seq<char>> {
    match cats {
        Some(v) => strings_model(v@).to_set(),
        None => set![stock],
    }
}

proof fn lemma_to_set_push(s: Seq<Seq<char>>, x: Seq<char>)
    ensures
        s.push(x).to_set() == s.to_set().insert(x),
{
    assert forall|y: Seq<char>| s.push(x).to_set().contains(y) == s.to_set().insert(
        x,
    ).contains(y) by {
        if s.contains(y) {
            let i = choose|i: int| 0 <= i < s.len() && s[i] == y;
            assert(s.push(x)[i] == y);
        }
        assert(s.push(x)[s.len() as int] == x);
        if s.push(x).contains(y) && y != x {
            let i = choose|i: int| 0 <= i < s.push(x).len() && s.push(x)[i] == y;
            assert(s[i] == y);
        }
    }
    assert(s.push(x).to_set() =~= s.to_set().insert(x));
}

/// A policy from the arguments of a call: the lists replace the stock
/// categories.
pub fn router_config(
    cats: Option<Vec<String>>,
    only_cats: Option<Vec<String>>,
    split_errors: bool,
    split_warnings: bool,
) -> (r: CattyConfig)
    ensures
        policy(r) == (Policy {
            console_cats: cats_or(cats, "progress"@),
            console_only_cats: cats_or(only_cats, "console"@),
            split_errors,
            split_warnings,
        }),
        mirrors_errors(r) == split_errors,
        mirrors_warnings(r) == split_warnings,
        cats is None ==> console_cats(r) == set!["progress"@],
        only_cats is None ==> console_only_cats(r) == set!["console"@],
        cats matches Some(v) ==> console_cats(r) == strings_model(v@).to_set(),
        only_cats matches Some(v) ==> console_only_cats(r) == strings_model(v@).to_set(),
{
    let mut config: CattyConfig = with_split_warnings(
        with_split_errors(config_new(), split_errors),
        split_warnings,
    );
    match &cats {
        Some(v) => {
            let ghost all = strings_model(v@);
            let n: usize = v.len();
            let mut i: usize = 0;
            assert(all.subrange(0, 0).to_set() =~= Set::<Seq<char>>::empty());
            while i < n
                invariant
                    n == v@.len(),
                    i <= n,
                    all == strings_model(v@),
                    console_cats(config) == all.subrange(0, i as int).to_set(),
                    console_only_cats(config) == Set::<Seq<char>>::empty(),
                    mirrors_errors(config) == split_errors,
                    mirrors_warnings(config) == split_warnings,
                decreases n - i,
            {
                config = with_console_cat(config, v[i].as_str());
                proof {
                    lemma_to_set_push(all.subrange(0, i as int), all[i as int]);
                    assert(all.subrange(0, i + 1) =~= all.subrange(0, i as int).push(
                        all[i as int],
                    ));
                }
                i = i + 1;
            }
            assert(all.subrange(0, n as int) =~= all);
        },
        None => {
            config = with_console_cat(config, "progress");
        },
    }
    assert(console_cats(config) =~= cats_or(cats, "progress"@));
    match &only_cats {
        Some(v) => {
            let ghost all = strings_model(v@);
            let n: usize = v.len();
            let mut i: usize = 0;
            assert(all.subrange(0, 0).to_set() =~= Set::<Seq<char>>::empty());
            while i < n
                invariant
                    n == v@.len(),
                    i <= n,
                    all == strings_model(v@),
                    console_cats(config) == cats_or(cats, "progress"@),
                    console_only_cats(config) == all.subrange(0, i as int).to_set(),
                    mirrors_errors(config) == split_errors,
                    mirrors_warnings(config) == split_warnings,
                decreases n - i,
            {
                config = with_console_only_cat(config, v[i].as_str());
                proof {
                    lemma_to_set_push(all.subrange(0, i as int), all[i as int]);
                    assert(all.subrange(0, i + 1) =~= all.subrange(0, i as int).push(
                        all[i as int],
                    ));
                }
                i = i + 1;
            }
            assert(all.subrange(0, n as int) =~= all);
        },
        None => {
            config = with_console_only_cat(config, "console");
        },
    }
    assert(console_only_cats(config) =~= cats_or(only_cats, "console"@));
    config
}

/// A call without arguments asks for the stock policy.
pub proof fn law_no_arguments_is_the_stock_policy()
    ensures
        (Policy {
            console_cats: cats_or(None, "progress"@),
            console_only_cats: cats_or(None, "console"@),
            split_errors: true,
            split_warnings: false,
        }) == default_policy(),
{
}

/// A list of categories replaces the stock category and means each of its entries
/// and nothing else; where there is no list the stock category is meant alone.
pub proof fn law_categories_are_those_listed(
    cats: Vec<String>,
    stock: Seq<char>,
    cat: Seq<char>,
)
    ensures
        cats_or(Some(cats), stock).contains(cat) <==> exists|i: int|
            0 <= i < cats@.len() && (#[trigger] cats@[i])@ == cat,
        cats_or(None, stock).contains(cat) <==> cat == stock,
{
    let all = strings_model(cats@);
    if cats_or(Some(cats), stock).contains(cat) {
        let i = choose|i: int| 0 <= i < all.len() && all[i] == cat;
        assert(cats@[i]@ == cat);
    }
    if exists|i: int| 0 <= i < cats@.len() && (#[trigger] cats@[i])@ == cat {
        let i = choose|i: int| 0 <= i < cats@.len() && (#[trigger] cats@[i])@ == cat;
        assert(all[i] == cat);
    }
}

/// The stock policy mirrors `progress`, keeps `console` off disk, splits errors off
/// and leaves warnings where they are.
pub proof fn law_stock_policy()
    ensures
        default_policy().console_cats == set!["progress"@],
        default_policy().console_only_cats == set!["console"@],
        default_policy().split_errors,
        !default_policy().split_warnings,
{
}

/// What a policy says is what the configuration holds.
pub proof fn law_policy_says_what_it_holds(c: CattyConfig)
    ensures
        policy(c).console_cats == console_cats(c),
        policy(c).console_only_cats == console_only_cats(c),
        policy(c).split_errors == mirrors_errors(c),
        policy(c).split_warnings == mirrors_warnings(c),
{
}

}
