//! Setting up the walker of the `ignore` crate from a plan.

use vstd::prelude::*;
use crate::record::ScanConfig;
use crate::walker::{WalkPlan, plan_matches, plan_walks, planned};

verus! {

/// A walk builder of `ignore`. Its inside is not visible here.
#[verifier::external_type_specification]
#[verifier::external_body]
pub struct ExWalkBuilder(ignore::WalkBuilder);

/// The settings of a walk that a scan depends on.
pub struct WalkSettings {
    /// The directory at which the walk starts.
    pub root: Seq<char>,
    /// Whether the walk descends through symbolic links.
    pub follow_links: bool,
    /// Whether dot-prefixed entries are left out.
    pub skip_hidden: bool,
    /// Whether the ignore files of the repository are honoured.
    pub git_ignore: bool,
    /// Whether the machine-wide ignore file is honoured.
    pub git_global: bool,
    /// Whether the repository's private exclude file is honoured.
    pub git_exclude: bool,
}

/// The settings that a plan asks for.
pub open spec fn settings_of(plan: WalkPlan) -> WalkSettings {
    WalkSettings {
        root: plan.root@,
        follow_links: plan.follow_links,
        skip_hidden: plan.skip_hidden,
        git_ignore: plan.git_ignore,
        git_global: plan.git_global,
        git_exclude: plan.git_exclude,
    }
}

/// The settings that a builder holds: its one root and the switches that
/// the scanner sets.
pub uninterp spec fn builder_settings(builder: ignore::WalkBuilder) -> WalkSettings;

/// Calls `WalkBuilder::new`: a builder for the one root given, which does
/// not follow links, leaves hidden entries out and honours all ignore rules.
#[verifier::external_body]
fn new_builder(root: &str) -> (builder: ignore::WalkBuilder)
    ensures
        builder_settings(builder) == (WalkSettings {
            root: root@,
            follow_links: false,
            skip_hidden: true,
            git_ignore: true,
            git_global: true,
            git_exclude: true,
        }),
{
    ignore::WalkBuilder::new(root)
}

/// Calls `WalkBuilder::follow_links`, which sets that switch and no other.
#[verifier::external_body]
fn set_follow_links(builder: &mut ignore::WalkBuilder, yes: bool)
    ensures
        builder_settings(*final(builder)) == (WalkSettings {
            follow_links: yes,
            ..builder_settings(*old(builder))
        }),
{
    builder.follow_links(yes);
}

/// Calls `WalkBuilder::hidden`, which sets that switch and no other.
#[verifier::external_body]
fn set_hidden(builder: &mut ignore::WalkBuilder, yes: bool)
    ensures
        builder_settings(*final(builder)) == (WalkSettings {
            skip_hidden: yes,
            ..builder_settings(*old(builder))
        }),
{
    builder.hidden(yes);
}

/// Calls `WalkBuilder::git_ignore`, which sets that switch and no other.
#[verifier::external_body]
fn set_git_ignore(builder: &mut ignore::WalkBuilder, yes: bool)
    ensures
        builder_settings(*final(builder)) == (WalkSettings {
            git_ignore: yes,
            ..builder_settings(*old(builder))
        }),
{
    builder.git_ignore(yes);
}

/// Calls `WalkBuilder::git_global`, which sets that switch and no other.
#[verifier::external_body]
fn set_git_global(builder: &mut ignore::WalkBuilder, yes: bool)
    ensures
        builder_settings(*final(builder)) == (WalkSettings {
            git_global: yes,
            ..builder_settings(*old(builder))
        }),
{
    builder.git_global(yes);
}

/// Calls `WalkBuilder::git_exclude`, which sets that switch and no other.
#[verifier::external_body]
fn set_git_exclude(builder: &mut ignore::WalkBuilder, yes: bool)
    ensures
        builder_settings(*final(builder)) == (WalkSettings {
            git_exclude: yes,
            ..builder_settings(*old(builder))
        }),
{
    builder.git_exclude(yes);
}

/// Sets up a walk builder as a plan asks: every setting of the plan is a
/// setting of the builder.
pub fn configure(plan: &WalkPlan) -> (builder: ignore::WalkBuilder)
    ensures
        builder_settings(builder) == settings_of(*plan),
{
    let mut builder = new_builder(plan.root.as_str());
    set_follow_links(&mut builder, plan.follow_links);
    set_hidden(&mut builder, plan.skip_hidden);
    set_git_ignore(&mut builder, plan.git_ignore);
    set_git_global(&mut builder, plan.git_global);
    set_git_exclude(&mut builder, plan.git_exclude);
    builder
}

/// The settings under which the root at position `i` of a configuration is
/// walked: links are followed as the configuration says, hidden entries take
/// part, and every ignore rule is honoured.
pub open spec fn settings_for(config: ScanConfig, i: int) -> WalkSettings {
    WalkSettings {
        root: config.roots@[i]@,
        follow_links: config.follow_symlinks,
        skip_hidden: false,
        git_ignore: true,
        git_global: true,
        git_exclude: true,
    }
}

/// Sets up one walk builder for each root of the configuration, in the order
/// of the roots.
pub fn dispatch(config: &ScanConfig) -> (builders: Vec<ignore::WalkBuilder>)
    ensures
        builders@.len() == config.roots@.len(),
        forall|i: int|
            0 <= i < builders@.len() ==> builder_settings(#[trigger] builders@[i]) == settings_for(
                *config,
                i,
            ),
{
    let plans = plan_walks(config);
    let mut builders: Vec<ignore::WalkBuilder> = Vec::new();
    let mut i: usize = 0;
    while i < plans.len()
        invariant
            0 <= i <= plans@.len(),
            planned(plans@, *config),
            builders@.len() == i,
            forall|j: int|
                0 <= j < i ==> builder_settings(#[trigger] builders@[j]) == settings_for(
                    *config,
                    j,
                ),
        decreases plans@.len() - i,
    {
        assert(plan_matches(plans@[i as int], config.roots@[i as int], config.follow_symlinks));
        builders.push(configure(&plans[i]));
        i += 1;
    }
    builders
}

/// Under one symlink policy the roots are walked with the same settings,
/// whatever the concurrency.
pub proof fn lemma_settings_ignore_concurrency(c1: ScanConfig, c2: ScanConfig, i: int)
    requires
        c1.roots@ == c2.roots@,
        c1.follow_symlinks == c2.follow_symlinks,
    ensures
        settings_for(c1, i) == settings_for(c2, i),
{
}

} // verus!
