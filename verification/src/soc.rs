//! Which hardware the registers are generated for.

use vstd::prelude::*;

verus! {

/// The features that a build was asked for.
#[derive(Clone, Copy, Debug, PartialEq, Eq, Structural)]
pub struct Features {
    // The targets.
    pub precursor: bool,
    pub hosted: bool,
    pub renode: bool,
    // The revisions of the hardware of the `precursor` target.
    pub precursor_c809403: bool,
    pub precursor_c809403_perflib: bool,
    pub precursor_2753c12_dvt: bool,
}

/// A group of features of which one is to be picked.
#[derive(Clone, Copy, Debug, PartialEq, Eq, Structural)]
pub enum Category {
    Targets,
    Gitrevs,
}

/// Why a build cannot go on.
#[derive(Clone, Copy, Debug, PartialEq, Eq, Structural)]
pub enum FeatureError {
    /// No feature of the group was asked for.
    NonePicked(Category),
    /// More than one feature of the group was asked for.
    MultiplePicked(Category),
}

/// The files of a target.
#[derive(Clone, Copy, Debug)]
pub struct SvdFiles {
    /// The description of the hardware.
    pub svd: &'static str,
    /// The file that is generated from it.
    pub generated: &'static str,
}

/// One where a feature is asked for.
pub open spec fn one(feature: bool) -> int {
    if feature {
        1
    } else {
        0
    }
}

/// The number of targets asked for.
pub open spec fn target_count(f: Features) -> int {
    one(f.precursor) + one(f.hosted) + one(f.renode)
}

/// The number of revisions asked for.
pub open spec fn gitrev_count(f: Features) -> int {
    one(f.precursor_c809403) + one(f.precursor_c809403_perflib) + one(f.precursor_2753c12_dvt)
}

/// What is wrong with a number of features of a group, if anything.
pub open spec fn count_error(category: Category, count: int) -> Option<FeatureError> {
    if count == 0 {
        Some(FeatureError::NonePicked(category))
    } else if count == 1 {
        None
    } else {
        Some(FeatureError::MultiplePicked(category))
    }
}

/// What is wrong with the features, if anything. Revisions only matter for the `precursor` target.
pub open spec fn features_error(f: Features) -> Option<FeatureError> {
    match count_error(Category::Targets, target_count(f)) {
        Some(e) => Some(e),
        None => if f.precursor {
            count_error(Category::Gitrevs, gitrev_count(f))
        } else {
            None
        },
    }
}

fn count(a: bool, b: bool, c: bool) -> (n: u32)
    ensures
        n == one(a) + one(b) + one(c),
{
    let mut n: u32 = 0;
    if a {
        n = n + 1;
    }
    if b {
        n = n + 1;
    }
    if c {
        n = n + 1;
    }
    n
}

fn single(category: Category, count: u32) -> (r: Result<(), FeatureError>)
    ensures
        match r {
            Ok(_) => count_error(category, count as int) is None,
            Err(e) => count_error(category, count as int) == Some(e),
        },
{
    match count {
        0 => Err(FeatureError::NonePicked(category)),
        1 => Ok(()),
        _ => Err(FeatureError::MultiplePicked(category)),
    }
}

/// Checks that one target was asked for, and one revision where the target has several.
pub fn check(f: Features) -> (r: Result<(), FeatureError>)
    ensures
        match r {
            Ok(_) => features_error(f) is None,
            Err(e) => features_error(f) == Some(e),
        },
{
    match single(Category::Targets, count(f.precursor, f.hosted, f.renode)) {
        Err(e) => Err(e),
        Ok(_) => {
            if f.precursor {
                single(
                    Category::Gitrevs,
                    count(
                        f.precursor_c809403,
                        f.precursor_c809403_perflib,
                        f.precursor_2753c12_dvt,
                    ),
                )
            } else {
                Ok(())
            }
        },
    }
}

/// The name of a group of features.
pub fn category_name(category: Category) -> (name: &'static str)
    ensures
        name@ == (match category {
            Category::Targets => "targets"@,
            Category::Gitrevs => "gitrevs"@,
        }),
{
    match category {
        Category::Targets => "targets",
        Category::Gitrevs => "gitrevs",
    }
}

/// The files of the target. The revision only picks those of `precursor`. Without hardware, in
/// hosted mode, there are none.
pub fn svd_files(f: Features) -> (files: Option<SvdFiles>)
    requires
        features_error(f) is None,
    ensures
        files is None <==> f.hosted,
        files matches Some(s) ==> if f.renode {
            &&& s.svd@ == "renode/renode.svd"@
            &&& s.generated@ == "src/generated/renode.rs"@
        } else if f.precursor_2753c12_dvt {
            &&& s.svd@ == "precursor/soc-dvt-2753c12.svd"@
            &&& s.generated@ == "src/generated/precursor_dvt_2753c12.rs"@
        } else if f.precursor_c809403_perflib {
            &&& s.svd@ == "precursor/soc-perf-c809403.svd"@
            &&& s.generated@ == "src/generated/precursor_perf_c809403.rs"@
        } else {
            &&& f.precursor_c809403
            &&& s.svd@ == "precursor/soc-c809403.svd"@
            &&& s.generated@ == "src/generated/precursor_c809403.rs"@
        },
{
    if f.hosted {
        None
    } else if f.renode {
        Some(SvdFiles { svd: "renode/renode.svd", generated: "src/generated/renode.rs" })
    } else if f.precursor_2753c12_dvt {
        Some(
            SvdFiles {
                svd: "precursor/soc-dvt-2753c12.svd",
                generated: "src/generated/precursor_dvt_2753c12.rs",
            },
        )
    } else if f.precursor_c809403_perflib {
        Some(
            SvdFiles {
                svd: "precursor/soc-perf-c809403.svd",
                generated: "src/generated/precursor_perf_c809403.rs",
            },
        )
    } else {
        Some(
            SvdFiles {
                svd: "precursor/soc-c809403.svd",
                generated: "src/generated/precursor_c809403.rs",
            },
        )
    }
}

/// A build that goes on is for one target, and for one revision where that is `precursor`.
pub proof fn law_sane_builds_have_one_target(f: Features)
    requires
        features_error(f) is None,
    ensures
        f.precursor ==> !f.hosted && !f.renode && gitrev_count(f) == 1,
        f.hosted ==> !f.precursor && !f.renode,
        f.renode ==> !f.precursor && !f.hosted,
        f.precursor || f.hosted || f.renode,
{
}

/// No target at all is an error, and so are two or three. With one target there is nothing more to
/// ask, but for `precursor`, where the same holds of its revisions.
pub proof fn law_features_are_judged(f: Features)
    ensures
        !f.precursor && !f.hosted && !f.renode <==> features_error(f) == Some(
            FeatureError::NonePicked(Category::Targets),
        ),
        (f.precursor && f.hosted) || (f.precursor && f.renode) || (f.hosted && f.renode)
            <==> features_error(f) == Some(FeatureError::MultiplePicked(Category::Targets)),
        f.precursor && !f.hosted && !f.renode && !f.precursor_c809403
            && !f.precursor_c809403_perflib && !f.precursor_2753c12_dvt <==> features_error(f)
            == Some(FeatureError::NonePicked(Category::Gitrevs)),
        f.precursor && !f.hosted && !f.renode && ((f.precursor_c809403
            && f.precursor_c809403_perflib) || (f.precursor_c809403 && f.precursor_2753c12_dvt) || (
        f.precursor_c809403_perflib && f.precursor_2753c12_dvt)) <==> features_error(f) == Some(
            FeatureError::MultiplePicked(Category::Gitrevs),
        ),
        !f.precursor && f.hosted && !f.renode ==> features_error(f) is None,
        !f.precursor && !f.hosted && f.renode ==> features_error(f) is None,
        f.precursor && !f.hosted && !f.renode && f.precursor_c809403
            && !f.precursor_c809403_perflib && !f.precursor_2753c12_dvt ==> features_error(
            f,
        ) is None,
        f.precursor && !f.hosted && !f.renode && !f.precursor_c809403
            && f.precursor_c809403_perflib && !f.precursor_2753c12_dvt ==> features_error(
            f,
        ) is None,
        f.precursor && !f.hosted && !f.renode && !f.precursor_c809403
            && !f.precursor_c809403_perflib && f.precursor_2753c12_dvt ==> features_error(
            f,
        ) is None,
{
}

} // verus!
